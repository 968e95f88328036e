use batch_loader::cache::Cache;
use batch_loader::window::Accumulator;

#[test]
fn cache_starts_empty() {
    let cache: Cache<String> = Cache::new();
    assert_eq!(cache.len(), 0);
    assert!(!cache.has(1));
    assert_eq!(cache.get(1), None);
}

#[test]
fn cache_returns_what_was_put() {
    let mut cache: Cache<String> = Cache::new();
    cache.put(1, "one".to_string());
    cache.put(-2, "minus two".to_string());
    assert!(cache.has(1));
    assert!(cache.has(-2));
    assert!(!cache.has(2));
    assert_eq!(cache.get(1), Some(&"one".to_string()));
    assert_eq!(cache.get(-2), Some(&"minus two".to_string()));
    assert_eq!(cache.get(2), None);
    assert_eq!(cache.len(), 2);
}

#[test]
fn cache_put_replaces_an_entry() {
    let mut cache: Cache<u8> = Cache::new();
    cache.put(7, 1);
    cache.put(7, 2);
    assert_eq!(cache.get(7), Some(&2));
    assert_eq!(cache.len(), 1);
}

#[test]
fn accumulator_starts_empty() {
    let window = Accumulator::new();
    assert!(window.is_empty());
    assert_eq!(window.len(), 0);
    assert_eq!(window.keys(), &Vec::<i32>::new());
}

#[test]
fn accumulator_gives_each_call_a_slot_and_each_key_one_place() {
    let mut window = Accumulator::new();
    assert_eq!(window.register(1), 0);
    assert_eq!(window.register(2), 1);
    assert_eq!(window.register(2), 2);
    assert_eq!(window.register(3), 3);
    assert_eq!(window.register(1), 4);
    assert!(!window.is_empty());
    assert_eq!(window.len(), 5);
    assert_eq!(window.keys(), &vec![1, 2, 3]);
}

#[test]
fn accumulator_close_hands_over_and_starts_again() {
    let mut window = Accumulator::new();
    window.register(5);
    window.register(4);
    window.register(5);
    let batch = window.close();
    assert_eq!(batch.keys, vec![5, 4]);
    assert_eq!(batch.calls, vec![5, 4, 5]);
    assert!(window.is_empty());
    assert_eq!(window.keys(), &Vec::<i32>::new());
    assert_eq!(window.register(5), 0);
    assert_eq!(window.keys(), &vec![5]);
    let empty = Accumulator::new().close();
    assert!(empty.keys.is_empty());
    assert!(empty.calls.is_empty());
}
