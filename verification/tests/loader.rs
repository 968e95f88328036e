use batch_loader::loader::{BatchFetcher, Loader};
use batch_loader::model::{Outcome, Ticket};
use batch_loader::types::BackendError;
use std::collections::HashMap;

fn names(pairs: &[(i32, &str)]) -> HashMap<i32, String> {
    let mut found = HashMap::new();
    for (key, name) in pairs {
        found.insert(*key, name.to_string());
    }
    found
}

struct Names {
    held: Vec<(i32, String)>,
    asked: Vec<Vec<i32>>,
    failing: bool,
}

impl Names {
    fn of(pairs: &[(i32, &str)]) -> Names {
        let held = pairs.iter().map(|(key, name)| (*key, name.to_string())).collect();
        Names { held, asked: Vec::new(), failing: false }
    }
}

impl BatchFetcher<String> for Names {
    fn fetch(&mut self, keys: &Vec<i32>) -> Result<HashMap<i32, String>, BackendError> {
        self.asked.push(keys.clone());
        if self.failing {
            return Err(BackendError::new("no answer".to_string()));
        }
        let mut found = HashMap::new();
        for (key, name) in &self.held {
            if keys.contains(key) {
                found.insert(*key, name.clone());
            }
        }
        Ok(found)
    }
}

#[test]
fn flush_fetches_once_for_the_whole_window() {
    let mut backend = Names::of(&[(1, "one"), (2, "two"), (3, "three")]);
    let mut loader: Loader<String> = Loader::new();
    let tickets = loader.load_many(&vec![1, 2, 2, 3]);
    assert!(backend.asked.is_empty());
    loader.flush(&mut backend);
    assert_eq!(backend.asked, vec![vec![1, 2, 3]]);
    let two = "two".to_string();
    assert_eq!(loader.outcome(tickets[1]), Outcome::Found(&two));
    assert_eq!(loader.outcome(tickets[2]), Outcome::Found(&two));
    loader.flush(&mut backend);
    assert_eq!(backend.asked.len(), 1);
    assert_eq!(loader.fetch_count(), 1);
}

#[test]
fn flush_after_loading_nothing_does_not_ask() {
    let mut backend = Names::of(&[(1, "one")]);
    let mut loader: Loader<String> = Loader::new();
    loader.load_many(&Vec::new());
    loader.flush(&mut backend);
    assert!(backend.asked.is_empty());
    assert_eq!(loader.fetch_count(), 0);
}

#[test]
fn flush_asks_only_for_what_is_not_cached() {
    let mut backend = Names::of(&[(1, "one"), (2, "two")]);
    let mut loader: Loader<String> = Loader::new();
    loader.load(1);
    loader.flush(&mut backend);
    loader.load(1);
    loader.flush(&mut backend);
    loader.load_many(&vec![2, 1, 5, 2]);
    loader.flush(&mut backend);
    assert_eq!(backend.asked, vec![vec![1], vec![2, 5]]);
    assert_eq!(loader.lookup(5), Outcome::NotFound);
}

#[test]
fn flush_hands_a_failure_to_the_window_and_recovers() {
    let mut backend = Names::of(&[(1, "one"), (2, "two")]);
    let mut loader: Loader<String> = Loader::new();
    backend.failing = true;
    let first = loader.load(1);
    let twin = loader.load(1);
    loader.flush(&mut backend);
    backend.failing = false;
    let second = loader.load(2);
    loader.flush(&mut backend);
    let error = BackendError::new("no answer".to_string());
    let two = "two".to_string();
    assert_eq!(loader.outcome(first), Outcome::Failed(&error));
    assert_eq!(loader.outcome(twin), Outcome::Failed(&error));
    assert_eq!(loader.outcome(second), Outcome::Found(&two));
    assert_eq!(backend.asked, vec![vec![1], vec![2]]);
}

#[test]
fn new_loader_has_done_nothing() {
    let loader: Loader<String> = Loader::new();
    assert!(!loader.has_pending());
    assert_eq!(loader.pending_calls(), 0);
    assert_eq!(loader.pending_keys(), &Vec::<i32>::new());
    assert_eq!(loader.fetch_count(), 0);
    assert_eq!(loader.fetched_keys(0), None);
    assert!(!loader.is_cached(1));
    assert!(!loader.is_aborted());
    assert_eq!(loader.lookup(1), Outcome::Pending);
}

#[test]
fn duplicate_keys_share_one_fetch() {
    let mut loader: Loader<String> = Loader::new();
    let tickets = loader.load_many(&vec![1, 2, 2, 3]);
    assert_eq!(tickets.len(), 4);
    assert_eq!(loader.pending_calls(), 4);
    assert_eq!(loader.pending_keys(), &vec![1, 2, 3]);
    assert_eq!(loader.fetch_count(), 0);
    for ticket in &tickets {
        assert_eq!(loader.outcome(*ticket), Outcome::Pending);
    }
    loader.settle(Ok(names(&[(1, "one"), (2, "two"), (3, "three")])));
    assert_eq!(loader.fetch_count(), 1);
    assert_eq!(loader.fetched_keys(0), Some(&vec![1, 2, 3]));
    assert_eq!(loader.fetched_keys(1), None);
    let one = "one".to_string();
    let two = "two".to_string();
    let three = "three".to_string();
    assert_eq!(loader.outcome(tickets[0]), Outcome::Found(&one));
    assert_eq!(loader.outcome(tickets[1]), Outcome::Found(&two));
    assert_eq!(loader.outcome(tickets[2]), Outcome::Found(&two));
    assert_eq!(loader.outcome(tickets[3]), Outcome::Found(&three));
    assert_eq!(loader.outcome(tickets[1]), loader.outcome(tickets[2]));
    assert_ne!(tickets[1], tickets[2]);
    assert!(!loader.has_pending());
    assert_eq!(loader.pending_calls(), 0);
}

#[test]
fn tickets_name_key_window_and_slot() {
    let mut loader: Loader<String> = Loader::new();
    let first = loader.load(4);
    let second = loader.load(9);
    let third = loader.load(4);
    assert_eq!(first, Ticket::Queued { key: 4, window: 0, slot: 0 });
    assert_eq!(second, Ticket::Queued { key: 9, window: 0, slot: 1 });
    assert_eq!(third, Ticket::Queued { key: 4, window: 0, slot: 2 });
    assert_eq!(third.key(), 4);
    loader.settle(Ok(names(&[(4, "four")])));
    let cached = loader.load(4);
    let queued = loader.load(5);
    assert_eq!(cached, Ticket::Cached { key: 4 });
    assert_eq!(cached.key(), 4);
    assert_eq!(queued, Ticket::Queued { key: 5, window: 1, slot: 0 });
}

#[test]
fn keys_are_fetched_in_the_order_of_their_first_call() {
    let mut loader: Loader<String> = Loader::new();
    loader.load_many(&vec![3, 1, 3, 2, 1]);
    assert_eq!(loader.pending_calls(), 5);
    assert_eq!(loader.pending_keys(), &vec![3, 1, 2]);
}

#[test]
fn load_many_of_nothing_fetches_nothing() {
    let mut loader: Loader<String> = Loader::new();
    let tickets = loader.load_many(&Vec::new());
    assert!(tickets.is_empty());
    assert!(!loader.has_pending());
    loader.settle(Ok(names(&[(1, "one")])));
    assert_eq!(loader.fetch_count(), 0);
    assert!(!loader.is_cached(1));
}

#[test]
fn second_load_of_a_key_is_served_from_the_cache() {
    let mut loader: Loader<String> = Loader::new();
    let first = loader.load(1);
    loader.settle(Ok(names(&[(1, "one")])));
    assert!(loader.is_cached(1));
    let second = loader.load(1);
    assert_eq!(second, Ticket::Cached { key: 1 });
    assert!(!loader.has_pending());
    let one = "one".to_string();
    assert_eq!(loader.outcome(second), Outcome::Found(&one));
    assert_eq!(loader.outcome(first), Outcome::Found(&one));
    loader.settle(Ok(names(&[(1, "changed")])));
    assert_eq!(loader.fetch_count(), 1);
    assert_eq!(loader.outcome(second), Outcome::Found(&one));
}

#[test]
fn cached_keys_stay_out_of_the_next_window() {
    let mut loader: Loader<String> = Loader::new();
    loader.load_many(&vec![1, 2]);
    loader.settle(Ok(names(&[(1, "one"), (2, "two")])));
    let tickets = loader.load_many(&vec![2, 3, 1, 4, 3]);
    assert_eq!(loader.pending_keys(), &vec![3, 4]);
    assert_eq!(loader.pending_calls(), 3);
    loader.settle(Ok(names(&[(3, "three"), (4, "four")])));
    assert_eq!(loader.fetch_count(), 2);
    assert_eq!(loader.fetched_keys(0), Some(&vec![1, 2]));
    assert_eq!(loader.fetched_keys(1), Some(&vec![3, 4]));
    let two = "two".to_string();
    let three = "three".to_string();
    assert_eq!(loader.outcome(tickets[0]), Outcome::Found(&two));
    assert_eq!(loader.outcome(tickets[1]), Outcome::Found(&three));
    assert_eq!(loader.outcome(tickets[4]), Outcome::Found(&three));
}

#[test]
fn missing_key_is_not_found_and_remembered() {
    let mut loader: Loader<String> = Loader::new();
    let present = loader.load(1);
    let absent = loader.load(5);
    loader.settle(Ok(names(&[(1, "one")])));
    let one = "one".to_string();
    assert_eq!(loader.outcome(present), Outcome::Found(&one));
    assert_eq!(loader.outcome(absent), Outcome::NotFound);
    assert!(loader.is_cached(5));
    assert_eq!(loader.lookup(5), Outcome::NotFound);
    let again = loader.load(5);
    assert_eq!(again, Ticket::Cached { key: 5 });
    assert_eq!(loader.outcome(again), Outcome::NotFound);
    assert!(!loader.has_pending());
}

#[test]
fn entries_that_nobody_asked_for_are_dropped() {
    let mut loader: Loader<String> = Loader::new();
    loader.load(1);
    loader.settle(Ok(names(&[(1, "one"), (9, "nine")])));
    assert!(loader.is_cached(1));
    assert!(!loader.is_cached(9));
    assert_eq!(loader.load(9), Ticket::Queued { key: 9, window: 1, slot: 0 });
}

#[test]
fn failed_fetch_reaches_every_caller_of_its_window() {
    let mut loader: Loader<String> = Loader::new();
    let first = loader.load(1);
    let second = loader.load(2);
    let third = loader.load(1);
    loader.settle(Err(BackendError::new("connection lost".to_string())));
    let error = BackendError::new("connection lost".to_string());
    assert_eq!(loader.outcome(first), Outcome::Failed(&error));
    assert_eq!(loader.outcome(second), Outcome::Failed(&error));
    assert_eq!(loader.outcome(third), Outcome::Failed(&error));
    assert!(!loader.is_cached(1));
    assert!(!loader.is_cached(2));
    assert_eq!(loader.fetch_count(), 1);
    assert_eq!(loader.fetched_keys(0), Some(&vec![1, 2]));
}

#[test]
fn failed_window_does_not_poison_the_next() {
    let mut loader: Loader<String> = Loader::new();
    let first = loader.load(1);
    loader.settle(Err(BackendError::new("timeout".to_string())));
    let other = loader.load(3);
    assert_eq!(other, Ticket::Queued { key: 3, window: 1, slot: 0 });
    loader.settle(Ok(names(&[(3, "three")])));
    let three = "three".to_string();
    let error = BackendError::new("timeout".to_string());
    assert_eq!(loader.outcome(other), Outcome::Found(&three));
    assert_eq!(loader.outcome(first), Outcome::Failed(&error));
    assert_eq!(loader.fetch_count(), 2);
}

#[test]
fn key_of_a_failed_window_may_be_fetched_again() {
    let mut loader: Loader<String> = Loader::new();
    let first = loader.load(1);
    loader.settle(Err(BackendError::new("timeout".to_string())));
    let retry = loader.load(1);
    assert_eq!(retry, Ticket::Queued { key: 1, window: 1, slot: 0 });
    assert_eq!(loader.pending_keys(), &vec![1]);
    loader.settle(Ok(names(&[(1, "one")])));
    let one = "one".to_string();
    let error = BackendError::new("timeout".to_string());
    assert_eq!(loader.outcome(retry), Outcome::Found(&one));
    assert_eq!(loader.outcome(first), Outcome::Failed(&error));
    assert_eq!(loader.fetch_count(), 2);
}

#[test]
fn settle_without_calls_changes_nothing() {
    let mut loader: Loader<String> = Loader::new();
    loader.settle(Err(BackendError::new("unused".to_string())));
    assert_eq!(loader.fetch_count(), 0);
    loader.load(1);
    loader.settle(Ok(names(&[(1, "one")])));
    loader.settle(Ok(names(&[(2, "two")])));
    loader.settle(Err(BackendError::new("unused".to_string())));
    assert_eq!(loader.fetch_count(), 1);
    assert!(!loader.is_cached(2));
}

#[test]
fn abort_releases_the_waiting_calls() {
    let mut loader: Loader<String> = Loader::new();
    let settled = loader.load(1);
    loader.settle(Ok(names(&[(1, "one")])));
    let waiting = loader.load(2);
    let twin = loader.load(2);
    assert_eq!(loader.outcome(waiting), Outcome::Pending);
    loader.abort();
    assert!(loader.is_aborted());
    assert!(!loader.has_pending());
    assert_eq!(loader.outcome(waiting), Outcome::Cancelled);
    assert_eq!(loader.outcome(twin), Outcome::Cancelled);
    let one = "one".to_string();
    assert_eq!(loader.outcome(settled), Outcome::Found(&one));
    let late = loader.load(3);
    assert_eq!(late, Ticket::Queued { key: 3, window: 1, slot: 0 });
    assert_eq!(loader.outcome(late), Outcome::Cancelled);
    assert!(!loader.has_pending());
    loader.settle(Ok(names(&[(2, "two"), (3, "three")])));
    assert_eq!(loader.fetch_count(), 1);
    assert!(!loader.is_cached(2));
    assert_eq!(loader.load(1), Ticket::Cached { key: 1 });
}

#[test]
fn backend_error_keeps_its_message() {
    let error = BackendError::new("disk full".to_string());
    assert_eq!(error.message(), "disk full");
    assert_eq!(error.message, "disk full".to_string());
    assert_ne!(error, BackendError::new("disk empty".to_string()));
}
