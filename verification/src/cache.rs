//! The result cache of one loader: a plain key-value store without eviction.

use crate::types::Key;
use std::collections::HashMap;
use vstd::prelude::*;

verus! {

broadcast use vstd::std_specs::hash::group_hash_axioms;

/// Remembers what each key resolved to, for as long as its loader lives.
pub struct Cache<T> {
    entries: HashMap<Key, T>,
}

impl<T> View for Cache<T> {
    type V = Map<Key, T>;

    closed spec fn view(&self) -> Map<Key, T> {
        self.entries@
    }
}

impl<T> Cache<T> {
    /// An empty cache.
    pub fn new() -> (cache: Self)
        ensures
            cache@ == Map::<Key, T>::empty(),
    {
        Cache { entries: HashMap::new() }
    }

    /// Whether `key` has an entry.
    pub fn has(&self, key: Key) -> (present: bool)
        ensures
            present == self@.contains_key(key),
    {
        self.entries.contains_key(&key)
    }

    /// The entry of `key`, if there is one.
    pub fn get(&self, key: Key) -> (entry: Option<&T>)
        ensures
            match entry {
                Some(value) => self@.contains_key(key) && *value == self@[key],
                None => !self@.contains_key(key),
            },
    {
        self.entries.get(&key)
    }

    /// Stores `value` under `key`, replacing an earlier entry.
    pub fn put(&mut self, key: Key, value: T)
        ensures
            final(self)@ == old(self)@.insert(key, value),
    {
        self.entries.insert(key, value);
    }

    /// The number of entries.
    pub fn len(&self) -> (count: usize)
        ensures
            count == self@.len(),
            self@.dom().finite(),
    {
        self.entries.len()
    }
}

} // verus!
