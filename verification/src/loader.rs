//! The loader: a result cache, an open batch window and the record of the
//! windows that were flushed. It never blocks: `load` registers a call and
//! returns at once, `flush` closes the window with one fetch, and `outcome`
//! tells each caller what became of its call. The window stays open until
//! `flush` or `settle` is called, so every call made before that shares the
//! one fetch.

use crate::cache::Cache;
use crate::model::{
    lemma_abort_wf, lemma_idle_settles_to_itself, lemma_load_wf, lemma_pending_keys,
    lemma_settle_wf, resolved, LoaderView, Outcome, Ticket, WindowView,
};
use crate::types::{BackendError, Key};
use crate::window::{lemma_first_occurrences, Accumulator};
use std::collections::HashMap;
use vstd::prelude::*;

verus! {

broadcast use vstd::std_specs::hash::group_hash_axioms;

/// The record of one flushed window.
struct Flushed {
    keys: Vec<Key>,
    failure: Option<BackendError>,
}

impl View for Flushed {
    type V = WindowView;

    closed spec fn view(&self) -> WindowView {
        WindowView { keys: self.keys@, failure: self.failure }
    }
}

/// What a backend fetch returned, with the found entries as a map.
pub open spec fn returned<V>(outcome: Result<HashMap<Key, V>, BackendError>) -> Result<
    Map<Key, V>,
    BackendError,
> {
    match outcome {
        Ok(found) => Ok(found@),
        Err(error) => Err(error),
    }
}

/// An outcome that borrows its value and its error, as the value and the
/// error themselves.
pub open spec fn owned<V, E>(outcome: Outcome<&V, &E>) -> Outcome<V, E> {
    match outcome {
        Outcome::Pending => Outcome::Pending,
        Outcome::Cancelled => Outcome::Cancelled,
        Outcome::Found(value) => Outcome::Found(*value),
        Outcome::NotFound => Outcome::NotFound,
        Outcome::Failed(error) => Outcome::Failed(*error),
    }
}

/// The backend of one kind of lookup: one query for all the keys of a window.
/// It is never given an empty list, nor a key twice. Keys that it holds
/// nothing for are left out of its answer.
pub trait BatchFetcher<V> {
    fn fetch(&mut self, keys: &Vec<Key>) -> Result<HashMap<Key, V>, BackendError>
        requires
            keys@.len() > 0,
            keys@.no_duplicates(),
    ;
}

/// Batches and memoises the lookups of one kind for one request.
pub struct Loader<V> {
    cache: Cache<Option<V>>,
    window: Accumulator,
    closed: Vec<Flushed>,
    aborted: bool,
}

impl<V> View for Loader<V> {
    type V = LoaderView<V>;

    closed spec fn view(&self) -> LoaderView<V> {
        LoaderView {
            cache: self.cache@,
            calls: self.window@,
            windows: self.closed@.map_values(|window: Flushed| window@),
            aborted: self.aborted,
        }
    }
}

impl<V> Loader<V> {
    /// The open window keeps its own books, and the state is one that the
    /// model allows.
    pub closed spec fn wf(&self) -> bool {
        &&& self.window.wf()
        &&& self@.wf()
    }

    /// A loader with an empty cache, an empty window and no fetch behind it.
    pub fn new() -> (loader: Self)
        ensures
            loader.wf(),
            loader@ == LoaderView::<V>::fresh(),
    {
        let loader = Loader {
            cache: Cache::new(),
            window: Accumulator::new(),
            closed: Vec::new(),
            aborted: false,
        };
        assert(loader@.windows =~= Seq::empty());
        loader
    }

    /// Asks for `key` without blocking. A key that is resolved already is
    /// answered from the cache; any other key joins the open window, and is
    /// fetched with the rest of it at the next flush.
    pub fn load(&mut self, key: Key) -> (ticket: Ticket)
        requires
            old(self).wf(),
        ensures
            final(self).wf(),
            (final(self)@, ticket) == old(self)@.load(key),
    {
        proof {
            lemma_load_wf(self@, key);
        }
        if self.cache.has(key) {
            Ticket::Cached { key }
        } else {
            let window = self.closed.len();
            if self.aborted {
                Ticket::Queued { key, window, slot: self.window.len() }
            } else {
                let slot = self.window.register(key);
                Ticket::Queued { key, window, slot }
            }
        }
    }

    /// Asks for each of `keys` in turn, as `load` does, and returns the
    /// tickets in the order of the keys.
    pub fn load_many(&mut self, keys: &Vec<Key>) -> (tickets: Vec<Ticket>)
        requires
            old(self).wf(),
        ensures
            final(self).wf(),
            (final(self)@, tickets@) == old(self)@.load_many(keys@),
    {
        let mut tickets: Vec<Ticket> = Vec::new();
        let mut i: usize = 0;
        while i < keys.len()
            invariant
                0 <= i <= keys.len(),
                self.wf(),
                (self@, tickets@) == old(self)@.load_many(keys@.take(i as int)),
            decreases keys.len() - i,
        {
            let ticket = self.load(keys[i]);
            tickets.push(ticket);
            proof {
                assert(keys@.take(i + 1).drop_last() == keys@.take(i as int));
            }
            i += 1;
        }
        proof {
            assert(keys@.take(i as int) == keys@);
        }
        tickets
    }

    /// Whether a call is waiting in the open window.
    pub fn has_pending(&self) -> (waiting: bool)
        ensures
            waiting == (self@.calls.len() > 0),
    {
        !self.window.is_empty()
    }

    /// The number of calls that are waiting in the open window.
    pub fn pending_calls(&self) -> (count: usize)
        ensures
            count == self@.calls.len(),
    {
        self.window.len()
    }

    /// The keys that the fetch for the open window has to ask for: every key
    /// that a waiting call asked for, once.
    pub fn pending_keys(&self) -> (keys: &Vec<Key>)
        requires
            self.wf(),
        ensures
            keys@ == self@.pending_keys(),
    {
        self.window.keys()
    }

    /// Flushes the open window with what the fetch for `pending_keys`
    /// returned. After a successful fetch every key of the window is cached,
    /// with its value or as missing, and entries for keys that the window
    /// did not ask for are dropped; after a failed one the cache is as it
    /// was and every call of the window holds the error. Without a waiting
    /// call nothing changes.
    pub fn settle(&mut self, outcome: Result<HashMap<Key, V>, BackendError>)
        requires
            old(self).wf(),
        ensures
            final(self).wf(),
            final(self)@ == old(self)@.settle(returned(outcome)),
    {
        if self.window.is_empty() {
            return ;
        }
        proof {
            lemma_settle_wf(self@, returned(outcome));
            lemma_first_occurrences(self.window@);
        }
        let batch = self.window.close();
        let keys = batch.keys;
        match outcome {
            Ok(found) => {
                let ghost given = found@;
                let mut found = found;
                let mut i: usize = 0;
                while i < keys.len()
                    invariant
                        0 <= i <= keys.len(),
                        keys@.no_duplicates(),
                        self.window.wf(),
                        self.window@ == Seq::<Key>::empty(),
                        self.closed == old(self).closed,
                        self.aborted == old(self).aborted,
                        self.cache@ == old(self).cache@.union_prefer_right(
                            resolved(keys@.take(i as int), given),
                        ),
                        forall|j: int|
                            i <= j < keys.len() ==> (found@.contains_key(#[trigger] keys@[j])
                                <==> given.contains_key(keys@[j])) && (given.contains_key(
                                keys@[j],
                            ) ==> found@[keys@[j]] == given[keys@[j]]),
                    decreases keys.len() - i,
                {
                    let key = keys[i];
                    let entry = found.remove(&key);
                    self.cache.put(key, entry);
                    proof {
                        let before = keys@.take(i as int);
                        let after = keys@.take(i + 1);
                        assert(after == before.push(key));
                        assert forall|other: Key| after.contains(other) <==> (before.contains(
                            other,
                        ) || other == key) by {
                            if before.contains(other) {
                                let j = choose|j: int| 0 <= j < before.len() && before[j] == other;
                                assert(after[j] == other);
                            }
                            assert(after[i as int] == key);
                        }
                        assert(self.cache@ =~= old(self).cache@.union_prefer_right(
                            resolved(after, given),
                        ));
                    }
                    i += 1;
                }
                proof {
                    assert(keys@.take(i as int) == keys@);
                }
                self.closed.push(Flushed { keys, failure: None });
            },
            Err(error) => {
                self.closed.push(Flushed { keys, failure: Some(error) });
            },
        }
        proof {
            assert(self@.windows =~= old(self)@.settle(returned(outcome)).windows);
        }
    }

    /// The flush point: makes the one fetch that the open window is due, for
    /// each of its keys once, and settles the window with what came back.
    /// Without a waiting call the backend is not asked.
    pub fn flush<F: BatchFetcher<V>>(&mut self, fetcher: &mut F)
        requires
            old(self).wf(),
        ensures
            final(self).wf(),
            old(self)@.settles_to(final(self)@),
            old(self)@.calls.len() == 0 ==> *final(fetcher) == *old(fetcher),
    {
        if self.has_pending() {
            proof {
                lemma_pending_keys(self@);
            }
            let found = fetcher.fetch(self.pending_keys());
            self.settle(found);
        } else {
            proof {
                lemma_idle_settles_to_itself(self@);
            }
        }
    }

    /// Releases the calls of the open window because the owning request was
    /// aborted. They are told so, and nothing is fetched for this loader any
    /// more.
    pub fn abort(&mut self)
        requires
            old(self).wf(),
        ensures
            final(self).wf(),
            final(self)@ == old(self)@.abort(),
    {
        proof {
            lemma_abort_wf(self@);
        }
        let _ = self.window.close();
        self.aborted = true;
    }

    /// What became of the call that `ticket` was given for.
    pub fn outcome(&self, ticket: Ticket) -> (outcome: Outcome<&V, &BackendError>)
        requires
            self.wf(),
        ensures
            owned(outcome) == self@.outcome_of(ticket),
    {
        match ticket {
            Ticket::Cached { key } => self.lookup(key),
            Ticket::Queued { key, window, slot } => {
                if window < self.closed.len() {
                    match &self.closed[window].failure {
                        Some(error) => Outcome::Failed(error),
                        None => self.lookup(key),
                    }
                } else if self.aborted {
                    Outcome::Cancelled
                } else {
                    Outcome::Pending
                }
            },
        }
    }

    /// What the cache holds for `key`: its value, the note that the backend
    /// holds none, or nothing yet.
    pub fn lookup(&self, key: Key) -> (outcome: Outcome<&V, &BackendError>)
        ensures
            owned(outcome) == self@.lookup(key),
    {
        match self.cache.get(key) {
            Some(Some(value)) => Outcome::Found(value),
            Some(None) => Outcome::NotFound,
            None => Outcome::Pending,
        }
    }

    /// Whether `key` is resolved.
    pub fn is_cached(&self, key: Key) -> (cached: bool)
        ensures
            cached == self@.cache.contains_key(key),
    {
        self.cache.has(key)
    }

    /// Whether the owning request was aborted.
    pub fn is_aborted(&self) -> (aborted: bool)
        ensures
            aborted == self@.aborted,
    {
        self.aborted
    }

    /// The number of backend fetches that were made for this loader.
    pub fn fetch_count(&self) -> (count: usize)
        ensures
            count == self@.windows.len(),
    {
        self.closed.len()
    }

    /// The keys that the fetch number `index` asked for, oldest fetch first.
    pub fn fetched_keys(&self, index: usize) -> (keys: Option<&Vec<Key>>)
        ensures
            match keys {
                Some(keys) => index < self@.windows.len() && keys@ == self@.windows[index as int].keys,
                None => index >= self@.windows.len(),
            },
    {
        if index < self.closed.len() {
            Some(&self.closed[index].keys)
        } else {
            None
        }
    }
}

} // verus!
