//! The batch window: the keys asked for since the last flush, each kept once,
//! and one slot for every call that asked.

use crate::types::Key;
use std::collections::HashSet;
use vstd::prelude::*;

verus! {

broadcast use vstd::std_specs::hash::group_hash_axioms;

/// The keys of `calls`, each at the place where it was first asked for.
pub open spec fn first_occurrences(calls: Seq<Key>) -> Seq<Key>
    decreases calls.len(),
{
    if calls.len() == 0 {
        Seq::empty()
    } else {
        let earlier = first_occurrences(calls.drop_last());
        if earlier.contains(calls.last()) {
            earlier
        } else {
            earlier.push(calls.last())
        }
    }
}

/// `first_occurrences` keeps every key that was asked for, keeps none twice
/// and adds none.
pub proof fn lemma_first_occurrences(calls: Seq<Key>)
    ensures
        first_occurrences(calls).no_duplicates(),
        first_occurrences(calls).len() <= calls.len(),
        forall|key: Key| #[trigger] first_occurrences(calls).contains(key) <==> calls.contains(key),
    decreases calls.len(),
{
    if calls.len() > 0 {
        let front = calls.drop_last();
        let earlier = first_occurrences(front);
        lemma_first_occurrences(front);
        assert forall|key: Key| #[trigger]
            first_occurrences(calls).contains(key) <==> calls.contains(key) by {
            if calls.contains(key) {
                let i = choose|i: int| 0 <= i < calls.len() && calls[i] == key;
                if i < front.len() {
                    assert(front[i] == key);
                    assert(earlier.contains(key));
                    let j = choose|j: int| 0 <= j < earlier.len() && earlier[j] == key;
                    assert(first_occurrences(calls)[j] == key);
                } else {
                    if !earlier.contains(key) {
                        assert(earlier.push(key)[earlier.len() as int] == key);
                    }
                }
            }
            if first_occurrences(calls).contains(key) {
                let j = choose|j: int|
                    0 <= j < first_occurrences(calls).len() && first_occurrences(calls)[j] == key;
                if j < earlier.len() {
                    assert(earlier[j] == key);
                    assert(earlier.contains(key));
                    let i = choose|i: int| 0 <= i < front.len() && front[i] == key;
                    assert(calls[i] == key);
                } else {
                    assert(calls[calls.len() - 1] == key);
                }
            }
        }
    }
}

/// One more call adds its key to the distinct keys, unless the key was asked
/// for before.
pub proof fn lemma_first_occurrences_push(calls: Seq<Key>, key: Key)
    ensures
        first_occurrences(calls.push(key)) == if calls.contains(key) {
            first_occurrences(calls)
        } else {
            first_occurrences(calls).push(key)
        },
{
    lemma_first_occurrences(calls);
    assert(calls.push(key).drop_last() == calls);
}

/// A window of one call asks for the key of that call.
pub proof fn lemma_first_occurrences_single(key: Key)
    ensures
        first_occurrences(seq![key]) == seq![key],
{
    lemma_first_occurrences_push(Seq::empty(), key);
    assert(Seq::<Key>::empty().push(key) == seq![key]);
    assert(first_occurrences(Seq::<Key>::empty()).push(key) == seq![key]);
}

/// What a closed window hands over: its distinct keys in the order in which
/// they were first asked for, and the key of every call in the order of the
/// calls.
pub struct Batch {
    pub keys: Vec<Key>,
    pub calls: Vec<Key>,
}

/// Collects the calls of one window without blocking any of them.
pub struct Accumulator {
    keys: Vec<Key>,
    seen: HashSet<Key>,
    calls: Vec<Key>,
}

impl View for Accumulator {
    type V = Seq<Key>;

    /// The key of each registered call, oldest first.
    closed spec fn view(&self) -> Seq<Key> {
        self.calls@
    }
}

impl Accumulator {
    /// The distinct keys are kept beside the calls, and the set of seen keys
    /// agrees with both.
    pub closed spec fn wf(&self) -> bool {
        &&& self.keys@ == first_occurrences(self.calls@)
        &&& forall|key: Key| self.seen@.contains(key) <==> self.calls@.contains(key)
    }

    /// A window without calls.
    pub fn new() -> (window: Self)
        ensures
            window.wf(),
            window@ == Seq::<Key>::empty(),
    {
        Accumulator { keys: Vec::new(), seen: HashSet::new(), calls: Vec::new() }
    }

    /// Registers one call for `key` and returns its slot, the number of calls
    /// that were registered before it.
    pub fn register(&mut self, key: Key) -> (slot: usize)
        requires
            old(self).wf(),
        ensures
            final(self).wf(),
            final(self)@ == old(self)@.push(key),
            slot == old(self)@.len(),
    {
        let slot = self.calls.len();
        proof {
            lemma_first_occurrences_push(self.calls@, key);
        }
        self.calls.push(key);
        let fresh = self.seen.insert(key);
        if fresh {
            self.keys.push(key);
        }
        assert forall|other: Key| self.seen@.contains(other) <==> self.calls@.contains(other) by {
            if old(self).calls@.contains(other) {
                let i = choose|i: int| 0 <= i < old(self).calls@.len() && old(self).calls@[i] == other;
                assert(self.calls@[i] == other);
            }
            if other == key {
                assert(self.calls@[slot as int] == key);
            }
        }
        slot
    }

    /// The number of registered calls.
    pub fn len(&self) -> (count: usize)
        ensures
            count == self@.len(),
    {
        self.calls.len()
    }

    /// Whether no call is registered.
    pub fn is_empty(&self) -> (empty: bool)
        ensures
            empty == (self@.len() == 0),
    {
        self.calls.len() == 0
    }

    /// The distinct keys of the window, in the order in which they were first
    /// asked for.
    pub fn keys(&self) -> (keys: &Vec<Key>)
        requires
            self.wf(),
        ensures
            keys@ == first_occurrences(self@),
    {
        &self.keys
    }

    /// Closes the window: hands over its keys and calls and leaves an empty
    /// window behind.
    pub fn close(&mut self) -> (batch: Batch)
        requires
            old(self).wf(),
        ensures
            final(self).wf(),
            final(self)@ == Seq::<Key>::empty(),
            batch.keys@ == first_occurrences(old(self)@),
            batch.calls@ == old(self)@,
    {
        let mut keys: Vec<Key> = Vec::new();
        let mut calls: Vec<Key> = Vec::new();
        std::mem::swap(&mut keys, &mut self.keys);
        std::mem::swap(&mut calls, &mut self.calls);
        self.seen.clear();
        Batch { keys, calls }
    }
}

} // verus!
