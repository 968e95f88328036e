//! The loader as a mathematical state and the steps that change it. The
//! executable loader is specified by this model, and what must hold of every
//! loader is proved here once, of the model.

use crate::types::{BackendError, Key};
use crate::window::{first_occurrences, lemma_first_occurrences, lemma_first_occurrences_single};
use vstd::prelude::*;

verus! {

/// The handle of one call of `load`: what the caller keeps to ask for its
/// result later.
#[derive(Clone, Copy, Debug, PartialEq, Eq, Structural)]
pub enum Ticket {
    /// The key was resolved before the call; nothing was registered.
    Cached { key: Key },
    /// The call was registered in the window with number `window`, as the
    /// call number `slot` of that window.
    Queued { key: Key, window: usize, slot: usize },
}

impl Ticket {
    /// The key that the call asked for.
    pub open spec fn spec_key(&self) -> Key {
        match *self {
            Ticket::Cached { key } => key,
            Ticket::Queued { key, window, slot } => key,
        }
    }

    /// The key that the call asked for.
    #[verifier::when_used_as_spec(spec_key)]
    pub fn key(&self) -> (key: Key)
        ensures
            key == self.spec_key(),
    {
        match self {
            Ticket::Cached { key } => *key,
            Ticket::Queued { key, window, slot } => *key,
        }
    }
}

/// What a caller learns of its call.
#[derive(Clone, Copy, Debug, PartialEq, Eq)]
pub enum Outcome<V, E> {
    /// The window of the call has not been flushed yet.
    Pending,
    /// The request was aborted before the window of the call was flushed.
    Cancelled,
    /// The backend holds this value for the key.
    Found(V),
    /// The backend holds nothing for the key.
    NotFound,
    /// The fetch made for the window of the call failed.
    Failed(E),
}

/// A window that was flushed: the keys handed to the backend, and the error
/// if the fetch failed.
pub struct WindowView {
    pub keys: Seq<Key>,
    pub failure: Option<BackendError>,
}

/// The state of one loader.
pub struct LoaderView<V> {
    /// What each resolved key resolved to; `None` stands for a key that the
    /// backend does not hold.
    pub cache: Map<Key, Option<V>>,
    /// The key of every call registered in the open window, oldest first.
    pub calls: Seq<Key>,
    /// The flushed windows, oldest first: one backend fetch each.
    pub windows: Seq<WindowView>,
    /// Whether the request that owns the loader was aborted.
    pub aborted: bool,
}

/// What a successful fetch that returned `found` resolves the keys of its
/// window to.
pub open spec fn resolved<V>(keys: Seq<Key>, found: Map<Key, V>) -> Map<Key, Option<V>> {
    Map::new(
        |key: Key| keys.contains(key),
        |key: Key|
            if found.contains_key(key) {
                Some(found[key])
            } else {
                None
            },
    )
}

/// What a successful fetch that returned `found` answers for `key`.
pub open spec fn answer<V>(found: Map<Key, V>, key: Key) -> Outcome<V, BackendError> {
    if found.contains_key(key) {
        Outcome::Found(found[key])
    } else {
        Outcome::NotFound
    }
}

/// One step of a loader's life.
pub enum Step<V> {
    /// A call of `load` for this key.
    Load(Key),
    /// A flush, with what the fetch returned.
    Settle(Result<Map<Key, V>, BackendError>),
    /// The abort of the owning request.
    Abort,
}

impl<V> LoaderView<V> {
    /// The state of a loader that has done nothing yet.
    pub open spec fn fresh() -> Self {
        LoaderView {
            cache: Map::empty(),
            calls: Seq::empty(),
            windows: Seq::empty(),
            aborted: false,
        }
    }

    /// Whether a successful fetch of this loader asked for `key`.
    pub open spec fn fetched(self, key: Key) -> bool {
        exists|i: int|
            0 <= i < self.windows.len() && (#[trigger] self.windows[i]).failure is None
                && self.windows[i].keys.contains(key)
    }

    /// What holds of every state that a loader can reach: an aborted loader
    /// has no waiting call; no waiting call asks for a resolved key; every
    /// fetch asked for at least one key and for none twice; the resolved keys
    /// are those that a successful fetch asked for; and no fetch asked for a
    /// key that a successful fetch had asked for before.
    pub open spec fn wf(self) -> bool {
        &&& self.aborted ==> self.calls.len() == 0
        &&& forall|key: Key| #[trigger] self.cache.contains_key(key) ==> self.fetched(key)
        &&& forall|key: Key| #[trigger] self.calls.contains(key) ==> !self.cache.contains_key(key)
        &&& forall|i: int|
            0 <= i < self.windows.len() ==> (#[trigger] self.windows[i]).keys.len() > 0
                && self.windows[i].keys.no_duplicates()
        &&& forall|i: int, key: Key|
            0 <= i < self.windows.len() && self.windows[i].failure is None
                && #[trigger] self.windows[i].keys.contains(key) ==> self.cache.contains_key(key)
        &&& forall|i: int, j: int, key: Key|
            0 <= i < j < self.windows.len() && self.windows[i].failure is None
                && #[trigger] self.windows[i].keys.contains(key)
                ==> !#[trigger] self.windows[j].keys.contains(key)
    }

    /// The keys that the next fetch will ask for.
    pub open spec fn pending_keys(self) -> Seq<Key> {
        first_occurrences(self.calls)
    }

    /// One call of `load`: a resolved key is answered from the cache and
    /// changes nothing, any other key is registered in the open window. After
    /// an abort nothing is registered any more.
    pub open spec fn load(self, key: Key) -> (Self, Ticket) {
        if self.cache.contains_key(key) {
            (self, Ticket::Cached { key })
        } else {
            let ticket = Ticket::Queued {
                key,
                window: self.windows.len() as usize,
                slot: self.calls.len() as usize,
            };
            if self.aborted {
                (self, ticket)
            } else {
                (LoaderView { calls: self.calls.push(key), ..self }, ticket)
            }
        }
    }

    /// One call of `load` for each of `keys`, in order.
    pub open spec fn load_many(self, keys: Seq<Key>) -> (Self, Seq<Ticket>)
        decreases keys.len(),
    {
        if keys.len() == 0 {
            (self, Seq::empty())
        } else {
            let (before, tickets) = self.load_many(keys.drop_last());
            let (after, ticket) = before.load(keys.last());
            (after, tickets.push(ticket))
        }
    }

    /// The flush of the open window, given what the one fetch for its keys
    /// returned. A window without calls is left alone: no fetch was due.
    pub open spec fn settle(self, outcome: Result<Map<Key, V>, BackendError>) -> Self {
        if self.calls.len() == 0 {
            self
        } else {
            let keys = self.pending_keys();
            match outcome {
                Ok(found) => LoaderView {
                    cache: self.cache.union_prefer_right(resolved(keys, found)),
                    calls: Seq::empty(),
                    windows: self.windows.push(WindowView { keys, failure: None }),
                    ..self
                },
                Err(error) => LoaderView {
                    calls: Seq::empty(),
                    windows: self.windows.push(WindowView { keys, failure: Some(error) }),
                    ..self
                },
            }
        }
    }

    /// Whether `next` is what a flush makes of this state, whatever the fetch
    /// returned.
    pub open spec fn settles_to(self, next: Self) -> bool {
        exists|outcome: Result<Map<Key, V>, BackendError>| next == #[trigger] self.settle(outcome)
    }

    /// The abort of the owning request: the calls of the open window are
    /// released, and no fetch will be made for them.
    pub open spec fn abort(self) -> Self {
        LoaderView { calls: Seq::empty(), aborted: true, ..self }
    }

    /// The test that picks the keys that are not resolved yet.
    pub open spec fn unresolved(self) -> spec_fn(Key) -> bool {
        |key: Key| !self.cache.contains_key(key)
    }

    /// The state after one step.
    pub open spec fn step(self, step: Step<V>) -> Self {
        match step {
            Step::Load(key) => self.load(key).0,
            Step::Settle(outcome) => self.settle(outcome),
            Step::Abort => self.abort(),
        }
    }

    /// The state after `steps`, taken in order.
    pub open spec fn run(self, steps: Seq<Step<V>>) -> Self
        decreases steps.len(),
    {
        if steps.len() == 0 {
            self
        } else {
            self.run(steps.drop_last()).step(steps.last())
        }
    }

    /// What the cache says of `key`.
    pub open spec fn lookup(self, key: Key) -> Outcome<V, BackendError> {
        if self.cache.contains_key(key) {
            match self.cache[key] {
                Some(value) => Outcome::Found(value),
                None => Outcome::NotFound,
            }
        } else {
            Outcome::Pending
        }
    }

    /// What the holder of `ticket` is told.
    pub open spec fn outcome_of(self, ticket: Ticket) -> Outcome<V, BackendError> {
        match ticket {
            Ticket::Cached { key } => self.lookup(key),
            Ticket::Queued { key, window, slot } => {
                if window < self.windows.len() {
                    match self.windows[window as int].failure {
                        Some(error) => Outcome::Failed(error),
                        None => self.lookup(key),
                    }
                } else if self.aborted {
                    Outcome::Cancelled
                } else {
                    Outcome::Pending
                }
            },
        }
    }

    /// Whether `ticket` stands for a call that is registered in the open
    /// window.
    pub open spec fn waits(self, ticket: Ticket) -> bool {
        match ticket {
            Ticket::Cached { key } => false,
            Ticket::Queued { key, window, slot } => {
                &&& window == self.windows.len()
                &&& slot < self.calls.len()
                &&& self.calls[slot as int] == key
            },
        }
    }
}

/// While a call waits, the next fetch asks for at least one key, and for no
/// key twice.
pub proof fn lemma_pending_keys<V>(state: LoaderView<V>)
    requires
        state.calls.len() > 0,
    ensures
        state.pending_keys().len() > 0,
        state.pending_keys().no_duplicates(),
{
    lemma_first_occurrences(state.calls);
    assert(state.calls.contains(state.calls[0]));
    assert(state.pending_keys().contains(state.calls[0]));
}

/// A flush without a waiting call changes nothing, whatever it is given.
pub proof fn lemma_idle_settles_to_itself<V>(state: LoaderView<V>)
    requires
        state.calls.len() == 0,
    ensures
        forall|outcome: Result<Map<Key, V>, BackendError>| #[trigger] state.settle(outcome) == state,
        state.settles_to(state),
{
    assert(state.settle(Ok(Map::<Key, V>::empty())) == state);
}

/// `load` keeps the state well formed.
pub proof fn lemma_load_wf<V>(state: LoaderView<V>, key: Key)
    requires
        state.wf(),
    ensures
        state.load(key).0.wf(),
{
    let next = state.load(key).0;
    if next != state {
        assert forall|other: Key| #[trigger] next.calls.contains(other) implies !next.cache.contains_key(
            other,
        ) by {
            let i = choose|i: int| 0 <= i < next.calls.len() && next.calls[i] == other;
            if i < state.calls.len() {
                assert(state.calls[i] == other);
                assert(state.calls.contains(other));
            }
        }
    }
}

/// `settle` keeps the state well formed.
pub proof fn lemma_settle_wf<V>(state: LoaderView<V>, outcome: Result<Map<Key, V>, BackendError>)
    requires
        state.wf(),
    ensures
        state.settle(outcome).wf(),
{
    let next = state.settle(outcome);
    if state.calls.len() > 0 {
        let keys = state.pending_keys();
        let last = state.windows.len() as int;
        lemma_first_occurrences(state.calls);
        assert(state.calls.contains(state.calls[0]));
        assert(keys.contains(state.calls[0]));
        assert(next.windows[last].keys == keys);
        assert forall|i: int| 0 <= i < next.windows.len() implies (#[trigger] next.windows[i]).keys.len()
            > 0 && next.windows[i].keys.no_duplicates() by {
            if i < last {
                assert(next.windows[i] == state.windows[i]);
            }
        }
        assert forall|i: int, key: Key|
            0 <= i < next.windows.len() && next.windows[i].failure is None
                && #[trigger] next.windows[i].keys.contains(key) implies next.cache.contains_key(
            key,
        ) by {
            if i < last {
                assert(next.windows[i] == state.windows[i]);
                assert(state.windows[i].keys.contains(key));
                assert(state.cache.contains_key(key));
            }
        }
        assert forall|key: Key| #[trigger] next.cache.contains_key(key) implies next.fetched(
            key,
        ) by {
            if state.cache.contains_key(key) {
                let i = choose|i: int|
                    0 <= i < state.windows.len() && (#[trigger] state.windows[i]).failure is None
                        && state.windows[i].keys.contains(key);
                assert(next.windows[i] == state.windows[i]);
            } else {
                assert(next.windows[last].failure is None);
            }
        }
        assert forall|i: int, j: int, key: Key|
            0 <= i < j < next.windows.len() && next.windows[i].failure is None
                && #[trigger] next.windows[i].keys.contains(key) implies !#[trigger] next.windows[j].keys.contains(
            key,
        ) by {
            assert(next.windows[i] == state.windows[i]);
            assert(state.windows[i].keys.contains(key));
            if j < last {
                assert(next.windows[j] == state.windows[j]);
            } else {
                assert(state.cache.contains_key(key));
                assert(!state.calls.contains(key));
            }
        }
    }
}

/// `abort` keeps the state well formed.
pub proof fn lemma_abort_wf<V>(state: LoaderView<V>)
    requires
        state.wf(),
    ensures
        state.abort().wf(),
{
}

/// Every state that a loader reaches from its start, by whatever calls,
/// flushes and aborts, is well formed.
pub proof fn law_reachable_states_are_wf<V>(steps: Seq<Step<V>>)
    ensures
        LoaderView::<V>::fresh().run(steps).wf(),
    decreases steps.len(),
{
    if steps.len() > 0 {
        law_reachable_states_are_wf(steps.drop_last());
        let before = LoaderView::<V>::fresh().run(steps.drop_last());
        match steps.last() {
            Step::Load(key) => lemma_load_wf(before, key),
            Step::Settle(outcome) => lemma_settle_wf(before, outcome),
            Step::Abort => lemma_abort_wf(before),
        }
    }
}

/// The calls of `load_many` change nothing but the open window, which they
/// join in order, but for the keys that are resolved already.
pub proof fn law_loads_join_the_open_window<V>(state: LoaderView<V>, keys: Seq<Key>)
    requires
        !state.aborted,
    ensures
        state.load_many(keys).0 == (LoaderView {
            calls: state.calls + keys.filter(state.unresolved()),
            ..state
        }),
        state.load_many(keys).1.len() == keys.len(),
    decreases keys.len(),
{
    reveal(Seq::filter);
    if keys.len() == 0 {
        assert(state.calls + keys.filter(state.unresolved()) =~= state.calls);
    } else {
        let front = keys.drop_last();
        law_loads_join_the_open_window(state, front);
        let before = state.load_many(front).0;
        assert(before.unresolved()(keys.last()) == state.unresolved()(keys.last()));
        if state.unresolved()(keys.last()) {
            assert(state.calls + keys.filter(state.unresolved()) =~= (state.calls + front.filter(
                state.unresolved(),
            )).push(keys.last()));
        }
    }
}

/// However many calls one window collects, and however often they repeat a
/// key, its flush makes exactly one fetch, for each key once. A second flush
/// without new calls makes none.
pub proof fn law_one_fetch_per_window<V>(
    state: LoaderView<V>,
    outcome: Result<Map<Key, V>, BackendError>,
)
    requires
        state.calls.len() > 0,
    ensures
        ({
            let next = state.settle(outcome);
            let keys = next.windows.last().keys;
            &&& next.windows.len() == state.windows.len() + 1
            &&& next.windows.drop_last() == state.windows
            &&& keys == first_occurrences(state.calls)
            &&& keys.no_duplicates()
            &&& forall|key: Key| #[trigger] keys.contains(key) <==> state.calls.contains(key)
            &&& next.calls.len() == 0
            &&& forall|again: Result<Map<Key, V>, BackendError>| #[trigger]
                next.settle(again) == next
        }),
{
    lemma_first_occurrences(state.calls);
    assert(state.settle(outcome).windows.drop_last() =~= state.windows);
}

/// All the calls made between two flushes are served by one fetch, which
/// asks once for each key among them that was not resolved before. Where
/// every key was resolved before, or no call was made, nothing is fetched.
pub proof fn law_one_fetch_for_all_loads<V>(
    state: LoaderView<V>,
    keys: Seq<Key>,
    outcome: Result<Map<Key, V>, BackendError>,
)
    requires
        !state.aborted,
        state.calls.len() == 0,
    ensures
        ({
            let asked = keys.filter(state.unresolved());
            let next = state.load_many(keys).0.settle(outcome);
            if asked.len() == 0 {
                next == state
            } else {
                &&& next.windows.len() == state.windows.len() + 1
                &&& next.windows.drop_last() == state.windows
                &&& next.windows.last().keys == first_occurrences(asked)
            }
        }),
{
    law_loads_join_the_open_window(state, keys);
    let asked = keys.filter(state.unresolved());
    assert(state.calls + asked =~= asked);
    if asked.len() > 0 {
        law_one_fetch_per_window(state.load_many(keys).0, outcome);
    } else {
        assert(state.load_many(keys).0 == state);
    }
}

/// A key that one successful fetch asked for is never asked for again: it is
/// in no later fetch and not in the open window, and `load` answers it from
/// the cache.
pub proof fn law_no_second_fetch<V>(state: LoaderView<V>, i: int, key: Key)
    requires
        state.wf(),
        0 <= i < state.windows.len(),
        state.windows[i].failure is None,
        state.windows[i].keys.contains(key),
    ensures
        forall|j: int| i < j < state.windows.len() ==> !(#[trigger] state.windows[j]).keys.contains(key),
        !state.pending_keys().contains(key),
        state.load(key) == (state, Ticket::Cached { key }),
{
    lemma_first_occurrences(state.calls);
}

/// The cache holds the keys that the successful fetches of this loader asked
/// for, and no others: nothing enters it from elsewhere.
pub proof fn law_cache_holds_what_was_fetched<V>(state: LoaderView<V>, key: Key)
    requires
        state.wf(),
    ensures
        state.cache.contains_key(key) <==> state.fetched(key),
{
}

/// Loading no key changes nothing, and a flush after it fetches nothing.
pub proof fn law_load_of_nothing<V>(state: LoaderView<V>, outcome: Result<Map<Key, V>, BackendError>)
    ensures
        state.load_many(Seq::empty()) == (state, Seq::<Ticket>::empty()),
        state.calls.len() == 0 ==> state.load_many(Seq::empty()).0.settle(outcome) == state,
{
}

/// A key that is not resolved gets a ticket that waits in the open window,
/// unless the request was aborted.
pub proof fn law_load_registers<V>(state: LoaderView<V>, key: Key)
    requires
        !state.aborted,
        !state.cache.contains_key(key),
        state.windows.len() <= usize::MAX,
        state.calls.len() < usize::MAX,
    ensures
        state.load(key).0.waits(state.load(key).1),
        state.load(key).1.key() == key,
{
}

/// A call that waits keeps waiting while other calls join its window.
pub proof fn law_waiting_survives_loads<V>(state: LoaderView<V>, ticket: Ticket, key: Key)
    requires
        state.waits(ticket),
    ensures
        state.load(key).0.waits(ticket),
{
}

/// After a successful flush every call that waited has its answer: the value
/// that the fetch returned for its key, or the note that it returned none.
/// Calls for the same key get the same answer.
pub proof fn law_every_caller_is_answered<V>(state: LoaderView<V>, ticket: Ticket, found: Map<Key, V>)
    requires
        state.wf(),
        state.waits(ticket),
    ensures
        state.settle(Ok(found)).outcome_of(ticket) == answer(found, ticket.key()),
{
    lemma_first_occurrences(state.calls);
    match ticket {
        Ticket::Cached { key } => {},
        Ticket::Queued { key, window, slot } => {
            assert(state.calls.contains(key));
            assert(state.pending_keys().contains(key));
        },
    }
}

/// After a failed flush every call that waited holds the error of the fetch,
/// and the cache is as it was.
pub proof fn law_failure_reaches_every_caller<V>(
    state: LoaderView<V>,
    ticket: Ticket,
    error: BackendError,
)
    requires
        state.waits(ticket),
    ensures
        state.settle(Err(error)).outcome_of(ticket) == Outcome::<V, BackendError>::Failed(error),
        state.settle(Err(error)).cache == state.cache,
{
}

/// A failed flush does not stand in the way of the next window: a key asked
/// for after it is fetched and answered as if nothing had failed.
pub proof fn law_failure_does_not_poison<V>(
    state: LoaderView<V>,
    error: BackendError,
    key: Key,
    found: Map<Key, V>,
)
    requires
        state.wf(),
        state.calls.len() > 0,
        !state.cache.contains_key(key),
        state.windows.len() < usize::MAX,
    ensures
        ({
            let failed = state.settle(Err(error));
            let (asked, ticket) = failed.load(key);
            let next = asked.settle(Ok(found));
            &&& asked.pending_keys() == seq![key]
            &&& next.outcome_of(ticket) == answer(found, key)
        }),
{
    let failed = state.settle(Err(error));
    let (asked, ticket) = failed.load(key);
    lemma_settle_wf(state, Err(error));
    lemma_load_wf(failed, key);
    assert(asked.calls == seq![key]);
    lemma_first_occurrences_single(key);
    assert(asked.waits(ticket));
    law_every_caller_is_answered(asked, ticket, found);
}

/// An answer, once given, stays: no later step changes what a ticket that
/// is no longer pending is told.
pub proof fn law_answers_are_final<V>(state: LoaderView<V>, ticket: Ticket, step: Step<V>)
    requires
        state.wf(),
        state.outcome_of(ticket) != Outcome::<V, BackendError>::Pending,
    ensures
        state.step(step).outcome_of(ticket) == state.outcome_of(ticket),
{
    let next = state.step(step);
    lemma_first_occurrences(state.calls);
    assert(forall|i: int| 0 <= i < state.windows.len() ==> next.windows[i] == state.windows[i]);
    assert(forall|key: Key|
        state.cache.contains_key(key) ==> next.cache.contains_key(key) && next.cache[key]
            == state.cache[key]);
}

/// A loader that has just been made knows nothing: the first call for a key
/// waits for a fetch of its own, and is answered by what that fetch returned.
pub proof fn law_fresh_loader_fetches<V>(key: Key, found: Map<Key, V>)
    ensures
        ({
            let (asked, ticket) = LoaderView::<V>::fresh().load(key);
            &&& ticket == Ticket::Queued { key, window: 0, slot: 0 }
            &&& asked.pending_keys() == seq![key]
            &&& asked.settle(Ok(found)).outcome_of(ticket) == answer(found, key)
        }),
{
    let fresh = LoaderView::<V>::fresh();
    let (asked, ticket) = fresh.load(key);
    lemma_load_wf(fresh, key);
    assert(asked.calls == seq![key]);
    lemma_first_occurrences_single(key);
    assert(asked.waits(ticket));
    law_every_caller_is_answered(asked, ticket, found);
}

} // verus!
