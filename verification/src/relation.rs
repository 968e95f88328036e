//! One-to-many loading over the join table of movies and characters: the
//! rows that one query returned are grouped by their parent, and every parent
//! that was asked for gets its children, be they none.

use crate::loader::Loader;
use crate::model::{law_every_caller_is_answered, LoaderView, Outcome, Ticket};
use crate::window::lemma_first_occurrences;
use crate::types::{BackendError, Key};
use std::collections::HashMap;
use vstd::prelude::*;

verus! {

broadcast use vstd::std_specs::hash::group_hash_axioms;

/// One row of the join table: this character appears in this movie.
#[derive(Clone, Copy, Debug, PartialEq, Eq, Structural)]
pub struct MovieCharacter {
    pub movie_id: Key,
    pub character_id: Key,
}

/// The column of the join table that holds the parent. The other column
/// holds the child.
#[derive(Clone, Copy, Debug, PartialEq, Eq, Structural)]
pub enum JoinColumn {
    /// Movies are the parents: the children of a movie are its characters.
    Movie,
    /// Characters are the parents: the children of a character are its
    /// movies.
    Character,
}

impl MovieCharacter {
    /// The parent that the row belongs to.
    pub open spec fn parent(self, by: JoinColumn) -> Key {
        match by {
            JoinColumn::Movie => self.movie_id,
            JoinColumn::Character => self.character_id,
        }
    }

    /// The child that the row gives to its parent.
    pub open spec fn child(self, by: JoinColumn) -> Key {
        match by {
            JoinColumn::Movie => self.character_id,
            JoinColumn::Character => self.movie_id,
        }
    }

    /// The parent that the row belongs to.
    pub fn parent_key(&self, by: JoinColumn) -> (key: Key)
        ensures
            key == self.parent(by),
    {
        match by {
            JoinColumn::Movie => self.movie_id,
            JoinColumn::Character => self.character_id,
        }
    }

    /// The child that the row gives to its parent.
    pub fn child_key(&self, by: JoinColumn) -> (key: Key)
        ensures
            key == self.child(by),
    {
        match by {
            JoinColumn::Movie => self.character_id,
            JoinColumn::Character => self.movie_id,
        }
    }
}

/// The row that gives `child` to `parent`.
pub open spec fn link(by: JoinColumn, parent: Key, child: Key) -> MovieCharacter {
    match by {
        JoinColumn::Movie => MovieCharacter { movie_id: parent, character_id: child },
        JoinColumn::Character => MovieCharacter { movie_id: child, character_id: parent },
    }
}

/// The test that picks the rows of `parent`.
pub open spec fn belongs_to(by: JoinColumn, parent: Key) -> spec_fn(MovieCharacter) -> bool {
    |row: MovieCharacter| row.parent(by) == parent
}

/// The step from a row to its child.
pub open spec fn child_in(by: JoinColumn) -> spec_fn(MovieCharacter) -> Key {
    |row: MovieCharacter| row.child(by)
}

/// The children of `parent`, in the order of their rows.
pub open spec fn children_of(rows: Seq<MovieCharacter>, by: JoinColumn, parent: Key) -> Seq<Key> {
    rows.filter(belongs_to(by, parent)).map_values(child_in(by))
}

/// Whether `groups` gives each of `parents`, and no other key, the children
/// that `rows` hold for it.
pub open spec fn groups_rows(
    groups: Map<Key, Vec<Key>>,
    parents: Seq<Key>,
    rows: Seq<MovieCharacter>,
    by: JoinColumn,
) -> bool {
    &&& forall|parent: Key| #[trigger] groups.contains_key(parent) <==> parents.contains(parent)
    &&& forall|parent: Key| #[trigger]
        groups.contains_key(parent) ==> groups[parent]@ == children_of(rows, by, parent)
}

/// Without rows no parent has a child.
pub proof fn lemma_no_rows_no_children(by: JoinColumn, parent: Key)
    ensures
        children_of(Seq::empty(), by, parent) == Seq::<Key>::empty(),
{
    reveal(Seq::filter);
    assert(Seq::<MovieCharacter>::empty().filter(belongs_to(by, parent)) == Seq::<
        MovieCharacter,
    >::empty());
}

/// One more row adds its child to the children of its parent and leaves the
/// children of every other parent as they were.
pub proof fn lemma_children_step(rows: Seq<MovieCharacter>, by: JoinColumn, parent: Key, i: int)
    requires
        0 <= i < rows.len(),
    ensures
        children_of(rows.take(i + 1), by, parent) == if rows[i].parent(by) == parent {
            children_of(rows.take(i), by, parent).push(rows[i].child(by))
        } else {
            children_of(rows.take(i), by, parent)
        },
{
    let front = rows.take(i);
    assert(rows.take(i + 1) == front.push(rows[i]));
    front.lemma_filter_push(rows[i], belongs_to(by, parent));
    if rows[i].parent(by) == parent {
        front.filter(belongs_to(by, parent)).lemma_push_map_commute(child_in(by), rows[i]);
    }
}

/// Groups the rows of one join query by their parent. Each of `parents` gets
/// an entry, an empty one where no row names it; rows of other parents are
/// left out.
pub fn group_children(parents: &Vec<Key>, rows: &Vec<MovieCharacter>, by: JoinColumn) -> (groups:
    HashMap<Key, Vec<Key>>)
    ensures
        groups_rows(groups@, parents@, rows@, by),
{
    let mut groups: HashMap<Key, Vec<Key>> = HashMap::new();
    let mut i: usize = 0;
    while i < parents.len()
        invariant
            0 <= i <= parents.len(),
            forall|parent: Key| #[trigger]
                groups@.contains_key(parent) <==> parents@.take(i as int).contains(parent),
            forall|parent: Key| #[trigger]
                groups@.contains_key(parent) ==> groups@[parent]@ == Seq::<Key>::empty(),
        decreases parents.len() - i,
    {
        let parent = parents[i];
        groups.insert(parent, Vec::new());
        proof {
            let before = parents@.take(i as int);
            let after = parents@.take(i + 1);
            assert(after == before.push(parent));
            assert forall|other: Key| #[trigger]
                groups@.contains_key(other) <==> after.contains(other) by {
                if before.contains(other) {
                    let j = choose|j: int| 0 <= j < before.len() && before[j] == other;
                    assert(after[j] == other);
                }
                assert(after[i as int] == parent);
            }
        }
        i += 1;
    }
    proof {
        assert(parents@.take(i as int) == parents@);
        assert forall|parent: Key| #[trigger] groups@.contains_key(parent) implies groups@[parent]@
            == children_of(rows@.take(0), by, parent) by {
            lemma_no_rows_no_children(by, parent);
            assert(rows@.take(0) == Seq::<MovieCharacter>::empty());
        }
    }
    let mut r: usize = 0;
    while r < rows.len()
        invariant
            0 <= r <= rows.len(),
            forall|parent: Key| #[trigger] groups@.contains_key(parent) <==> parents@.contains(parent),
            forall|parent: Key| #[trigger]
                groups@.contains_key(parent) ==> groups@[parent]@ == children_of(
                    rows@.take(r as int),
                    by,
                    parent,
                ),
        decreases rows.len() - r,
    {
        let parent = rows[r].parent_key(by);
        let child = rows[r].child_key(by);
        let ghost before = groups@;
        proof {
            assert forall|other: Key| #[trigger] before.contains_key(other) implies children_of(
                rows@.take(r + 1),
                by,
                other,
            ) == if other == parent {
                before[other]@.push(child)
            } else {
                before[other]@
            } by {
                lemma_children_step(rows@, by, other, r as int);
            }
        }
        match groups.remove(&parent) {
            Some(children) => {
                let mut children = children;
                children.push(child);
                groups.insert(parent, children);
            },
            None => {},
        }
        proof {
            assert forall|other: Key| #[trigger] groups@.contains_key(other) implies groups@[other]@
                == children_of(rows@.take(r + 1), by, other) by {
                assert(before.contains_key(other));
            }
        }
        r += 1;
    }
    proof {
        assert(rows@.take(r as int) == rows@);
    }
    groups
}

/// The rows that a join query returned, as a sequence.
pub open spec fn rows_fetched(rows: Result<Vec<MovieCharacter>, BackendError>) -> Result<
    Seq<MovieCharacter>,
    BackendError,
> {
    match rows {
        Ok(rows) => Ok(rows@),
        Err(error) => Err(error),
    }
}

/// Whether `after` is what a flush of `before` makes of the join query's
/// answer `rows`: a successful fetch that found, for each parent of the
/// window, the children that `rows` hold for it, or the failed fetch.
pub open spec fn settled_by_rows(
    before: LoaderView<Vec<Key>>,
    after: LoaderView<Vec<Key>>,
    by: JoinColumn,
    rows: Result<Seq<MovieCharacter>, BackendError>,
) -> bool {
    match rows {
        Ok(rows) => exists|groups: Map<Key, Vec<Key>>|
            groups_rows(groups, before.pending_keys(), rows, by) && after
                == #[trigger] before.settle(Ok(groups)),
        Err(error) => after == before.settle(Err(error)),
    }
}

/// Whether `after` is what a flush of `before` makes of some answer of the
/// join query.
pub open spec fn settles_rows_to(
    before: LoaderView<Vec<Key>>,
    after: LoaderView<Vec<Key>>,
    by: JoinColumn,
) -> bool {
    exists|rows: Result<Seq<MovieCharacter>, BackendError>| #[trigger]
        settled_by_rows(before, after, by, rows)
}

/// A flush without a waiting call changes nothing.
pub proof fn lemma_idle_settles_rows_to_itself(state: LoaderView<Vec<Key>>, by: JoinColumn)
    requires
        state.calls.len() == 0,
    ensures
        settles_rows_to(state, state, by),
{
    let groups = Map::<Key, Vec<Key>>::empty();
    assert(state.pending_keys() == Seq::<Key>::empty());
    assert(groups_rows(groups, state.pending_keys(), Seq::empty(), by) && state == state.settle(
        Ok(groups),
    ));
    assert(settled_by_rows(state, state, by, Ok(Seq::empty())));
}

impl Loader<Vec<Key>> {
    /// Flushes the open window of a relationship loader with the rows that
    /// the join query for `pending_keys` returned. Every parent of the window
    /// resolves to its children in the order of the rows, to an empty list
    /// where it has none. A failed query settles the window as a failed
    /// fetch.
    pub fn settle_rows(&mut self, by: JoinColumn, rows: Result<Vec<MovieCharacter>, BackendError>)
        requires
            old(self).wf(),
        ensures
            final(self).wf(),
            settled_by_rows(old(self)@, final(self)@, by, rows_fetched(rows)),
    {
        match rows {
            Ok(rows) => {
                let groups = group_children(self.pending_keys(), &rows, by);
                let ghost found = groups@;
                self.settle(Ok(groups));
                assert(groups_rows(found, old(self)@.pending_keys(), rows@, by) && self@ == old(
                    self,
                )@.settle(Ok(found)));
            },
            Err(error) => {
                self.settle(Err(error));
            },
        }
    }
}

/// After a successful flush of a relationship loader every call that waited
/// is told the children of its parent. It is never told that the parent is
/// missing.
pub proof fn law_every_parent_is_found(
    before: LoaderView<Vec<Key>>,
    after: LoaderView<Vec<Key>>,
    by: JoinColumn,
    rows: Seq<MovieCharacter>,
    ticket: Ticket,
)
    requires
        before.wf(),
        before.waits(ticket),
        settled_by_rows(before, after, by, Ok(rows)),
    ensures
        match after.outcome_of(ticket) {
            Outcome::Found(children) => children@ == children_of(rows, by, ticket.key()),
            _ => false,
        },
{
    let groups = choose|groups: Map<Key, Vec<Key>>|
        groups_rows(groups, before.pending_keys(), rows, by) && after == #[trigger] before.settle(
            Ok(groups),
        );
    law_every_caller_is_answered(before, ticket, groups);
    lemma_first_occurrences(before.calls);
    match ticket {
        Ticket::Cached { key } => {},
        Ticket::Queued { key, window, slot } => {
            assert(before.calls.contains(key));
            assert(before.pending_keys().contains(key));
            assert(groups.contains_key(key));
        },
    }
}

/// A parent that no row names has no children: its list is empty.
pub proof fn law_childless_parent_has_no_children(
    rows: Seq<MovieCharacter>,
    by: JoinColumn,
    parent: Key,
)
    requires
        forall|i: int| 0 <= i < rows.len() ==> (#[trigger] rows[i]).parent(by) != parent,
    ensures
        children_of(rows, by, parent) == Seq::<Key>::empty(),
{
    rows.lemma_all_neg_filter_empty(belongs_to(by, parent));
    assert(rows.filter(belongs_to(by, parent)).map_values(child_in(by)) =~= Seq::<Key>::empty());
}

/// A key is among the children of a parent exactly if a row links the two.
pub proof fn law_children_are_the_linked_keys(
    rows: Seq<MovieCharacter>,
    by: JoinColumn,
    parent: Key,
    child: Key,
)
    ensures
        children_of(rows, by, parent).contains(child) <==> rows.contains(link(by, parent, child)),
    decreases rows.len(),
{
    let children = children_of(rows, by, parent);
    let wanted = link(by, parent, child);
    if rows.len() == 0 {
        lemma_no_rows_no_children(by, parent);
        assert(rows == Seq::<MovieCharacter>::empty());
    } else {
        let front = rows.drop_last();
        let last = rows.last();
        let before = children_of(front, by, parent);
        law_children_are_the_linked_keys(front, by, parent, child);
        lemma_children_step(rows, by, parent, rows.len() - 1);
        assert(rows.take(rows.len() as int) == rows);
        assert(rows.take(rows.len() - 1) == front);
        if rows.contains(wanted) {
            let i = choose|i: int| 0 <= i < rows.len() && rows[i] == wanted;
            if i < front.len() {
                assert(front[i] == wanted);
                let j = choose|j: int| 0 <= j < before.len() && before[j] == child;
                assert(children[j] == child);
            } else {
                assert(children[before.len() as int] == child);
            }
        }
        if children.contains(child) {
            let j = choose|j: int| 0 <= j < children.len() && children[j] == child;
            if j < before.len() {
                assert(before[j] == child);
                let i = choose|i: int| 0 <= i < front.len() && front[i] == wanted;
                assert(rows[i] == wanted);
            } else {
                assert(last == wanted);
                assert(rows[rows.len() - 1] == wanted);
            }
        }
    }
}

/// Where the join table holds no row twice, no parent is given a child
/// twice: its children are a set.
pub proof fn law_distinct_rows_give_distinct_children(
    rows: Seq<MovieCharacter>,
    by: JoinColumn,
    parent: Key,
)
    requires
        rows.no_duplicates(),
    ensures
        children_of(rows, by, parent).no_duplicates(),
    decreases rows.len(),
{
    if rows.len() == 0 {
        lemma_no_rows_no_children(by, parent);
        assert(rows == Seq::<MovieCharacter>::empty());
    } else {
        let front = rows.drop_last();
        let last = rows.last();
        law_distinct_rows_give_distinct_children(front, by, parent);
        lemma_children_step(rows, by, parent, rows.len() - 1);
        assert(rows.take(rows.len() as int) == rows);
        assert(rows.take(rows.len() - 1) == front);
        if last.parent(by) == parent {
            law_children_are_the_linked_keys(front, by, parent, last.child(by));
            assert(link(by, parent, last.child(by)) == last);
            if front.contains(last) {
                let i = choose|i: int| 0 <= i < front.len() && front[i] == last;
                assert(rows[i] == rows[rows.len() - 1]);
            }
        }
    }
}

} // verus!
