//! The request context: one backend session and one fresh loader of each
//! kind, made for one request and owned by it alone.

use crate::loader::Loader;
use crate::model::{lemma_idle_settles_to_itself, lemma_pending_keys, LoaderView};
use crate::relation::{
    lemma_idle_settles_rows_to_itself, rows_fetched, settled_by_rows, settles_rows_to, JoinColumn,
    MovieCharacter,
};
use crate::types::{BackendError, Key};
use std::collections::HashMap;
use vstd::prelude::*;

verus! {

/// The backend as one request sees it. Each batch method makes one query for
/// all the keys it is given; it is never given an empty list, nor a key
/// twice.
pub trait Session<U, M, C> {
    /// The users whose e-mail address is `email`.
    fn users_by_email(&mut self, email: &String) -> Result<Vec<U>, BackendError>;

    /// The users with these ids, each under its id.
    fn users_by_id(&mut self, ids: &Vec<Key>) -> Result<HashMap<Key, U>, BackendError>
        requires
            ids@.len() > 0,
            ids@.no_duplicates(),
    ;

    /// The movies with these ids, each under its id.
    fn movies_by_id(&mut self, ids: &Vec<Key>) -> Result<HashMap<Key, M>, BackendError>
        requires
            ids@.len() > 0,
            ids@.no_duplicates(),
    ;

    /// The characters with these ids, each under its id.
    fn characters_by_id(&mut self, ids: &Vec<Key>) -> Result<HashMap<Key, C>, BackendError>
        requires
            ids@.len() > 0,
            ids@.no_duplicates(),
    ;

    /// The rows of the join table whose parent, in the column `by`, is one of
    /// `parents`.
    fn movie_characters(&mut self, by: JoinColumn, parents: &Vec<Key>) -> Result<
        Vec<MovieCharacter>,
        BackendError,
    >
        requires
            parents@.len() > 0,
            parents@.no_duplicates(),
    ;
}

/// What the resolvers of one request share: the session, the authenticated
/// user and the five loaders.
pub struct Context<U, M, C, S> {
    pub db: S,
    pub user: Option<U>,
    pub user_data_loader_by_id: Loader<U>,
    pub movie_data_loader_by_id: Loader<M>,
    pub character_data_loader_by_id: Loader<C>,
    pub movie_ids_data_loader_by_character_id: Loader<Vec<Key>>,
    pub character_ids_data_loader_by_movie_id: Loader<Vec<Key>>,
}

/// The user that a lookup by e-mail address settles on: the last of the
/// users found, and none where the lookup failed or found nobody.
pub fn last_user<U>(found: Result<Vec<U>, BackendError>) -> (user: Option<U>)
    ensures
        user == match found {
            Ok(users) => if users@.len() > 0 {
                Some(users@.last())
            } else {
                None
            },
            Err(_) => None,
        },
{
    match found {
        Ok(users) => {
            let mut users = users;
            users.pop()
        },
        Err(_) => None,
    }
}

/// Looks up the user that a request claims to come from. Without an address
/// there is no user, and the backend is not asked.
pub fn find_user<U, M, C, S: Session<U, M, C>>(user_email: Option<String>, db: &mut S) -> (user:
    Option<U>)
    ensures
        user_email is None ==> user is None && *final(db) == *old(db),
{
    match user_email {
        Some(email) => last_user(db.users_by_email(&email)),
        None => None,
    }
}

/// Makes the context of one request: looks up its user and gives it five
/// loaders that have cached nothing and fetched nothing. Without an address
/// the session is handed on as it came.
pub fn create_context<U, M, C, S: Session<U, M, C>>(user_email: Option<String>, db: S) -> (context:
    Context<U, M, C, S>)
    ensures
        context.wf(),
        context.is_fresh(),
        user_email is None ==> context.user is None && context.db == db,
{
    let mut db = db;
    let user = find_user(user_email, &mut db);
    Context {
        user_data_loader_by_id: Loader::new(),
        movie_data_loader_by_id: Loader::new(),
        character_data_loader_by_id: Loader::new(),
        movie_ids_data_loader_by_character_id: Loader::new(),
        character_ids_data_loader_by_movie_id: Loader::new(),
        user,
        db,
    }
}

impl<U, M, C, S: Session<U, M, C>> Context<U, M, C, S> {
    /// Every loader is well formed.
    pub open spec fn wf(&self) -> bool {
        &&& self.user_data_loader_by_id.wf()
        &&& self.movie_data_loader_by_id.wf()
        &&& self.character_data_loader_by_id.wf()
        &&& self.movie_ids_data_loader_by_character_id.wf()
        &&& self.character_ids_data_loader_by_movie_id.wf()
    }

    /// No loader has a waiting call.
    pub open spec fn is_idle(&self) -> bool {
        &&& self.user_data_loader_by_id@.calls.len() == 0
        &&& self.movie_data_loader_by_id@.calls.len() == 0
        &&& self.character_data_loader_by_id@.calls.len() == 0
        &&& self.movie_ids_data_loader_by_character_id@.calls.len() == 0
        &&& self.character_ids_data_loader_by_movie_id@.calls.len() == 0
    }

    /// No loader has cached, registered or fetched anything.
    pub open spec fn is_fresh(&self) -> bool {
        &&& self.user_data_loader_by_id@ == LoaderView::<U>::fresh()
        &&& self.movie_data_loader_by_id@ == LoaderView::<M>::fresh()
        &&& self.character_data_loader_by_id@ == LoaderView::<C>::fresh()
        &&& self.movie_ids_data_loader_by_character_id@ == LoaderView::<Vec<Key>>::fresh()
        &&& self.character_ids_data_loader_by_movie_id@ == LoaderView::<Vec<Key>>::fresh()
    }

    /// The flush point of the request: every loader with waiting calls makes
    /// its one fetch and settles its window, one loader after the other.
    /// Loaders without waiting calls fetch nothing, and where no loader has
    /// one the session is left alone.
    pub fn flush(&mut self)
        requires
            old(self).wf(),
        ensures
            final(self).wf(),
            final(self).is_idle(),
            final(self).user == old(self).user,
            old(self).is_idle() ==> final(self).db == old(self).db,
            old(self).user_data_loader_by_id@.settles_to(final(self).user_data_loader_by_id@),
            old(self).movie_data_loader_by_id@.settles_to(final(self).movie_data_loader_by_id@),
            old(self).character_data_loader_by_id@.settles_to(
                final(self).character_data_loader_by_id@,
            ),
            settles_rows_to(
                old(self).movie_ids_data_loader_by_character_id@,
                final(self).movie_ids_data_loader_by_character_id@,
                JoinColumn::Character,
            ),
            settles_rows_to(
                old(self).character_ids_data_loader_by_movie_id@,
                final(self).character_ids_data_loader_by_movie_id@,
                JoinColumn::Movie,
            ),
    {
        flush_users(&mut self.user_data_loader_by_id, &mut self.db);
        flush_movies(&mut self.movie_data_loader_by_id, &mut self.db);
        flush_characters(&mut self.character_data_loader_by_id, &mut self.db);
        flush_children(
            &mut self.movie_ids_data_loader_by_character_id,
            &mut self.db,
            JoinColumn::Character,
        );
        flush_children(
            &mut self.character_ids_data_loader_by_movie_id,
            &mut self.db,
            JoinColumn::Movie,
        );
    }

    /// Aborts the request: the waiting calls of every loader are released,
    /// and no loader fetches again.
    pub fn abort(&mut self)
        requires
            old(self).wf(),
        ensures
            final(self).wf(),
            final(self).user == old(self).user,
            final(self).user_data_loader_by_id@ == old(self).user_data_loader_by_id@.abort(),
            final(self).movie_data_loader_by_id@ == old(self).movie_data_loader_by_id@.abort(),
            final(self).character_data_loader_by_id@ == old(
                self,
            ).character_data_loader_by_id@.abort(),
            final(self).movie_ids_data_loader_by_character_id@ == old(
                self,
            ).movie_ids_data_loader_by_character_id@.abort(),
            final(self).character_ids_data_loader_by_movie_id@ == old(
                self,
            ).character_ids_data_loader_by_movie_id@.abort(),
    {
        self.user_data_loader_by_id.abort();
        self.movie_data_loader_by_id.abort();
        self.character_data_loader_by_id.abort();
        self.movie_ids_data_loader_by_character_id.abort();
        self.character_ids_data_loader_by_movie_id.abort();
    }
}

/// Flushes a user loader against the session: one query for the keys of its
/// waiting calls, and none where no call waits.
pub fn flush_users<U, M, C, S: Session<U, M, C>>(loader: &mut Loader<U>, db: &mut S)
    requires
        old(loader).wf(),
    ensures
        final(loader).wf(),
        old(loader)@.settles_to(final(loader)@),
        old(loader)@.calls.len() == 0 ==> *final(db) == *old(db),
{
    if loader.has_pending() {
        proof {
            lemma_pending_keys(loader@);
        }
        let found = db.users_by_id(loader.pending_keys());
        loader.settle(found);
    } else {
        proof {
            lemma_idle_settles_to_itself(loader@);
        }
    }
}

/// Flushes a movie loader against the session: one query for the keys of its
/// waiting calls, and none where no call waits.
pub fn flush_movies<U, M, C, S: Session<U, M, C>>(loader: &mut Loader<M>, db: &mut S)
    requires
        old(loader).wf(),
    ensures
        final(loader).wf(),
        old(loader)@.settles_to(final(loader)@),
        old(loader)@.calls.len() == 0 ==> *final(db) == *old(db),
{
    if loader.has_pending() {
        proof {
            lemma_pending_keys(loader@);
        }
        let found = db.movies_by_id(loader.pending_keys());
        loader.settle(found);
    } else {
        proof {
            lemma_idle_settles_to_itself(loader@);
        }
    }
}

/// Flushes a character loader against the session: one query for the keys of
/// its waiting calls, and none where no call waits.
pub fn flush_characters<U, M, C, S: Session<U, M, C>>(loader: &mut Loader<C>, db: &mut S)
    requires
        old(loader).wf(),
    ensures
        final(loader).wf(),
        old(loader)@.settles_to(final(loader)@),
        old(loader)@.calls.len() == 0 ==> *final(db) == *old(db),
{
    if loader.has_pending() {
        proof {
            lemma_pending_keys(loader@);
        }
        let found = db.characters_by_id(loader.pending_keys());
        loader.settle(found);
    } else {
        proof {
            lemma_idle_settles_to_itself(loader@);
        }
    }
}

/// Flushes a relationship loader against the session: one join query for the
/// parents that its waiting calls asked for, grouped by parent, and none
/// where no call waits.
pub fn flush_children<U, M, C, S: Session<U, M, C>>(
    loader: &mut Loader<Vec<Key>>,
    db: &mut S,
    by: JoinColumn,
)
    requires
        old(loader).wf(),
    ensures
        final(loader).wf(),
        settles_rows_to(old(loader)@, final(loader)@, by),
        old(loader)@.calls.len() == 0 ==> *final(db) == *old(db),
{
    if loader.has_pending() {
        proof {
            lemma_pending_keys(loader@);
        }
        let rows = db.movie_characters(by, loader.pending_keys());
        let ghost answer = rows_fetched(rows);
        loader.settle_rows(by, rows);
        assert(settled_by_rows(old(loader)@, loader@, by, answer));
    } else {
        proof {
            lemma_idle_settles_rows_to_itself(loader@, by);
        }
    }
}

} // verus!
