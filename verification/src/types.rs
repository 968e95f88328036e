//! The plain values that every part of the loader speaks of.

use vstd::prelude::*;

verus! {

/// The identifier of an entity, or of the parent side of a relationship.
pub type Key = i32;

/// The failure of one backend fetch, as the backend worded it.
#[derive(Debug, Clone, PartialEq, Eq)]
pub struct BackendError {
    pub message: String,
}

impl BackendError {
    /// An error that carries `message`.
    pub fn new(message: String) -> (error: Self)
        ensures
            error.message == message,
    {
        BackendError { message }
    }

    /// The backend's wording of the failure.
    pub fn message(&self) -> (message: &String)
        ensures
            *message == self.message,
    {
        &self.message
    }
}

} // verus!
