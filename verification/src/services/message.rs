//! The notification contract.
//!
//! Ingredient changes are announced to a message bus after the write commits.
//! The contract promises nothing about delivery: a send either hands off or
//! fails with a transport error, and a reliable service (the stub) never
//! fails.  Whether a command surfaces such a failure is the command's
//! decision, not the service's.

use vstd::prelude::*;

use crate::entities::ingredient::Ingredient;

verus! {

/// A transport-level failure: serialization or send.
#[derive(Debug)]
pub enum MessageError {
    Transport(String),
}

/// The contract a notification channel must satisfy.  `reliable` says whether
/// the transport can fail at all; each event either hands off (`Ok`) or
/// reports the transport failure.
pub trait MessageService: Sized {
    /// Whether the transport is free of failures of its own.
    spec fn reliable() -> bool;

    /// Announces a newly created ingredient.
    fn ingredient_added(&self, ing: &Ingredient) -> (r: Result<(), MessageError>)
        ensures
            Self::reliable() ==> r is Ok,
    ;

    /// Announces a deleted ingredient.
    fn ingredient_deleted(&self, ing: &Ingredient) -> (r: Result<(), MessageError>)
        ensures
            Self::reliable() ==> r is Ok,
    ;

    /// Announces an updated ingredient, old and new value.
    fn ingredient_updated(&self, old_ing: &Ingredient, new_ing: &Ingredient) -> (r: Result<
        (),
        MessageError,
    >)
        ensures
            Self::reliable() ==> r is Ok,
    ;
}

/// A notification channel that drops every event: for tests and development.
pub struct StubMessageService;

impl MessageService for StubMessageService {
    open spec fn reliable() -> bool {
        true
    }

    fn ingredient_added(&self, ing: &Ingredient) -> (r: Result<(), MessageError>) {
        Ok(())
    }

    fn ingredient_deleted(&self, ing: &Ingredient) -> (r: Result<(), MessageError>) {
        Ok(())
    }

    fn ingredient_updated(&self, old_ing: &Ingredient, new_ing: &Ingredient) -> (r: Result<
        (),
        MessageError,
    >) {
        Ok(())
    }
}

} // verus!
