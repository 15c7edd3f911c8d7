//! Storages for tests: one that keeps the last state in memory, and one that always fails.
use vstd::prelude::*;

use crate::traits::persistence::PersistError;

verus! {

/// In-memory persistence for testing. Stores a single state.
#[derive(Debug)]
pub struct InMemoryPersistence<S> {
    stored: Option<S>,
}

impl<S> View for InMemoryPersistence<S> {
    type V = Option<S>;

    closed spec fn view(&self) -> Option<S> {
        self.stored
    }
}

impl<S: Clone> InMemoryPersistence<S> {
    /// A storage without a state.
    pub fn new() -> (p: Self)
        ensures
            p@ == None::<S>,
    {
        InMemoryPersistence { stored: None }
    }

    /// Stores a clone of `state` in place of what was stored before.
    pub fn save(&mut self, state: &S) -> (r: Result<(), PersistError>)
        ensures
            r == Ok::<(), PersistError>(()),
            final(self)@ matches Some(kept) && cloned(*state, kept),
    {
        self.stored = Some(state.clone());
        Ok(())
    }

    /// A clone of the state that was stored last, if any.
    pub fn load(&self) -> (r: Result<Option<S>, PersistError>)
        ensures
            match self@ {
                Some(kept) => r matches Ok(Some(copy)) && cloned(kept, copy),
                None => r == Ok::<Option<S>, PersistError>(None),
            },
    {
        match &self.stored {
            Some(kept) => Ok(Some(kept.clone())),
            None => Ok(None),
        }
    }
}

impl<S: Clone> Default for InMemoryPersistence<S> {
    fn default() -> (p: Self)
        ensures
            p@ == None::<S>,
    {
        Self::new()
    }
}

/// Persistence that always fails, for testing error paths.
#[derive(Debug, Clone, Copy, PartialEq, Eq, Structural)]
pub struct FailingPersistence;

/// The text of every error of [`FailingPersistence`].
pub open spec fn always_fails() -> Seq<char> {
    "FailingPersistence always fails"@
}

impl FailingPersistence {
    /// Fails.
    pub fn save<S>(&self, _state: &S) -> (r: Result<(), PersistError>)
        ensures
            r matches Err(PersistError::StorageUnavailable(msg)) && msg@ == always_fails(),
    {
        Err(PersistError::StorageUnavailable("FailingPersistence always fails".to_owned()))
    }

    /// Fails.
    pub fn load<S>(&self) -> (r: Result<Option<S>, PersistError>)
        ensures
            r matches Err(PersistError::StorageUnavailable(msg)) && msg@ == always_fails(),
    {
        Err(PersistError::StorageUnavailable("FailingPersistence always fails".to_owned()))
    }
}

} // verus!
