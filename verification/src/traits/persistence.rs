//! Errors of the storage behind a state.
use vstd::prelude::*;

use crate::types::text::concat2;

verus! {

/// Errors from persistence operations.
#[derive(Debug)]
pub enum PersistError {
    /// The storage backend is unavailable.
    StorageUnavailable(String),
    /// Failed to deserialize stored data.
    DeserializationFailed(String),
    /// An I/O error occurred.
    Io(String),
}

impl PersistError {
    /// The text shown for this error.
    pub open spec fn text(self) -> Seq<char> {
        match self {
            PersistError::StorageUnavailable(msg) => "storage unavailable: "@ + msg@,
            PersistError::DeserializationFailed(msg) => "deserialization failed: "@ + msg@,
            PersistError::Io(msg) => "I/O error: "@ + msg@,
        }
    }

    /// The text shown for this error.
    pub fn to_string(&self) -> (s: String)
        ensures
            s@ == self.text(),
    {
        match self {
            PersistError::StorageUnavailable(msg) => concat2("storage unavailable: ", msg.as_str()),
            PersistError::DeserializationFailed(msg) => concat2(
                "deserialization failed: ",
                msg.as_str(),
            ),
            PersistError::Io(msg) => concat2("I/O error: ", msg.as_str()),
        }
    }
}

impl Clone for PersistError {
    fn clone(&self) -> (copy: Self)
        ensures
            copy == *self,
    {
        match self {
            PersistError::StorageUnavailable(msg) => PersistError::StorageUnavailable(msg.clone()),
            PersistError::DeserializationFailed(msg) => PersistError::DeserializationFailed(
                msg.clone(),
            ),
            PersistError::Io(msg) => PersistError::Io(msg.clone()),
        }
    }
}

} // verus!
