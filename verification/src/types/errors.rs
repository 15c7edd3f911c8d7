//! The errors that registration, queries, mutations and decoding report.
use vstd::prelude::*;
use vstd::string::*;

use crate::types::node::NodeId;
use crate::types::text::{concat2, concat_decimal};

verus! {

/// Errors from state registration.
#[derive(Debug)]
pub enum RegistryError {
    /// No state type registered under the given name.
    StateNotRegistered(String),
    /// A state type is registered under the name, but its Rust type doesn't
    /// match the requested type.
    TypeMismatch { name: String, expected: &'static str, actual: &'static str },
    /// A different state type is already registered under this name.
    DuplicateName(String),
}

impl RegistryError {
    /// The text shown for this error.
    pub open spec fn text(self) -> Seq<char> {
        match self {
            RegistryError::StateNotRegistered(name) => "state not registered: "@ + name@,
            RegistryError::TypeMismatch { name, expected, actual } => "type mismatch for '"@ + name@
                + "': expected "@ + expected@ + ", got "@ + actual@,
            RegistryError::DuplicateName(name) => "duplicate state name: "@ + name@,
        }
    }

    /// The text shown for this error.
    pub fn to_string(&self) -> (s: String)
        ensures
            s@ == self.text(),
    {
        match self {
            RegistryError::StateNotRegistered(name) => concat2(
                "state not registered: ",
                name.as_str(),
            ),
            RegistryError::TypeMismatch { name, expected, actual } => {
                let mut s = concat2("type mismatch for '", name.as_str());
                s.append("': expected ");
                s.append(*expected);
                s.append(", got ");
                s.append(*actual);
                s
            },
            RegistryError::DuplicateName(name) => concat2("duplicate state name: ", name.as_str()),
        }
    }
}

impl Clone for RegistryError {
    fn clone(&self) -> (copy: Self)
        ensures
            copy == *self,
    {
        match self {
            RegistryError::StateNotRegistered(name) => RegistryError::StateNotRegistered(
                name.clone(),
            ),
            RegistryError::TypeMismatch { name, expected, actual } => RegistryError::TypeMismatch {
                name: name.clone(),
                expected: *expected,
                actual: *actual,
            },
            RegistryError::DuplicateName(name) => RegistryError::DuplicateName(name.clone()),
        }
    }
}

impl PartialEq for RegistryError {
    fn eq(&self, other: &Self) -> (b: bool) {
        match (self, other) {
            (RegistryError::StateNotRegistered(a), RegistryError::StateNotRegistered(b)) => *a
                == *b,
            (
                RegistryError::TypeMismatch { name, expected, actual },
                RegistryError::TypeMismatch { name: name2, expected: expected2, actual: actual2 },
            ) => *name == *name2 && str_eq(*expected, *expected2) && str_eq(*actual, *actual2),
            (RegistryError::DuplicateName(a), RegistryError::DuplicateName(b)) => *a == *b,
            _ => false,
        }
    }
}

impl vstd::std_specs::cmp::PartialEqSpecImpl for RegistryError {
    open spec fn obeys_eq_spec() -> bool {
        true
    }

    open spec fn eq_spec(&self, other: &Self) -> bool {
        match (*self, *other) {
            (RegistryError::StateNotRegistered(a), RegistryError::StateNotRegistered(b)) => a@
                == b@,
            (
                RegistryError::TypeMismatch { name, expected, actual },
                RegistryError::TypeMismatch { name: name2, expected: expected2, actual: actual2 },
            ) => name@ == name2@ && expected@ == expected2@ && actual@ == actual2@,
            (RegistryError::DuplicateName(a), RegistryError::DuplicateName(b)) => a@ == b@,
            _ => false,
        }
    }
}

/// Whether two texts are the same.
pub fn str_eq(a: &str, b: &str) -> (same: bool)
    ensures
        same == (a@ == b@),
{
    a.to_owned() == b.to_owned()
}

/// Errors from query operations.
#[derive(Debug)]
pub enum QueryError {
    /// The underlying registry lookup failed.
    Registry(RegistryError),
    /// A peer's view is too stale and the peer is unreachable.
    StalePeer { node_id: NodeId, reason: String },
    /// The actor handling the query is no longer running.
    ActorStopped,
}

impl QueryError {
    /// The text shown for this error.
    pub fn to_string(&self) -> (s: String)
        ensures
            s@ == match *self {
                QueryError::Registry(e) => "query failed: "@ + e.text(),
                QueryError::StalePeer { node_id, reason } => "stale peer "@ + "Node("@
                    + crate::types::text::decimal(node_id.0 as nat) + ")"@ + ": "@ + reason@,
                QueryError::ActorStopped => "query failed: actor stopped"@,
            },
    {
        match self {
            QueryError::Registry(e) => concat2("query failed: ", e.to_string().as_str()),
            QueryError::StalePeer { node_id, reason } => {
                let mut s = concat2("stale peer ", node_id.to_string().as_str());
                s.append(": ");
                s.append(reason.as_str());
                assert(s@ == "stale peer "@ + "Node("@ + crate::types::text::decimal(
                    node_id.0 as nat,
                ) + ")"@ + ": "@ + reason@);
                s
            },
            QueryError::ActorStopped => "query failed: actor stopped".to_owned(),
        }
    }
}

impl From<RegistryError> for QueryError {
    fn from(e: RegistryError) -> (q: Self) {
        QueryError::Registry(e)
    }
}

impl vstd::std_specs::convert::FromSpecImpl<RegistryError> for QueryError {
    open spec fn obeys_from_spec() -> bool {
        true
    }

    open spec fn from_spec(e: RegistryError) -> Self {
        QueryError::Registry(e)
    }
}

/// Errors from mutation operations.
#[derive(Debug)]
pub enum MutationError {
    /// Persistence backend failed to save.
    PersistenceFailed(String),
    /// The actor handling the mutation is no longer running.
    ActorStopped,
}

impl MutationError {
    /// The text shown for this error.
    pub fn to_string(&self) -> (s: String)
        ensures
            s@ == match *self {
                MutationError::PersistenceFailed(msg) => "persistence failed: "@ + msg@,
                MutationError::ActorStopped => "mutation failed: actor stopped"@,
            },
    {
        match self {
            MutationError::PersistenceFailed(msg) => concat2("persistence failed: ", msg.as_str()),
            MutationError::ActorStopped => "mutation failed: actor stopped".to_owned(),
        }
    }
}

/// Errors from deserializing state/view/delta data.
#[derive(Debug)]
pub enum DeserializeError {
    /// The wire/storage version is not supported.
    UnknownVersion(u32),
    /// The data is malformed.
    Malformed(String),
}

/// What a [`DeserializeError`] says.
pub enum DecodeFailure {
    UnknownVersion(u32),
    Malformed(Seq<char>),
}

impl View for DeserializeError {
    type V = DecodeFailure;

    open spec fn view(&self) -> DecodeFailure {
        match *self {
            DeserializeError::UnknownVersion(v) => DecodeFailure::UnknownVersion(v),
            DeserializeError::Malformed(msg) => DecodeFailure::Malformed(msg@),
        }
    }
}

impl DeserializeError {
    /// Create an `UnknownVersion` error.
    pub fn unknown_version(version: u32) -> (e: Self)
        ensures
            e == DeserializeError::UnknownVersion(version),
    {
        DeserializeError::UnknownVersion(version)
    }

    /// The text shown for this error.
    pub fn to_string(&self) -> (s: String)
        ensures
            s@ == match self@ {
                DecodeFailure::UnknownVersion(v) => "unknown version: "@
                    + crate::types::text::decimal(v as nat),
                DecodeFailure::Malformed(msg) => "malformed data: "@ + msg,
            },
    {
        match self {
            DeserializeError::UnknownVersion(v) => concat_decimal("unknown version: ", *v as u64),
            DeserializeError::Malformed(msg) => concat2("malformed data: ", msg.as_str()),
        }
    }
}

impl Clone for DeserializeError {
    fn clone(&self) -> (copy: Self)
        ensures
            copy@ == self@,
    {
        match self {
            DeserializeError::UnknownVersion(v) => DeserializeError::UnknownVersion(*v),
            DeserializeError::Malformed(msg) => DeserializeError::Malformed(msg.clone()),
        }
    }
}

impl PartialEq for DeserializeError {
    fn eq(&self, other: &Self) -> (b: bool) {
        match (self, other) {
            (DeserializeError::UnknownVersion(a), DeserializeError::UnknownVersion(b)) => *a == *b,
            (DeserializeError::Malformed(a), DeserializeError::Malformed(b)) => *a == *b,
            _ => false,
        }
    }
}

impl vstd::std_specs::cmp::PartialEqSpecImpl for DeserializeError {
    open spec fn obeys_eq_spec() -> bool {
        true
    }

    open spec fn eq_spec(&self, other: &Self) -> bool {
        self@ == other@
    }
}

} // verus!
