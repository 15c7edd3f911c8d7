//! A state with its version and times: the owner's copy, and a peer's view of it.
use vstd::prelude::*;

use crate::types::node::{Generation, NodeId};
use crate::types::time::Instant;

verus! {

/// The local node's authoritative copy of a distributed state.
#[derive(Debug)]
pub struct StateObject<S> {
    /// The logical version (incarnation + age) of this state.
    pub generation: Generation,
    /// The storage format version used when this state was persisted.
    pub storage_version: u32,
    /// The state value.
    pub value: S,
    /// Wall-clock Unix milliseconds when the state was first created.
    pub created_time: i64,
    /// Wall-clock Unix milliseconds of the last mutation.
    pub modified_time: i64,
}

impl<S> StateObject<S> {
    /// `self` with another state value.
    pub open spec fn with_value(self, value: S) -> Self {
        StateObject { value, ..self }
    }

    /// Shorthand for `self.generation.age`.
    pub fn age(&self) -> (age: u64)
        ensures
            age == self.generation.age,
    {
        self.generation.age
    }

    /// Shorthand for `self.generation.incarnation`.
    pub fn incarnation(&self) -> (incarnation: u64)
        ensures
            incarnation == self.generation.incarnation,
    {
        self.generation.incarnation
    }
}

/// A peer node's replicated view of a distributed state.
#[derive(Debug)]
pub struct StateViewObject<V> {
    /// The logical version (incarnation + age) of this view.
    pub generation: Generation,
    /// The wire protocol version used to serialize this view.
    pub wire_version: u32,
    /// The view value.
    pub value: V,
    /// Wall-clock Unix milliseconds when the state was first created on the peer.
    pub created_time: i64,
    /// Wall-clock Unix milliseconds of the last mutation on the peer.
    pub modified_time: i64,
    /// Monotonic instant when this view was last synchronized.
    pub synced_at: Instant,
    /// If set, the peer has announced a newer generation through the change
    /// feed, so this view is known to be stale.
    pub pending_remote_generation: Option<Generation>,
    /// The node that owns this view.
    pub source_node: NodeId,
}

impl<V> StateViewObject<V> {
    /// `self` with another view value.
    pub open spec fn with_value(self, value: V) -> Self {
        StateViewObject { value, ..self }
    }

    /// `self` known to be behind `pending`.
    pub open spec fn with_pending(self, pending: Option<Generation>) -> Self {
        StateViewObject { pending_remote_generation: pending, ..self }
    }
}

impl<V: Clone> Clone for StateViewObject<V> {
    /// A copy that differs from `self` at most by what cloning the value changes.
    fn clone(&self) -> (copy: Self)
        ensures
            cloned(self.value, copy.value),
            copy == self.with_value(copy.value),
    {
        StateViewObject {
            generation: self.generation,
            wire_version: self.wire_version,
            value: self.value.clone(),
            created_time: self.created_time,
            modified_time: self.modified_time,
            synced_at: self.synced_at,
            pending_remote_generation: self.pending_remote_generation,
            source_node: self.source_node,
        }
    }
}

impl<S: Clone> Clone for StateObject<S> {
    /// A copy that differs from `self` at most by what cloning the value changes.
    fn clone(&self) -> (copy: Self)
        ensures
            cloned(self.value, copy.value),
            copy == self.with_value(copy.value),
    {
        StateObject {
            generation: self.generation,
            storage_version: self.storage_version,
            value: self.value.clone(),
            created_time: self.created_time,
            modified_time: self.modified_time,
        }
    }
}

} // verus!
