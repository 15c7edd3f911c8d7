//! State types and how urgently their changes travel.
use vstd::prelude::*;

use crate::types::errors::DeserializeError;
use crate::types::time::Duration;

verus! {

/// Urgency hint for the synchronization of a mutation.
#[derive(Debug, Clone, Copy, PartialEq, Eq, Structural)]
pub enum SyncUrgency {
    /// Push immediately, bypassing any periodic timer.
    Immediate,
    /// Push after the given delay.
    Delayed(Duration),
    /// Do not push this mutation; accumulate into the next non-suppressed delta.
    Suppress,
    /// Use the configured `SyncStrategy` default.
    Default,
}

/// A distributed state type whose full state is the public view (no projection).
///
/// Implement this for simple state types where the entire state is visible to
/// all peers. For state types with private fields or delta support, implement
/// [`DeltaDistributedState`] instead.
pub trait DistributedState: Sized {
    /// Current wire protocol version for serialization.
    const WIRE_VERSION: u32;

    /// Current storage version for persistence.
    const STORAGE_VERSION: u32;

    /// Globally unique name for this state type (e.g., `"node_resource"`).
    fn name() -> &'static str;

    /// Serialize the state for wire transmission.
    fn serialize_state(&self) -> Vec<u8>;

    /// Deserialize state from bytes at a given wire version.
    fn deserialize_state(bytes: &[u8], wire_version: u32) -> Result<Self, DeserializeError>;

    /// Migrate persisted state from an older storage version.
    ///
    /// The default returns an error, causing fallback to empty state.
    fn migrate_state(_bytes: &[u8], from_version: u32) -> (r: Result<Self, DeserializeError>)
        default_ensures
            r == Err::<Self, DeserializeError>(DeserializeError::UnknownVersion(from_version)),
    {
        Err(DeserializeError::unknown_version(from_version))
    }
}

/// A distributed state type with separate State/View/Delta projections.
///
/// The `State` is the full internal state (may contain private fields).
/// The `View` is the public projection visible to peers.
/// The `ViewDelta` is an incremental update to the view.
pub trait DeltaDistributedState {
    /// The full internal state (may contain private fields).
    type State;

    /// The public view visible to peers.
    type View;

    /// An incremental update to the view.
    type ViewDelta;

    /// Application-level description of what changed in a mutation.
    type StateDeltaChange;

    /// Current wire protocol version.
    const WIRE_VERSION: u32;

    /// Current storage version.
    const STORAGE_VERSION: u32;

    /// Globally unique name for this state type.
    fn name() -> &'static str;

    /// Project the full state into its public view.
    fn project_view(state: &Self::State) -> Self::View;

    /// Project a state-level delta into a view-level delta.
    fn project_delta(change: &Self::StateDeltaChange) -> Self::ViewDelta;

    /// Apply a view delta to an existing view, producing an updated view.
    fn apply_delta(view: &Self::View, delta: &Self::ViewDelta) -> Self::View;

    /// Determine how urgently this mutation should be synchronized.
    fn sync_urgency(
        _old_view: &Self::View,
        _new_view: &Self::View,
        _change: &Self::StateDeltaChange,
    ) -> (urgency: SyncUrgency)
        default_ensures
            urgency == SyncUrgency::Default,
    {
        SyncUrgency::Default
    }

    /// Serialize a view for wire transmission.
    fn serialize_view(view: &Self::View) -> Vec<u8>;

    /// Deserialize a view from bytes at a given wire version.
    fn deserialize_view(bytes: &[u8], wire_version: u32) -> Result<Self::View, DeserializeError>;

    /// Serialize a view delta for wire transmission.
    fn serialize_delta(delta: &Self::ViewDelta) -> Vec<u8>;

    /// Deserialize a view delta from bytes at a given wire version.
    fn deserialize_delta(bytes: &[u8], wire_version: u32) -> Result<
        Self::ViewDelta,
        DeserializeError,
    >;

    /// Serialize the full state for persistence.
    fn serialize_state(state: &Self::State) -> Vec<u8>;

    /// Deserialize the full state from persistence.
    fn deserialize_state(bytes: &[u8], storage_version: u32) -> Result<
        Self::State,
        DeserializeError,
    >;

    /// Migrate persisted state from an older storage version.
    fn migrate_state(_bytes: &[u8], from_version: u32) -> (r: Result<
        Self::State,
        DeserializeError,
    >)
        default_ensures
            r == Err::<Self::State, DeserializeError>(
                DeserializeError::UnknownVersion(from_version),
            ),
    {
        Err(DeserializeError::unknown_version(from_version))
    }
}

} // verus!
