//! Wire version compatibility and storage version migration.
use vstd::prelude::*;
use vstd::string::*;

use crate::types::errors::{DecodeFailure, DeserializeError};
use crate::types::node::VersionMismatchPolicy;
use crate::types::text;

verus! {

/// Action the host should take after a version mismatch on inbound sync.
#[derive(Debug)]
pub enum VersionMismatchAction {
    /// Keep the last successfully deserialized view.
    /// The view becomes increasingly stale until the local node is upgraded.
    KeepStale { wire_version: u32, reason: String },
    /// Remove the peer's view from the view map until a compatible version
    /// arrives. Queries will not see this peer.
    DropView { wire_version: u32, reason: String },
}

/// What a [`VersionMismatchAction`] says.
pub enum MismatchVerdict {
    KeepStale { wire_version: u32, reason: Seq<char> },
    DropView { wire_version: u32, reason: Seq<char> },
}

impl View for VersionMismatchAction {
    type V = MismatchVerdict;

    open spec fn view(&self) -> MismatchVerdict {
        match *self {
            VersionMismatchAction::KeepStale { wire_version, reason } => MismatchVerdict::KeepStale {
                wire_version,
                reason: reason@,
            },
            VersionMismatchAction::DropView { wire_version, reason } => MismatchVerdict::DropView {
                wire_version,
                reason: reason@,
            },
        }
    }
}

impl PartialEq for VersionMismatchAction {
    fn eq(&self, other: &Self) -> (b: bool) {
        match (self, other) {
            (
                VersionMismatchAction::KeepStale { wire_version, reason },
                VersionMismatchAction::KeepStale { wire_version: version2, reason: reason2 },
            ) => *wire_version == *version2 && *reason == *reason2,
            (
                VersionMismatchAction::DropView { wire_version, reason },
                VersionMismatchAction::DropView { wire_version: version2, reason: reason2 },
            ) => *wire_version == *version2 && *reason == *reason2,
            _ => false,
        }
    }
}

impl vstd::std_specs::cmp::PartialEqSpecImpl for VersionMismatchAction {
    open spec fn obeys_eq_spec() -> bool {
        true
    }

    open spec fn eq_spec(&self, other: &Self) -> bool {
        self@ == other@
    }
}

/// Result of attempting to deserialize an inbound sync message.
#[derive(Debug)]
pub enum InboundVersionResult<V> {
    /// Deserialization succeeded: apply the view/delta normally.
    Decoded(V),
    /// Deserialization failed: take the prescribed action.
    VersionMismatch(VersionMismatchAction),
    /// Deserialization failed for a non-version reason (malformed data).
    MalformedData(String),
}

/// What a [`VersioningLogic`] is configured with.
pub struct VersionSettings {
    pub state_name: Seq<char>,
    pub policy: VersionMismatchPolicy,
    pub wire_version: u32,
    pub storage_version: u32,
}

impl VersionSettings {
    /// Why data of the wire version `received` was not understood.
    pub open spec fn mismatch_reason(self, received: u32) -> Seq<char> {
        "state '"@ + self.state_name + "': received wire_version="@ + text::decimal(
            received as nat,
        ) + ", local outbound wire_version is "@ + text::decimal(self.wire_version as nat)
    }

    /// What the policy prescribes for data of the wire version `received`.
    pub open spec fn mismatch(self, received: u32) -> MismatchVerdict {
        match self.policy {
            VersionMismatchPolicy::KeepStale => MismatchVerdict::KeepStale {
                wire_version: received,
                reason: self.mismatch_reason(received),
            },
            VersionMismatchPolicy::DropAndWait => MismatchVerdict::DropView {
                wire_version: received,
                reason: self.mismatch_reason(received),
            },
        }
    }

    /// Whether `result` is what becomes of an inbound message that was decoded to `decoded`.
    pub open spec fn classifies<V>(
        self,
        decoded: Result<V, DeserializeError>,
        result: InboundVersionResult<V>,
    ) -> bool {
        match decoded {
            Ok(value) => result == InboundVersionResult::Decoded(value),
            Err(e) => match e@ {
                DecodeFailure::UnknownVersion(v) => result matches InboundVersionResult::VersionMismatch(
                    action,
                ) && action@ == self.mismatch(v),
                DecodeFailure::Malformed(msg) => result matches InboundVersionResult::MalformedData(
                    text,
                ) && text@ == msg,
            },
        }
    }
}

/// Pure logic for handling wire version compatibility and storage version
/// migration.
#[derive(Debug)]
pub struct VersioningLogic {
    state_name: String,
    policy: VersionMismatchPolicy,
    current_wire_version: u32,
    current_storage_version: u32,
}

impl View for VersioningLogic {
    type V = VersionSettings;

    closed spec fn view(&self) -> VersionSettings {
        VersionSettings {
            state_name: self.state_name@,
            policy: self.policy,
            wire_version: self.current_wire_version,
            storage_version: self.current_storage_version,
        }
    }
}

impl VersioningLogic {
    /// The version handling of a given state type.
    pub fn new(
        state_name: String,
        policy: VersionMismatchPolicy,
        current_wire_version: u32,
        current_storage_version: u32,
    ) -> (logic: Self)
        ensures
            logic@ == (VersionSettings {
                state_name: state_name@,
                policy,
                wire_version: current_wire_version,
                storage_version: current_storage_version,
            }),
    {
        VersioningLogic { state_name, policy, current_wire_version, current_storage_version }
    }

    /// What becomes of an inbound message that was decoded to `decoded`: the value if there
    /// is one, the policy's action on an unknown version, and the message on malformed data.
    pub fn classify<V>(&self, decoded: Result<V, DeserializeError>) -> (result:
        InboundVersionResult<V>)
        ensures
            self@.classifies(decoded, result),
    {
        match decoded {
            Ok(value) => InboundVersionResult::Decoded(value),
            Err(DeserializeError::UnknownVersion(v)) => InboundVersionResult::VersionMismatch(
                self.on_deserialize_error(v),
            ),
            Err(DeserializeError::Malformed(msg)) => InboundVersionResult::MalformedData(msg),
        }
    }

    /// Attempt to deserialize an inbound view/delta using the provided function, and decide
    /// what becomes of it.
    pub fn on_inbound<V, F: FnOnce(&[u8], u32) -> Result<V, DeserializeError>>(
        &self,
        data: &[u8],
        wire_version: u32,
        deserialize_fn: F,
    ) -> (result: InboundVersionResult<V>)
        requires
            call_requires(deserialize_fn, (data, wire_version)),
        ensures
            exists|decoded: Result<V, DeserializeError>| #[trigger]
                call_ensures(deserialize_fn, (data, wire_version), decoded) && self@.classifies(
                    decoded,
                    result,
                ),
    {
        let decoded = deserialize_fn(data, wire_version);
        self.classify(decoded)
    }

    /// Determine the action for a version mismatch based on the configured policy.
    pub fn on_deserialize_error(&self, wire_version: u32) -> (action: VersionMismatchAction)
        ensures
            action@ == self@.mismatch(wire_version),
    {
        let mut reason = text::concat2("state '", self.state_name.as_str());
        reason.append("': received wire_version=");
        text::push_decimal(&mut reason, wire_version as u64);
        reason.append(", local outbound wire_version is ");
        text::push_decimal(&mut reason, self.current_wire_version as u64);
        match self.policy {
            VersionMismatchPolicy::KeepStale => VersionMismatchAction::KeepStale {
                wire_version,
                reason,
            },
            VersionMismatchPolicy::DropAndWait => VersionMismatchAction::DropView {
                wire_version,
                reason,
            },
        }
    }

    /// Load persisted state, migrating if the stored version differs from the current storage
    /// version: `deserialize_fn` reads data of the current storage version, `migrate_fn` data
    /// of any other.
    pub fn try_load_with_migration<S, D, M>(
        &self,
        data: &[u8],
        stored_version: u32,
        deserialize_fn: D,
        migrate_fn: M,
    ) -> (state: Result<S, DeserializeError>) where
        D: FnOnce(&[u8], u32) -> Result<S, DeserializeError>,
        M: FnOnce(&[u8], u32) -> Result<S, DeserializeError>,

        requires
            stored_version == self@.storage_version ==> call_requires(
                deserialize_fn,
                (data, stored_version),
            ),
            stored_version != self@.storage_version ==> call_requires(
                migrate_fn,
                (data, stored_version),
            ),
        ensures
            stored_version == self@.storage_version ==> call_ensures(
                deserialize_fn,
                (data, stored_version),
                state,
            ),
            stored_version != self@.storage_version ==> call_ensures(
                migrate_fn,
                (data, stored_version),
                state,
            ),
    {
        if stored_version == self.current_storage_version {
            deserialize_fn(data, stored_version)
        } else {
            migrate_fn(data, stored_version)
        }
    }

    /// The state name this logic handles.
    pub fn state_name(&self) -> (s: &str)
        ensures
            s@ == self@.state_name,
    {
        self.state_name.as_str()
    }

    /// The configured policy.
    pub fn policy(&self) -> (p: &VersionMismatchPolicy)
        ensures
            *p == self@.policy,
    {
        &self.policy
    }

    /// The current wire version this node supports.
    pub fn current_wire_version(&self) -> (v: u32)
        ensures
            v == self@.wire_version,
    {
        self.current_wire_version
    }

    /// The current storage version this node uses.
    pub fn current_storage_version(&self) -> (v: u32)
        ensures
            v == self@.storage_version,
    {
        self.current_storage_version
    }
}

/// The policy decides what becomes of a view whose wire version is not understood: it is kept
/// exactly under `KeepStale` and dropped exactly under `DropAndWait`. Either way the received
/// version is told, in a text that names the state and both versions.
pub proof fn policy_decides_on_unknown_versions(settings: VersionSettings, received: u32)
    ensures
        ({
            let verdict = settings.mismatch(received);
            let text = "state '"@ + settings.state_name + "': received wire_version="@
                + text::decimal(received as nat) + ", local outbound wire_version is "@
                + text::decimal(settings.wire_version as nat);
            &&& verdict is KeepStale <==> settings.policy == VersionMismatchPolicy::KeepStale
            &&& verdict is DropView <==> settings.policy == VersionMismatchPolicy::DropAndWait
            &&& verdict matches MismatchVerdict::KeepStale { wire_version, reason }
                ==> wire_version == received && reason == text
            &&& verdict matches MismatchVerdict::DropView { wire_version, reason }
                ==> wire_version == received && reason == text
        }),
{
}

/// What is decoded is used as it is; an unknown version is a matter of the policy; and malformed
/// bytes are neither kept nor dropped, but reported as they are.
pub proof fn failures_are_told_apart<V>(
    settings: VersionSettings,
    decoded: Result<V, DeserializeError>,
    result: InboundVersionResult<V>,
)
    requires
        settings.classifies(decoded, result),
    ensures
        decoded matches Ok(view) ==> result is Decoded && result->Decoded_0 == view,
        decoded matches Err(e) ==> {
            &&& e@ matches DecodeFailure::UnknownVersion(v) ==> {
                &&& result is VersionMismatch
                &&& settings.policy == VersionMismatchPolicy::KeepStale
                    <==> result->VersionMismatch_0 is KeepStale
                &&& settings.policy == VersionMismatchPolicy::DropAndWait
                    <==> result->VersionMismatch_0 is DropView
            }
            &&& e@ matches DecodeFailure::Malformed(msg) ==> result is MalformedData
                && result->MalformedData_0@ == msg
        },
{
}

} // verus!
