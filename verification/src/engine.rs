//! Public API for driving the replication protocol.
//!
//! [`DistributedStateEngine`] wraps the logic of one state on one node into a single unit. Each
//! method returns the outbound effects as [`EngineAction`]s: the engine itself performs no I/O.
use vstd::prelude::*;

use crate::engine::model::EngineModel;
use crate::node_map::NodeMap;
use crate::replica::change_feed_logic::ChangeFeedLogic;
use crate::replica::diagnostics;
use crate::replica::diagnostics::{DiagnosticsLogic, PeerDiagnostics, StateSyncMetrics};
use crate::replica::lifecycle_logic::{JoinAction, LifecycleLogic};
use crate::replica::shard_core;
use crate::replica::shard_core::{
    AcceptResult, DeltaAcceptResult, InboundSnapshot, QueryResult, ShardCore,
};
use crate::replica::sync_logic;
use crate::replica::sync_logic::{SyncAction, SyncLogic};
use crate::replica::versioning_logic::{
    InboundVersionResult, VersionMismatchAction, VersioningLogic,
};
use crate::replica::view_map;
use crate::traits::clock;
use crate::traits::clock::Clock;
use crate::traits::state::SyncUrgency;
use crate::types::config::{StateConfig, SyncStrategy};
use crate::types::envelope::{StateObject, StateViewObject};
use crate::types::errors::DeserializeError;
use crate::types::node::{Generation, NodeId};
use crate::types::sync_message::{BatchedChangeFeed, FeedContent, SyncContent, SyncMessage};
use crate::types::text;
use crate::types::time::{Duration, Instant};

pub mod effect_laws;
pub mod laws;
pub mod model;

verus! {

/// Wire-level envelope for all messages exchanged between nodes.
///
/// Wraps both synchronization messages and change feed batches, enabling
/// a single transport layer to handle all inter-node communication.
#[derive(Debug)]
pub enum WireMessage {
    /// A synchronization message (snapshot, delta, or snapshot request).
    Sync(SyncMessage),
    /// A batched change feed notification.
    Feed(BatchedChangeFeed),
}

/// What a [`WireMessage`] says.
pub enum WireContent {
    Sync(SyncContent),
    Feed(FeedContent),
}

impl View for WireMessage {
    type V = WireContent;

    open spec fn view(&self) -> WireContent {
        match *self {
            WireMessage::Sync(message) => WireContent::Sync(message@),
            WireMessage::Feed(feed) => WireContent::Feed(feed@),
        }
    }
}

impl Clone for WireMessage {
    fn clone(&self) -> (copy: Self)
        ensures
            copy@ == self@,
    {
        match self {
            WireMessage::Sync(message) => WireMessage::Sync(message.clone()),
            WireMessage::Feed(feed) => WireMessage::Feed(feed.clone()),
        }
    }
}

/// Outbound effect produced by engine operations.
///
/// The hosting framework (actor runtime or test harness) is responsible
/// for executing these actions.
#[derive(Debug)]
pub enum EngineAction {
    /// Broadcast a sync message to all known peers.
    BroadcastSync(SyncMessage),
    /// Send a sync message to a specific peer.
    SendSync { target: NodeId, message: SyncMessage },
    /// Schedule a delayed broadcast after the given duration.
    ScheduleDelayed { delay: Duration, message: SyncMessage },
}

/// What an [`EngineAction`] says.
pub enum ActionContent {
    BroadcastSync(SyncContent),
    SendSync { target: NodeId, message: SyncContent },
    ScheduleDelayed { delay: Duration, message: SyncContent },
}

impl View for EngineAction {
    type V = ActionContent;

    open spec fn view(&self) -> ActionContent {
        match *self {
            EngineAction::BroadcastSync(message) => ActionContent::BroadcastSync(message@),
            EngineAction::SendSync { target, message } => ActionContent::SendSync {
                target,
                message: message@,
            },
            EngineAction::ScheduleDelayed { delay, message } => ActionContent::ScheduleDelayed {
                delay,
                message: message@,
            },
        }
    }
}

impl Clone for EngineAction {
    fn clone(&self) -> (copy: Self)
        ensures
            copy@ == self@,
    {
        match self {
            EngineAction::BroadcastSync(message) => EngineAction::BroadcastSync(message.clone()),
            EngineAction::SendSync { target, message } => EngineAction::SendSync {
                target: *target,
                message: message.clone(),
            },
            EngineAction::ScheduleDelayed { delay, message } => EngineAction::ScheduleDelayed {
                delay: *delay,
                message: message.clone(),
            },
        }
    }
}

/// What a list of actions says, in order.
pub open spec fn action_contents(actions: Seq<EngineAction>) -> Seq<ActionContent> {
    Seq::new(actions.len(), |i: int| actions[i]@)
}

/// Result of a mutation operation.
#[derive(Debug)]
pub struct MutateResult<V> {
    /// The generation after mutation.
    pub generation: Generation,
    /// The projected view after mutation.
    pub view: V,
    /// Outbound actions to execute.
    pub actions: Vec<EngineAction>,
}

/// Result of a delta-aware mutation operation.
#[derive(Debug)]
pub struct DeltaMutateResult<V, VD> {
    /// The generation after mutation.
    pub generation: Generation,
    /// The projected view after mutation.
    pub view: V,
    /// The projected view delta.
    pub view_delta: VD,
    /// Outbound actions to execute.
    pub actions: Vec<EngineAction>,
}

/// Result of a query operation.
#[derive(Debug)]
pub enum EngineQueryResult<R> {
    /// All peer views are fresh; result is up-to-date.
    Fresh(R),
    /// Some peer views are stale; where the strategy pulls on queries, the engine has issued
    /// `RequestSnapshot` actions for stale peers.
    Stale { result: R, stale_peers: Vec<NodeId> },
}

/// Health status of the engine.
#[derive(Debug, Clone, Copy, PartialEq, Eq, Structural)]
pub enum HealthStatus {
    Healthy,
    Degraded,
    Unhealthy,
}

/// Sync metrics snapshot.
#[derive(Debug, Clone, Copy, PartialEq, Eq, Structural)]
pub struct SyncMetrics {
    pub total_mutations: u64,
    pub deltas_sent: u64,
    pub deltas_received: u64,
    pub snapshots_sent: u64,
    pub snapshots_received: u64,
    pub deltas_suppressed: u64,
    pub deltas_immediate: u64,
    pub sync_failures: u64,
    pub age_gaps_detected: u64,
    pub stale_deltas_discarded: u64,
}

impl Default for SyncMetrics {
    fn default() -> (m: Self)
        ensures
            m == public_metrics(StateSyncMetrics::none()),
    {
        SyncMetrics {
            total_mutations: 0,
            deltas_sent: 0,
            deltas_received: 0,
            snapshots_sent: 0,
            snapshots_received: 0,
            deltas_suppressed: 0,
            deltas_immediate: 0,
            sync_failures: 0,
            age_gaps_detected: 0,
            stale_deltas_discarded: 0,
        }
    }
}

/// The metrics as users see them.
pub open spec fn public_metrics(m: StateSyncMetrics) -> SyncMetrics {
    SyncMetrics {
        total_mutations: m.total_mutations,
        deltas_sent: m.deltas_sent,
        deltas_received: m.deltas_received,
        snapshots_sent: m.snapshots_sent,
        snapshots_received: m.snapshots_received,
        deltas_suppressed: m.deltas_suppressed,
        deltas_immediate: m.deltas_immediate,
        sync_failures: m.sync_failures,
        age_gaps_detected: m.age_gaps_detected,
        stale_deltas_discarded: m.stale_deltas_discarded,
    }
}

/// Health assessment of the engine.
#[derive(Debug)]
pub struct EngineHealth {
    pub state_name: String,
    pub healthy_peers: u32,
    pub stale_peers: u32,
    pub failing_peers: u32,
    pub status: HealthStatus,
}

/// The health classification as users see it.
pub open spec fn public_status(status: diagnostics::HealthStatus) -> HealthStatus {
    match status {
        diagnostics::HealthStatus::Healthy => HealthStatus::Healthy,
        diagnostics::HealthStatus::Degraded => HealthStatus::Degraded,
        diagnostics::HealthStatus::Unhealthy => HealthStatus::Unhealthy,
    }
}

/// Public API for driving the replication protocol.
///
/// Wraps the logic of one state on one node into a single, testable unit.
///
/// # Type Parameters
///
/// - `S`: The full internal state type (owned by this node).
/// - `V`: The public view type (projected from state, shared with peers).
/// - `C`: The time source.
/// - `SV`, `DV`: Serializes a view to bytes, and deserializes it (bytes and wire version).
/// - `DA`: Applies an inbound delta (bytes, wire version and current view) to give a new view.
#[derive(Debug)]
pub struct DistributedStateEngine<S, V, C, SV, DV, DA> {
    state_name: String,
    wire_version: u32,
    shard: ShardCore<S, V, C>,
    sync_logic: SyncLogic,
    change_feed: ChangeFeedLogic,
    versioning: VersioningLogic,
    lifecycle: LifecycleLogic,
    diagnostics: DiagnosticsLogic,
    serialize_view: SV,
    deserialize_view: DV,
    inbound_delta_applier: Option<DA>,
}

impl<S, V, C: Clock, SV, DV, DA> View for DistributedStateEngine<S, V, C, SV, DV, DA> {
    type V = EngineModel<S, V>;

    closed spec fn view(&self) -> EngineModel<S, V> {
        EngineModel {
            state_name: self.state_name@,
            wire_version: self.wire_version,
            shard: self.shard@,
            strategy: self.sync_logic@.strategy,
            supports_delta: self.sync_logic@.supports_delta,
            feed: self.change_feed@,
            versions: self.versioning@,
            departed: self.lifecycle@,
            diagnostics: self.diagnostics@,
        }
    }
}

/// The functions of `codec` can be run on every input.
pub open spec fn total_codec<V, SV, DV, DA>(codec: (SV, DV, Option<DA>)) -> bool where
    SV: Fn(&V) -> Vec<u8>,
    DV: Fn(&[u8], u32) -> Result<V, DeserializeError>,
    DA: Fn(&[u8], u32, &V) -> Result<V, DeserializeError>,
 {
    &&& forall|view: &V| #[trigger] call_requires(codec.0, (view,))
    &&& forall|bytes: &[u8], version: u32| #[trigger] call_requires(codec.1, (bytes, version))
    &&& codec.2 matches Some(applier) ==> forall|bytes: &[u8], version: u32, view: &V| #[trigger]
        call_requires(applier, (bytes, version, view))
}

impl<S, V, C, SV, DV, DA> DistributedStateEngine<S, V, C, SV, DV, DA> where
    C: Clock,
    SV: Fn(&V) -> Vec<u8>,
    DV: Fn(&[u8], u32) -> Result<V, DeserializeError>,
    DA: Fn(&[u8], u32, &V) -> Result<V, DeserializeError>,
 {
    /// The functions that serialize views, deserialize them and apply deltas.
    pub closed spec fn codec(&self) -> (SV, DV, Option<DA>) {
        (self.serialize_view, self.deserialize_view, self.inbound_delta_applier)
    }

    /// The views as a table that can be walked.
    pub closed spec fn entries(&self) -> NodeMap<StateViewObject<V>> {
        self.shard.entries()
    }

    pub closed spec fn wf(&self) -> bool {
        &&& self.shard.wf()
        &&& self.change_feed.node() == self.shard@.node_id
        &&& self.lifecycle.wf()
        &&& self.diagnostics.wf()
        &&& self.sync_logic@.supports_delta == (self.inbound_delta_applier is Some)
        &&& self@.wf()
        &&& total_codec::<V, SV, DV, DA>(self.codec())
    }

    /// What a well-formed engine holds is well-formed, and its table of entries holds its
    /// views.
    pub proof fn lemma_wf(&self)
        requires
            self.wf(),
        ensures
            self@.wf(),
            self@.supports_delta == (self.codec().2 is Some),
            total_codec::<V, SV, DV, DA>(self.codec()),
            self.entries().wf(),
            self.entries()@ == self@.shard.views,
            self@.shard.views.dom().finite(),
            self.entries().ids().len() == self@.shard.views.dom().len(),
            crate::node_map::ascending(self.entries().ids()),
    {
        self.shard.lemma_wf();
    }

    /// Create a new engine for a single distributed state.
    ///
    /// - `state_name`: Globally unique name for this state type.
    /// - `node_id`: This node's identity in the cluster.
    /// - `initial_value`: The initial state value.
    /// - `project_initial`: Projects the initial state into its initial view.
    /// - `config`: Sync strategy and policy configuration.
    /// - `wire_version`: Current wire protocol version.
    /// - `clock`: Time source.
    /// - `serialize_view`: Serializes a view to bytes for wire transmission.
    /// - `deserialize_view`: Deserializes a view from bytes.
    /// - `inbound_delta_applier`: Optional function that applies an inbound
    ///   delta. When `None`, inbound deltas trigger a full snapshot request.
    pub fn new<P: FnOnce(&S) -> V>(
        state_name: &str,
        node_id: NodeId,
        initial_value: S,
        project_initial: P,
        config: StateConfig,
        wire_version: u32,
        clock: C,
        serialize_view: SV,
        deserialize_view: DV,
        inbound_delta_applier: Option<DA>,
    ) -> (engine: Self)
        requires
            call_requires(project_initial, (&initial_value,)),
            total_codec::<V, SV, DV, DA>((serialize_view, deserialize_view, inbound_delta_applier)),
        ensures
            engine.wf(),
            engine.codec() == (serialize_view, deserialize_view, inbound_delta_applier),
            exists|view: V, incarnation_ms: i64, created_ms: i64, now: Instant|
                call_ensures(project_initial, (&initial_value,), view) && clock::readings(
                    clock,
                ).may_say(created_ms, now, incarnation_ms) && engine@ == #[trigger] model::started(
                    state_name@,
                    node_id,
                    initial_value,
                    view,
                    config,
                    wire_version,
                    inbound_delta_applier is Some,
                    incarnation_ms,
                    created_ms,
                    now,
                    clock::readings(clock),
                ),
    {
        let name = state_name.to_owned();
        let supports_delta = inbound_delta_applier.is_some();
        let incarnation_ms = clock.unix_ms();
        let created_ms = clock.unix_ms();
        let state = shard_core::new_state_object_at(
            initial_value,
            incarnation_ms as u64,
            created_ms,
        );
        let initial_view = project_initial(&state.value);
        let ghost view = initial_view;
        let shard = ShardCore::new(node_id, state, initial_view, clock);
        let engine = DistributedStateEngine {
            state_name: name.clone(),
            wire_version,
            shard,
            sync_logic: SyncLogic::new(name.clone(), config.sync_strategy, supports_delta),
            change_feed: ChangeFeedLogic::new(node_id),
            versioning: VersioningLogic::new(
                name.clone(),
                config.version_mismatch_policy,
                wire_version,
                1,
            ),
            lifecycle: LifecycleLogic::new(),
            diagnostics: DiagnosticsLogic::new(name),
            serialize_view,
            deserialize_view,
            inbound_delta_applier,
        };
        proof {
            let now = engine@.shard.views[node_id].synced_at;
            let expected = model::started(
                state_name@,
                node_id,
                initial_value,
                view,
                config,
                wire_version,
                inbound_delta_applier is Some,
                incarnation_ms,
                created_ms,
                now,
                clock::readings(clock),
            );
            assert(engine@ == expected);
        }
        engine
    }

    /// The message that carries `data` as the node's current view.
    fn snapshot_message(&self, data: Vec<u8>) -> (message: SyncMessage)
        ensures
            message@ == self@.own_snapshot(data@),
    {
        SyncMessage::FullSnapshot {
            state_name: self.state_name.clone(),
            source_node: self.shard.node_id(),
            generation: self.shard.state().generation,
            wire_version: self.wire_version,
            data,
        }
    }

    /// The message that carries `data` as the delta to the node's current view.
    fn delta_message(&self, data: Vec<u8>) -> (message: SyncMessage)
        ensures
            message@ == self@.own_delta(data@),
    {
        SyncMessage::DeltaUpdate {
            state_name: self.state_name.clone(),
            source_node: self.shard.node_id(),
            generation: self.shard.state().generation,
            wire_version: self.wire_version,
            data,
        }
    }

    /// The request to `target` for its snapshot.
    fn make_snapshot_request(&self, target: NodeId) -> (action: EngineAction)
        ensures
            action@ == self@.request(target),
    {
        EngineAction::SendSync {
            target,
            message: SyncMessage::RequestSnapshot {
                state_name: self.state_name.clone(),
                requester: self.shard.node_id(),
            },
        }
    }

    /// A view turned into bytes for the wire.
    fn serialize(&self, view: &V) -> (data: Vec<u8>)
        requires
            self.wf(),
        ensures
            call_ensures(self.codec().0, (view,), data),
    {
        assert(call_requires(self.codec().0, (view,)));
        (self.serialize_view)(view)
    }

    /// The serialized view of the node's own state.
    fn serialize_own_view(&self) -> (data: Vec<u8>)
        requires
            self.wf(),
        ensures
            call_ensures(
                self.codec().0,
                (&self@.shard.views[self@.shard.node_id].value,),
                data,
            ),
    {
        let id = self.shard.node_id();
        match self.shard.get_view(&id) {
            Some(own) => self.serialize(&own.value),
            None => {
                proof {
                    self.shard.lemma_wf();
                    assert(false);
                }
                Vec::new()
            },
        }
    }

    /// Notes the node's current generation for the change feed.
    fn notify_own_change(&mut self)
        requires
            old(self).wf(),
        ensures
            final(self).wf(),
            final(self).codec() == old(self).codec(),
            final(self)@ == old(self)@.notified(),
    {
        let name = self.state_name.clone();
        let id = self.shard.node_id();
        let generation = self.shard.state().generation;
        self.change_feed.notify_change(name, id, generation);
    }

    /// Turns a sync action into engine actions, sending full snapshots only.
    fn sync_action_to_engine_actions_snapshot(&mut self, action: &SyncAction, view: &V) -> (actions:
        Vec<EngineAction>)
        requires
            old(self).wf(),
            old(self)@.diagnostics.can_send(),
        ensures
            final(self).wf(),
            final(self).codec() == old(self).codec(),
            exists|data: Vec<u8>|
                (model::sends_data(*action) ==> call_ensures(old(self).codec().0, (view,), data))
                    && (final(self)@, action_contents(actions@))
                    == #[trigger] old(self)@.snapshot_outbound(*action, data@),
    {
        let mut actions: Vec<EngineAction> = Vec::new();
        match action {
            SyncAction::BroadcastSnapshot | SyncAction::BroadcastDelta => {
                let data = self.serialize(view);
                let ghost payload = data;
                self.diagnostics.record_snapshot_sent();
                actions.push(EngineAction::BroadcastSync(self.snapshot_message(data)));
                proof {
                    let out = old(self)@.snapshot_outbound(*action, payload@);
                    assert(action_contents(actions@) =~= out.1);
                    assert(self@ == out.0);
                }
            },
            SyncAction::NotifyChangeFeed => {
                self.notify_own_change();
                proof {
                    let data: Vec<u8> = arbitrary();
                    let out = old(self)@.snapshot_outbound(*action, data@);
                    assert(action_contents(actions@) =~= out.1);
                }
            },
            SyncAction::ScheduleDelayed(delay) => {
                let data = self.serialize(view);
                let ghost payload = data;
                self.diagnostics.record_snapshot_sent();
                actions.push(
                    EngineAction::ScheduleDelayed {
                        delay: *delay,
                        message: self.snapshot_message(data),
                    },
                );
                proof {
                    let out = old(self)@.snapshot_outbound(*action, payload@);
                    assert(action_contents(actions@) =~= out.1);
                    assert(self@ == out.0);
                }
            },
            SyncAction::Suppress => {
                self.diagnostics.record_delta_suppressed();
                proof {
                    let data: Vec<u8> = arbitrary();
                    let out = old(self)@.snapshot_outbound(*action, data@);
                    assert(action_contents(actions@) =~= out.1);
                }
            },
        }
        actions
    }

    /// Turns a sync action into engine actions, preferring a delta when appropriate.
    fn sync_action_to_engine_actions_delta<VD, SD: FnOnce(&VD) -> Vec<u8>>(
        &mut self,
        action: &SyncAction,
        view: &V,
        view_delta: &VD,
        serialize_delta: SD,
    ) -> (actions: Vec<EngineAction>)
        requires
            old(self).wf(),
            old(self)@.diagnostics.can_send(),
            call_requires(serialize_delta, (view_delta,)),
        ensures
            final(self).wf(),
            final(self).codec() == old(self).codec(),
            exists|data: Vec<u8>|
                (action is BroadcastSnapshot ==> call_ensures(
                    old(self).codec().0,
                    (view,),
                    data,
                )) && (action is BroadcastDelta || action is ScheduleDelayed ==> call_ensures(
                    serialize_delta,
                    (view_delta,),
                    data,
                )) && (final(self)@, action_contents(actions@))
                    == #[trigger] old(self)@.delta_outbound(*action, data@),
    {
        let mut actions: Vec<EngineAction> = Vec::new();
        match action {
            SyncAction::BroadcastDelta => {
                let data = serialize_delta(view_delta);
                let ghost payload = data;
                self.diagnostics.record_delta_sent();
                self.diagnostics.record_delta_immediate();
                actions.push(EngineAction::BroadcastSync(self.delta_message(data)));
                proof {
                    let out = old(self)@.delta_outbound(*action, payload@);
                    assert(action_contents(actions@) =~= out.1);
                    assert(self@ == out.0);
                }
            },
            SyncAction::BroadcastSnapshot => {
                let data = self.serialize(view);
                let ghost payload = data;
                self.diagnostics.record_snapshot_sent();
                actions.push(EngineAction::BroadcastSync(self.snapshot_message(data)));
                proof {
                    let out = old(self)@.delta_outbound(*action, payload@);
                    assert(action_contents(actions@) =~= out.1);
                    assert(self@ == out.0);
                }
            },
            SyncAction::NotifyChangeFeed => {
                self.notify_own_change();
                proof {
                    let data: Vec<u8> = arbitrary();
                    let out = old(self)@.delta_outbound(*action, data@);
                    assert(action_contents(actions@) =~= out.1);
                }
            },
            SyncAction::ScheduleDelayed(delay) => {
                let data = serialize_delta(view_delta);
                let ghost payload = data;
                self.diagnostics.record_delta_sent();
                actions.push(
                    EngineAction::ScheduleDelayed {
                        delay: *delay,
                        message: self.delta_message(data),
                    },
                );
                proof {
                    let out = old(self)@.delta_outbound(*action, payload@);
                    assert(action_contents(actions@) =~= out.1);
                    assert(self@ == out.0);
                }
            },
            SyncAction::Suppress => {
                self.diagnostics.record_delta_suppressed();
                proof {
                    let data: Vec<u8> = arbitrary();
                    let out = old(self)@.delta_outbound(*action, data@);
                    assert(action_contents(actions@) =~= out.1);
                }
            },
        }
        actions
    }

    /// Records that data of the wire version `received` came from `source` at `unix_ms` and
    /// was not understood, and drops the view of `source` where the policy says so.
    fn mismatch_at(&mut self, source: NodeId, action: VersionMismatchAction, unix_ms: i64)
        requires
            old(self).wf(),
            old(self)@.diagnostics.can_fail(source),
            exists|received: u32| action@ == #[trigger] old(self)@.versions.mismatch(received),
        ensures
            final(self).wf(),
            final(self).codec() == old(self).codec(),
            forall|received: u32|
                action@ == #[trigger] old(self)@.versions.mismatch(received) ==> final(self)@
                    == old(self)@.after_mismatch(source, received, unix_ms),
    {
        match action {
            VersionMismatchAction::DropView { wire_version: _, reason } => {
                self.diagnostics.record_sync_failure_at(source, reason.as_str(), unix_ms);
                self.shard.on_node_left(source);
            },
            VersionMismatchAction::KeepStale { wire_version: _, reason } => {
                self.diagnostics.record_sync_failure_at(source, reason.as_str(), unix_ms);
            },
        }
    }

    /// Takes in a snapshot of `source` whose payload was decoded to `decoded`. The readings of
    /// the clock date the snapshot or its failure, its arrival, and its success.
    pub fn accept_snapshot_at(
        &mut self,
        source: NodeId,
        generation: Generation,
        wire_version: u32,
        decoded: Result<V, DeserializeError>,
        unix_ms: i64,
        now: Instant,
        recorded_ms: i64,
    )
        requires
            old(self).wf(),
            old(self)@.diagnostics.can_take_snapshot(source),
            !old(self)@.departed.contains(source),
        ensures
            final(self).wf(),
            final(self).codec() == old(self).codec(),
            final(self)@ == old(self)@.after_snapshot(
                source,
                generation,
                wire_version,
                decoded,
                unix_ms,
                now,
                recorded_ms,
            ),
    {
        match self.versioning.classify(decoded) {
            InboundVersionResult::Decoded(view) => {
                let snap = InboundSnapshot {
                    source,
                    generation,
                    wire_version,
                    view,
                    created_time: unix_ms,
                    modified_time: unix_ms,
                };
                match self.shard.accept_inbound_snapshot_at(snap, now) {
                    AcceptResult::Accepted => {
                        self.diagnostics.record_snapshot_received_at(source, 0, recorded_ms);
                    },
                    AcceptResult::Discarded => {
                        self.diagnostics.record_stale_delta_discarded();
                    },
                }
            },
            InboundVersionResult::VersionMismatch(action) => {
                self.mismatch_at(source, action, unix_ms);
            },
            InboundVersionResult::MalformedData(msg) => {
                let reason = text::concat2("malformed: ", msg.as_str());
                self.diagnostics.record_sync_failure_at(source, reason.as_str(), unix_ms);
            },
        }
    }

    /// Handles a snapshot message.
    fn handle_full_snapshot(
        &mut self,
        state_name: String,
        source_node: NodeId,
        generation: Generation,
        wire_version: u32,
        data: Vec<u8>,
    ) -> (actions: Vec<EngineAction>)
        requires
            old(self).wf(),
            old(self)@.listens(state_name@, source_node)
                ==> old(self)@.diagnostics.can_take_snapshot(source_node),
        ensures
            final(self).wf(),
            final(self).codec() == old(self).codec(),
            model::full_snapshot_step(
                old(self)@,
                final(self)@,
                old(self).codec().1,
                state_name@,
                source_node,
                generation,
                wire_version,
                data@,
            ),
            actions@ == Seq::<EngineAction>::empty(),
    {
        if state_name != self.state_name {
            return Vec::new();
        }
        if !self.lifecycle.should_accept_from(&source_node) {
            return Vec::new();
        }
        let bytes = data.as_slice();
        assert(call_requires(self.codec().1, (bytes, wire_version)));
        let decoded = (self.deserialize_view)(bytes, wire_version);
        let unix_ms = self.shard.clock().unix_ms();
        let now = self.shard.clock().now();
        let recorded_ms = self.shard.clock().unix_ms();
        self.accept_snapshot_at(
            source_node,
            generation,
            wire_version,
            decoded,
            unix_ms,
            now,
            recorded_ms,
        );
        Vec::new()
    }

    /// Takes in a delta of `source`; where it gets as far as being applied, `applied` is the
    /// resulting view. The readings of the clock date the delta or its failure, its arrival,
    /// and its success.
    pub fn accept_delta_at(
        &mut self,
        source: NodeId,
        generation: Generation,
        wire_version: u32,
        applied: Result<V, DeserializeError>,
        unix_ms: i64,
        now: Instant,
        recorded_ms: i64,
    ) -> (actions: Vec<EngineAction>)
        requires
            old(self).wf(),
            old(self)@.diagnostics.can_take_delta(source),
            !old(self)@.departed.contains(source),
        ensures
            final(self).wf(),
            final(self).codec() == old(self).codec(),
            (final(self)@, action_contents(actions@)) == old(self)@.after_delta(
                source,
                generation,
                wire_version,
                applied,
                unix_ms,
                now,
                recorded_ms,
            ),
    {
        let mut actions: Vec<EngineAction> = Vec::new();
        assert(action_contents(actions@) =~= Seq::<ActionContent>::empty());
        if wire_version != self.wire_version {
            let action = self.versioning.on_deserialize_error(wire_version);
            self.mismatch_at(source, action, unix_ms);
            return actions;
        }
        if self.inbound_delta_applier.is_none() {
            actions.push(self.make_snapshot_request(source));
            assert(action_contents(actions@) =~= seq![self@.request(source)]);
            return actions;
        }
        match self.shard.judge_delta(&source, generation) {
            DeltaAcceptResult::UnknownPeer => {
                actions.push(self.make_snapshot_request(source));
                assert(action_contents(actions@) =~= seq![old(self)@.request(source)]);
            },
            DeltaAcceptResult::Discarded => {
                self.diagnostics.record_stale_delta_discarded();
            },
            DeltaAcceptResult::GapDetected { local: _, incoming: _ } => {
                self.diagnostics.record_gap_detected(source);
                actions.push(self.make_snapshot_request(source));
                assert(action_contents(actions@) =~= seq![old(self)@.request(source)]);
            },
            DeltaAcceptResult::Applied => match applied {
                Ok(value) => {
                    self.shard.accept_inbound_delta_at(
                        source,
                        generation,
                        wire_version,
                        value,
                        unix_ms,
                        now,
                    );
                    self.diagnostics.record_delta_received_at(source, 0, recorded_ms);
                },
                Err(e) => {
                    let reason = match &e {
                        DeserializeError::UnknownVersion(v) => text::concat_decimal(
                            "delta version mismatch: ",
                            *v as u64,
                        ),
                        DeserializeError::Malformed(msg) => text::concat2(
                            "delta malformed: ",
                            msg.as_str(),
                        ),
                    };
                    self.diagnostics.record_sync_failure_at(source, reason.as_str(), unix_ms);
                    actions.push(self.make_snapshot_request(source));
                    assert(action_contents(actions@) =~= seq![old(self)@.request(source)]);
                },
            },
        }
        actions
    }

    /// Handles a delta message.
    fn handle_delta_update(
        &mut self,
        state_name: String,
        source_node: NodeId,
        generation: Generation,
        wire_version: u32,
        data: Vec<u8>,
    ) -> (actions: Vec<EngineAction>)
        requires
            old(self).wf(),
            old(self)@.listens(state_name@, source_node)
                ==> old(self)@.diagnostics.can_take_delta(source_node),
        ensures
            final(self).wf(),
            final(self).codec() == old(self).codec(),
            model::delta_update_step(
                old(self)@,
                final(self)@,
                old(self).codec().2,
                state_name@,
                source_node,
                generation,
                wire_version,
                data@,
                action_contents(actions@),
            ),
    {
        let none: Vec<EngineAction> = Vec::new();
        assert(action_contents(none@) =~= Seq::<ActionContent>::empty());
        if state_name != self.state_name {
            return none;
        }
        if !self.lifecycle.should_accept_from(&source_node) {
            return none;
        }
        let applied = self.apply_delta(&source_node, generation, wire_version, data.as_slice());
        let unix_ms = self.shard.clock().unix_ms();
        let now = self.shard.clock().now();
        let recorded_ms = self.shard.clock().unix_ms();
        self.accept_delta_at(
            source_node,
            generation,
            wire_version,
            applied,
            unix_ms,
            now,
            recorded_ms,
        )
    }

    /// The view that the delta `bytes` of `source` leads to, where it gets as far as being
    /// applied; otherwise the applier is not run.
    fn apply_delta(
        &self,
        source: &NodeId,
        generation: Generation,
        wire_version: u32,
        bytes: &[u8],
    ) -> (applied: Result<V, DeserializeError>)
        requires
            self.wf(),
        ensures
            self@.applies_delta(*source, generation, wire_version) ==> self.codec().2 is Some
                && model::delta_applied(
                self.codec().2->0,
                bytes@,
                wire_version,
                self@.shard.views[*source].value,
                applied,
            ),
    {
        if wire_version == self.wire_version {
            if let Some(applier) = &self.inbound_delta_applier {
                if self.shard.judge_delta(source, generation) == DeltaAcceptResult::Applied {
                    if let Some(current) = self.shard.get_view(source) {
                        assert(call_requires(
                            self.codec().2->0,
                            (bytes, wire_version, &current.value),
                        ));
                        return applier(bytes, wire_version, &current.value);
                    }
                }
            }
        }
        Err(DeserializeError::UnknownVersion(wire_version))
    }

    /// Handles a snapshot request.
    fn handle_request_snapshot(&mut self, state_name: String, requester: NodeId) -> (actions: Vec<
        EngineAction,
    >)
        requires
            old(self).wf(),
            old(self)@.listens(state_name@, requester) ==> old(self)@.diagnostics.can_push(),
        ensures
            final(self).wf(),
            final(self).codec() == old(self).codec(),
            model::request_step(
                old(self)@,
                final(self)@,
                old(self).codec().0,
                state_name@,
                requester,
                action_contents(actions@),
            ),
    {
        let mut actions: Vec<EngineAction> = Vec::new();
        assert(action_contents(actions@) =~= Seq::<ActionContent>::empty());
        if state_name != self.state_name {
            return actions;
        }
        if !self.lifecycle.should_accept_from(&requester) {
            return actions;
        }
        let data = self.serialize_own_view();
        let ghost payload = data;
        self.diagnostics.record_snapshot_sent();
        assert(self.codec() == old(self).codec());
        actions.push(
            EngineAction::SendSync { target: requester, message: self.snapshot_message(data) },
        );
        assert(action_contents(actions@) =~= seq![
            ActionContent::SendSync {
                target: requester,
                message: old(self)@.own_snapshot(payload@),
            },
        ]);
        actions
    }

    /// Process an inbound synchronization message.
    ///
    /// Returns actions the host must execute (e.g., sending a snapshot
    /// in response to a `RequestSnapshot`).
    ///
    /// Snapshots are accepted even from peers that have not been announced via
    /// `on_node_joined`, so that late-arriving snapshots populate the view map.
    pub fn handle_inbound_sync(&mut self, msg: SyncMessage) -> (actions: Vec<EngineAction>)
        requires
            old(self).wf(),
            old(self)@.can_take(msg@),
        ensures
            final(self).wf(),
            final(self).codec() == old(self).codec(),
            model::sync_step(
                old(self)@,
                final(self)@,
                old(self).codec(),
                msg@,
                action_contents(actions@),
            ),
    {
        match msg {
            SyncMessage::FullSnapshot {
                state_name,
                source_node,
                generation,
                wire_version,
                data,
            } => {
                let actions = self.handle_full_snapshot(
                    state_name,
                    source_node,
                    generation,
                    wire_version,
                    data,
                );
                assert(action_contents(actions@) =~= Seq::<ActionContent>::empty());
                actions
            },
            SyncMessage::DeltaUpdate {
                state_name,
                source_node,
                generation,
                wire_version,
                data,
            } => self.handle_delta_update(state_name, source_node, generation, wire_version, data),
            SyncMessage::RequestSnapshot { state_name, requester } => self.handle_request_snapshot(
                state_name,
                requester,
            ),
        }
    }

    /// Process an inbound change feed batch.
    ///
    /// Marks peer views as stale based on feed notifications. Stale views
    /// will trigger snapshot requests on the next query (if `pull_on_query`
    /// is enabled). Notifications from departed nodes are ignored.
    pub fn handle_inbound_change_feed(&mut self, feed: BatchedChangeFeed)
        requires
            old(self).wf(),
        ensures
            final(self).wf(),
            final(self).codec() == old(self).codec(),
            final(self)@ == old(self)@.after_feed(feed@),
    {
        let local = self.shard.node_id();
        let entries = ChangeFeedLogic::route_inbound_batch(&feed, local);
        let ghost routed = crate::replica::change_feed_logic::routed(feed@, local);
        let ghost m0 = self@;
        let mut i: usize = 0;
        assert(routed.take(0) =~= Seq::<crate::types::sync_message::ChangeContent>::empty());
        while i < entries.len()
            invariant
                i <= entries@.len(),
                entries@.len() == routed.len(),
                forall|j: int|
                    0 <= j < entries@.len() ==> ({
                        let e = #[trigger] entries@[j];
                        routed[j] == (crate::types::sync_message::ChangeContent {
                            state_name: e.0@,
                            source_node: e.1,
                            generation: e.2,
                        })
                    }),
                self.wf(),
                self.codec() == old(self).codec(),
                m0 == old(self)@,
                self@ == m0.with_views(
                    model::views_after_notices(
                        m0.shard.views,
                        m0.state_name,
                        m0.departed,
                        routed.take(i as int),
                    ),
                ),
            decreases entries@.len() - i,
        {
            let source = entries[i].1;
            let generation = entries[i].2;
            proof {
                assert(routed.take(i + 1).drop_last() =~= routed.take(i as int));
                assert(routed.take(i + 1).last() == routed[i as int]);
            }
            if entries[i].0 == self.state_name && self.lifecycle.should_accept_from(&source) {
                let ghost before = *self;
                self.shard.mark_stale(source, generation.incarnation, generation.age);
                proof {
                    assert(self.codec() == before.codec());
                    assert(self@.shard.views.dom() =~= before@.shard.views.dom());
                }
            }
            i = i + 1;
        }
        assert(routed.take(entries@.len() as int) =~= routed);
    }

    /// Process an inbound wire message: a synchronization message or a change feed batch.
    pub fn handle_inbound(&mut self, msg: WireMessage) -> (actions: Vec<EngineAction>)
        requires
            old(self).wf(),
            old(self)@.can_handle(msg@),
        ensures
            final(self).wf(),
            final(self).codec() == old(self).codec(),
            model::inbound_step(
                old(self)@,
                final(self)@,
                old(self).codec(),
                msg@,
                action_contents(actions@),
            ),
    {
        match msg {
            WireMessage::Sync(sync_msg) => self.handle_inbound_sync(sync_msg),
            WireMessage::Feed(feed) => {
                self.handle_inbound_change_feed(feed);
                let actions: Vec<EngineAction> = Vec::new();
                assert(action_contents(actions@) =~= Seq::<ActionContent>::empty());
                actions
            },
        }
    }

    /// Flush pending change feed notifications into a batch.
    ///
    /// Call this at the configured `batch_interval`. Returns `None` if no
    /// notifications are pending.
    pub fn flush_change_feed(&mut self) -> (feed: Option<BatchedChangeFeed>)
        requires
            old(self).wf(),
        ensures
            final(self).wf(),
            final(self).codec() == old(self).codec(),
            final(self)@ == (EngineModel { feed: Seq::empty(), ..old(self)@ }),
            feed is None <==> old(self)@.feed.len() == 0,
            feed matches Some(f) ==> f@ == (FeedContent {
                source_node: old(self)@.shard.node_id,
                notifications: old(self)@.feed,
            }),
    {
        self.change_feed.flush()
    }

    /// Number of change feed notifications pending flush.
    pub fn pending_change_feed_count(&self) -> (n: usize)
        ensures
            n == self@.feed.len(),
    {
        self.change_feed.pending_count()
    }

    /// Handle a node joining the cluster.
    ///
    /// Returns a `SendSync` action with our current snapshot for the new peer.
    pub fn on_node_joined(&mut self, node_id: NodeId, default_view: V) -> (actions: Vec<
        EngineAction,
    >)
        requires
            old(self).wf(),
            old(self)@.diagnostics.can_push(),
        ensures
            final(self).wf(),
            final(self).codec() == old(self).codec(),
            exists|now: Instant|
                (old(self)@.shard.clock.now)(now) && final(self)@
                    == #[trigger] old(self)@.after_join(node_id, default_view, now),
            exists|data: Vec<u8>| #[trigger]
                call_ensures(
                    old(self).codec().0,
                    (&final(self)@.shard.views[old(self)@.shard.node_id].value,),
                    data,
                ) && action_contents(actions@) == seq![
                    ActionContent::SendSync {
                        target: node_id,
                        message: old(self)@.own_snapshot(data@),
                    },
                ],
    {
        let join_actions = self.lifecycle.on_node_joined(&mut self.shard, node_id, default_view);
        proof {
            assert(self.codec() == old(self).codec());
            assert(model::no_ghosts(self@.departed, self@.shard.node_id, self@.shard.views)) by {
                assert forall|id: NodeId| #[trigger]
                    self@.shard.views.contains_key(id) implies id == self@.shard.node_id
                    || !self@.departed.contains(id) by {
                    if id != node_id {
                        assert(old(self)@.shard.views.contains_key(id));
                    }
                }
            }
        }
        let mut actions: Vec<EngineAction> = Vec::new();
        let JoinAction::SendSnapshotToPeer { target } = join_actions[0];
        let data = self.serialize_own_view();
        let ghost payload = data;
        self.diagnostics.record_snapshot_sent();
        actions.push(EngineAction::SendSync { target, message: self.snapshot_message(data) });
        proof {
            let now = choose|now: Instant|
                (old(self)@.shard.clock.now)(now) && self@.shard == old(self)@.shard.with_views(
                    #[trigger] shard_core::views_after_join(
                        old(self)@.shard.views,
                        old(self)@.shard.node_id,
                        node_id,
                        default_view,
                        now,
                    ),
                );
            assert(self@ == old(self)@.after_join(node_id, default_view, now));
        }
        assert(action_contents(actions@) =~= seq![
            ActionContent::SendSync {
                target: node_id,
                message: old(self)@.own_snapshot(payload@),
            },
        ]);
        actions
    }

    /// Handle a node leaving the cluster.
    ///
    /// Removes the node's view and adds it to the departed set (filtering
    /// late in-flight messages).
    pub fn on_node_left(&mut self, node_id: NodeId)
        requires
            old(self).wf(),
        ensures
            final(self).wf(),
            final(self).codec() == old(self).codec(),
            final(self)@ == old(self)@.after_leave(node_id),
    {
        self.lifecycle.on_node_left(&mut self.shard, node_id);
        self.diagnostics.remove_peer(&node_id);
    }

    /// Check whether inbound messages from a node should be accepted.
    pub fn should_accept_from(&self, node_id: &NodeId) -> (b: bool)
        requires
            self.wf(),
        ensures
            b == !self@.departed.contains(*node_id),
    {
        self.lifecycle.should_accept_from(node_id)
    }

    /// The snapshot requests for the stale peers `stale`, leaving out departed nodes.
    fn pull_requests(&self, stale: &Vec<NodeId>) -> (actions: Vec<EngineAction>)
        requires
            self.wf(),
        ensures
            action_contents(actions@) == self@.pulls(stale@),
    {
        let mut actions: Vec<EngineAction> = Vec::new();
        let mut i: usize = 0;
        assert(action_contents(actions@) =~= self@.pulls(stale@.take(0)));
        while i < stale.len()
            invariant
                self.wf(),
                i <= stale@.len(),
                action_contents(actions@) == self@.pulls(stale@.take(i as int)),
            decreases stale@.len() - i,
        {
            let peer = stale[i];
            let ghost sent = action_contents(actions@);
            proof {
                assert(stale@.take(i + 1).drop_last() =~= stale@.take(i as int));
                assert(stale@.take(i + 1).last() == peer);
            }
            if self.lifecycle.should_accept_from(&peer) {
                actions.push(self.make_snapshot_request(peer));
                assert(action_contents(actions@) =~= sent.push(self@.request(peer)));
            }
            i = i + 1;
        }
        assert(stale@.take(stale@.len() as int) =~= stale@);
        actions
    }

    /// Query the current views of all peers, at `now`.
    pub fn query_at<R, F: FnOnce(&NodeMap<StateViewObject<V>>) -> R>(
        &self,
        max_staleness: Duration,
        project: F,
        now: Instant,
    ) -> (answer: (EngineQueryResult<R>, Vec<EngineAction>))
        requires
            self.wf(),
            call_requires(project, (&self.entries(),)),
        ensures
            query_answer(
                self@,
                self.entries(),
                max_staleness,
                project,
                now,
                answer.0,
                action_contents(answer.1@),
            ),
    {
        proof {
            self.shard.lemma_wf();
        }
        match self.shard.query_local_at(max_staleness, project, now) {
            QueryResult::Fresh(result) => {
                let actions: Vec<EngineAction> = Vec::new();
                assert(action_contents(actions@) =~= Seq::<ActionContent>::empty());
                (EngineQueryResult::Fresh(result), actions)
            },
            QueryResult::StalePeersDetected { stale_peers, result } => {
                let actions = if self.sync_logic.strategy().pull_on_query {
                    self.pull_requests(&stale_peers)
                } else {
                    let none: Vec<EngineAction> = Vec::new();
                    assert(action_contents(none@) =~= Seq::<ActionContent>::empty());
                    none
                };
                (EngineQueryResult::Stale { result, stale_peers }, actions)
            },
        }
    }

    /// Query the current views of all peers.
    ///
    /// If `pull_on_query` is enabled and stale peers are detected, the
    /// engine issues `RequestSnapshot` actions for those peers (excluding
    /// departed nodes).
    pub fn query<R, F: FnOnce(&NodeMap<StateViewObject<V>>) -> R>(
        &self,
        max_staleness: Duration,
        project: F,
    ) -> (answer: (EngineQueryResult<R>, Vec<EngineAction>))
        requires
            self.wf(),
            call_requires(project, (&self.entries(),)),
        ensures
            exists|now: Instant|
                (self@.shard.clock.now)(now) && #[trigger] query_answer(
                    self@,
                    self.entries(),
                    max_staleness,
                    project,
                    now,
                    answer.0,
                    action_contents(answer.1@),
                ),
    {
        let now = self.shard.clock().now();
        self.query_at(max_staleness, project, now)
    }

    /// Produce a full snapshot broadcast for periodic sync.
    ///
    /// Call this at the interval returned by `periodic_interval`.
    /// Returns no action if periodic sync is not configured.
    pub fn periodic_sync(&mut self) -> (actions: Vec<EngineAction>)
        requires
            old(self).wf(),
            old(self)@.strategy.periodic_full_sync is Some ==> old(self)@.diagnostics.can_push(),
        ensures
            final(self).wf(),
            final(self).codec() == old(self).codec(),
            model::periodic_step(
                old(self)@,
                final(self)@,
                old(self).codec().0,
                action_contents(actions@),
            ),
    {
        let mut actions: Vec<EngineAction> = Vec::new();
        if !self.sync_logic.should_periodic_sync() {
            assert(action_contents(actions@) =~= Seq::<ActionContent>::empty());
            return actions;
        }
        let data = self.serialize_own_view();
        let ghost payload = data;
        self.diagnostics.record_snapshot_sent();
        actions.push(EngineAction::BroadcastSync(self.snapshot_message(data)));
        assert(action_contents(actions@) =~= seq![
            ActionContent::BroadcastSync(old(self)@.own_snapshot(payload@)),
        ]);
        actions
    }

    /// The configured periodic full-sync interval, if any.
    pub fn periodic_interval(&self) -> (interval: Option<Duration>)
        ensures
            interval == self@.strategy.periodic_full_sync,
    {
        self.sync_logic.periodic_interval()
    }

    /// This node's identity.
    pub fn node_id(&self) -> (id: NodeId)
        ensures
            id == self@.shard.node_id,
    {
        self.shard.node_id()
    }

    /// The name of the state.
    pub fn state_name(&self) -> (s: &str)
        ensures
            s@ == self@.state_name,
    {
        self.state_name.as_str()
    }

    /// The state that this node owns.
    pub fn state(&self) -> (s: &StateObject<S>)
        ensures
            *s == self@.shard.state,
    {
        self.shard.state()
    }

    /// Number of nodes with a view.
    pub fn view_count(&self) -> (n: usize)
        requires
            self.wf(),
        ensures
            n == self@.shard.views.dom().len(),
    {
        self.shard.view_count()
    }

    /// A single node's view.
    pub fn get_view(&self, node_id: &NodeId) -> (r: Option<&StateViewObject<V>>)
        requires
            self.wf(),
        ensures
            r == view_map::entry_of(self@.shard.views, *node_id),
    {
        self.shard.get_view(node_id)
    }

    /// What has been noted of the synchronization with `peer`, if anything.
    pub fn peer_diagnostics(&self, peer: &NodeId) -> (d: Option<&PeerDiagnostics>)
        requires
            self.wf(),
        ensures
            match d {
                Some(noted) => self@.diagnostics.peers.contains_key(*peer) && noted@
                    == self@.diagnostics.peers[*peer],
                None => !self@.diagnostics.peers.contains_key(*peer),
            },
    {
        self.diagnostics.peer(peer)
    }

    /// Current sync metrics.
    pub fn metrics(&self) -> (m: SyncMetrics)
        ensures
            m == public_metrics(self@.diagnostics.metrics),
    {
        let m = self.diagnostics.metrics();
        SyncMetrics {
            total_mutations: m.total_mutations,
            deltas_sent: m.deltas_sent,
            deltas_received: m.deltas_received,
            snapshots_sent: m.snapshots_sent,
            snapshots_received: m.snapshots_received,
            deltas_suppressed: m.deltas_suppressed,
            deltas_immediate: m.deltas_immediate,
            sync_failures: m.sync_failures,
            age_gaps_detected: m.age_gaps_detected,
            stale_deltas_discarded: m.stale_deltas_discarded,
        }
    }

    /// Whether the counters of a mutation and of what it sends can grow.
    pub fn can_mutate(&self) -> (b: bool)
        ensures
            b == self@.diagnostics.can_mutate(),
    {
        self.diagnostics.can_mutate()
    }

    /// Whether the counter of sent snapshots can grow.
    pub fn can_push(&self) -> (b: bool)
        ensures
            b == self@.diagnostics.can_push(),
    {
        self.diagnostics.can_push()
    }

    /// Whether the counters that handling `msg` may move can grow.
    pub fn can_take(&self, msg: &SyncMessage) -> (b: bool)
        requires
            self.wf(),
        ensures
            b == self@.can_take(msg@),
    {
        match msg {
            SyncMessage::FullSnapshot { state_name, source_node, .. } => *state_name
                != self.state_name || !self.lifecycle.should_accept_from(source_node)
                || self.diagnostics.can_take_snapshot(source_node),
            SyncMessage::DeltaUpdate { state_name, source_node, .. } => *state_name
                != self.state_name || !self.lifecycle.should_accept_from(source_node)
                || self.diagnostics.can_take_delta(source_node),
            SyncMessage::RequestSnapshot { state_name, requester } => *state_name
                != self.state_name || !self.lifecycle.should_accept_from(requester)
                || self.diagnostics.can_push(),
        }
    }

    /// Whether the counters that handling `msg` may move can grow.
    pub fn can_handle(&self, msg: &WireMessage) -> (b: bool)
        requires
            self.wf(),
        ensures
            b == self@.can_handle(msg@),
    {
        match msg {
            WireMessage::Sync(m) => self.can_take(m),
            WireMessage::Feed(_) => true,
        }
    }

    /// Whether every counter that messages of peers move can grow by `n`.
    pub fn has_room(&self, n: u32) -> (b: bool)
        requires
            self.wf(),
        ensures
            b == self@.diagnostics.has_room(n as nat),
    {
        self.diagnostics.has_room(n)
    }

    /// Health assessment of this state engine, at `now`.
    pub fn health_at(&self, max_staleness: Duration, now: Instant) -> (health: EngineHealth)
        requires
            self.wf(),
            self@.shard.views.dom().len() <= u32::MAX,
        ensures
            health_answer(self@, self.entries(), max_staleness, now, health),
    {
        proof {
            self.shard.lemma_wf();
        }
        let h = self.diagnostics.health_status_at(&self.shard, max_staleness, now);
        EngineHealth {
            state_name: h.state_name,
            healthy_peers: h.healthy_peers,
            stale_peers: h.stale_peers,
            failing_peers: h.failing_peers,
            status: match h.status {
                diagnostics::HealthStatus::Healthy => HealthStatus::Healthy,
                diagnostics::HealthStatus::Degraded => HealthStatus::Degraded,
                diagnostics::HealthStatus::Unhealthy => HealthStatus::Unhealthy,
            },
        }
    }

    /// Health assessment of this state engine.
    pub fn health(&self, max_staleness: Duration) -> (health: EngineHealth)
        requires
            self.wf(),
            self@.shard.views.dom().len() <= u32::MAX,
        ensures
            exists|now: Instant|
                (self@.shard.clock.now)(now) && #[trigger] health_answer(
                    self@,
                    self.entries(),
                    max_staleness,
                    now,
                    health,
                ),
    {
        let now = self.shard.clock().now();
        self.health_at(max_staleness, now)
    }

    /// The configured sync strategy.
    pub fn sync_strategy(&self) -> (s: &SyncStrategy)
        ensures
            *s == self@.strategy,
    {
        self.sync_logic.strategy()
    }
}

/// What a query answers at `now`: the projection of the views, the stale peers if there are
/// any, and the requests to them where the strategy pulls on queries.
pub open spec fn query_answer<S, V, R, F: FnOnce(&NodeMap<StateViewObject<V>>) -> R>(
    m: EngineModel<S, V>,
    entries: NodeMap<StateViewObject<V>>,
    max_staleness: Duration,
    project: F,
    now: Instant,
    answer: EngineQueryResult<R>,
    sent: Seq<ActionContent>,
) -> bool {
    let stale = view_map::stale_among(
        entries.ids(),
        m.shard.views,
        m.shard.node_id,
        max_staleness,
        now,
    );
    match answer {
        EngineQueryResult::Fresh(result) => stale.len() == 0 && sent == Seq::<
            ActionContent,
        >::empty() && call_ensures(project, (&entries,), result),
        EngineQueryResult::Stale { result, stale_peers } => stale.len() > 0 && stale_peers@ == stale
            && call_ensures(project, (&entries,), result) && sent == if m.strategy.pull_on_query {
            m.pulls(stale)
        } else {
            Seq::empty()
        },
    }
}

/// What the health assessment says at `now`.
pub open spec fn health_answer<S, V>(
    m: EngineModel<S, V>,
    entries: NodeMap<StateViewObject<V>>,
    max_staleness: Duration,
    now: Instant,
    health: EngineHealth,
) -> bool {
    let counts = diagnostics::peer_counts(
        entries.ids(),
        m.shard.views,
        m.diagnostics,
        m.shard.node_id,
        max_staleness,
        now,
    );
    &&& health.state_name@ == m.state_name
    &&& health.healthy_peers == counts.healthy
    &&& health.stale_peers == counts.stale
    &&& health.failing_peers == counts.failing
    &&& health.status == public_status(diagnostics::classification(counts))
}

impl<S, V: Clone, C, SV, DV, DA> DistributedStateEngine<S, V, C, SV, DV, DA> where
    C: Clock,
    SV: Fn(&V) -> Vec<u8>,
    DV: Fn(&[u8], u32) -> Result<V, DeserializeError>,
    DA: Fn(&[u8], u32, &V) -> Result<V, DeserializeError>,
 {
    /// Apply a mutation to the state and produce outbound sync actions.
    ///
    /// This is the simple (non-delta) path: the entire projected view is
    /// sent as a `FullSnapshot`. For delta-aware mutations, use
    /// `mutate_with_delta`.
    pub fn mutate<F: FnOnce(&mut S), P: FnOnce(&S) -> V>(
        &mut self,
        mutate_fn: F,
        project_fn: P,
        urgency: SyncUrgency,
    ) -> (result: MutateResult<V>)
        requires
            old(self).wf(),
            old(self)@.diagnostics.can_mutate(),
            old(self)@.shard.state.generation.age < u64::MAX,
            shard_core::may_mutate(mutate_fn, old(self)@.shard.state.value),
            forall|place: &mut S| *place == old(self)@.shard.state.value && #[trigger] call_ensures(
                mutate_fn,
                (place,),
                (),
            ) ==> call_requires(project_fn, (final(place),)),
        ensures
            final(self).wf(),
            final(self).codec() == old(self).codec(),
            exists|place: &mut S| *place == old(self)@.shard.state.value && *final(place)
                == final(self)@.shard.state.value && #[trigger] call_ensures(
                mutate_fn,
                (place,),
                (),
            ),
            shard_core::mutation_step(
                old(self)@.shard,
                final(self)@.shard,
                project_fn,
                result.view,
            ),
            result.generation == final(self)@.shard.state.generation,
            mutate_sends(
                old(self)@,
                final(self)@,
                old(self).codec().0,
                result.view,
                urgency,
                action_contents(result.actions@),
            ),
    {
        let outcome = self.shard.apply_mutation(mutate_fn, project_fn);
        self.diagnostics.record_mutation();
        let action = self.sync_logic.resolve_action(urgency);
        let ghost mid = self@;
        assert(mid == model::mutated(old(self)@, mid.shard));
        let actions = self.sync_action_to_engine_actions_snapshot(&action, &outcome.view);
        MutateResult { generation: outcome.generation, view: outcome.view, actions }
    }

    /// Apply a delta-aware mutation and produce outbound sync actions.
    ///
    /// The `serialize_delta` closure is called only when the sync logic
    /// decides to send a delta (not a full snapshot).
    pub fn mutate_with_delta<VD, DC, F, PV, PD, SD>(
        &mut self,
        mutate_fn: F,
        project_view_fn: PV,
        project_delta_fn: PD,
        urgency: SyncUrgency,
        serialize_delta: SD,
    ) -> (result: DeltaMutateResult<V, VD>) where
        F: FnOnce(&mut S) -> DC,
        PV: FnOnce(&S) -> V,
        PD: FnOnce(&DC) -> VD,
        SD: FnOnce(&VD) -> Vec<u8>,

        requires
            old(self).wf(),
            old(self)@.diagnostics.can_mutate(),
            old(self)@.shard.state.generation.age < u64::MAX,
            shard_core::may_mutate(mutate_fn, old(self)@.shard.state.value),
            forall|place: &mut S, out: DC| *place == old(self)@.shard.state.value
                && #[trigger] call_ensures(mutate_fn, (place,), out) ==> call_requires(
                project_view_fn,
                (final(place),),
            ) && call_requires(project_delta_fn, (&out,)),
            forall|delta: VD| #[trigger] call_requires(serialize_delta, (&delta,)),
        ensures
            final(self).wf(),
            final(self).codec() == old(self).codec(),
            exists|place: &mut S, change: DC| *place == old(self)@.shard.state.value
                && *final(place) == final(self)@.shard.state.value && #[trigger] call_ensures(
                mutate_fn,
                (place,),
                change,
            ) && call_ensures(project_delta_fn, (&change,), result.view_delta),
            shard_core::mutation_step(
                old(self)@.shard,
                final(self)@.shard,
                project_view_fn,
                result.view,
            ),
            result.generation == final(self)@.shard.state.generation,
            delta_mutate_sends(
                old(self)@,
                final(self)@,
                old(self).codec().0,
                serialize_delta,
                result.view,
                result.view_delta,
                urgency,
                action_contents(result.actions@),
            ),
    {
        let outcome = self.shard.apply_mutation_with_delta(
            mutate_fn,
            project_view_fn,
            project_delta_fn,
        );
        self.diagnostics.record_mutation();
        let action = self.sync_logic.resolve_action(urgency);
        let ghost mid = self@;
        assert(mid == model::mutated(old(self)@, mid.shard));
        let actions = self.sync_action_to_engine_actions_delta(
            &action,
            &outcome.view,
            &outcome.view_delta,
            serialize_delta,
        );
        DeltaMutateResult {
            generation: outcome.generation,
            view: outcome.view,
            view_delta: outcome.view_delta,
            actions,
        }
    }

    /// Get a snapshot of all peer views.
    pub fn snapshot(&self) -> (copy: NodeMap<StateViewObject<V>>)
        requires
            self.wf(),
        ensures
            copy.wf(),
            copy@.dom() == self@.shard.views.dom(),
            forall|id: NodeId| #[trigger]
                self@.shard.views.contains_key(id) ==> cloned(
                    self@.shard.views[id].value,
                    copy@[id].value,
                ) && copy@[id] == self@.shard.views[id].with_value(copy@[id].value),
    {
        self.shard.snapshot()
    }
}

/// What a mutation of the given urgency, which has led from `m0` to the shard of `m1` and to
/// `view`, records and sends.
pub open spec fn mutate_sends<S, V, SV: Fn(&V) -> Vec<u8>>(
    m0: EngineModel<S, V>,
    m1: EngineModel<S, V>,
    serialize: SV,
    view: V,
    urgency: SyncUrgency,
    sent: Seq<ActionContent>,
) -> bool {
    let action = sync_logic::resolved(m0.strategy, m0.supports_delta, urgency);
    exists|data: Vec<u8>|
        (model::sends_data(action) ==> call_ensures(serialize, (&view,), data)) && (m1, sent)
            == #[trigger] model::mutated(m0, m1.shard).snapshot_outbound(action, data@)
}

/// What a delta-aware mutation of the given urgency, which has led from `m0` to the shard of
/// `m1`, to `view` and to `view_delta`, records and sends.
pub open spec fn delta_mutate_sends<S, V, VD, SV, SD>(
    m0: EngineModel<S, V>,
    m1: EngineModel<S, V>,
    serialize: SV,
    serialize_delta: SD,
    view: V,
    view_delta: VD,
    urgency: SyncUrgency,
    sent: Seq<ActionContent>,
) -> bool where SV: Fn(&V) -> Vec<u8>, SD: FnOnce(&VD) -> Vec<u8> {
    let action = sync_logic::resolved(m0.strategy, m0.supports_delta, urgency);
    exists|data: Vec<u8>|
        (action is BroadcastSnapshot ==> call_ensures(serialize, (&view,), data)) && (action
            is BroadcastDelta || action is ScheduleDelayed ==> call_ensures(
            serialize_delta,
            (&view_delta,),
            data,
        )) && (m1, sent) == #[trigger] model::mutated(m0, m1.shard).delta_outbound(action, data@)
}

} // verus!
