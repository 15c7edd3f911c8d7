//! What an engine holds, and what each of its operations does to it.
use vstd::prelude::*;

use crate::engine::{ActionContent, WireContent};
use crate::replica::change_feed_logic;
use crate::replica::diagnostics::{DiagnosticsModel, StateSyncMetrics};
use crate::replica::shard_core;
use crate::replica::shard_core::{DeltaAcceptResult, InboundSnapshot, ShardModel};
use crate::replica::sync_logic::SyncAction;
use crate::replica::versioning_logic::{MismatchVerdict, VersionSettings};
use crate::traits::clock::Readings;
use crate::types::config::{StateConfig, SyncStrategy};
use crate::types::envelope::{StateObject, StateViewObject};
use crate::types::errors::{DecodeFailure, DeserializeError};
use crate::types::node::{Generation, NodeId};
use crate::types::sync_message::{ChangeContent, FeedContent, SyncContent};
use crate::types::text;
use crate::types::time::Instant;

verus! {

/// What an engine holds.
pub struct EngineModel<S, V> {
    pub state_name: Seq<char>,
    pub wire_version: u32,
    pub shard: ShardModel<S, V>,
    pub strategy: SyncStrategy,
    /// Whether inbound deltas can be applied.
    pub supports_delta: bool,
    /// The change notifications to be flushed.
    pub feed: Seq<ChangeContent>,
    pub versions: VersionSettings,
    /// The nodes that have left and not joined again.
    pub departed: Set<NodeId>,
    pub diagnostics: DiagnosticsModel,
}

/// Whether the payload of a message is produced for `action`.
pub open spec fn sends_data(action: SyncAction) -> bool {
    action is BroadcastSnapshot || action is BroadcastDelta || action is ScheduleDelayed
}

/// The reason recorded when a delta could not be applied.
pub open spec fn delta_failure(e: DecodeFailure) -> Seq<char> {
    match e {
        DecodeFailure::UnknownVersion(v) => "delta version mismatch: "@ + text::decimal(v as nat),
        DecodeFailure::Malformed(msg) => "delta malformed: "@ + msg,
    }
}

/// The views after those notices of `entries` that speak of the state `name` of a node that
/// has not departed.
pub open spec fn views_after_notices<V>(
    views: Map<NodeId, StateViewObject<V>>,
    name: Seq<char>,
    departed: Set<NodeId>,
    entries: Seq<ChangeContent>,
) -> Map<NodeId, StateViewObject<V>>
    decreases entries.len(),
{
    if entries.len() == 0 {
        views
    } else {
        let rest = views_after_notices(views, name, departed, entries.drop_last());
        let entry = entries.last();
        if entry.state_name != name || departed.contains(entry.source_node) {
            rest
        } else {
            shard_core::views_after_notice(rest, entry.source_node, entry.generation)
        }
    }
}

/// No node that has departed has a view; the local node keeps its own.
pub open spec fn no_ghosts<V>(
    departed: Set<NodeId>,
    local: NodeId,
    views: Map<NodeId, StateViewObject<V>>,
) -> bool {
    forall|id: NodeId| #[trigger]
        views.contains_key(id) ==> id == local || !departed.contains(id)
}

impl<S, V> EngineModel<S, V> {
    /// The parts of the engine agree on what they are configured with, no two pending
    /// notifications speak of the same subject, and no node that has departed has a view.
    pub open spec fn wf(self) -> bool {
        &&& self.shard.wf()
        &&& change_feed_logic::distinct_subjects(self.feed)
        &&& self.versions.state_name == self.state_name
        &&& self.versions.wire_version == self.wire_version
        &&& self.diagnostics.state_name == self.state_name
        &&& no_ghosts(self.departed, self.shard.node_id, self.shard.views)
    }

    /// Whether the engine listens to `node` when it speaks of the state `name`.
    pub open spec fn listens(self, name: Seq<char>, node: NodeId) -> bool {
        name == self.state_name && !self.departed.contains(node)
    }

    /// The counters that handling `message` may move can grow.
    pub open spec fn can_take(self, message: SyncContent) -> bool {
        match message {
            SyncContent::FullSnapshot { state_name, source_node, .. } => self.listens(
                state_name,
                source_node,
            ) ==> self.diagnostics.can_take_snapshot(source_node),
            SyncContent::DeltaUpdate { state_name, source_node, .. } => self.listens(
                state_name,
                source_node,
            ) ==> self.diagnostics.can_take_delta(source_node),
            SyncContent::RequestSnapshot { state_name, requester } => self.listens(
                state_name,
                requester,
            ) ==> self.diagnostics.can_push(),
        }
    }

    /// The counters that handling `message` may move can grow.
    pub open spec fn can_handle(self, message: WireContent) -> bool {
        match message {
            WireContent::Sync(m) => self.can_take(m),
            WireContent::Feed(_) => true,
        }
    }

    /// `self` with another shard.
    pub open spec fn with_shard(self, shard: ShardModel<S, V>) -> Self {
        EngineModel { shard, ..self }
    }

    /// `self` with other views.
    pub open spec fn with_views(self, views: Map<NodeId, StateViewObject<V>>) -> Self {
        EngineModel { shard: self.shard.with_views(views), ..self }
    }

    /// `self` with other diagnostics.
    pub open spec fn recording(self, diagnostics: DiagnosticsModel) -> Self {
        EngineModel { diagnostics, ..self }
    }

    /// The message that carries `data` as the node's current view.
    pub open spec fn own_snapshot(self, data: Seq<u8>) -> SyncContent {
        SyncContent::FullSnapshot {
            state_name: self.state_name,
            source_node: self.shard.node_id,
            generation: self.shard.state.generation,
            wire_version: self.wire_version,
            data,
        }
    }

    /// The message that carries `data` as the delta to the node's current view.
    pub open spec fn own_delta(self, data: Seq<u8>) -> SyncContent {
        SyncContent::DeltaUpdate {
            state_name: self.state_name,
            source_node: self.shard.node_id,
            generation: self.shard.state.generation,
            wire_version: self.wire_version,
            data,
        }
    }

    /// The request to `target` for its snapshot.
    pub open spec fn request(self, target: NodeId) -> ActionContent {
        ActionContent::SendSync {
            target,
            message: SyncContent::RequestSnapshot {
                state_name: self.state_name,
                requester: self.shard.node_id,
            },
        }
    }

    /// `self` with the node's current generation noted for the change feed.
    pub open spec fn notified(self) -> Self {
        EngineModel {
            feed: change_feed_logic::noted(
                self.feed,
                ChangeContent {
                    state_name: self.state_name,
                    source_node: self.shard.node_id,
                    generation: self.shard.state.generation,
                },
            ),
            ..self
        }
    }

    /// What a mutation without a delta sends, `data` being the serialized view.
    pub open spec fn snapshot_outbound(self, action: SyncAction, data: Seq<u8>) -> (
        Self,
        Seq<ActionContent>,
    ) {
        match action {
            SyncAction::BroadcastSnapshot | SyncAction::BroadcastDelta => (
                self.recording(self.diagnostics.snapshot_sent()),
                seq![ActionContent::BroadcastSync(self.own_snapshot(data))],
            ),
            SyncAction::NotifyChangeFeed => (self.notified(), Seq::empty()),
            SyncAction::ScheduleDelayed(delay) => (
                self.recording(self.diagnostics.snapshot_sent()),
                seq![ActionContent::ScheduleDelayed { delay, message: self.own_snapshot(data) }],
            ),
            SyncAction::Suppress => (
                self.recording(self.diagnostics.delta_suppressed()),
                Seq::empty(),
            ),
        }
    }

    /// What a mutation with a delta sends, `data` being the serialized view for a snapshot
    /// and the serialized delta otherwise.
    pub open spec fn delta_outbound(self, action: SyncAction, data: Seq<u8>) -> (
        Self,
        Seq<ActionContent>,
    ) {
        match action {
            SyncAction::BroadcastDelta => (
                self.recording(self.diagnostics.delta_sent().delta_immediate()),
                seq![ActionContent::BroadcastSync(self.own_delta(data))],
            ),
            SyncAction::BroadcastSnapshot => (
                self.recording(self.diagnostics.snapshot_sent()),
                seq![ActionContent::BroadcastSync(self.own_snapshot(data))],
            ),
            SyncAction::NotifyChangeFeed => (self.notified(), Seq::empty()),
            SyncAction::ScheduleDelayed(delay) => (
                self.recording(self.diagnostics.delta_sent()),
                seq![ActionContent::ScheduleDelayed { delay, message: self.own_delta(data) }],
            ),
            SyncAction::Suppress => (
                self.recording(self.diagnostics.delta_suppressed()),
                Seq::empty(),
            ),
        }
    }

    /// After data of the wire version `received` came from `source` and was not understood:
    /// the failure is recorded, and the policy decides whether the view of `source` stays.
    pub open spec fn after_mismatch(self, source: NodeId, received: u32, unix_ms: i64) -> Self {
        let views = match self.versions.mismatch(received) {
            MismatchVerdict::KeepStale { .. } => self.shard.views,
            MismatchVerdict::DropView { .. } => shard_core::views_after_leave(
                self.shard.views,
                self.shard.node_id,
                source,
            ),
        };
        self.with_views(views).recording(
            self.diagnostics.sync_failure(
                source,
                self.versions.mismatch_reason(received),
                unix_ms,
            ),
        )
    }

    /// After a snapshot of `source` has arrived and been decoded to `decoded`. The three
    /// readings of the clock are those that date the snapshot or its failure, its arrival,
    /// and its success.
    pub open spec fn after_snapshot(
        self,
        source: NodeId,
        generation: Generation,
        wire_version: u32,
        decoded: Result<V, DeserializeError>,
        unix_ms: i64,
        now: Instant,
        recorded_ms: i64,
    ) -> Self {
        match decoded {
            Ok(view) => {
                let snap = InboundSnapshot {
                    source,
                    generation,
                    wire_version,
                    view,
                    created_time: unix_ms,
                    modified_time: unix_ms,
                };
                if shard_core::snapshot_accepted(self.shard.views, source, generation) {
                    self.with_views(
                        shard_core::views_after_snapshot(self.shard.views, snap, now),
                    ).recording(self.diagnostics.snapshot_received(source, 0, recorded_ms))
                } else {
                    self.recording(self.diagnostics.stale_discarded())
                }
            },
            Err(e) => match e@ {
                DecodeFailure::UnknownVersion(v) => self.after_mismatch(source, v, unix_ms),
                DecodeFailure::Malformed(msg) => self.recording(
                    self.diagnostics.sync_failure(source, "malformed: "@ + msg, unix_ms),
                ),
            },
        }
    }

    /// Whether a delta of `source` that leads to `generation` gets as far as being applied.
    pub open spec fn applies_delta(
        self,
        source: NodeId,
        generation: Generation,
        wire_version: u32,
    ) -> bool {
        &&& wire_version == self.wire_version
        &&& self.supports_delta
        &&& shard_core::delta_verdict(self.shard.views, source, generation) is Applied
    }

    /// After a delta of `source` has arrived, and what is sent in return. Where the delta gets
    /// as far as being applied, `applied` is the resulting view. The three readings of the
    /// clock are those that date the delta or its failure, its arrival, and its success.
    pub open spec fn after_delta(
        self,
        source: NodeId,
        generation: Generation,
        wire_version: u32,
        applied: Result<V, DeserializeError>,
        unix_ms: i64,
        now: Instant,
        recorded_ms: i64,
    ) -> (Self, Seq<ActionContent>) {
        if wire_version != self.wire_version {
            (self.after_mismatch(source, wire_version, unix_ms), Seq::empty())
        } else if !self.supports_delta {
            (self, seq![self.request(source)])
        } else {
            match shard_core::delta_verdict(self.shard.views, source, generation) {
                DeltaAcceptResult::UnknownPeer => (self, seq![self.request(source)]),
                DeltaAcceptResult::Discarded => (
                    self.recording(self.diagnostics.stale_discarded()),
                    Seq::empty(),
                ),
                DeltaAcceptResult::GapDetected { .. } => (
                    self.recording(self.diagnostics.gap_detected(source)),
                    seq![self.request(source)],
                ),
                DeltaAcceptResult::Applied => match applied {
                    Ok(value) => (
                        self.with_views(
                            self.shard.views.insert(
                                source,
                                shard_core::delta_entry(
                                    self.shard.views[source],
                                    generation,
                                    wire_version,
                                    value,
                                    unix_ms,
                                    now,
                                ),
                            ),
                        ).recording(self.diagnostics.delta_received(source, 0, recorded_ms)),
                        Seq::empty(),
                    ),
                    Err(e) => (
                        self.recording(
                            self.diagnostics.sync_failure(source, delta_failure(e@), unix_ms),
                        ),
                        seq![self.request(source)],
                    ),
                },
            }
        }
    }

    /// After a batch of change notifications has arrived.
    pub open spec fn after_feed(self, feed: FeedContent) -> Self {
        self.with_views(
            views_after_notices(
                self.shard.views,
                self.state_name,
                self.departed,
                change_feed_logic::routed(feed, self.shard.node_id),
            ),
        )
    }

    /// After `node` has joined at `now` and been sent the node's own snapshot.
    pub open spec fn after_join(self, node: NodeId, default_view: V, now: Instant) -> Self {
        EngineModel { departed: self.departed.remove(node), ..self }.with_views(
            shard_core::views_after_join(
                self.shard.views,
                self.shard.node_id,
                node,
                default_view,
                now,
            ),
        ).recording(self.diagnostics.snapshot_sent())
    }

    /// After `node` has left.
    pub open spec fn after_leave(self, node: NodeId) -> Self {
        EngineModel { departed: self.departed.insert(node), ..self }.with_views(
            shard_core::views_after_leave(self.shard.views, self.shard.node_id, node),
        ).recording(
            DiagnosticsModel { peers: self.diagnostics.peers.remove(node), ..self.diagnostics },
        )
    }

    /// The requests that a query sends to the stale peers `stale`, in order; none to a node
    /// that has departed.
    pub open spec fn pulls(self, stale: Seq<NodeId>) -> Seq<ActionContent>
        decreases stale.len(),
    {
        if stale.len() == 0 {
            Seq::empty()
        } else {
            let rest = self.pulls(stale.drop_last());
            if self.departed.contains(stale.last()) {
                rest
            } else {
                rest.push(self.request(stale.last()))
            }
        }
    }
}

/// `m0` with the shard that a mutation has led to, and the mutation counted.
pub open spec fn mutated<S, V>(m0: EngineModel<S, V>, shard: ShardModel<S, V>) -> EngineModel<
    S,
    V,
> {
    m0.with_shard(shard).recording(m0.diagnostics.mutation())
}

/// A freshly started engine. The first two readings of the clock give the incarnation and the
/// creation time, the third the time of the first view.
pub open spec fn started<S, V>(
    state_name: Seq<char>,
    node_id: NodeId,
    value: S,
    view: V,
    config: StateConfig,
    wire_version: u32,
    supports_delta: bool,
    incarnation_ms: i64,
    created_ms: i64,
    now: Instant,
    clock: Readings,
) -> EngineModel<S, V> {
    let state = StateObject {
        generation: Generation { incarnation: incarnation_ms as u64, age: 0 },
        storage_version: 0,
        value,
        created_time: created_ms,
        modified_time: created_ms,
    };
    let bare = ShardModel { node_id, state, views: Map::empty(), clock };
    EngineModel {
        state_name,
        wire_version,
        shard: bare.publishing(state, view, now),
        strategy: config.sync_strategy,
        supports_delta,
        feed: Seq::empty(),
        versions: VersionSettings {
            state_name,
            policy: config.version_mismatch_policy,
            wire_version,
            storage_version: 1,
        },
        departed: Set::empty(),
        diagnostics: DiagnosticsModel {
            state_name,
            metrics: StateSyncMetrics::none(),
            peers: Map::empty(),
        },
    }
}

/// What handling a snapshot message does, with readings of the node's clock: nothing for another
/// state or a departed source, and otherwise what becomes of the decoded payload.
pub open spec fn full_snapshot_step<S, V, DV: Fn(&[u8], u32) -> Result<V, DeserializeError>>(
    m0: EngineModel<S, V>,
    m1: EngineModel<S, V>,
    deserialize: DV,
    state_name: Seq<char>,
    source: NodeId,
    generation: Generation,
    wire_version: u32,
    data: Seq<u8>,
) -> bool {
    if state_name != m0.state_name || m0.departed.contains(source) {
        m1 == m0
    } else {
        exists|
            bytes: &[u8],
            decoded: Result<V, DeserializeError>,
            unix_ms: i64,
            now: Instant,
            recorded_ms: i64,
        |
            bytes@ == data && #[trigger] call_ensures(deserialize, (bytes, wire_version), decoded)
                && m0.shard.clock.may_say(unix_ms, now, recorded_ms) && m1
                == #[trigger] m0.after_snapshot(
                source,
                generation,
                wire_version,
                decoded,
                unix_ms,
                now,
                recorded_ms,
            )
    }
}

/// What handling a delta message does and sends, with readings of the node's clock: nothing for
/// another state or a departed source, and otherwise what becomes of the delta.
pub open spec fn delta_update_step<S, V, DA: Fn(&[u8], u32, &V) -> Result<V, DeserializeError>>(
    m0: EngineModel<S, V>,
    m1: EngineModel<S, V>,
    applier: Option<DA>,
    state_name: Seq<char>,
    source: NodeId,
    generation: Generation,
    wire_version: u32,
    data: Seq<u8>,
    sent: Seq<ActionContent>,
) -> bool {
    if state_name != m0.state_name || m0.departed.contains(source) {
        m1 == m0 && sent == Seq::<ActionContent>::empty()
    } else {
        exists|
            applied: Result<V, DeserializeError>,
            unix_ms: i64,
            now: Instant,
            recorded_ms: i64,
        |
            m0.shard.clock.may_say(unix_ms, now, recorded_ms) && (m1, sent)
                == #[trigger] m0.after_delta(
                source,
                generation,
                wire_version,
                applied,
                unix_ms,
                now,
                recorded_ms,
            ) && (m0.applies_delta(source, generation, wire_version) ==> applier is Some
                && delta_applied(
                applier->0,
                data,
                wire_version,
                m0.shard.views[source].value,
                applied,
            ))
    }
}

/// Applying the delta `data` to `view` may give `applied`.
pub open spec fn delta_applied<V, DA: Fn(&[u8], u32, &V) -> Result<V, DeserializeError>>(
    applier: DA,
    data: Seq<u8>,
    wire_version: u32,
    view: V,
    applied: Result<V, DeserializeError>,
) -> bool {
    exists|bytes: &[u8]|
        bytes@ == data && #[trigger] call_ensures(applier, (bytes, wire_version, &view), applied)
}

/// What handling a snapshot request does and sends: nothing for another state or a departed
/// requester, and otherwise the node's own snapshot.
pub open spec fn request_step<S, V, SV: Fn(&V) -> Vec<u8>>(
    m0: EngineModel<S, V>,
    m1: EngineModel<S, V>,
    serialize: SV,
    state_name: Seq<char>,
    requester: NodeId,
    sent: Seq<ActionContent>,
) -> bool {
    if state_name != m0.state_name || m0.departed.contains(requester) {
        m1 == m0 && sent == Seq::<ActionContent>::empty()
    } else {
        &&& m1 == m0.recording(m0.diagnostics.snapshot_sent())
        &&& exists|data: Vec<u8>| #[trigger]
            call_ensures(serialize, (&m0.shard.views[m0.shard.node_id].value,), data) && sent
                == seq![
                ActionContent::SendSync { target: requester, message: m0.own_snapshot(data@) },
            ]
    }
}

/// What a periodic synchronization does and sends: the node's own snapshot to everyone, if it is
/// configured to do so.
pub open spec fn periodic_step<S, V, SV: Fn(&V) -> Vec<u8>>(
    m0: EngineModel<S, V>,
    m1: EngineModel<S, V>,
    serialize: SV,
    sent: Seq<ActionContent>,
) -> bool {
    if m0.strategy.periodic_full_sync is None {
        m1 == m0 && sent == Seq::<ActionContent>::empty()
    } else {
        &&& m1 == m0.recording(m0.diagnostics.snapshot_sent())
        &&& exists|data: Vec<u8>| #[trigger]
            call_ensures(serialize, (&m0.shard.views[m0.shard.node_id].value,), data) && sent
                == seq![ActionContent::BroadcastSync(m0.own_snapshot(data@))]
    }
}

/// What handling a synchronization message does and sends.
pub open spec fn sync_step<S, V, SV, DV, DA>(
    m0: EngineModel<S, V>,
    m1: EngineModel<S, V>,
    codec: (SV, DV, Option<DA>),
    message: SyncContent,
    sent: Seq<ActionContent>,
) -> bool where
    SV: Fn(&V) -> Vec<u8>,
    DV: Fn(&[u8], u32) -> Result<V, DeserializeError>,
    DA: Fn(&[u8], u32, &V) -> Result<V, DeserializeError>,
 {
    match message {
        SyncContent::FullSnapshot { state_name, source_node, generation, wire_version, data } => {
            &&& full_snapshot_step(
                m0,
                m1,
                codec.1,
                state_name,
                source_node,
                generation,
                wire_version,
                data,
            )
            &&& sent == Seq::<ActionContent>::empty()
        },
        SyncContent::DeltaUpdate { state_name, source_node, generation, wire_version, data } =>
        delta_update_step(
            m0,
            m1,
            codec.2,
            state_name,
            source_node,
            generation,
            wire_version,
            data,
            sent,
        ),
        SyncContent::RequestSnapshot { state_name, requester } => request_step(
            m0,
            m1,
            codec.0,
            state_name,
            requester,
            sent,
        ),
    }
}

/// What handling a wire message does and sends.
pub open spec fn inbound_step<S, V, SV, DV, DA>(
    m0: EngineModel<S, V>,
    m1: EngineModel<S, V>,
    codec: (SV, DV, Option<DA>),
    message: WireContent,
    sent: Seq<ActionContent>,
) -> bool where
    SV: Fn(&V) -> Vec<u8>,
    DV: Fn(&[u8], u32) -> Result<V, DeserializeError>,
    DA: Fn(&[u8], u32, &V) -> Result<V, DeserializeError>,
 {
    match message {
        WireContent::Sync(m) => sync_step(m0, m1, codec, m, sent),
        WireContent::Feed(feed) => m1 == m0.after_feed(feed) && sent == Seq::<
            ActionContent,
        >::empty(),
    }
}

} // verus!
