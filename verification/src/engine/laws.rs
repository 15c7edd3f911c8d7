//! What holds of engines across several operations, and between the engine that owns a state
//! and the engines of its peers.
use vstd::prelude::*;

use crate::engine::{ActionContent, WireContent};
use crate::engine::model;
use crate::engine::model::EngineModel;
use crate::replica::{diagnostics_laws, shard_core, shard_laws, sync_logic, view_map};
use crate::traits::state::SyncUrgency;
use crate::types::config::PushMode;
use crate::types::errors::{DecodeFailure, DeserializeError};
use crate::types::node::{Generation, NodeId, VersionMismatchPolicy};
use crate::types::sync_message::{ChangeContent, FeedContent, SyncContent};
use crate::types::time::{Duration, Instant};

verus! {

/// The node that a synchronization message comes from.
pub open spec fn sender(message: SyncContent) -> NodeId {
    match message {
        SyncContent::FullSnapshot { source_node, .. } => source_node,
        SyncContent::DeltaUpdate { source_node, .. } => source_node,
        SyncContent::RequestSnapshot { requester, .. } => requester,
    }
}

/// The state that a synchronization message speaks of.
pub open spec fn subject(message: SyncContent) -> Seq<char> {
    match message {
        SyncContent::FullSnapshot { state_name, .. } => state_name,
        SyncContent::DeltaUpdate { state_name, .. } => state_name,
        SyncContent::RequestSnapshot { state_name, .. } => state_name,
    }
}

/// A message from a node that has left, and a message on another state, change nothing and
/// are not answered.
pub proof fn ghosts_and_other_states_are_ignored<S, V, SV, DV, DA>(
    m0: EngineModel<S, V>,
    m1: EngineModel<S, V>,
    codec: (SV, DV, Option<DA>),
    message: SyncContent,
    sent: Seq<ActionContent>,
) where
    SV: Fn(&V) -> Vec<u8>,
    DV: Fn(&[u8], u32) -> Result<V, DeserializeError>,
    DA: Fn(&[u8], u32, &V) -> Result<V, DeserializeError>,

    requires
        model::sync_step(m0, m1, codec, message, sent),
        m0.departed.contains(sender(message)) || subject(message) != m0.state_name,
    ensures
        m1 == m0,
        sent.len() == 0,
{
}

/// What arrives from the network never changes the state that the node owns, nor what the
/// engine is configured with, nor which nodes have departed.
pub proof fn inbound_keeps_owned_state<S, V, SV, DV, DA>(
    m0: EngineModel<S, V>,
    m1: EngineModel<S, V>,
    codec: (SV, DV, Option<DA>),
    message: WireContent,
    sent: Seq<ActionContent>,
) where
    SV: Fn(&V) -> Vec<u8>,
    DV: Fn(&[u8], u32) -> Result<V, DeserializeError>,
    DA: Fn(&[u8], u32, &V) -> Result<V, DeserializeError>,

    requires
        model::inbound_step(m0, m1, codec, message, sent),
    ensures
        m1.shard.state == m0.shard.state,
        m1.shard.node_id == m0.shard.node_id,
        m1.state_name == m0.state_name,
        m1.wire_version == m0.wire_version,
        m1.strategy == m0.strategy,
        m1.supports_delta == m0.supports_delta,
        m1.versions == m0.versions,
        m1.departed == m0.departed,
        m1.feed == m0.feed,
        m1.diagnostics.metrics.total_mutations == m0.diagnostics.metrics.total_mutations,
{
}

/// Under the policy that keeps stale views, no message makes a view older or drops one.
pub proof fn views_never_go_back<S, V, SV, DV, DA>(
    m0: EngineModel<S, V>,
    m1: EngineModel<S, V>,
    codec: (SV, DV, Option<DA>),
    message: WireContent,
    sent: Seq<ActionContent>,
) where
    SV: Fn(&V) -> Vec<u8>,
    DV: Fn(&[u8], u32) -> Result<V, DeserializeError>,
    DA: Fn(&[u8], u32, &V) -> Result<V, DeserializeError>,

    requires
        model::inbound_step(m0, m1, codec, message, sent),
        m0.versions.policy == VersionMismatchPolicy::KeepStale,
    ensures
        shard_laws::views_only_advance(m0.shard.views, m1.shard.views),
{
    if let WireContent::Feed(feed) = message {
        notices_keep_views(
            m0.shard.views,
            m0.state_name,
            m0.departed,
            crate::replica::change_feed_logic::routed(feed, m0.shard.node_id),
        );
    }
}

/// Change notifications add and drop no view, and change nothing in one but the announced
/// generation.
pub proof fn notices_keep_views<V>(
    views: Map<NodeId, crate::types::envelope::StateViewObject<V>>,
    name: Seq<char>,
    departed: Set<NodeId>,
    entries: Seq<ChangeContent>,
)
    ensures
        ({
            let after = model::views_after_notices(views, name, departed, entries);
            &&& after.dom() == views.dom()
            &&& forall|id: NodeId| #[trigger]
                views.contains_key(id) ==> after[id] == views[id].with_pending(
                    after[id].pending_remote_generation,
                )
        }),
    decreases entries.len(),
{
    let after = model::views_after_notices(views, name, departed, entries);
    if entries.len() > 0 {
        notices_keep_views(views, name, departed, entries.drop_last());
        let rest = model::views_after_notices(views, name, departed, entries.drop_last());
        assert(after.dom() =~= views.dom());
        assert forall|id: NodeId| #[trigger] views.contains_key(id) implies after[id]
            == views[id].with_pending(after[id].pending_remote_generation) by {
            assert(rest[id] == views[id].with_pending(rest[id].pending_remote_generation));
        }
    } else {
        assert(after.dom() =~= views.dom());
    }
}

/// What `decode` gives back for `data` is `view`, whichever way the bytes are handed to it.
pub open spec fn decodes_to<V, DV: Fn(&[u8], u32) -> Result<V, DeserializeError>>(
    decode: DV,
    data: Seq<u8>,
    wire_version: u32,
    view: V,
) -> bool {
    forall|bytes: &[u8], decoded: Result<V, DeserializeError>|
        bytes@ == data && #[trigger] call_ensures(decode, (bytes, wire_version), decoded)
            ==> decoded == Ok::<V, DeserializeError>(view)
}

/// A peer that receives the snapshot of an owner's current view holds that view afterwards:
/// if the peer can decode the payload to the view and its own view of the owner is older, its
/// view of the owner becomes that view, of the owner's generation.
pub proof fn snapshot_is_adopted<S, V, SV, DV, DA>(
    owner: EngineModel<S, V>,
    view: V,
    data: Seq<u8>,
    p0: EngineModel<S, V>,
    p1: EngineModel<S, V>,
    codec: (SV, DV, Option<DA>),
    sent: Seq<ActionContent>,
) where
    SV: Fn(&V) -> Vec<u8>,
    DV: Fn(&[u8], u32) -> Result<V, DeserializeError>,
    DA: Fn(&[u8], u32, &V) -> Result<V, DeserializeError>,

    requires
        model::sync_step(p0, p1, codec, owner.own_snapshot(data), sent),
        p0.state_name == owner.state_name,
        !p0.departed.contains(owner.shard.node_id),
        shard_core::snapshot_accepted(
            p0.shard.views,
            owner.shard.node_id,
            owner.shard.state.generation,
        ),
        decodes_to(codec.1, data, owner.wire_version, view),
    ensures
        p1.shard.views.contains_key(owner.shard.node_id),
        p1.shard.views[owner.shard.node_id].value == view,
        p1.shard.views[owner.shard.node_id].generation == owner.shard.state.generation,
        p1.shard.views[owner.shard.node_id].wire_version == owner.wire_version,
        p1.diagnostics.metrics.snapshots_received == (p0.diagnostics.metrics.snapshots_received
            + 1) as u64,
        forall|id: NodeId|
            id != owner.shard.node_id ==> p1.shard.views.contains_key(id)
                == p0.shard.views.contains_key(id) && p1.shard.views[id] == p0.shard.views[id],
        sent.len() == 0,
{
}

/// A mutation that is pushed reaches the peers: under active push, or with immediate urgency,
/// a mutation without a delta broadcasts one snapshot, and a peer that held the owner's
/// previous state, or an older one, holds the new view once it has handled the snapshot.
pub proof fn pushed_mutation_reaches_peer<S, V: Clone, P, SV, DV, DA>(
    m0: EngineModel<S, V>,
    m1: EngineModel<S, V>,
    project: P,
    serialize: SV,
    view: V,
    urgency: SyncUrgency,
    broadcast: Seq<ActionContent>,
    p0: EngineModel<S, V>,
    p1: EngineModel<S, V>,
    codec: (SV, DV, Option<DA>),
    sent: Seq<ActionContent>,
) where
    P: FnOnce(&S) -> V,
    SV: Fn(&V) -> Vec<u8>,
    DV: Fn(&[u8], u32) -> Result<V, DeserializeError>,
    DA: Fn(&[u8], u32, &V) -> Result<V, DeserializeError>,

    requires
        m0.shard.state.generation.age < u64::MAX,
        shard_core::mutation_step(m0.shard, m1.shard, project, view),
        crate::engine::mutate_sends(m0, m1, serialize, view, urgency, broadcast),
        urgency == SyncUrgency::Immediate || (urgency == SyncUrgency::Default
            && m0.strategy.push_mode == Some(PushMode::ActivePush)),
        forall|data: Vec<u8>| #[trigger]
            call_ensures(serialize, (&view,), data) ==> decodes_to(
                codec.1,
                data@,
                m0.wire_version,
                view,
            ),
        p0.state_name == m0.state_name,
        !p0.departed.contains(m0.shard.node_id),
        p0.shard.views.contains_key(m0.shard.node_id)
            ==> p0.shard.views[m0.shard.node_id].generation.at_most(m0.shard.state.generation),
        broadcast.len() > 0 && broadcast[0] is BroadcastSync ==> model::sync_step(
            p0,
            p1,
            codec,
            broadcast[0]->BroadcastSync_0,
            sent,
        ),
    ensures
        broadcast.len() == 1,
        broadcast[0] is BroadcastSync,
        p1.shard.views.contains_key(m0.shard.node_id),
        p1.shard.views[m0.shard.node_id].value == view,
        p1.shard.views[m0.shard.node_id].generation == m1.shard.state.generation,
{
    let action = sync_logic::resolved(m0.strategy, m0.supports_delta, urgency);
    let mid = model::mutated(m0, m1.shard);
    let data = choose|data: Vec<u8>|
        (model::sends_data(action) ==> call_ensures(serialize, (&view,), data)) && (m1, broadcast)
            == #[trigger] mid.snapshot_outbound(action, data@);
    assert(model::sends_data(action));
    assert(decodes_to(codec.1, data@, m0.wire_version, view));
    assert(broadcast == seq![ActionContent::BroadcastSync(mid.own_snapshot(data@))]);
    snapshot_is_adopted(mid, view, data@, p0, p1, codec, sent);
}

/// The full way of a pushed mutation: the peer answers neither the message nor a second copy of
/// it, holds the owner's new view and generation after the first, holds the same views after
/// the second, and keeps the state that it owns itself.
pub proof fn pushed_mutation_round_trip<S, V: Clone, P, SV, DV, DA>(
    m0: EngineModel<S, V>,
    m1: EngineModel<S, V>,
    project: P,
    serialize: SV,
    view: V,
    urgency: SyncUrgency,
    broadcast: Seq<ActionContent>,
    message: SyncContent,
    p0: EngineModel<S, V>,
    p1: EngineModel<S, V>,
    p2: EngineModel<S, V>,
    codec: (SV, DV, Option<DA>),
    sent: Seq<ActionContent>,
    sent_again: Seq<ActionContent>,
) where
    P: FnOnce(&S) -> V,
    SV: Fn(&V) -> Vec<u8>,
    DV: Fn(&[u8], u32) -> Result<V, DeserializeError>,
    DA: Fn(&[u8], u32, &V) -> Result<V, DeserializeError>,

    requires
        shard_core::mutation_step(m0.shard, m1.shard, project, view),
        crate::engine::mutate_sends(m0, m1, serialize, view, urgency, broadcast),
        urgency == SyncUrgency::Immediate || (urgency == SyncUrgency::Default
            && m0.strategy.push_mode == Some(PushMode::ActivePush)),
        forall|data: Vec<u8>| #[trigger]
            call_ensures(serialize, (&view,), data) ==> decodes_to(
                codec.1,
                data@,
                m0.wire_version,
                view,
            ),
        p0.state_name == m0.state_name,
        !p0.departed.contains(m0.shard.node_id),
        p0.shard.views.contains_key(m0.shard.node_id)
            ==> p0.shard.views[m0.shard.node_id].generation.before(m1.shard.state.generation),
        broadcast.contains(ActionContent::BroadcastSync(message)),
        model::sync_step(p0, p1, codec, message, sent),
        model::sync_step(p1, p2, codec, message, sent_again),
    ensures
        broadcast == seq![ActionContent::BroadcastSync(message)],
        sent.len() == 0,
        sent_again.len() == 0,
        p1.shard.views.contains_key(m0.shard.node_id),
        p1.shard.views[m0.shard.node_id].value == view,
        p1.shard.views[m0.shard.node_id].generation == m1.shard.state.generation,
        p2.shard.views == p1.shard.views,
        p1.shard.state == p0.shard.state,
        p2.shard.state == p0.shard.state,
{
    let action = sync_logic::resolved(m0.strategy, m0.supports_delta, urgency);
    let mid = model::mutated(m0, m1.shard);
    let data = choose|data: Vec<u8>|
        (model::sends_data(action) ==> call_ensures(serialize, (&view,), data)) && (m1, broadcast)
            == #[trigger] mid.snapshot_outbound(action, data@);
    assert(model::sends_data(action));
    assert(decodes_to(codec.1, data@, m0.wire_version, view));
    assert(broadcast == seq![ActionContent::BroadcastSync(mid.own_snapshot(data@))]);
    assert(message == mid.own_snapshot(data@));
    snapshot_is_adopted(mid, view, data@, p0, p1, codec, sent);
}

/// Decoding `data` of the given wire version always fails, with `failure`.
pub open spec fn fails_to_decode<V, DV: Fn(&[u8], u32) -> Result<V, DeserializeError>>(
    deserialize: DV,
    data: Seq<u8>,
    wire_version: u32,
    failure: DecodeFailure,
) -> bool {
    forall|bytes: &[u8], result: Result<V, DeserializeError>|
        bytes@ == data && #[trigger] call_ensures(deserialize, (bytes, wire_version), result)
            ==> result is Err && result->Err_0@ == failure
}

/// A snapshot that cannot be decoded is not answered, counts as a failure and not as a
/// snapshot, and leaves the views of all other nodes and whom the node listens to as they were.
/// The view of its source is dropped where the version is unknown and the policy is to drop and
/// wait, and stays otherwise.
pub proof fn undecodable_snapshot_is_a_failure<S, V, SV, DV, DA>(
    m0: EngineModel<S, V>,
    m1: EngineModel<S, V>,
    codec: (SV, DV, Option<DA>),
    source: NodeId,
    generation: Generation,
    wire_version: u32,
    data: Seq<u8>,
    failure: DecodeFailure,
    sent: Seq<ActionContent>,
) where
    SV: Fn(&V) -> Vec<u8>,
    DV: Fn(&[u8], u32) -> Result<V, DeserializeError>,
    DA: Fn(&[u8], u32, &V) -> Result<V, DeserializeError>,

    requires
        source != m0.shard.node_id,
        !m0.departed.contains(source),
        model::sync_step(
            m0,
            m1,
            codec,
            SyncContent::FullSnapshot {
                state_name: m0.state_name,
                source_node: source,
                generation,
                wire_version,
                data,
            },
            sent,
        ),
        fails_to_decode::<V, DV>(codec.1, data, wire_version, failure),
    ensures
        sent.len() == 0,
        m1.diagnostics.metrics.sync_failures == (m0.diagnostics.metrics.sync_failures + 1) as u64,
        m1.diagnostics.metrics.snapshots_received == m0.diagnostics.metrics.snapshots_received,
        m1.shard.state == m0.shard.state,
        m1.departed == m0.departed,
        m1.shard.views == if failure is UnknownVersion && m0.versions.policy
            == VersionMismatchPolicy::DropAndWait {
            m0.shard.views.remove(source)
        } else {
            m0.shard.views
        },
{
}

/// After a view was dropped for its unknown version, the next snapshot of its source that can be
/// decoded is stored, of whatever generation.
pub proof fn dropped_view_is_replaced_by_any_snapshot<S, V, SV, DV, DA>(
    m0: EngineModel<S, V>,
    m1: EngineModel<S, V>,
    m2: EngineModel<S, V>,
    codec: (SV, DV, Option<DA>),
    source: NodeId,
    unreadable: (Generation, u32, Seq<u8>),
    readable: (Generation, u32, Seq<u8>),
    received: u32,
    view: V,
    sent: Seq<ActionContent>,
    sent_next: Seq<ActionContent>,
) where
    SV: Fn(&V) -> Vec<u8>,
    DV: Fn(&[u8], u32) -> Result<V, DeserializeError>,
    DA: Fn(&[u8], u32, &V) -> Result<V, DeserializeError>,

    requires
        source != m0.shard.node_id,
        !m0.departed.contains(source),
        m0.versions.policy == VersionMismatchPolicy::DropAndWait,
        model::sync_step(
            m0,
            m1,
            codec,
            SyncContent::FullSnapshot {
                state_name: m0.state_name,
                source_node: source,
                generation: unreadable.0,
                wire_version: unreadable.1,
                data: unreadable.2,
            },
            sent,
        ),
        fails_to_decode::<V, DV>(
            codec.1,
            unreadable.2,
            unreadable.1,
            DecodeFailure::UnknownVersion(received),
        ),
        model::sync_step(
            m1,
            m2,
            codec,
            SyncContent::FullSnapshot {
                state_name: m0.state_name,
                source_node: source,
                generation: readable.0,
                wire_version: readable.1,
                data: readable.2,
            },
            sent_next,
        ),
        decodes_to(codec.1, readable.2, readable.1, view),
    ensures
        !m1.shard.views.contains_key(source),
        m2.shard.views.contains_key(source),
        m2.shard.views[source].value == view,
        m2.shard.views[source].generation == readable.0,
{
    undecodable_snapshot_is_a_failure(
        m0,
        m1,
        codec,
        source,
        unreadable.0,
        unreadable.1,
        unreadable.2,
        DecodeFailure::UnknownVersion(received),
        sent,
    );
}

/// What a message brings keeps the number of detected gaps the sum of the peers' gap counts.
pub proof fn inbound_keeps_gaps_adding_up<S, V, SV, DV, DA>(
    m0: EngineModel<S, V>,
    m1: EngineModel<S, V>,
    codec: (SV, DV, Option<DA>),
    message: WireContent,
    sent: Seq<ActionContent>,
) where
    SV: Fn(&V) -> Vec<u8>,
    DV: Fn(&[u8], u32) -> Result<V, DeserializeError>,
    DA: Fn(&[u8], u32, &V) -> Result<V, DeserializeError>,

    requires
        diagnostics_laws::gaps_add_up(m0.diagnostics),
        m0.diagnostics.metrics.age_gaps_detected < u64::MAX,
        model::inbound_step(m0, m1, codec, message, sent),
    ensures
        diagnostics_laws::gaps_add_up(m1.diagnostics),
{
    assert forall|peer: NodeId, error: Seq<char>, unix_ms: i64|
        #![trigger m0.diagnostics.sync_failure(peer, error, unix_ms)]
        diagnostics_laws::gaps_add_up(m0.diagnostics.sync_failure(peer, error, unix_ms)) by {
        diagnostics_laws::recording_keeps_gaps_adding_up(m0.diagnostics, peer, 0, error, unix_ms);
    }
    assert forall|peer: NodeId, unix_ms: i64|
        #![trigger m0.diagnostics.snapshot_received(peer, 0, unix_ms)]
        diagnostics_laws::gaps_add_up(m0.diagnostics.snapshot_received(peer, 0, unix_ms)) by {
        diagnostics_laws::recording_keeps_gaps_adding_up(m0.diagnostics, peer, 0, ""@, unix_ms);
    }
    assert forall|peer: NodeId, unix_ms: i64|
        #![trigger m0.diagnostics.delta_received(peer, 0, unix_ms)]
        diagnostics_laws::gaps_add_up(m0.diagnostics.delta_received(peer, 0, unix_ms)) by {
        diagnostics_laws::recording_keeps_gaps_adding_up(m0.diagnostics, peer, 0, ""@, unix_ms);
    }
    assert forall|peer: NodeId| #![trigger m0.diagnostics.gap_detected(peer)]
        diagnostics_laws::gaps_add_up(m0.diagnostics.gap_detected(peer)) by {
        diagnostics_laws::recording_keeps_gaps_adding_up(m0.diagnostics, peer, 0, ""@, 0);
    }
    diagnostics_laws::recording_keeps_gaps_adding_up(m0.diagnostics, NodeId(0), 0, ""@, 0);
}

/// A peer that holds the owner's state before a mutation and receives the delta of the mutation
/// holds, of the owner's new generation, the view that applying the delta gives.
pub proof fn delta_is_adopted<S, V, SV, DV, DA>(
    owner: EngineModel<S, V>,
    before: Generation,
    view: V,
    data: Seq<u8>,
    p0: EngineModel<S, V>,
    p1: EngineModel<S, V>,
    codec: (SV, DV, Option<DA>),
    sent: Seq<ActionContent>,
) where
    SV: Fn(&V) -> Vec<u8>,
    DV: Fn(&[u8], u32) -> Result<V, DeserializeError>,
    DA: Fn(&[u8], u32, &V) -> Result<V, DeserializeError>,

    requires
        model::sync_step(p0, p1, codec, owner.own_delta(data), sent),
        p0.state_name == owner.state_name,
        p0.wire_version == owner.wire_version,
        p0.supports_delta,
        !p0.departed.contains(owner.shard.node_id),
        p0.shard.views.contains_key(owner.shard.node_id),
        p0.shard.views[owner.shard.node_id].generation == before,
        owner.shard.state.generation.incarnation == before.incarnation,
        owner.shard.state.generation.age == before.age + 1,
        codec.2 matches Some(applier) ==> forall|applied: Result<V, DeserializeError>| #[trigger]
            model::delta_applied(
                applier,
                data,
                owner.wire_version,
                p0.shard.views[owner.shard.node_id].value,
                applied,
            ) ==> applied == Ok::<V, DeserializeError>(view),
    ensures
        p1.shard.views[owner.shard.node_id].value == view,
        p1.shard.views[owner.shard.node_id].generation == owner.shard.state.generation,
        sent.len() == 0,
{
}

/// A delta that does not follow the view held of its source changes no view; if it is newer
/// than the view, the source is asked for a snapshot.
pub proof fn gap_is_answered_by_request<S, V, SV, DV, DA>(
    owner: EngineModel<S, V>,
    data: Seq<u8>,
    p0: EngineModel<S, V>,
    p1: EngineModel<S, V>,
    codec: (SV, DV, Option<DA>),
    sent: Seq<ActionContent>,
) where
    SV: Fn(&V) -> Vec<u8>,
    DV: Fn(&[u8], u32) -> Result<V, DeserializeError>,
    DA: Fn(&[u8], u32, &V) -> Result<V, DeserializeError>,

    requires
        model::sync_step(p0, p1, codec, owner.own_delta(data), sent),
        p0.state_name == owner.state_name,
        p0.wire_version == owner.wire_version,
        p0.supports_delta,
        !p0.departed.contains(owner.shard.node_id),
        shard_core::delta_verdict(
            p0.shard.views,
            owner.shard.node_id,
            owner.shard.state.generation,
        ) !is Applied,
    ensures
        p1.shard.views == p0.shard.views,
        ({
            let known = p0.shard.views.contains_key(owner.shard.node_id);
            let held = p0.shard.views[owner.shard.node_id].generation;
            sent == if known && !held.before(owner.shard.state.generation) {
                Seq::empty()
            } else {
                seq![p0.request(owner.shard.node_id)]
            }
        }),
{
}

/// Periodic synchronization makes up for what was lost: whatever a peer has missed, it holds the
/// owner's view once it has handled the owner's periodic snapshot.
pub proof fn periodic_sync_reaches_peer<S, V, SV, DV, DA>(
    o0: EngineModel<S, V>,
    o1: EngineModel<S, V>,
    owner_codec: (SV, DV, Option<DA>),
    broadcast: Seq<ActionContent>,
    p0: EngineModel<S, V>,
    p1: EngineModel<S, V>,
    codec: (SV, DV, Option<DA>),
    sent: Seq<ActionContent>,
) where
    SV: Fn(&V) -> Vec<u8>,
    DV: Fn(&[u8], u32) -> Result<V, DeserializeError>,
    DA: Fn(&[u8], u32, &V) -> Result<V, DeserializeError>,

    requires
        o0.strategy.periodic_full_sync is Some,
        model::periodic_step(o0, o1, owner_codec.0, broadcast),
        p0.state_name == o0.state_name,
        !p0.departed.contains(o0.shard.node_id),
        forall|data: Vec<u8>| #[trigger]
            call_ensures(owner_codec.0, (&o0.shard.views[o0.shard.node_id].value,), data)
                ==> decodes_to(
                codec.1,
                data@,
                o0.wire_version,
                o0.shard.views[o0.shard.node_id].value,
            ),
        shard_core::snapshot_accepted(
            p0.shard.views,
            o0.shard.node_id,
            o0.shard.state.generation,
        ),
        broadcast.len() > 0 && broadcast[0] is BroadcastSync ==> model::sync_step(
            p0,
            p1,
            codec,
            broadcast[0]->BroadcastSync_0,
            sent,
        ),
    ensures
        broadcast.len() == 1,
        broadcast[0] is BroadcastSync,
        o1.shard == o0.shard,
        p1.shard.views.contains_key(o0.shard.node_id),
        p1.shard.views[o0.shard.node_id].value == o0.shard.views[o0.shard.node_id].value,
        p1.shard.views[o0.shard.node_id].generation == o0.shard.state.generation,
        sent.len() == 0,
{
    let value = o0.shard.views[o0.shard.node_id].value;
    let data = choose|data: Vec<u8>| #[trigger]
        call_ensures(owner_codec.0, (&value,), data) && broadcast == seq![
            ActionContent::BroadcastSync(o0.own_snapshot(data@)),
        ];
    snapshot_is_adopted(o0, value, data@, p0, p1, codec, sent);
}

/// A peer that asks for a snapshot gets the owner's view, and holds it once it has handled the
/// answer.
pub proof fn request_is_answered<S, V, SV, DV, DA>(
    o0: EngineModel<S, V>,
    o1: EngineModel<S, V>,
    owner_codec: (SV, DV, Option<DA>),
    asked: SyncContent,
    answer: Seq<ActionContent>,
    p0: EngineModel<S, V>,
    p1: EngineModel<S, V>,
    codec: (SV, DV, Option<DA>),
    sent: Seq<ActionContent>,
) where
    SV: Fn(&V) -> Vec<u8>,
    DV: Fn(&[u8], u32) -> Result<V, DeserializeError>,
    DA: Fn(&[u8], u32, &V) -> Result<V, DeserializeError>,

    requires
        asked == (SyncContent::RequestSnapshot {
            state_name: p0.state_name,
            requester: p0.shard.node_id,
        }),
        model::sync_step(o0, o1, owner_codec, asked, answer),
        p0.state_name == o0.state_name,
        !o0.departed.contains(p0.shard.node_id),
        !p0.departed.contains(o0.shard.node_id),
        forall|data: Vec<u8>| #[trigger]
            call_ensures(owner_codec.0, (&o0.shard.views[o0.shard.node_id].value,), data)
                ==> decodes_to(
                codec.1,
                data@,
                o0.wire_version,
                o0.shard.views[o0.shard.node_id].value,
            ),
        shard_core::snapshot_accepted(
            p0.shard.views,
            o0.shard.node_id,
            o0.shard.state.generation,
        ),
        answer.len() > 0 && answer[0] is SendSync ==> model::sync_step(
            p0,
            p1,
            codec,
            answer[0]->SendSync_message,
            sent,
        ),
    ensures
        answer.len() == 1,
        answer[0] is SendSync,
        answer[0]->target == p0.shard.node_id,
        p1.shard.views[o0.shard.node_id].value == o0.shard.views[o0.shard.node_id].value,
        p1.shard.views[o0.shard.node_id].generation == o0.shard.state.generation,
{
    let own = o0.shard.views[o0.shard.node_id].value;
    let data = choose|data: Vec<u8>| #[trigger]
        call_ensures(owner_codec.0, (&own,), data) && answer == seq![
            ActionContent::SendSync {
                target: p0.shard.node_id,
                message: o0.own_snapshot(data@),
            },
        ];
    assert(decodes_to(codec.1, data@, o0.wire_version, own));
    snapshot_is_adopted(o0, own, data@, p0, p1, codec, sent);
}

/// A suppressed mutation changes the owned state and sends and announces nothing.
pub proof fn suppressed_mutation_is_silent<S, V, SV>(
    m0: EngineModel<S, V>,
    m1: EngineModel<S, V>,
    serialize: SV,
    view: V,
    sent: Seq<ActionContent>,
) where SV: Fn(&V) -> Vec<u8>
    requires
        crate::engine::mutate_sends(m0, m1, serialize, view, SyncUrgency::Suppress, sent),
    ensures
        sent.len() == 0,
        m1.feed == m0.feed,
        m1.diagnostics.metrics.total_mutations == (m0.diagnostics.metrics.total_mutations
            + 1) as u64,
        m1.diagnostics.metrics.deltas_suppressed == (m0.diagnostics.metrics.deltas_suppressed
            + 1) as u64,
        m1.diagnostics.metrics.snapshots_sent == m0.diagnostics.metrics.snapshots_sent,
{
}

/// A mutation under the change feed sends nothing, and the feed that is flushed next announces
/// the owner's new generation.
pub proof fn feed_mutation_is_announced<S, V, SV>(
    m0: EngineModel<S, V>,
    m1: EngineModel<S, V>,
    serialize: SV,
    view: V,
    sent: Seq<ActionContent>,
) where SV: Fn(&V) -> Vec<u8>
    requires
        m0.wf(),
        crate::engine::mutate_sends(m0, m1, serialize, view, SyncUrgency::Default, sent),
        m0.strategy.push_mode == Some(PushMode::ActiveFeedLazyPull),
        forall|i: int|
            0 <= i < m0.feed.len() ==> (#[trigger] m0.feed[i]).generation.before(
                m1.shard.state.generation,
            ),
    ensures
        sent.len() == 0,
        m1.feed.contains(
            ChangeContent {
                state_name: m0.state_name,
                source_node: m1.shard.node_id,
                generation: m1.shard.state.generation,
            },
        ),
{
    let change = ChangeContent {
        state_name: m0.state_name,
        source_node: m1.shard.node_id,
        generation: m1.shard.state.generation,
    };
    crate::replica::change_feed_logic::highest_generation_is_kept(m0.feed, change);
    let i = crate::replica::change_feed_logic::subject_index(m1.feed, change);
    assert(crate::replica::change_feed_logic::has_subject(m1.feed, change));
    assert(crate::replica::change_feed_logic::same_subject(m1.feed[i], change));
    if crate::replica::change_feed_logic::has_subject(m0.feed, change) {
        let k = crate::replica::change_feed_logic::subject_index(m0.feed, change);
        assert(crate::replica::change_feed_logic::same_subject(m0.feed[k], change));
        assert(m0.feed[k].generation.before(change.generation));
        assert(m1.feed == m0.feed.update(k, change));
        assert(m1.feed[k] == change);
    } else {
        assert(m1.feed[m0.feed.len() as int] == change);
    }
}

/// An announcement of a newer generation makes the view of its source stale, whatever the
/// allowed staleness and the time.
pub proof fn announced_change_makes_view_stale<S, V>(
    m: EngineModel<S, V>,
    feed: FeedContent,
    change: ChangeContent,
    max_staleness: Duration,
    now: Instant,
)
    requires
        feed.source_node != m.shard.node_id,
        feed.notifications == seq![change],
        change.state_name == m.state_name,
        !m.departed.contains(change.source_node),
        m.shard.views.contains_key(change.source_node),
        m.shard.views[change.source_node].generation.before(change.generation),
    ensures
        view_map::is_stale(
            m.after_feed(feed).shard.views[change.source_node],
            max_staleness,
            now,
        ),
{
    reveal_with_fuel(model::views_after_notices, 2);
    assert(feed.notifications.drop_last() =~= Seq::<ChangeContent>::empty());
}

/// The policy on wire versions that are not understood: `KeepStale` leaves every view as it
/// is, `DropAndWait` removes the view of the source and no other.
pub proof fn mismatch_follows_policy<S, V>(
    m: EngineModel<S, V>,
    source: NodeId,
    received: u32,
    unix_ms: i64,
)
    ensures
        ({
            let after = m.after_mismatch(source, received, unix_ms);
            &&& after.diagnostics.metrics.sync_failures == (m.diagnostics.metrics.sync_failures
                + 1) as u64
            &&& m.versions.policy == VersionMismatchPolicy::KeepStale ==> after.shard == m.shard
            &&& m.versions.policy == VersionMismatchPolicy::DropAndWait && source
                != m.shard.node_id ==> after.shard.views == m.shard.views.remove(source)
        }),
{
}

/// A query never asks a departed node, and asks no node but the stale ones.
pub proof fn pulls_go_to_present_stale_peers<S, V>(m: EngineModel<S, V>, stale: Seq<NodeId>)
    ensures
        m.pulls(stale).len() <= stale.len(),
        forall|i: int|
            0 <= i < m.pulls(stale).len() ==> exists|peer: NodeId|
                stale.contains(peer) && !m.departed.contains(peer) && #[trigger] m.pulls(stale)[i]
                    == #[trigger] m.request(peer),
    decreases stale.len(),
{
    if stale.len() > 0 {
        let init = stale.drop_last();
        pulls_go_to_present_stale_peers(m, init);
        assert forall|i: int| 0 <= i < m.pulls(stale).len() implies exists|peer: NodeId|
            stale.contains(peer) && !m.departed.contains(peer) && #[trigger] m.pulls(stale)[i]
                == #[trigger] m.request(peer) by {
            if i < m.pulls(init).len() {
                let peer = choose|peer: NodeId|
                    init.contains(peer) && !m.departed.contains(peer) && m.pulls(init)[i]
                        == #[trigger] m.request(peer);
                let k = choose|k: int| 0 <= k < init.len() && init[k] == peer;
                assert(stale[k] == peer);
                assert(m.pulls(stale)[i] == m.request(peer));
            } else {
                assert(stale[stale.len() - 1] == stale.last());
                assert(m.pulls(stale)[i] == m.request(stale.last()));
            }
        }
    }
}

/// Handling a message moves every counter by at most one, and answers with at most one message.
pub proof fn inbound_counts_at_most_once<S, V, SV, DV, DA>(
    m0: EngineModel<S, V>,
    m1: EngineModel<S, V>,
    codec: (SV, DV, Option<DA>),
    message: WireContent,
    sent: Seq<ActionContent>,
    n: nat,
) where
    SV: Fn(&V) -> Vec<u8>,
    DV: Fn(&[u8], u32) -> Result<V, DeserializeError>,
    DA: Fn(&[u8], u32, &V) -> Result<V, DeserializeError>,

    requires
        model::inbound_step(m0, m1, codec, message, sent),
        m0.diagnostics.has_room(n + 1),
    ensures
        m1.diagnostics.has_room(n),
        sent.len() <= 1,
{
    assert(forall|peer: NodeId| #[trigger]
        m1.diagnostics.peers.contains_key(peer) ==> m1.diagnostics.peers[peer].has_room(n));
}

/// A node that has left has no view and stays out until it joins again; when it joins, it is
/// listened to again.
pub proof fn departed_until_rejoined<S, V>(
    m: EngineModel<S, V>,
    node: NodeId,
    default_view: V,
    now: Instant,
)
    requires
        node != m.shard.node_id,
    ensures
        m.after_leave(node).departed.contains(node),
        !m.after_leave(node).shard.views.contains_key(node),
        !m.after_leave(node).diagnostics.peers.contains_key(node),
        !m.after_leave(node).after_join(node, default_view, now).departed.contains(node),
        m.after_leave(node).after_join(node, default_view, now).shard.views[node]
            == shard_core::placeholder(node, default_view, now),
{
}

} // verus!
