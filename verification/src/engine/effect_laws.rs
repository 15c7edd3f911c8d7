//! What each operation of an engine is for: what it sends, stores, announces and counts, said of
//! messages and fields.
use vstd::prelude::*;

use crate::engine;
use crate::engine::{ActionContent, EngineHealth, EngineQueryResult, HealthStatus, WireContent};
use crate::engine::laws;
use crate::engine::model;
use crate::engine::model::EngineModel;
use crate::node_map::NodeMap;
use crate::replica::{change_feed_logic, diagnostics, diagnostics_laws, view_laws, view_map};
use crate::replica::diagnostics::StateSyncMetrics;
use crate::traits::clock::Readings;
use crate::traits::state::SyncUrgency;
use crate::types::config::{PushMode, StateConfig};
use crate::types::envelope::StateViewObject;
use crate::types::errors::{DecodeFailure, DeserializeError};
use crate::types::node::{Generation, NodeId, VersionMismatchPolicy};
use crate::types::sync_message::{ChangeContent, FeedContent, SyncContent};
use crate::types::text;
use crate::types::time::{Duration, Instant};

verus! {

/// `m1` is configured as `m0` is.
pub open spec fn same_settings<S, V>(m0: EngineModel<S, V>, m1: EngineModel<S, V>) -> bool {
    &&& m1.state_name == m0.state_name
    &&& m1.wire_version == m0.wire_version
    &&& m1.strategy == m0.strategy
    &&& m1.supports_delta == m0.supports_delta
    &&& m1.versions == m0.versions
    &&& m1.shard.node_id == m0.shard.node_id
    &&& m1.shard.clock == m0.shard.clock
    &&& m1.diagnostics.state_name == m0.diagnostics.state_name
}

/// `message` is a snapshot of what the engine of `m` owns, with the payload `data`.
pub open spec fn is_own_snapshot<S, V>(
    message: SyncContent,
    m: EngineModel<S, V>,
    data: Seq<u8>,
) -> bool {
    &&& message is FullSnapshot
    &&& message->FullSnapshot_state_name == m.state_name
    &&& message->FullSnapshot_source_node == m.shard.node_id
    &&& message->FullSnapshot_generation == m.shard.state.generation
    &&& message->FullSnapshot_wire_version == m.wire_version
    &&& message->FullSnapshot_data == data
}

/// `message` is the delta to what the engine of `m` owns, with the payload `data`.
pub open spec fn is_own_delta<S, V>(
    message: SyncContent,
    m: EngineModel<S, V>,
    data: Seq<u8>,
) -> bool {
    &&& message is DeltaUpdate
    &&& message->DeltaUpdate_state_name == m.state_name
    &&& message->DeltaUpdate_source_node == m.shard.node_id
    &&& message->DeltaUpdate_generation == m.shard.state.generation
    &&& message->DeltaUpdate_wire_version == m.wire_version
    &&& message->DeltaUpdate_data == data
}

/// `action` asks `target` for its snapshot, in the name of the engine of `m`.
pub open spec fn asks<S, V>(action: ActionContent, m: EngineModel<S, V>, target: NodeId) -> bool {
    &&& action is SendSync
    &&& action->target == target
    &&& action->SendSync_message is RequestSnapshot
    &&& action->SendSync_message->RequestSnapshot_state_name == m.state_name
    &&& action->SendSync_message->requester == m.shard.node_id
}

/// A mutation is kept back: nothing is sent, and it counts as suppressed.
pub open spec fn kept_back<S, V>(
    m0: EngineModel<S, V>,
    m1: EngineModel<S, V>,
    sent: Seq<ActionContent>,
) -> bool {
    let (a, b) = (m1.diagnostics.metrics, m0.diagnostics.metrics);
    &&& sent.len() == 0
    &&& m1.feed == m0.feed
    &&& a == StateSyncMetrics {
        total_mutations: (b.total_mutations + 1) as u64,
        deltas_suppressed: (b.deltas_suppressed + 1) as u64,
        ..b
    }
}

/// A mutation is announced: nothing is sent, the new generation is pending for the change feed
/// unless a newer one was, and what else was pending still is.
pub open spec fn announced<S, V>(
    m0: EngineModel<S, V>,
    m1: EngineModel<S, V>,
    sent: Seq<ActionContent>,
) -> bool {
    let (a, b) = (m1.diagnostics.metrics, m0.diagnostics.metrics);
    let own = |c: ChangeContent|
        c.state_name == m0.state_name && c.source_node == m0.shard.node_id;
    let change = ChangeContent {
        state_name: m0.state_name,
        source_node: m0.shard.node_id,
        generation: m1.shard.state.generation,
    };
    &&& sent.len() == 0
    &&& a == StateSyncMetrics { total_mutations: (b.total_mutations + 1) as u64, ..b }
    &&& m1.feed.len() >= 1
    &&& (forall|i: int|
        0 <= i < m0.feed.len() && own(#[trigger] m0.feed[i]) ==> m0.feed[i].generation.at_most(
            m1.shard.state.generation,
        )) ==> m1.feed.contains(change)
    &&& forall|i: int| 0 <= i < m0.feed.len() && !own(#[trigger] m0.feed[i]) ==> m1.feed.contains(
        m0.feed[i],
    )
    &&& forall|i: int| 0 <= i < m1.feed.len() ==> m0.feed.contains(#[trigger] m1.feed[i])
        || m1.feed[i] == change
}

/// Noting the own change is an announcement.
proof fn lemma_announced<S, V>(m0: EngineModel<S, V>, mid: EngineModel<S, V>, m1: EngineModel<S, V>)
    requires
        change_feed_logic::distinct_subjects(m0.feed),
        mid == model::mutated(m0, m1.shard),
        m1.shard.node_id == m0.shard.node_id,
        m1 == mid.notified(),
    ensures
        announced(m0, m1, Seq::<ActionContent>::empty()),
{
    let own = |c: ChangeContent|
        c.state_name == m0.state_name && c.source_node == m0.shard.node_id;
    let change = ChangeContent {
        state_name: m0.state_name,
        source_node: m0.shard.node_id,
        generation: m1.shard.state.generation,
    };
    let list = m0.feed;
    assert forall|i: int, j: int| 0 <= i < j < list.len() implies (#[trigger] list[i]).state_name
        != (#[trigger] list[j]).state_name || list[i].source_node != list[j].source_node by {
        assert(change_feed_logic::same_subject(list[i], list[j]) ==> i == j);
    }
    change_feed_logic::noting_moves_one_subject(list, change);
    assert(m1.feed == change_feed_logic::noted(list, change));
    if exists|k: int| 0 <= k < list.len() && own(#[trigger] list[k]) {
        let k = choose|k: int| 0 <= k < list.len() && own(#[trigger] list[k]);
        assert(m1.feed[k].state_name == change.state_name && m1.feed[k].source_node
            == change.source_node);
        if list[k].generation.at_most(change.generation) {
            assert(m1.feed[k] == change);
        }
        assert forall|i: int| 0 <= i < m1.feed.len() implies list.contains(#[trigger] m1.feed[i])
            || m1.feed[i] == change by {
            if own(list[i]) {
                if list[i].generation.before(change.generation) {
                    assert(m1.feed[i] == change);
                } else {
                    assert(m1.feed[i] == list[i]);
                }
            } else {
                assert(m1.feed[i] == list[i]);
            }
        }
    } else {
        assert(m1.feed[list.len() as int] == change);
        assert forall|i: int| 0 <= i < m1.feed.len() implies list.contains(#[trigger] m1.feed[i])
            || m1.feed[i] == change by {
            if i < list.len() {
                assert(!own(list[i]));
                assert(m1.feed[i] == list[i]);
            }
        }
    }
    assert forall|i: int| 0 <= i < list.len() && !own(#[trigger] list[i]) implies m1.feed.contains(
        list[i],
    ) by {
        assert(m1.feed[i] == list[i]);
    }
}

/// What a mutation without a delta sends, by its urgency and the strategy: one snapshot of the
/// new state to everyone, at once or after the delay; an announcement; or nothing. Whatever it
/// is, it is counted as such, and the mutation is counted.
pub proof fn mutation_is_synchronized<S, V, SV>(
    m0: EngineModel<S, V>,
    m1: EngineModel<S, V>,
    serialize: SV,
    view: V,
    urgency: SyncUrgency,
    sent: Seq<ActionContent>,
) where SV: Fn(&V) -> Vec<u8>
    requires
        change_feed_logic::distinct_subjects(m0.feed),
        m1.shard.node_id == m0.shard.node_id,
        m1.shard.clock == m0.shard.clock,
        engine::mutate_sends(m0, m1, serialize, view, urgency, sent),
    ensures
        same_settings(m0, m1),
        m1.departed == m0.departed,
        m1.diagnostics.peers == m0.diagnostics.peers,
        ({
            let (a, b) = (m1.diagnostics.metrics, m0.diagnostics.metrics);
            let by_mode = urgency == SyncUrgency::Default;
            let mode = m0.strategy.push_mode;
            &&& urgency == SyncUrgency::Immediate || by_mode && mode == Some(PushMode::ActivePush)
                ==> {
                &&& sent.len() == 1
                &&& sent[0] is BroadcastSync
                &&& exists|data: Vec<u8>| #[trigger]
                    call_ensures(serialize, (&view,), data) && is_own_snapshot(
                        sent[0]->BroadcastSync_0,
                        m1,
                        data@,
                    )
                &&& m1.feed == m0.feed
                &&& a == StateSyncMetrics {
                    total_mutations: (b.total_mutations + 1) as u64,
                    snapshots_sent: (b.snapshots_sent + 1) as u64,
                    ..b
                }
            }
            &&& urgency matches SyncUrgency::Delayed(delay) ==> {
                &&& sent.len() == 1
                &&& sent[0] is ScheduleDelayed
                &&& sent[0]->delay == delay
                &&& exists|data: Vec<u8>| #[trigger]
                    call_ensures(serialize, (&view,), data) && is_own_snapshot(
                        sent[0]->ScheduleDelayed_message,
                        m1,
                        data@,
                    )
                &&& m1.feed == m0.feed
                &&& a == StateSyncMetrics {
                    total_mutations: (b.total_mutations + 1) as u64,
                    snapshots_sent: (b.snapshots_sent + 1) as u64,
                    ..b
                }
            }
            &&& by_mode && mode == Some(PushMode::ActiveFeedLazyPull) ==> announced(m0, m1, sent)
            &&& urgency == SyncUrgency::Suppress || by_mode && mode is None ==> kept_back(
                m0,
                m1,
                sent,
            )
        }),
{
    let action = crate::replica::sync_logic::resolved(m0.strategy, m0.supports_delta, urgency);
    let mid = model::mutated(m0, m1.shard);
    let data = choose|data: Vec<u8>|
        (model::sends_data(action) ==> call_ensures(serialize, (&view,), data)) && (m1, sent)
            == #[trigger] mid.snapshot_outbound(action, data@);
    if urgency == SyncUrgency::Default && m0.strategy.push_mode == Some(
        PushMode::ActiveFeedLazyPull,
    ) {
        lemma_announced(m0, mid, m1);
        assert(sent =~= Seq::<ActionContent>::empty());
    }
    if model::sends_data(action) {
        assert(call_ensures(serialize, (&view,), data));
    }
}

/// What a mutation with a delta sends, by its urgency and the strategy: at once, the delta where
/// deltas can be applied and a snapshot otherwise; after the delay, the delta; an announcement;
/// or nothing. Whatever it is, it is counted as such, and the mutation is counted.
pub proof fn delta_mutation_is_synchronized<S, V, VD, SV, SD>(
    m0: EngineModel<S, V>,
    m1: EngineModel<S, V>,
    serialize: SV,
    serialize_delta: SD,
    view: V,
    view_delta: VD,
    urgency: SyncUrgency,
    sent: Seq<ActionContent>,
) where SV: Fn(&V) -> Vec<u8>, SD: FnOnce(&VD) -> Vec<u8>
    requires
        change_feed_logic::distinct_subjects(m0.feed),
        m1.shard.node_id == m0.shard.node_id,
        m1.shard.clock == m0.shard.clock,
        engine::delta_mutate_sends(
            m0,
            m1,
            serialize,
            serialize_delta,
            view,
            view_delta,
            urgency,
            sent,
        ),
    ensures
        same_settings(m0, m1),
        m1.departed == m0.departed,
        m1.diagnostics.peers == m0.diagnostics.peers,
        ({
            let (a, b) = (m1.diagnostics.metrics, m0.diagnostics.metrics);
            let by_mode = urgency == SyncUrgency::Default;
            let mode = m0.strategy.push_mode;
            let at_once = urgency == SyncUrgency::Immediate || by_mode && mode == Some(
                PushMode::ActivePush,
            );
            &&& at_once && m0.supports_delta ==> {
                &&& sent.len() == 1
                &&& sent[0] is BroadcastSync
                &&& exists|data: Vec<u8>| #[trigger]
                    call_ensures(serialize_delta, (&view_delta,), data) && is_own_delta(
                        sent[0]->BroadcastSync_0,
                        m1,
                        data@,
                    )
                &&& m1.feed == m0.feed
                &&& a == StateSyncMetrics {
                    total_mutations: (b.total_mutations + 1) as u64,
                    deltas_sent: (b.deltas_sent + 1) as u64,
                    deltas_immediate: (b.deltas_immediate + 1) as u64,
                    ..b
                }
            }
            &&& at_once && !m0.supports_delta ==> {
                &&& sent.len() == 1
                &&& sent[0] is BroadcastSync
                &&& exists|data: Vec<u8>| #[trigger]
                    call_ensures(serialize, (&view,), data) && is_own_snapshot(
                        sent[0]->BroadcastSync_0,
                        m1,
                        data@,
                    )
                &&& m1.feed == m0.feed
                &&& a == StateSyncMetrics {
                    total_mutations: (b.total_mutations + 1) as u64,
                    snapshots_sent: (b.snapshots_sent + 1) as u64,
                    ..b
                }
            }
            &&& urgency matches SyncUrgency::Delayed(delay) ==> {
                &&& sent.len() == 1
                &&& sent[0] is ScheduleDelayed
                &&& sent[0]->delay == delay
                &&& exists|data: Vec<u8>| #[trigger]
                    call_ensures(serialize_delta, (&view_delta,), data) && is_own_delta(
                        sent[0]->ScheduleDelayed_message,
                        m1,
                        data@,
                    )
                &&& m1.feed == m0.feed
                &&& a == StateSyncMetrics {
                    total_mutations: (b.total_mutations + 1) as u64,
                    deltas_sent: (b.deltas_sent + 1) as u64,
                    ..b
                }
            }
            &&& by_mode && mode == Some(PushMode::ActiveFeedLazyPull) ==> announced(m0, m1, sent)
            &&& urgency == SyncUrgency::Suppress || by_mode && mode is None ==> kept_back(
                m0,
                m1,
                sent,
            )
        }),
{
    let action = crate::replica::sync_logic::resolved(m0.strategy, m0.supports_delta, urgency);
    let mid = model::mutated(m0, m1.shard);
    let data = choose|data: Vec<u8>|
        (action is BroadcastSnapshot ==> call_ensures(serialize, (&view,), data)) && (action
            is BroadcastDelta || action is ScheduleDelayed ==> call_ensures(
            serialize_delta,
            (&view_delta,),
            data,
        )) && (m1, sent) == #[trigger] mid.delta_outbound(action, data@);
    if urgency == SyncUrgency::Default && m0.strategy.push_mode == Some(
        PushMode::ActiveFeedLazyPull,
    ) {
        lemma_announced(m0, mid, m1);
        assert(sent =~= Seq::<ActionContent>::empty());
    }
    if action is BroadcastSnapshot {
        assert(call_ensures(serialize, (&view,), data));
    } else if action is BroadcastDelta || action is ScheduleDelayed {
        assert(call_ensures(serialize_delta, (&view_delta,), data));
    }
}

/// Whoever is told of a mutation by the change feed learns of the new generation, whether the
/// mutation had a delta or not: the batch that is flushed next makes the view of every peer that
/// held an older state stale, and waiting for just that generation.
pub proof fn announced_mutation_is_awaited<S, V, VD, SV, SD>(
    m0: EngineModel<S, V>,
    m1: EngineModel<S, V>,
    serialize: SV,
    serialize_delta: SD,
    view: V,
    view_delta: VD,
    with_delta: bool,
    sent: Seq<ActionContent>,
    peer: EngineModel<S, V>,
) where SV: Fn(&V) -> Vec<u8>, SD: FnOnce(&VD) -> Vec<u8>
    requires
        change_feed_logic::distinct_subjects(m0.feed),
        m1.shard.node_id == m0.shard.node_id,
        m1.shard.clock == m0.shard.clock,
        m0.strategy.push_mode == Some(PushMode::ActiveFeedLazyPull),
        with_delta ==> engine::delta_mutate_sends(
            m0,
            m1,
            serialize,
            serialize_delta,
            view,
            view_delta,
            SyncUrgency::Default,
            sent,
        ),
        !with_delta ==> engine::mutate_sends(
            m0,
            m1,
            serialize,
            view,
            SyncUrgency::Default,
            sent,
        ),
        forall|i: int|
            0 <= i < m0.feed.len() ==> (#[trigger] m0.feed[i]).generation.at_most(
                m1.shard.state.generation,
            ),
        peer.shard.node_id != m0.shard.node_id,
        peer.state_name == m0.state_name,
        !peer.departed.contains(m0.shard.node_id),
        peer.shard.views.contains_key(m0.shard.node_id),
        peer.shard.views[m0.shard.node_id].generation.before(m1.shard.state.generation),
    ensures
        ({
            let batch = FeedContent {
                source_node: m1.shard.node_id,
                notifications: m1.feed,
            };
            let seen = peer.after_feed(batch).shard.views[m0.shard.node_id];
            &&& m1.feed.len() > 0
            &&& seen.pending_remote_generation == Some(m1.shard.state.generation)
            &&& seen.generation == peer.shard.views[m0.shard.node_id].generation
            &&& seen.value == peer.shard.views[m0.shard.node_id].value
        }),
{
    if with_delta {
        delta_mutation_is_synchronized(
            m0,
            m1,
            serialize,
            serialize_delta,
            view,
            view_delta,
            SyncUrgency::Default,
            sent,
        );
    } else {
        mutation_is_synchronized(m0, m1, serialize, view, SyncUrgency::Default, sent);
    }
    let owner = m0.shard.node_id;
    let change = ChangeContent {
        state_name: m0.state_name,
        source_node: owner,
        generation: m1.shard.state.generation,
    };
    assert(m1.feed.contains(change));
    let k = m1.feed.index_of(change);
    let batch = FeedContent { source_node: m1.shard.node_id, notifications: m1.feed };
    change_feed_logic::noting_keeps_subjects_distinct(m0.feed, change);
    assert(m1.feed == change_feed_logic::noted(m0.feed, change));
    assert forall|j: int| k < j < m1.feed.len() implies !counts_for(
        peer,
        owner,
        #[trigger] m1.feed[j],
    ) by {
        assert(change_feed_logic::same_subject(m1.feed[k], m1.feed[j]) ==> k == j);
    }
    last_announcement_counts(peer, owner, m1.feed, k);
}

/// `change` is an announcement that `m` takes in of `owner`: on its own state, of a node that has
/// not departed, newer than the view held of it.
pub open spec fn counts_for<S, V>(
    m: EngineModel<S, V>,
    owner: NodeId,
    change: ChangeContent,
) -> bool {
    &&& change.state_name == m.state_name
    &&& change.source_node == owner
    &&& !m.departed.contains(owner)
    &&& m.shard.views.contains_key(owner)
    &&& m.shard.views[owner].generation.before(change.generation)
}

/// Of several announcements that `m` takes in of a node, the last is what is pending.
pub proof fn last_announcement_counts<S, V>(
    m: EngineModel<S, V>,
    owner: NodeId,
    entries: Seq<ChangeContent>,
    k: int,
)
    requires
        0 <= k < entries.len(),
        counts_for(m, owner, entries[k]),
        forall|j: int| k < j < entries.len() ==> !counts_for(m, owner, #[trigger] entries[j]),
    ensures
        ({
            let after = model::views_after_notices(
                m.shard.views,
                m.state_name,
                m.departed,
                entries,
            );
            &&& after.contains_key(owner)
            &&& after[owner].pending_remote_generation == Some(entries[k].generation)
            &&& after[owner].generation == m.shard.views[owner].generation
            &&& after[owner].value == m.shard.views[owner].value
        }),
    decreases entries.len(),
{
    let rest = entries.drop_last();
    laws::notices_keep_views(m.shard.views, m.state_name, m.departed, rest);
    laws::notices_keep_views(m.shard.views, m.state_name, m.departed, entries);
    if k < rest.len() {
        assert(rest[k] == entries[k]);
        assert forall|j: int| k < j < rest.len() implies !counts_for(
            m,
            owner,
            #[trigger] rest[j],
        ) by {
            assert(rest[j] == entries[j]);
        }
        last_announcement_counts(m, owner, rest, k);
        assert(!counts_for(m, owner, entries[entries.len() - 1]));
    }
}

/// Without an announcement that `m` takes in of a node, the view of the node stays as it is; and
/// no announcement makes up a view.
pub proof fn nothing_announced_nothing_pending<S, V>(
    m: EngineModel<S, V>,
    owner: NodeId,
    entries: Seq<ChangeContent>,
)
    requires
        forall|j: int| 0 <= j < entries.len() ==> !counts_for(m, owner, #[trigger] entries[j]),
    ensures
        ({
            let after = model::views_after_notices(
                m.shard.views,
                m.state_name,
                m.departed,
                entries,
            );
            &&& after.contains_key(owner) == m.shard.views.contains_key(owner)
            &&& after[owner] == m.shard.views[owner]
        }),
    decreases entries.len(),
{
    if entries.len() > 0 {
        let rest = entries.drop_last();
        assert forall|j: int| 0 <= j < rest.len() implies !counts_for(
            m,
            owner,
            #[trigger] rest[j],
        ) by {
            assert(rest[j] == entries[j]);
        }
        nothing_announced_nothing_pending(m, owner, rest);
        laws::notices_keep_views(m.shard.views, m.state_name, m.departed, rest);
        assert(!counts_for(m, owner, entries[entries.len() - 1]));
    }
}

/// What a batch of announcements does to an engine: nothing if it is the engine's own; otherwise
/// each view waits for what was last announced of it and is newer, and all else stays. Nothing
/// is counted and nothing is sent.
pub proof fn batch_marks_views_stale<S, V, SV, DV, DA>(
    m0: EngineModel<S, V>,
    m1: EngineModel<S, V>,
    codec: (SV, DV, Option<DA>),
    feed: FeedContent,
    sent: Seq<ActionContent>,
) where
    SV: Fn(&V) -> Vec<u8>,
    DV: Fn(&[u8], u32) -> Result<V, DeserializeError>,
    DA: Fn(&[u8], u32, &V) -> Result<V, DeserializeError>,

    requires
        model::inbound_step(m0, m1, codec, WireContent::Feed(feed), sent),
    ensures
        sent.len() == 0,
        same_settings(m0, m1),
        m1.shard.state == m0.shard.state,
        m1.departed == m0.departed,
        m1.feed == m0.feed,
        m1.diagnostics == m0.diagnostics,
        m1.shard.views.dom() == m0.shard.views.dom(),
        feed.source_node == m0.shard.node_id ==> m1.shard.views == m0.shard.views,
        feed.source_node != m0.shard.node_id ==> forall|owner: NodeId, k: int|
            0 <= k < feed.notifications.len() && counts_for(
                m0,
                owner,
                #[trigger] feed.notifications[k],
            ) && (forall|j: int|
                k < j < feed.notifications.len() ==> !counts_for(
                    m0,
                    owner,
                    #[trigger] feed.notifications[j],
                )) ==> (#[trigger] m1.shard.views[owner]).pending_remote_generation == Some(
                feed.notifications[k].generation,
            ),
        forall|owner: NodeId| #[trigger]
            m0.shard.views.contains_key(owner) ==> m1.shard.views[owner]
                == m0.shard.views[owner].with_pending(
                m1.shard.views[owner].pending_remote_generation,
            ) && ((forall|j: int|
                0 <= j < feed.notifications.len() ==> !counts_for(
                    m0,
                    owner,
                    #[trigger] feed.notifications[j],
                )) ==> m1.shard.views[owner] == m0.shard.views[owner]),
{
    let entries = change_feed_logic::routed(feed, m0.shard.node_id);
    laws::notices_keep_views(m0.shard.views, m0.state_name, m0.departed, entries);
    if feed.source_node != m0.shard.node_id {
        assert(entries == feed.notifications);
        assert forall|owner: NodeId, k: int|
            0 <= k < feed.notifications.len() && counts_for(
                m0,
                owner,
                #[trigger] feed.notifications[k],
            ) && (forall|j: int|
                k < j < feed.notifications.len() ==> !counts_for(
                    m0,
                    owner,
                    #[trigger] feed.notifications[j],
                )) implies (#[trigger] m1.shard.views[owner]).pending_remote_generation == Some(
            feed.notifications[k].generation,
        ) by {
            last_announcement_counts(m0, owner, entries, k);
        }
        assert forall|owner: NodeId| #[trigger]
            m0.shard.views.contains_key(owner) implies m1.shard.views[owner]
            == m0.shard.views[owner].with_pending(
            m1.shard.views[owner].pending_remote_generation,
        ) && ((forall|j: int|
            0 <= j < feed.notifications.len() ==> !counts_for(
                m0,
                owner,
                #[trigger] feed.notifications[j],
            )) ==> m1.shard.views[owner] == m0.shard.views[owner]) by {
            if forall|j: int|
                0 <= j < feed.notifications.len() ==> !counts_for(
                    m0,
                    owner,
                    #[trigger] feed.notifications[j],
                ) {
                nothing_announced_nothing_pending(m0, owner, entries);
            }
        }
    }
}

/// All views but that of `source` are as they were.
pub open spec fn other_views_stay<S, V>(
    m0: EngineModel<S, V>,
    m1: EngineModel<S, V>,
    source: NodeId,
) -> bool {
    forall|id: NodeId|
        id != source ==> (#[trigger] m1.shard.views.contains_key(id)
            <==> m0.shard.views.contains_key(id)) && m1.shard.views[id] == m0.shard.views[id]
}

/// A failed sync with `source` was recorded, with the text `error`, and its view is gone exactly
/// if `dropped`.
pub open spec fn failed<S, V>(
    m0: EngineModel<S, V>,
    m1: EngineModel<S, V>,
    source: NodeId,
    error: Seq<char>,
    dropped: bool,
) -> bool {
    let (a, b) = (m1.diagnostics, m0.diagnostics);
    &&& a.metrics == StateSyncMetrics {
        sync_failures: (b.metrics.sync_failures + 1) as u64,
        ..b.metrics
    }
    &&& diagnostics_laws::only_record_of(a.peers, b.peers, source)
    &&& a.peers[source].consecutive_failures == (b.record(source).consecutive_failures + 1) as u32
    &&& a.peers[source].last_error == Some(error)
    &&& a.peers[source].last_attempt_time matches Some(ms) && (m0.shard.clock.unix_ms)(ms)
    &&& a.peers[source].last_sync_time == b.record(source).last_sync_time
    &&& a.peers[source].last_sync_latency_ms == b.record(source).last_sync_latency_ms
    &&& a.peers[source].gap_count == b.record(source).gap_count
    &&& other_views_stay(m0, m1, source)
    &&& m1.shard.views.contains_key(source) <==> m0.shard.views.contains_key(source) && !dropped
    &&& !dropped ==> m1.shard.views[source] == m0.shard.views[source]
}

/// A sync with `source` that succeeded was recorded, and nothing failed.
pub open spec fn succeeded<S, V>(
    m0: EngineModel<S, V>,
    m1: EngineModel<S, V>,
    source: NodeId,
    metrics: StateSyncMetrics,
) -> bool {
    let (a, b) = (m1.diagnostics, m0.diagnostics);
    &&& a.metrics == metrics
    &&& diagnostics_laws::only_record_of(a.peers, b.peers, source)
    &&& a.peers[source].consecutive_failures == 0
    &&& a.peers[source].last_error is None
    &&& a.peers[source].last_sync_time matches Some(ms) && (m0.shard.clock.unix_ms)(ms)
    &&& a.peers[source].last_attempt_time == a.peers[source].last_sync_time
    &&& a.peers[source].last_sync_latency_ms == Some(0u64)
    &&& a.peers[source].gap_count == b.record(source).gap_count
}

/// What is waited for after a view has reached `reached`: what was announced, if it is ahead.
pub open spec fn waits_for(
    pending: Option<Generation>,
    before: Option<Generation>,
    reached: Generation,
) -> bool {
    &&& before is None ==> pending is None
    &&& before matches Some(g) ==> (g.at_most(reached) ==> pending is None) && (reached.before(g)
        ==> pending == Some(g))
}

/// The text by which a wire version that was not understood is reported.
pub open spec fn unknown_version_text(name: Seq<char>, received: u32, local: u32) -> Seq<char> {
    "state '"@ + name + "': received wire_version="@ + text::decimal(received as nat)
        + ", local outbound wire_version is "@ + text::decimal(local as nat)
}

/// What becomes of a snapshot by what its payload is decoded to. A view that is newer than the
/// one held, or the first, is stored as it came, dated by the clock, and counts as a success;
/// one that is not newer is discarded and counted as stale. An unknown version and malformed
/// bytes are failures, and only an unknown version under the policy to drop and wait costs the
/// source its view, and never the node its own. Nothing is sent, and the state that the node
/// owns stays.
pub proof fn snapshot_is_taken_in<S, V, SV, DV, DA>(
    m0: EngineModel<S, V>,
    m1: EngineModel<S, V>,
    codec: (SV, DV, Option<DA>),
    source: NodeId,
    generation: Generation,
    wire_version: u32,
    data: Seq<u8>,
    sent: Seq<ActionContent>,
) where
    SV: Fn(&V) -> Vec<u8>,
    DV: Fn(&[u8], u32) -> Result<V, DeserializeError>,
    DA: Fn(&[u8], u32, &V) -> Result<V, DeserializeError>,

    requires
        m0.wf(),
        !m0.departed.contains(source),
        model::sync_step(
            m0,
            m1,
            codec,
            SyncContent::FullSnapshot {
                state_name: m0.state_name,
                source_node: source,
                generation,
                wire_version,
                data,
            },
            sent,
        ),
    ensures
        sent.len() == 0,
        same_settings(m0, m1),
        m1.shard.state == m0.shard.state,
        m1.departed == m0.departed,
        m1.feed == m0.feed,
        exists|bytes: &[u8], decoded: Result<V, DeserializeError>| #[trigger]
            call_ensures(codec.1, (bytes, wire_version), decoded) && bytes@ == data && {
                let known = m0.shard.views.contains_key(source);
                let held = m0.shard.views[source];
                let now_held = m1.shard.views[source];
                let (a, b) = (m1.diagnostics.metrics, m0.diagnostics.metrics);
                match decoded {
                    Ok(view) => if !known || held.generation.before(generation) {
                        &&& other_views_stay(m0, m1, source)
                        &&& m1.shard.views.contains_key(source)
                        &&& now_held.value == view
                        &&& now_held.generation == generation
                        &&& now_held.wire_version == wire_version
                        &&& now_held.source_node == source
                        &&& (m0.shard.clock.unix_ms)(now_held.created_time)
                        &&& now_held.modified_time == now_held.created_time
                        &&& (m0.shard.clock.now)(now_held.synced_at)
                        &&& waits_for(
                            now_held.pending_remote_generation,
                            if known {
                                held.pending_remote_generation
                            } else {
                                None
                            },
                            generation,
                        )
                        &&& succeeded(
                            m0,
                            m1,
                            source,
                            StateSyncMetrics {
                                snapshots_received: (b.snapshots_received + 1) as u64,
                                ..b
                            },
                        )
                    } else {
                        &&& m1.shard.views == m0.shard.views
                        &&& m1.diagnostics.peers == m0.diagnostics.peers
                        &&& a == StateSyncMetrics {
                            stale_deltas_discarded: (b.stale_deltas_discarded + 1) as u64,
                            ..b
                        }
                    },
                    Err(e) => match e@ {
                        DecodeFailure::UnknownVersion(v) => failed(
                            m0,
                            m1,
                            source,
                            unknown_version_text(m0.state_name, v, m0.wire_version),
                            m0.versions.policy == VersionMismatchPolicy::DropAndWait && source
                                != m0.shard.node_id,
                        ),
                        DecodeFailure::Malformed(msg) => failed(
                            m0,
                            m1,
                            source,
                            "malformed: "@ + msg,
                            false,
                        ),
                    },
                }
            },
{
    let (bytes, decoded, unix_ms, now, recorded_ms) = choose|
        bytes: &[u8],
        decoded: Result<V, DeserializeError>,
        unix_ms: i64,
        now: Instant,
        recorded_ms: i64,
    |
        bytes@ == data && #[trigger] call_ensures(codec.1, (bytes, wire_version), decoded)
            && m0.shard.clock.may_say(unix_ms, now, recorded_ms) && m1
            == #[trigger] m0.after_snapshot(
            source,
            generation,
            wire_version,
            decoded,
            unix_ms,
            now,
            recorded_ms,
        );
    assert(call_ensures(codec.1, (bytes, wire_version), decoded));
}

/// What becomes of a delta. One of another wire version is a failure, and costs the source its
/// view exactly under the policy to drop and wait, unless the source is the node itself. Where
/// deltas cannot be applied, or the source has no view, the source is asked for a snapshot, and
/// nothing else happens. One that is not newer than the view is discarded and counted as stale.
/// One that leaves out a state is counted as a gap of its source, which is asked for a snapshot.
/// One that continues the view is applied: if that succeeds, the result is stored, dated by the
/// clock, as a success; if it fails, the view stays, the failure is recorded, and the source is
/// asked for a snapshot.
pub proof fn delta_is_taken_in<S, V, SV, DV, DA>(
    m0: EngineModel<S, V>,
    m1: EngineModel<S, V>,
    codec: (SV, DV, Option<DA>),
    source: NodeId,
    generation: Generation,
    wire_version: u32,
    data: Seq<u8>,
    sent: Seq<ActionContent>,
) where
    SV: Fn(&V) -> Vec<u8>,
    DV: Fn(&[u8], u32) -> Result<V, DeserializeError>,
    DA: Fn(&[u8], u32, &V) -> Result<V, DeserializeError>,

    requires
        m0.wf(),
        !m0.departed.contains(source),
        m0.supports_delta == (codec.2 is Some),
        model::sync_step(
            m0,
            m1,
            codec,
            SyncContent::DeltaUpdate {
                state_name: m0.state_name,
                source_node: source,
                generation,
                wire_version,
                data,
            },
            sent,
        ),
    ensures
        same_settings(m0, m1),
        m1.shard.state == m0.shard.state,
        m1.departed == m0.departed,
        m1.feed == m0.feed,
        ({
            let known = m0.shard.views.contains_key(source);
            let held = m0.shard.views[source];
            let now_held = m1.shard.views[source];
            let (a, b) = (m1.diagnostics, m0.diagnostics);
            let next = generation.incarnation == held.generation.incarnation && generation.age
                == held.generation.age + 1;
            if wire_version != m0.wire_version {
                &&& sent.len() == 0
                &&& failed(
                    m0,
                    m1,
                    source,
                    unknown_version_text(m0.state_name, wire_version, m0.wire_version),
                    m0.versions.policy == VersionMismatchPolicy::DropAndWait && source
                        != m0.shard.node_id,
                )
            } else if codec.2 is None || !known {
                &&& sent.len() == 1
                &&& asks(sent[0], m0, source)
                &&& m1.shard.views == m0.shard.views
                &&& a == b
            } else if generation.at_most(held.generation) {
                &&& sent.len() == 0
                &&& m1.shard.views == m0.shard.views
                &&& a.peers == b.peers
                &&& a.metrics == StateSyncMetrics {
                    stale_deltas_discarded: (b.metrics.stale_deltas_discarded + 1) as u64,
                    ..b.metrics
                }
            } else if !next {
                &&& sent.len() == 1
                &&& asks(sent[0], m0, source)
                &&& m1.shard.views == m0.shard.views
                &&& a.metrics == StateSyncMetrics {
                    age_gaps_detected: (b.metrics.age_gaps_detected + 1) as u64,
                    ..b.metrics
                }
                &&& diagnostics_laws::only_record_of(a.peers, b.peers, source)
                &&& a.peers[source].gap_count == (b.record(source).gap_count + 1) as u64
                &&& a.peers[source].consecutive_failures == b.record(source).consecutive_failures
                &&& a.peers[source].last_error == b.record(source).last_error
            } else {
                exists|bytes: &[u8], applied: Result<V, DeserializeError>| #[trigger]
                    call_ensures(codec.2->0, (bytes, wire_version, &held.value), applied) && bytes@
                        == data && match applied {
                        Ok(value) => {
                            &&& sent.len() == 0
                            &&& other_views_stay(m0, m1, source)
                            &&& m1.shard.views.contains_key(source)
                            &&& now_held.value == value
                            &&& now_held.generation == generation
                            &&& now_held.wire_version == wire_version
                            &&& now_held.source_node == source
                            &&& now_held.created_time == held.created_time
                            &&& (m0.shard.clock.unix_ms)(now_held.modified_time)
                            &&& (m0.shard.clock.now)(now_held.synced_at)
                            &&& waits_for(
                                now_held.pending_remote_generation,
                                held.pending_remote_generation,
                                generation,
                            )
                            &&& succeeded(
                                m0,
                                m1,
                                source,
                                StateSyncMetrics {
                                    deltas_received: (b.metrics.deltas_received + 1) as u64,
                                    ..b.metrics
                                },
                            )
                        },
                        Err(e) => {
                            &&& sent.len() == 1
                            &&& asks(sent[0], m0, source)
                            &&& failed(
                                m0,
                                m1,
                                source,
                                match e@ {
                                    DecodeFailure::UnknownVersion(v) => "delta version mismatch: "@
                                        + text::decimal(v as nat),
                                    DecodeFailure::Malformed(msg) => "delta malformed: "@ + msg,
                                },
                                false,
                            )
                        },
                    }
            }
        }),
{
    let (applied, unix_ms, now, recorded_ms) = choose|
        applied: Result<V, DeserializeError>,
        unix_ms: i64,
        now: Instant,
        recorded_ms: i64,
    |
        m0.shard.clock.may_say(unix_ms, now, recorded_ms) && (m1, sent)
            == #[trigger] m0.after_delta(
            source,
            generation,
            wire_version,
            applied,
            unix_ms,
            now,
            recorded_ms,
        ) && (m0.applies_delta(source, generation, wire_version) ==> codec.2 is Some
            && model::delta_applied(
            codec.2->0,
            data,
            wire_version,
            m0.shard.views[source].value,
            applied,
        ));
    view_laws::delta_is_judged_by_the_view(m0.shard.views, source, generation);
    if m0.applies_delta(source, generation, wire_version) {
        let held = m0.shard.views[source];
        let bytes = choose|bytes: &[u8]|
            bytes@ == data && #[trigger] call_ensures(
                codec.2->0,
                (bytes, wire_version, &held.value),
                applied,
            );
        assert(call_ensures(codec.2->0, (bytes, wire_version, &held.value), applied));
    }
}

/// A request is answered with one snapshot of the engine's own current state, to whoever asked,
/// and changes nothing but the number of snapshots sent.
pub proof fn request_is_answered_with_own_state<S, V, SV, DV, DA>(
    m0: EngineModel<S, V>,
    m1: EngineModel<S, V>,
    codec: (SV, DV, Option<DA>),
    requester: NodeId,
    sent: Seq<ActionContent>,
) where
    SV: Fn(&V) -> Vec<u8>,
    DV: Fn(&[u8], u32) -> Result<V, DeserializeError>,
    DA: Fn(&[u8], u32, &V) -> Result<V, DeserializeError>,

    requires
        !m0.departed.contains(requester),
        model::sync_step(
            m0,
            m1,
            codec,
            SyncContent::RequestSnapshot { state_name: m0.state_name, requester },
            sent,
        ),
    ensures
        sent.len() == 1,
        sent[0] is SendSync,
        sent[0]->target == requester,
        exists|data: Vec<u8>| #[trigger]
            call_ensures(codec.0, (&m0.shard.views[m0.shard.node_id].value,), data)
                && is_own_snapshot(sent[0]->SendSync_message, m0, data@),
        same_settings(m0, m1),
        m1.shard == m0.shard,
        m1.departed == m0.departed,
        m1.feed == m0.feed,
        m1.diagnostics.peers == m0.diagnostics.peers,
        m1.diagnostics.metrics == (StateSyncMetrics {
            snapshots_sent: (m0.diagnostics.metrics.snapshots_sent + 1) as u64,
            ..m0.diagnostics.metrics
        }),
{
    let data = choose|data: Vec<u8>| #[trigger]
        call_ensures(codec.0, (&m0.shard.views[m0.shard.node_id].value,), data) && sent == seq![
            ActionContent::SendSync { target: requester, message: m0.own_snapshot(data@) },
        ];
    assert(call_ensures(codec.0, (&m0.shard.views[m0.shard.node_id].value,), data));
}

/// A periodic synchronization broadcasts one snapshot of the engine's own current state where an
/// interval is set, and does nothing otherwise.
pub proof fn periodic_sync_broadcasts_own_state<S, V, SV: Fn(&V) -> Vec<u8>>(
    m0: EngineModel<S, V>,
    m1: EngineModel<S, V>,
    serialize: SV,
    sent: Seq<ActionContent>,
)
    requires
        model::periodic_step(m0, m1, serialize, sent),
    ensures
        m0.strategy.periodic_full_sync is None ==> m1 == m0 && sent.len() == 0,
        m0.strategy.periodic_full_sync is Some ==> {
            &&& sent.len() == 1
            &&& sent[0] is BroadcastSync
            &&& exists|data: Vec<u8>| #[trigger]
                call_ensures(serialize, (&m0.shard.views[m0.shard.node_id].value,), data)
                    && is_own_snapshot(sent[0]->BroadcastSync_0, m0, data@)
            &&& same_settings(m0, m1)
            &&& m1.shard == m0.shard
            &&& m1.departed == m0.departed
            &&& m1.feed == m0.feed
            &&& m1.diagnostics.peers == m0.diagnostics.peers
            &&& m1.diagnostics.metrics == StateSyncMetrics {
                snapshots_sent: (m0.diagnostics.metrics.snapshots_sent + 1) as u64,
                ..m0.diagnostics.metrics
            }
        },
{
    if m0.strategy.periodic_full_sync is Some {
        let data = choose|data: Vec<u8>| #[trigger]
            call_ensures(serialize, (&m0.shard.views[m0.shard.node_id].value,), data) && sent
                == seq![ActionContent::BroadcastSync(m0.own_snapshot(data@))];
        assert(call_ensures(serialize, (&m0.shard.views[m0.shard.node_id].value,), data));
    }
}

/// A node that joins is listened to, has a view, which is a stale placeholder if it had none, and
/// is counted as sent one snapshot. Everything else stays.
pub proof fn joining_node_is_welcomed<S, V>(
    m: EngineModel<S, V>,
    node: NodeId,
    default_view: V,
    now: Instant,
)
    ensures
        ({
            let after = m.after_join(node, default_view, now);
            let added = node != m.shard.node_id && !m.shard.views.contains_key(node);
            let a = after.shard.views[node];
            &&& same_settings(m, after)
            &&& after.shard.state == m.shard.state
            &&& after.feed == m.feed
            &&& forall|id: NodeId| #[trigger]
                after.departed.contains(id) <==> m.departed.contains(id) && id != node
            &&& forall|id: NodeId| #[trigger]
                after.shard.views.contains_key(id) <==> m.shard.views.contains_key(id) || added
                    && id == node
            &&& forall|id: NodeId|
                id != node || !added ==> #[trigger] after.shard.views[id] == m.shard.views[id]
            &&& added ==> a.value == default_view && a.generation == (Generation {
                incarnation: 0,
                age: 0,
            }) && a.pending_remote_generation is Some && a.source_node == node
            &&& after.diagnostics.peers == m.diagnostics.peers
            &&& after.diagnostics.metrics == StateSyncMetrics {
                snapshots_sent: (m.diagnostics.metrics.snapshots_sent + 1) as u64,
                ..m.diagnostics.metrics
            }
        }),
{
}

/// A node that leaves is not listened to, has no view and no record; the local node keeps its
/// own view. Everything else stays, and nothing is uncounted.
pub proof fn leaving_node_is_forgotten<S, V>(m: EngineModel<S, V>, node: NodeId)
    ensures
        ({
            let after = m.after_leave(node);
            &&& same_settings(m, after)
            &&& after.shard.state == m.shard.state
            &&& after.feed == m.feed
            &&& forall|id: NodeId| #[trigger]
                after.departed.contains(id) <==> m.departed.contains(id) || id == node
            &&& forall|id: NodeId| #[trigger]
                after.shard.views.contains_key(id) <==> m.shard.views.contains_key(id) && (id
                    != node || id == m.shard.node_id)
            &&& forall|id: NodeId| #[trigger]
                after.shard.views.contains_key(id) ==> after.shard.views[id] == m.shard.views[id]
            &&& forall|id: NodeId| #[trigger]
                after.diagnostics.peers.contains_key(id) <==> m.diagnostics.peers.contains_key(id)
                    && id != node
            &&& forall|id: NodeId| #[trigger]
                after.diagnostics.peers.contains_key(id) ==> after.diagnostics.peers[id]
                    == m.diagnostics.peers[id]
            &&& after.diagnostics.metrics == m.diagnostics.metrics
        }),
{
}

/// How an engine starts: with the given value at age 0 of an incarnation that is the time, its
/// own view and no other, nothing pending, no one departed and nothing counted, configured as
/// it was told.
pub proof fn engine_starts_fresh<S, V>(
    state_name: Seq<char>,
    node_id: NodeId,
    value: S,
    view: V,
    config: StateConfig,
    wire_version: u32,
    supports_delta: bool,
    incarnation_ms: i64,
    created_ms: i64,
    now: Instant,
    clock: Readings,
)
    ensures
        ({
            let m = model::started(
                state_name,
                node_id,
                value,
                view,
                config,
                wire_version,
                supports_delta,
                incarnation_ms,
                created_ms,
                now,
                clock,
            );
            let own = m.shard.views[node_id];
            &&& m.state_name == state_name
            &&& m.wire_version == wire_version
            &&& m.strategy == config.sync_strategy
            &&& m.supports_delta == supports_delta
            &&& m.versions.state_name == state_name
            &&& m.versions.policy == config.version_mismatch_policy
            &&& m.versions.wire_version == wire_version
            &&& m.versions.storage_version == 1
            &&& m.feed.len() == 0
            &&& forall|id: NodeId| !#[trigger] m.departed.contains(id)
            &&& m.shard.node_id == node_id
            &&& m.shard.clock == clock
            &&& m.shard.state.value == value
            &&& m.shard.state.generation.incarnation == incarnation_ms as u64
            &&& m.shard.state.generation.age == 0
            &&& m.shard.state.storage_version == 0
            &&& m.shard.state.created_time == created_ms
            &&& m.shard.state.modified_time == created_ms
            &&& forall|id: NodeId| #[trigger] m.shard.views.contains_key(id) <==> id == node_id
            &&& own.value == view
            &&& own.generation == m.shard.state.generation
            &&& own.wire_version == 0
            &&& own.created_time == created_ms
            &&& own.modified_time == created_ms
            &&& own.synced_at == now
            &&& own.pending_remote_generation is None
            &&& own.source_node == node_id
            &&& forall|id: NodeId| !#[trigger] m.diagnostics.peers.contains_key(id)
            &&& m.diagnostics.state_name == state_name
            &&& m.diagnostics.metrics == StateSyncMetrics {
                total_mutations: 0,
                deltas_sent: 0,
                deltas_received: 0,
                snapshots_sent: 0,
                snapshots_received: 0,
                deltas_suppressed: 0,
                deltas_immediate: 0,
                sync_failures: 0,
                age_gaps_detected: 0,
                stale_deltas_discarded: 0,
            }
        }),
{
}

/// The requests of a query go, one each and in order, to those of the stale peers that have not
/// departed.
pub proof fn pulls_follow_the_stale_peers<S, V>(m: EngineModel<S, V>, stale: Seq<NodeId>)
    ensures
        ({
            let present = stale.filter(|id: NodeId| !m.departed.contains(id));
            &&& m.pulls(stale).len() == present.len()
            &&& forall|i: int|
                0 <= i < present.len() ==> asks(#[trigger] m.pulls(stale)[i], m, present[i])
        }),
    decreases stale.len(),
{
    reveal(Seq::filter);
    if stale.len() > 0 {
        let rest = stale.drop_last();
        pulls_follow_the_stale_peers(m, rest);
        let p = |id: NodeId| !m.departed.contains(id);
        let (all, some) = (m.pulls(stale), m.pulls(rest));
        let (present, earlier) = (stale.filter(p), rest.filter(p));
        assert forall|i: int| 0 <= i < present.len() implies asks(
            #[trigger] all[i],
            m,
            present[i],
        ) by {
            if i < earlier.len() {
                assert(all[i] == some[i]);
                assert(present[i] == earlier[i]);
            }
        }
    }
}

/// A query pulls from every stale peer that has not departed, and from no one else.
pub proof fn every_stale_peer_is_asked<S, V>(m: EngineModel<S, V>, stale: Seq<NodeId>)
    ensures
        forall|id: NodeId|
            #![trigger m.departed.contains(id)]
            stale.contains(id) && !m.departed.contains(id) ==> exists|i: int|
                0 <= i < m.pulls(stale).len() && asks(#[trigger] m.pulls(stale)[i], m, id),
        forall|i: int|
            0 <= i < m.pulls(stale).len() ==> is_asked_for(
                #[trigger] m.pulls(stale)[i],
                m,
                stale,
            ),
{
    let p = |id: NodeId| !m.departed.contains(id);
    let present = stale.filter(p);
    pulls_follow_the_stale_peers(m, stale);
    assert forall|id: NodeId|
        #![trigger m.departed.contains(id)]
        stale.contains(id) && !m.departed.contains(id) implies exists|i: int|
        0 <= i < m.pulls(stale).len() && asks(#[trigger] m.pulls(stale)[i], m, id) by {
        let k = stale.index_of(id);
        assert(p(stale[k]));
        stale.lemma_filter_contains(p, k);
        let i = present.index_of(id);
        assert(asks(m.pulls(stale)[i], m, present[i]));
    }
    assert forall|i: int| 0 <= i < m.pulls(stale).len() implies is_asked_for(
        #[trigger] m.pulls(stale)[i],
        m,
        stale,
    ) by {
        let id = present[i];
        stale.lemma_filter_pred(p, i);
        assert(present.contains(id));
        stale.lemma_filter_contains_rev(p, id);
        let k = stale.index_of(id);
        assert(asks(m.pulls(stale)[i], m, stale[k]));
    }
}

/// `action` asks one of `stale` that has not departed.
pub open spec fn is_asked_for<S, V>(
    action: ActionContent,
    m: EngineModel<S, V>,
    stale: Seq<NodeId>,
) -> bool {
    exists|k: int|
        0 <= k < stale.len() && !m.departed.contains(stale[k]) && asks(
            action,
            m,
            #[trigger] stale[k],
        )
}

/// What a query answers: the projection of the views, fresh exactly when no peer is stale. If
/// some are, all of them are named, and where the strategy pulls on queries each that has not
/// departed is asked for its snapshot, and no one else; where it does not, no one is asked.
pub proof fn query_names_and_asks_the_stale<S, V, R, F>(
    m: EngineModel<S, V>,
    entries: NodeMap<StateViewObject<V>>,
    limit: Duration,
    project: F,
    now: Instant,
    answer: EngineQueryResult<R>,
    sent: Seq<ActionContent>,
) where F: FnOnce(&NodeMap<StateViewObject<V>>) -> R
    requires
        entries.wf(),
        entries@ == m.shard.views,
        engine::query_answer(m, entries, limit, project, now, answer, sent),
    ensures
        ({
            let is_stale = |id: NodeId|
                m.shard.views.contains_key(id) && id != m.shard.node_id && (
                m.shard.views[id].pending_remote_generation is Some || now.nanos
                    > m.shard.views[id].synced_at.nanos + limit.nanos);
            match answer {
                EngineQueryResult::Fresh(result) => {
                    &&& call_ensures(project, (&entries,), result)
                    &&& sent.len() == 0
                    &&& forall|id: NodeId| !#[trigger] is_stale(id)
                },
                EngineQueryResult::Stale { result, stale_peers } => {
                    &&& call_ensures(project, (&entries,), result)
                    &&& stale_peers@.len() > 0
                    &&& crate::node_map::ascending(stale_peers@)
                    &&& forall|id: NodeId| stale_peers@.contains(id) <==> #[trigger] is_stale(id)
                    &&& !m.strategy.pull_on_query ==> sent.len() == 0
                    &&& m.strategy.pull_on_query ==> {
                        &&& forall|id: NodeId| #[trigger]
                            is_stale(id) && !m.departed.contains(id) ==> exists|i: int|
                                0 <= i < sent.len() && asks(#[trigger] sent[i], m, id)
                        &&& forall|i: int|
                            0 <= i < sent.len() ==> is_asked_for(
                                #[trigger] sent[i],
                                m,
                                stale_peers@,
                            )
                        &&& sent.len() <= stale_peers@.len()
                    }
                },
            }
        }),
{
    let is_stale = |id: NodeId|
        m.shard.views.contains_key(id) && id != m.shard.node_id && (
        m.shard.views[id].pending_remote_generation is Some || now.nanos
            > m.shard.views[id].synced_at.nanos + limit.nanos);
    entries.lemma_ids();
    let ids = entries.ids();
    let stale = view_map::stale_among(ids, m.shard.views, m.shard.node_id, limit, now);
    view_laws::stale_peers_are_listed_once_in_order(
        ids,
        m.shard.views,
        m.shard.node_id,
        limit,
        now,
    );
    assert forall|id: NodeId| stale.contains(id) <==> #[trigger] is_stale(id) by {
        if ids.contains(id) {
            let i = ids.index_of(id);
            assert(entries@.contains_key(ids[i]));
        }
        if entries@.contains_key(id) {
            assert(ids.contains(id));
        }
    }
    if answer is Stale {
        every_stale_peer_is_asked(m, stale);
        laws::pulls_go_to_present_stale_peers(m, stale);
        if m.strategy.pull_on_query {
            assert forall|id: NodeId| #[trigger]
                is_stale(id) && !m.departed.contains(id) implies exists|i: int|
                0 <= i < sent.len() && asks(#[trigger] sent[i], m, id) by {
                assert(stale.contains(id));
                assert(!m.departed.contains(id));
            }
        }
    } else {
        assert forall|id: NodeId| !#[trigger] is_stale(id) by {
            assert(!stale.contains(id));
        }
    }
}

/// What the health assessment says: how many of the peers are stale, how many failing, whether
/// or not they are also stale, and how many neither; and the status by strict majority of those.
pub proof fn health_counts_the_peers<S, V>(
    m: EngineModel<S, V>,
    entries: NodeMap<StateViewObject<V>>,
    limit: Duration,
    now: Instant,
    health: EngineHealth,
)
    requires
        engine::health_answer(m, entries, limit, now, health),
    ensures
        ({
            let ids = entries.ids();
            let local = m.shard.node_id;
            let (views, peers) = (m.shard.views, m.diagnostics.peers);
            let stale = |id: NodeId|
                id != local && (views[id].pending_remote_generation is Some || now.nanos
                    > views[id].synced_at.nanos + limit.nanos);
            let failing = |id: NodeId|
                id != local && peers.contains_key(id) && peers[id].consecutive_failures > 0;
            let healthy = |id: NodeId|
                id != local && views[id].pending_remote_generation is None && now.nanos
                    <= views[id].synced_at.nanos + limit.nanos && (peers.contains_key(id)
                    ==> peers[id].consecutive_failures == 0);
            let total = ids.filter(|id: NodeId| id != local).len();
            &&& health.state_name@ == m.state_name
            &&& health.stale_peers == ids.filter(stale).len()
            &&& health.failing_peers == ids.filter(failing).len()
            &&& health.healthy_peers == ids.filter(healthy).len()
            &&& health.status == HealthStatus::Healthy <==> health.healthy_peers == total
            &&& health.status == HealthStatus::Degraded <==> health.healthy_peers < total && 2
                * health.healthy_peers > total
            &&& health.status == HealthStatus::Unhealthy <==> total > 0 && 2
                * health.healthy_peers <= total
        }),
{
    let ids = entries.ids();
    let (views, d, local) = (m.shard.views, m.diagnostics, m.shard.node_id);
    diagnostics_laws::peers_are_counted_by_what_they_are(ids, views, d, local, limit, now);
    diagnostics::health_is_by_strict_majority(ids, views, d, local, limit, now);
    diagnostics::counts_cover_peers(ids, views, d, local, limit, now);
}

/// The metrics that an engine shows are those that it has counted, each under its own name.
pub proof fn metrics_show_what_was_counted(m: StateSyncMetrics)
    ensures
        ({
            let shown = engine::public_metrics(m);
            &&& shown.total_mutations == m.total_mutations
            &&& shown.deltas_sent == m.deltas_sent
            &&& shown.deltas_received == m.deltas_received
            &&& shown.snapshots_sent == m.snapshots_sent
            &&& shown.snapshots_received == m.snapshots_received
            &&& shown.deltas_suppressed == m.deltas_suppressed
            &&& shown.deltas_immediate == m.deltas_immediate
            &&& shown.sync_failures == m.sync_failures
            &&& shown.age_gaps_detected == m.age_gaps_detected
            &&& shown.stale_deltas_discarded == m.stale_deltas_discarded
        }),
{
}

} // verus!
