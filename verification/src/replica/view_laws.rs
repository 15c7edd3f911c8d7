//! What each operation on the views of a shard is for, said of the fields that it changes.
use vstd::prelude::*;

use crate::node_map::NodeMap;
use crate::replica::{shard_core, view_map};
use crate::replica::shard_core::{DeltaAcceptResult, InboundSnapshot, QueryResult, ShardModel};
use crate::types::envelope::{StateObject, StateViewObject};
use crate::types::node::{Generation, NodeId};
use crate::types::time::{Duration, Instant};

verus! {

/// An announcement of a newer generation than the view is what is pending afterwards, whatever
/// was pending before; nothing else changes in the view, and no other view does.
pub proof fn newer_announcement_is_pending<V>(
    views: Map<NodeId, StateViewObject<V>>,
    source: NodeId,
    incoming: Generation,
)
    requires
        views.contains_key(source),
        views[source].generation.before(incoming),
    ensures
        ({
            let after = shard_core::views_after_notice(views, source, incoming);
            let (a, b) = (after[source], views[source]);
            &&& after.dom() == views.dom()
            &&& a.pending_remote_generation == Some(incoming)
            &&& a.generation == b.generation
            &&& a.wire_version == b.wire_version
            &&& a.value == b.value
            &&& a.created_time == b.created_time
            &&& a.modified_time == b.modified_time
            &&& a.synced_at == b.synced_at
            &&& a.source_node == b.source_node
            &&& forall|id: NodeId| id != source ==> #[trigger] after[id] == views[id]
        }),
{
    let after = shard_core::views_after_notice(views, source, incoming);
    assert(after.dom() =~= views.dom());
}

/// An announcement that is not newer than the view, or is of a node without a view, changes
/// nothing.
pub proof fn other_announcements_change_nothing<V>(
    views: Map<NodeId, StateViewObject<V>>,
    source: NodeId,
    incoming: Generation,
)
    requires
        !views.contains_key(source) || incoming.at_most(views[source].generation),
    ensures
        shard_core::views_after_notice(views, source, incoming) == views,
{
}

/// Announcements that outdo each other: whichever was announced last is what a snapshot has to
/// catch up with before the view counts as caught up.
pub proof fn snapshot_catches_up_with_last_announcement<V>(
    views: Map<NodeId, StateViewObject<V>>,
    first: Generation,
    last: Generation,
    snap: InboundSnapshot<V>,
    now: Instant,
)
    requires
        views.contains_key(snap.source),
        views[snap.source].generation.before(first),
        views[snap.source].generation.before(last),
        views[snap.source].generation.before(snap.generation),
    ensures
        ({
            let once = shard_core::views_after_notice(views, snap.source, first);
            let twice = shard_core::views_after_notice(once, snap.source, last);
            let after = shard_core::views_after_snapshot(twice, snap, now);
            after[snap.source].pending_remote_generation == if snap.generation.before(last) {
                Some(last)
            } else {
                None
            }
        }),
{
}

/// A snapshot of a node without a view, or of a newer generation than the view, becomes the
/// view: each of its fields is what the snapshot brought, synchronized now.
pub proof fn newer_snapshot_becomes_the_view<V>(
    views: Map<NodeId, StateViewObject<V>>,
    snap: InboundSnapshot<V>,
    now: Instant,
)
    requires
        views.contains_key(snap.source) ==> views[snap.source].generation.before(snap.generation),
    ensures
        ({
            let after = shard_core::views_after_snapshot(views, snap, now);
            let a = after[snap.source];
            &&& shard_core::snapshot_accepted(views, snap.source, snap.generation)
            &&& forall|id: NodeId| #[trigger]
                after.contains_key(id) <==> views.contains_key(id) || id == snap.source
            &&& forall|id: NodeId| id != snap.source ==> #[trigger] after[id] == views[id]
            &&& a.value == snap.view
            &&& a.generation == snap.generation
            &&& a.wire_version == snap.wire_version
            &&& a.created_time == snap.created_time
            &&& a.modified_time == snap.modified_time
            &&& a.synced_at == now
            &&& a.source_node == snap.source
            &&& !views.contains_key(snap.source) ==> a.pending_remote_generation is None
        }),
{
}

/// A snapshot that is not newer than the view held of its source changes nothing.
pub proof fn other_snapshots_change_nothing<V>(
    views: Map<NodeId, StateViewObject<V>>,
    snap: InboundSnapshot<V>,
    now: Instant,
)
    requires
        views.contains_key(snap.source),
        snap.generation.at_most(views[snap.source].generation),
    ensures
        !shard_core::snapshot_accepted(views, snap.source, snap.generation),
        shard_core::views_after_snapshot(views, snap, now) == views,
{
}

/// What becomes of a delta: a node without a view is unknown; a generation that is not newer
/// than the view is discarded; the next age of the same incarnation is applied; whatever is
/// further on is a gap between the two generations.
pub proof fn delta_is_judged_by_the_view<V>(
    views: Map<NodeId, StateViewObject<V>>,
    source: NodeId,
    generation: Generation,
)
    ensures
        ({
            let verdict = shard_core::delta_verdict(views, source, generation);
            let known = views.contains_key(source);
            let held = views[source].generation;
            let next = generation.incarnation == held.incarnation && generation.age == held.age
                + 1;
            &&& verdict is UnknownPeer <==> !known
            &&& verdict is Discarded <==> known && generation.at_most(held)
            &&& verdict is Applied <==> known && next
            &&& verdict is GapDetected <==> known && held.before(generation) && !next
            &&& verdict matches DeltaAcceptResult::GapDetected { local, incoming } ==> local == held
                && incoming == generation
        }),
{
}

/// The entry that an applied delta leaves: the new value and generation, dated now, with the
/// creation time and the owner that it had, and waiting for an announced generation only if that
/// is still ahead.
pub proof fn applied_delta_renews_the_view<V>(
    existing: StateViewObject<V>,
    generation: Generation,
    wire_version: u32,
    value: V,
    unix_ms: i64,
    now: Instant,
)
    ensures
        ({
            let a = shard_core::delta_entry(
                existing,
                generation,
                wire_version,
                value,
                unix_ms,
                now,
            );
            &&& a.value == value
            &&& a.generation == generation
            &&& a.wire_version == wire_version
            &&& a.created_time == existing.created_time
            &&& a.modified_time == unix_ms
            &&& a.synced_at == now
            &&& a.source_node == existing.source_node
            &&& match existing.pending_remote_generation {
                None => a.pending_remote_generation is None,
                Some(announced) => a.pending_remote_generation == if generation.before(
                    announced,
                ) {
                    Some(announced)
                } else {
                    None
                },
            }
        }),
{
}

/// A node that joins and has no view gets a placeholder: the default view, older than any real
/// state, and known to be behind. A node with a view keeps it, and so do all others.
pub proof fn joining_adds_a_placeholder<V>(
    views: Map<NodeId, StateViewObject<V>>,
    local: NodeId,
    node: NodeId,
    default_view: V,
    now: Instant,
)
    ensures
        ({
            let after = shard_core::views_after_join(views, local, node, default_view, now);
            let a = after[node];
            let added = node != local && !views.contains_key(node);
            &&& forall|id: NodeId| #[trigger]
                after.contains_key(id) <==> views.contains_key(id) || added && id == node
            &&& forall|id: NodeId|
                id != node || !added ==> #[trigger] after[id] == views[id]
            &&& added ==> {
                &&& a.value == default_view
                &&& a.generation.incarnation == 0 && a.generation.age == 0
                &&& a.pending_remote_generation == Some(Generation { incarnation: 1, age: 0 })
                &&& a.wire_version == 0
                &&& a.created_time == 0
                &&& a.modified_time == 0
                &&& a.synced_at == now
                &&& a.source_node == node
            }
        }),
{
}

/// A node that leaves loses its view, unless it is the local one; all others keep theirs.
pub proof fn leaving_drops_one_view<V>(
    views: Map<NodeId, StateViewObject<V>>,
    local: NodeId,
    node: NodeId,
)
    ensures
        ({
            let after = shard_core::views_after_leave(views, local, node);
            &&& forall|id: NodeId| #[trigger]
                after.contains_key(id) <==> views.contains_key(id) && (id != node || id == local)
            &&& forall|id: NodeId| #[trigger]
                after.contains_key(id) ==> after[id] == views[id]
        }),
{
}

/// What a mutation does to the owned state and the node's own view: the age grows by one within
/// the incarnation, only the value and the time of modification change with it, and the
/// published entry is that state's, not known to be behind.
pub proof fn mutation_publishes_the_new_state<S, V: Clone, P: FnOnce(&S) -> V>(
    m0: ShardModel<S, V>,
    m1: ShardModel<S, V>,
    p: P,
    view: V,
)
    requires
        m0.state.generation.age < u64::MAX,
        shard_core::mutation_step(m0, m1, p, view),
    ensures
        m1.node_id == m0.node_id,
        m1.state.generation.incarnation == m0.state.generation.incarnation,
        m1.state.generation.age == m0.state.generation.age + 1,
        m1.state.storage_version == m0.state.storage_version,
        m1.state.created_time == m0.state.created_time,
        (m0.clock.unix_ms)(m1.state.modified_time),
        call_ensures(p, (&m1.state.value,), view),
        forall|id: NodeId| #[trigger]
            m1.views.contains_key(id) <==> m0.views.contains_key(id) || id == m0.node_id,
        ({
            let own = m1.views[m0.node_id];
            &&& cloned(view, own.value)
            &&& own.generation == m1.state.generation
            &&& own.wire_version == m1.state.storage_version
            &&& own.created_time == m1.state.created_time
            &&& own.modified_time == m1.state.modified_time
            &&& (m0.clock.now)(own.synced_at)
            &&& own.pending_remote_generation is None
            &&& own.source_node == m0.node_id
        }),
{
}

/// What is prepared is the state one age further on, and the view of it.
pub proof fn prepared_state_is_the_next<S, V, P: FnOnce(&S) -> V>(
    m0: ShardModel<S, V>,
    p: P,
    new_state: StateObject<S>,
    view: V,
)
    requires
        m0.state.generation.age < u64::MAX,
        shard_core::prepared_step(m0, p, new_state, view),
    ensures
        new_state.generation.incarnation == m0.state.generation.incarnation,
        new_state.generation.age == m0.state.generation.age + 1,
        new_state.storage_version == m0.state.storage_version,
        new_state.created_time == m0.state.created_time,
        (m0.clock.unix_ms)(new_state.modified_time),
        call_ensures(p, (&new_state.value,), view),
{
}

/// What is committed is owned, and its view published; all other views stay.
pub proof fn commit_publishes_what_was_prepared<S, V: Clone>(
    m0: ShardModel<S, V>,
    m1: ShardModel<S, V>,
    new_state: StateObject<S>,
    view: V,
)
    requires
        shard_core::committed_step(m0, m1, new_state, view),
    ensures
        m1.node_id == m0.node_id,
        m1.state == new_state,
        forall|id: NodeId| id != m0.node_id ==> #[trigger] m1.views[id] == m0.views[id],
        forall|id: NodeId| #[trigger]
            m1.views.contains_key(id) <==> m0.views.contains_key(id) || id == m0.node_id,
        ({
            let own = m1.views[m0.node_id];
            &&& cloned(view, own.value)
            &&& own.generation == new_state.generation
            &&& own.wire_version == new_state.storage_version
            &&& own.created_time == new_state.created_time
            &&& own.modified_time == new_state.modified_time
            &&& (m0.clock.now)(own.synced_at)
            &&& own.pending_remote_generation is None
            &&& own.source_node == m0.node_id
        }),
{
}

/// A view is stale from the first nanosecond beyond the limit on, and not before, unless its
/// owner has announced something newer: then it is stale whatever the limit.
pub proof fn staleness_begins_beyond_the_limit<V>(
    view: StateViewObject<V>,
    limit: Duration,
    now: Instant,
)
    ensures
        view.pending_remote_generation is Some ==> view_map::is_stale(view, limit, now),
        view.pending_remote_generation is None && now.nanos <= view.synced_at.nanos + limit.nanos
            ==> !view_map::is_stale(view, limit, now),
        now.nanos > view.synced_at.nanos + limit.nanos ==> view_map::is_stale(view, limit, now),
{
}

/// A view that is stale stays so as time passes, and is stale under any smaller limit.
pub proof fn staleness_only_grows<V>(
    view: StateViewObject<V>,
    limit: Duration,
    smaller: Duration,
    now: Instant,
    later: Instant,
)
    requires
        view_map::is_stale(view, limit, now),
        smaller.nanos <= limit.nanos,
        now.nanos <= later.nanos,
    ensures
        view_map::is_stale(view, smaller, later),
{
}

/// The stale peers: every known node but the local one that is behind an announcement or was
/// last synchronized longer ago than the limit, and no other; in the order of `ids`, none twice.
pub proof fn stale_peers_are_listed_once_in_order<V>(
    ids: Seq<NodeId>,
    views: Map<NodeId, StateViewObject<V>>,
    local: NodeId,
    limit: Duration,
    now: Instant,
)
    requires
        crate::node_map::ascending(ids),
    ensures
        ({
            let stale = view_map::stale_among(ids, views, local, limit, now);
            &&& crate::node_map::ascending(stale)
            &&& forall|id: NodeId| #[trigger]
                stale.contains(id) <==> ids.contains(id) && id != local && (
                views[id].pending_remote_generation is Some || now.nanos
                    > views[id].synced_at.nanos + limit.nanos)
        }),
{
    let p = view_map::stale_test(views, local, limit, now);
    lemma_filter_ascends(ids, p);
    assert forall|id: NodeId| #[trigger]
        view_map::stale_among(ids, views, local, limit, now).contains(id) <==> ids.contains(id)
            && id != local && (views[id].pending_remote_generation is Some || now.nanos
            > views[id].synced_at.nanos + limit.nanos) by {
        crate::replica::shard_laws::stale_peers_are_the_stale_ones(
            ids,
            views,
            local,
            limit,
            now,
            id,
        );
        staleness_begins_beyond_the_limit(views[id], limit, now);
    }
}

/// What is chosen from ascending ids ascends.
proof fn lemma_filter_ascends(ids: Seq<NodeId>, p: spec_fn(NodeId) -> bool)
    requires
        crate::node_map::ascending(ids),
    ensures
        crate::node_map::ascending(ids.filter(p)),
        forall|i: int|
            0 <= i < ids.filter(p).len() ==> ids.contains(#[trigger] ids.filter(p)[i]),
    decreases ids.len(),
{
    reveal(Seq::filter);
    if ids.len() > 0 {
        let rest = ids.drop_last();
        assert forall|i: int, j: int| 0 <= i < j < rest.len() implies (#[trigger] rest[i]).0 < (
        #[trigger] rest[j]).0 by {
            assert(ids[i].0 < ids[j].0);
        }
        lemma_filter_ascends(rest, p);
        let kept = rest.filter(p);
        let all = ids.filter(p);
        let last = ids.last();
        assert(all == if p(last) {
            kept.push(last)
        } else {
            kept
        });
        assert forall|i: int| 0 <= i < kept.len() implies (#[trigger] kept[i]).0 < last.0
            && ids.contains(kept[i]) by {
            assert(rest.contains(kept[i]));
            let k = rest.index_of(kept[i]);
            assert(ids[k] == kept[i]);
            assert(ids[k].0 < ids[ids.len() - 1].0);
        }
        assert forall|i: int| 0 <= i < all.len() implies ids.contains(#[trigger] all[i]) by {
            if i < kept.len() {
                assert(all[i] == kept[i]);
            } else {
                assert(ids[ids.len() - 1] == last);
            }
        }
        assert forall|i: int, j: int| 0 <= i < j < all.len() implies (#[trigger] all[i]).0 < (
        #[trigger] all[j]).0 by {
            assert(all[i] == kept[i]);
            if j < kept.len() {
                assert(kept[i].0 < kept[j].0);
            }
        }
    }
}

/// A query gives the projection of the views. It is fresh exactly when no peer is stale, and
/// otherwise names every stale peer and no other.
pub proof fn query_tells_who_is_stale<V, R, F: FnOnce(&NodeMap<StateViewObject<V>>) -> R>(
    entries: NodeMap<StateViewObject<V>>,
    local: NodeId,
    limit: Duration,
    project: F,
    now: Instant,
    answer: QueryResult<R>,
)
    requires
        entries.wf(),
        shard_core::query_answer(entries, local, limit, project, now, answer),
    ensures
        answer matches QueryResult::Fresh(result) ==> {
            &&& call_ensures(project, (&entries,), result)
            &&& forall|id: NodeId|
                entries@.contains_key(id) && id != local ==> (
                #[trigger] entries@[id]).pending_remote_generation is None && now.nanos
                    <= entries@[id].synced_at.nanos + limit.nanos
        },
        answer matches QueryResult::StalePeersDetected { stale_peers, result } ==> {
            &&& call_ensures(project, (&entries,), result)
            &&& stale_peers@.len() > 0
            &&& crate::node_map::ascending(stale_peers@)
            &&& forall|id: NodeId| #[trigger]
                stale_peers@.contains(id) <==> entries@.contains_key(id) && id != local && (
                entries@[id].pending_remote_generation is Some || now.nanos
                    > entries@[id].synced_at.nanos + limit.nanos)
        },
{
    entries.lemma_ids();
    let ids = entries.ids();
    stale_peers_are_listed_once_in_order(ids, entries@, local, limit, now);
    let stale = view_map::stale_among(ids, entries@, local, limit, now);
    assert forall|id: NodeId| #[trigger] ids.contains(id) <==> entries@.contains_key(id) by {
        if ids.contains(id) {
            let i = ids.index_of(id);
            assert(entries@.contains_key(ids[i]));
        }
    }
    if answer is Fresh {
        assert forall|id: NodeId| entries@.contains_key(id) && id != local implies (
        #[trigger] entries@[id]).pending_remote_generation is None && now.nanos
            <= entries@[id].synced_at.nanos + limit.nanos by {
            assert(ids.contains(id));
            assert(!stale.contains(id));
        }
    } else {
        assert forall|id: NodeId| #[trigger] stale.contains(id) <==> entries@.contains_key(id)
            && id != local && (entries@[id].pending_remote_generation is Some || now.nanos
            > entries@[id].synced_at.nanos + limit.nanos) by {
            assert(ids.contains(id) <==> entries@.contains_key(id));
        }
    }
}

} // verus!
