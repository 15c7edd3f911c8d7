//! What holds of a shard across several operations.
use vstd::prelude::*;

use crate::replica::{shard_core, view_map};
use crate::replica::shard_core::{
    DeltaAcceptResult, InboundSnapshot, ShardModel,
};
use crate::types::envelope::{StateObject, StateViewObject};
use crate::types::node::{Generation, NodeId};
use crate::types::time::{Duration, Instant};

verus! {

/// The views of `after` cover those of `before`, and none of them is older.
pub open spec fn views_only_advance<V>(
    before: Map<NodeId, StateViewObject<V>>,
    after: Map<NodeId, StateViewObject<V>>,
) -> bool {
    forall|id: NodeId| #[trigger]
        before.contains_key(id) ==> after.contains_key(id) && before[id].generation.at_most(
            after[id].generation,
        )
}

/// A snapshot never makes a view older, and never drops one.
pub proof fn snapshot_only_advances<V>(
    views: Map<NodeId, StateViewObject<V>>,
    snap: InboundSnapshot<V>,
    now: Instant,
)
    ensures
        views_only_advance(
            views,
            shard_core::views_after_snapshot(views, snap, now),
        ),
{
}

/// An applied delta never makes a view older, and never drops one.
pub proof fn delta_only_advances<V>(
    views: Map<NodeId, StateViewObject<V>>,
    source: NodeId,
    generation: Generation,
    wire_version: u32,
    value: V,
    unix_ms: i64,
    now: Instant,
)
    requires
        shard_core::delta_verdict(views, source, generation) is Applied,
    ensures
        views_only_advance(
            views,
            views.insert(
                source,
                shard_core::delta_entry(
                    views[source],
                    generation,
                    wire_version,
                    value,
                    unix_ms,
                    now,
                ),
            ),
        ),
        views[source].generation.before(generation),
{
}

/// A change notification and a joining node change no view's value or generation: they only
/// announce a newer generation, or add a placeholder for a node without an entry.
pub proof fn notice_and_join_keep_views<V>(
    views: Map<NodeId, StateViewObject<V>>,
    source: NodeId,
    incoming: Generation,
    local: NodeId,
    default_view: V,
    now: Instant,
)
    ensures
        forall|id: NodeId| #[trigger]
            views.contains_key(id) ==> {
                let noticed = shard_core::views_after_notice(
                    views,
                    source,
                    incoming,
                );
                let joined = shard_core::views_after_join(
                    views,
                    local,
                    source,
                    default_view,
                    now,
                );
                &&& noticed.contains_key(id)
                &&& noticed[id] == views[id].with_pending(noticed[id].pending_remote_generation)
                &&& joined.contains_key(id)
                &&& joined[id] == views[id]
            },
{
}

/// The same snapshot delivered twice has the effect of one delivery.
pub proof fn duplicate_snapshot_is_discarded<V>(
    views: Map<NodeId, StateViewObject<V>>,
    snap: InboundSnapshot<V>,
    first: Instant,
    second: Instant,
)
    ensures
        ({
            let once = shard_core::views_after_snapshot(views, snap, first);
            &&& !shard_core::snapshot_accepted(once, snap.source, snap.generation)
            &&& shard_core::views_after_snapshot(once, snap, second) == once
        }),
{
}

/// A delta that has been applied is discarded when it is delivered again.
pub proof fn duplicate_delta_is_discarded<V>(
    views: Map<NodeId, StateViewObject<V>>,
    source: NodeId,
    generation: Generation,
    entry: StateViewObject<V>,
)
    requires
        shard_core::delta_verdict(views, source, generation) is Applied,
        entry.generation == generation,
    ensures
        shard_core::delta_verdict(views.insert(source, entry), source, generation)
            == DeltaAcceptResult::Discarded,
{
}

/// Two snapshots of one source leave the newer of them, whichever arrives first.
pub proof fn snapshot_order_does_not_matter<V>(
    views: Map<NodeId, StateViewObject<V>>,
    older: InboundSnapshot<V>,
    newer: InboundSnapshot<V>,
    first: Instant,
    second: Instant,
)
    requires
        older.source == newer.source,
        older.generation.before(newer.generation),
    ensures
        ({
            let in_order = shard_core::views_after_snapshot(
                shard_core::views_after_snapshot(views, older, first),
                newer,
                second,
            );
            let swapped = shard_core::views_after_snapshot(
                shard_core::views_after_snapshot(views, newer, first),
                older,
                second,
            );
            let a = in_order[newer.source];
            let b = swapped[newer.source];
            &&& in_order.dom() == swapped.dom()
            &&& a.generation == b.generation
            &&& a.value == b.value
            &&& a.wire_version == b.wire_version
            &&& a.created_time == b.created_time
            &&& a.modified_time == b.modified_time
            &&& a.pending_remote_generation == b.pending_remote_generation
            &&& forall|id: NodeId| id != newer.source ==> in_order[id] == swapped[id]
        }),
{
    let v1 = shard_core::views_after_snapshot(views, older, first);
    let v2 = shard_core::views_after_snapshot(views, newer, first);
    let in_order = shard_core::views_after_snapshot(v1, newer, second);
    let swapped = shard_core::views_after_snapshot(v2, older, second);
    assert(in_order.dom() =~= swapped.dom());
}

/// A snapshot touches the view of its source alone.
pub proof fn snapshot_touches_its_source_alone<V>(
    views: Map<NodeId, StateViewObject<V>>,
    snap: InboundSnapshot<V>,
    now: Instant,
    other: NodeId,
)
    requires
        other != snap.source,
    ensures
        ({
            let after = shard_core::views_after_snapshot(views, snap, now);
            after.contains_key(other) == views.contains_key(other) && after[other] == views[other]
        }),
{
}

/// An announced generation stays announced until a snapshot has caught up with it, and is
/// cleared by one that has.
pub proof fn pending_is_kept_until_caught_up<V>(
    views: Map<NodeId, StateViewObject<V>>,
    snap: InboundSnapshot<V>,
    announced: Generation,
    now: Instant,
)
    requires
        views.contains_key(snap.source),
        views[snap.source].pending_remote_generation == Some(announced),
    ensures
        ({
            let after = shard_core::views_after_snapshot(views, snap, now);
            let accepted = shard_core::snapshot_accepted(
                views,
                snap.source,
                snap.generation,
            );
            after[snap.source].pending_remote_generation == if accepted && announced.at_most(
                snap.generation,
            ) {
                None
            } else {
                Some(announced)
            }
        }),
{
}

/// A mutation makes the owner's generation newer within the same incarnation, so that any
/// peer whose view is not ahead of the state before the mutation accepts a snapshot of the
/// state after it.
pub proof fn mutation_is_accepted_by_peers<S, V>(
    before: StateObject<S>,
    value: S,
    unix_ms: i64,
    peer_views: Map<NodeId, StateViewObject<V>>,
    owner: NodeId,
)
    requires
        before.generation.age < u64::MAX,
        peer_views.contains_key(owner) ==> peer_views[owner].generation.at_most(
            before.generation,
        ),
    ensures
        ({
            let after = shard_core::advanced(before, value, unix_ms);
            &&& before.generation.before(after.generation)
            &&& after.generation.incarnation == before.generation.incarnation
            &&& shard_core::snapshot_accepted(peer_views, owner, after.generation)
        }),
{
}

/// A delta is applied exactly where the peer's view is the state before the mutation it
/// describes.
pub proof fn delta_follows_its_mutation<S, V>(
    before: StateObject<S>,
    value: S,
    unix_ms: i64,
    peer_views: Map<NodeId, StateViewObject<V>>,
    owner: NodeId,
)
    requires
        before.generation.age < u64::MAX,
        peer_views.contains_key(owner),
    ensures
        ({
            let after = shard_core::advanced(before, value, unix_ms);
            shard_core::delta_verdict(peer_views, owner, after.generation)
                is Applied <==> peer_views[owner].generation == before.generation
        }),
{
}

/// Any state of a started owner replaces the placeholder of a joined node.
pub proof fn placeholder_gives_way<V>(
    views: Map<NodeId, StateViewObject<V>>,
    local: NodeId,
    node: NodeId,
    default_view: V,
    now: Instant,
    generation: Generation,
)
    requires
        node != local,
        !views.contains_key(node),
        generation.incarnation > 0,
    ensures
        ({
            let joined = shard_core::views_after_join(
                views,
                local,
                node,
                default_view,
                now,
            );
            &&& joined.contains_key(node)
            &&& joined[node].pending_remote_generation is Some
            &&& shard_core::snapshot_accepted(joined, node, generation)
        }),
{
}

/// A node that joins and leaves again leaves no trace, and no node can make the local node
/// lose its own view.
pub proof fn leave_undoes_join<V>(
    views: Map<NodeId, StateViewObject<V>>,
    local: NodeId,
    node: NodeId,
    default_view: V,
    now: Instant,
)
    requires
        views.contains_key(local),
        !views.contains_key(node),
    ensures
        ({
            let joined = shard_core::views_after_join(
                views,
                local,
                node,
                default_view,
                now,
            );
            let left = shard_core::views_after_leave(joined, local, node);
            &&& left == views
            &&& left.contains_key(local)
        }),
{
    let joined = shard_core::views_after_join(
        views,
        local,
        node,
        default_view,
        now,
    );
    assert(shard_core::views_after_leave(joined, local, node) =~= views);
}

/// Preparing a mutation and committing it is the same as applying it.
pub proof fn prepare_and_commit_is_apply<S, V: Clone, P: FnOnce(&S) -> V>(
    m0: ShardModel<S, V>,
    m1: ShardModel<S, V>,
    p: P,
    new_state: StateObject<S>,
    view: V,
)
    requires
        shard_core::prepared_step(m0, p, new_state, view),
        shard_core::committed_step(m0, m1, new_state, view),
    ensures
        shard_core::mutation_step(m0, m1, p, view),
        m1.state == new_state,
{
}

/// Two shards that are alike, on a clock that stands still and with functions that give one
/// result: preparing and committing a mutation on the one, and applying it on the other, leave
/// the two alike, and give the same outcome, one age further on. The clone of the owned state,
/// on which preparing works, is to be a copy, and cloning the view is to give one result.
pub proof fn committed_shard_is_like_applied<S: Clone, V: Clone, F, P>(
    m0: ShardModel<S, V>,
    committed: ShardModel<S, V>,
    applied: ShardModel<S, V>,
    f: F,
    p: P,
    new_state: StateObject<S>,
    prepared_view: V,
    applied_view: V,
) where F: FnOnce(&mut S), P: FnOnce(&S) -> V
    requires
        m0.state.generation.age < u64::MAX,
        forall|a: Instant, b: Instant|
            #[trigger] (m0.clock.now)(a) && #[trigger] (m0.clock.now)(b) ==> a == b,
        forall|a: i64, b: i64|
            #[trigger] (m0.clock.unix_ms)(a) && #[trigger] (m0.clock.unix_ms)(b) ==> a == b,
        forall|copy: S| #[trigger] cloned(m0.state.value, copy) ==> copy == m0.state.value,
        forall|a: V, b: V|
            #[trigger] cloned(prepared_view, a) && #[trigger] cloned(prepared_view, b) ==> a == b,
        forall|a: V, b: V|
            #[trigger] call_ensures(p, (&new_state.value,), a) && #[trigger] call_ensures(
                p,
                (&new_state.value,),
                b,
            ) ==> a == b,
        forall|a: &mut S, b: &mut S|
            #[trigger] call_ensures(f, (a,), ()) && #[trigger] call_ensures(f, (b,), ()) && *a
                == m0.state.value && *b == m0.state.value ==> *final(a) == *final(b),
        exists|place: &mut S| cloned(m0.state.value, *place) && *final(place) == new_state.value
            && #[trigger] call_ensures(f, (place,), ()),
        exists|place: &mut S| *place == m0.state.value && *final(place) == applied.state.value
            && #[trigger] call_ensures(f, (place,), ()),
        shard_core::prepared_step(m0, p, new_state, prepared_view),
        shard_core::committed_step(m0, committed, new_state, prepared_view),
        shard_core::mutation_step(m0, applied, p, applied_view),
    ensures
        committed == applied,
        prepared_view == applied_view,
        committed.state.generation.incarnation == m0.state.generation.incarnation,
        committed.state.generation.age == m0.state.generation.age + 1,
{
}

/// A mutation leaves every peer's view as it was.
pub proof fn mutation_keeps_peer_views<S, V: Clone, P: FnOnce(&S) -> V>(
    m0: ShardModel<S, V>,
    m1: ShardModel<S, V>,
    p: P,
    view: V,
    peer: NodeId,
)
    requires
        shard_core::mutation_step(m0, m1, p, view),
        peer != m0.node_id,
    ensures
        m1.views.contains_key(peer) == m0.views.contains_key(peer),
        m1.views[peer] == m0.views[peer],
        m1.views[m0.node_id].generation == m1.state.generation,
{
}

/// The stale peers are the known nodes other than the local one whose views are stale; the
/// local node is never among them.
pub proof fn stale_peers_are_the_stale_ones<V>(
    ids: Seq<NodeId>,
    views: Map<NodeId, StateViewObject<V>>,
    local: NodeId,
    max_staleness: Duration,
    now: Instant,
    id: NodeId,
)
    ensures
        view_map::stale_among(ids, views, local, max_staleness, now).contains(id)
            <==> ids.contains(id) && id != local && view_map::is_stale(
            views[id],
            max_staleness,
            now,
        ),
{
    let p = view_map::stale_test(views, local, max_staleness, now);
    let stale = ids.filter(p);
    if stale.contains(id) {
        let i = choose|i: int| 0 <= i < stale.len() && stale[i] == id;
        ids.lemma_filter_pred(p, i);
        ids.lemma_filter_contains_rev(p, id);
    }
    if ids.contains(id) && p(id) {
        let i = choose|i: int| 0 <= i < ids.len() && ids[i] == id;
        ids.lemma_filter_contains(p, i);
    }
}

} // verus!
