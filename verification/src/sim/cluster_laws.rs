//! What holds of a simulated cluster across its operations.
use vstd::prelude::*;

use crate::codec;
use crate::engine::{ActionContent, WireContent};
use crate::engine::laws;
use crate::engine::model;
use crate::engine::model::EngineModel;
use crate::replica::diagnostics::DiagnosticsModel;
use crate::replica::shard_core;
use crate::sim::cluster_model;
use crate::sim::cluster_model::{ClusterModel, NodeModel};
use crate::sim::{transport, transport_laws};
use crate::sim::transport::{Corruption, Delivery, Flight, TransportModel};
use crate::types::envelope::StateViewObject;
use crate::types::errors::DeserializeError;
use crate::types::node::NodeId;
use crate::types::sync_message::{FeedContent, SyncContent};
use crate::types::time::Instant;

verus! {

/// Broadcasting changes nothing of the network but what is in transit.
pub proof fn broadcasting_keeps_network(
    t0: TransportModel,
    t1: TransportModel,
    from: NodeId,
    data: Seq<u8>,
    targets: Seq<NodeId>,
)
    requires
        transport::broadcasts(t0, t1, from, data, targets),
    ensures
        cluster_model::same_network(t0, t1),
    decreases targets.len(),
{
    if targets.len() > 0 {
        let mid = choose|mid: TransportModel|
            transport::broadcasts(t0, mid, from, data, targets.drop_last())
                && #[trigger] transport::sends_to_other(mid, t1, from, targets.last(), data);
        broadcasting_keeps_network(t0, mid, from, data, targets.drop_last());
    }
}

/// Performing the actions of a node changes nothing of the cluster but its traffic: no engine
/// is touched.
pub proof fn routing_keeps_engines<S, V>(
    c0: ClusterModel<S, V>,
    c1: ClusterModel<S, V>,
    from: NodeId,
    ids: Seq<NodeId>,
    actions: Seq<ActionContent>,
)
    requires
        cluster_model::routes(c0, c1, from, ids, actions),
    ensures
        cluster_model::same_but_traffic(c0, c1),
        forall|id: NodeId| #[trigger]
            c1.nodes.contains_key(id) ==> c1.nodes[id].engine == c0.nodes[id].engine,
    decreases actions.len(),
{
    if actions.len() > 0 {
        let mid = choose|mid: ClusterModel<S, V>|
            cluster_model::routes(c0, mid, from, ids, actions.drop_last())
                && #[trigger] cluster_model::action_step(mid, c1, from, ids, actions.last());
        routing_keeps_engines(c0, mid, from, ids, actions.drop_last());
        if let ActionContent::BroadcastSync(message) = actions.last() {
            broadcasting_keeps_network(
                mid.transport,
                c1.transport,
                from,
                codec::wire_bytes(WireContent::Sync(message)),
                ids,
            );
        }
        assert(c1.nodes.dom() =~= mid.nodes.dom());
    }
}

/// Performing the actions of several nodes changes nothing of the cluster but its traffic.
pub proof fn replies_keep_engines<S, V>(
    c0: ClusterModel<S, V>,
    c1: ClusterModel<S, V>,
    ids: Seq<NodeId>,
    replies: Seq<(NodeId, Seq<ActionContent>)>,
)
    requires
        cluster_model::routes_all(c0, c1, ids, replies),
    ensures
        cluster_model::same_but_traffic(c0, c1),
        forall|id: NodeId| #[trigger]
            c1.nodes.contains_key(id) ==> c1.nodes[id].engine == c0.nodes[id].engine,
    decreases replies.len(),
{
    if replies.len() > 0 {
        let mid = choose|mid: ClusterModel<S, V>|
            cluster_model::routes_all(c0, mid, ids, replies.drop_last())
                && #[trigger] cluster_model::reply_step(mid, c1, ids, replies.last());
        replies_keep_engines(c0, mid, ids, replies.drop_last());
        routing_keeps_engines(mid, c1, replies.last().0, ids, replies.last().1);
    }
}

/// Broadcasting several messages changes nothing of the network but what is in transit.
pub proof fn broadcasts_keep_network(
    t0: TransportModel,
    t1: TransportModel,
    from: NodeId,
    ids: Seq<NodeId>,
    messages: Seq<SyncContent>,
)
    requires
        cluster_model::broadcasts_each(t0, t1, from, ids, messages),
    ensures
        cluster_model::same_network(t0, t1),
    decreases messages.len(),
{
    if messages.len() > 0 {
        let mid = choose|mid: TransportModel|
            cluster_model::broadcasts_each(t0, mid, from, ids, messages.drop_last())
                && #[trigger] cluster_model::broadcast_step(mid, t1, from, ids, messages.last());
        broadcasts_keep_network(t0, mid, from, ids, messages.drop_last());
        broadcasting_keeps_network(
            mid,
            t1,
            from,
            codec::wire_bytes(WireContent::Sync(messages.last())),
            ids,
        );
    }
}

/// Timers change nothing of the cluster but its traffic.
pub proof fn timers_keep_engines<S, V>(
    c0: ClusterModel<S, V>,
    c1: ClusterModel<S, V>,
    ids: Seq<NodeId>,
    which: Seq<NodeId>,
)
    requires
        cluster_model::timers(c0, c1, ids, which),
        forall|i: int| 0 <= i < which.len() ==> c0.nodes.contains_key(#[trigger] which[i]),
    ensures
        cluster_model::same_but_traffic(c0, c1),
        forall|id: NodeId| #[trigger]
            c1.nodes.contains_key(id) ==> c1.nodes[id].engine == c0.nodes[id].engine,
    decreases which.len(),
{
    if which.len() > 0 {
        let mid = choose|mid: ClusterModel<S, V>|
            cluster_model::timers(c0, mid, ids, which.drop_last())
                && #[trigger] cluster_model::timer_step(mid, c1, ids, which.last());
        timers_keep_engines(c0, mid, ids, which.drop_last());
        assert(c0.nodes.contains_key(which[which.len() - 1]));
        assert(mid.nodes.contains_key(which.last()));
        broadcasts_keep_network(
            mid.transport,
            c1.transport,
            which.last(),
            ids,
            cluster_model::due_of(mid.nodes[which.last()].scheduled, mid.current_tick),
        );
        assert(c1.nodes.dom() =~= mid.nodes.dom());
    }
}

/// Flushing change feeds changes nothing of the cluster but its traffic.
pub proof fn feeds_keep_engines<S, V>(
    c0: ClusterModel<S, V>,
    c1: ClusterModel<S, V>,
    ids: Seq<NodeId>,
    which: Seq<NodeId>,
)
    requires
        cluster_model::feeds(c0, c1, ids, which),
        forall|i: int| 0 <= i < which.len() ==> c0.nodes.contains_key(#[trigger] which[i]),
    ensures
        cluster_model::same_but_traffic(c0, c1),
    decreases which.len(),
{
    if which.len() > 0 {
        let mid = choose|mid: ClusterModel<S, V>|
            cluster_model::feeds(c0, mid, ids, which.drop_last())
                && #[trigger] cluster_model::feed_step(mid, c1, ids, which.last());
        feeds_keep_engines(c0, mid, ids, which.drop_last());
        assert(c0.nodes.contains_key(which[which.len() - 1]));
        let node = mid.nodes[which.last()];
        assert(mid.nodes.contains_key(which.last()));
        if node.flush_counter + 1 >= node.flush_interval && node.engine.feed.len() > 0 {
            broadcasting_keeps_network(
                mid.transport,
                c1.transport,
                which.last(),
                codec::wire_bytes(
                    WireContent::Feed(
                        FeedContent {
                            source_node: node.engine.shard.node_id,
                            notifications: node.engine.feed,
                        },
                    ),
                ),
                ids,
            );
        }
        assert(c1.nodes.dom() =~= mid.nodes.dom());
    }
}

/// Where there is room for `n` more of everything, there is room for fewer.
pub proof fn less_room_is_there(d: DiagnosticsModel, n: nat, fewer: nat)
    requires
        d.has_room(n),
        fewer <= n,
    ensures
        d.has_room(fewer),
{
}

/// Delivering a message takes up at most one unit of room in the counters of any engine, and
/// no node comes or goes.
pub proof fn delivery_counts_at_most_once<S, V, SV, DV, DA>(
    n0: Map<NodeId, NodeModel<S, V>>,
    n1: Map<NodeId, NodeModel<S, V>>,
    codecs: Map<NodeId, (SV, DV, Option<DA>)>,
    delivery: Delivery,
    r0: Seq<(NodeId, Seq<ActionContent>)>,
    r1: Seq<(NodeId, Seq<ActionContent>)>,
    n: nat,
) where
    SV: Fn(&V) -> Vec<u8>,
    DV: Fn(&[u8], u32) -> Result<V, DeserializeError>,
    DA: Fn(&[u8], u32, &V) -> Result<V, DeserializeError>,

    requires
        cluster_model::delivery_step(n0, n1, codecs, delivery, r0, r1),
        forall|id: NodeId| #[trigger]
            n0.contains_key(id) ==> n0[id].engine.diagnostics.has_room(n + 1),
    ensures
        n1.dom() == n0.dom(),
        forall|id: NodeId| #[trigger]
            n1.contains_key(id) ==> n1[id].engine.diagnostics.has_room(n),
{
    if n0.contains_key(delivery.to) {
        let node = n0[delivery.to];
        let (after, sent) = choose|after: EngineModel<S, V>, sent: Seq<ActionContent>| #[trigger]
            model::inbound_step(
                node.engine,
                after,
                codecs[delivery.to],
                delivery.message,
                sent,
            ) && n1 == n0.insert(delivery.to, node.with_engine(after))
                && r1 == cluster_model::with_reply(r0, delivery.to, sent);
        laws::inbound_counts_at_most_once(
            node.engine,
            after,
            codecs[delivery.to],
            delivery.message,
            sent,
            n,
        );
    }
    assert(n1.dom() =~= n0.dom());
}

/// `c1` is `c0`, whatever ticks have been counted for the change feeds.
pub open spec fn same_but_counters<S, V>(c0: ClusterModel<S, V>, c1: ClusterModel<S, V>) -> bool {
    &&& c1 == c0.with_nodes(c1.nodes)
    &&& c1.nodes.dom() == c0.nodes.dom()
    &&& forall|id: NodeId| #[trigger]
        c1.nodes.contains_key(id) ==> c1.nodes[id] == (NodeModel {
            flush_counter: c1.nodes[id].flush_counter,
            ..c0.nodes[id]
        })
}

/// No delayed broadcast is pending and no change is to be announced.
pub open spec fn idle<S, V>(nodes: Map<NodeId, NodeModel<S, V>>) -> bool {
    forall|id: NodeId| #[trigger]
        nodes.contains_key(id) ==> nodes[id].scheduled.len() == 0 && nodes[id].engine.feed.len()
            == 0
}

/// Timers do nothing while no delayed broadcast is pending.
pub(crate) proof fn lemma_idle_timers<S, V>(
    c0: ClusterModel<S, V>,
    c1: ClusterModel<S, V>,
    ids: Seq<NodeId>,
    which: Seq<NodeId>,
)
    requires
        cluster_model::timers(c0, c1, ids, which),
        forall|i: int| 0 <= i < which.len() ==> c0.nodes.contains_key(#[trigger] which[i]),
        idle(c0.nodes),
    ensures
        c1 == c0,
    decreases which.len(),
{
    if which.len() > 0 {
        let mid = choose|mid: ClusterModel<S, V>|
            cluster_model::timers(c0, mid, ids, which.drop_last())
                && #[trigger] cluster_model::timer_step(mid, c1, ids, which.last());
        lemma_idle_timers(c0, mid, ids, which.drop_last());
        let id = which[which.len() - 1];
        assert(c0.nodes.contains_key(id));
        let scheduled = c0.nodes[id].scheduled;
        assert(cluster_model::pending_of(scheduled, c0.current_tick) =~= scheduled);
        assert(c1.nodes =~= c0.nodes);
    }
}

/// Flushing change feeds only counts while no change is to be announced.
pub(crate) proof fn lemma_idle_feeds<S, V>(
    c0: ClusterModel<S, V>,
    c1: ClusterModel<S, V>,
    ids: Seq<NodeId>,
    which: Seq<NodeId>,
)
    requires
        cluster_model::feeds(c0, c1, ids, which),
        forall|i: int| 0 <= i < which.len() ==> c0.nodes.contains_key(#[trigger] which[i]),
        idle(c0.nodes),
    ensures
        same_but_counters(c0, c1),
    decreases which.len(),
{
    if which.len() > 0 {
        let mid = choose|mid: ClusterModel<S, V>|
            cluster_model::feeds(c0, mid, ids, which.drop_last())
                && #[trigger] cluster_model::feed_step(mid, c1, ids, which.last());
        lemma_idle_feeds(c0, mid, ids, which.drop_last());
        let id = which[which.len() - 1];
        assert(c0.nodes.contains_key(id));
        assert(mid.nodes.contains_key(id));
        assert(mid.nodes[id].engine.feed =~= Seq::empty());
        assert(c1.nodes.dom() =~= c0.nodes.dom());
    }
}

/// A tick at which nothing arrives, on a cluster where nothing is pending, changes nothing but
/// the counters of ticks.
pub proof fn quiet_tick_only_counts<S, V, SV, DV, DA>(
    c0: ClusterModel<S, V>,
    c1: ClusterModel<S, V>,
    codecs: Map<NodeId, (SV, DV, Option<DA>)>,
    ids: Seq<NodeId>,
) where
    SV: Fn(&V) -> Vec<u8>,
    DV: Fn(&[u8], u32) -> Result<V, DeserializeError>,
    DA: Fn(&[u8], u32, &V) -> Result<V, DeserializeError>,

    requires
        cluster_model::tick_step(c0, c1, codecs, ids),
        forall|i: int| 0 <= i < ids.len() ==> c0.nodes.contains_key(#[trigger] ids[i]),
        idle(c0.nodes),
        forall|i: int|
            0 <= i < c0.transport.in_flight.len() ==> (
            #[trigger] c0.transport.in_flight[i]).deliver_at_tick > c0.transport.current_tick,
    ensures
        same_but_counters(cluster_model::ticked(c0), c1),
{
    let flights = c0.transport.in_flight;
    let tick = c0.transport.current_tick;
    lemma_none_due(flights, tick);
    let (nodes, replies, routed, timed, flushed) = choose|
        nodes: Map<NodeId, NodeModel<S, V>>,
        replies: Seq<(NodeId, Seq<ActionContent>)>,
        routed: ClusterModel<S, V>,
        timed: ClusterModel<S, V>,
        flushed: ClusterModel<S, V>,
    |
        #![trigger
            cluster_model::delivers(
                c0.nodes,
                nodes,
                codecs,
                transport::delivered_of(c0.transport.in_flight, c0.transport.current_tick),
                replies,
            ),
            cluster_model::timers(routed, timed, ids, ids),
            cluster_model::feeds(timed, flushed, ids, ids)]
        {
            &&& cluster_model::delivers(
                c0.nodes,
                nodes,
                codecs,
                transport::delivered_of(c0.transport.in_flight, c0.transport.current_tick),
                replies,
            )
            &&& cluster_model::routes_all(
                cluster_model::after_delivery(c0, nodes),
                routed,
                ids,
                replies,
            )
            &&& cluster_model::timers(routed, timed, ids, ids)
            &&& cluster_model::feeds(timed, flushed, ids, ids)
            &&& c1 == cluster_model::ticked(flushed)
        };
    assert(routed == c0);
    lemma_idle_timers(routed, timed, ids, ids);
    lemma_idle_feeds(timed, flushed, ids, ids);
}

/// Messages that are not due stay in transit, all of them.
proof fn lemma_none_due(flights: Seq<Flight>, tick: u64)
    requires
        forall|i: int| 0 <= i < flights.len() ==> (#[trigger] flights[i]).deliver_at_tick > tick,
    ensures
        transport::delivered_of(flights, tick) == Seq::<Delivery>::empty(),
        transport::corrupted_of(flights, tick) == Seq::<Corruption>::empty(),
        transport::waiting_of(flights, tick) == flights,
    decreases flights.len(),
{
    if flights.len() > 0 {
        assert forall|i: int| 0 <= i < flights.drop_last().len() implies (
        #[trigger] flights.drop_last()[i]).deliver_at_tick > tick by {
            assert(flights[i].deliver_at_tick > tick);
        }
        lemma_none_due(flights.drop_last(), tick);
        assert(flights[flights.len() - 1].deliver_at_tick > tick);
        assert(flights.drop_last().push(flights.last()) =~= flights);
    } else {
        assert(transport::waiting_of(flights, tick) =~= flights);
    }
}

/// A settled cluster stays settled and keeps every state and every view, however long it runs.
pub proof fn settled_cluster_stays_settled<S, V, SV, DV, DA>(
    c0: ClusterModel<S, V>,
    c1: ClusterModel<S, V>,
    codecs: Map<NodeId, (SV, DV, Option<DA>)>,
    ids: Seq<NodeId>,
    n: nat,
) where
    SV: Fn(&V) -> Vec<u8>,
    DV: Fn(&[u8], u32) -> Result<V, DeserializeError>,
    DA: Fn(&[u8], u32, &V) -> Result<V, DeserializeError>,

    requires
        cluster_model::runs(c0, c1, codecs, ids, n),
        forall|i: int| 0 <= i < ids.len() ==> c0.nodes.contains_key(#[trigger] ids[i]),
        c0.settled(),
    ensures
        c1.settled(),
        c1.corrupted == c0.corrupted,
        c1.nodes.dom() == c0.nodes.dom(),
        forall|id: NodeId| #[trigger]
            c1.nodes.contains_key(id) ==> c1.nodes[id].engine == c0.nodes[id].engine,
    decreases n,
{
    if n > 0 {
        let mid = choose|mid: ClusterModel<S, V>|
            cluster_model::runs(c0, mid, codecs, ids, (n - 1) as nat)
                && #[trigger] cluster_model::tick_step(mid, c1, codecs, ids);
        settled_cluster_stays_settled(c0, mid, codecs, ids, (n - 1) as nat);
        assert forall|i: int| 0 <= i < ids.len() implies mid.nodes.contains_key(
            #[trigger] ids[i],
        ) by {
            assert(c0.nodes.contains_key(ids[i]));
        }
        quiet_tick_only_counts(mid, c1, codecs, ids);
        assert forall|id: NodeId| #[trigger]
            c1.nodes.contains_key(id) implies c1.nodes[id].engine == c0.nodes[id].engine
            && c1.nodes[id].scheduled.len() == 0 && c1.nodes[id].engine.feed.len() == 0 by {
            assert(mid.nodes.contains_key(id));
        }
    }
}

/// After a node has been removed it is no node of the cluster, and every node that is left has
/// dropped its view and will not listen to it.
pub proof fn removed_node_is_forgotten<S, V>(
    nodes: Map<NodeId, NodeModel<S, V>>,
    node: NodeId,
    id: NodeId,
)
    requires
        nodes.contains_key(id),
        id != node,
        nodes[id].engine.shard.node_id == id,
    ensures
        !cluster_model::nodes_without(nodes, node).contains_key(node),
        cluster_model::nodes_without(nodes, node).contains_key(id),
        !cluster_model::nodes_without(nodes, node)[id].engine.shard.views.contains_key(node),
        cluster_model::nodes_without(nodes, node)[id].engine.departed.contains(node),
        cluster_model::nodes_without(nodes, node)[id].engine.shard.state
            == nodes[id].engine.shard.state,
{
}

/// `entry` is the placeholder for the view of `node`, with a copy of `default_view`.
pub open spec fn awaits_first_view<V: Clone>(
    entry: StateViewObject<V>,
    node: NodeId,
    default_view: V,
) -> bool {
    &&& cloned(default_view, entry.value)
    &&& entry == shard_core::placeholder(node, entry.value, entry.synced_at)
}

/// `e1` is `e0` after it has been told that the nodes `which` have joined, each with a copy of
/// `default_view` for a first view.
pub open spec fn acquainted<S, V: Clone>(
    e0: EngineModel<S, V>,
    e1: EngineModel<S, V>,
    which: Seq<NodeId>,
    default_view: V,
) -> bool {
    &&& e1 == (EngineModel {
        shard: e0.shard.with_views(e1.shard.views),
        departed: e1.departed,
        diagnostics: e1.diagnostics,
        ..e0
    })
    &&& forall|i: int| 0 <= i < which.len() ==> !e1.departed.contains(#[trigger] which[i])
    &&& e1.departed.subset_of(e0.departed)
    &&& forall|i: int|
        0 <= i < which.len() && which[i] != e0.shard.node_id ==> e1.shard.views.contains_key(
            #[trigger] which[i],
        )
    &&& forall|id: NodeId| #[trigger]
        e1.shard.views.contains_key(id) ==> e0.shard.views.contains_key(id) || which.contains(id)
            && awaits_first_view(e1.shard.views[id], id, default_view)
    &&& forall|id: NodeId| #[trigger]
        e0.shard.views.contains_key(id) ==> e1.shard.views.contains_key(id)
            && e1.shard.views[id] == e0.shard.views[id]
    &&& e1.diagnostics.peers == e0.diagnostics.peers
    &&& e0.diagnostics.metrics.snapshots_sent + which.len() <= u64::MAX ==> e1.diagnostics
        == e0.diagnostics.snapshots_sent(which.len())
}

/// `reply` is the message by which the node `from`, with the engine `e`, sends its own snapshot
/// to `target`.
pub open spec fn greeting<S, V, SV: Fn(&V) -> Vec<u8>>(
    e: EngineModel<S, V>,
    from: NodeId,
    serialize: SV,
    target: NodeId,
    reply: (NodeId, Seq<ActionContent>),
) -> bool {
    &&& reply.0 == from
    &&& exists|data: Vec<u8>| #[trigger]
        call_ensures(serialize, (&e.shard.views[e.shard.node_id].value,), data) && reply.1 == seq![
            ActionContent::SendSync { target, message: e.own_snapshot(data@) },
        ]
}

/// An engine that is told of nodes, in order, gets acquainted with all of them, and sends its
/// snapshot to each.
pub proof fn newcomer_knows_everyone<S, V: Clone, SV: Fn(&V) -> Vec<u8>>(
    e0: EngineModel<S, V>,
    e1: EngineModel<S, V>,
    serialize: SV,
    which: Seq<NodeId>,
    default_view: V,
    replies: Seq<(NodeId, Seq<ActionContent>)>,
)
    requires
        e0.shard.views.contains_key(e0.shard.node_id),
        cluster_model::meets(e0, e1, serialize, which, default_view, replies),
    ensures
        acquainted(e0, e1, which, default_view),
        replies.len() == which.len(),
        forall|i: int|
            0 <= i < which.len() ==> greeting(
                e0,
                e0.shard.node_id,
                serialize,
                which[i],
                #[trigger] replies[i],
            ),
    decreases which.len(),
{
    if which.len() > 0 {
        let rest = which.drop_last();
        let node = which.last();
        let (mid, r) = choose|mid: EngineModel<S, V>, r: Seq<(NodeId, Seq<ActionContent>)>|
            cluster_model::meets(e0, mid, serialize, rest, default_view, r)
                && #[trigger] cluster_model::meet_step(
                mid,
                e1,
                serialize,
                node,
                default_view,
                r,
                replies,
            );
        newcomer_knows_everyone(e0, mid, serialize, rest, default_view, r);
        lemma_one_more(e0, mid, e1, serialize, which, default_view);
        let (view, sent) = choose|view: V, sent: Seq<ActionContent>|
            cloned(default_view, view) && #[trigger] cluster_model::join_step(
                mid,
                e1,
                serialize,
                node,
                view,
                sent,
            ) && replies == cluster_model::with_reply(r, mid.shard.node_id, sent);
        lemma_greets(mid, e1, serialize, node, view, sent);
        assert forall|i: int| 0 <= i < which.len() implies greeting(
            e0,
            e0.shard.node_id,
            serialize,
            which[i],
            #[trigger] replies[i],
        ) by {
            if i < rest.len() {
                assert(replies[i] == r[i]);
                assert(rest[i] == which[i]);
            } else {
                let id = e0.shard.node_id;
                assert(greeting(mid, id, serialize, node, (id, sent)));
                assert(mid.shard.views[id] == e0.shard.views[id]);
            }
        }
    }
}

/// What an engine sends to a node that has joined is its own snapshot.
proof fn lemma_greets<S, V, SV: Fn(&V) -> Vec<u8>>(
    m0: EngineModel<S, V>,
    m1: EngineModel<S, V>,
    serialize: SV,
    node: NodeId,
    view: V,
    sent: Seq<ActionContent>,
)
    requires
        cluster_model::join_step(m0, m1, serialize, node, view, sent),
    ensures
        sent.len() == 1,
        forall|from: NodeId| #[trigger] greeting(m0, from, serialize, node, (from, sent)),
{
    let now = choose|now: Instant|
        (m0.shard.clock.now)(now) && m1 == #[trigger] m0.after_join(node, view, now);
    assert(m1.shard.views[m0.shard.node_id] == m0.shard.views[m0.shard.node_id]);
}

/// An engine acquainted with all but the last of `which` that is told of the last is
/// acquainted with all.
proof fn lemma_one_more<S, V: Clone, SV: Fn(&V) -> Vec<u8>>(
    e0: EngineModel<S, V>,
    mid: EngineModel<S, V>,
    e1: EngineModel<S, V>,
    serialize: SV,
    which: Seq<NodeId>,
    default_view: V,
)
    requires
        which.len() > 0,
        acquainted(e0, mid, which.drop_last(), default_view),
        exists|view: V, sent: Seq<ActionContent>|
            cloned(default_view, view) && #[trigger] cluster_model::join_step(
                mid,
                e1,
                serialize,
                which.last(),
                view,
                sent,
            ),
    ensures
        acquainted(e0, e1, which, default_view),
{
    let rest = which.drop_last();
    let node = which.last();
    let (view, sent) = choose|view: V, sent: Seq<ActionContent>|
        cloned(default_view, view) && #[trigger] cluster_model::join_step(
            mid,
            e1,
            serialize,
            node,
            view,
            sent,
        );
    let now = choose|now: Instant|
        (mid.shard.clock.now)(now) && e1 == #[trigger] mid.after_join(node, view, now);
    assert(which[which.len() - 1] == node);
    assert forall|i: int| 0 <= i < which.len() implies !e1.departed.contains(
        #[trigger] which[i],
    ) by {
        if i < rest.len() {
            assert(rest[i] == which[i]);
        }
    }
    assert forall|i: int|
        0 <= i < which.len() && which[i] != e0.shard.node_id implies e1.shard.views.contains_key(
        #[trigger] which[i],
    ) by {
        if i < rest.len() {
            assert(rest[i] == which[i]);
        }
    }
    assert forall|id: NodeId| #[trigger] e1.shard.views.contains_key(id) implies
        e0.shard.views.contains_key(id) || which.contains(id) && awaits_first_view(
        e1.shard.views[id],
        id,
        default_view,
    ) by {
        if id != node && !e0.shard.views.contains_key(id) {
            assert(mid.shard.views.contains_key(id));
            let k = rest.index_of(id);
            assert(which[k] == id);
        }
    }
}

/// Announcing a newcomer makes every node that is told acquainted with it, and leaves the
/// others as they were.
pub proof fn everyone_knows_the_newcomer<S, V: Clone, SV, DV, DA>(
    n0: Map<NodeId, NodeModel<S, V>>,
    n1: Map<NodeId, NodeModel<S, V>>,
    codecs: Map<NodeId, (SV, DV, Option<DA>)>,
    which: Seq<NodeId>,
    node: NodeId,
    default_view: V,
    replies: Seq<(NodeId, Seq<ActionContent>)>,
) where
    SV: Fn(&V) -> Vec<u8>,
    DV: Fn(&[u8], u32) -> Result<V, DeserializeError>,
    DA: Fn(&[u8], u32, &V) -> Result<V, DeserializeError>,

    requires
        cluster_model::announces(n0, n1, codecs, which, node, default_view, replies),
        crate::node_map::ascending(which),
        forall|i: int| 0 <= i < which.len() ==> n0.contains_key(#[trigger] which[i]),
    ensures
        n1.dom() == n0.dom(),
        forall|id: NodeId| #[trigger]
            n0.contains_key(id) ==> {
                &&& n1[id] == n0[id].with_engine(n1[id].engine)
                &&& if which.contains(id) {
                    acquainted(n0[id].engine, n1[id].engine, seq![node], default_view)
                } else {
                    n1[id] == n0[id]
                }
            },
        replies.len() == which.len(),
        forall|i: int|
            0 <= i < which.len() ==> greeting(
                n0[which[i]].engine,
                which[i],
                codecs[which[i]].0,
                node,
                #[trigger] replies[i],
            ),
    decreases which.len(),
{
    if which.len() > 0 {
        let rest = which.drop_last();
        let last = which.last();
        assert(which[which.len() - 1] == last);
        let (mid, r) = choose|
            mid: Map<NodeId, NodeModel<S, V>>,
            r: Seq<(NodeId, Seq<ActionContent>)>,
        |
            cluster_model::announces(n0, mid, codecs, rest, node, default_view, r)
                && #[trigger] cluster_model::announce_step(
                mid,
                n1,
                codecs,
                last,
                node,
                default_view,
                r,
                replies,
            );
        everyone_knows_the_newcomer(n0, mid, codecs, rest, node, default_view, r);
        assert(!rest.contains(last)) by {
            if rest.contains(last) {
                let k = rest.index_of(last);
                assert(which[k].0 < which[which.len() - 1].0);
            }
        }
        let (view, after, sent) = choose|
            view: V,
            after: EngineModel<S, V>,
            sent: Seq<ActionContent>,
        |
            cloned(default_view, view) && #[trigger] cluster_model::join_step(
                mid[last].engine,
                after,
                codecs[last].0,
                node,
                view,
                sent,
            ) && n1 == mid.insert(last, mid[last].with_engine(after))
                && replies == cluster_model::with_reply(r, last, sent);
        assert(n0.contains_key(last));
        let e0 = n0[last].engine;
        assert(mid[last] == n0[last]);
        assert(seq![node].drop_last() =~= Seq::<NodeId>::empty());
        assert(cluster_model::join_step(
            e0,
            after,
            codecs[last].0,
            seq![node].last(),
            view,
            sent,
        ));
        lemma_one_more(e0, e0, after, codecs[last].0, seq![node], default_view);
        lemma_greets(e0, after, codecs[last].0, node, view, sent);
        assert forall|i: int| 0 <= i < which.len() implies greeting(
            n0[which[i]].engine,
            which[i],
            codecs[which[i]].0,
            node,
            #[trigger] replies[i],
        ) by {
            if i < rest.len() {
                assert(replies[i] == r[i]);
                assert(rest[i] == which[i]);
            } else {
                assert(replies[i] == (last, sent));
            }
        }
        assert(n1.dom() =~= n0.dom());
        assert forall|id: NodeId| #[trigger] n0.contains_key(id) implies {
            &&& n1[id] == n0[id].with_engine(n1[id].engine)
            &&& if which.contains(id) {
                acquainted(n0[id].engine, n1[id].engine, seq![node], default_view)
            } else {
                n1[id] == n0[id]
            }
        } by {
            if id != last {
                if which.contains(id) {
                    let k = which.index_of(id);
                    assert(rest[k] == id);
                } else if rest.contains(id) {
                    let k = rest.index_of(id);
                    assert(which[k] == id);
                }
            }
        }
    }
}

/// The messages in transit that letters, each a single message to one node, become at `tick`.
pub open spec fn posted(replies: Seq<(NodeId, Seq<ActionContent>)>, tick: u64) -> Seq<Flight> {
    Seq::new(
        replies.len(),
        |i: int|
            Flight {
                from: replies[i].0,
                to: replies[i].1[0]->target,
                data: codec::wire_bytes(WireContent::Sync(replies[i].1[0]->SendSync_message)),
                deliver_at_tick: transport::arrival(tick, 0),
            },
    )
}

/// `t1` is the clean network `t0` after the letters `replies` have been posted.
pub open spec fn posts(
    t0: TransportModel,
    t1: TransportModel,
    replies: Seq<(NodeId, Seq<ActionContent>)>,
) -> bool {
    &&& t1 == (TransportModel {
        in_flight: t0.in_flight + posted(replies, t0.current_tick),
        message_counter: t1.message_counter,
        ..t0
    })
    &&& t0.message_counter + replies.len() <= u64::MAX ==> t1.message_counter
        == t0.message_counter + replies.len()
    &&& forall|i: int|
        0 <= i < replies.len() ==> (#[trigger] posted(
            replies,
            t0.current_tick,
        )[i]).data.len() <= u64::MAX
}

/// Each of `replies` is a single message to one node.
pub open spec fn are_letters(replies: Seq<(NodeId, Seq<ActionContent>)>) -> bool {
    forall|i: int|
        0 <= i < replies.len() ==> (#[trigger] replies[i]).1.len() == 1 && replies[i].1[0]
            is SendSync
}

/// Performing letters changes nothing of a cluster but its transport; on a clean network all of
/// them are in transit, in order, as they are.
pub proof fn letters_are_posted<S, V>(
    c0: ClusterModel<S, V>,
    c1: ClusterModel<S, V>,
    ids: Seq<NodeId>,
    replies: Seq<(NodeId, Seq<ActionContent>)>,
)
    requires
        cluster_model::routes_all(c0, c1, ids, replies),
        are_letters(replies),
    ensures
        c1 == c0.with_transport(c1.transport),
        c0.transport.pipeline.len == 0 ==> posts(c0.transport, c1.transport, replies),
    decreases replies.len(),
{
    if replies.len() == 0 {
        assert(c0.transport.in_flight + posted(replies, c0.transport.current_tick)
            =~= c0.transport.in_flight);
    } else {
        let rest = replies.drop_last();
        let reply = replies.last();
        assert(replies[replies.len() - 1] == reply);
        assert forall|i: int| 0 <= i < rest.len() implies (#[trigger] rest[i]).1.len() == 1
            && rest[i].1[0] is SendSync by {
            assert(rest[i] == replies[i]);
        }
        let mid = choose|mid: ClusterModel<S, V>|
            cluster_model::routes_all(c0, mid, ids, rest) && #[trigger] cluster_model::reply_step(
                mid,
                c1,
                ids,
                reply,
            );
        letters_are_posted(c0, mid, ids, rest);
        let start = choose|start: ClusterModel<S, V>|
            cluster_model::routes(mid, start, reply.0, ids, reply.1.drop_last())
                && #[trigger] cluster_model::action_step(start, c1, reply.0, ids, reply.1.last());
        assert(start == mid);
        if c0.transport.pipeline.len == 0 {
            transport_laws::clean_network_takes_message(
                mid.transport,
                c1.transport,
                reply.0,
                reply.1[0]->target,
                codec::wire_bytes(WireContent::Sync(reply.1[0]->SendSync_message)),
            );
            let tick = c0.transport.current_tick;
            assert(c0.transport.in_flight + posted(replies, tick) =~= (c0.transport.in_flight
                + posted(rest, tick)).push(posted(replies, tick).last()));
            assert forall|i: int| 0 <= i < replies.len() implies (#[trigger] posted(
                replies,
                tick,
            )[i]).data.len() <= u64::MAX by {
                if i < rest.len() {
                    assert(posted(replies, tick)[i] == posted(rest, tick)[i]);
                }
            }
        }
    }
}

/// Letters posted after others are posted with them.
proof fn lemma_posts_more(
    t0: TransportModel,
    mid: TransportModel,
    t1: TransportModel,
    r1: Seq<(NodeId, Seq<ActionContent>)>,
    r2: Seq<(NodeId, Seq<ActionContent>)>,
)
    requires
        posts(t0, mid, r1),
        posts(mid, t1, r2),
    ensures
        posts(t0, t1, r1 + r2),
{
    let tick = t0.current_tick;
    assert(posted(r1 + r2, tick) =~= posted(r1, tick) + posted(r2, tick));
    assert(t1.in_flight =~= t0.in_flight + posted(r1 + r2, tick));
    assert forall|i: int| 0 <= i < (r1 + r2).len() implies (#[trigger] posted(
        r1 + r2,
        tick,
    )[i]).data.len() <= u64::MAX by {
        if i < r1.len() {
            assert(posted(r1 + r2, tick)[i] == posted(r1, tick)[i]);
        } else {
            assert(posted(r1 + r2, tick)[i] == posted(r2, tick)[i - r1.len()]);
        }
    }
}

/// The letters by which a cluster with the nodes `ids` and a newcomer with the engine `e0` greet
/// each other: `r1` from the nodes to the newcomer, `r2` from it to them.
pub open spec fn exchanged<S, V, SV, DV, DA>(
    c0: ClusterModel<S, V>,
    codecs: Map<NodeId, (SV, DV, Option<DA>)>,
    ids: Seq<NodeId>,
    e0: EngineModel<S, V>,
    serialize: SV,
    r1: Seq<(NodeId, Seq<ActionContent>)>,
    r2: Seq<(NodeId, Seq<ActionContent>)>,
) -> bool where
    SV: Fn(&V) -> Vec<u8>,
    DV: Fn(&[u8], u32) -> Result<V, DeserializeError>,
    DA: Fn(&[u8], u32, &V) -> Result<V, DeserializeError>,
 {
    &&& r1.len() == ids.len()
    &&& forall|i: int|
        0 <= i < ids.len() ==> greeting(
            c0.nodes[ids[i]].engine,
            ids[i],
            codecs[ids[i]].0,
            e0.shard.node_id,
            #[trigger] r1[i],
        )
    &&& r2.len() == ids.len()
    &&& forall|i: int|
        0 <= i < ids.len() ==> greeting(
            e0,
            e0.shard.node_id,
            serialize,
            ids[i],
            #[trigger] r2[i],
        )
}

/// A node that is added becomes one of the cluster; it knows every node that was there and
/// every one of them knows it, each listens to the other, and no one's own state changes. On a
/// clean network the snapshots by which they greet each other are in transit.
pub proof fn joining_is_mutual<S, V: Clone, SV, DV, DA>(
    c0: ClusterModel<S, V>,
    c1: ClusterModel<S, V>,
    codecs: Map<NodeId, (SV, DV, Option<DA>)>,
    ids: Seq<NodeId>,
    after: Seq<NodeId>,
    e0: EngineModel<S, V>,
    serialize: SV,
    default_view: V,
) where
    SV: Fn(&V) -> Vec<u8>,
    DV: Fn(&[u8], u32) -> Result<V, DeserializeError>,
    DA: Fn(&[u8], u32, &V) -> Result<V, DeserializeError>,

    requires
        e0.shard.views.contains_key(e0.shard.node_id),
        cluster_model::add_step(c0, c1, codecs, ids, after, e0, serialize, default_view),
        crate::node_map::ascending(ids),
        forall|i: int| 0 <= i < ids.len() ==> c0.nodes.contains_key(#[trigger] ids[i]),
        forall|id: NodeId| #[trigger] c0.nodes.contains_key(id) ==> ids.contains(id),
    ensures
        c1.nodes.dom() == c0.nodes.dom().insert(e0.shard.node_id),
        cluster_model::same_network(c0.transport, c1.transport),
        c1.tick_duration == c0.tick_duration,
        c1.current_tick == c0.current_tick,
        c1.corrupted == c0.corrupted,
        acquainted(e0, c1.nodes[e0.shard.node_id].engine, ids, default_view),
        forall|id: NodeId| #[trigger]
            c0.nodes.contains_key(id) && id != e0.shard.node_id ==> acquainted(
                c0.nodes[id].engine,
                c1.nodes[id].engine,
                seq![e0.shard.node_id],
                default_view,
            ),
        c1.nodes[e0.shard.node_id] == (NodeModel {
            engine: c1.nodes[e0.shard.node_id].engine,
            scheduled: Seq::empty(),
            flush_counter: 0,
            flush_interval: cluster_model::flush_ticks(e0, c0.tick_duration),
        }),
        forall|id: NodeId| #[trigger]
            c0.nodes.contains_key(id) && id != e0.shard.node_id ==> c1.nodes[id]
                == c0.nodes[id].with_engine(c1.nodes[id].engine),
        c0.transport.pipeline.len == 0 ==> exists|
            r1: Seq<(NodeId, Seq<ActionContent>)>,
            r2: Seq<(NodeId, Seq<ActionContent>)>,
        | #[trigger]
            exchanged(c0, codecs, ids, e0, serialize, r1, r2) && posts(
                c0.transport,
                c1.transport,
                r1 + r2,
            ),
{
    let node = e0.shard.node_id;
    let (nodes, r1, routed, e1, r2) = choose|
        nodes: Map<NodeId, NodeModel<S, V>>,
        r1: Seq<(NodeId, Seq<ActionContent>)>,
        routed: ClusterModel<S, V>,
        e1: EngineModel<S, V>,
        r2: Seq<(NodeId, Seq<ActionContent>)>,
    |
        #![trigger
            cluster_model::announces(
                c0.nodes,
                nodes,
                codecs,
                ids,
                e0.shard.node_id,
                default_view,
                r1,
            ),
            cluster_model::routes_all(c0.with_nodes(nodes), routed, ids, r1),
            cluster_model::meets(e0, e1, serialize, ids, default_view, r2)]
        {
            &&& cluster_model::announces(
                c0.nodes,
                nodes,
                codecs,
                ids,
                e0.shard.node_id,
                default_view,
                r1,
            )
            &&& cluster_model::routes_all(c0.with_nodes(nodes), routed, ids, r1)
            &&& cluster_model::meets(e0, e1, serialize, ids, default_view, r2)
            &&& cluster_model::routes_all(
                routed.with_nodes(
                    routed.nodes.insert(
                        e0.shard.node_id,
                        NodeModel {
                            engine: e1,
                            scheduled: Seq::empty(),
                            flush_counter: 0,
                            flush_interval: cluster_model::flush_ticks(e0, c0.tick_duration),
                        },
                    ),
                ),
                c1,
                after,
                r2,
            )
        };
    let placed = routed.with_nodes(
        routed.nodes.insert(
            e0.shard.node_id,
            NodeModel {
                engine: e1,
                scheduled: Seq::empty(),
                flush_counter: 0,
                flush_interval: cluster_model::flush_ticks(e0, c0.tick_duration),
            },
        ),
    );
    everyone_knows_the_newcomer(c0.nodes, nodes, codecs, ids, node, default_view, r1);
    replies_keep_engines(c0.with_nodes(nodes), routed, ids, r1);
    newcomer_knows_everyone(e0, e1, serialize, ids, default_view, r2);
    replies_keep_engines(placed, c1, after, r2);
    letters_are_posted(c0.with_nodes(nodes), routed, ids, r1);
    letters_are_posted(placed, c1, after, r2);
    assert(exchanged(c0, codecs, ids, e0, serialize, r1, r2));
    if c0.transport.pipeline.len == 0 {
        lemma_posts_more(c0.transport, routed.transport, c1.transport, r1, r2);
    }
    assert(c1.nodes.dom() =~= c0.nodes.dom().insert(node));
    assert(c1.nodes.contains_key(node));
    assert forall|id: NodeId| #[trigger] c0.nodes.contains_key(id) && id != node implies c1.nodes[
        id
    ].engine == nodes[id].engine by {
        assert(nodes.contains_key(id));
        assert(routed.nodes.contains_key(id));
        assert(c1.nodes.contains_key(id));
    }
}

/// A tick is counted once, by the cluster and by its network; no node comes or goes, and no
/// node's own state changes.
pub proof fn tick_keeps_owned_states<S, V, SV, DV, DA>(
    c0: ClusterModel<S, V>,
    c1: ClusterModel<S, V>,
    codecs: Map<NodeId, (SV, DV, Option<DA>)>,
    ids: Seq<NodeId>,
) where
    SV: Fn(&V) -> Vec<u8>,
    DV: Fn(&[u8], u32) -> Result<V, DeserializeError>,
    DA: Fn(&[u8], u32, &V) -> Result<V, DeserializeError>,

    requires
        cluster_model::tick_step(c0, c1, codecs, ids),
        forall|i: int| 0 <= i < ids.len() ==> c0.nodes.contains_key(#[trigger] ids[i]),
        c0.current_tick < u64::MAX,
        c0.transport.current_tick < u64::MAX,
    ensures
        c1.current_tick == c0.current_tick + 1,
        c1.transport.current_tick == c0.transport.current_tick + 1,
        c1.nodes.dom() == c0.nodes.dom(),
        forall|id: NodeId| #[trigger]
            c1.nodes.contains_key(id) ==> c1.nodes[id].engine.shard.state
                == c0.nodes[id].engine.shard.state && c1.nodes[id].engine.departed
                == c0.nodes[id].engine.departed,
{
    let due = transport::delivered_of(c0.transport.in_flight, c0.transport.current_tick);
    let (nodes, replies, routed, timed, flushed) = choose|
        nodes: Map<NodeId, NodeModel<S, V>>,
        replies: Seq<(NodeId, Seq<ActionContent>)>,
        routed: ClusterModel<S, V>,
        timed: ClusterModel<S, V>,
        flushed: ClusterModel<S, V>,
    |
        #![trigger
            cluster_model::delivers(
                c0.nodes,
                nodes,
                codecs,
                transport::delivered_of(c0.transport.in_flight, c0.transport.current_tick),
                replies,
            ),
            cluster_model::timers(routed, timed, ids, ids),
            cluster_model::feeds(timed, flushed, ids, ids)]
        {
            &&& cluster_model::delivers(
                c0.nodes,
                nodes,
                codecs,
                transport::delivered_of(c0.transport.in_flight, c0.transport.current_tick),
                replies,
            )
            &&& cluster_model::routes_all(
                cluster_model::after_delivery(c0, nodes),
                routed,
                ids,
                replies,
            )
            &&& cluster_model::timers(routed, timed, ids, ids)
            &&& cluster_model::feeds(timed, flushed, ids, ids)
            &&& c1 == cluster_model::ticked(flushed)
        };
    lemma_deliveries_keep_states(c0.nodes, nodes, codecs, due, replies);
    replies_keep_engines(cluster_model::after_delivery(c0, nodes), routed, ids, replies);
    timers_keep_engines(routed, timed, ids, ids);
    feeds_keep_engines(timed, flushed, ids, ids);
    assert forall|id: NodeId| #[trigger] c1.nodes.contains_key(id) implies c1.nodes[
        id
    ].engine.shard.state == c0.nodes[id].engine.shard.state && c1.nodes[id].engine.departed
        == c0.nodes[id].engine.departed by {
        assert(timed.nodes.contains_key(id));
        assert(routed.nodes.contains_key(id));
        assert(nodes.contains_key(id));
    }
}

/// Deliveries change no node's own state.
proof fn lemma_deliveries_keep_states<S, V, SV, DV, DA>(
    n0: Map<NodeId, NodeModel<S, V>>,
    n1: Map<NodeId, NodeModel<S, V>>,
    codecs: Map<NodeId, (SV, DV, Option<DA>)>,
    deliveries: Seq<Delivery>,
    replies: Seq<(NodeId, Seq<ActionContent>)>,
) where
    SV: Fn(&V) -> Vec<u8>,
    DV: Fn(&[u8], u32) -> Result<V, DeserializeError>,
    DA: Fn(&[u8], u32, &V) -> Result<V, DeserializeError>,

    requires
        cluster_model::delivers(n0, n1, codecs, deliveries, replies),
    ensures
        n1.dom() == n0.dom(),
        forall|id: NodeId| #[trigger]
            n1.contains_key(id) ==> n1[id].engine.shard.state == n0[id].engine.shard.state
                && n1[id].engine.departed == n0[id].engine.departed,
    decreases deliveries.len(),
{
    if deliveries.len() > 0 {
        let last = deliveries.last();
        let (mid, r) = choose|
            mid: Map<NodeId, NodeModel<S, V>>,
            r: Seq<(NodeId, Seq<ActionContent>)>,
        |
            cluster_model::delivers(n0, mid, codecs, deliveries.drop_last(), r)
                && #[trigger] cluster_model::delivery_step(mid, n1, codecs, last, r, replies);
        lemma_deliveries_keep_states(n0, mid, codecs, deliveries.drop_last(), r);
        if mid.contains_key(last.to) {
            let node = mid[last.to];
            let (after, sent) = choose|
                after: EngineModel<S, V>,
                sent: Seq<ActionContent>,
            | #[trigger]
                model::inbound_step(node.engine, after, codecs[last.to], last.message, sent) && n1
                    == mid.insert(last.to, node.with_engine(after))
                    && replies == cluster_model::with_reply(r, last.to, sent);
            laws::inbound_keeps_owned_state(
                node.engine,
                after,
                codecs[last.to],
                last.message,
                sent,
            );
        }
        assert(n1.dom() =~= n0.dom());
    }
}

} // verus!
