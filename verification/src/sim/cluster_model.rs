//! What a simulated cluster holds, and what each of its operations does to it.
use vstd::prelude::*;

use crate::codec;
use crate::engine;
use crate::engine::{ActionContent, WireContent};
use crate::engine::model;
use crate::engine::model::EngineModel;
use crate::replica::shard_core;
use crate::sim::transport;
use crate::sim::transport::{Delivery, TransportModel};
use crate::traits::state::SyncUrgency;
use crate::types::errors::DeserializeError;
use crate::types::node::NodeId;
use crate::types::sync_message::{FeedContent, SyncContent};
use crate::types::time::{Duration, Instant};

verus! {

/// What a node of a cluster holds.
pub struct NodeModel<S, V> {
    pub engine: EngineModel<S, V>,
    /// The delayed broadcasts, each with the tick at which it is due.
    pub scheduled: Seq<(SyncContent, u64)>,
    /// Ticks since the change feed was flushed.
    pub flush_counter: u64,
    /// Ticks between flushes of the change feed.
    pub flush_interval: u64,
}

/// What a cluster holds.
pub struct ClusterModel<S, V> {
    pub nodes: Map<NodeId, NodeModel<S, V>>,
    pub transport: TransportModel,
    pub tick_duration: Duration,
    pub current_tick: u64,
    /// The messages that arrived and could not be deserialized.
    pub corrupted: u64,
}

/// The number of whole ticks in `span`; a tick shorter than a millisecond counts as one.
pub open spec fn ticks_in(span: Duration, tick: Duration) -> u64 {
    let unit = if tick.nanos / 1_000_000 < 1 {
        1
    } else {
        tick.nanos / 1_000_000
    };
    ((span.nanos / 1_000_000) as u64) / (unit as u64)
}

/// The tick `delay` after `tick`, or the last one if that is beyond it.
pub open spec fn due_tick(tick: u64, delay: u64) -> u64 {
    if tick + delay > u64::MAX {
        u64::MAX
    } else {
        (tick + delay) as u64
    }
}

/// The messages of `scheduled` that are due at `tick`, in order.
pub open spec fn due_of(scheduled: Seq<(SyncContent, u64)>, tick: u64) -> Seq<SyncContent>
    decreases scheduled.len(),
{
    if scheduled.len() == 0 {
        Seq::empty()
    } else {
        let rest = due_of(scheduled.drop_last(), tick);
        if scheduled.last().1 <= tick {
            rest.push(scheduled.last().0)
        } else {
            rest
        }
    }
}

/// The entries of `scheduled` that are not due at `tick`, in order.
pub open spec fn pending_of(scheduled: Seq<(SyncContent, u64)>, tick: u64) -> Seq<
    (SyncContent, u64),
>
    decreases scheduled.len(),
{
    if scheduled.len() == 0 {
        Seq::empty()
    } else {
        let rest = pending_of(scheduled.drop_last(), tick);
        if scheduled.last().1 <= tick {
            rest
        } else {
            rest.push(scheduled.last())
        }
    }
}

impl<S, V> NodeModel<S, V> {
    /// `self` with another engine.
    pub open spec fn with_engine(self, engine: EngineModel<S, V>) -> Self {
        NodeModel { engine, ..self }
    }
}

impl<S, V> ClusterModel<S, V> {
    /// `self` with another transport.
    pub open spec fn with_transport(self, transport: TransportModel) -> Self {
        ClusterModel { transport, ..self }
    }

    /// `self` with other nodes.
    pub open spec fn with_nodes(self, nodes: Map<NodeId, NodeModel<S, V>>) -> Self {
        ClusterModel { nodes, ..self }
    }

    /// No message is in transit, no delayed broadcast is pending and no change is to be
    /// announced.
    pub open spec fn settled(self) -> bool {
        &&& self.transport.in_flight.len() == 0
        &&& forall|id: NodeId| #[trigger]
            self.nodes.contains_key(id) ==> self.nodes[id].scheduled.len() == 0
                && self.nodes[id].engine.feed.len() == 0
    }

    /// A tick can be counted, and every engine's counters can take what is in transit.
    pub open spec fn can_tick(self) -> bool {
        &&& self.current_tick < u64::MAX
        &&& self.transport.current_tick < u64::MAX
        &&& self.transport.in_flight.len() <= u32::MAX
        &&& forall|id: NodeId| #[trigger]
            self.nodes.contains_key(id) ==> self.nodes[id].engine.diagnostics.has_room(
                self.transport.in_flight.len(),
            )
    }
}

/// `t1` is the network of `t0`, whatever is in transit.
pub open spec fn same_network(t0: TransportModel, t1: TransportModel) -> bool {
    &&& t1.pipeline == t0.pipeline
    &&& t1.current_tick == t0.current_tick
    &&& t1.rng_seed == t0.rng_seed
}

/// `e1` is the engine of `e0`, whatever changes are to be announced.
pub open spec fn same_but_feed<S, V>(e0: EngineModel<S, V>, e1: EngineModel<S, V>) -> bool {
    e1 == (EngineModel { feed: e1.feed, ..e0 })
}

/// `c1` is the cluster of `c0`, whatever is in transit, is scheduled or is to be announced.
pub open spec fn same_but_traffic<S, V>(c0: ClusterModel<S, V>, c1: ClusterModel<S, V>) -> bool {
    &&& same_network(c0.transport, c1.transport)
    &&& c1.tick_duration == c0.tick_duration
    &&& c1.current_tick == c0.current_tick
    &&& c1.corrupted == c0.corrupted
    &&& c1.nodes.dom() == c0.nodes.dom()
    &&& forall|id: NodeId| #[trigger]
        c1.nodes.contains_key(id) ==> same_but_feed(c0.nodes[id].engine, c1.nodes[id].engine)
            && c1.nodes[id].flush_interval == c0.nodes[id].flush_interval
}

/// What performing one engine action of the node `from` does, among the nodes `ids`.
pub open spec fn action_step<S, V>(
    c0: ClusterModel<S, V>,
    c1: ClusterModel<S, V>,
    from: NodeId,
    ids: Seq<NodeId>,
    action: ActionContent,
) -> bool {
    match action {
        ActionContent::BroadcastSync(message) => {
            &&& c1 == c0.with_transport(c1.transport)
            &&& transport::broadcasts(
                c0.transport,
                c1.transport,
                from,
                codec::wire_bytes(WireContent::Sync(message)),
                ids,
            )
        },
        ActionContent::SendSync { target, message } => {
            &&& c1 == c0.with_transport(c1.transport)
            &&& transport::sends(
                c0.transport,
                c1.transport,
                from,
                target,
                codec::wire_bytes(WireContent::Sync(message)),
            )
        },
        ActionContent::ScheduleDelayed { delay, message } => if c0.nodes.contains_key(from) {
            c1 == c0.with_nodes(
                c0.nodes.insert(
                    from,
                    NodeModel {
                        scheduled: c0.nodes[from].scheduled.push(
                            (
                                message,
                                due_tick(c0.current_tick, ticks_in(delay, c0.tick_duration)),
                            ),
                        ),
                        ..c0.nodes[from]
                    },
                ),
            )
        } else {
            c1 == c0
        },
    }
}

/// What performing the engine actions of the node `from`, in order, does.
pub open spec fn routes<S, V>(
    c0: ClusterModel<S, V>,
    c1: ClusterModel<S, V>,
    from: NodeId,
    ids: Seq<NodeId>,
    actions: Seq<ActionContent>,
) -> bool
    decreases actions.len(),
{
    if actions.len() == 0 {
        c1 == c0
    } else {
        exists|mid: ClusterModel<S, V>|
            routes(c0, mid, from, ids, actions.drop_last()) && #[trigger] action_step(
                mid,
                c1,
                from,
                ids,
                actions.last(),
            )
    }
}

/// What performing the actions of one node does.
pub open spec fn reply_step<S, V>(
    c0: ClusterModel<S, V>,
    c1: ClusterModel<S, V>,
    ids: Seq<NodeId>,
    reply: (NodeId, Seq<ActionContent>),
) -> bool {
    routes(c0, c1, reply.0, ids, reply.1)
}

/// What performing the actions of several nodes, one after the other, does.
pub open spec fn routes_all<S, V>(
    c0: ClusterModel<S, V>,
    c1: ClusterModel<S, V>,
    ids: Seq<NodeId>,
    replies: Seq<(NodeId, Seq<ActionContent>)>,
) -> bool
    decreases replies.len(),
{
    if replies.len() == 0 {
        c1 == c0
    } else {
        exists|mid: ClusterModel<S, V>|
            routes_all(c0, mid, ids, replies.drop_last()) && #[trigger] reply_step(
                mid,
                c1,
                ids,
                replies.last(),
            )
    }
}

/// `replies` with the actions `sent` of `node`, if there are any.
pub open spec fn with_reply(
    replies: Seq<(NodeId, Seq<ActionContent>)>,
    node: NodeId,
    sent: Seq<ActionContent>,
) -> Seq<(NodeId, Seq<ActionContent>)> {
    if sent.len() == 0 {
        replies
    } else {
        replies.push((node, sent))
    }
}

/// What delivering one message does to the nodes and adds to their replies: nothing if its
/// target is not in the cluster.
pub open spec fn delivery_step<S, V, SV, DV, DA>(
    n0: Map<NodeId, NodeModel<S, V>>,
    n1: Map<NodeId, NodeModel<S, V>>,
    codecs: Map<NodeId, (SV, DV, Option<DA>)>,
    delivery: Delivery,
    r0: Seq<(NodeId, Seq<ActionContent>)>,
    r1: Seq<(NodeId, Seq<ActionContent>)>,
) -> bool where
    SV: Fn(&V) -> Vec<u8>,
    DV: Fn(&[u8], u32) -> Result<V, DeserializeError>,
    DA: Fn(&[u8], u32, &V) -> Result<V, DeserializeError>,
 {
    if !n0.contains_key(delivery.to) {
        n1 == n0 && r1 == r0
    } else {
        let node = n0[delivery.to];
        exists|after: EngineModel<S, V>, sent: Seq<ActionContent>| #[trigger]
            model::inbound_step(
                node.engine,
                after,
                codecs[delivery.to],
                delivery.message,
                sent,
            ) && n1 == n0.insert(delivery.to, node.with_engine(after)) && r1 == with_reply(
                r0,
                delivery.to,
                sent,
            )
    }
}

/// What delivering messages, in order, does to the nodes, and what the nodes reply.
pub open spec fn delivers<S, V, SV, DV, DA>(
    n0: Map<NodeId, NodeModel<S, V>>,
    n1: Map<NodeId, NodeModel<S, V>>,
    codecs: Map<NodeId, (SV, DV, Option<DA>)>,
    deliveries: Seq<Delivery>,
    replies: Seq<(NodeId, Seq<ActionContent>)>,
) -> bool where
    SV: Fn(&V) -> Vec<u8>,
    DV: Fn(&[u8], u32) -> Result<V, DeserializeError>,
    DA: Fn(&[u8], u32, &V) -> Result<V, DeserializeError>,

    decreases deliveries.len(),
{
    if deliveries.len() == 0 {
        n1 == n0 && replies == Seq::<(NodeId, Seq<ActionContent>)>::empty()
    } else {
        exists|mid: Map<NodeId, NodeModel<S, V>>, r: Seq<(NodeId, Seq<ActionContent>)>|
            delivers(n0, mid, codecs, deliveries.drop_last(), r) && #[trigger] delivery_step(
                mid,
                n1,
                codecs,
                deliveries.last(),
                r,
                replies,
            )
    }
}

/// What broadcasting one synchronization message does to the transport.
pub open spec fn broadcast_step(
    t0: TransportModel,
    t1: TransportModel,
    from: NodeId,
    ids: Seq<NodeId>,
    message: SyncContent,
) -> bool {
    transport::broadcasts(t0, t1, from, codec::wire_bytes(WireContent::Sync(message)), ids)
}

/// What broadcasting synchronization messages, in order, does to the transport.
pub open spec fn broadcasts_each(
    t0: TransportModel,
    t1: TransportModel,
    from: NodeId,
    ids: Seq<NodeId>,
    messages: Seq<SyncContent>,
) -> bool
    decreases messages.len(),
{
    if messages.len() == 0 {
        t1 == t0
    } else {
        exists|mid: TransportModel|
            broadcasts_each(t0, mid, from, ids, messages.drop_last()) && #[trigger] broadcast_step(
                mid,
                t1,
                from,
                ids,
                messages.last(),
            )
    }
}

/// What the timers of the node `id` do: its due messages are broadcast, the others stay.
pub open spec fn timer_step<S, V>(
    c0: ClusterModel<S, V>,
    c1: ClusterModel<S, V>,
    ids: Seq<NodeId>,
    id: NodeId,
) -> bool {
    let node = c0.nodes[id];
    &&& c1 == c0.with_transport(c1.transport).with_nodes(
        c0.nodes.insert(
            id,
            NodeModel { scheduled: pending_of(node.scheduled, c0.current_tick), ..node },
        ),
    )
    &&& broadcasts_each(
        c0.transport,
        c1.transport,
        id,
        ids,
        due_of(node.scheduled, c0.current_tick),
    )
}

/// What the timers of the nodes `which`, in order, do.
pub open spec fn timers<S, V>(
    c0: ClusterModel<S, V>,
    c1: ClusterModel<S, V>,
    ids: Seq<NodeId>,
    which: Seq<NodeId>,
) -> bool
    decreases which.len(),
{
    if which.len() == 0 {
        c1 == c0
    } else {
        exists|mid: ClusterModel<S, V>|
            timers(c0, mid, ids, which.drop_last()) && #[trigger] timer_step(
                mid,
                c1,
                ids,
                which.last(),
            )
    }
}

/// What the change feed of the node `id` does at a tick: it is broadcast and emptied when its
/// interval has passed.
pub open spec fn feed_step<S, V>(
    c0: ClusterModel<S, V>,
    c1: ClusterModel<S, V>,
    ids: Seq<NodeId>,
    id: NodeId,
) -> bool {
    let node = c0.nodes[id];
    let passed = node.flush_counter + 1;
    if passed < node.flush_interval {
        c1 == c0.with_nodes(
            c0.nodes.insert(id, NodeModel { flush_counter: passed as u64, ..node }),
        )
    } else {
        let quiet = EngineModel { feed: Seq::empty(), ..node.engine };
        &&& c1 == c0.with_transport(c1.transport).with_nodes(
            c0.nodes.insert(id, NodeModel { flush_counter: 0, engine: quiet, ..node }),
        )
        &&& if node.engine.feed.len() == 0 {
            c1.transport == c0.transport
        } else {
            transport::broadcasts(
                c0.transport,
                c1.transport,
                id,
                codec::wire_bytes(
                    WireContent::Feed(
                        FeedContent {
                            source_node: node.engine.shard.node_id,
                            notifications: node.engine.feed,
                        },
                    ),
                ),
                ids,
            )
        }
    }
}

/// What the change feeds of the nodes `which`, in order, do at a tick.
pub open spec fn feeds<S, V>(
    c0: ClusterModel<S, V>,
    c1: ClusterModel<S, V>,
    ids: Seq<NodeId>,
    which: Seq<NodeId>,
) -> bool
    decreases which.len(),
{
    if which.len() == 0 {
        c1 == c0
    } else {
        exists|mid: ClusterModel<S, V>|
            feeds(c0, mid, ids, which.drop_last()) && #[trigger] feed_step(
                mid,
                c1,
                ids,
                which.last(),
            )
    }
}

/// `a + n`, or the largest number if that is beyond it.
pub open spec fn capped_sum(a: u64, n: nat) -> u64 {
    if a + n > u64::MAX {
        u64::MAX
    } else {
        (a + n) as u64
    }
}

/// The cluster after the messages that are due have been taken out of the transport, with the
/// nodes `nodes`.
pub open spec fn after_delivery<S, V>(
    c: ClusterModel<S, V>,
    nodes: Map<NodeId, NodeModel<S, V>>,
) -> ClusterModel<S, V> {
    ClusterModel {
        nodes,
        transport: TransportModel {
            in_flight: transport::waiting_of(c.transport.in_flight, c.transport.current_tick),
            ..c.transport
        },
        corrupted: capped_sum(
            c.corrupted,
            transport::corrupted_of(c.transport.in_flight, c.transport.current_tick).len(),
        ),
        ..c
    }
}

/// The cluster with the tick counted.
pub open spec fn ticked<S, V>(c: ClusterModel<S, V>) -> ClusterModel<S, V> {
    ClusterModel {
        transport: TransportModel {
            current_tick: (c.transport.current_tick + 1) as u64,
            ..c.transport
        },
        current_tick: (c.current_tick + 1) as u64,
        ..c
    }
}

/// What one tick does. In this order: the messages that are due are delivered, the replies of
/// the nodes are routed, the timers fire, the change feeds are flushed, and time advances.
pub open spec fn tick_step<S, V, SV, DV, DA>(
    c0: ClusterModel<S, V>,
    c1: ClusterModel<S, V>,
    codecs: Map<NodeId, (SV, DV, Option<DA>)>,
    ids: Seq<NodeId>,
) -> bool where
    SV: Fn(&V) -> Vec<u8>,
    DV: Fn(&[u8], u32) -> Result<V, DeserializeError>,
    DA: Fn(&[u8], u32, &V) -> Result<V, DeserializeError>,
 {
    exists|
        nodes: Map<NodeId, NodeModel<S, V>>,
        replies: Seq<(NodeId, Seq<ActionContent>)>,
        routed: ClusterModel<S, V>,
        timed: ClusterModel<S, V>,
        flushed: ClusterModel<S, V>,
    |
        #![trigger
            delivers(
                c0.nodes,
                nodes,
                codecs,
                transport::delivered_of(c0.transport.in_flight, c0.transport.current_tick),
                replies,
            ),
            timers(routed, timed, ids, ids),
            feeds(timed, flushed, ids, ids)]
        {
            &&& delivers(
                c0.nodes,
                nodes,
                codecs,
                transport::delivered_of(c0.transport.in_flight, c0.transport.current_tick),
                replies,
            )
            &&& routes_all(after_delivery(c0, nodes), routed, ids, replies)
            &&& timers(routed, timed, ids, ids)
            &&& feeds(timed, flushed, ids, ids)
            &&& c1 == ticked(flushed)
        }
}

/// What `n` ticks do.
pub open spec fn runs<S, V, SV, DV, DA>(
    c0: ClusterModel<S, V>,
    c1: ClusterModel<S, V>,
    codecs: Map<NodeId, (SV, DV, Option<DA>)>,
    ids: Seq<NodeId>,
    n: nat,
) -> bool where
    SV: Fn(&V) -> Vec<u8>,
    DV: Fn(&[u8], u32) -> Result<V, DeserializeError>,
    DA: Fn(&[u8], u32, &V) -> Result<V, DeserializeError>,

    decreases n,
{
    if n == 0 {
        c1 == c0
    } else {
        exists|mid: ClusterModel<S, V>|
            runs(c0, mid, codecs, ids, (n - 1) as nat) && #[trigger] tick_step(
                mid,
                c1,
                codecs,
                ids,
            )
    }
}

/// What `n` ticks do, none of them on a settled cluster.
pub open spec fn works<S, V, SV, DV, DA>(
    c0: ClusterModel<S, V>,
    c1: ClusterModel<S, V>,
    codecs: Map<NodeId, (SV, DV, Option<DA>)>,
    ids: Seq<NodeId>,
    n: nat,
) -> bool where
    SV: Fn(&V) -> Vec<u8>,
    DV: Fn(&[u8], u32) -> Result<V, DeserializeError>,
    DA: Fn(&[u8], u32, &V) -> Result<V, DeserializeError>,

    decreases n,
{
    if n == 0 {
        c1 == c0
    } else {
        exists|mid: ClusterModel<S, V>|
            works(c0, mid, codecs, ids, (n - 1) as nat) && !mid.settled() && #[trigger] tick_step(
                mid,
                c1,
                codecs,
                ids,
            )
    }
}

/// What the joining of `node` does to an engine, and what the engine sends it.
pub open spec fn join_step<S, V, SV: Fn(&V) -> Vec<u8>>(
    m0: EngineModel<S, V>,
    m1: EngineModel<S, V>,
    serialize: SV,
    node: NodeId,
    default_view: V,
    sent: Seq<ActionContent>,
) -> bool {
    &&& exists|now: Instant|
        (m0.shard.clock.now)(now) && m1 == #[trigger] m0.after_join(node, default_view, now)
    &&& exists|data: Vec<u8>| #[trigger]
        call_ensures(serialize, (&m1.shard.views[m0.shard.node_id].value,), data) && sent == seq![
            ActionContent::SendSync { target: node, message: m0.own_snapshot(data@) },
        ]
}

/// What announcing the new node `node` to the existing node `id` does.
pub open spec fn announce_step<S, V: Clone, SV, DV, DA>(
    n0: Map<NodeId, NodeModel<S, V>>,
    n1: Map<NodeId, NodeModel<S, V>>,
    codecs: Map<NodeId, (SV, DV, Option<DA>)>,
    id: NodeId,
    node: NodeId,
    default_view: V,
    r0: Seq<(NodeId, Seq<ActionContent>)>,
    r1: Seq<(NodeId, Seq<ActionContent>)>,
) -> bool where
    SV: Fn(&V) -> Vec<u8>,
    DV: Fn(&[u8], u32) -> Result<V, DeserializeError>,
    DA: Fn(&[u8], u32, &V) -> Result<V, DeserializeError>,
 {
    exists|view: V, after: EngineModel<S, V>, sent: Seq<ActionContent>|
        cloned(default_view, view) && #[trigger] join_step(
            n0[id].engine,
            after,
            codecs[id].0,
            node,
            view,
            sent,
        ) && n1 == n0.insert(id, n0[id].with_engine(after)) && r1 == with_reply(r0, id, sent)
}

/// What announcing the new node `node` to the existing nodes `which`, in order, does.
pub open spec fn announces<S, V: Clone, SV, DV, DA>(
    n0: Map<NodeId, NodeModel<S, V>>,
    n1: Map<NodeId, NodeModel<S, V>>,
    codecs: Map<NodeId, (SV, DV, Option<DA>)>,
    which: Seq<NodeId>,
    node: NodeId,
    default_view: V,
    replies: Seq<(NodeId, Seq<ActionContent>)>,
) -> bool where
    SV: Fn(&V) -> Vec<u8>,
    DV: Fn(&[u8], u32) -> Result<V, DeserializeError>,
    DA: Fn(&[u8], u32, &V) -> Result<V, DeserializeError>,

    decreases which.len(),
{
    if which.len() == 0 {
        n1 == n0 && replies == Seq::<(NodeId, Seq<ActionContent>)>::empty()
    } else {
        exists|mid: Map<NodeId, NodeModel<S, V>>, r: Seq<(NodeId, Seq<ActionContent>)>|
            announces(n0, mid, codecs, which.drop_last(), node, default_view, r)
                && #[trigger] announce_step(
                mid,
                n1,
                codecs,
                which.last(),
                node,
                default_view,
                r,
                replies,
            )
    }
}

/// What announcing the existing node `id` to a new engine does.
pub open spec fn meet_step<S, V: Clone, SV: Fn(&V) -> Vec<u8>>(
    m0: EngineModel<S, V>,
    m1: EngineModel<S, V>,
    serialize: SV,
    id: NodeId,
    default_view: V,
    r0: Seq<(NodeId, Seq<ActionContent>)>,
    r1: Seq<(NodeId, Seq<ActionContent>)>,
) -> bool {
    exists|view: V, sent: Seq<ActionContent>|
        cloned(default_view, view) && #[trigger] join_step(
            m0,
            m1,
            serialize,
            id,
            view,
            sent,
        ) && r1 == with_reply(r0, m0.shard.node_id, sent)
}

/// What announcing the existing nodes `which`, in order, to a new engine does.
pub open spec fn meets<S, V: Clone, SV: Fn(&V) -> Vec<u8>>(
    m0: EngineModel<S, V>,
    m1: EngineModel<S, V>,
    serialize: SV,
    which: Seq<NodeId>,
    default_view: V,
    replies: Seq<(NodeId, Seq<ActionContent>)>,
) -> bool
    decreases which.len(),
{
    if which.len() == 0 {
        m1 == m0 && replies == Seq::<(NodeId, Seq<ActionContent>)>::empty()
    } else {
        exists|mid: EngineModel<S, V>, r: Seq<(NodeId, Seq<ActionContent>)>|
            meets(m0, mid, serialize, which.drop_last(), default_view, r) && #[trigger] meet_step(
                mid,
                m1,
                serialize,
                which.last(),
                default_view,
                r,
                replies,
            )
    }
}

/// The ticks between the flushes of an engine's change feed: at least one.
pub open spec fn flush_ticks<S, V>(engine: EngineModel<S, V>, tick: Duration) -> u64 {
    let ticks = ticks_in(engine.strategy.change_feed.batch_interval, tick);
    if ticks < 1 {
        1
    } else {
        ticks
    }
}

/// What adding a node with the engine `e0` does: it is announced to the existing nodes `ids`,
/// their answers are routed, they are announced to it, it is put in place, and its answers are
/// routed among the nodes `after`.
pub open spec fn add_step<S, V: Clone, SV, DV, DA>(
    c0: ClusterModel<S, V>,
    c1: ClusterModel<S, V>,
    codecs: Map<NodeId, (SV, DV, Option<DA>)>,
    ids: Seq<NodeId>,
    after: Seq<NodeId>,
    e0: EngineModel<S, V>,
    serialize: SV,
    default_view: V,
) -> bool where
    SV: Fn(&V) -> Vec<u8>,
    DV: Fn(&[u8], u32) -> Result<V, DeserializeError>,
    DA: Fn(&[u8], u32, &V) -> Result<V, DeserializeError>,
 {
    exists|
        nodes: Map<NodeId, NodeModel<S, V>>,
        r1: Seq<(NodeId, Seq<ActionContent>)>,
        routed: ClusterModel<S, V>,
        e1: EngineModel<S, V>,
        r2: Seq<(NodeId, Seq<ActionContent>)>,
    |
        #![trigger
            announces(c0.nodes, nodes, codecs, ids, e0.shard.node_id, default_view, r1),
            routes_all(c0.with_nodes(nodes), routed, ids, r1),
            meets(e0, e1, serialize, ids, default_view, r2)]
        {
            &&& announces(c0.nodes, nodes, codecs, ids, e0.shard.node_id, default_view, r1)
            &&& routes_all(c0.with_nodes(nodes), routed, ids, r1)
            &&& meets(e0, e1, serialize, ids, default_view, r2)
            &&& routes_all(
                routed.with_nodes(
                    routed.nodes.insert(
                        e0.shard.node_id,
                        NodeModel {
                            engine: e1,
                            scheduled: Seq::empty(),
                            flush_counter: 0,
                            flush_interval: flush_ticks(e0, c0.tick_duration),
                        },
                    ),
                ),
                c1,
                after,
                r2,
            )
        }
}

/// The nodes after `node` has left: it is gone, and every other engine has been told.
pub open spec fn nodes_without<S, V>(nodes: Map<NodeId, NodeModel<S, V>>, node: NodeId) -> Map<
    NodeId,
    NodeModel<S, V>,
> {
    nodes.remove(node).map_values(|n: NodeModel<S, V>| n.with_engine(n.engine.after_leave(node)))
}

/// What a mutation on the node `id` does to the cluster: its engine takes it in, and what the
/// engine sends is routed.
pub open spec fn mutate_step<S, V: Clone, P, SV>(
    c0: ClusterModel<S, V>,
    c1: ClusterModel<S, V>,
    serialize: SV,
    ids: Seq<NodeId>,
    id: NodeId,
    project: P,
    urgency: SyncUrgency,
) -> bool where P: FnOnce(&S) -> V, SV: Fn(&V) -> Vec<u8> {
    let m0 = c0.nodes[id].engine;
    let m1 = c1.nodes[id].engine;
    exists|view: V, sent: Seq<ActionContent>|
        shard_core::mutation_step(m0.shard, m1.shard, project, view)
            && #[trigger] engine::mutate_sends(m0, m1, serialize, view, urgency, sent) && routes(
            c0.with_nodes(c0.nodes.insert(id, c0.nodes[id].with_engine(m1))),
            c1,
            id,
            ids,
            sent,
        )
}

} // verus!
