//! What a tick of a simulated cluster is for, said of messages, timers and feeds.
use vstd::prelude::*;

use crate::codec;
use crate::engine::{ActionContent, WireContent};
use crate::engine::effect_laws;
use crate::engine::laws;
use crate::engine::model;
use crate::engine::model::EngineModel;
use crate::sim::{cluster_laws, cluster_model, convergence, transport, transport_laws};
use crate::sim::cluster_model::{ClusterModel, NodeModel};
use crate::sim::transport::{Delivery, Flight, TransportModel};
use crate::traits::state::SyncUrgency;
use crate::types::errors::DeserializeError;
use crate::types::node::NodeId;
use crate::types::sync_message::{FeedContent, SyncContent};
use crate::types::time::{Duration, Instant};

verus! {

/// A span is as many ticks as fit into it, in whole milliseconds; a tick shorter than a
/// millisecond counts as one.
pub proof fn span_is_counted_in_whole_ticks(span: Duration, tick: Duration)
    requires
        span.nanos / 1_000_000 <= u64::MAX,
        tick.nanos / 1_000_000 <= u64::MAX,
    ensures
        ({
            let ms = span.nanos / 1_000_000;
            let unit = if tick.nanos < 1_000_000 {
                1int
            } else {
                (tick.nanos / 1_000_000) as int
            };
            let n = cluster_model::ticks_in(span, tick);
            n * unit <= ms < (n + 1) * unit
        }),
{
    let ms = span.nanos / 1_000_000;
    let unit = if tick.nanos < 1_000_000 {
        1int
    } else {
        (tick.nanos / 1_000_000) as int
    };
    let n = cluster_model::ticks_in(span, tick);
    assert(n == ms as int / unit);
    assert(n * unit <= ms < (n + 1) * unit) by (nonlinear_arith)
        requires
            n == ms as int / unit,
            unit >= 1,
            ms >= 0,
    ;
}

/// What is due at a tick is what was scheduled for it or before, in order; the rest stays.
pub proof fn timers_part_due_from_pending(scheduled: Seq<(SyncContent, u64)>, tick: u64)
    ensures
        ({
            let due = scheduled.filter(|entry: (SyncContent, u64)| entry.1 <= tick);
            &&& cluster_model::due_of(scheduled, tick).len() == due.len()
            &&& forall|i: int|
                0 <= i < due.len() ==> #[trigger] cluster_model::due_of(scheduled, tick)[i]
                    == due[i].0
            &&& cluster_model::pending_of(scheduled, tick) == scheduled.filter(
                |entry: (SyncContent, u64)| entry.1 > tick,
            )
        }),
    decreases scheduled.len(),
{
    reveal(Seq::filter);
    if scheduled.len() > 0 {
        let rest = scheduled.drop_last();
        timers_part_due_from_pending(rest, tick);
        let p = |entry: (SyncContent, u64)| entry.1 <= tick;
        let (due, earlier) = (scheduled.filter(p), rest.filter(p));
        let (d1, d0) = (
            cluster_model::due_of(scheduled, tick),
            cluster_model::due_of(rest, tick),
        );
        assert forall|i: int| 0 <= i < due.len() implies #[trigger] d1[i] == due[i].0 by {
            if i < earlier.len() {
                assert(d1[i] == d0[i]);
                assert(due[i] == earlier[i]);
            }
        }
    }
}

/// A delayed mutation sends nothing yet, and schedules one snapshot of the owner's new state for
/// the tick after as many as fit into the delay. Nothing else of the cluster changes but the
/// owner's engine.
pub proof fn delayed_mutation_is_scheduled<S, V: Clone, P, SV>(
    c0: ClusterModel<S, V>,
    c1: ClusterModel<S, V>,
    serialize: SV,
    ids: Seq<NodeId>,
    id: NodeId,
    project: P,
    delay: Duration,
) where P: FnOnce(&S) -> V, SV: Fn(&V) -> Vec<u8>
    requires
        c0.nodes.contains_key(id),
        crate::replica::change_feed_logic::distinct_subjects(c0.nodes[id].engine.feed),
        c1.nodes[id].engine.shard.clock == c0.nodes[id].engine.shard.clock,
        cluster_model::mutate_step(
            c0,
            c1,
            serialize,
            ids,
            id,
            project,
            SyncUrgency::Delayed(delay),
        ),
    ensures
        c1.transport == c0.transport,
        c1.nodes.dom() == c0.nodes.dom(),
        forall|other: NodeId| other != id ==> #[trigger] c1.nodes[other] == c0.nodes[other],
        ({
            let before = c0.nodes[id].scheduled;
            let after = c1.nodes[id].scheduled;
            let ticks = cluster_model::ticks_in(delay, c0.tick_duration);
            &&& after.len() == before.len() + 1
            &&& after.drop_last() == before
            &&& after.last().1 == if c0.current_tick + ticks > u64::MAX {
                u64::MAX as int
            } else {
                c0.current_tick + ticks
            }
            &&& exists|view: V, data: Vec<u8>|
                call_ensures(
                    project,
                    (&c1.nodes[id].engine.shard.state.value,),
                    view,
                ) && #[trigger] call_ensures(serialize, (&view,), data)
                    && effect_laws::is_own_snapshot(
                    after.last().0,
                    c1.nodes[id].engine,
                    data@,
                )
        }),
{
    let m0 = c0.nodes[id].engine;
    let m1 = c1.nodes[id].engine;
    let urgency = SyncUrgency::Delayed(delay);
    let mid = c0.with_nodes(c0.nodes.insert(id, c0.nodes[id].with_engine(m1)));
    let (view, sent) = choose|view: V, sent: Seq<ActionContent>|
        crate::replica::shard_core::mutation_step(m0.shard, m1.shard, project, view)
            && #[trigger] crate::engine::mutate_sends(m0, m1, serialize, view, urgency, sent)
            && cluster_model::routes(mid, c1, id, ids, sent);
    effect_laws::mutation_is_synchronized(m0, m1, serialize, view, urgency, sent);
    let data = choose|data: Vec<u8>| #[trigger]
        call_ensures(serialize, (&view,), data) && effect_laws::is_own_snapshot(
            sent[0]->ScheduleDelayed_message,
            m1,
            data@,
        );
    assert(sent.drop_last() =~= Seq::<ActionContent>::empty());
    let between = choose|between: ClusterModel<S, V>|
        cluster_model::routes(mid, between, id, ids, sent.drop_last())
            && #[trigger] cluster_model::action_step(between, c1, id, ids, sent.last());
    assert(between == mid);
    assert(sent.last() == sent[0]);
    assert(c1.nodes.dom() =~= c0.nodes.dom());
    assert(c1.nodes[id].scheduled.drop_last() =~= c0.nodes[id].scheduled);
    assert(call_ensures(serialize, (&view,), data));
}

/// What the nodes answer are single messages to one node.
proof fn lemma_answers_are_letters<S, V, SV, DV, DA>(
    n0: Map<NodeId, NodeModel<S, V>>,
    n1: Map<NodeId, NodeModel<S, V>>,
    codecs: Map<NodeId, (SV, DV, Option<DA>)>,
    deliveries: Seq<Delivery>,
    replies: Seq<(NodeId, Seq<ActionContent>)>,
) where
    SV: Fn(&V) -> Vec<u8>,
    DV: Fn(&[u8], u32) -> Result<V, DeserializeError>,
    DA: Fn(&[u8], u32, &V) -> Result<V, DeserializeError>,

    requires
        cluster_model::delivers(n0, n1, codecs, deliveries, replies),
    ensures
        cluster_laws::are_letters(replies),
        n1.dom() == n0.dom(),
        forall|id: NodeId| #[trigger]
            n0.contains_key(id) ==> n1[id] == n0[id].with_engine(n1[id].engine)
                && n1[id].engine.feed == n0[id].engine.feed && n1[id].engine.shard.node_id
                == n0[id].engine.shard.node_id,
    decreases deliveries.len(),
{
    if deliveries.len() > 0 {
        let last = deliveries.last();
        let (mid, r) = choose|
            mid: Map<NodeId, NodeModel<S, V>>,
            r: Seq<(NodeId, Seq<ActionContent>)>,
        |
            cluster_model::delivers(n0, mid, codecs, deliveries.drop_last(), r)
                && #[trigger] cluster_model::delivery_step(mid, n1, codecs, last, r, replies);
        lemma_answers_are_letters(n0, mid, codecs, deliveries.drop_last(), r);
        if mid.contains_key(last.to) {
            let node = mid[last.to];
            let (after, sent) = choose|
                after: EngineModel<S, V>,
                sent: Seq<ActionContent>,
            | #[trigger]
                model::inbound_step(node.engine, after, codecs[last.to], last.message, sent) && n1
                    == mid.insert(last.to, node.with_engine(after)) && replies
                    == cluster_model::with_reply(r, last.to, sent);
            laws::inbound_keeps_owned_state(
                node.engine,
                after,
                codecs[last.to],
                last.message,
                sent,
            );
            assert(sent.len() <= 1 && (sent.len() == 1 ==> sent[0] is SendSync));
            assert forall|i: int| 0 <= i < replies.len() implies (#[trigger] replies[i]).1.len()
                == 1 && replies[i].1[0] is SendSync by {
                if i < r.len() {
                    assert(replies[i] == r[i]);
                }
            }
            assert(n1.dom() =~= n0.dom());
        }
    }
}

/// What the node `from` broadcasts to the nodes `ids` is in transit to `to`, for the next tick.
pub open spec fn copy_in_transit(
    t: TransportModel,
    from: NodeId,
    to: NodeId,
    content: WireContent,
) -> bool {
    t.in_flight.contains(
        Flight {
            from,
            to,
            data: codec::wire_bytes(content),
            deliver_at_tick: transport::arrival(t.current_tick, 0),
        },
    )
}

/// `t1` is the clean network `t0` with more in transit.
spec fn has_grown(t0: TransportModel, t1: TransportModel) -> bool {
    &&& cluster_model::same_network(t0, t1)
    &&& t0.in_flight.is_prefix_of(t1.in_flight)
}

/// What is in transit stays so while the network grows.
proof fn lemma_stays_in_transit(t0: TransportModel, t1: TransportModel, f: Flight)
    requires
        has_grown(t0, t1),
        t0.in_flight.contains(f),
    ensures
        t1.in_flight.contains(f),
{
    let k = t0.in_flight.index_of(f);
    assert(t1.in_flight[k] == f);
}

/// A broadcast on a clean network has a copy in transit to every other node.
proof fn lemma_broadcast_copies(
    t0: TransportModel,
    t1: TransportModel,
    from: NodeId,
    content: WireContent,
    ids: Seq<NodeId>,
)
    requires
        t0.pipeline.len == 0,
        transport::broadcasts(t0, t1, from, codec::wire_bytes(content), ids),
    ensures
        has_grown(t0, t1),
        forall|to: NodeId| #[trigger]
            ids.contains(to) && to != from ==> copy_in_transit(t1, from, to, content),
    decreases ids.len(),
{
    if ids.len() > 0 {
        let rest = ids.drop_last();
        let last = ids.last();
        let data = codec::wire_bytes(content);
        let mid = choose|mid: TransportModel|
            transport::broadcasts(t0, mid, from, data, rest)
                && #[trigger] transport::sends_to_other(mid, t1, from, last, data);
        lemma_broadcast_copies(t0, mid, from, content, rest);
        if last != from {
            transport_laws::clean_network_takes_message(mid, t1, from, last, data);
            assert(t1.in_flight[mid.in_flight.len() as int] == t1.in_flight.last());
        }
        assert(has_grown(mid, t1));
        assert forall|to: NodeId| #[trigger] ids.contains(to) && to != from implies
            copy_in_transit(t1, from, to, content) by {
            if to != last {
                let k = ids.index_of(to);
                assert(rest[k] == to);
                assert(rest.contains(to));
                assert(copy_in_transit(mid, from, to, content));
                let f = Flight {
                    from,
                    to,
                    data,
                    deliver_at_tick: transport::arrival(t0.current_tick, 0),
                };
                lemma_stays_in_transit(mid, t1, f);
            }
        }
    }
}

/// Several broadcasts on a clean network each have a copy in transit to every other node.
proof fn lemma_broadcasts_copies(
    t0: TransportModel,
    t1: TransportModel,
    from: NodeId,
    ids: Seq<NodeId>,
    messages: Seq<SyncContent>,
)
    requires
        t0.pipeline.len == 0,
        cluster_model::broadcasts_each(t0, t1, from, ids, messages),
    ensures
        has_grown(t0, t1),
        forall|i: int, to: NodeId|
            0 <= i < messages.len() && #[trigger] ids.contains(to) && to != from
                ==> copy_in_transit(t1, from, to, WireContent::Sync(#[trigger] messages[i])),
    decreases messages.len(),
{
    if messages.len() > 0 {
        let rest = messages.drop_last();
        let mid = choose|mid: TransportModel|
            cluster_model::broadcasts_each(t0, mid, from, ids, rest)
                && #[trigger] cluster_model::broadcast_step(mid, t1, from, ids, messages.last());
        lemma_broadcasts_copies(t0, mid, from, ids, rest);
        lemma_broadcast_copies(mid, t1, from, WireContent::Sync(messages.last()), ids);
        assert forall|i: int, to: NodeId|
            0 <= i < messages.len() && #[trigger] ids.contains(to) && to != from implies
            copy_in_transit(t1, from, to, WireContent::Sync(#[trigger] messages[i])) by {
            if i < rest.len() {
                assert(rest[i] == messages[i]);
                assert(copy_in_transit(mid, from, to, WireContent::Sync(rest[i])));
                let f = Flight {
                    from,
                    to,
                    data: codec::wire_bytes(WireContent::Sync(rest[i])),
                    deliver_at_tick: transport::arrival(t0.current_tick, 0),
                };
                lemma_stays_in_transit(mid, t1, f);
            }
        }
    }
}

/// What the timers of distinct nodes do: each of them broadcasts what is due and keeps the rest.
proof fn lemma_timers_fire<S, V>(
    c0: ClusterModel<S, V>,
    c1: ClusterModel<S, V>,
    ids: Seq<NodeId>,
    which: Seq<NodeId>,
)
    requires
        crate::node_map::ascending(which),
        forall|i: int| 0 <= i < which.len() ==> c0.nodes.contains_key(#[trigger] which[i]),
        cluster_model::timers(c0, c1, ids, which),
    ensures
        c1 == c0.with_transport(c1.transport).with_nodes(c1.nodes),
        c1.nodes.dom() == c0.nodes.dom(),
        forall|id: NodeId| #[trigger]
            c0.nodes.contains_key(id) ==> c1.nodes[id] == (NodeModel {
                scheduled: if which.contains(id) {
                    cluster_model::pending_of(c0.nodes[id].scheduled, c0.current_tick)
                } else {
                    c0.nodes[id].scheduled
                },
                ..c0.nodes[id]
            }),
        c0.transport.pipeline.len == 0 ==> has_grown(c0.transport, c1.transport) && forall|
            id: NodeId,
            to: NodeId,
            i: int,
        |
            which.contains(id) && #[trigger] ids.contains(to) && to != id && 0 <= i
                < cluster_model::due_of(c0.nodes[id].scheduled, c0.current_tick).len()
                ==> copy_in_transit(
                c1.transport,
                id,
                to,
                WireContent::Sync(
                    #[trigger] cluster_model::due_of(
                        c0.nodes[id].scheduled,
                        c0.current_tick,
                    )[i],
                ),
            ),
    decreases which.len(),
{
    if which.len() > 0 {
        let rest = which.drop_last();
        let last = which.last();
        assert(which[which.len() - 1] == last);
        let mid = choose|mid: ClusterModel<S, V>|
            cluster_model::timers(c0, mid, ids, rest) && #[trigger] cluster_model::timer_step(
                mid,
                c1,
                ids,
                last,
            );
        lemma_timers_fire(c0, mid, ids, rest);
        assert(!rest.contains(last)) by {
            if rest.contains(last) {
                let k = rest.index_of(last);
                assert(which[k].0 < which[which.len() - 1].0);
            }
        }
        assert(c0.nodes.contains_key(last));
        assert(mid.nodes[last] == c0.nodes[last]);
        let due = cluster_model::due_of(c0.nodes[last].scheduled, c0.current_tick);
        assert(c1.nodes.dom() =~= c0.nodes.dom());
        assert forall|id: NodeId| #[trigger] c0.nodes.contains_key(id) implies c1.nodes[id] == (
        NodeModel {
            scheduled: if which.contains(id) {
                cluster_model::pending_of(c0.nodes[id].scheduled, c0.current_tick)
            } else {
                c0.nodes[id].scheduled
            },
            ..c0.nodes[id]
        }) by {
            lemma_one_of(which, id);
        }
        if c0.transport.pipeline.len == 0 {
            lemma_broadcasts_copies(mid.transport, c1.transport, last, ids, due);
            assert forall|id: NodeId, to: NodeId, i: int|
                which.contains(id) && #[trigger] ids.contains(to) && to != id && 0 <= i
                    < cluster_model::due_of(
                    c0.nodes[id].scheduled,
                    c0.current_tick,
                ).len() implies copy_in_transit(
                c1.transport,
                id,
                to,
                WireContent::Sync(
                    #[trigger] cluster_model::due_of(
                        c0.nodes[id].scheduled,
                        c0.current_tick,
                    )[i],
                ),
            ) by {
                lemma_one_of(which, id);
                if id != last {
                    let m = cluster_model::due_of(c0.nodes[id].scheduled, c0.current_tick)[i];
                    assert(copy_in_transit(mid.transport, id, to, WireContent::Sync(m)));
                    let f = Flight {
                        from: id,
                        to,
                        data: codec::wire_bytes(WireContent::Sync(m)),
                        deliver_at_tick: transport::arrival(c0.transport.current_tick, 0),
                    };
                    lemma_stays_in_transit(mid.transport, c1.transport, f);
                }
            }
        }
    }
}

/// An id of a list is its last or one of the others.
proof fn lemma_one_of(which: Seq<NodeId>, id: NodeId)
    requires
        which.len() > 0,
    ensures
        which.contains(id) <==> which.drop_last().contains(id) || id == which.last(),
{
    let rest = which.drop_last();
    if which.contains(id) {
        let k = which.index_of(id);
        if k < rest.len() {
            assert(rest[k] == id);
        }
    }
    if rest.contains(id) {
        let k = rest.index_of(id);
        assert(which[k] == id);
    }
    assert(which[which.len() - 1] == which.last());
}

/// What a node that flushes announces.
pub open spec fn batch_of<S, V>(e: EngineModel<S, V>) -> WireContent {
    WireContent::Feed(FeedContent { source_node: e.shard.node_id, notifications: e.feed })
}

/// What the change feeds of distinct nodes do: each of them counts the tick, or broadcasts what is
/// pending and starts anew when its interval has passed.
proof fn lemma_feeds_flush<S, V>(
    c0: ClusterModel<S, V>,
    c1: ClusterModel<S, V>,
    ids: Seq<NodeId>,
    which: Seq<NodeId>,
)
    requires
        crate::node_map::ascending(which),
        forall|i: int| 0 <= i < which.len() ==> c0.nodes.contains_key(#[trigger] which[i]),
        cluster_model::feeds(c0, c1, ids, which),
    ensures
        c1 == c0.with_transport(c1.transport).with_nodes(c1.nodes),
        c1.nodes.dom() == c0.nodes.dom(),
        forall|id: NodeId| #[trigger]
            c0.nodes.contains_key(id) ==> {
                let (a, b) = (c1.nodes[id], c0.nodes[id]);
                if !which.contains(id) {
                    a == b
                } else if b.flush_counter + 1 < b.flush_interval {
                    a == (NodeModel { flush_counter: (b.flush_counter + 1) as u64, ..b })
                } else {
                    a == (NodeModel {
                        flush_counter: 0,
                        engine: EngineModel { feed: Seq::empty(), ..b.engine },
                        ..b
                    })
                }
            },
        c0.transport.pipeline.len == 0 ==> has_grown(c0.transport, c1.transport) && forall|
            id: NodeId,
            to: NodeId,
        |
            #[trigger] which.contains(id) && #[trigger] ids.contains(to) && to != id
                && c0.nodes[id].flush_counter + 1 >= c0.nodes[id].flush_interval
                && c0.nodes[id].engine.feed.len() > 0 ==> copy_in_transit(
                c1.transport,
                id,
                to,
                batch_of(c0.nodes[id].engine),
            ),
    decreases which.len(),
{
    if which.len() > 0 {
        let rest = which.drop_last();
        let last = which.last();
        assert(which[which.len() - 1] == last);
        let mid = choose|mid: ClusterModel<S, V>|
            cluster_model::feeds(c0, mid, ids, rest) && #[trigger] cluster_model::feed_step(
                mid,
                c1,
                ids,
                last,
            );
        lemma_feeds_flush(c0, mid, ids, rest);
        assert(!rest.contains(last)) by {
            if rest.contains(last) {
                let k = rest.index_of(last);
                assert(which[k].0 < which[which.len() - 1].0);
            }
        }
        assert(c0.nodes.contains_key(last));
        let node = c0.nodes[last];
        assert(mid.nodes[last] == node);
        assert(c1.nodes.dom() =~= c0.nodes.dom());
        assert forall|id: NodeId| #[trigger] c0.nodes.contains_key(id) implies {
            let (a, b) = (c1.nodes[id], c0.nodes[id]);
            if !which.contains(id) {
                a == b
            } else if b.flush_counter + 1 < b.flush_interval {
                a == (NodeModel { flush_counter: (b.flush_counter + 1) as u64, ..b })
            } else {
                a == (NodeModel {
                    flush_counter: 0,
                    engine: EngineModel { feed: Seq::empty(), ..b.engine },
                    ..b
                })
            }
        } by {
            lemma_one_of(which, id);
        }
        if c0.transport.pipeline.len == 0 {
            let flushes = node.flush_counter + 1 >= node.flush_interval && node.engine.feed.len()
                > 0;
            if flushes {
                lemma_broadcast_copies(
                    mid.transport,
                    c1.transport,
                    last,
                    batch_of(node.engine),
                    ids,
                );
            }
            assert(has_grown(mid.transport, c1.transport));
            assert forall|id: NodeId, to: NodeId|
                #[trigger] which.contains(id) && #[trigger] ids.contains(to) && to != id
                    && c0.nodes[id].flush_counter + 1 >= c0.nodes[id].flush_interval
                    && c0.nodes[id].engine.feed.len() > 0 implies copy_in_transit(
                c1.transport,
                id,
                to,
                batch_of(c0.nodes[id].engine),
            ) by {
                lemma_one_of(which, id);
                if id != last {
                    assert(rest.contains(id));
                    let content = batch_of(c0.nodes[id].engine);
                    assert(copy_in_transit(mid.transport, id, to, content));
                    let f = Flight {
                        from: id,
                        to,
                        data: codec::wire_bytes(content),
                        deliver_at_tick: transport::arrival(c0.transport.current_tick, 0),
                    };
                    lemma_stays_in_transit(mid.transport, c1.transport, f);
                }
            }
        }
    }
}

/// What a tick does to the nodes besides delivering messages. Every delayed broadcast that is due
/// is taken from its node, and those that are not stay. A feed whose interval has passed is
/// emptied and counted anew; any other is kept, and the tick counted. The tick is counted by the
/// cluster and its network, and every due message that could not be read as corrupted.
pub proof fn tick_fires_timers_and_feeds<S, V, SV, DV, DA>(
    c0: ClusterModel<S, V>,
    c1: ClusterModel<S, V>,
    codecs: Map<NodeId, (SV, DV, Option<DA>)>,
    ids: Seq<NodeId>,
) where
    SV: Fn(&V) -> Vec<u8>,
    DV: Fn(&[u8], u32) -> Result<V, DeserializeError>,
    DA: Fn(&[u8], u32, &V) -> Result<V, DeserializeError>,

    requires
        convergence::made_of(c0, ids),
        c0.current_tick < u64::MAX,
        c0.transport.current_tick < u64::MAX,
        cluster_model::tick_step(c0, c1, codecs, ids),
    ensures
        c1.current_tick == c0.current_tick + 1,
        c1.transport.current_tick == c0.transport.current_tick + 1,
        c1.tick_duration == c0.tick_duration,
        c1.nodes.dom() == c0.nodes.dom(),
        ({
            let broken = c0.transport.in_flight.filter(
                |f: Flight|
                    f.deliver_at_tick <= c0.transport.current_tick && !transport::holds_message(
                        f.data,
                    ),
            ).len();
            c1.corrupted == if c0.corrupted + broken > u64::MAX {
                u64::MAX as int
            } else {
                c0.corrupted + broken
            }
        }),
        forall|id: NodeId| #[trigger]
            c0.nodes.contains_key(id) ==> {
                let (a, b) = (c1.nodes[id], c0.nodes[id]);
                &&& a.flush_interval == b.flush_interval
                &&& a.scheduled == b.scheduled.filter(
                    |entry: (SyncContent, u64)| entry.1 > c0.current_tick,
                )
                &&& b.flush_counter + 1 < b.flush_interval ==> a.flush_counter
                    == b.flush_counter + 1 && a.engine.feed == b.engine.feed
                &&& b.flush_counter + 1 >= b.flush_interval ==> a.flush_counter == 0
                    && a.engine.feed.len() == 0
            },
{
    let (nodes, replies, routed, timed, flushed) = lemma_parts(c0, c1, codecs, ids);
    transport_laws::due_messages_are_sorted_out(
        c0.transport.in_flight,
        c0.transport.current_tick,
    );
    assert forall|id: NodeId| #[trigger] c0.nodes.contains_key(id) implies {
        let (a, b) = (c1.nodes[id], c0.nodes[id]);
        &&& a.flush_interval == b.flush_interval
        &&& a.scheduled == b.scheduled.filter(
            |entry: (SyncContent, u64)| entry.1 > c0.current_tick,
        )
        &&& b.flush_counter + 1 < b.flush_interval ==> a.flush_counter == b.flush_counter + 1
            && a.engine.feed == b.engine.feed
        &&& b.flush_counter + 1 >= b.flush_interval ==> a.flush_counter == 0
            && a.engine.feed.len() == 0
    } by {
        assert(ids.contains(id));
        assert(nodes.contains_key(id));
        assert(routed.nodes.contains_key(id));
        assert(timed.nodes.contains_key(id));
        timers_part_due_from_pending(c0.nodes[id].scheduled, c0.current_tick);
    }
}

/// The stages of a tick.
proof fn lemma_parts<S, V, SV, DV, DA>(
    c0: ClusterModel<S, V>,
    c1: ClusterModel<S, V>,
    codecs: Map<NodeId, (SV, DV, Option<DA>)>,
    ids: Seq<NodeId>,
) -> (out: (
    Map<NodeId, NodeModel<S, V>>,
    Seq<(NodeId, Seq<ActionContent>)>,
    ClusterModel<S, V>,
    ClusterModel<S, V>,
    ClusterModel<S, V>,
)) where
    SV: Fn(&V) -> Vec<u8>,
    DV: Fn(&[u8], u32) -> Result<V, DeserializeError>,
    DA: Fn(&[u8], u32, &V) -> Result<V, DeserializeError>,

    requires
        convergence::made_of(c0, ids),
        cluster_model::tick_step(c0, c1, codecs, ids),
    ensures
        ({
            let (nodes, replies, routed, timed, flushed) = out;
            let delivered = cluster_model::after_delivery(c0, nodes);
            &&& cluster_model::delivers(
                c0.nodes,
                nodes,
                codecs,
                transport::delivered_of(c0.transport.in_flight, c0.transport.current_tick),
                replies,
            )
            &&& cluster_laws::are_letters(replies)
            &&& nodes.dom() == c0.nodes.dom()
            &&& forall|id: NodeId| #[trigger]
                c0.nodes.contains_key(id) ==> nodes[id] == c0.nodes[id].with_engine(
                    nodes[id].engine,
                ) && nodes[id].engine.feed == c0.nodes[id].engine.feed
                    && nodes[id].engine.shard.node_id == id
            &&& routed == delivered.with_transport(routed.transport)
            &&& c0.transport.pipeline.len == 0 ==> cluster_laws::posts(
                delivered.transport,
                routed.transport,
                replies,
            )
            &&& cluster_model::timers(routed, timed, ids, ids)
            &&& timed == routed.with_transport(timed.transport).with_nodes(timed.nodes)
            &&& timed.nodes.dom() == routed.nodes.dom()
            &&& forall|id: NodeId| #[trigger]
                routed.nodes.contains_key(id) ==> timed.nodes[id] == (NodeModel {
                    scheduled: cluster_model::pending_of(
                        routed.nodes[id].scheduled,
                        c0.current_tick,
                    ),
                    ..routed.nodes[id]
                })
            &&& cluster_model::feeds(timed, flushed, ids, ids)
            &&& flushed == timed.with_transport(flushed.transport).with_nodes(flushed.nodes)
            &&& flushed.nodes.dom() == timed.nodes.dom()
            &&& forall|id: NodeId| #[trigger]
                timed.nodes.contains_key(id) ==> {
                    let (a, b) = (flushed.nodes[id], timed.nodes[id]);
                    if b.flush_counter + 1 < b.flush_interval {
                        a == (NodeModel { flush_counter: (b.flush_counter + 1) as u64, ..b })
                    } else {
                        a == (NodeModel {
                            flush_counter: 0,
                            engine: EngineModel { feed: Seq::empty(), ..b.engine },
                            ..b
                        })
                    }
                }
            &&& cluster_model::same_network(c0.transport, flushed.transport)
            &&& c1 == cluster_model::ticked(flushed)
        }),
{
    let (nodes, replies, routed, timed, flushed) = choose|
        nodes: Map<NodeId, NodeModel<S, V>>,
        replies: Seq<(NodeId, Seq<ActionContent>)>,
        routed: ClusterModel<S, V>,
        timed: ClusterModel<S, V>,
        flushed: ClusterModel<S, V>,
    |
        #![trigger
            cluster_model::delivers(
                c0.nodes,
                nodes,
                codecs,
                transport::delivered_of(c0.transport.in_flight, c0.transport.current_tick),
                replies,
            ),
            cluster_model::timers(routed, timed, ids, ids),
            cluster_model::feeds(timed, flushed, ids, ids)]
        {
            &&& cluster_model::delivers(
                c0.nodes,
                nodes,
                codecs,
                transport::delivered_of(c0.transport.in_flight, c0.transport.current_tick),
                replies,
            )
            &&& cluster_model::routes_all(
                cluster_model::after_delivery(c0, nodes),
                routed,
                ids,
                replies,
            )
            &&& cluster_model::timers(routed, timed, ids, ids)
            &&& cluster_model::feeds(timed, flushed, ids, ids)
            &&& c1 == cluster_model::ticked(flushed)
        };
    let due = transport::delivered_of(c0.transport.in_flight, c0.transport.current_tick);
    let delivered = cluster_model::after_delivery(c0, nodes);
    lemma_answers_are_letters(c0.nodes, nodes, codecs, due, replies);
    cluster_laws::letters_are_posted(delivered, routed, ids, replies);
    cluster_laws::replies_keep_engines(delivered, routed, ids, replies);
    lemma_timers_fire(routed, timed, ids, ids);
    lemma_feeds_flush(timed, flushed, ids, ids);
    cluster_laws::timers_keep_engines(routed, timed, ids, ids);
    cluster_laws::feeds_keep_engines(timed, flushed, ids, ids);
    (nodes, replies, routed, timed, flushed)
}

/// What is in transit after a tick on a clean network, all to arrive at the next tick but for
/// what was not yet due: every message that was not due; every answer to a message that was
/// delivered; every delayed broadcast that was due, a copy for each other node; and of every
/// feed whose interval has passed, if anything was pending, the batch, a copy for each other
/// node.
pub proof fn tick_puts_in_transit<S, V, SV, DV, DA>(
    c0: ClusterModel<S, V>,
    c1: ClusterModel<S, V>,
    codecs: Map<NodeId, (SV, DV, Option<DA>)>,
    ids: Seq<NodeId>,
) where
    SV: Fn(&V) -> Vec<u8>,
    DV: Fn(&[u8], u32) -> Result<V, DeserializeError>,
    DA: Fn(&[u8], u32, &V) -> Result<V, DeserializeError>,

    requires
        convergence::made_of(c0, ids),
        c0.transport.pipeline.len == 0,
        c0.transport.current_tick < u64::MAX,
        cluster_model::tick_step(c0, c1, codecs, ids),
    ensures
        forall|f: Flight| #[trigger]
            c0.transport.in_flight.contains(f) && f.deliver_at_tick > c0.transport.current_tick
                ==> c1.transport.in_flight.contains(f),
        exists|
            nodes: Map<NodeId, NodeModel<S, V>>,
            replies: Seq<(NodeId, Seq<ActionContent>)>,
        | #[trigger]
            cluster_model::delivers(
                c0.nodes,
                nodes,
                codecs,
                transport::delivered_of(c0.transport.in_flight, c0.transport.current_tick),
                replies,
            ) && forall|i: int|
                0 <= i < replies.len() ==> (#[trigger] replies[i]).1.len() == 1
                    && replies[i].1[0] is SendSync && c1.transport.in_flight.contains(
                    Flight {
                        from: replies[i].0,
                        to: replies[i].1[0]->target,
                        data: codec::wire_bytes(
                            WireContent::Sync(replies[i].1[0]->SendSync_message),
                        ),
                        deliver_at_tick: (c0.transport.current_tick + 1) as u64,
                    },
                ),
        forall|id: NodeId, to: NodeId, k: int|
            #[trigger] c0.nodes.contains_key(id) && #[trigger] c0.nodes.contains_key(to) && to
                != id && 0 <= k < c0.nodes[id].scheduled.len() && (
            #[trigger] c0.nodes[id].scheduled[k]).1 <= c0.current_tick
                ==> c1.transport.in_flight.contains(
                Flight {
                    from: id,
                    to,
                    data: codec::wire_bytes(WireContent::Sync(c0.nodes[id].scheduled[k].0)),
                    deliver_at_tick: (c0.transport.current_tick + 1) as u64,
                },
            ),
        forall|id: NodeId, to: NodeId|
            #[trigger] c0.nodes.contains_key(id) && #[trigger] c0.nodes.contains_key(to) && to
                != id && c0.nodes[id].flush_counter + 1 >= c0.nodes[id].flush_interval
                && c0.nodes[id].engine.feed.len() > 0 ==> c1.transport.in_flight.contains(
                Flight {
                    from: id,
                    to,
                    data: codec::wire_bytes(
                        WireContent::Feed(
                            FeedContent {
                                source_node: id,
                                notifications: c0.nodes[id].engine.feed,
                            },
                        ),
                    ),
                    deliver_at_tick: (c0.transport.current_tick + 1) as u64,
                },
            ),
{
    let (nodes, replies, routed, timed, flushed) = lemma_parts(c0, c1, codecs, ids);
    let delivered = cluster_model::after_delivery(c0, nodes);
    let tick = c0.transport.current_tick;
    lemma_timers_fire(routed, timed, ids, ids);
    lemma_feeds_flush(timed, flushed, ids, ids);
    transport_laws::due_messages_are_sorted_out(c0.transport.in_flight, tick);
    assert(has_grown(delivered.transport, routed.transport));
    assert forall|f: Flight| #[trigger]
        c0.transport.in_flight.contains(f) && f.deliver_at_tick
            > tick implies c1.transport.in_flight.contains(f) by {
        let p = |f: Flight| f.deliver_at_tick > tick;
        let k = c0.transport.in_flight.index_of(f);
        c0.transport.in_flight.lemma_filter_contains(p, k);
        lemma_stays_in_transit(delivered.transport, routed.transport, f);
        lemma_stays_in_transit(routed.transport, timed.transport, f);
        lemma_stays_in_transit(timed.transport, flushed.transport, f);
    }
    assert forall|i: int| 0 <= i < replies.len() implies (#[trigger] replies[i]).1.len() == 1
        && replies[i].1[0] is SendSync && c1.transport.in_flight.contains(
        Flight {
            from: replies[i].0,
            to: replies[i].1[0]->target,
            data: codec::wire_bytes(WireContent::Sync(replies[i].1[0]->SendSync_message)),
            deliver_at_tick: (tick + 1) as u64,
        },
    ) by {
        let f = cluster_laws::posted(replies, tick)[i];
        assert(routed.transport.in_flight[delivered.transport.in_flight.len() + i] == f);
        lemma_stays_in_transit(routed.transport, timed.transport, f);
        lemma_stays_in_transit(timed.transport, flushed.transport, f);
    }
    assert forall|id: NodeId, to: NodeId, k: int|
        #[trigger] c0.nodes.contains_key(id) && #[trigger] c0.nodes.contains_key(to) && to != id
            && 0 <= k < c0.nodes[id].scheduled.len() && (#[trigger] c0.nodes[id].scheduled[k]).1
            <= c0.current_tick implies c1.transport.in_flight.contains(
        Flight {
            from: id,
            to,
            data: codec::wire_bytes(WireContent::Sync(c0.nodes[id].scheduled[k].0)),
            deliver_at_tick: (tick + 1) as u64,
        },
    ) by {
        let scheduled = c0.nodes[id].scheduled;
        let p = |entry: (SyncContent, u64)| entry.1 <= c0.current_tick;
        timers_part_due_from_pending(scheduled, c0.current_tick);
        scheduled.lemma_filter_contains(p, k);
        let i = scheduled.filter(p).index_of(scheduled[k]);
        let due = cluster_model::due_of(scheduled, c0.current_tick);
        assert(due[i] == scheduled[k].0);
        assert(nodes.contains_key(id) && routed.nodes.contains_key(id));
        assert(routed.nodes[id].scheduled == scheduled);
        assert(ids.contains(id) && ids.contains(to));
        assert(copy_in_transit(timed.transport, id, to, WireContent::Sync(due[i])));
        let f = Flight {
            from: id,
            to,
            data: codec::wire_bytes(WireContent::Sync(due[i])),
            deliver_at_tick: (tick + 1) as u64,
        };
        lemma_stays_in_transit(timed.transport, flushed.transport, f);
    }
    assert forall|id: NodeId, to: NodeId|
        #[trigger] c0.nodes.contains_key(id) && #[trigger] c0.nodes.contains_key(to) && to != id
            && c0.nodes[id].flush_counter + 1 >= c0.nodes[id].flush_interval
            && c0.nodes[id].engine.feed.len() > 0 implies c1.transport.in_flight.contains(
        Flight {
            from: id,
            to,
            data: codec::wire_bytes(
                WireContent::Feed(
                    FeedContent { source_node: id, notifications: c0.nodes[id].engine.feed },
                ),
            ),
            deliver_at_tick: (tick + 1) as u64,
        },
    ) by {
        assert(nodes.contains_key(id) && routed.nodes.contains_key(id));
        assert(timed.nodes.contains_key(id));
        assert(ids.contains(id) && ids.contains(to));
        assert(copy_in_transit(flushed.transport, id, to, batch_of(timed.nodes[id].engine)));
    }
}

/// A message that is delivered is handled by its target, and by no other node; one to a node that
/// is not there is lost.
pub proof fn delivery_is_to_its_target<S, V, SV, DV, DA>(
    n0: Map<NodeId, NodeModel<S, V>>,
    n1: Map<NodeId, NodeModel<S, V>>,
    codecs: Map<NodeId, (SV, DV, Option<DA>)>,
    delivery: Delivery,
    r0: Seq<(NodeId, Seq<ActionContent>)>,
    r1: Seq<(NodeId, Seq<ActionContent>)>,
) where
    SV: Fn(&V) -> Vec<u8>,
    DV: Fn(&[u8], u32) -> Result<V, DeserializeError>,
    DA: Fn(&[u8], u32, &V) -> Result<V, DeserializeError>,

    requires
        cluster_model::delivery_step(n0, n1, codecs, delivery, r0, r1),
    ensures
        n1.dom() == n0.dom(),
        forall|id: NodeId| id != delivery.to ==> #[trigger] n1[id] == n0[id],
        !n0.contains_key(delivery.to) ==> n1 == n0 && r1 == r0,
        n0.contains_key(delivery.to) ==> exists|sent: Seq<ActionContent>| #[trigger]
            model::inbound_step(
                n0[delivery.to].engine,
                n1[delivery.to].engine,
                codecs[delivery.to],
                delivery.message,
                sent,
            ) && (sent.len() == 0 ==> r1 == r0) && (sent.len() > 0 ==> r1.len() == r0.len() + 1
                && r1.drop_last() == r0 && r1.last() == (delivery.to, sent)),
{
    assert(n1.dom() =~= n0.dom());
    if n0.contains_key(delivery.to) {
        let node = n0[delivery.to];
        let (after, sent) = choose|after: EngineModel<S, V>, sent: Seq<ActionContent>| #[trigger]
            model::inbound_step(
                node.engine,
                after,
                codecs[delivery.to],
                delivery.message,
                sent,
            ) && n1 == n0.insert(delivery.to, node.with_engine(after)) && r1
                == cluster_model::with_reply(r0, delivery.to, sent);
        assert(n1[delivery.to].engine == after);
        if sent.len() > 0 {
            assert(r1.drop_last() =~= r0);
        }
    }
}

/// A cluster is settled exactly when nothing is left to happen by itself: no message is in
/// transit, no broadcast is scheduled, and no change is pending at any node.
pub proof fn settled_is_nothing_left<S, V>(c: ClusterModel<S, V>)
    ensures
        c.settled() <==> c.transport.in_flight.len() == 0 && (forall|id: NodeId| #[trigger]
            c.nodes.contains_key(id) ==> c.nodes[id].scheduled.len() == 0) && (forall|id: NodeId|
         #[trigger]
            c.nodes.contains_key(id) ==> c.nodes[id].engine.feed.len() == 0),
{
}

/// When a node is removed it is gone; every other node stays, with its state, its timers and its
/// feed, has forgotten the node's view and record, and has not touched any other.
pub proof fn removal_is_told_to_all<S, V>(
    nodes: Map<NodeId, NodeModel<S, V>>,
    node: NodeId,
    id: NodeId,
)
    requires
        id != node,
        nodes.contains_key(id) ==> nodes[id].engine.shard.node_id == id,
    ensures
        ({
            let after = cluster_model::nodes_without(nodes, node);
            let (a, b) = (after[id], nodes[id]);
            &&& !after.contains_key(node)
            &&& after.contains_key(id) <==> nodes.contains_key(id)
            &&& nodes.contains_key(id) ==> {
                &&& a.scheduled == b.scheduled
                &&& a.flush_counter == b.flush_counter
                &&& a.flush_interval == b.flush_interval
                &&& a.engine.shard.state == b.engine.shard.state
                &&& a.engine.feed == b.engine.feed
                &&& a.engine.departed.contains(node)
                &&& !a.engine.shard.views.contains_key(node)
                &&& !a.engine.diagnostics.peers.contains_key(node)
                &&& forall|other: NodeId|
                    other != node ==> (#[trigger] a.engine.shard.views.contains_key(other)
                        <==> b.engine.shard.views.contains_key(other))
                        && a.engine.shard.views[other] == b.engine.shard.views[other]
            }
        }),
{
}

/// A feed is flushed every tick at the least, and otherwise after as many ticks as fit into its
/// batch interval.
pub proof fn feed_is_flushed_by_its_interval<S, V>(e: EngineModel<S, V>, tick: Duration)
    ensures
        cluster_model::flush_ticks(e, tick) >= 1,
        ({
            let ticks = cluster_model::ticks_in(e.strategy.change_feed.batch_interval, tick);
            ticks >= 1 ==> cluster_model::flush_ticks(e, tick) == ticks
        }),
{
}

/// A node that is told of a newcomer sends it, and no one else, one snapshot of its own current
/// state.
pub proof fn newcomer_is_sent_the_own_state<S, V, SV: Fn(&V) -> Vec<u8>>(
    m0: EngineModel<S, V>,
    m1: EngineModel<S, V>,
    serialize: SV,
    node: NodeId,
    default_view: V,
    sent: Seq<ActionContent>,
)
    requires
        m0.shard.views.contains_key(m0.shard.node_id),
        cluster_model::join_step(m0, m1, serialize, node, default_view, sent),
    ensures
        sent.len() == 1,
        sent[0] is SendSync,
        sent[0]->target == node,
        exists|data: Vec<u8>| #[trigger]
            call_ensures(serialize, (&m0.shard.views[m0.shard.node_id].value,), data)
                && effect_laws::is_own_snapshot(sent[0]->SendSync_message, m0, data@),
        m1.shard.state == m0.shard.state,
        !m1.departed.contains(node),
        node != m0.shard.node_id ==> m1.shard.views.contains_key(node),
{
    let now = choose|now: Instant|
        (m0.shard.clock.now)(now) && m1 == #[trigger] m0.after_join(node, default_view, now);
    effect_laws::joining_node_is_welcomed(m0, node, default_view, now);
    let own = m0.shard.node_id;
    assert(m1.shard.views[own] == m0.shard.views[own]);
    let data = choose|data: Vec<u8>| #[trigger]
        call_ensures(serialize, (&m1.shard.views[own].value,), data) && sent == seq![
            ActionContent::SendSync { target: node, message: m0.own_snapshot(data@) },
        ];
    assert(call_ensures(serialize, (&m0.shard.views[own].value,), data));
}

} // verus!
