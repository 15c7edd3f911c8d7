//! What a simulated cluster with a clean network promises: what one node publishes, the others
//! come to hold.
use vstd::prelude::*;

use crate::codec;
use crate::engine;
use crate::engine::{ActionContent, WireContent};
use crate::engine::laws;
use crate::engine::model;
use crate::engine::model::EngineModel;
use crate::replica::shard_core;
use crate::replica::sync_logic;
use crate::replica::sync_logic::SyncAction;
use crate::sim::cluster_laws;
use crate::sim::cluster_model;
use crate::sim::cluster_model::{ClusterModel, NodeModel};
use crate::sim::push_laws;
use crate::sim::push_laws::Push;
use crate::sim::transport;
use crate::sim::transport::{Corruption, Delivery, Flight, TransportModel};
use crate::sim::transport_laws;
use crate::traits::state::SyncUrgency;
use crate::types::config::PushMode;
use crate::types::errors::DeserializeError;
use crate::types::node::{NodeId, VersionMismatchPolicy};
use crate::types::sync_message::SyncContent;

verus! {

/// One copy of `content` to each of `targets` but `from`, due at `tick`.
pub open spec fn copies(
    from: NodeId,
    targets: Seq<NodeId>,
    content: WireContent,
    tick: u64,
) -> Seq<Flight>
    decreases targets.len(),
{
    if targets.len() == 0 {
        Seq::empty()
    } else {
        let rest = copies(from, targets.drop_last(), content, tick);
        if targets.last() == from {
            rest
        } else {
            rest.push(
                Flight {
                    from,
                    to: targets.last(),
                    data: codec::wire_bytes(content),
                    deliver_at_tick: tick,
                },
            )
        }
    }
}

/// `content` handed to each of `targets` but `from`.
pub open spec fn arrivals(from: NodeId, targets: Seq<NodeId>, content: WireContent) -> Seq<Delivery>
    decreases targets.len(),
{
    if targets.len() == 0 {
        Seq::empty()
    } else {
        let rest = arrivals(from, targets.drop_last(), content);
        if targets.last() == from {
            rest
        } else {
            rest.push(Delivery { from, to: targets.last(), message: content })
        }
    }
}

/// On a clean network a broadcast puts one copy for each other node in transit, due at the next
/// tick.
pub proof fn clean_broadcast_sends_one_copy_each(
    t0: TransportModel,
    t1: TransportModel,
    from: NodeId,
    content: WireContent,
    targets: Seq<NodeId>,
)
    requires
        transport::broadcasts(t0, t1, from, codec::wire_bytes(content), targets),
        t0.pipeline.len == 0,
        t0.current_tick < u64::MAX,
    ensures
        cluster_model::same_network(t0, t1),
        copies(from, targets, content, (t0.current_tick + 1) as u64).len() > 0
            ==> codec::wire_bytes(content).len() <= u64::MAX,
        t1.in_flight == t0.in_flight + copies(
            from,
            targets,
            content,
            (t0.current_tick + 1) as u64,
        ),
    decreases targets.len(),
{
    let tick = (t0.current_tick + 1) as u64;
    if targets.len() == 0 {
        assert(t1.in_flight =~= t0.in_flight + copies(from, targets, content, tick));
    } else {
        let data = codec::wire_bytes(content);
        let rest = targets.drop_last();
        let mid = choose|mid: TransportModel|
            transport::broadcasts(t0, mid, from, data, rest) && #[trigger] transport::sends_to_other(
                mid,
                t1,
                from,
                targets.last(),
                data,
            );
        clean_broadcast_sends_one_copy_each(t0, mid, from, content, rest);
        if targets.last() != from {
            transport_laws::clean_network_delivers_what_was_sent(
                mid,
                t1,
                from,
                targets.last(),
                content,
            );
        }
        assert(t1.in_flight =~= t0.in_flight + copies(from, targets, content, tick));
    }
}

/// Copies that are due are all delivered, as what was sent; before that they all wait.
proof fn lemma_copies_arrive(
    from: NodeId,
    targets: Seq<NodeId>,
    content: WireContent,
    due: u64,
)
    requires
        copies(from, targets, content, due).len() > 0 ==> codec::wire_bytes(content).len()
            <= u64::MAX,
    ensures
        transport::delivered_of(copies(from, targets, content, due), due) == arrivals(
            from,
            targets,
            content,
        ),
        transport::corrupted_of(copies(from, targets, content, due), due) == Seq::<
            Corruption,
        >::empty(),
        transport::waiting_of(copies(from, targets, content, due), due) == Seq::<Flight>::empty(),
        forall|i: int|
            0 <= i < copies(from, targets, content, due).len() ==> (
            #[trigger] copies(from, targets, content, due)[i]).deliver_at_tick == due,
    decreases targets.len(),
{
    if targets.len() > 0 {
        let rest = targets.drop_last();
        lemma_copies_arrive(from, rest, content, due);
        if targets.last() != from {
            let all = copies(from, targets, content, due);
            assert(all.drop_last() =~= copies(from, rest, content, due));
            transport_laws::message_survives_the_wire(content);
        }
    }
}

/// When a broadcast snapshot has arrived at distinct nodes, every target but the sender has
/// taken it in, the others are as they were, and no one has replied.
proof fn lemma_snapshot_spreads<S, V, SV, DV, DA>(
    n0: Map<NodeId, NodeModel<S, V>>,
    n1: Map<NodeId, NodeModel<S, V>>,
    codecs: Map<NodeId, (SV, DV, Option<DA>)>,
    owner: EngineModel<S, V>,
    data: Seq<u8>,
    targets: Seq<NodeId>,
    replies: Seq<(NodeId, Seq<ActionContent>)>,
) where
    SV: Fn(&V) -> Vec<u8>,
    DV: Fn(&[u8], u32) -> Result<V, DeserializeError>,
    DA: Fn(&[u8], u32, &V) -> Result<V, DeserializeError>,

    requires
        cluster_model::delivers(
            n0,
            n1,
            codecs,
            arrivals(owner.shard.node_id, targets, WireContent::Sync(owner.own_snapshot(data))),
            replies,
        ),
        crate::node_map::ascending(targets),
        forall|i: int| 0 <= i < targets.len() ==> n0.contains_key(#[trigger] targets[i]),
    ensures
        replies == Seq::<(NodeId, Seq<ActionContent>)>::empty(),
        n1.dom() == n0.dom(),
        forall|id: NodeId| #[trigger]
            n0.contains_key(id) && (!targets.contains(id) || id == owner.shard.node_id)
                ==> n1[id] == n0[id],
        forall|i: int|
            0 <= i < targets.len() && #[trigger] targets[i] != owner.shard.node_id ==> {
                &&& n1[targets[i]] == n0[targets[i]].with_engine(n1[targets[i]].engine)
                &&& model::sync_step(
                    n0[targets[i]].engine,
                    n1[targets[i]].engine,
                    codecs[targets[i]],
                    owner.own_snapshot(data),
                    Seq::<ActionContent>::empty(),
                )
            },
    decreases targets.len(),
{
    let from = owner.shard.node_id;
    let content = WireContent::Sync(owner.own_snapshot(data));
    if targets.len() > 0 {
        let rest = targets.drop_last();
        let last = targets.last();
        assert(last == targets[targets.len() - 1]);
        if last == from {
            lemma_snapshot_spreads(n0, n1, codecs, owner, data, rest, replies);
            assert forall|i: int| 0 <= i < targets.len() && #[trigger] targets[i] != from implies {
                &&& n1[targets[i]] == n0[targets[i]].with_engine(n1[targets[i]].engine)
                &&& model::sync_step(
                    n0[targets[i]].engine,
                    n1[targets[i]].engine,
                    codecs[targets[i]],
                    owner.own_snapshot(data),
                    Seq::<ActionContent>::empty(),
                )
            } by {
                assert(rest[i] == targets[i]);
            }
            assert forall|id: NodeId| #[trigger]
                n0.contains_key(id) && (!targets.contains(id) || id == from) implies n1[id]
                == n0[id] by {
                if rest.contains(id) {
                    let k = rest.index_of(id);
                    assert(targets[k] == id);
                }
            }
        } else {
            let all = arrivals(from, targets, content);
            assert(all.drop_last() =~= arrivals(from, rest, content));
            let (mid, r) = choose|
                mid: Map<NodeId, NodeModel<S, V>>,
                r: Seq<(NodeId, Seq<ActionContent>)>,
            |
                cluster_model::delivers(n0, mid, codecs, all.drop_last(), r)
                    && #[trigger] cluster_model::delivery_step(
                    mid,
                    n1,
                    codecs,
                    all.last(),
                    r,
                    replies,
                );
            lemma_snapshot_spreads(n0, mid, codecs, owner, data, rest, r);
            assert(!rest.contains(last)) by {
                if rest.contains(last) {
                    let k = rest.index_of(last);
                    assert(targets[k].0 < targets[targets.len() - 1].0);
                }
            }
            assert(n0.contains_key(last));
            assert(mid[last] == n0[last]);
            assert(mid.contains_key(last));
            let (after, sent) = choose|
                after: EngineModel<S, V>,
                sent: Seq<ActionContent>,
            | #[trigger]
                model::inbound_step(mid[last].engine, after, codecs[last], content, sent) && n1
                    == mid.insert(last, mid[last].with_engine(after)) && replies
                    == cluster_model::with_reply(r, last, sent);
            assert(sent.len() == 0);
            assert(n1.dom() =~= n0.dom());
            assert forall|i: int| 0 <= i < targets.len() && #[trigger] targets[i] != from implies {
                &&& n1[targets[i]] == n0[targets[i]].with_engine(n1[targets[i]].engine)
                &&& model::sync_step(
                    n0[targets[i]].engine,
                    n1[targets[i]].engine,
                    codecs[targets[i]],
                    owner.own_snapshot(data),
                    Seq::<ActionContent>::empty(),
                )
            } by {
                if i < rest.len() {
                    assert(targets[i].0 < targets[targets.len() - 1].0);
                    assert(rest[i] == targets[i]);
                } else {
                    assert(sent =~= Seq::<ActionContent>::empty());
                }
            }
            assert forall|id: NodeId| #[trigger]
                n0.contains_key(id) && (!targets.contains(id) || id == from) implies n1[id]
                == n0[id] by {
                if rest.contains(id) {
                    let k = rest.index_of(id);
                    assert(targets[k] == id);
                }
            }
        }
    }
}

/// The nodes of `c` are `ids`, each filed under its own id.
pub open spec fn made_of<S, V>(c: ClusterModel<S, V>, ids: Seq<NodeId>) -> bool {
    &&& crate::node_map::ascending(ids)
    &&& forall|i: int| 0 <= i < ids.len() ==> c.nodes.contains_key(#[trigger] ids[i])
    &&& forall|id: NodeId| #[trigger] c.nodes.contains_key(id) ==> ids.contains(id)
    &&& forall|id: NodeId| #[trigger]
        c.nodes.contains_key(id) ==> c.nodes[id].engine.shard.node_id == id
}

/// The node `peer` takes in what the node `owner` publishes: it shares the state, listens to the
/// owner, holds no newer state of it, and decodes the owner's snapshots to what was encoded.
pub open spec fn follows<S, V, SV, DV, DA>(
    peer: EngineModel<S, V>,
    owner: EngineModel<S, V>,
    serialize: SV,
    codec: (SV, DV, Option<DA>),
) -> bool where
    SV: Fn(&V) -> Vec<u8>,
    DV: Fn(&[u8], u32) -> Result<V, DeserializeError>,
    DA: Fn(&[u8], u32, &V) -> Result<V, DeserializeError>,
 {
    &&& peer.state_name == owner.state_name
    &&& !peer.departed.contains(owner.shard.node_id)
    &&& peer.shard.views.contains_key(owner.shard.node_id)
        ==> peer.shard.views[owner.shard.node_id].generation.at_most(owner.shard.state.generation)
    &&& forall|view: V, data: Vec<u8>| #[trigger]
        call_ensures(serialize, (&view,), data) ==> laws::decodes_to(
            codec.1,
            data@,
            owner.wire_version,
            view,
        )
}

/// A pushed mutation on a settled cluster with a clean network leaves exactly one copy of one
/// snapshot in transit to each other node.
proof fn lemma_mutation_in_transit<S, V: Clone, P, SV, DV, DA>(
    c0: ClusterModel<S, V>,
    c1: ClusterModel<S, V>,
    serialize: SV,
    ids: Seq<NodeId>,
    id: NodeId,
    project: P,
    urgency: SyncUrgency,
) -> (out: (V, Seq<u8>, EngineModel<S, V>)) where
    P: FnOnce(&S) -> V,
    SV: Fn(&V) -> Vec<u8>,
    DV: Fn(&[u8], u32) -> Result<V, DeserializeError>,
    DA: Fn(&[u8], u32, &V) -> Result<V, DeserializeError>,

    requires
        made_of(c0, ids),
        c0.nodes.contains_key(id),
        c0.settled(),
        c0.transport.pipeline.len == 0,
        c0.transport.current_tick < u64::MAX,
        c0.nodes[id].engine.shard.state.generation.age < u64::MAX,
        urgency == SyncUrgency::Immediate || (urgency == SyncUrgency::Default
            && c0.nodes[id].engine.strategy.push_mode == Some(PushMode::ActivePush)),
        cluster_model::mutate_step(c0, c1, serialize, ids, id, project, urgency),
    ensures
        call_ensures(project, (&c1.nodes[id].engine.shard.state.value,), out.0),
        exists|data: Vec<u8>| data@ == out.1 && #[trigger] call_ensures(
            serialize,
            (&out.0,),
            data,
        ),
        out.2 == (EngineModel { shard: c1.nodes[id].engine.shard, ..c0.nodes[id].engine }),
        out.2.shard.node_id == id,
        c1.transport.in_flight.len() > 0 ==> codec::wire_bytes(
            WireContent::Sync(out.2.own_snapshot(out.1)),
        ).len() <= u64::MAX,
        c0.nodes[id].engine.shard.state.generation.before(out.2.shard.state.generation),
        c1 == c0.with_nodes(
            c0.nodes.insert(id, c0.nodes[id].with_engine(c1.nodes[id].engine)),
        ).with_transport(c1.transport),
        cluster_model::same_network(c0.transport, c1.transport),
        c1.nodes[id].engine.feed == c0.nodes[id].engine.feed,
        c1.transport.in_flight == copies(
            id,
            ids,
            WireContent::Sync(out.2.own_snapshot(out.1)),
            (c0.transport.current_tick + 1) as u64,
        ),
{
    let m0 = c0.nodes[id].engine;
    let m1 = c1.nodes[id].engine;
    let (view, sent) = choose|view: V, sent: Seq<ActionContent>|
        shard_core::mutation_step(m0.shard, m1.shard, project, view)
            && #[trigger] engine::mutate_sends(m0, m1, serialize, view, urgency, sent)
            && cluster_model::routes(
            c0.with_nodes(c0.nodes.insert(id, c0.nodes[id].with_engine(m1))),
            c1,
            id,
            ids,
            sent,
        );
    let action = sync_logic::resolved(m0.strategy, m0.supports_delta, urgency);
    let after = model::mutated(m0, m1.shard);
    let data = choose|data: Vec<u8>|
        (model::sends_data(action) ==> call_ensures(serialize, (&view,), data)) && (m1, sent)
            == #[trigger] after.snapshot_outbound(action, data@);
    let owner = EngineModel { shard: m1.shard, ..m0 };
    let message = owner.own_snapshot(data@);
    assert(sent == seq![ActionContent::BroadcastSync(message)]);
    let mid = c0.with_nodes(c0.nodes.insert(id, c0.nodes[id].with_engine(m1)));
    assert(sent.drop_last() =~= Seq::<ActionContent>::empty());
    assert(cluster_model::action_step(mid, c1, id, ids, sent.last())) by {
        let between = choose|between: ClusterModel<S, V>|
            cluster_model::routes(mid, between, id, ids, sent.drop_last())
                && #[trigger] cluster_model::action_step(between, c1, id, ids, sent.last());
        assert(between == mid);
    }
    clean_broadcast_sends_one_copy_each(
        mid.transport,
        c1.transport,
        id,
        WireContent::Sync(message),
        ids,
    );
    assert(c1.transport.in_flight =~= copies(
        id,
        ids,
        WireContent::Sync(message),
        (c0.transport.current_tick + 1) as u64,
    ));
    (view, data@, owner)
}

/// On a settled cluster with a clean network, under active push or with immediate urgency, two
/// ticks after a mutation every other node, all of which follow the owner, holds the view that
/// the mutation projected, of the owner's new generation, and the cluster is settled again.
pub proof fn settled_cluster_settles_after_a_push<S, V: Clone, P, SV, DV, DA>(
    c0: ClusterModel<S, V>,
    c1: ClusterModel<S, V>,
    c2: ClusterModel<S, V>,
    c3: ClusterModel<S, V>,
    codecs: Map<NodeId, (SV, DV, Option<DA>)>,
    ids: Seq<NodeId>,
    id: NodeId,
    project: P,
    urgency: SyncUrgency,
) where
    P: FnOnce(&S) -> V,
    SV: Fn(&V) -> Vec<u8>,
    DV: Fn(&[u8], u32) -> Result<V, DeserializeError>,
    DA: Fn(&[u8], u32, &V) -> Result<V, DeserializeError>,

    requires
        made_of(c0, ids),
        c0.nodes.contains_key(id),
        c0.settled(),
        c0.transport.pipeline.len == 0,
        c0.transport.current_tick < u64::MAX,
        c0.nodes[id].engine.shard.state.generation.age < u64::MAX,
        urgency == SyncUrgency::Immediate || (urgency == SyncUrgency::Default
            && c0.nodes[id].engine.strategy.push_mode == Some(PushMode::ActivePush)),
        cluster_model::mutate_step(c0, c1, codecs[id].0, ids, id, project, urgency),
        forall|peer: NodeId| #[trigger]
            c0.nodes.contains_key(peer) && peer != id ==> follows(
                c0.nodes[peer].engine,
                c0.nodes[id].engine,
                codecs[id].0,
                codecs[peer],
            ),
        cluster_model::tick_step(c1, c2, codecs, ids),
        cluster_model::tick_step(c2, c3, codecs, ids),
    ensures
        c3.settled(),
        c3.nodes.dom() == c0.nodes.dom(),
        c3.nodes[id].engine == c1.nodes[id].engine,
        exists|view: V|
            #![trigger call_ensures(project, (&c1.nodes[id].engine.shard.state.value,), view)]
            call_ensures(project, (&c1.nodes[id].engine.shard.state.value,), view) && forall|
                peer: NodeId,
            | #[trigger]
                c3.nodes.contains_key(peer) && peer != id ==> {
                    &&& c3.nodes[peer].engine.shard.views.contains_key(id)
                    &&& c3.nodes[peer].engine.shard.views[id].value == view
                    &&& c3.nodes[peer].engine.shard.views[id].generation
                        == c1.nodes[id].engine.shard.state.generation
                },
{
    let (view, data, owner) = lemma_mutation_in_transit::<S, V, P, SV, DV, DA>(
        c0,
        c1,
        codecs[id].0,
        ids,
        id,
        project,
        urgency,
    );
    let content = WireContent::Sync(owner.own_snapshot(data));
    let due = (c0.transport.current_tick + 1) as u64;
    lemma_copies_arrive(id, ids, content, due);
    assert(cluster_laws::idle(c1.nodes)) by {
        assert forall|k: NodeId| #[trigger] c1.nodes.contains_key(k) implies c1.nodes[
            k
        ].scheduled.len() == 0 && c1.nodes[k].engine.feed.len() == 0 by {
            assert(c0.nodes.contains_key(k));
        }
    }
    cluster_laws::quiet_tick_only_counts(c1, c2, codecs, ids);
    assert(c1.nodes.dom() =~= c0.nodes.dom());
    assert forall|k: NodeId| #[trigger] c0.nodes.contains_key(k) implies c2.nodes.contains_key(k)
        && c2.nodes[k].engine == c1.nodes[k].engine && c2.nodes[k].scheduled.len() == 0 by {
        assert(c1.nodes.contains_key(k));
        assert(c2.nodes.contains_key(k));
    }
    let (nodes, replies, routed, timed, flushed) = choose|
        nodes: Map<NodeId, NodeModel<S, V>>,
        replies: Seq<(NodeId, Seq<ActionContent>)>,
        routed: ClusterModel<S, V>,
        timed: ClusterModel<S, V>,
        flushed: ClusterModel<S, V>,
    |
        #![trigger
            cluster_model::delivers(
                c2.nodes,
                nodes,
                codecs,
                transport::delivered_of(c2.transport.in_flight, c2.transport.current_tick),
                replies,
            ),
            cluster_model::timers(routed, timed, ids, ids),
            cluster_model::feeds(timed, flushed, ids, ids)]
        {
            &&& cluster_model::delivers(
                c2.nodes,
                nodes,
                codecs,
                transport::delivered_of(c2.transport.in_flight, c2.transport.current_tick),
                replies,
            )
            &&& cluster_model::routes_all(
                cluster_model::after_delivery(c2, nodes),
                routed,
                ids,
                replies,
            )
            &&& cluster_model::timers(routed, timed, ids, ids)
            &&& cluster_model::feeds(timed, flushed, ids, ids)
            &&& c3 == cluster_model::ticked(flushed)
        };
    lemma_snapshot_spreads(c2.nodes, nodes, codecs, owner, data, ids, replies);
    assert(routed == cluster_model::after_delivery(c2, nodes));
    assert forall|peer: NodeId| #[trigger] nodes.contains_key(peer) && peer != id implies {
        &&& nodes[peer].scheduled.len() == 0
        &&& nodes[peer].engine.feed.len() == 0
        &&& nodes[peer].engine.shard.views.contains_key(id)
        &&& nodes[peer].engine.shard.views[id].value == view
        &&& nodes[peer].engine.shard.views[id].generation == owner.shard.state.generation
    } by {
        assert(c0.nodes.contains_key(peer));
        let i = ids.index_of(peer);
        assert(ids[i] == peer);
        let p0 = c2.nodes[peer].engine;
        let p1 = nodes[peer].engine;
        laws::snapshot_is_adopted(
            owner,
            view,
            data,
            p0,
            p1,
            codecs[peer],
            Seq::<ActionContent>::empty(),
        );
        laws::inbound_keeps_owned_state(
            p0,
            p1,
            codecs[peer],
            content,
            Seq::<ActionContent>::empty(),
        );
    }
    assert(nodes[id] == c2.nodes[id]) by {
        assert(c2.nodes.contains_key(id));
    }
    assert(cluster_laws::idle(nodes)) by {
        assert forall|k: NodeId| #[trigger] nodes.contains_key(k) implies nodes[k].scheduled.len()
            == 0 && nodes[k].engine.feed.len() == 0 by {
            assert(c0.nodes.contains_key(k));
        }
    }
    cluster_laws::lemma_idle_timers(routed, timed, ids, ids);
    cluster_laws::lemma_idle_feeds(timed, flushed, ids, ids);
    assert forall|k: NodeId| #[trigger] c3.nodes.contains_key(k) implies c3.nodes[k].engine
        == nodes[k].engine && c3.nodes[k].scheduled.len() == 0 && c3.nodes[k].engine.feed.len()
        == 0 by {
        assert(nodes.contains_key(k));
    }
    assert forall|peer: NodeId| #[trigger] c3.nodes.contains_key(peer) && peer != id implies {
        &&& c3.nodes[peer].engine.shard.views.contains_key(id)
        &&& c3.nodes[peer].engine.shard.views[id].value == view
        &&& c3.nodes[peer].engine.shard.views[id].generation
            == c1.nodes[id].engine.shard.state.generation
    } by {
        assert(nodes.contains_key(peer));
    }
    assert(c3.nodes.contains_key(id)) by {
        assert(nodes.contains_key(id));
    }
}

/// What the owner `owner` has published last, as the node `follower` is to come to hold it, where
/// `renders` tells which views it may take for it.
pub open spec fn push_of<S, V>(
    c: ClusterModel<S, V>,
    owner: NodeId,
    follower: NodeId,
    renders: spec_fn(V) -> bool,
) -> Push<V> {
    Push {
        owner,
        follower,
        state_name: c.nodes[owner].engine.state_name,
        generation: c.nodes[owner].engine.shard.state.generation,
        renders,
        keeps_stale: c.nodes[follower].engine.versions.policy == VersionMismatchPolicy::KeepStale,
        wire_version: c.nodes[follower].engine.wire_version,
    }
}

/// The views that mean what `view`, or a clone of it, does.
pub open spec fn renderings<V: Clone>(view: V, means: spec_fn(V, V) -> bool) -> spec_fn(V) -> bool {
    |seen: V| exists|sent: V| (sent == view || cloned(view, sent)) && #[trigger] means(sent, seen)
}

/// The node `peer` takes in what the node `owner` publishes: it shares the state, listens to the
/// owner, holds no newer state of it, and decodes the owner's snapshots to what means the same
/// as what was encoded. What is under way of the owner's states is not newer than its state, and
/// `peer` understands it.
pub open spec fn attends<S, V, SV, DV, DA>(
    c: ClusterModel<S, V>,
    codecs: Map<NodeId, (SV, DV, Option<DA>)>,
    owner: NodeId,
    peer: NodeId,
    means: spec_fn(V, V) -> bool,
) -> bool where
    SV: Fn(&V) -> Vec<u8>,
    DV: Fn(&[u8], u32) -> Result<V, DeserializeError>,
    DA: Fn(&[u8], u32, &V) -> Result<V, DeserializeError>,
 {
    let e = c.nodes[peer].engine;
    let o = c.nodes[owner].engine;
    &&& e.state_name == o.state_name
    &&& !e.departed.contains(owner)
    &&& e.shard.views.contains_key(owner) ==> e.shard.views[owner].generation.at_most(
        o.shard.state.generation,
    )
    &&& forall|view: V, data: Vec<u8>| #[trigger]
        call_ensures(codecs[owner].0, (&view,), data) ==> push_laws::readable(
            codecs[peer].1,
            data@,
            o.wire_version,
            |seen: V| means(view, seen),
        )
    &&& push_laws::undisturbed(
        push_of(c, owner, peer, push_laws::anything::<V>()),
        c,
        codecs,
    )
}

/// A mutation on the node `id` projects `view`, serializes it as `data` if it is sent, and leads
/// from `c0` to `c1`.
spec fn mutation_parts<S, V: Clone, P, SV>(
    c0: ClusterModel<S, V>,
    c1: ClusterModel<S, V>,
    serialize: SV,
    ids: Seq<NodeId>,
    id: NodeId,
    project: P,
    urgency: SyncUrgency,
    view: V,
    data: Vec<u8>,
) -> bool where P: FnOnce(&S) -> V, SV: Fn(&V) -> Vec<u8> {
    let m0 = c0.nodes[id].engine;
    let m1 = c1.nodes[id].engine;
    let action = sync_logic::resolved(m0.strategy, m0.supports_delta, urgency);
    let after = model::mutated(m0, m1.shard);
    let mid = c0.with_nodes(c0.nodes.insert(id, c0.nodes[id].with_engine(m1)));
    let message = after.own_snapshot(data@);
    &&& shard_core::mutation_step(m0.shard, m1.shard, project, view)
    &&& model::sends_data(action) ==> call_ensures(serialize, (&view,), data)
    &&& m1 == after.snapshot_outbound(action, data@).0
    &&& match action {
        SyncAction::BroadcastSnapshot
        | SyncAction::BroadcastDelta => cluster_model::action_step(
            mid,
            c1,
            id,
            ids,
            ActionContent::BroadcastSync(message),
        ),
        SyncAction::ScheduleDelayed(delay) => cluster_model::action_step(
            mid,
            c1,
            id,
            ids,
            ActionContent::ScheduleDelayed { delay, message },
        ),
        _ => c1 == mid,
    }
}

/// The view and the payload of a mutation.
proof fn lemma_mutation<S, V: Clone, P, SV>(
    c0: ClusterModel<S, V>,
    c1: ClusterModel<S, V>,
    serialize: SV,
    ids: Seq<NodeId>,
    id: NodeId,
    project: P,
    urgency: SyncUrgency,
) -> (out: (V, Vec<u8>)) where P: FnOnce(&S) -> V, SV: Fn(&V) -> Vec<u8>
    requires
        c0.nodes.contains_key(id),
        cluster_model::mutate_step(c0, c1, serialize, ids, id, project, urgency),
    ensures
        mutation_parts(c0, c1, serialize, ids, id, project, urgency, out.0, out.1),
{
    let m0 = c0.nodes[id].engine;
    let m1 = c1.nodes[id].engine;
    let mid = c0.with_nodes(c0.nodes.insert(id, c0.nodes[id].with_engine(m1)));
    let (view, sent) = choose|view: V, sent: Seq<ActionContent>|
        shard_core::mutation_step(m0.shard, m1.shard, project, view)
            && #[trigger] engine::mutate_sends(m0, m1, serialize, view, urgency, sent)
            && cluster_model::routes(mid, c1, id, ids, sent);
    let action = sync_logic::resolved(m0.strategy, m0.supports_delta, urgency);
    let after = model::mutated(m0, m1.shard);
    let data = choose|data: Vec<u8>|
        (model::sends_data(action) ==> call_ensures(serialize, (&view,), data)) && (m1, sent)
            == #[trigger] after.snapshot_outbound(action, data@);
    if sent.len() > 0 {
        assert(sent.drop_last() =~= Seq::<ActionContent>::empty());
        let between = choose|between: ClusterModel<S, V>|
            cluster_model::routes(mid, between, id, ids, sent.drop_last())
                && #[trigger] cluster_model::action_step(between, c1, id, ids, sent.last());
        assert(between == mid);
    }
    (view, data)
}

/// The follower's part in a pushed mutation of `view`: what the owner has published is on its
/// way, and nothing keeps the follower from it.
proof fn lemma_pushed<S, V: Clone, P, SV, DV, DA>(
    c0: ClusterModel<S, V>,
    c1: ClusterModel<S, V>,
    codecs: Map<NodeId, (SV, DV, Option<DA>)>,
    ids: Seq<NodeId>,
    id: NodeId,
    peer: NodeId,
    project: P,
    urgency: SyncUrgency,
    means: spec_fn(V, V) -> bool,
    view: V,
    data: Vec<u8>,
) where
    P: FnOnce(&S) -> V,
    SV: Fn(&V) -> Vec<u8>,
    DV: Fn(&[u8], u32) -> Result<V, DeserializeError>,
    DA: Fn(&[u8], u32, &V) -> Result<V, DeserializeError>,

    requires
        made_of(c0, ids),
        c0.nodes.contains_key(id),
        c0.nodes.contains_key(peer),
        peer != id,
        c0.transport.pipeline.len == 0,
        c0.nodes[id].engine.shard.state.generation.age < u64::MAX,
        model::sends_data(
            sync_logic::resolved(
                c0.nodes[id].engine.strategy,
                c0.nodes[id].engine.supports_delta,
                urgency,
            ),
        ),
        attends(c0, codecs, id, peer, means),
        mutation_parts(c0, c1, codecs[id].0, ids, id, project, urgency, view, data),
    ensures
        c1.transport.current_tick == c0.transport.current_tick,
        ({
            let push = push_of(c1, id, peer, renderings(view, means));
            &&& push_laws::in_order(push, c1, codecs)
            &&& push_laws::held_or_coming(push, c1)
            &&& !(sync_logic::resolved(
                c0.nodes[id].engine.strategy,
                c0.nodes[id].engine.supports_delta,
                urgency,
            ) is ScheduleDelayed) ==> exists|f: Flight| #[trigger]
                c1.transport.in_flight.contains(f) && push_laws::is_copy(push, f)
                    && f.deliver_at_tick == transport::arrival(c0.transport.current_tick, 0)
        }),
{
    let m0 = c0.nodes[id].engine;
    let m1 = c1.nodes[id].engine;
    let action = sync_logic::resolved(m0.strategy, m0.supports_delta, urgency);
    let after = model::mutated(m0, m1.shard);
    let mid = c0.with_nodes(c0.nodes.insert(id, c0.nodes[id].with_engine(m1)));
    let message = after.own_snapshot(data@);
    let decode = codecs[peer].1;
    let before = push_of(c0, id, peer, push_laws::anything::<V>());
    let push = push_of(c1, id, peer, renderings(view, means));
    let own = m1.shard.views[id].value;
    assert(ids.contains(peer));
    assert(c1.nodes[peer] == c0.nodes[peer]);
    assert(before.generation.before(push.generation));
    lemma_renders(decode, data@, m0.wire_version, view, view, means);
    assert forall|bytes: Vec<u8>| #[trigger] call_ensures(codecs[id].0, (&own,), bytes) implies
        push_laws::readable(decode, bytes@, m1.wire_version, push.renders) by {
        lemma_renders(decode, bytes@, m0.wire_version, view, own, means);
    }
    assert(push_laws::traffic_in_order(push, decode, mid.transport.in_flight)) by {
        assert forall|i: int|
            0 <= i < c0.transport.in_flight.len() && transport::holds_message(
                (#[trigger] c0.transport.in_flight[i]).data,
            ) implies push.is_unharmed_by(
            decode,
            c0.transport.in_flight[i].to,
            transport::message_in(c0.transport.in_flight[i].data),
        ) by {
            if let WireContent::Sync(m) = transport::message_in(c0.transport.in_flight[i].data) {
                assert(push_laws::is_old_news(before, decode, c0.transport.in_flight[i].to, m));
            }
        }
    }
    assert(push_laws::harmless(push, decode, message));
    assert(push.is_carried_by(WireContent::Sync(message)));
    if !(action is ScheduleDelayed) {
        push_laws::lemma_broadcast(
            push,
            decode,
            mid.transport,
            c1.transport,
            id,
            WireContent::Sync(message),
            ids,
        );
    } else {
        let scheduled = c1.nodes[id].scheduled;
        assert(scheduled[scheduled.len() - 1].0 == message);
    }
    assert forall|k: NodeId, j: int|
        c1.nodes.contains_key(k) && 0 <= j < c1.nodes[k].scheduled.len() implies
        push_laws::harmless(push, decode, (#[trigger] c1.nodes[k].scheduled[j]).0) by {
        if j < c0.nodes[k].scheduled.len() {
            assert(c1.nodes[k].scheduled[j] == c0.nodes[k].scheduled[j]);
            let old = c0.nodes[k].scheduled[j].0;
            assert(push_laws::is_old_news(before, decode, id, old));
            assert(push_laws::is_old_news(before, decode, peer, old));
        }
    }
}

/// What decodes to the meaning of `sent`, which is `view` or a clone of it, renders `view`.
proof fn lemma_renders<V: Clone, DV: Fn(&[u8], u32) -> Result<V, DeserializeError>>(
    decode: DV,
    data: Seq<u8>,
    wire_version: u32,
    view: V,
    sent: V,
    means: spec_fn(V, V) -> bool,
)
    requires
        sent == view || cloned(view, sent),
        push_laws::readable(decode, data, wire_version, |seen: V| means(sent, seen)),
    ensures
        push_laws::readable(decode, data, wire_version, renderings(view, means)),
{
    assert forall|bytes: &[u8], result: Result<V, DeserializeError>|
        bytes@ == data && #[trigger] call_ensures(
            decode,
            (bytes, wire_version),
            result,
        ) implies result is Ok && renderings(view, means)(result->Ok_0) by {
        assert(means(sent, result->Ok_0));
    }
}

/// A pushed mutation reaches every node. On a clean network, whatever is under way, two ticks
/// after a mutation under active push or with immediate urgency, every other node that attends
/// to the owner holds, of the owner's new generation, what means the same as the view that the
/// mutation projected.
pub proof fn pushed_mutation_reaches_every_node<S, V: Clone, P, SV, DV, DA>(
    c0: ClusterModel<S, V>,
    c1: ClusterModel<S, V>,
    c2: ClusterModel<S, V>,
    c3: ClusterModel<S, V>,
    codecs: Map<NodeId, (SV, DV, Option<DA>)>,
    ids: Seq<NodeId>,
    id: NodeId,
    project: P,
    urgency: SyncUrgency,
    means: spec_fn(V, V) -> bool,
) where
    P: FnOnce(&S) -> V,
    SV: Fn(&V) -> Vec<u8>,
    DV: Fn(&[u8], u32) -> Result<V, DeserializeError>,
    DA: Fn(&[u8], u32, &V) -> Result<V, DeserializeError>,

    requires
        made_of(c0, ids),
        c0.nodes.contains_key(id),
        c0.transport.pipeline.len == 0,
        c0.transport.current_tick < u64::MAX,
        c0.nodes[id].engine.shard.state.generation.age < u64::MAX,
        urgency == SyncUrgency::Immediate || (urgency == SyncUrgency::Default
            && c0.nodes[id].engine.strategy.push_mode == Some(PushMode::ActivePush)),
        cluster_model::mutate_step(c0, c1, codecs[id].0, ids, id, project, urgency),
        cluster_model::tick_step(c1, c2, codecs, ids),
        cluster_model::tick_step(c2, c3, codecs, ids),
    ensures
        exists|view: V|
            #![trigger call_ensures(project, (&c1.nodes[id].engine.shard.state.value,), view)]
            call_ensures(project, (&c1.nodes[id].engine.shard.state.value,), view) && forall|
                peer: NodeId,
            | #[trigger]
                c0.nodes.contains_key(peer) && peer != id && attends(
                    c0,
                    codecs,
                    id,
                    peer,
                    means,
                ) ==> {
                    &&& c3.nodes.contains_key(peer)
                    &&& c3.nodes[peer].engine.shard.views.contains_key(id)
                    &&& c3.nodes[peer].engine.shard.views[id].generation
                        == c1.nodes[id].engine.shard.state.generation
                    &&& renderings(view, means)(c3.nodes[peer].engine.shard.views[id].value)
                },
{
    let (view, data) = lemma_mutation(c0, c1, codecs[id].0, ids, id, project, urgency);
    assert forall|peer: NodeId| #[trigger]
        c0.nodes.contains_key(peer) && peer != id && attends(
            c0,
            codecs,
            id,
            peer,
            means,
        ) implies {
        &&& c3.nodes.contains_key(peer)
        &&& c3.nodes[peer].engine.shard.views.contains_key(id)
        &&& c3.nodes[peer].engine.shard.views[id].generation
            == c1.nodes[id].engine.shard.state.generation
        &&& renderings(view, means)(c3.nodes[peer].engine.shard.views[id].value)
    } by {
        lemma_pushed(c0, c1, codecs, ids, id, peer, project, urgency, means, view, data);
        let push = push_of(c1, id, peer, renderings(view, means));
        let f = choose|f: Flight| #[trigger]
            c1.transport.in_flight.contains(f) && push_laws::is_copy(push, f)
                && f.deliver_at_tick == transport::arrival(c0.transport.current_tick, 0);
        assert(c1.nodes.dom() =~= c0.nodes.dom());
        push_laws::tick_brings_what_is_published(push, codecs, c1, c2, ids);
        assert(c2.transport.in_flight.contains(f));
        push_laws::tick_brings_what_is_published(push, codecs, c2, c3, ids);
        assert(push.is_held_by(c3.nodes[peer].engine));
    }
}

/// What an owner has pushed last, at once or after a delay, every node that attends to it holds
/// once the cluster has settled, on a clean network and whatever else was under way.
pub proof fn pushed_mutation_is_held_once_settled<S, V: Clone, P, SV, DV, DA>(
    c0: ClusterModel<S, V>,
    c1: ClusterModel<S, V>,
    c2: ClusterModel<S, V>,
    codecs: Map<NodeId, (SV, DV, Option<DA>)>,
    ids: Seq<NodeId>,
    id: NodeId,
    project: P,
    urgency: SyncUrgency,
    means: spec_fn(V, V) -> bool,
    ticks: nat,
) where
    P: FnOnce(&S) -> V,
    SV: Fn(&V) -> Vec<u8>,
    DV: Fn(&[u8], u32) -> Result<V, DeserializeError>,
    DA: Fn(&[u8], u32, &V) -> Result<V, DeserializeError>,

    requires
        made_of(c0, ids),
        c0.nodes.contains_key(id),
        c0.transport.pipeline.len == 0,
        c0.nodes[id].engine.shard.state.generation.age < u64::MAX,
        model::sends_data(
            sync_logic::resolved(
                c0.nodes[id].engine.strategy,
                c0.nodes[id].engine.supports_delta,
                urgency,
            ),
        ),
        cluster_model::mutate_step(c0, c1, codecs[id].0, ids, id, project, urgency),
        cluster_model::runs(c1, c2, codecs, ids, ticks),
        c2.settled(),
    ensures
        exists|view: V|
            #![trigger call_ensures(project, (&c1.nodes[id].engine.shard.state.value,), view)]
            call_ensures(project, (&c1.nodes[id].engine.shard.state.value,), view) && forall|
                peer: NodeId,
            | #[trigger]
                c0.nodes.contains_key(peer) && peer != id && attends(
                    c0,
                    codecs,
                    id,
                    peer,
                    means,
                ) ==> {
                    &&& c2.nodes.contains_key(peer)
                    &&& c2.nodes[peer].engine.shard.views.contains_key(id)
                    &&& c2.nodes[peer].engine.shard.views[id].generation
                        == c1.nodes[id].engine.shard.state.generation
                    &&& renderings(view, means)(c2.nodes[peer].engine.shard.views[id].value)
                },
{
    let (view, data) = lemma_mutation(c0, c1, codecs[id].0, ids, id, project, urgency);
    assert forall|peer: NodeId| #[trigger]
        c0.nodes.contains_key(peer) && peer != id && attends(
            c0,
            codecs,
            id,
            peer,
            means,
        ) implies {
        &&& c2.nodes.contains_key(peer)
        &&& c2.nodes[peer].engine.shard.views.contains_key(id)
        &&& c2.nodes[peer].engine.shard.views[id].generation
            == c1.nodes[id].engine.shard.state.generation
        &&& renderings(view, means)(c2.nodes[peer].engine.shard.views[id].value)
    } by {
        lemma_pushed(c0, c1, codecs, ids, id, peer, project, urgency, means, view, data);
        let push = push_of(c1, id, peer, renderings(view, means));
        assert(c1.nodes.dom() =~= c0.nodes.dom());
        push_laws::ticks_bring_what_is_published(push, codecs, c1, c2, ids, ticks);
        push_laws::settled_follower_holds(push, codecs, c2);
    }
}

/// A mutation of any urgency on another node than the owner, the follower among them, keeps the
/// follower from nothing: a cluster that is in order stays so, and what the follower holds, or
/// is on its way to it, stays so.
pub proof fn other_mutations_do_no_harm<S, V: Clone, P, SV, DV, DA>(
    push: Push<V>,
    c0: ClusterModel<S, V>,
    c1: ClusterModel<S, V>,
    codecs: Map<NodeId, (SV, DV, Option<DA>)>,
    ids: Seq<NodeId>,
    id: NodeId,
    project: P,
    urgency: SyncUrgency,
) where
    P: FnOnce(&S) -> V,
    SV: Fn(&V) -> Vec<u8>,
    DV: Fn(&[u8], u32) -> Result<V, DeserializeError>,
    DA: Fn(&[u8], u32, &V) -> Result<V, DeserializeError>,

    requires
        made_of(c0, ids),
        c0.nodes.contains_key(id),
        id != push.owner,
        push_laws::in_order(push, c0, codecs),
        cluster_model::mutate_step(c0, c1, codecs[id].0, ids, id, project, urgency),
    ensures
        made_of(c1, ids),
        push_laws::in_order(push, c1, codecs),
        push_laws::held_or_coming(push, c0) ==> push_laws::held_or_coming(push, c1),
{
    let (view, data) = lemma_mutation(c0, c1, codecs[id].0, ids, id, project, urgency);
    let m0 = c0.nodes[id].engine;
    let m1 = c1.nodes[id].engine;
    let action = sync_logic::resolved(m0.strategy, m0.supports_delta, urgency);
    let mid = c0.with_nodes(c0.nodes.insert(id, c0.nodes[id].with_engine(m1)));
    let message = model::mutated(m0, m1.shard).own_snapshot(data@);
    let decode = codecs[push.follower].1;
    if model::sends_data(action) && !(action is ScheduleDelayed) {
        push_laws::lemma_broadcast(
            push,
            decode,
            mid.transport,
            c1.transport,
            id,
            WireContent::Sync(message),
            ids,
        );
    }
    assert(c1.nodes.dom() =~= c0.nodes.dom());
    assert forall|k: NodeId, j: int|
        c1.nodes.contains_key(k) && 0 <= j < c1.nodes[k].scheduled.len() implies
        push_laws::harmless(push, decode, (#[trigger] c1.nodes[k].scheduled[j]).0) by {
        if j < c0.nodes[k].scheduled.len() {
            assert(c1.nodes[k].scheduled[j] == c0.nodes[k].scheduled[j]);
        }
    }
    if push_laws::held_or_coming(push, c0) {
        if push.is_held_by(c0.nodes[push.follower].engine) {
            assert(push.is_held_by(c1.nodes[push.follower].engine));
        } else if push_laws::in_transit(push, c0.transport.in_flight) {
            let f = choose|f: Flight| #[trigger]
                c0.transport.in_flight.contains(f) && push_laws::is_copy(push, f);
            assert(c1.transport.in_flight.contains(f));
        } else {
            assert(c1.nodes[push.owner].scheduled == c0.nodes[push.owner].scheduled);
        }
    }
}

/// A pushed mutation puts what the owner has published last on its way to every node that
/// attends to the owner, with nothing to keep the node from it. From there it goes on by ticks,
/// mutations of others and further mutations of the owner.
pub proof fn pushed_mutation_is_on_its_way<S, V: Clone, P, SV, DV, DA>(
    c0: ClusterModel<S, V>,
    c1: ClusterModel<S, V>,
    codecs: Map<NodeId, (SV, DV, Option<DA>)>,
    ids: Seq<NodeId>,
    id: NodeId,
    project: P,
    urgency: SyncUrgency,
    means: spec_fn(V, V) -> bool,
) where
    P: FnOnce(&S) -> V,
    SV: Fn(&V) -> Vec<u8>,
    DV: Fn(&[u8], u32) -> Result<V, DeserializeError>,
    DA: Fn(&[u8], u32, &V) -> Result<V, DeserializeError>,

    requires
        made_of(c0, ids),
        c0.nodes.contains_key(id),
        c0.transport.pipeline.len == 0,
        c0.nodes[id].engine.shard.state.generation.age < u64::MAX,
        model::sends_data(
            sync_logic::resolved(
                c0.nodes[id].engine.strategy,
                c0.nodes[id].engine.supports_delta,
                urgency,
            ),
        ),
        cluster_model::mutate_step(c0, c1, codecs[id].0, ids, id, project, urgency),
    ensures
        made_of(c1, ids),
        exists|view: V|
            #![trigger call_ensures(project, (&c1.nodes[id].engine.shard.state.value,), view)]
            call_ensures(project, (&c1.nodes[id].engine.shard.state.value,), view) && forall|
                peer: NodeId,
            | #[trigger]
                c0.nodes.contains_key(peer) && peer != id && attends(
                    c0,
                    codecs,
                    id,
                    peer,
                    means,
                ) ==> {
                    let push = push_of(c1, id, peer, renderings(view, means));
                    push_laws::in_order(push, c1, codecs) && push_laws::held_or_coming(push, c1)
                },
{
    let (view, data) = lemma_mutation(c0, c1, codecs[id].0, ids, id, project, urgency);
    assert(c1.nodes.dom() =~= c0.nodes.dom());
    assert forall|peer: NodeId| #[trigger]
        c0.nodes.contains_key(peer) && peer != id && attends(
            c0,
            codecs,
            id,
            peer,
            means,
        ) implies {
        let push = push_of(c1, id, peer, renderings(view, means));
        push_laws::in_order(push, c1, codecs) && push_laws::held_or_coming(push, c1)
    } by {
        lemma_pushed(c0, c1, codecs, ids, id, peer, project, urgency, means, view, data);
    }
}

/// A mutation that is pushed, at once or after a delay, on a node whose age can be counted.
pub open spec fn push_step<S, V: Clone, P, SV>(
    c0: ClusterModel<S, V>,
    c1: ClusterModel<S, V>,
    serialize: SV,
    ids: Seq<NodeId>,
    id: NodeId,
    project: P,
    urgency: SyncUrgency,
) -> bool where P: FnOnce(&S) -> V, SV: Fn(&V) -> Vec<u8> {
    &&& c0.nodes.contains_key(id)
    &&& c0.nodes[id].engine.shard.state.generation.age < u64::MAX
    &&& model::sends_data(
        sync_logic::resolved(
            c0.nodes[id].engine.strategy,
            c0.nodes[id].engine.supports_delta,
            urgency,
        ),
    )
    &&& cluster_model::mutate_step(c0, c1, serialize, ids, id, project, urgency)
}

/// Pushed mutations on the nodes `which`, in order, with their projections and urgencies, lead
/// from `c0` to `c1`.
pub open spec fn push_steps<S, V: Clone, P, SV, DV, DA>(
    c0: ClusterModel<S, V>,
    c1: ClusterModel<S, V>,
    codecs: Map<NodeId, (SV, DV, Option<DA>)>,
    ids: Seq<NodeId>,
    which: Seq<(NodeId, P, SyncUrgency)>,
) -> bool where
    P: FnOnce(&S) -> V,
    SV: Fn(&V) -> Vec<u8>,
    DV: Fn(&[u8], u32) -> Result<V, DeserializeError>,
    DA: Fn(&[u8], u32, &V) -> Result<V, DeserializeError>,

    decreases which.len(),
{
    if which.len() == 0 {
        c1 == c0
    } else {
        exists|mid: ClusterModel<S, V>|
            push_steps(c0, mid, codecs, ids, which.drop_last()) && #[trigger] push_step(
                mid,
                c1,
                codecs[which.last().0].0,
                ids,
                which.last().0,
                which.last().1,
                which.last().2,
            )
    }
}

/// Whoever attends to a node still does after a pushed mutation on any node.
proof fn lemma_attention_lasts<S, V: Clone, P, SV, DV, DA>(
    c0: ClusterModel<S, V>,
    c1: ClusterModel<S, V>,
    codecs: Map<NodeId, (SV, DV, Option<DA>)>,
    ids: Seq<NodeId>,
    id: NodeId,
    project: P,
    urgency: SyncUrgency,
    means: spec_fn(V, V) -> bool,
    owner: NodeId,
    peer: NodeId,
) where
    P: FnOnce(&S) -> V,
    SV: Fn(&V) -> Vec<u8>,
    DV: Fn(&[u8], u32) -> Result<V, DeserializeError>,
    DA: Fn(&[u8], u32, &V) -> Result<V, DeserializeError>,

    requires
        made_of(c0, ids),
        c0.transport.pipeline.len == 0,
        push_step(c0, c1, codecs[id].0, ids, id, project, urgency),
        c0.nodes.contains_key(owner),
        c0.nodes.contains_key(peer),
        owner != peer,
        attends(c0, codecs, owner, peer, means),
    ensures
        made_of(c1, ids),
        c1.transport.pipeline.len == 0,
        attends(c1, codecs, owner, peer, means),
{
    let (view, data) = lemma_mutation(c0, c1, codecs[id].0, ids, id, project, urgency);
    let m0 = c0.nodes[id].engine;
    let m1 = c1.nodes[id].engine;
    let action = sync_logic::resolved(m0.strategy, m0.supports_delta, urgency);
    let mid = c0.with_nodes(c0.nodes.insert(id, c0.nodes[id].with_engine(m1)));
    let message = model::mutated(m0, m1.shard).own_snapshot(data@);
    let decode = codecs[peer].1;
    let before = push_of(c0, owner, peer, push_laws::anything::<V>());
    let push = push_of(c1, owner, peer, push_laws::anything::<V>());
    assert(c1.nodes.dom() =~= c0.nodes.dom());
    assert(before.generation.at_most(push.generation));
    if id == owner {
        lemma_renders_anything(decode, data@, m0.wire_version, |seen: V| means(view, seen));
    }
    assert(push_laws::is_old_news(push, decode, owner, message));
    assert(push_laws::is_old_news(push, decode, peer, message));
    if !(action is ScheduleDelayed) {
        lemma_copies_join(mid.transport, c1.transport, id, message, ids);
    }
    assert forall|i: int|
        0 <= i < c1.transport.in_flight.len() && transport::holds_message(
            (#[trigger] c1.transport.in_flight[i]).data,
        ) implies (transport::message_in(c1.transport.in_flight[i].data) matches
        WireContent::Sync(m) ==> push_laws::is_old_news(
        push,
        decode,
        c1.transport.in_flight[i].to,
        m,
    )) by {
        if i < c0.transport.in_flight.len() {
            assert(c1.transport.in_flight[i] == c0.transport.in_flight[i]);
            if let WireContent::Sync(m) = transport::message_in(c0.transport.in_flight[i].data) {
                assert(push_laws::is_old_news(before, decode, c0.transport.in_flight[i].to, m));
            }
        }
    }
    assert forall|k: NodeId, j: int|
        c1.nodes.contains_key(k) && 0 <= j < c1.nodes[k].scheduled.len() implies
        push_laws::is_old_news(push, decode, owner, (#[trigger] c1.nodes[k].scheduled[j]).0)
        && push_laws::is_old_news(push, decode, peer, c1.nodes[k].scheduled[j].0) by {
        if j < c0.nodes[k].scheduled.len() {
            assert(c1.nodes[k].scheduled[j] == c0.nodes[k].scheduled[j]);
            let old = c0.nodes[k].scheduled[j].0;
            assert(push_laws::is_old_news(before, decode, owner, old));
            assert(push_laws::is_old_news(before, decode, peer, old));
        }
    }
}

/// What is readable as something is readable.
proof fn lemma_renders_anything<V, DV: Fn(&[u8], u32) -> Result<V, DeserializeError>>(
    decode: DV,
    data: Seq<u8>,
    wire_version: u32,
    renders: spec_fn(V) -> bool,
)
    requires
        push_laws::readable(decode, data, wire_version, renders),
    ensures
        push_laws::readable(decode, data, wire_version, push_laws::anything::<V>()),
{
}

/// A broadcast on a clean network joins what is in transit, which stays in its place; what it
/// adds are copies of the message.
proof fn lemma_copies_join(
    t0: TransportModel,
    t1: TransportModel,
    from: NodeId,
    message: SyncContent,
    targets: Seq<NodeId>,
)
    requires
        t0.pipeline.len == 0,
        transport::broadcasts(
            t0,
            t1,
            from,
            codec::wire_bytes(WireContent::Sync(message)),
            targets,
        ),
    ensures
        t1.pipeline == t0.pipeline,
        t0.in_flight.is_prefix_of(t1.in_flight),
        forall|i: int|
            t0.in_flight.len() <= i < t1.in_flight.len() ==> transport::message_in(
                (#[trigger] t1.in_flight[i]).data,
            ) == WireContent::Sync(message),
    decreases targets.len(),
{
    if targets.len() > 0 {
        let content = WireContent::Sync(message);
        let data = codec::wire_bytes(content);
        let mid = choose|mid: TransportModel|
            transport::broadcasts(t0, mid, from, data, targets.drop_last())
                && #[trigger] transport::sends_to_other(mid, t1, from, targets.last(), data);
        lemma_copies_join(t0, mid, from, message, targets.drop_last());
        if targets.last() != from {
            transport_laws::clean_network_takes_message(mid, t1, from, targets.last(), data);
            transport_laws::message_survives_the_wire(content);
            assert forall|i: int|
                t0.in_flight.len() <= i < t1.in_flight.len() implies transport::message_in(
                (#[trigger] t1.in_flight[i]).data,
            ) == content by {
                if i < mid.in_flight.len() {
                    assert(t1.in_flight[i] == mid.in_flight[i]);
                }
            }
        }
    }
}

/// Whoever attends to a node still does after any pushed mutations.
proof fn lemma_attention_outlasts<S, V: Clone, P, SV, DV, DA>(
    c0: ClusterModel<S, V>,
    c1: ClusterModel<S, V>,
    codecs: Map<NodeId, (SV, DV, Option<DA>)>,
    ids: Seq<NodeId>,
    which: Seq<(NodeId, P, SyncUrgency)>,
    means: spec_fn(V, V) -> bool,
    owner: NodeId,
    peer: NodeId,
) where
    P: FnOnce(&S) -> V,
    SV: Fn(&V) -> Vec<u8>,
    DV: Fn(&[u8], u32) -> Result<V, DeserializeError>,
    DA: Fn(&[u8], u32, &V) -> Result<V, DeserializeError>,

    requires
        made_of(c0, ids),
        c0.transport.pipeline.len == 0,
        push_steps(c0, c1, codecs, ids, which),
        c0.nodes.contains_key(owner),
        c0.nodes.contains_key(peer),
        owner != peer,
        attends(c0, codecs, owner, peer, means),
    ensures
        made_of(c1, ids),
        c1.nodes.contains_key(owner),
        c1.nodes.contains_key(peer),
        c1.transport.pipeline.len == 0,
        attends(c1, codecs, owner, peer, means),
    decreases which.len(),
{
    if which.len() > 0 {
        let (id, project, urgency) = which.last();
        let mid = choose|mid: ClusterModel<S, V>|
            push_steps(c0, mid, codecs, ids, which.drop_last()) && #[trigger] push_step(
                mid,
                c1,
                codecs[which.last().0].0,
                ids,
                which.last().0,
                which.last().1,
                which.last().2,
            );
        lemma_attention_outlasts(c0, mid, codecs, ids, which.drop_last(), means, owner, peer);
        lemma_attention_lasts(
            mid,
            c1,
            codecs,
            ids,
            id,
            project,
            urgency,
            means,
            owner,
            peer,
        );
        assert(ids.contains(owner) && ids.contains(peer));
    }
}

/// `which[k]` is the last mutation of its node.
pub open spec fn is_last_of<P>(which: Seq<(NodeId, P, SyncUrgency)>, k: int) -> bool {
    &&& 0 <= k < which.len()
    &&& forall|j: int| k < j < which.len() ==> (#[trigger] which[j]).0 != which[k].0
}

/// After pushed mutations on several nodes, in any order and any number, what a node has pushed
/// last is held by every other node that attended to it, or on its way there.
pub proof fn last_push_is_on_its_way<S, V: Clone, P, SV, DV, DA>(
    c0: ClusterModel<S, V>,
    c1: ClusterModel<S, V>,
    codecs: Map<NodeId, (SV, DV, Option<DA>)>,
    ids: Seq<NodeId>,
    which: Seq<(NodeId, P, SyncUrgency)>,
    k: int,
    peer: NodeId,
    means: spec_fn(V, V) -> bool,
) -> (view: V) where
    P: FnOnce(&S) -> V,
    SV: Fn(&V) -> Vec<u8>,
    DV: Fn(&[u8], u32) -> Result<V, DeserializeError>,
    DA: Fn(&[u8], u32, &V) -> Result<V, DeserializeError>,

    requires
        made_of(c0, ids),
        c0.transport.pipeline.len == 0,
        push_steps(c0, c1, codecs, ids, which),
        is_last_of(which, k),
        c0.nodes.contains_key(which[k].0),
        c0.nodes.contains_key(peer),
        peer != which[k].0,
        attends(c0, codecs, which[k].0, peer, means),
    ensures
        made_of(c1, ids),
        call_ensures(
            which[k].1,
            (&c1.nodes[which[k].0].engine.shard.state.value,),
            view,
        ),
        push_laws::in_order(
            push_of(c1, which[k].0, peer, renderings(view, means)),
            c1,
            codecs,
        ),
        push_laws::held_or_coming(push_of(c1, which[k].0, peer, renderings(view, means)), c1),
    decreases which.len(),
{
    let owner = which[k].0;
    let rest = which.drop_last();
    let (id, project, urgency) = which.last();
    let mid = choose|mid: ClusterModel<S, V>|
        push_steps(c0, mid, codecs, ids, rest) && #[trigger] push_step(
            mid,
            c1,
            codecs[which.last().0].0,
            ids,
            which.last().0,
            which.last().1,
            which.last().2,
        );
    if k == which.len() - 1 {
        lemma_attention_outlasts(c0, mid, codecs, ids, rest, means, owner, peer);
        pushed_mutation_is_on_its_way(mid, c1, codecs, ids, id, project, urgency, means);
        let view = choose|view: V|
            #![trigger call_ensures(project, (&c1.nodes[id].engine.shard.state.value,), view)]
            call_ensures(project, (&c1.nodes[id].engine.shard.state.value,), view) && forall|
                peer: NodeId,
            | #[trigger]
                mid.nodes.contains_key(peer) && peer != id && attends(
                    mid,
                    codecs,
                    id,
                    peer,
                    means,
                ) ==> {
                    let push = push_of(c1, id, peer, renderings(view, means));
                    push_laws::in_order(push, c1, codecs) && push_laws::held_or_coming(push, c1)
                };
        view
    } else {
        assert(which[which.len() - 1].0 != owner);
        assert(rest[k] == which[k]);
        assert forall|j: int| k < j < rest.len() implies (#[trigger] rest[j]).0 != rest[k].0 by {
            assert(rest[j] == which[j]);
        }
        let view = last_push_is_on_its_way(c0, mid, codecs, ids, rest, k, peer, means);
        let push = push_of(mid, owner, peer, renderings(view, means));
        other_mutations_do_no_harm(push, mid, c1, codecs, ids, id, project, urgency);
        lemma_mutation(mid, c1, codecs[id].0, ids, id, project, urgency);
        assert(c1.nodes[owner].engine == mid.nodes[owner].engine);
        assert(push_of(c1, owner, peer, renderings(view, means)) == push);
        view
    }
}

/// Once a cluster with a clean network has settled after pushed mutations on several nodes, in
/// any order and any number, every node holds what each node that it attended to has pushed
/// last: of the owner's generation, and meaning the same as the view that its last mutation
/// projected.
pub proof fn settled_cluster_holds_every_last_push<S, V: Clone, P, SV, DV, DA>(
    c0: ClusterModel<S, V>,
    c1: ClusterModel<S, V>,
    c2: ClusterModel<S, V>,
    codecs: Map<NodeId, (SV, DV, Option<DA>)>,
    ids: Seq<NodeId>,
    which: Seq<(NodeId, P, SyncUrgency)>,
    k: int,
    peer: NodeId,
    means: spec_fn(V, V) -> bool,
    ticks: nat,
) where
    P: FnOnce(&S) -> V,
    SV: Fn(&V) -> Vec<u8>,
    DV: Fn(&[u8], u32) -> Result<V, DeserializeError>,
    DA: Fn(&[u8], u32, &V) -> Result<V, DeserializeError>,

    requires
        made_of(c0, ids),
        c0.transport.pipeline.len == 0,
        push_steps(c0, c1, codecs, ids, which),
        is_last_of(which, k),
        c0.nodes.contains_key(which[k].0),
        c0.nodes.contains_key(peer),
        peer != which[k].0,
        attends(c0, codecs, which[k].0, peer, means),
        cluster_model::runs(c1, c2, codecs, ids, ticks),
        c2.settled(),
    ensures
        c2.nodes.contains_key(peer),
        c2.nodes[peer].engine.shard.views.contains_key(which[k].0),
        c2.nodes[peer].engine.shard.views[which[k].0].generation
            == c1.nodes[which[k].0].engine.shard.state.generation,
        exists|view: V|
            #![trigger renderings(view, means)]
            call_ensures(
                which[k].1,
                (&c1.nodes[which[k].0].engine.shard.state.value,),
                view,
            ) && renderings(view, means)(c2.nodes[peer].engine.shard.views[which[k].0].value),
{
    let view = last_push_is_on_its_way(c0, c1, codecs, ids, which, k, peer, means);
    let push = push_of(c1, which[k].0, peer, renderings(view, means));
    lemma_attention_outlasts(c0, c1, codecs, ids, which, means, which[k].0, peer);
    push_laws::ticks_bring_what_is_published(push, codecs, c1, c2, ids, ticks);
    push_laws::settled_follower_holds(push, codecs, c2);
}

} // verus!
