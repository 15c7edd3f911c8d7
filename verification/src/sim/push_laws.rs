//! What becomes of a pushed view on a clean network, whatever else is under way.
use vstd::prelude::*;

use crate::codec;
use crate::engine::{ActionContent, WireContent};
use crate::engine::laws;
use crate::engine::model;
use crate::engine::model::EngineModel;
use crate::replica::change_feed_logic;
use crate::sim::{cluster_laws, cluster_model, transport, transport_laws};
use crate::sim::cluster_model::{ClusterModel, NodeModel};
use crate::sim::transport::{Delivery, Flight, TransportModel};
use crate::types::errors::DeserializeError;
use crate::types::node::{Generation, NodeId, VersionMismatchPolicy};
use crate::types::sync_message::{FeedContent, SyncContent};

verus! {

/// What an owner has published last, as one of its followers is to come to hold it.
#[verifier::reject_recursive_types(V)]
pub struct Push<V> {
    pub owner: NodeId,
    pub follower: NodeId,
    pub state_name: Seq<char>,
    pub generation: Generation,
    /// Which views the follower may take for what the owner has published.
    pub renders: spec_fn(V) -> bool,
    /// The follower keeps the views of versions that it does not know.
    pub keeps_stale: bool,
    /// The wire version of the follower.
    pub wire_version: u32,
}

/// Decoding `data` always succeeds, with a view of which `renders` holds.
pub open spec fn readable<V, DV: Fn(&[u8], u32) -> Result<V, DeserializeError>>(
    decode: DV,
    data: Seq<u8>,
    wire_version: u32,
    renders: spec_fn(V) -> bool,
) -> bool {
    forall|bytes: &[u8], result: Result<V, DeserializeError>|
        bytes@ == data && #[trigger] call_ensures(decode, (bytes, wire_version), result)
            ==> result is Ok && renders(result->Ok_0)
}

/// Any view.
pub open spec fn anything<V>() -> spec_fn(V) -> bool {
    |view: V| true
}

/// The generation that a message brings.
pub open spec fn generation_of(message: SyncContent) -> Generation {
    match message {
        SyncContent::FullSnapshot { generation, .. } => generation,
        SyncContent::DeltaUpdate { generation, .. } => generation,
        SyncContent::RequestSnapshot { .. } => Generation { incarnation: 0, age: 0 },
    }
}

impl<V> Push<V> {
    /// Whether `message` brings a state of the owner.
    pub open spec fn concerns(self, message: SyncContent) -> bool {
        &&& !(message is RequestSnapshot)
        &&& laws::subject(message) == self.state_name
        &&& laws::sender(message) == self.owner
    }

    /// Whether `content` brings what the owner has published last.
    pub open spec fn is_carried_by(self, content: WireContent) -> bool {
        content matches WireContent::Sync(message) && message is FullSnapshot && self.concerns(
            message,
        ) && generation_of(message) == self.generation
    }

    /// The follower, which decodes by `decode`, does not drop a view over `message`.
    pub open spec fn is_understood<DV: Fn(&[u8], u32) -> Result<V, DeserializeError>>(
        self,
        decode: DV,
        message: SyncContent,
    ) -> bool {
        self.keeps_stale || match message {
            SyncContent::FullSnapshot { wire_version, data, .. } => readable(
                decode,
                data,
                wire_version,
                anything::<V>(),
            ),
            SyncContent::DeltaUpdate { wire_version, .. } => wire_version == self.wire_version,
            SyncContent::RequestSnapshot { .. } => true,
        }
    }

    /// `message` does not keep the follower, which decodes by `decode`, from what the owner has
    /// published last: it is about something else, or it is older and understood, or it is
    /// just that.
    pub open spec fn survives<DV: Fn(&[u8], u32) -> Result<V, DeserializeError>>(
        self,
        decode: DV,
        message: SyncContent,
    ) -> bool {
        self.concerns(message) ==> {
            ||| generation_of(message).before(self.generation) && self.is_understood(
                decode,
                message,
            )
            ||| message is FullSnapshot && generation_of(message) == self.generation && readable(
                decode,
                message->FullSnapshot_data,
                message->FullSnapshot_wire_version,
                self.renders,
            )
        }
    }

    /// `message` does no harm at the node `to`: the follower is not kept from what the owner has
    /// published, and the owner hears of no newer state of its own.
    pub open spec fn is_safe_from<DV: Fn(&[u8], u32) -> Result<V, DeserializeError>>(
        self,
        decode: DV,
        to: NodeId,
        message: SyncContent,
    ) -> bool {
        &&& to == self.follower ==> self.survives(decode, message)
        &&& to == self.owner && self.concerns(message) ==> generation_of(message).at_most(
            self.generation,
        )
    }

    /// `content` does no harm at the node `to`.
    pub open spec fn is_unharmed_by<DV: Fn(&[u8], u32) -> Result<V, DeserializeError>>(
        self,
        decode: DV,
        to: NodeId,
        content: WireContent,
    ) -> bool {
        content matches WireContent::Sync(message) ==> self.is_safe_from(decode, to, message)
    }

    /// The engine of the owner, which encodes by `serialize`, publishes this.
    pub open spec fn is_published_by<S, SV, DV>(
        self,
        engine: EngineModel<S, V>,
        serialize: SV,
        decode: DV,
    ) -> bool where
        SV: Fn(&V) -> Vec<u8>,
        DV: Fn(&[u8], u32) -> Result<V, DeserializeError>,
     {
        &&& engine.shard.node_id == self.owner
        &&& engine.state_name == self.state_name
        &&& engine.shard.state.generation == self.generation
        &&& engine.shard.views.contains_key(self.owner)
        &&& engine.shard.views[self.owner].generation == self.generation
        &&& forall|data: Vec<u8>| #[trigger]
            call_ensures(serialize, (&engine.shard.views[self.owner].value,), data) ==> readable(
                decode,
                data@,
                engine.wire_version,
                self.renders,
            )
    }

    /// The engine of the follower listens to the owner, and is not ahead of it.
    pub open spec fn is_awaited_by<S>(self, engine: EngineModel<S, V>) -> bool {
        &&& engine.shard.node_id == self.follower
        &&& engine.state_name == self.state_name
        &&& !engine.departed.contains(self.owner)
        &&& engine.wire_version == self.wire_version
        &&& self.keeps_stale ==> engine.versions.policy == VersionMismatchPolicy::KeepStale
        &&& engine.shard.views.contains_key(self.owner) ==> {
            let view = engine.shard.views[self.owner];
            view.generation.before(self.generation) || view.generation == self.generation && (
            self.renders)(view.value)
        }
    }

    /// The engine of the follower holds what the owner has published last.
    pub open spec fn is_held_by<S>(self, engine: EngineModel<S, V>) -> bool {
        &&& engine.shard.views.contains_key(self.owner)
        &&& engine.shard.views[self.owner].generation == self.generation
        &&& (self.renders)(engine.shard.views[self.owner].value)
    }
}

/// Every message that an engine sends in answer to a message does no harm.
pub open spec fn harmless_answers<V, DV: Fn(&[u8], u32) -> Result<V, DeserializeError>>(
    push: Push<V>,
    decode: DV,
    sent: Seq<ActionContent>,
) -> bool {
    forall|i: int|
        0 <= i < sent.len() ==> (#[trigger] sent[i]) is SendSync && push.is_safe_from(
            decode,
            sent[i]->target,
            sent[i]->SendSync_message,
        )
}

/// A message that does no harm leaves the owner publishing and the follower waiting or holding;
/// once it brings what the owner has published last, the follower holds it. What is answered
/// does no harm either.
proof fn lemma_inbound<S, V, SV, DV, DA>(
    push: Push<V>,
    serialize: SV,
    decode: DV,
    id: NodeId,
    e0: EngineModel<S, V>,
    e1: EngineModel<S, V>,
    codec: (SV, DV, Option<DA>),
    content: WireContent,
    sent: Seq<ActionContent>,
) where
    SV: Fn(&V) -> Vec<u8>,
    DV: Fn(&[u8], u32) -> Result<V, DeserializeError>,
    DA: Fn(&[u8], u32, &V) -> Result<V, DeserializeError>,

    requires
        push.owner != push.follower,
        e0.shard.node_id == id,
        push.is_unharmed_by(decode, id, content),
        model::inbound_step(e0, e1, codec, content, sent),
        id == push.owner ==> push.is_published_by(e0, serialize, decode) && codec.0 == serialize,
        id == push.follower ==> push.is_awaited_by(e0) && codec.1 == decode,
    ensures
        e1.shard.node_id == id,
        e1.shard.state == e0.shard.state,
        id == push.owner ==> push.is_published_by(e1, serialize, decode),
        id == push.follower ==> push.is_awaited_by(e1),
        id == push.follower && (push.is_held_by(e0) || push.is_carried_by(content))
            ==> push.is_held_by(e1),
        sent.len() <= 1,
        harmless_answers(push, decode, sent),
{
    match content {
        WireContent::Feed(feed) => {
            laws::notices_keep_views(
                e0.shard.views,
                e0.state_name,
                e0.departed,
                change_feed_logic::routed(feed, e0.shard.node_id),
            );
        },
        WireContent::Sync(message) => {
            if let SyncContent::RequestSnapshot { state_name, requester } = message {
            }
        },
    }
}

/// `message` does no harm at the owner nor at the follower.
pub open spec fn harmless<V, DV: Fn(&[u8], u32) -> Result<V, DeserializeError>>(
    push: Push<V>,
    decode: DV,
    message: SyncContent,
) -> bool {
    push.is_safe_from(decode, push.owner, message) && push.is_safe_from(
        decode,
        push.follower,
        message,
    )
}

/// The owner publishes, the follower listens, and no delayed broadcast does harm.
pub open spec fn nodes_in_order<S, V, SV, DV, DA>(
    push: Push<V>,
    nodes: Map<NodeId, NodeModel<S, V>>,
    codecs: Map<NodeId, (SV, DV, Option<DA>)>,
) -> bool where
    SV: Fn(&V) -> Vec<u8>,
    DV: Fn(&[u8], u32) -> Result<V, DeserializeError>,
    DA: Fn(&[u8], u32, &V) -> Result<V, DeserializeError>,
 {
    &&& push.owner != push.follower
    &&& nodes.contains_key(push.owner)
    &&& nodes.contains_key(push.follower)
    &&& forall|id: NodeId| #[trigger]
        nodes.contains_key(id) ==> nodes[id].engine.shard.node_id == id
    &&& push.is_published_by(
        nodes[push.owner].engine,
        codecs[push.owner].0,
        codecs[push.follower].1,
    )
    &&& push.is_awaited_by(nodes[push.follower].engine)
    &&& forall|id: NodeId, k: int|
        nodes.contains_key(id) && 0 <= k < nodes[id].scheduled.len() ==> harmless(
            push,
            codecs[push.follower].1,
            (#[trigger] nodes[id].scheduled[k]).0,
        )
}

/// Every message in transit does no harm where it goes.
pub open spec fn traffic_in_order<V, DV: Fn(&[u8], u32) -> Result<V, DeserializeError>>(
    push: Push<V>,
    decode: DV,
    in_flight: Seq<Flight>,
) -> bool {
    forall|i: int|
        0 <= i < in_flight.len() && transport::holds_message((#[trigger] in_flight[i]).data)
            ==> push.is_unharmed_by(
            decode,
            in_flight[i].to,
            transport::message_in(in_flight[i].data),
        )
}

/// Each of `replies` is one message to one node, and does no harm there.
pub open spec fn harmless_letters<V, DV: Fn(&[u8], u32) -> Result<V, DeserializeError>>(
    push: Push<V>,
    decode: DV,
    replies: Seq<(NodeId, Seq<ActionContent>)>,
) -> bool {
    forall|i: int|
        0 <= i < replies.len() ==> (#[trigger] replies[i]).1.len() == 1 && harmless_answers(
            push,
            decode,
            replies[i].1,
        )
}

/// Delivering messages that do no harm leaves the nodes in order, with harmless answers. The
/// follower keeps what it holds, and holds what the owner has published last once that is among
/// the messages.
proof fn lemma_delivers<S, V, SV, DV, DA>(
    push: Push<V>,
    n0: Map<NodeId, NodeModel<S, V>>,
    n1: Map<NodeId, NodeModel<S, V>>,
    codecs: Map<NodeId, (SV, DV, Option<DA>)>,
    deliveries: Seq<Delivery>,
    replies: Seq<(NodeId, Seq<ActionContent>)>,
) where
    SV: Fn(&V) -> Vec<u8>,
    DV: Fn(&[u8], u32) -> Result<V, DeserializeError>,
    DA: Fn(&[u8], u32, &V) -> Result<V, DeserializeError>,

    requires
        nodes_in_order(push, n0, codecs),
        cluster_model::delivers(n0, n1, codecs, deliveries, replies),
        forall|i: int|
            0 <= i < deliveries.len() ==> push.is_unharmed_by(
                codecs[push.follower].1,
                (#[trigger] deliveries[i]).to,
                deliveries[i].message,
            ),
    ensures
        nodes_in_order(push, n1, codecs),
        n1.dom() == n0.dom(),
        forall|id: NodeId| #[trigger]
            n0.contains_key(id) ==> n1[id] == n0[id].with_engine(n1[id].engine)
                && n1[id].engine.shard.state == n0[id].engine.shard.state,
        push.is_held_by(n0[push.follower].engine) ==> push.is_held_by(n1[push.follower].engine),
        forall|i: int|
            0 <= i < deliveries.len() && (#[trigger] deliveries[i]).to == push.follower
                && push.is_carried_by(deliveries[i].message) ==> push.is_held_by(
                n1[push.follower].engine,
            ),
        harmless_letters(push, codecs[push.follower].1, replies),
    decreases deliveries.len(),
{
    if deliveries.len() > 0 {
        let rest = deliveries.drop_last();
        let last = deliveries.last();
        assert(deliveries[deliveries.len() - 1] == last);
        let (mid, r) = choose|
            mid: Map<NodeId, NodeModel<S, V>>,
            r: Seq<(NodeId, Seq<ActionContent>)>,
        |
            cluster_model::delivers(n0, mid, codecs, rest, r)
                && #[trigger] cluster_model::delivery_step(mid, n1, codecs, last, r, replies);
        assert forall|i: int| 0 <= i < rest.len() implies push.is_unharmed_by(
            codecs[push.follower].1,
            (#[trigger] rest[i]).to,
            rest[i].message,
        ) by {
            assert(rest[i] == deliveries[i]);
        }
        lemma_delivers(push, n0, mid, codecs, rest, r);
        assert forall|i: int|
            0 <= i < rest.len() && (#[trigger] deliveries[i]).to == push.follower
                && push.is_carried_by(deliveries[i].message) implies push.is_held_by(
            mid[push.follower].engine,
        ) by {
            assert(rest[i] == deliveries[i]);
        }
        if mid.contains_key(last.to) {
            let node = mid[last.to];
            let (after, sent) = choose|
                after: EngineModel<S, V>,
                sent: Seq<ActionContent>,
            | #[trigger]
                model::inbound_step(node.engine, after, codecs[last.to], last.message, sent) && n1
                    == mid.insert(last.to, node.with_engine(after)) && replies
                    == cluster_model::with_reply(r, last.to, sent);
            lemma_inbound(
                push,
                codecs[push.owner].0,
                codecs[push.follower].1,
                last.to,
                node.engine,
                after,
                codecs[last.to],
                last.message,
                sent,
            );
            assert(n1.dom() =~= n0.dom());
            assert forall|id: NodeId, k: int|
                n1.contains_key(id) && 0 <= k < n1[id].scheduled.len() implies harmless(
                push,
                codecs[push.follower].1,
                (#[trigger] n1[id].scheduled[k]).0,
            ) by {
                assert(mid.contains_key(id));
                assert(mid[id].scheduled[k] == n1[id].scheduled[k]);
            }
            assert forall|i: int| 0 <= i < replies.len() implies (#[trigger] replies[i]).1.len()
                == 1 && harmless_answers(push, codecs[push.follower].1, replies[i].1) by {
                if i < r.len() {
                    assert(replies[i] == r[i]);
                } else {
                    assert(replies[i] == (last.to, sent));
                }
            }
        }
    }
}

/// The message `flight` brings the follower what the owner has published last.
pub open spec fn is_copy<V>(push: Push<V>, flight: Flight) -> bool {
    &&& flight.to == push.follower
    &&& transport::holds_message(flight.data)
    &&& push.is_carried_by(transport::message_in(flight.data))
}

/// Of messages in transit that do no harm, what is delivered and what waits does none either. A
/// copy of what the owner has published is delivered when it is due, and waits until then.
proof fn lemma_due<V, DV: Fn(&[u8], u32) -> Result<V, DeserializeError>>(
    push: Push<V>,
    decode: DV,
    flights: Seq<Flight>,
    tick: u64,
)
    requires
        traffic_in_order(push, decode, flights),
    ensures
        forall|i: int|
            0 <= i < transport::delivered_of(flights, tick).len() ==> push.is_unharmed_by(
                decode,
                (#[trigger] transport::delivered_of(flights, tick)[i]).to,
                transport::delivered_of(flights, tick)[i].message,
            ),
        traffic_in_order(push, decode, transport::waiting_of(flights, tick)),
        forall|f: Flight| #[trigger]
            flights.contains(f) && is_copy(push, f) ==> if f.deliver_at_tick <= tick {
                exists|i: int|
                    0 <= i < transport::delivered_of(flights, tick).len() && (
                    #[trigger] transport::delivered_of(flights, tick)[i]).to == push.follower
                        && push.is_carried_by(transport::delivered_of(flights, tick)[i].message)
            } else {
                transport::waiting_of(flights, tick).contains(f)
            },
    decreases flights.len(),
{
    if flights.len() > 0 {
        let rest = flights.drop_last();
        let last = flights.last();
        assert(flights[flights.len() - 1] == last);
        assert forall|i: int|
            0 <= i < rest.len() && transport::holds_message((#[trigger] rest[i]).data) implies
            push.is_unharmed_by(decode, rest[i].to, transport::message_in(rest[i].data)) by {
            assert(rest[i] == flights[i]);
        }
        lemma_due(push, decode, rest, tick);
        let d0 = transport::delivered_of(rest, tick);
        let d1 = transport::delivered_of(flights, tick);
        let w0 = transport::waiting_of(rest, tick);
        let w1 = transport::waiting_of(flights, tick);
        assert forall|i: int| 0 <= i < d1.len() implies push.is_unharmed_by(
            decode,
            (#[trigger] d1[i]).to,
            d1[i].message,
        ) by {
            if i < d0.len() {
                assert(d1[i] == d0[i]);
            }
        }
        assert forall|i: int|
            0 <= i < w1.len() && transport::holds_message((#[trigger] w1[i]).data) implies
            push.is_unharmed_by(decode, w1[i].to, transport::message_in(w1[i].data)) by {
            if i < w0.len() {
                assert(w1[i] == w0[i]);
            }
        }
        assert forall|f: Flight| #[trigger] flights.contains(f) && is_copy(push, f) implies
            if f.deliver_at_tick <= tick {
            exists|i: int|
                0 <= i < d1.len() && (#[trigger] d1[i]).to == push.follower && push.is_carried_by(
                    d1[i].message,
                )
        } else {
            w1.contains(f)
        } by {
            let k = flights.index_of(f);
            if k < rest.len() {
                assert(rest[k] == f);
                assert(rest.contains(f));
                if f.deliver_at_tick <= tick {
                    let i = choose|i: int|
                        0 <= i < d0.len() && (#[trigger] d0[i]).to == push.follower
                            && push.is_carried_by(d0[i].message);
                    assert(d1[i] == d0[i]);
                } else {
                    let j = w0.index_of(f);
                    assert(w1[j] == f);
                }
            } else if f.deliver_at_tick <= tick {
                assert(d1[d1.len() - 1].message == transport::message_in(f.data));
            } else {
                assert(w1[w1.len() - 1] == f);
            }
        }
    }
}

/// The network of `t1` is that of `t0`, with everything that was in transit still there; if it
/// did no harm, what has joined it does none either.
pub open spec fn carries_on<V, DV: Fn(&[u8], u32) -> Result<V, DeserializeError>>(
    push: Push<V>,
    decode: DV,
    t0: TransportModel,
    t1: TransportModel,
) -> bool {
    &&& cluster_model::same_network(t0, t1)
    &&& forall|f: Flight| #[trigger] t0.in_flight.contains(f) ==> t1.in_flight.contains(f)
    &&& traffic_in_order(push, decode, t0.in_flight) ==> traffic_in_order(
        push,
        decode,
        t1.in_flight,
    )
}

/// A message that is sent on a clean network joins those in transit.
proof fn lemma_sent<V, DV: Fn(&[u8], u32) -> Result<V, DeserializeError>>(
    push: Push<V>,
    decode: DV,
    t0: TransportModel,
    t1: TransportModel,
    from: NodeId,
    to: NodeId,
    content: WireContent,
)
    requires
        t0.pipeline.len == 0,
        transport::sends(t0, t1, from, to, codec::wire_bytes(content)),
        push.is_unharmed_by(decode, to, content),
    ensures
        carries_on(push, decode, t0, t1),
        t1.in_flight.contains(
            Flight {
                from,
                to,
                data: codec::wire_bytes(content),
                deliver_at_tick: transport::arrival(t0.current_tick, 0),
            },
        ),
        transport::holds_message(codec::wire_bytes(content)),
        transport::message_in(codec::wire_bytes(content)) == content,
{
    let data = codec::wire_bytes(content);
    transport_laws::clean_network_takes_message(t0, t1, from, to, data);
    transport_laws::message_survives_the_wire(content);
    assert(t1.in_flight[t0.in_flight.len() as int] == t1.in_flight.last());
    assert forall|f: Flight| #[trigger] t0.in_flight.contains(f) implies t1.in_flight.contains(
        f,
    ) by {
        let k = t0.in_flight.index_of(f);
        assert(t1.in_flight[k] == f);
    }
    if traffic_in_order(push, decode, t0.in_flight) {
        assert forall|i: int|
            0 <= i < t1.in_flight.len() && transport::holds_message(
                (#[trigger] t1.in_flight[i]).data,
            ) implies push.is_unharmed_by(
            decode,
            t1.in_flight[i].to,
            transport::message_in(t1.in_flight[i].data),
        ) by {
            if i < t0.in_flight.len() {
                assert(t1.in_flight[i] == t0.in_flight[i]);
            }
        }
    }
}

/// A broadcast on a clean network of what does no harm joins what is in transit, with a copy for
/// every other node.
pub(crate) proof fn lemma_broadcast<V, DV: Fn(&[u8], u32) -> Result<V, DeserializeError>>(
    push: Push<V>,
    decode: DV,
    t0: TransportModel,
    t1: TransportModel,
    from: NodeId,
    content: WireContent,
    targets: Seq<NodeId>,
)
    requires
        t0.pipeline.len == 0,
        transport::broadcasts(t0, t1, from, codec::wire_bytes(content), targets),
        forall|i: int|
            0 <= i < targets.len() ==> push.is_unharmed_by(
                decode,
                #[trigger] targets[i],
                content,
            ),
    ensures
        carries_on(push, decode, t0, t1),
        targets.contains(push.follower) && from != push.follower && push.is_carried_by(content)
            ==> exists|f: Flight| #[trigger]
            t1.in_flight.contains(f) && is_copy(push, f) && f.deliver_at_tick
                == transport::arrival(t0.current_tick, 0),
    decreases targets.len(),
{
    if targets.len() > 0 {
        let data = codec::wire_bytes(content);
        let rest = targets.drop_last();
        let last = targets.last();
        assert(targets[targets.len() - 1] == last);
        let mid = choose|mid: TransportModel|
            transport::broadcasts(t0, mid, from, data, rest) && #[trigger] transport::sends_to_other(
                mid,
                t1,
                from,
                last,
                data,
            );
        assert forall|i: int| 0 <= i < rest.len() implies push.is_unharmed_by(
            decode,
            #[trigger] rest[i],
            content,
        ) by {
            assert(rest[i] == targets[i]);
        }
        lemma_broadcast(push, decode, t0, mid, from, content, rest);
        if last != from {
            lemma_sent(push, decode, mid, t1, from, last, content);
        }
        if targets.contains(push.follower) && from != push.follower && push.is_carried_by(
            content,
        ) {
            if last == push.follower {
                let f = Flight {
                    from,
                    to: last,
                    data,
                    deliver_at_tick: transport::arrival(t0.current_tick, 0),
                };
                assert(t1.in_flight.contains(f) && is_copy(push, f));
            } else {
                let k = targets.index_of(push.follower);
                assert(rest[k] == push.follower);
                let f = choose|f: Flight| #[trigger]
                    mid.in_flight.contains(f) && is_copy(push, f) && f.deliver_at_tick
                        == transport::arrival(t0.current_tick, 0);
                assert(t1.in_flight.contains(f));
            }
        }
    }
}

/// Letters that do no harm join what is in transit.
proof fn lemma_posted<V, DV: Fn(&[u8], u32) -> Result<V, DeserializeError>>(
    push: Push<V>,
    decode: DV,
    t0: TransportModel,
    t1: TransportModel,
    replies: Seq<(NodeId, Seq<ActionContent>)>,
)
    requires
        cluster_laws::posts(t0, t1, replies),
        harmless_letters(push, decode, replies),
    ensures
        carries_on(push, decode, t0, t1),
{
    let n = t0.in_flight.len() as int;
    let posted = cluster_laws::posted(replies, t0.current_tick);
    assert forall|f: Flight| #[trigger] t0.in_flight.contains(f) implies t1.in_flight.contains(
        f,
    ) by {
        let k = t0.in_flight.index_of(f);
        assert(t1.in_flight[k] == f);
    }
    if traffic_in_order(push, decode, t0.in_flight) {
        assert forall|i: int|
            0 <= i < t1.in_flight.len() && transport::holds_message(
                (#[trigger] t1.in_flight[i]).data,
            ) implies push.is_unharmed_by(
            decode,
            t1.in_flight[i].to,
            transport::message_in(t1.in_flight[i].data),
        ) by {
            if i < n {
                assert(t1.in_flight[i] == t0.in_flight[i]);
            } else {
                let letter = replies[i - n];
                assert(t1.in_flight[i] == posted[i - n]);
                assert(letter.1[0] is SendSync);
                transport_laws::message_survives_the_wire(
                    WireContent::Sync(letter.1[0]->SendSync_message),
                );
            }
        }
    }
}

/// What is due of delayed broadcasts, and what stays pending, were among them; a message is due
/// or stays pending.
proof fn lemma_due_or_pending(scheduled: Seq<(SyncContent, u64)>, tick: u64)
    ensures
        forall|i: int|
            0 <= i < cluster_model::due_of(scheduled, tick).len() ==> exists|k: int|
                0 <= k < scheduled.len() && (#[trigger] scheduled[k]).0
                    == #[trigger] cluster_model::due_of(scheduled, tick)[i],
        forall|i: int|
            0 <= i < cluster_model::pending_of(scheduled, tick).len() ==> scheduled.contains(
                #[trigger] cluster_model::pending_of(scheduled, tick)[i],
            ),
        forall|k: int|
            0 <= k < scheduled.len() ==> cluster_model::due_of(scheduled, tick).contains(
                (#[trigger] scheduled[k]).0,
            ) || cluster_model::pending_of(scheduled, tick).contains(scheduled[k]),
    decreases scheduled.len(),
{
    if scheduled.len() > 0 {
        let rest = scheduled.drop_last();
        let last = scheduled.last();
        assert(scheduled[scheduled.len() - 1] == last);
        lemma_due_or_pending(rest, tick);
        let d0 = cluster_model::due_of(rest, tick);
        let d1 = cluster_model::due_of(scheduled, tick);
        let p0 = cluster_model::pending_of(rest, tick);
        let p1 = cluster_model::pending_of(scheduled, tick);
        assert forall|i: int| 0 <= i < d1.len() implies exists|k: int|
            0 <= k < scheduled.len() && (#[trigger] scheduled[k]).0 == #[trigger] d1[i] by {
            if i < d0.len() {
                assert(d1[i] == d0[i]);
                let k = choose|k: int| 0 <= k < rest.len() && (#[trigger] rest[k]).0 == d0[i];
                assert(scheduled[k] == rest[k]);
            } else {
                assert(scheduled[scheduled.len() - 1].0 == d1[i]);
            }
        }
        assert forall|i: int| 0 <= i < p1.len() implies scheduled.contains(#[trigger] p1[i]) by {
            if i < p0.len() {
                assert(p1[i] == p0[i]);
                let k = rest.index_of(p0[i]);
                assert(scheduled[k] == p1[i]);
            }
        }
        assert forall|k: int| 0 <= k < scheduled.len() implies d1.contains(
            (#[trigger] scheduled[k]).0,
        ) || p1.contains(scheduled[k]) by {
            if k < rest.len() {
                assert(rest[k] == scheduled[k]);
                if d0.contains(rest[k].0) {
                    let i = d0.index_of(rest[k].0);
                    assert(d1[i] == rest[k].0);
                } else {
                    let i = p0.index_of(rest[k]);
                    assert(p1[i] == rest[k]);
                }
            } else if last.1 <= tick {
                assert(d1[d1.len() - 1] == last.0);
            } else {
                assert(p1[p1.len() - 1] == last);
            }
        }
    }
}

/// Broadcasting several messages that do no harm.
proof fn lemma_broadcasts<V, DV: Fn(&[u8], u32) -> Result<V, DeserializeError>>(
    push: Push<V>,
    decode: DV,
    t0: TransportModel,
    t1: TransportModel,
    from: NodeId,
    ids: Seq<NodeId>,
    messages: Seq<SyncContent>,
)
    requires
        t0.pipeline.len == 0,
        cluster_model::broadcasts_each(t0, t1, from, ids, messages),
        forall|i: int| 0 <= i < messages.len() ==> harmless(push, decode, #[trigger] messages[i]),
    ensures
        carries_on(push, decode, t0, t1),
        forall|i: int|
            0 <= i < messages.len() && push.is_carried_by(
                WireContent::Sync(#[trigger] messages[i]),
            ) && ids.contains(push.follower) && from != push.follower ==> in_transit(
                push,
                t1.in_flight,
            ),
    decreases messages.len(),
{
    if messages.len() > 0 {
        let rest = messages.drop_last();
        let last = messages.last();
        assert(messages[messages.len() - 1] == last);
        let mid = choose|mid: TransportModel|
            cluster_model::broadcasts_each(t0, mid, from, ids, rest)
                && #[trigger] cluster_model::broadcast_step(mid, t1, from, ids, last);
        assert forall|i: int| 0 <= i < rest.len() implies harmless(
            push,
            decode,
            #[trigger] rest[i],
        ) by {
            assert(rest[i] == messages[i]);
        }
        lemma_broadcasts(push, decode, t0, mid, from, ids, rest);
        lemma_broadcast(push, decode, mid, t1, from, WireContent::Sync(last), ids);
        assert forall|i: int|
            0 <= i < messages.len() && push.is_carried_by(
                WireContent::Sync(#[trigger] messages[i]),
            ) && ids.contains(push.follower) && from != push.follower implies in_transit(
            push,
            t1.in_flight,
        ) by {
            if i < rest.len() {
                assert(rest[i] == messages[i]);
                let f = choose|f: Flight| #[trigger]
                    mid.in_flight.contains(f) && is_copy(push, f);
                assert(t1.in_flight.contains(f));
            }
        }
    }
}

/// A copy of what the owner has published last is on its way to the follower.
pub open spec fn in_transit<V>(push: Push<V>, in_flight: Seq<Flight>) -> bool {
    exists|f: Flight| #[trigger] in_flight.contains(f) && is_copy(push, f)
}

/// A delayed broadcast of what the owner has published last is pending.
pub open spec fn pending<V>(push: Push<V>, scheduled: Seq<(SyncContent, u64)>) -> bool {
    exists|k: int|
        0 <= k < scheduled.len() && push.is_carried_by(
            WireContent::Sync((#[trigger] scheduled[k]).0),
        )
}

/// A cluster in which nothing keeps the follower from what the owner has published last.
pub open spec fn in_order<S, V, SV, DV, DA>(
    push: Push<V>,
    c: ClusterModel<S, V>,
    codecs: Map<NodeId, (SV, DV, Option<DA>)>,
) -> bool where
    SV: Fn(&V) -> Vec<u8>,
    DV: Fn(&[u8], u32) -> Result<V, DeserializeError>,
    DA: Fn(&[u8], u32, &V) -> Result<V, DeserializeError>,
 {
    &&& c.transport.pipeline.len == 0
    &&& nodes_in_order(push, c.nodes, codecs)
    &&& traffic_in_order(push, codecs[push.follower].1, c.transport.in_flight)
}

/// The follower holds what the owner has published last, or it is on its way.
pub open spec fn held_or_coming<S, V>(push: Push<V>, c: ClusterModel<S, V>) -> bool {
    ||| push.is_held_by(c.nodes[push.follower].engine)
    ||| in_transit(push, c.transport.in_flight)
    ||| pending(push, c.nodes[push.owner].scheduled)
}

/// `c1` is `c0`, whatever traffic has joined and whatever is scheduled or announced: in order as
/// it was, with nothing lost.
spec fn goes_on<S, V, SV, DV, DA>(
    push: Push<V>,
    codecs: Map<NodeId, (SV, DV, Option<DA>)>,
    c0: ClusterModel<S, V>,
    c1: ClusterModel<S, V>,
) -> bool where
    SV: Fn(&V) -> Vec<u8>,
    DV: Fn(&[u8], u32) -> Result<V, DeserializeError>,
    DA: Fn(&[u8], u32, &V) -> Result<V, DeserializeError>,
 {
    &&& in_order(push, c1, codecs)
    &&& carries_on(push, codecs[push.follower].1, c0.transport, c1.transport)
    &&& c1.nodes.dom() == c0.nodes.dom()
    &&& forall|id: NodeId| #[trigger]
        c0.nodes.contains_key(id) ==> cluster_model::same_but_feed(
            c0.nodes[id].engine,
            c1.nodes[id].engine,
        )
    &&& held_or_coming(push, c0) ==> held_or_coming(push, c1)
    &&& c1.current_tick == c0.current_tick
}

/// The timers of one node leave the cluster in order.
proof fn lemma_timer<S, V, SV, DV, DA>(
    push: Push<V>,
    codecs: Map<NodeId, (SV, DV, Option<DA>)>,
    c0: ClusterModel<S, V>,
    c1: ClusterModel<S, V>,
    ids: Seq<NodeId>,
    id: NodeId,
) where
    SV: Fn(&V) -> Vec<u8>,
    DV: Fn(&[u8], u32) -> Result<V, DeserializeError>,
    DA: Fn(&[u8], u32, &V) -> Result<V, DeserializeError>,

    requires
        in_order(push, c0, codecs),
        ids.contains(push.follower),
        c0.nodes.contains_key(id),
        cluster_model::timer_step(c0, c1, ids, id),
    ensures
        goes_on(push, codecs, c0, c1),
{
    let decode = codecs[push.follower].1;
    let scheduled = c0.nodes[id].scheduled;
    let due = cluster_model::due_of(scheduled, c0.current_tick);
    let later = cluster_model::pending_of(scheduled, c0.current_tick);
    lemma_due_or_pending(scheduled, c0.current_tick);
    assert forall|i: int| 0 <= i < due.len() implies harmless(push, decode, #[trigger] due[i]) by {
        let k = choose|k: int| 0 <= k < scheduled.len() && (#[trigger] scheduled[k]).0 == due[i];
        assert(harmless(push, decode, c0.nodes[id].scheduled[k].0));
    }
    lemma_broadcasts(push, decode, c0.transport, c1.transport, id, ids, due);
    assert(c1.nodes.dom() =~= c0.nodes.dom());
    assert forall|k: NodeId, j: int|
        c1.nodes.contains_key(k) && 0 <= j < c1.nodes[k].scheduled.len() implies harmless(
        push,
        decode,
        (#[trigger] c1.nodes[k].scheduled[j]).0,
    ) by {
        if k == id {
            let i = scheduled.index_of(later[j]);
            assert(c0.nodes[id].scheduled[i] == later[j]);
        } else {
            assert(c0.nodes[k].scheduled[j] == c1.nodes[k].scheduled[j]);
        }
    }
    if held_or_coming(push, c0) {
        if push.is_held_by(c0.nodes[push.follower].engine) {
            assert(push.is_held_by(c1.nodes[push.follower].engine));
        } else if in_transit(push, c0.transport.in_flight) {
            let f = choose|f: Flight| #[trigger]
                c0.transport.in_flight.contains(f) && is_copy(push, f);
            assert(c1.transport.in_flight.contains(f));
        } else {
            let owned = c0.nodes[push.owner].scheduled;
            let k = choose|k: int|
                0 <= k < owned.len() && push.is_carried_by(
                    WireContent::Sync((#[trigger] owned[k]).0),
                );
            if id == push.owner {
                if due.contains(owned[k].0) {
                    let i = due.index_of(owned[k].0);
                    assert(push.is_carried_by(WireContent::Sync(due[i])));
                    assert(in_transit(push, c1.transport.in_flight));
                } else {
                    let j = later.index_of(owned[k]);
                    assert(c1.nodes[push.owner].scheduled[j] == owned[k]);
                    assert(pending(push, c1.nodes[push.owner].scheduled));
                }
            } else {
                assert(c1.nodes[push.owner].scheduled[k] == owned[k]);
            }
        }
    }
}

/// The timers of several nodes leave the cluster in order.
proof fn lemma_timers<S, V, SV, DV, DA>(
    push: Push<V>,
    codecs: Map<NodeId, (SV, DV, Option<DA>)>,
    c0: ClusterModel<S, V>,
    c1: ClusterModel<S, V>,
    ids: Seq<NodeId>,
    which: Seq<NodeId>,
) where
    SV: Fn(&V) -> Vec<u8>,
    DV: Fn(&[u8], u32) -> Result<V, DeserializeError>,
    DA: Fn(&[u8], u32, &V) -> Result<V, DeserializeError>,

    requires
        in_order(push, c0, codecs),
        ids.contains(push.follower),
        forall|i: int| 0 <= i < which.len() ==> c0.nodes.contains_key(#[trigger] which[i]),
        cluster_model::timers(c0, c1, ids, which),
    ensures
        goes_on(push, codecs, c0, c1),
    decreases which.len(),
{
    if which.len() > 0 {
        let rest = which.drop_last();
        let mid = choose|mid: ClusterModel<S, V>|
            cluster_model::timers(c0, mid, ids, rest) && #[trigger] cluster_model::timer_step(
                mid,
                c1,
                ids,
                which.last(),
            );
        lemma_timers(push, codecs, c0, mid, ids, rest);
        assert(c0.nodes.contains_key(which[which.len() - 1]));
        lemma_timer(push, codecs, mid, c1, ids, which.last());
        lemma_goes_on(push, codecs, c0, mid, c1);
    }
}

/// What goes on and on goes on.
proof fn lemma_goes_on<S, V, SV, DV, DA>(
    push: Push<V>,
    codecs: Map<NodeId, (SV, DV, Option<DA>)>,
    c0: ClusterModel<S, V>,
    c1: ClusterModel<S, V>,
    c2: ClusterModel<S, V>,
) where
    SV: Fn(&V) -> Vec<u8>,
    DV: Fn(&[u8], u32) -> Result<V, DeserializeError>,
    DA: Fn(&[u8], u32, &V) -> Result<V, DeserializeError>,

    requires
        goes_on(push, codecs, c0, c1),
        goes_on(push, codecs, c1, c2),
    ensures
        goes_on(push, codecs, c0, c2),
{
    assert forall|id: NodeId| #[trigger]
        c0.nodes.contains_key(id) implies cluster_model::same_but_feed(
        c0.nodes[id].engine,
        c2.nodes[id].engine,
    ) by {
        assert(c1.nodes.contains_key(id));
    }
}

/// The change feed of one node leaves the cluster in order.
proof fn lemma_feed<S, V, SV, DV, DA>(
    push: Push<V>,
    codecs: Map<NodeId, (SV, DV, Option<DA>)>,
    c0: ClusterModel<S, V>,
    c1: ClusterModel<S, V>,
    ids: Seq<NodeId>,
    id: NodeId,
) where
    SV: Fn(&V) -> Vec<u8>,
    DV: Fn(&[u8], u32) -> Result<V, DeserializeError>,
    DA: Fn(&[u8], u32, &V) -> Result<V, DeserializeError>,

    requires
        in_order(push, c0, codecs),
        c0.nodes.contains_key(id),
        cluster_model::feed_step(c0, c1, ids, id),
    ensures
        goes_on(push, codecs, c0, c1),
{
    let decode = codecs[push.follower].1;
    let node = c0.nodes[id];
    if node.flush_counter + 1 >= node.flush_interval && node.engine.feed.len() > 0 {
        let content = WireContent::Feed(
            FeedContent {
                source_node: node.engine.shard.node_id,
                notifications: node.engine.feed,
            },
        );
        lemma_broadcast(push, decode, c0.transport, c1.transport, id, content, ids);
    }
    assert(c1.nodes.dom() =~= c0.nodes.dom());
    assert forall|k: NodeId, j: int|
        c1.nodes.contains_key(k) && 0 <= j < c1.nodes[k].scheduled.len() implies harmless(
        push,
        decode,
        (#[trigger] c1.nodes[k].scheduled[j]).0,
    ) by {
        assert(c0.nodes[k].scheduled[j] == c1.nodes[k].scheduled[j]);
    }
    if held_or_coming(push, c0) {
        if push.is_held_by(c0.nodes[push.follower].engine) {
            assert(push.is_held_by(c1.nodes[push.follower].engine));
        } else if in_transit(push, c0.transport.in_flight) {
            let f = choose|f: Flight| #[trigger]
                c0.transport.in_flight.contains(f) && is_copy(push, f);
            assert(c1.transport.in_flight.contains(f));
        } else {
            assert(c1.nodes[push.owner].scheduled == c0.nodes[push.owner].scheduled);
        }
    }
}

/// The change feeds of several nodes leave the cluster in order.
proof fn lemma_feeds<S, V, SV, DV, DA>(
    push: Push<V>,
    codecs: Map<NodeId, (SV, DV, Option<DA>)>,
    c0: ClusterModel<S, V>,
    c1: ClusterModel<S, V>,
    ids: Seq<NodeId>,
    which: Seq<NodeId>,
) where
    SV: Fn(&V) -> Vec<u8>,
    DV: Fn(&[u8], u32) -> Result<V, DeserializeError>,
    DA: Fn(&[u8], u32, &V) -> Result<V, DeserializeError>,

    requires
        in_order(push, c0, codecs),
        forall|i: int| 0 <= i < which.len() ==> c0.nodes.contains_key(#[trigger] which[i]),
        cluster_model::feeds(c0, c1, ids, which),
    ensures
        goes_on(push, codecs, c0, c1),
    decreases which.len(),
{
    if which.len() > 0 {
        let rest = which.drop_last();
        let mid = choose|mid: ClusterModel<S, V>|
            cluster_model::feeds(c0, mid, ids, rest) && #[trigger] cluster_model::feed_step(
                mid,
                c1,
                ids,
                which.last(),
            );
        lemma_feeds(push, codecs, c0, mid, ids, rest);
        assert(c0.nodes.contains_key(which[which.len() - 1]));
        lemma_feed(push, codecs, mid, c1, ids, which.last());
        lemma_goes_on(push, codecs, c0, mid, c1);
    }
}

/// Nothing that a tick does keeps the follower from what the owner has published last: a cluster
/// that is in order stays so, and what the follower holds, or is on its way to it, it keeps or
/// stays on its way. A copy that is due is held after the tick.
pub proof fn tick_brings_what_is_published<S, V, SV, DV, DA>(
    push: Push<V>,
    codecs: Map<NodeId, (SV, DV, Option<DA>)>,
    c0: ClusterModel<S, V>,
    c1: ClusterModel<S, V>,
    ids: Seq<NodeId>,
) where
    SV: Fn(&V) -> Vec<u8>,
    DV: Fn(&[u8], u32) -> Result<V, DeserializeError>,
    DA: Fn(&[u8], u32, &V) -> Result<V, DeserializeError>,

    requires
        in_order(push, c0, codecs),
        ids.contains(push.follower),
        forall|i: int| 0 <= i < ids.len() ==> c0.nodes.contains_key(#[trigger] ids[i]),
        cluster_model::tick_step(c0, c1, codecs, ids),
    ensures
        in_order(push, c1, codecs),
        c1.nodes.dom() == c0.nodes.dom(),
        c1.transport.current_tick == (c0.transport.current_tick + 1) as u64,
        held_or_coming(push, c0) ==> held_or_coming(push, c1),
        push.is_held_by(c0.nodes[push.follower].engine) ==> push.is_held_by(
            c1.nodes[push.follower].engine,
        ),
        forall|f: Flight| #[trigger]
            c0.transport.in_flight.contains(f) && is_copy(push, f) ==> if f.deliver_at_tick
                <= c0.transport.current_tick {
                push.is_held_by(c1.nodes[push.follower].engine)
            } else {
                c1.transport.in_flight.contains(f)
            },
{
    let decode = codecs[push.follower].1;
    let flights = c0.transport.in_flight;
    let tick = c0.transport.current_tick;
    let (nodes, replies, routed, timed, flushed) = choose|
        nodes: Map<NodeId, NodeModel<S, V>>,
        replies: Seq<(NodeId, Seq<ActionContent>)>,
        routed: ClusterModel<S, V>,
        timed: ClusterModel<S, V>,
        flushed: ClusterModel<S, V>,
    |
        #![trigger
            cluster_model::delivers(
                c0.nodes,
                nodes,
                codecs,
                transport::delivered_of(c0.transport.in_flight, c0.transport.current_tick),
                replies,
            ),
            cluster_model::timers(routed, timed, ids, ids),
            cluster_model::feeds(timed, flushed, ids, ids)]
        {
            &&& cluster_model::delivers(
                c0.nodes,
                nodes,
                codecs,
                transport::delivered_of(c0.transport.in_flight, c0.transport.current_tick),
                replies,
            )
            &&& cluster_model::routes_all(
                cluster_model::after_delivery(c0, nodes),
                routed,
                ids,
                replies,
            )
            &&& cluster_model::timers(routed, timed, ids, ids)
            &&& cluster_model::feeds(timed, flushed, ids, ids)
            &&& c1 == cluster_model::ticked(flushed)
        };
    let due = transport::delivered_of(flights, tick);
    let delivered = cluster_model::after_delivery(c0, nodes);
    lemma_due(push, decode, flights, tick);
    lemma_delivers(push, c0.nodes, nodes, codecs, due, replies);
    cluster_laws::letters_are_posted(delivered, routed, ids, replies);
    lemma_posted(push, decode, delivered.transport, routed.transport, replies);
    assert(in_order(push, routed, codecs));
    lemma_timers(push, codecs, routed, timed, ids, ids);
    lemma_feeds(push, codecs, timed, flushed, ids, ids);
    lemma_goes_on(push, codecs, routed, timed, flushed);
    let follower = push.follower;
    assert(routed.nodes.contains_key(follower));
    assert(cluster_model::same_but_feed(
        routed.nodes[follower].engine,
        flushed.nodes[follower].engine,
    ));
    assert(push.is_held_by(nodes[follower].engine) ==> push.is_held_by(
        c1.nodes[follower].engine,
    ));
    assert forall|f: Flight| #[trigger] flights.contains(f) && is_copy(push, f) implies if
        f.deliver_at_tick <= tick {
        push.is_held_by(c1.nodes[follower].engine)
    } else {
        c1.transport.in_flight.contains(f)
    } by {
        if f.deliver_at_tick > tick {
            assert(delivered.transport.in_flight.contains(f));
            assert(routed.transport.in_flight.contains(f));
        }
    }
    if held_or_coming(push, c0) {
        if push.is_held_by(c0.nodes[follower].engine) {
        } else if in_transit(push, flights) {
            let f = choose|f: Flight| #[trigger] flights.contains(f) && is_copy(push, f);
            assert(flights.contains(f) && is_copy(push, f));
        } else {
            assert(c0.nodes.contains_key(push.owner));
            assert(routed.nodes[push.owner].scheduled == c0.nodes[push.owner].scheduled);
            assert(held_or_coming(push, routed));
            assert(held_or_coming(push, flushed));
        }
        assert(held_or_coming(push, c1));
    }
}

/// The same holds of any number of ticks.
pub proof fn ticks_bring_what_is_published<S, V, SV, DV, DA>(
    push: Push<V>,
    codecs: Map<NodeId, (SV, DV, Option<DA>)>,
    c0: ClusterModel<S, V>,
    c1: ClusterModel<S, V>,
    ids: Seq<NodeId>,
    n: nat,
) where
    SV: Fn(&V) -> Vec<u8>,
    DV: Fn(&[u8], u32) -> Result<V, DeserializeError>,
    DA: Fn(&[u8], u32, &V) -> Result<V, DeserializeError>,

    requires
        in_order(push, c0, codecs),
        held_or_coming(push, c0),
        ids.contains(push.follower),
        forall|i: int| 0 <= i < ids.len() ==> c0.nodes.contains_key(#[trigger] ids[i]),
        cluster_model::runs(c0, c1, codecs, ids, n),
    ensures
        in_order(push, c1, codecs),
        held_or_coming(push, c1),
        c1.nodes.dom() == c0.nodes.dom(),
    decreases n,
{
    if n > 0 {
        let m = (n - 1) as nat;
        let mid = choose|mid: ClusterModel<S, V>|
            cluster_model::runs(c0, mid, codecs, ids, m) && #[trigger] cluster_model::tick_step(
                mid,
                c1,
                codecs,
                ids,
            );
        ticks_bring_what_is_published(push, codecs, c0, mid, ids, m);
        tick_brings_what_is_published(push, codecs, mid, c1, ids);
    }
}

/// Settling is so many ticks.
pub proof fn settling_is_ticking<S, V, SV, DV, DA>(
    c0: ClusterModel<S, V>,
    c1: ClusterModel<S, V>,
    codecs: Map<NodeId, (SV, DV, Option<DA>)>,
    ids: Seq<NodeId>,
    n: nat,
) where
    SV: Fn(&V) -> Vec<u8>,
    DV: Fn(&[u8], u32) -> Result<V, DeserializeError>,
    DA: Fn(&[u8], u32, &V) -> Result<V, DeserializeError>,

    requires
        cluster_model::works(c0, c1, codecs, ids, n),
    ensures
        cluster_model::runs(c0, c1, codecs, ids, n),
    decreases n,
{
    if n > 0 {
        let m = (n - 1) as nat;
        let mid = choose|mid: ClusterModel<S, V>|
            cluster_model::works(c0, mid, codecs, ids, m) && !mid.settled()
                && #[trigger] cluster_model::tick_step(mid, c1, codecs, ids);
        settling_is_ticking(c0, mid, codecs, ids, m);
    }
}

/// In a settled cluster nothing is on its way: the follower holds what the owner has published
/// last.
pub proof fn settled_follower_holds<S, V, SV, DV, DA>(
    push: Push<V>,
    codecs: Map<NodeId, (SV, DV, Option<DA>)>,
    c: ClusterModel<S, V>,
) where
    SV: Fn(&V) -> Vec<u8>,
    DV: Fn(&[u8], u32) -> Result<V, DeserializeError>,
    DA: Fn(&[u8], u32, &V) -> Result<V, DeserializeError>,

    requires
        in_order(push, c, codecs),
        held_or_coming(push, c),
        c.settled(),
    ensures
        push.is_held_by(c.nodes[push.follower].engine),
{
    assert(c.nodes.contains_key(push.owner));
}

/// What is in transit or scheduled of the owner's states is not newer than its state, and is
/// understood by the follower.
pub open spec fn undisturbed<S, V, SV, DV, DA>(
    push: Push<V>,
    c: ClusterModel<S, V>,
    codecs: Map<NodeId, (SV, DV, Option<DA>)>,
) -> bool where
    SV: Fn(&V) -> Vec<u8>,
    DV: Fn(&[u8], u32) -> Result<V, DeserializeError>,
    DA: Fn(&[u8], u32, &V) -> Result<V, DeserializeError>,
 {
    let decode = codecs[push.follower].1;
    &&& forall|i: int|
        0 <= i < c.transport.in_flight.len() && transport::holds_message(
            (#[trigger] c.transport.in_flight[i]).data,
        ) ==> (transport::message_in(c.transport.in_flight[i].data) matches WireContent::Sync(
            message,
        ) ==> is_old_news(push, decode, c.transport.in_flight[i].to, message))
    &&& forall|id: NodeId, k: int|
        c.nodes.contains_key(id) && 0 <= k < c.nodes[id].scheduled.len() ==> is_old_news(
            push,
            decode,
            push.owner,
            (#[trigger] c.nodes[id].scheduled[k]).0,
        ) && is_old_news(push, decode, push.follower, c.nodes[id].scheduled[k].0)
}

/// `message` brings the node `to` no newer state of the owner than is published; if `to` is the
/// follower, it understands the message.
pub open spec fn is_old_news<V, DV: Fn(&[u8], u32) -> Result<V, DeserializeError>>(
    push: Push<V>,
    decode: DV,
    to: NodeId,
    message: SyncContent,
) -> bool {
    push.concerns(message) && (to == push.owner || to == push.follower) ==> generation_of(
        message,
    ).at_most(push.generation) && (to == push.follower ==> push.is_understood(decode, message))
}

/// In a cluster that is in order, the owner can publish anew.
pub proof fn order_is_undisturbed<S, V, SV, DV, DA>(
    push: Push<V>,
    codecs: Map<NodeId, (SV, DV, Option<DA>)>,
    c: ClusterModel<S, V>,
) where
    SV: Fn(&V) -> Vec<u8>,
    DV: Fn(&[u8], u32) -> Result<V, DeserializeError>,
    DA: Fn(&[u8], u32, &V) -> Result<V, DeserializeError>,

    requires
        in_order(push, c, codecs),
    ensures
        undisturbed(push, c, codecs),
{
    let decode = codecs[push.follower].1;
    assert forall|i: int|
        0 <= i < c.transport.in_flight.len() && transport::holds_message(
            (#[trigger] c.transport.in_flight[i]).data,
        ) implies (transport::message_in(c.transport.in_flight[i].data) matches WireContent::Sync(
        message,
    ) ==> is_old_news(push, decode, c.transport.in_flight[i].to, message)) by {
        assert(push.is_unharmed_by(
            decode,
            c.transport.in_flight[i].to,
            transport::message_in(c.transport.in_flight[i].data),
        ));
    }
}

} // verus!
