//! A simulated cluster for deterministic integration testing.
//!
//! [`MockCluster`] manages a set of [`MockNode`]s, each with an engine, and a transport that
//! routes serialized messages between them.
use std::sync::Arc;
use vstd::prelude::*;

use crate::engine;
use crate::engine::{DistributedStateEngine, EngineAction, WireMessage};
use crate::engine::laws;
use crate::engine::model;
use crate::node_map::NodeMap;
use crate::replica::shard_core;
use crate::sim::cluster_laws;
use crate::sim::cluster_model;
use crate::sim::cluster_model::{ClusterModel, NodeModel};
use crate::sim::interceptor::Pipeline;
use crate::sim::transport;
use crate::sim::transport::{DeliveredMessage, Delivery, MockTransport, TransportModel};
use crate::sim::transport_laws;
use crate::test_support::test_clock::TestClock;
use crate::traits::clock::Clock;
use crate::traits::state::SyncUrgency;
use crate::types::errors::DeserializeError;
use crate::types::node::NodeId;
use crate::types::sync_message::{BatchedChangeFeed, SyncContent, SyncMessage};
use crate::types::time::Duration;

verus! {

/// A delayed broadcast.
#[derive(Debug)]
struct ScheduledAction {
    message: SyncMessage,
    deliver_at_tick: u64,
}

/// The contents of a list of delayed broadcasts.
spec fn scheduled_contents(list: Seq<ScheduledAction>) -> Seq<(SyncContent, u64)> {
    Seq::new(list.len(), |i: int| (list[i].message@, list[i].deliver_at_tick))
}

/// A node in the simulated cluster.
#[derive(Debug)]
pub struct MockNode<S, V, C, SV, DV, DA> {
    pub engine: DistributedStateEngine<S, V, C, SV, DV, DA>,
    /// Delayed broadcasts (from `EngineAction::ScheduleDelayed`).
    scheduled: Vec<ScheduledAction>,
    /// Ticks since the change feed was flushed.
    feed_flush_counter: u64,
    /// Ticks between flushes of the change feed.
    feed_flush_interval: u64,
}

impl<S, V, C: Clock, SV, DV, DA> View for MockNode<S, V, C, SV, DV, DA> {
    type V = NodeModel<S, V>;

    closed spec fn view(&self) -> NodeModel<S, V> {
        NodeModel {
            engine: self.engine@,
            scheduled: scheduled_contents(self.scheduled@),
            flush_counter: self.feed_flush_counter,
            flush_interval: self.feed_flush_interval,
        }
    }
}

/// The models of the nodes of a cluster.
spec fn node_models<S, V, C: Clock, SV, DV, DA>(
    nodes: Map<NodeId, MockNode<S, V, C, SV, DV, DA>>,
) -> Map<NodeId, NodeModel<S, V>> {
    nodes.map_values(|n: MockNode<S, V, C, SV, DV, DA>| n@)
}

/// Replacing a node replaces its model.
proof fn lemma_node_models<S, V, C: Clock, SV, DV, DA>(
    nodes: Map<NodeId, MockNode<S, V, C, SV, DV, DA>>,
    id: NodeId,
    node: MockNode<S, V, C, SV, DV, DA>,
)
    ensures
        node_models(nodes.insert(id, node)) == node_models(nodes).insert(id, node@),
{
    assert(node_models(nodes.insert(id, node)) =~= node_models(nodes).insert(id, node@));
}

/// What a list of replies says.
pub open spec fn reply_contents(list: Seq<(NodeId, Vec<EngineAction>)>) -> Seq<
    (NodeId, Seq<engine::ActionContent>),
> {
    Seq::new(list.len(), |i: int| (list[i].0, engine::action_contents(list[i].1@)))
}

/// A cluster of nodes that runs in ticks.
///
/// Each `tick()` follows a strict order:
/// 1. Deliver transport queue messages due at this tick
/// 2. Route the engine actions that the deliveries gave rise to
/// 3. Evaluate scheduled timer events
/// 4. Flush change feeds (if interval has elapsed)
/// 5. Advance clock by tick duration
pub struct MockCluster<S, V, C, SV, DV, DA> {
    nodes: NodeMap<MockNode<S, V, C, SV, DV, DA>>,
    transport: MockTransport,
    clock: Arc<TestClock>,
    tick_duration: Duration,
    current_tick: u64,
    corrupted: u64,
}

impl<S, V, C: Clock, SV, DV, DA> View for MockCluster<S, V, C, SV, DV, DA> {
    type V = ClusterModel<S, V>;

    closed spec fn view(&self) -> ClusterModel<S, V> {
        ClusterModel {
            nodes: node_models(self.nodes@),
            transport: self.transport@,
            tick_duration: self.tick_duration,
            current_tick: self.current_tick,
            corrupted: self.corrupted,
        }
    }
}

impl<S, V, C, SV, DV, DA> MockNode<S, V, C, SV, DV, DA> where
    C: Clock,
    SV: Fn(&V) -> Vec<u8>,
    DV: Fn(&[u8], u32) -> Result<V, DeserializeError>,
    DA: Fn(&[u8], u32, &V) -> Result<V, DeserializeError>,
 {
    /// The engine is well-formed and that of the node `id`, and the change feed is flushed
    /// before its interval has passed.
    pub closed spec fn wf(&self, id: NodeId) -> bool {
        &&& self.engine.wf()
        &&& self.engine@.shard.node_id == id
        &&& self.feed_flush_counter < self.feed_flush_interval
    }

    /// Takes out the delayed broadcasts that are due at `tick`.
    fn take_due(&mut self, tick: u64) -> (due: Vec<SyncMessage>)
        requires
            exists|id: NodeId| #[trigger] old(self).wf(id),
        ensures
            message_contents(due@) == cluster_model::due_of(old(self)@.scheduled, tick),
            final(self)@ == (NodeModel {
                scheduled: cluster_model::pending_of(old(self)@.scheduled, tick),
                ..old(self)@
            }),
            final(self).engine == old(self).engine,
            forall|id: NodeId| #[trigger] old(self).wf(id) ==> final(self).wf(id),
    {
        let mut due: Vec<SyncMessage> = Vec::new();
        let mut remaining: Vec<ScheduledAction> = Vec::new();
        let ghost all = self@.scheduled;
        let mut i: usize = 0;
        assert(message_contents(due@) =~= cluster_model::due_of(all.take(0), tick));
        assert(scheduled_contents(remaining@) =~= cluster_model::pending_of(all.take(0), tick));
        while i < self.scheduled.len()
            invariant
                *self == *old(self),
                all == scheduled_contents(self.scheduled@),
                i <= self.scheduled@.len(),
                message_contents(due@) == cluster_model::due_of(all.take(i as int), tick),
                scheduled_contents(remaining@) == cluster_model::pending_of(
                    all.take(i as int),
                    tick,
                ),
            decreases self.scheduled@.len() - i,
        {
            let ghost d0 = message_contents(due@);
            let ghost r0 = scheduled_contents(remaining@);
            let action = &self.scheduled[i];
            proof {
                assert(all.take(i + 1).drop_last() =~= all.take(i as int));
                assert(all.take(i + 1).last() == (action.message@, action.deliver_at_tick));
            }
            if action.deliver_at_tick <= tick {
                due.push(action.message.clone());
                assert(message_contents(due@) =~= d0.push(action.message@));
            } else {
                let copy = ScheduledAction {
                    message: action.message.clone(),
                    deliver_at_tick: action.deliver_at_tick,
                };
                remaining.push(copy);
                assert(scheduled_contents(remaining@) =~= r0.push(
                    (action.message@, action.deliver_at_tick),
                ));
            }
            i = i + 1;
        }
        assert(all.take(all.len() as int) =~= all);
        self.scheduled = remaining;
        due
    }
}

/// The contents of a list of messages.
pub open spec fn message_contents(list: Seq<SyncMessage>) -> Seq<SyncContent> {
    Seq::new(list.len(), |i: int| list[i]@)
}

impl<S, V, C, SV, DV, DA> MockCluster<S, V, C, SV, DV, DA> where
    C: Clock,
    SV: Fn(&V) -> Vec<u8>,
    DV: Fn(&[u8], u32) -> Result<V, DeserializeError>,
    DA: Fn(&[u8], u32, &V) -> Result<V, DeserializeError>,
 {
    /// The nodes, in ascending order.
    pub closed spec fn ids(&self) -> Seq<NodeId> {
        self.nodes.ids()
    }

    /// The clock that the nodes share, and how far a tick moves it.
    pub closed spec fn pace(&self) -> (TestClock, Duration) {
        (*self.clock, self.tick_duration)
    }

    /// The clock that the nodes share has been moved forward by `by`.
    pub closed spec fn clock_has_moved(&self, by: Duration) -> bool {
        exists|nanos: u64| nanos == by.nanos && #[trigger] self.pace().0.moved(nanos)
    }

    /// The functions by which each node's engine serializes and deserializes.
    pub closed spec fn codecs(&self) -> Map<NodeId, (SV, DV, Option<DA>)> {
        self.nodes@.map_values(|n: MockNode<S, V, C, SV, DV, DA>| n.engine.codec())
    }

    /// Every node is well-formed and filed under its id, and a tick is one that the clock can
    /// be advanced by.
    pub closed spec fn wf(&self) -> bool {
        &&& self.nodes.wf()
        &&& self.tick_duration.nanos <= u64::MAX
        &&& forall|id: NodeId| #[trigger] self.nodes@.contains_key(id) ==> self.nodes@[id].wf(id)
    }

    /// What a well-formed cluster holds: its ids are those of its nodes, and every engine is
    /// well-formed and that of its node.
    pub proof fn lemma_wf(&self)
        requires
            self.wf(),
        ensures
            crate::node_map::ascending(self.ids()),
            self@.nodes.dom().finite(),
            self.ids().len() == self@.nodes.dom().len(),
            forall|i: int|
                0 <= i < self.ids().len() ==> self@.nodes.contains_key(#[trigger] self.ids()[i]),
            forall|id: NodeId| #[trigger]
                self@.nodes.contains_key(id) ==> self.ids().contains(id),
            forall|id: NodeId| #[trigger]
                self@.nodes.contains_key(id) ==> self@.nodes[id].engine.wf()
                    && self@.nodes[id].engine.shard.node_id == id,
            self.codecs().dom() == self@.nodes.dom(),
            self@.tick_duration.nanos <= u64::MAX,
    {
        self.nodes.lemma_ids();
        assert(self@.nodes.dom() =~= self.nodes@.dom());
        assert(self.codecs().dom() =~= self@.nodes.dom());
        assert forall|id: NodeId| #[trigger] self@.nodes.contains_key(id) implies self@.nodes[
            id
        ].engine.wf() && self@.nodes[id].engine.shard.node_id == id by {
            assert(self.nodes@.contains_key(id));
            assert(self.nodes@[id].wf(id));
            self.nodes@[id].engine.lemma_wf();
        }
    }

    /// Create a new empty cluster.
    ///
    /// - `clock`: Shared test clock (used by all engines).
    /// - `tick_duration`: How much time each tick advances the clock.
    /// - `rng_seed`: Seed for deterministic transport behavior.
    pub fn new(clock: Arc<TestClock>, tick_duration: Duration, rng_seed: u64) -> (cluster: Self)
        requires
            tick_duration.nanos <= u64::MAX,
        ensures
            cluster.wf(),
            cluster.pace() == (*clock, tick_duration),
            cluster.ids() == Seq::<NodeId>::empty(),
            cluster@ == (ClusterModel::<S, V> {
                nodes: Map::empty(),
                transport: TransportModel {
                    in_flight: Seq::empty(),
                    pipeline: Pipeline::empty(),
                    message_counter: 0,
                    current_tick: 0,
                    rng_seed,
                },
                tick_duration,
                current_tick: 0,
                corrupted: 0,
            }),
    {
        let cluster = MockCluster {
            nodes: NodeMap::new(),
            transport: MockTransport::new(rng_seed),
            clock,
            tick_duration,
            current_tick: 0,
            corrupted: 0,
        };
        assert(cluster@.nodes =~= Map::<NodeId, NodeModel<S, V>>::empty());
        cluster
    }

    /// The number of whole ticks in `span`.
    fn whole_ticks(&self, span: Duration) -> (ticks: u64)
        requires
            self.wf(),
        ensures
            ticks == cluster_model::ticks_in(span, self@.tick_duration),
    {
        let unit = self.tick_duration.as_millis();
        let unit = if unit < 1 {
            1
        } else {
            unit
        };
        (span.as_millis() as u64) / (unit as u64)
    }

    /// Performs one engine action of the node `from`, among the nodes `all_nodes`.
    fn perform(&mut self, from: NodeId, action: &EngineAction, all_nodes: &Vec<NodeId>)
        requires
            old(self).wf(),
        ensures
            final(self).wf(),
            final(self).ids() == old(self).ids(),
            final(self).pace() == old(self).pace(),
            final(self).codecs() == old(self).codecs(),
            cluster_model::action_step(old(self)@, final(self)@, from, all_nodes@, action@),
    {
        match action {
            EngineAction::BroadcastSync(message) => {
                let wire = WireMessage::Sync(message.clone());
                self.transport.broadcast(from, &wire, all_nodes);
            },
            EngineAction::SendSync { target, message } => {
                let wire = WireMessage::Sync(message.clone());
                self.transport.send(from, *target, &wire);
            },
            EngineAction::ScheduleDelayed { delay, message } => {
                let ticks = self.whole_ticks(*delay);
                let deliver_at_tick = self.current_tick.saturating_add(ticks);
                let ghost before = self.nodes@;
                if let Some(node) = self.nodes.get_mut(&from) {
                    let ghost n0 = *node;
                    node.scheduled.push(
                        ScheduledAction { message: message.clone(), deliver_at_tick },
                    );
                    proof {
                        assert(before[from].wf(from));
                        assert(scheduled_contents(node.scheduled@) =~= scheduled_contents(
                            n0.scheduled@,
                        ).push((message@, deliver_at_tick)));
                        lemma_node_models(before, from, *node);
                    }
                }
                proof {
                    assert(self.codecs() =~= old(self).codecs());
                }
            },
        }
    }

    /// Performs engine actions of the node `from`, in order.
    fn route_actions(&mut self, from: NodeId, actions: &Vec<EngineAction>)
        requires
            old(self).wf(),
        ensures
            final(self).wf(),
            final(self).ids() == old(self).ids(),
            final(self).pace() == old(self).pace(),
            final(self).codecs() == old(self).codecs(),
            cluster_model::routes(
                old(self)@,
                final(self)@,
                from,
                old(self).ids(),
                engine::action_contents(actions@),
            ),
    {
        let all_nodes = self.nodes.keys();
        let ghost all = engine::action_contents(actions@);
        let ghost c0 = self@;
        let mut i: usize = 0;
        assert(all.take(0) =~= Seq::<engine::ActionContent>::empty());
        while i < actions.len()
            invariant
                i <= actions@.len(),
                all == engine::action_contents(actions@),
                c0 == old(self)@,
                self.wf(),
                self.ids() == old(self).ids(),
                self.pace() == old(self).pace(),
                self.codecs() == old(self).codecs(),
                all_nodes@ == old(self).ids(),
                cluster_model::routes(c0, self@, from, all_nodes@, all.take(i as int)),
            decreases actions@.len() - i,
        {
            let ghost mid = self@;
            self.perform(from, &actions[i], &all_nodes);
            proof {
                let next = all.take(i + 1);
                assert(next.drop_last() =~= all.take(i as int));
                assert(next.last() == actions@[i as int]@);
                assert(cluster_model::action_step(mid, self@, from, all_nodes@, next.last()));
            }
            i = i + 1;
        }
        assert(all.take(all.len() as int) =~= all);
    }

    /// Performs the actions of several nodes, one after the other.
    fn route_all(&mut self, replies: &Vec<(NodeId, Vec<EngineAction>)>)
        requires
            old(self).wf(),
        ensures
            final(self).wf(),
            final(self).ids() == old(self).ids(),
            final(self).pace() == old(self).pace(),
            final(self).codecs() == old(self).codecs(),
            cluster_model::routes_all(
                old(self)@,
                final(self)@,
                old(self).ids(),
                reply_contents(replies@),
            ),
    {
        let ghost all = reply_contents(replies@);
        let ghost c0 = self@;
        let mut i: usize = 0;
        assert(all.take(0) =~= Seq::<(NodeId, Seq<engine::ActionContent>)>::empty());
        while i < replies.len()
            invariant
                i <= replies@.len(),
                all == reply_contents(replies@),
                c0 == old(self)@,
                self.wf(),
                self.ids() == old(self).ids(),
                self.pace() == old(self).pace(),
                self.codecs() == old(self).codecs(),
                cluster_model::routes_all(c0, self@, old(self).ids(), all.take(i as int)),
            decreases replies@.len() - i,
        {
            let ghost mid = self@;
            self.route_actions(replies[i].0, &replies[i].1);
            proof {
                let next = all.take(i + 1);
                assert(next.drop_last() =~= all.take(i as int));
                assert(next.last() == all[i as int]);
                assert(cluster_model::reply_step(mid, self@, old(self).ids(), next.last()));
            }
            i = i + 1;
        }
        assert(all.take(all.len() as int) =~= all);
    }

    /// Hands one message to its node, if it is in the cluster, and collects what the node
    /// replies.
    fn deliver_one(
        &mut self,
        to: NodeId,
        message: WireMessage,
        replies: &mut Vec<(NodeId, Vec<EngineAction>)>,
    )
        requires
            old(self).wf(),
            old(self)@.nodes.contains_key(to)
                ==> old(self)@.nodes[to].engine.diagnostics.has_room(1),
        ensures
            final(self).wf(),
            final(self).ids() == old(self).ids(),
            final(self).pace() == old(self).pace(),
            final(self).codecs() == old(self).codecs(),
            final(self)@ == old(self)@.with_nodes(final(self)@.nodes),
            cluster_model::delivery_step(
                old(self)@.nodes,
                final(self)@.nodes,
                old(self).codecs(),
                Delivery { from: to, to, message: message@ },
                reply_contents(old(replies)@),
                reply_contents(final(replies)@),
            ),
    {
        let ghost before = self.nodes@;
        let ghost r0 = reply_contents(replies@);
        if let Some(node) = self.nodes.get_mut(&to) {
            let ghost n0 = *node;
            assert(before[to].wf(to));
            let actions = node.engine.handle_inbound(message);
            let ghost sent = engine::action_contents(actions@);
            proof {
                laws::inbound_keeps_owned_state(
                    n0.engine@,
                    node.engine@,
                    n0.engine.codec(),
                    message@,
                    sent,
                );
                lemma_node_models(before, to, *node);
                assert(node@ == n0@.with_engine(node.engine@));
                assert(model::inbound_step(
                    n0.engine@,
                    node.engine@,
                    n0.engine.codec(),
                    message@,
                    sent,
                ));
            }
            if actions.len() > 0 {
                replies.push((to, actions));
                assert(reply_contents(replies@) =~= r0.push((to, sent)));
            }
            proof {
                let models = old(self)@.nodes;
                assert(models[to] == n0@);
                assert(old(self).codecs()[to] == n0.engine.codec());
                assert(reply_contents(replies@) == cluster_model::with_reply(r0, to, sent));
                assert(model::inbound_step(
                    models[to].engine,
                    self@.nodes[to].engine,
                    old(self).codecs()[to],
                    message@,
                    sent,
                ));
            }
        }
        proof {
            assert(self.codecs() =~= old(self).codecs());
        }
    }

    /// Hands messages to their nodes, in order, and collects what the nodes reply.
    fn deliver_all(&mut self, delivered: &Vec<DeliveredMessage>) -> (replies: Vec<
        (NodeId, Vec<EngineAction>),
    >)
        requires
            old(self).wf(),
            forall|id: NodeId| #[trigger]
                old(self)@.nodes.contains_key(id)
                    ==> old(self)@.nodes[id].engine.diagnostics.has_room(delivered@.len()),
        ensures
            final(self).wf(),
            final(self).ids() == old(self).ids(),
            final(self).pace() == old(self).pace(),
            final(self).codecs() == old(self).codecs(),
            final(self)@ == old(self)@.with_nodes(final(self)@.nodes),
            cluster_model::delivers(
                old(self)@.nodes,
                final(self)@.nodes,
                old(self).codecs(),
                transport::deliveries(delivered@),
                reply_contents(replies@),
            ),
    {
        let ghost all = transport::deliveries(delivered@);
        let mut replies: Vec<(NodeId, Vec<EngineAction>)> = Vec::new();
        let mut i: usize = 0;
        proof {
            assert(all.take(0) =~= Seq::<Delivery>::empty());
            assert(reply_contents(replies@) =~= Seq::<(NodeId, Seq<engine::ActionContent>)>::empty());
        }
        while i < delivered.len()
            invariant
                i <= delivered@.len(),
                all == transport::deliveries(delivered@),
                self.wf(),
                self.ids() == old(self).ids(),
                self.pace() == old(self).pace(),
                self.codecs() == old(self).codecs(),
                self@ == old(self)@.with_nodes(self@.nodes),
                forall|id: NodeId| #[trigger]
                    self@.nodes.contains_key(id) ==> self@.nodes[id].engine.diagnostics.has_room(
                        (delivered@.len() - i) as nat,
                    ),
                cluster_model::delivers(
                    old(self)@.nodes,
                    self@.nodes,
                    old(self).codecs(),
                    all.take(i as int),
                    reply_contents(replies@),
                ),
            decreases delivered@.len() - i,
        {
            let ghost n0 = self@.nodes;
            let ghost r0 = reply_contents(replies@);
            let to = delivered[i].to;
            let message = delivered[i].message.clone();
            self.deliver_one(to, message, &mut replies);
            proof {
                let next = all.take(i + 1);
                let d = delivered@[i as int]@;
                assert(next.drop_last() =~= all.take(i as int));
                assert(next.last() == d);
                assert(cluster_model::delivery_step(
                    n0,
                    self@.nodes,
                    old(self).codecs(),
                    d,
                    r0,
                    reply_contents(replies@),
                ));
                cluster_laws::delivery_counts_at_most_once(
                    n0,
                    self@.nodes,
                    old(self).codecs(),
                    d,
                    r0,
                    reply_contents(replies@),
                    (delivered@.len() - i - 1) as nat,
                );
            }
            i = i + 1;
        }
        assert(all.take(all.len() as int) =~= all);
        replies
    }

    /// Broadcasts synchronization messages of the node `from`, in order.
    fn broadcast_each(&mut self, from: NodeId, messages: Vec<SyncMessage>, all_nodes: &Vec<NodeId>)
        requires
            old(self).wf(),
        ensures
            final(self).wf(),
            final(self).ids() == old(self).ids(),
            final(self).pace() == old(self).pace(),
            final(self).codecs() == old(self).codecs(),
            final(self)@ == old(self)@.with_transport(final(self)@.transport),
            cluster_model::broadcasts_each(
                old(self)@.transport,
                final(self)@.transport,
                from,
                all_nodes@,
                message_contents(messages@),
            ),
    {
        let ghost all = message_contents(messages@);
        let ghost t0 = self@.transport;
        let mut i: usize = 0;
        assert(all.take(0) =~= Seq::<SyncContent>::empty());
        while i < messages.len()
            invariant
                i <= messages@.len(),
                all == message_contents(messages@),
                t0 == old(self)@.transport,
                self.wf(),
                self.ids() == old(self).ids(),
                self.pace() == old(self).pace(),
                self.codecs() == old(self).codecs(),
                self@ == old(self)@.with_transport(self@.transport),
                cluster_model::broadcasts_each(
                    t0,
                    self@.transport,
                    from,
                    all_nodes@,
                    all.take(i as int),
                ),
            decreases messages@.len() - i,
        {
            let ghost mid = self@.transport;
            let wire = WireMessage::Sync(messages[i].clone());
            self.transport.broadcast(from, &wire, all_nodes);
            proof {
                let next = all.take(i + 1);
                assert(next.drop_last() =~= all.take(i as int));
                assert(next.last() == messages@[i as int]@);
                assert(cluster_model::broadcast_step(
                    mid,
                    self@.transport,
                    from,
                    all_nodes@,
                    next.last(),
                ));
            }
            i = i + 1;
        }
        assert(all.take(all.len() as int) =~= all);
    }

    /// Broadcasts the delayed messages of a node that are due.
    fn fire_timer(&mut self, id: NodeId, all_nodes: &Vec<NodeId>)
        requires
            old(self).wf(),
            old(self)@.nodes.contains_key(id),
        ensures
            final(self).wf(),
            final(self).ids() == old(self).ids(),
            final(self).pace() == old(self).pace(),
            final(self).codecs() == old(self).codecs(),
            cluster_model::timer_step(old(self)@, final(self)@, all_nodes@, id),
    {
        let tick = self.current_tick;
        let ghost before = self.nodes@;
        let mut due: Vec<SyncMessage> = Vec::new();
        if let Some(node) = self.nodes.get_mut(&id) {
            let ghost n0 = *node;
            assert(before[id].wf(id));
            due = node.take_due(tick);
            proof {
                assert(n0.wf(id));
                lemma_node_models(before, id, *node);
            }
        }
        proof {
            assert(self.codecs() =~= old(self).codecs());
            assert(old(self)@.nodes[id] == before[id]@);
        }
        self.broadcast_each(id, due, all_nodes);
    }

    /// Broadcasts the delayed messages of every node that are due.
    fn fire_timers(&mut self, all_nodes: &Vec<NodeId>)
        requires
            old(self).wf(),
            all_nodes@ == old(self).ids(),
        ensures
            final(self).wf(),
            final(self).ids() == old(self).ids(),
            final(self).pace() == old(self).pace(),
            final(self).codecs() == old(self).codecs(),
            cluster_model::timers(old(self)@, final(self)@, old(self).ids(), old(self).ids()),
    {
        let ghost ids = self.ids();
        let ghost c0 = self@;
        let mut i: usize = 0;
        assert(ids.take(0) =~= Seq::<NodeId>::empty());
        while i < all_nodes.len()
            invariant
                i <= all_nodes@.len(),
                ids == all_nodes@,
                ids == old(self).ids(),
                c0 == old(self)@,
                self.wf(),
                self.ids() == ids,
                self.pace() == old(self).pace(),
                self.codecs() == old(self).codecs(),
                cluster_model::timers(c0, self@, ids, ids.take(i as int)),
            decreases all_nodes@.len() - i,
        {
            let ghost mid = self@;
            proof {
                self.lemma_wf();
            }
            self.fire_timer(all_nodes[i], all_nodes);
            proof {
                let next = ids.take(i + 1);
                assert(next.drop_last() =~= ids.take(i as int));
                assert(cluster_model::timer_step(mid, self@, ids, next.last()));
            }
            i = i + 1;
        }
        assert(ids.take(ids.len() as int) =~= ids);
    }

    /// Counts a tick for the change feed of a node, and broadcasts it when its interval has
    /// passed.
    fn flush_feed(&mut self, id: NodeId, all_nodes: &Vec<NodeId>)
        requires
            old(self).wf(),
            old(self)@.nodes.contains_key(id),
        ensures
            final(self).wf(),
            final(self).ids() == old(self).ids(),
            final(self).pace() == old(self).pace(),
            final(self).codecs() == old(self).codecs(),
            cluster_model::feed_step(old(self)@, final(self)@, all_nodes@, id),
    {
        let ghost before = self.nodes@;
        let mut flushed: Option<BatchedChangeFeed> = None;
        if let Some(node) = self.nodes.get_mut(&id) {
            assert(before[id].wf(id));
            node.feed_flush_counter = node.feed_flush_counter + 1;
            if node.feed_flush_counter >= node.feed_flush_interval {
                node.feed_flush_counter = 0;
                flushed = node.engine.flush_change_feed();
            }
            proof {
                lemma_node_models(before, id, *node);
            }
        }
        proof {
            assert(self.codecs() =~= old(self).codecs());
            assert(old(self)@.nodes[id] == before[id]@);
        }
        if let Some(feed) = flushed {
            let wire = WireMessage::Feed(feed);
            self.transport.broadcast(id, &wire, all_nodes);
        }
    }

    /// Counts a tick for the change feed of every node, and broadcasts those whose interval
    /// has passed.
    fn flush_feeds(&mut self, all_nodes: &Vec<NodeId>)
        requires
            old(self).wf(),
            all_nodes@ == old(self).ids(),
        ensures
            final(self).wf(),
            final(self).ids() == old(self).ids(),
            final(self).pace() == old(self).pace(),
            final(self).codecs() == old(self).codecs(),
            cluster_model::feeds(old(self)@, final(self)@, old(self).ids(), old(self).ids()),
    {
        let ghost ids = self.ids();
        let ghost c0 = self@;
        let mut i: usize = 0;
        assert(ids.take(0) =~= Seq::<NodeId>::empty());
        while i < all_nodes.len()
            invariant
                i <= all_nodes@.len(),
                ids == all_nodes@,
                ids == old(self).ids(),
                c0 == old(self)@,
                self.wf(),
                self.ids() == ids,
                self.pace() == old(self).pace(),
                self.codecs() == old(self).codecs(),
                cluster_model::feeds(c0, self@, ids, ids.take(i as int)),
            decreases all_nodes@.len() - i,
        {
            let ghost mid = self@;
            proof {
                self.lemma_wf();
            }
            self.flush_feed(all_nodes[i], all_nodes);
            proof {
                let next = ids.take(i + 1);
                assert(next.drop_last() =~= ids.take(i as int));
                assert(cluster_model::feed_step(mid, self@, ids, next.last()));
            }
            i = i + 1;
        }
        assert(ids.take(ids.len() as int) =~= ids);
    }

    /// Process one simulation tick.
    pub fn tick(&mut self)
        requires
            old(self).wf(),
            old(self)@.can_tick(),
        ensures
            final(self).wf(),
            final(self).ids() == old(self).ids(),
            final(self).pace() == old(self).pace(),
            final(self).codecs() == old(self).codecs(),
            cluster_model::tick_step(
                old(self)@,
                final(self)@,
                old(self).codecs(),
                old(self).ids(),
            ),
            final(self).clock_has_moved(old(self)@.tick_duration),
    {
        let ghost c0 = self@;
        let ghost ids = self.ids();
        let ghost codecs = self.codecs();
        proof {
            self.lemma_wf();
            transport_laws::delivery_conserves_messages(
                c0.transport.in_flight,
                c0.transport.current_tick,
            );
        }
        // Deliver the messages that are due, and route the replies
        let delivery = self.transport.deliver_due();
        let damaged = delivery.corrupted.len() as u64;
        self.corrupted = self.corrupted.saturating_add(damaged);
        proof {
            let due = transport::delivered_of(c0.transport.in_flight, c0.transport.current_tick);
            assert(delivery.delivered@.len() == due.len());
            assert forall|id: NodeId| #[trigger] self@.nodes.contains_key(id) implies self@.nodes[
                id
            ].engine.diagnostics.has_room(delivery.delivered@.len()) by {
                assert(c0.nodes.contains_key(id));
                cluster_laws::less_room_is_there(
                    c0.nodes[id].engine.diagnostics,
                    c0.transport.in_flight.len(),
                    delivery.delivered@.len(),
                );
            }
        }
        let replies = self.deliver_all(&delivery.delivered);
        let ghost nodes = self@.nodes;
        let ghost said = reply_contents(replies@);
        assert(self@ == cluster_model::after_delivery(c0, nodes));
        self.route_all(&replies);
        let ghost routed = self@;

        // Evaluate the timers, and flush the change feeds
        let node_ids = self.nodes.keys();
        proof {
            self.lemma_wf();
        }
        self.fire_timers(&node_ids);
        let ghost timed = self@;
        proof {
            self.lemma_wf();
        }
        self.flush_feeds(&node_ids);
        let ghost flushed = self@;

        // Advance the clock and the tick counters
        proof {
            cluster_laws::replies_keep_engines(
                cluster_model::after_delivery(c0, nodes),
                routed,
                ids,
                said,
            );
            cluster_laws::timers_keep_engines(routed, timed, ids, ids);
            cluster_laws::feeds_keep_engines(timed, flushed, ids, ids);
            assert(cluster_model::delivers(
                c0.nodes,
                nodes,
                codecs,
                transport::delivered_of(c0.transport.in_flight, c0.transport.current_tick),
                said,
            ));
        }
        self.clock.advance(self.tick_duration);
        self.transport.advance_tick();
        self.current_tick = self.current_tick + 1;
        assert(self@ == cluster_model::ticked(flushed));
        assert(self.codecs() =~= codecs);
        proof {
            assert(self.pace() == old(self).pace());
            let nanos = choose|nanos: u64|
                nanos == self.tick_duration.nanos && #[trigger] self.clock.moved(nanos);
            assert(self.pace().0.moved(nanos));
        }
    }

    /// Whether the cluster has no in-flight messages or pending actions.
    pub fn is_settled(&self) -> (b: bool)
        requires
            self.wf(),
        ensures
            b == self@.settled(),
    {
        if self.transport.in_flight_count() > 0 {
            return false;
        }
        let count = self.nodes.len();
        let mut i: usize = 0;
        proof {
            self.nodes.lemma_ids();
        }
        while i < count
            invariant
                self.wf(),
                count == self.ids().len(),
                i <= count,
                forall|j: int|
                    0 <= j < count ==> self.nodes@.contains_key(#[trigger] self.ids()[j]),
                forall|j: int|
                    0 <= j < i ==> self@.nodes[#[trigger] self.ids()[j]].scheduled.len() == 0
                        && self@.nodes[self.ids()[j]].engine.feed.len() == 0,
            decreases count - i,
        {
            let node = self.nodes.value_at(i);
            let ghost id = self.ids()[i as int];
            proof {
                assert(self.nodes@.contains_key(id));
                assert(self@.nodes.contains_key(id));
                assert(self@.nodes[id] == node@);
            }
            if node.scheduled.len() > 0 {
                return false;
            }
            if node.engine.pending_change_feed_count() > 0 {
                return false;
            }
            i = i + 1;
        }
        proof {
            assert forall|id: NodeId| #[trigger]
                self@.nodes.contains_key(id) implies self@.nodes[id].scheduled.len() == 0
                && self@.nodes[id].engine.feed.len() == 0 by {
                assert(self.nodes@.contains_key(id));
                let j = choose|j: int|
                    0 <= j < self.nodes.ids().len() && #[trigger] self.nodes.ids()[j] == id;
                assert(self.ids()[j] == id);
            }
        }
        true
    }

    /// Whether another tick can be counted, by the cluster and by every engine.
    pub fn can_tick(&self) -> (b: bool)
        requires
            self.wf(),
        ensures
            b == self@.can_tick(),
    {
        let in_flight = self.transport.in_flight_count();
        if self.current_tick == u64::MAX || self.transport.current_tick() == u64::MAX
            || in_flight as u64 > u32::MAX as u64 {
            return false;
        }
        let count = self.nodes.len();
        let mut i: usize = 0;
        proof {
            self.nodes.lemma_ids();
        }
        while i < count
            invariant
                self.wf(),
                count == self.ids().len(),
                i <= count,
                in_flight == self@.transport.in_flight.len(),
                in_flight <= u32::MAX,
                forall|j: int|
                    0 <= j < count ==> self.nodes@.contains_key(#[trigger] self.ids()[j]),
                forall|j: int|
                    0 <= j < i ==> self@.nodes[#[trigger] self.ids()[j]].engine.diagnostics.has_room(
                        in_flight as nat,
                    ),
            decreases count - i,
        {
            let node = self.nodes.value_at(i);
            let ghost id = self.ids()[i as int];
            proof {
                assert(self.nodes@.contains_key(id));
                assert(self.nodes@[id].wf(id));
                assert(self@.nodes.contains_key(id));
                assert(self@.nodes[id] == node@);
            }
            if !node.engine.has_room(in_flight as u32) {
                return false;
            }
            i = i + 1;
        }
        proof {
            assert forall|id: NodeId| #[trigger]
                self@.nodes.contains_key(id) implies self@.nodes[id].engine.diagnostics.has_room(
                self@.transport.in_flight.len(),
            ) by {
                assert(self.nodes@.contains_key(id));
                let j = choose|j: int|
                    0 <= j < self.nodes.ids().len() && #[trigger] self.nodes.ids()[j] == id;
                assert(self.ids()[j] == id);
            }
        }
        true
    }

    /// Process up to `n` ticks. Returns how many were processed: all, unless one more could
    /// not be counted.
    pub fn tick_n(&mut self, n: u64) -> (done: u64)
        requires
            old(self).wf(),
        ensures
            final(self).wf(),
            final(self).ids() == old(self).ids(),
            final(self).pace() == old(self).pace(),
            final(self).codecs() == old(self).codecs(),
            cluster_model::runs(
                old(self)@,
                final(self)@,
                old(self).codecs(),
                old(self).ids(),
                done as nat,
            ),
            done > 0 ==> final(self).clock_has_moved(old(self)@.tick_duration),
            done <= n,
            done < n ==> !final(self)@.can_tick(),
    {
        let ghost ids = self.ids();
        let ghost codecs = self.codecs();
        let mut done: u64 = 0;
        while done < n
            invariant
                done <= n,
                self.wf(),
                self.ids() == ids,
                self.pace() == old(self).pace(),
                self.codecs() == codecs,
                ids == old(self).ids(),
                codecs == old(self).codecs(),
                done > 0 ==> self.clock_has_moved(old(self)@.tick_duration),
                cluster_model::runs(old(self)@, self@, codecs, ids, done as nat),
            decreases n - done,
        {
            if !self.can_tick() {
                return done;
            }
            let ghost mid = self@;
            self.tick();
            assert(cluster_model::tick_step(mid, self@, codecs, ids));
            done = done + 1;
        }
        done
    }

    /// Tick until no messages are in flight and no scheduled actions are
    /// pending. Returns the number of ticks executed.
    ///
    /// Returns `None` if 1000 ticks were not enough (likely an infinite loop), or if a tick
    /// could not be counted.
    pub fn settle(&mut self) -> (ticks: Option<u64>)
        requires
            old(self).wf(),
        ensures
            final(self).wf(),
            final(self).ids() == old(self).ids(),
            final(self).pace() == old(self).pace(),
            final(self).codecs() == old(self).codecs(),
            match ticks {
                Some(t) => {
                    &&& t <= 1000
                    &&& t > 0 ==> final(self).clock_has_moved(old(self)@.tick_duration)
                    &&& final(self)@.settled()
                    &&& cluster_model::works(
                        old(self)@,
                        final(self)@,
                        old(self).codecs(),
                        old(self).ids(),
                        t as nat,
                    )
                },
                None => {
                    &&& !final(self)@.settled()
                    &&& exists|t: nat|
                        (t > 0 ==> final(self).clock_has_moved(old(self)@.tick_duration)) && (t
                            == 1000 || !final(self)@.can_tick()) && #[trigger] cluster_model::works(
                            old(self)@,
                            final(self)@,
                            old(self).codecs(),
                            old(self).ids(),
                            t,
                        )
                },
            },
    {
        self.settle_with_limit(1000)
    }

    /// Tick until settled, with a custom limit.
    pub fn settle_with_limit(&mut self, max_ticks: u64) -> (ticks: Option<u64>)
        requires
            old(self).wf(),
        ensures
            final(self).wf(),
            final(self).ids() == old(self).ids(),
            final(self).pace() == old(self).pace(),
            final(self).codecs() == old(self).codecs(),
            match ticks {
                Some(t) => {
                    &&& t <= max_ticks
                    &&& t > 0 ==> final(self).clock_has_moved(old(self)@.tick_duration)
                    &&& final(self)@.settled()
                    &&& cluster_model::works(
                        old(self)@,
                        final(self)@,
                        old(self).codecs(),
                        old(self).ids(),
                        t as nat,
                    )
                },
                None => {
                    &&& !final(self)@.settled()
                    &&& exists|t: nat|
                        (t > 0 ==> final(self).clock_has_moved(old(self)@.tick_duration)) && (t
                            == max_ticks || !final(self)@.can_tick())
                            && #[trigger] cluster_model::works(
                            old(self)@,
                            final(self)@,
                            old(self).codecs(),
                            old(self).ids(),
                            t,
                        )
                },
            },
    {
        let ghost ids = self.ids();
        let ghost codecs = self.codecs();
        let mut ticks: u64 = 0;
        loop
            invariant
                ticks <= max_ticks,
                self.wf(),
                self.ids() == ids,
                self.pace() == old(self).pace(),
                self.codecs() == codecs,
                ids == old(self).ids(),
                codecs == old(self).codecs(),
                ticks > 0 ==> self.clock_has_moved(old(self)@.tick_duration),
                cluster_model::works(old(self)@, self@, codecs, ids, ticks as nat),
            decreases max_ticks - ticks,
        {
            if self.is_settled() {
                return Some(ticks);
            }
            if ticks >= max_ticks || !self.can_tick() {
                return None;
            }
            let ghost mid = self@;
            self.tick();
            assert(cluster_model::tick_step(mid, self@, codecs, ids));
            ticks = ticks + 1;
        }
    }

    /// Get a reference to a node's engine.
    pub fn engine(&self, node_id: NodeId) -> (engine: &DistributedStateEngine<S, V, C, SV, DV, DA>)
        requires
            self.wf(),
            self@.nodes.contains_key(node_id),
        ensures
            engine.wf(),
            engine@ == self@.nodes[node_id].engine,
            engine.codec() == self.codecs()[node_id],
    {
        assert(self.nodes@.contains_key(node_id));
        assert(self.nodes@[node_id].wf(node_id));
        &self.nodes.get(&node_id).unwrap().engine
    }

    /// Get a mutable reference to a node's engine.
    pub fn engine_mut(&mut self, node_id: NodeId) -> (engine: &mut DistributedStateEngine<
        S,
        V,
        C,
        SV,
        DV,
        DA,
    >)
        requires
            old(self).wf(),
            old(self)@.nodes.contains_key(node_id),
        ensures
            engine.wf(),
            engine@ == old(self)@.nodes[node_id].engine,
            engine.codec() == old(self).codecs()[node_id],
            final(self).ids() == old(self).ids(),
            final(self).pace() == old(self).pace(),
            final(self).codecs() == old(self).codecs().insert(node_id, final(engine).codec()),
            final(self)@ == old(self)@.with_nodes(
                old(self)@.nodes.insert(
                    node_id,
                    old(self)@.nodes[node_id].with_engine(final(engine)@),
                ),
            ),
            final(engine).wf() && final(engine)@.shard.node_id == node_id ==> final(self).wf(),
    {
        let ghost before = self.nodes@;
        assert(self.nodes@.contains_key(node_id));
        assert(before[node_id].wf(node_id));
        let node = self.nodes.get_mut(&node_id).unwrap();
        let engine = &mut node.engine;
        proof {
            let changed = MockNode { engine: *final(engine), ..before[node_id] };
            let after = before.insert(node_id, changed);
            lemma_node_models(before, node_id, changed);
            assert(after.map_values(|n: MockNode<S, V, C, SV, DV, DA>| n.engine.codec())
                =~= old(self).codecs().insert(node_id, final(engine).codec()));
            assert(changed@ == before[node_id]@.with_engine(final(engine)@));
        }
        engine
    }

    /// All node IDs in the cluster, sorted.
    pub fn all_node_ids(&self) -> (ids: Vec<NodeId>)
        ensures
            ids@ == self.ids(),
    {
        self.nodes.keys()
    }

    /// Number of nodes in the cluster.
    pub fn node_count(&self) -> (n: usize)
        requires
            self.wf(),
        ensures
            n == self@.nodes.dom().len(),
            n == self.ids().len(),
    {
        proof {
            self.lemma_wf();
            self.nodes.lemma_ids();
        }
        self.nodes.len()
    }

    /// Number of messages currently in flight.
    pub fn in_flight_count(&self) -> (n: usize)
        ensures
            n == self@.transport.in_flight.len(),
    {
        self.transport.in_flight_count()
    }

    /// Number of messages that arrived and could not be deserialized.
    pub fn corrupted_count(&self) -> (n: u64)
        ensures
            n == self@.corrupted,
    {
        self.corrupted
    }

    /// Current simulation tick.
    pub fn current_tick(&self) -> (tick: u64)
        ensures
            tick == self@.current_tick,
    {
        self.current_tick
    }

    /// Access the transport (e.g., to add interceptors).
    pub fn transport_mut(&mut self) -> (transport: &mut MockTransport)
        requires
            old(self).wf(),
        ensures
            transport@ == old(self)@.transport,
            final(self).wf(),
            final(self).ids() == old(self).ids(),
            final(self).pace() == old(self).pace(),
            final(self).codecs() == old(self).codecs(),
            final(self)@ == old(self)@.with_transport(final(transport)@),
    {
        &mut self.transport
    }

    /// Tells the node `id` that `node` has left.
    fn announce_departure(&mut self, id: NodeId, node: NodeId)
        requires
            old(self).wf(),
            old(self)@.nodes.contains_key(id),
        ensures
            final(self).wf(),
            final(self).ids() == old(self).ids(),
            final(self).pace() == old(self).pace(),
            final(self).codecs() == old(self).codecs(),
            final(self)@ == old(self)@.with_nodes(
                old(self)@.nodes.insert(
                    id,
                    old(self)@.nodes[id].with_engine(
                        old(self)@.nodes[id].engine.after_leave(node),
                    ),
                ),
            ),
    {
        let ghost before = self.nodes@;
        assert(self.nodes@.contains_key(id));
        assert(before[id].wf(id));
        let entry = self.nodes.get_mut(&id).unwrap();
        let ghost n0 = *entry;
        entry.engine.on_node_left(node);
        proof {
            lemma_node_models(before, id, *entry);
            assert(entry@ == n0@.with_engine(n0@.engine.after_leave(node)));
        }
        assert(self.codecs() =~= old(self).codecs());
    }

    /// Remove a node from the cluster (simulates crash).
    pub fn remove_node(&mut self, node_id: NodeId)
        requires
            old(self).wf(),
        ensures
            final(self).wf(),
            final(self).pace() == old(self).pace(),
            final(self).codecs() == old(self).codecs().remove(node_id),
            final(self)@ == old(self)@.with_nodes(
                cluster_model::nodes_without(old(self)@.nodes, node_id),
            ),
    {
        let ghost c0 = self@;
        self.nodes.remove(&node_id);
        let ghost rest = self@.nodes;
        let ids = self.nodes.keys();
        proof {
            self.lemma_wf();
            assert(rest =~= c0.nodes.remove(node_id));
            assert(self.codecs() =~= old(self).codecs().remove(node_id));
        }
        let mut i: usize = 0;
        while i < ids.len()
            invariant
                i <= ids@.len(),
                c0 == old(self)@,
                crate::node_map::ascending(ids@),
                forall|j: int| 0 <= j < ids@.len() ==> rest.contains_key(#[trigger] ids@[j]),
                self.wf(),
                self.ids() == ids@,
                self.pace() == old(self).pace(),
                self.codecs() == old(self).codecs().remove(node_id),
                self@ == c0.with_nodes(self@.nodes),
                self@.nodes.dom() == rest.dom(),
                forall|j: int|
                    0 <= j < ids@.len() ==> self@.nodes[#[trigger] ids@[j]] == if j < i {
                        rest[ids@[j]].with_engine(rest[ids@[j]].engine.after_leave(node_id))
                    } else {
                        rest[ids@[j]]
                    },
            decreases ids@.len() - i,
        {
            let ghost mid = self@.nodes;
            let id = ids[i];
            assert(rest.contains_key(ids@[i as int]));
            self.announce_departure(id, node_id);
            proof {
                assert(self@.nodes.dom() =~= rest.dom());
                assert forall|j: int| 0 <= j < ids@.len() implies self@.nodes[#[trigger] ids@[j]]
                    == if j <= i {
                    rest[ids@[j]].with_engine(rest[ids@[j]].engine.after_leave(node_id))
                } else {
                    rest[ids@[j]]
                } by {
                    if j < i {
                        assert(ids@[j].0 < ids@[i as int].0);
                    } else if j > i {
                        assert(ids@[i as int].0 < ids@[j].0);
                    }
                    assert(mid[ids@[j]] == if j < i {
                        rest[ids@[j]].with_engine(rest[ids@[j]].engine.after_leave(node_id))
                    } else {
                        rest[ids@[j]]
                    });
                }
            }
            i = i + 1;
        }
        proof {
            self.lemma_wf();
            let expected = cluster_model::nodes_without(c0.nodes, node_id);
            assert forall|id: NodeId| self@.nodes.contains_key(id) implies #[trigger] self@.nodes[id]
                == expected[id] by {
                assert(self.ids().contains(id));
                let j = choose|j: int| 0 <= j < self.ids().len() && self.ids()[j] == id;
                assert(ids@[j] == id);
            }
            assert(self@.nodes =~= expected);
        }
    }

    /// Remove a node from the cluster together with every message to or from it that is in
    /// flight (simulates a hard crash).
    pub fn remove_node_hard(&mut self, node_id: NodeId)
        requires
            old(self).wf(),
        ensures
            final(self).wf(),
            final(self).pace() == old(self).pace(),
            final(self).codecs() == old(self).codecs().remove(node_id),
            final(self)@ == old(self)@.with_nodes(
                cluster_model::nodes_without(old(self)@.nodes, node_id),
            ).with_transport(
                TransportModel {
                    in_flight: transport::not_involving(
                        old(self)@.transport.in_flight,
                        node_id,
                    ),
                    ..old(self)@.transport
                },
            ),
    {
        self.transport.drop_in_flight_for(node_id);
        self.remove_node(node_id);
    }
}

impl<S, V: Clone, C, SV, DV, DA> MockCluster<S, V, C, SV, DV, DA> where
    C: Clock,
    SV: Fn(&V) -> Vec<u8>,
    DV: Fn(&[u8], u32) -> Result<V, DeserializeError>,
    DA: Fn(&[u8], u32, &V) -> Result<V, DeserializeError>,
 {
    /// Mutate state on a specific node.
    pub fn mutate<F: FnOnce(&mut S), P: FnOnce(&S) -> V>(
        &mut self,
        node_id: NodeId,
        mutate_fn: F,
        project_fn: P,
        urgency: SyncUrgency,
    )
        requires
            old(self).wf(),
            old(self)@.nodes.contains_key(node_id),
            old(self)@.nodes[node_id].engine.diagnostics.can_mutate(),
            old(self)@.nodes[node_id].engine.shard.state.generation.age < u64::MAX,
            shard_core::may_mutate(mutate_fn, old(self)@.nodes[node_id].engine.shard.state.value),
            forall|place: &mut S| *place == old(self)@.nodes[node_id].engine.shard.state.value
                && #[trigger] call_ensures(mutate_fn, (place,), ()) ==> call_requires(
                project_fn,
                (final(place),),
            ),
        ensures
            final(self).wf(),
            final(self).ids() == old(self).ids(),
            final(self).pace() == old(self).pace(),
            final(self).codecs() == old(self).codecs(),
            exists|place: &mut S| *place == old(self)@.nodes[node_id].engine.shard.state.value
                && *final(place) == final(self)@.nodes[node_id].engine.shard.state.value
                && #[trigger] call_ensures(mutate_fn, (place,), ()),
            cluster_model::mutate_step(
                old(self)@,
                final(self)@,
                old(self).codecs()[node_id].0,
                old(self).ids(),
                node_id,
                project_fn,
                urgency,
            ),
    {
        let ghost before = self.nodes@;
        let ghost c0 = self@;
        assert(self.nodes@.contains_key(node_id));
        assert(before[node_id].wf(node_id));
        let node = self.nodes.get_mut(&node_id).unwrap();
        let ghost n0 = *node;
        let result = node.engine.mutate(mutate_fn, project_fn, urgency);
        let ghost m1 = node.engine@;
        let ghost sent = engine::action_contents(result.actions@);
        proof {
            lemma_node_models(before, node_id, *node);
            assert(node@ == n0@.with_engine(m1));
        }
        proof {
            assert(self.codecs() =~= old(self).codecs());
        }
        let ghost mid = self@;
        self.route_actions(node_id, &result.actions);
        proof {
            cluster_laws::routing_keeps_engines(mid, self@, node_id, self.ids(), sent);
            assert(mid.nodes.contains_key(node_id));
            assert(self@.nodes.contains_key(node_id));
            assert(c0.nodes[node_id] == n0@);
            assert(engine::mutate_sends(
                c0.nodes[node_id].engine,
                self@.nodes[node_id].engine,
                old(self).codecs()[node_id].0,
                result.view,
                urgency,
                sent,
            ));
        }
    }

    /// Tells the node `id` that `node` has joined, and collects its answer.
    fn announce(
        &mut self,
        id: NodeId,
        node: NodeId,
        default_view: &V,
        replies: &mut Vec<(NodeId, Vec<EngineAction>)>,
    )
        requires
            old(self).wf(),
            old(self)@.nodes.contains_key(id),
            old(self)@.nodes[id].engine.diagnostics.can_push(),
        ensures
            final(self).wf(),
            final(self).ids() == old(self).ids(),
            final(self).pace() == old(self).pace(),
            final(self).codecs() == old(self).codecs(),
            final(self)@ == old(self)@.with_nodes(final(self)@.nodes),
            cluster_model::announce_step(
                old(self)@.nodes,
                final(self)@.nodes,
                old(self).codecs(),
                id,
                node,
                *default_view,
                reply_contents(old(replies)@),
                reply_contents(final(replies)@),
            ),
    {
        let ghost before = self.nodes@;
        let ghost r0 = reply_contents(replies@);
        assert(self.nodes@.contains_key(id));
        assert(before[id].wf(id));
        let entry = self.nodes.get_mut(&id).unwrap();
        let ghost n0 = *entry;
        let view = default_view.clone();
        let actions = entry.engine.on_node_joined(node, view);
        let ghost m1 = entry.engine@;
        let ghost sent = engine::action_contents(actions@);
        proof {
            lemma_node_models(before, id, *entry);
            assert(entry@ == n0@.with_engine(m1));
        }
        if actions.len() > 0 {
            replies.push((id, actions));
            assert(reply_contents(replies@) =~= r0.push((id, sent)));
        }
        proof {
            assert(self.codecs() =~= old(self).codecs());
            assert(old(self)@.nodes[id] == n0@);
            assert(cluster_model::join_step(
                old(self)@.nodes[id].engine,
                m1,
                old(self).codecs()[id].0,
                node,
                view,
                sent,
            ));
        }
    }

    /// Tells every node that `node` has joined, and collects their answers.
    fn announce_to_all(&mut self, node: NodeId, default_view: &V) -> (replies: Vec<
        (NodeId, Vec<EngineAction>),
    >)
        requires
            old(self).wf(),
            forall|id: NodeId| #[trigger]
                old(self)@.nodes.contains_key(id)
                    ==> old(self)@.nodes[id].engine.diagnostics.can_push(),
        ensures
            final(self).wf(),
            final(self).ids() == old(self).ids(),
            final(self).pace() == old(self).pace(),
            final(self).codecs() == old(self).codecs(),
            final(self)@ == old(self)@.with_nodes(final(self)@.nodes),
            cluster_model::announces(
                old(self)@.nodes,
                final(self)@.nodes,
                old(self).codecs(),
                old(self).ids(),
                node,
                *default_view,
                reply_contents(replies@),
            ),
    {
        let existing = self.nodes.keys();
        let ghost ids = self.ids();
        let ghost n0 = self@.nodes;
        let mut replies: Vec<(NodeId, Vec<EngineAction>)> = Vec::new();
        let mut i: usize = 0;
        proof {
            self.lemma_wf();
            assert(ids.take(0) =~= Seq::<NodeId>::empty());
            assert(reply_contents(replies@) =~= Seq::<
                (NodeId, Seq<engine::ActionContent>),
            >::empty());
        }
        while i < existing.len()
            invariant
                i <= existing@.len(),
                ids == existing@,
                ids == old(self).ids(),
                crate::node_map::ascending(ids),
                n0 == old(self)@.nodes,
                forall|id: NodeId| #[trigger]
                    n0.contains_key(id) ==> n0[id].engine.diagnostics.can_push(),
                forall|j: int| 0 <= j < ids.len() ==> n0.contains_key(#[trigger] ids[j]),
                self.wf(),
                self.ids() == ids,
                self.pace() == old(self).pace(),
                self.codecs() == old(self).codecs(),
                self@ == old(self)@.with_nodes(self@.nodes),
                self@.nodes.dom() == n0.dom(),
                forall|j: int|
                    i <= j < ids.len() ==> self@.nodes[#[trigger] ids[j]] == n0[ids[j]],
                cluster_model::announces(
                    n0,
                    self@.nodes,
                    old(self).codecs(),
                    ids.take(i as int),
                    node,
                    *default_view,
                    reply_contents(replies@),
                ),
            decreases existing@.len() - i,
        {
            let ghost mid = self@.nodes;
            let ghost r = reply_contents(replies@);
            let id = existing[i];
            assert(mid[ids[i as int]] == n0[ids[i as int]]);
            assert(mid.contains_key(id));
            self.announce(id, node, default_view, &mut replies);
            proof {
                let next = ids.take(i + 1);
                assert(next.drop_last() =~= ids.take(i as int));
                assert(cluster_model::announce_step(
                    mid,
                    self@.nodes,
                    old(self).codecs(),
                    next.last(),
                    node,
                    *default_view,
                    r,
                    reply_contents(replies@),
                ));
                assert(self@.nodes.dom() =~= n0.dom());
                assert forall|j: int| i < j < ids.len() implies self@.nodes[#[trigger] ids[j]]
                    == n0[ids[j]] by {
                    assert(ids[i as int].0 < ids[j].0);
                    assert(mid[ids[j]] == n0[ids[j]]);
                }
            }
            i = i + 1;
        }
        assert(ids.take(ids.len() as int) =~= ids);
        replies
    }

    /// Tells a new engine of the nodes of the cluster, and collects its answers.
    fn introduce(
        &self,
        engine: &mut DistributedStateEngine<S, V, C, SV, DV, DA>,
        default_view: &V,
    ) -> (replies: Vec<(NodeId, Vec<EngineAction>)>)
        requires
            self.wf(),
            old(engine).wf(),
            old(engine)@.diagnostics.metrics.snapshots_sent + self.ids().len() <= u64::MAX,
        ensures
            final(engine).wf(),
            final(engine).codec() == old(engine).codec(),
            final(engine)@.shard.node_id == old(engine)@.shard.node_id,
            cluster_model::meets(
                old(engine)@,
                final(engine)@,
                old(engine).codec().0,
                self.ids(),
                *default_view,
                reply_contents(replies@),
            ),
    {
        let existing = self.nodes.keys();
        let ghost ids = self.ids();
        let ghost e0 = engine@;
        let mut replies: Vec<(NodeId, Vec<EngineAction>)> = Vec::new();
        let mut i: usize = 0;
        proof {
            assert(ids.take(0) =~= Seq::<NodeId>::empty());
            assert(reply_contents(replies@) =~= Seq::<
                (NodeId, Seq<engine::ActionContent>),
            >::empty());
        }
        while i < existing.len()
            invariant
                i <= existing@.len(),
                ids == existing@,
                e0 == old(engine)@,
                engine.wf(),
                engine.codec() == old(engine).codec(),
                engine@.shard.node_id == e0.shard.node_id,
                engine@.diagnostics.metrics.snapshots_sent + (ids.len() - i) <= u64::MAX,
                cluster_model::meets(
                    e0,
                    engine@,
                    old(engine).codec().0,
                    ids.take(i as int),
                    *default_view,
                    reply_contents(replies@),
                ),
            decreases existing@.len() - i,
        {
            let ghost mid = engine@;
            let ghost r = reply_contents(replies@);
            let own = engine.node_id();
            let view = default_view.clone();
            let actions = engine.on_node_joined(existing[i], view);
            let ghost sent = engine::action_contents(actions@);
            if actions.len() > 0 {
                replies.push((own, actions));
                assert(reply_contents(replies@) =~= r.push((own, sent)));
            }
            proof {
                let next = ids.take(i + 1);
                assert(next.drop_last() =~= ids.take(i as int));
                assert(cluster_model::join_step(
                    mid,
                    engine@,
                    old(engine).codec().0,
                    next.last(),
                    view,
                    sent,
                ));
                assert(cluster_model::meet_step(
                    mid,
                    engine@,
                    old(engine).codec().0,
                    next.last(),
                    *default_view,
                    r,
                    reply_contents(replies@),
                ));
            }
            i = i + 1;
        }
        assert(ids.take(ids.len() as int) =~= ids);
        replies
    }

    /// Add a pre-built engine as a node in the cluster.
    ///
    /// The node is immediately announced to all existing nodes via
    /// `on_node_joined`, and existing nodes are announced to the new node.
    pub fn add_node(
        &mut self,
        engine: DistributedStateEngine<S, V, C, SV, DV, DA>,
        default_view: V,
    )
        requires
            old(self).wf(),
            engine.wf(),
            engine@.diagnostics.metrics.snapshots_sent + old(self).ids().len() <= u64::MAX,
            forall|id: NodeId| #[trigger]
                old(self)@.nodes.contains_key(id)
                    ==> old(self)@.nodes[id].engine.diagnostics.can_push(),
        ensures
            final(self).wf(),
            final(self)@.nodes.dom() == old(self)@.nodes.dom().insert(engine@.shard.node_id),
            final(self).pace() == old(self).pace(),
            final(self).codecs() == old(self).codecs().insert(
                engine@.shard.node_id,
                engine.codec(),
            ),
            cluster_model::add_step(
                old(self)@,
                final(self)@,
                old(self).codecs(),
                old(self).ids(),
                final(self).ids(),
                engine@,
                engine.codec().0,
                default_view,
            ),
    {
        let ghost c0 = self@;
        let ghost ids = self.ids();
        let ghost e0 = engine@;
        let ghost codec = engine.codec();
        let new_id = engine.node_id();

        // Announce the new node to all existing nodes
        let answers = self.announce_to_all(new_id, &default_view);
        let ghost nodes = self@.nodes;
        let ghost r1 = reply_contents(answers@);
        self.route_all(&answers);
        let ghost routed = self@;

        // Announce the existing nodes to the new node
        let feed_interval = self.whole_ticks(engine.sync_strategy().change_feed.batch_interval);
        let feed_interval = if feed_interval < 1 {
            1
        } else {
            feed_interval
        };
        let mut engine = engine;
        let own_answers = self.introduce(&mut engine, &default_view);
        let ghost e1 = engine@;
        let ghost r2 = reply_contents(own_answers@);

        let new_node = MockNode {
            engine,
            scheduled: Vec::new(),
            feed_flush_counter: 0,
            feed_flush_interval: feed_interval,
        };
        let ghost placed = new_node;
        let ghost before = self.nodes@;
        self.nodes.insert(new_id, new_node);
        proof {
            lemma_node_models(before, new_id, placed);
            assert(placed@.scheduled =~= Seq::<(SyncContent, u64)>::empty());
            cluster_laws::replies_keep_engines(c0.with_nodes(nodes), routed, ids, r1);
            assert(self.codecs() =~= old(self).codecs().insert(new_id, codec));
        }
        let ghost grown = self@;
        self.route_all(&own_answers);
        proof {
            cluster_laws::replies_keep_engines(grown, self@, self.ids(), r2);
            assert(self@.nodes.dom() =~= c0.nodes.dom().insert(new_id));
            assert(grown == routed.with_nodes(
                routed.nodes.insert(
                    new_id,
                    NodeModel {
                        engine: e1,
                        scheduled: Seq::empty(),
                        flush_counter: 0,
                        flush_interval: cluster_model::flush_ticks(e0, c0.tick_duration),
                    },
                ),
            ));
        }
    }
}

} // verus!
