//! An actor's view of an engine: each message becomes an engine operation, and what the engine
//! wants done becomes messages to the peers.
use vstd::prelude::*;

use crate::engine;
use crate::engine::{ActionContent, DistributedStateEngine, EngineQueryResult};
use crate::engine::effect_laws;
use crate::engine::model;
use crate::engine::model::EngineModel;
use crate::host::messages::{
    ClusterChange, FlushChangeFeed, InboundSync, InboundWire, Mutate, PeriodicSync, QueryReply,
    QueryViews,
};
use crate::host::routing;
use crate::host::routing::{Link, Outgoing};
use crate::node_map::NodeMap;
use crate::replica::shard_core;
use crate::replica::{view_laws, view_map};
use crate::sim::cluster_model;
use crate::traits::clock::Clock;
use crate::types::envelope::StateViewObject;
use crate::types::errors::DeserializeError;
use crate::types::node::NodeId;
use crate::types::time::{Duration, Instant};

verus! {

/// The engine of an actor. The actor's peers are shared with others and given to each
/// operation, which returns what is to be sent to them.
pub struct StateActor<S, V, C, SV, DV, DA> {
    engine: DistributedStateEngine<S, V, C, SV, DV, DA>,
}

impl<S, V, C: Clock, SV, DV, DA> View for StateActor<S, V, C, SV, DV, DA> {
    type V = EngineModel<S, V>;

    closed spec fn view(&self) -> EngineModel<S, V> {
        self.engine@
    }
}

impl<S, V, C, SV, DV, DA> StateActor<S, V, C, SV, DV, DA> where
    C: Clock,
    SV: Fn(&V) -> Vec<u8>,
    DV: Fn(&[u8], u32) -> Result<V, DeserializeError>,
    DA: Fn(&[u8], u32, &V) -> Result<V, DeserializeError>,
 {
    /// The engine is well-formed.
    pub closed spec fn wf(&self) -> bool {
        self.engine.wf()
    }

    /// The functions that serialize views, deserialize them and apply deltas.
    pub closed spec fn codec(&self) -> (SV, DV, Option<DA>) {
        self.engine.codec()
    }

    /// An actor that hosts `engine`.
    pub fn create(engine: DistributedStateEngine<S, V, C, SV, DV, DA>) -> (actor: Self)
        requires
            engine.wf(),
        ensures
            actor.wf(),
            actor@ == engine@,
            actor.codec() == engine.codec(),
    {
        StateActor { engine }
    }

    /// Access the underlying engine (for metrics, health, etc.).
    pub fn engine(&self) -> (engine: &DistributedStateEngine<S, V, C, SV, DV, DA>)
        requires
            self.wf(),
        ensures
            engine.wf(),
            engine@ == self@,
            engine.codec() == self.codec(),
    {
        &self.engine
    }

    /// Takes in a synchronization message of a peer.
    pub fn handle_inbound_sync(&mut self, msg: InboundSync, links: &Vec<Link>) -> (out: Vec<
        Outgoing,
    >)
        requires
            old(self).wf(),
            old(self)@.can_take(msg.message@),
        ensures
            final(self).wf(),
            final(self).codec() == old(self).codec(),
            exists|sent: Seq<ActionContent>| #[trigger]
                model::sync_step(
                    old(self)@,
                    final(self)@,
                    old(self).codec(),
                    msg.message@,
                    sent,
                ) && routing::parcels(out@) == routing::routed(
                    old(self)@.shard.node_id,
                    sent,
                    links@,
                ),
    {
        let own_id = self.engine.node_id();
        let ghost message = msg.message@;
        let actions = self.engine.handle_inbound_sync(msg.message);
        assert(model::sync_step(
            old(self)@,
            self@,
            old(self).codec(),
            message,
            engine::action_contents(actions@),
        ));
        routing::route_actions(own_id, &actions, links)
    }

    /// Takes in a wire message of a peer.
    pub fn handle_inbound_wire(&mut self, msg: InboundWire, links: &Vec<Link>) -> (out: Vec<
        Outgoing,
    >)
        requires
            old(self).wf(),
            old(self)@.can_handle(msg.message@),
        ensures
            final(self).wf(),
            final(self).codec() == old(self).codec(),
            exists|sent: Seq<ActionContent>| #[trigger]
                model::inbound_step(
                    old(self)@,
                    final(self)@,
                    old(self).codec(),
                    msg.message@,
                    sent,
                ) && routing::parcels(out@) == routing::routed(
                    old(self)@.shard.node_id,
                    sent,
                    links@,
                ),
    {
        let own_id = self.engine.node_id();
        let ghost message = msg.message@;
        let actions = self.engine.handle_inbound(msg.message);
        assert(model::inbound_step(
            old(self)@,
            self@,
            old(self).codec(),
            message,
            engine::action_contents(actions@),
        ));
        routing::route_actions(own_id, &actions, links)
    }

    /// Takes in a change of the cluster's membership. Returns what is to be sent, and the node
    /// that is no peer any more, if one has left.
    pub fn handle_cluster_change(&mut self, msg: ClusterChange<V>, links: &Vec<Link>) -> (out: (
        Vec<Outgoing>,
        Option<NodeId>,
    ))
        requires
            old(self).wf(),
            msg is NodeJoined ==> old(self)@.diagnostics.can_push(),
        ensures
            final(self).wf(),
            final(self).codec() == old(self).codec(),
            match msg {
                ClusterChange::NodeJoined { node_id, default_view } => {
                    &&& out.1 is None
                    &&& exists|sent: Seq<ActionContent>| #[trigger]
                        cluster_model::join_step(
                            old(self)@,
                            final(self)@,
                            old(self).codec().0,
                            node_id,
                            default_view,
                            sent,
                        ) && routing::parcels(out.0@) == routing::routed(
                            old(self)@.shard.node_id,
                            sent,
                            links@,
                        )
                },
                ClusterChange::NodeLeft { node_id } => {
                    &&& out.1 == Some(node_id)
                    &&& out.0@.len() == 0
                    &&& final(self)@ == old(self)@.after_leave(node_id)
                },
            },
    {
        let own_id = self.engine.node_id();
        match msg {
            ClusterChange::NodeJoined { node_id, default_view } => {
                let actions = self.engine.on_node_joined(node_id, default_view);
                assert(cluster_model::join_step(
                    old(self)@,
                    self@,
                    old(self).codec().0,
                    node_id,
                    default_view,
                    engine::action_contents(actions@),
                ));
                (routing::route_actions(own_id, &actions, links), None)
            },
            ClusterChange::NodeLeft { node_id } => {
                self.engine.on_node_left(node_id);
                (Vec::new(), Some(node_id))
            },
        }
    }

    /// Broadcasts the node's snapshot, if it is configured to do so periodically.
    pub fn handle_periodic_sync(&mut self, _msg: PeriodicSync, links: &Vec<Link>) -> (out: Vec<
        Outgoing,
    >)
        requires
            old(self).wf(),
            old(self)@.strategy.periodic_full_sync is Some ==> old(self)@.diagnostics.can_push(),
        ensures
            final(self).wf(),
            final(self).codec() == old(self).codec(),
            exists|sent: Seq<ActionContent>| #[trigger]
                model::periodic_step(old(self)@, final(self)@, old(self).codec().0, sent)
                    && routing::parcels(out@) == routing::routed(
                    old(self)@.shard.node_id,
                    sent,
                    links@,
                ),
    {
        let own_id = self.engine.node_id();
        let actions = self.engine.periodic_sync();
        assert(model::periodic_step(
            old(self)@,
            self@,
            old(self).codec().0,
            engine::action_contents(actions@),
        ));
        routing::route_actions(own_id, &actions, links)
    }

    /// Broadcasts the pending change notifications, if there are any.
    pub fn handle_flush_change_feed(&mut self, _msg: FlushChangeFeed, links: &Vec<Link>) -> (out:
        Vec<Outgoing>)
        requires
            old(self).wf(),
        ensures
            final(self).wf(),
            final(self).codec() == old(self).codec(),
            final(self)@ == (EngineModel { feed: Seq::empty(), ..old(self)@ }),
            routing::parcels(out@) == routing::routed_feed(
                old(self)@.shard.node_id,
                old(self)@.feed,
                links@,
            ),
    {
        let own_id = self.engine.node_id();
        match self.engine.flush_change_feed() {
            Some(feed) => routing::broadcast_feed(own_id, &feed, links),
            None => {
                let out: Vec<Outgoing> = Vec::new();
                assert(routing::parcels(out@) =~= Seq::<routing::Parcel>::empty());
                out
            },
        }
    }
}

/// `result` is what a query that takes views no older than `max_staleness` as fresh says of the
/// views of `m` at `now`, and `sent` are the requests that it gives rise to.
pub open spec fn freshness<S, V>(
    m: EngineModel<S, V>,
    ids: Seq<NodeId>,
    max_staleness: Duration,
    now: Instant,
    result: EngineQueryResult<()>,
    sent: Seq<ActionContent>,
) -> bool {
    let stale = view_map::stale_among(ids, m.shard.views, m.shard.node_id, max_staleness, now);
    match result {
        EngineQueryResult::Fresh(_) => stale.len() == 0 && sent == Seq::<ActionContent>::empty(),
        EngineQueryResult::Stale { result, stale_peers } => stale.len() > 0 && stale_peers@ == stale
            && sent == if m.strategy.pull_on_query {
            m.pulls(stale)
        } else {
            Seq::empty()
        },
    }
}

impl<S, V: Clone, C, SV, DV, DA> StateActor<S, V, C, SV, DV, DA> where
    C: Clock,
    SV: Fn(&V) -> Vec<u8>,
    DV: Fn(&[u8], u32) -> Result<V, DeserializeError>,
    DA: Fn(&[u8], u32, &V) -> Result<V, DeserializeError>,
 {
    /// The ids of the views, ascending.
    pub closed spec fn view_ids(&self) -> Seq<NodeId> {
        self.engine.entries().ids()
    }

    /// Applies a mutation.
    pub fn handle_mutate<F: FnOnce(&mut S), P: FnOnce(&S) -> V>(
        &mut self,
        msg: Mutate<F, P>,
        links: &Vec<Link>,
    ) -> (out: Vec<Outgoing>)
        requires
            old(self).wf(),
            old(self)@.diagnostics.can_mutate(),
            old(self)@.shard.state.generation.age < u64::MAX,
            shard_core::may_mutate(msg.mutate_fn, old(self)@.shard.state.value),
            forall|place: &mut S| *place == old(self)@.shard.state.value && #[trigger] call_ensures(
                msg.mutate_fn,
                (place,),
                (),
            ) ==> call_requires(msg.project_fn, (final(place),)),
        ensures
            final(self).wf(),
            final(self).codec() == old(self).codec(),
            exists|place: &mut S| *place == old(self)@.shard.state.value && *final(place)
                == final(self)@.shard.state.value && #[trigger] call_ensures(
                msg.mutate_fn,
                (place,),
                (),
            ),
            exists|view: V, sent: Seq<ActionContent>|
                shard_core::mutation_step(
                    old(self)@.shard,
                    final(self)@.shard,
                    msg.project_fn,
                    view,
                ) && #[trigger] engine::mutate_sends(
                    old(self)@,
                    final(self)@,
                    old(self).codec().0,
                    view,
                    msg.urgency,
                    sent,
                ) && routing::parcels(out@) == routing::routed(
                    old(self)@.shard.node_id,
                    sent,
                    links@,
                ),
    {
        let own_id = self.engine.node_id();
        let result = self.engine.mutate(msg.mutate_fn, msg.project_fn, msg.urgency);
        routing::route_actions(own_id, &result.actions, links)
    }

    /// Answers a query with a copy of all views and what is stale among them, and requests
    /// snapshots where the strategy pulls on queries.
    pub fn handle_query(&self, msg: QueryViews<V>, links: &Vec<Link>) -> (out: (
        QueryReply<V>,
        Vec<Outgoing>,
    ))
        requires
            self.wf(),
        ensures
            out.0.views.wf(),
            out.0.views@.dom() == self@.shard.views.dom(),
            forall|id: NodeId| #[trigger]
                self@.shard.views.contains_key(id) ==> cloned(
                    self@.shard.views[id].value,
                    out.0.views@[id].value,
                ) && out.0.views@[id] == self@.shard.views[id].with_value(
                    out.0.views@[id].value,
                ),
            exists|now: Instant, sent: Seq<ActionContent>|
                (self@.shard.clock.now)(now) && #[trigger] freshness(
                    self@,
                    self.view_ids(),
                    msg.max_staleness,
                    now,
                    out.0.result,
                    sent,
                ) && routing::parcels(out.1@) == routing::routed(
                    self@.shard.node_id,
                    sent,
                    links@,
                ),
    {
        let own_id = self.engine.node_id();
        let views = self.engine.snapshot();
        let unread = |_views: &NodeMap<StateViewObject<V>>| -> (r: ()) {  };
        let ghost project = unread;
        let (result, actions) = self.engine.query(msg.max_staleness, unread);
        proof {
            let sent = engine::action_contents(actions@);
            let now = choose|now: Instant|
                (self@.shard.clock.now)(now) && #[trigger] engine::query_answer(
                    self.engine@,
                    self.engine.entries(),
                    msg.max_staleness,
                    project,
                    now,
                    result,
                    sent,
                );
            assert(freshness(self@, self.view_ids(), msg.max_staleness, now, result, sent));
        }
        (QueryReply { views, result }, routing::route_actions(own_id, &actions, links))
    }
}

/// What the actor's query says of freshness: fresh exactly when no peer is behind an announcement
/// or was last synchronized longer ago than the limit; otherwise all such peers are named, and
/// where the strategy pulls on queries each that has not departed is asked, and no one else.
pub proof fn freshness_is_about_every_peer<S, V>(
    m: EngineModel<S, V>,
    ids: Seq<NodeId>,
    limit: Duration,
    now: Instant,
    result: EngineQueryResult<()>,
    sent: Seq<ActionContent>,
)
    requires
        crate::node_map::ascending(ids),
        freshness(m, ids, limit, now, result, sent),
    ensures
        ({
            let is_stale = |id: NodeId|
                ids.contains(id) && id != m.shard.node_id && (
                m.shard.views[id].pending_remote_generation is Some || now.nanos
                    > m.shard.views[id].synced_at.nanos + limit.nanos);
            match result {
                EngineQueryResult::Fresh(_) => {
                    &&& sent.len() == 0
                    &&& forall|id: NodeId| !#[trigger] is_stale(id)
                },
                EngineQueryResult::Stale { result: _, stale_peers } => {
                    &&& stale_peers@.len() > 0
                    &&& forall|id: NodeId| stale_peers@.contains(id) <==> #[trigger] is_stale(id)
                    &&& !m.strategy.pull_on_query ==> sent.len() == 0
                    &&& m.strategy.pull_on_query ==> {
                        &&& forall|id: NodeId| #[trigger]
                            is_stale(id) && !m.departed.contains(id) ==> exists|i: int|
                                0 <= i < sent.len() && effect_laws::asks(
                                    #[trigger] sent[i],
                                    m,
                                    id,
                                )
                        &&& forall|i: int|
                            0 <= i < sent.len() ==> effect_laws::is_asked_for(
                                #[trigger] sent[i],
                                m,
                                stale_peers@,
                            )
                    }
                },
            }
        }),
{
    let is_stale = |id: NodeId|
        ids.contains(id) && id != m.shard.node_id && (
        m.shard.views[id].pending_remote_generation is Some || now.nanos
            > m.shard.views[id].synced_at.nanos + limit.nanos);
    let stale = view_map::stale_among(ids, m.shard.views, m.shard.node_id, limit, now);
    view_laws::stale_peers_are_listed_once_in_order(
        ids,
        m.shard.views,
        m.shard.node_id,
        limit,
        now,
    );
    assert forall|id: NodeId| stale.contains(id) <==> #[trigger] is_stale(id) by {}
    effect_laws::every_stale_peer_is_asked(m, stale);
    if result is Stale && m.strategy.pull_on_query {
        assert forall|id: NodeId| #[trigger]
            is_stale(id) && !m.departed.contains(id) implies exists|i: int|
            0 <= i < sent.len() && effect_laws::asks(#[trigger] sent[i], m, id) by {
            assert(stale.contains(id));
            assert(!m.departed.contains(id));
        }
    }
    if result is Fresh {
        assert forall|id: NodeId| !#[trigger] is_stale(id) by {
            assert(!stale.contains(id));
        }
    }
}

} // verus!
