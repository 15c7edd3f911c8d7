//! One distributed state on one node: the owned state, the views of all nodes, and the rules
//! by which mutations, snapshots, deltas and membership changes alter them.
use vstd::prelude::*;

use crate::node_map::NodeMap;
use crate::replica::view_map;
use crate::replica::view_map::ViewMap;
use crate::traits::clock;
use crate::traits::clock::{Clock, Readings};
use crate::types::envelope::{StateObject, StateViewObject};
use crate::types::node::{Generation, NodeId};
use crate::types::time::{Duration, Instant};

verus! {

/// Parameters for an inbound snapshot from a peer.
#[derive(Debug)]
pub struct InboundSnapshot<V> {
    pub source: NodeId,
    pub generation: Generation,
    pub wire_version: u32,
    pub view: V,
    pub created_time: i64,
    pub modified_time: i64,
}

/// Outcome of a successful simple mutation.
#[derive(Debug)]
pub struct MutationOutcome<V> {
    pub generation: Generation,
    pub view: V,
}

/// Outcome of a successful delta-aware mutation.
#[derive(Debug)]
pub struct DeltaMutationOutcome<V, VD> {
    pub generation: Generation,
    pub view: V,
    pub view_delta: VD,
}

/// A mutation that has been applied to a clone of the state but not yet
/// committed. The caller should persist `state()` and then call
/// `ShardCore::commit_mutation` on success.
#[derive(Debug)]
pub struct PreparedMutation<S, V> {
    pub new_state: StateObject<S>,
    pub view: V,
}

impl<S, V> PreparedMutation<S, V> {
    /// The state to persist before committing.
    pub fn state(&self) -> (s: &StateObject<S>)
        ensures
            *s == self.new_state,
    {
        &self.new_state
    }
}

/// A delta mutation that has been applied to a clone but not yet committed.
#[derive(Debug)]
pub struct PreparedDeltaMutation<S, V, VD> {
    pub new_state: StateObject<S>,
    pub view: V,
    pub view_delta: VD,
}

impl<S, V, VD> PreparedDeltaMutation<S, V, VD> {
    /// The state to persist before committing.
    pub fn state(&self) -> (s: &StateObject<S>)
        ensures
            *s == self.new_state,
    {
        &self.new_state
    }
}

/// Result of attempting to accept an inbound snapshot.
#[derive(Debug, Clone, Copy, PartialEq, Eq, Structural)]
pub enum AcceptResult {
    /// The snapshot was accepted and the view map was updated.
    Accepted,
    /// The snapshot was discarded because it is stale or duplicate.
    Discarded,
}

/// Result of attempting to accept an inbound delta.
#[derive(Debug, Clone, Copy, PartialEq, Eq, Structural)]
pub enum DeltaAcceptResult {
    /// The delta was applied to the peer's view.
    Applied,
    /// The delta was discarded (stale or duplicate).
    Discarded,
    /// There is a gap: the delta's generation doesn't follow the local view.
    /// The caller should request a full snapshot.
    GapDetected { local: Generation, incoming: Generation },
    /// The peer has no entry in the view map. The caller should request a snapshot.
    UnknownPeer,
}

/// Result of a freshness-checked query against the view map.
#[derive(Debug)]
pub enum QueryResult<R> {
    /// All views are fresh. The projection result is ready.
    Fresh(R),
    /// Some peers have stale views. The projection ran on the current
    /// (potentially stale) data, but the caller should pull fresh data
    /// from the listed peers and re-query if freshness is required.
    StalePeersDetected { stale_peers: Vec<NodeId>, result: R },
}

/// What a shard holds: the node it runs on, the state that the node owns, its views, and what
/// its clock may say.
pub struct ShardModel<S, V> {
    pub node_id: NodeId,
    pub state: StateObject<S>,
    pub views: Map<NodeId, StateViewObject<V>>,
    pub clock: Readings,
}

impl<S, V> ShardModel<S, V> {
    /// The node always has a view of itself, every view is filed under its owner, and an
    /// announced generation is ahead of the view that it is announced for.
    pub open spec fn wf(self) -> bool {
        &&& self.views.contains_key(self.node_id)
        &&& forall|id: NodeId| #[trigger]
            self.views.contains_key(id) ==> {
                &&& self.views[id].source_node == id
                &&& self.views[id].pending_remote_generation matches Some(p)
                    ==> self.views[id].generation.before(p)
            }
    }

    /// The entry that publishes `value` as the view of the owned state.
    pub open spec fn own_entry(self, value: V, synced_at: Instant) -> StateViewObject<V> {
        StateViewObject {
            generation: self.state.generation,
            wire_version: self.state.storage_version,
            value,
            created_time: self.state.created_time,
            modified_time: self.state.modified_time,
            synced_at,
            pending_remote_generation: None,
            source_node: self.node_id,
        }
    }

    /// `self` owning `state`, with `value` published as its view.
    pub open spec fn publishing(self, state: StateObject<S>, value: V, synced_at: Instant) -> Self {
        let owner = ShardModel { state, ..self };
        ShardModel {
            views: self.views.insert(self.node_id, owner.own_entry(value, synced_at)),
            ..owner
        }
    }

    /// `self` with other views.
    pub open spec fn with_views(self, views: Map<NodeId, StateViewObject<V>>) -> Self {
        ShardModel { views, ..self }
    }
}

/// `f` may be run on a place that holds `before`.
pub open spec fn may_mutate<S, DC, F: FnOnce(&mut S) -> DC>(f: F, before: S) -> bool {
    forall|place: &mut S| *place == before ==> #[trigger] call_requires(f, (place,))
}

/// `state` after one more mutation, made at `unix_ms`, has left `value`.
pub open spec fn advanced<S>(state: StateObject<S>, value: S, unix_ms: i64) -> StateObject<S> {
    StateObject {
        generation: Generation {
            incarnation: state.generation.incarnation,
            age: (state.generation.age + 1) as u64,
        },
        storage_version: state.storage_version,
        value,
        created_time: state.created_time,
        modified_time: unix_ms,
    }
}

/// Whether an inbound update should be accepted over the local one: it must be newer.
pub open spec fn accepts(incoming: Generation, local: Generation) -> bool {
    local.before(incoming)
}

/// Whether a snapshot of `generation` from `source` is accepted: `source` is unknown, or the
/// snapshot is newer than the view held of it.
pub open spec fn snapshot_accepted<V>(
    views: Map<NodeId, StateViewObject<V>>,
    source: NodeId,
    generation: Generation,
) -> bool {
    !views.contains_key(source) || accepts(generation, views[source].generation)
}

/// The announced generation that is still ahead of `reached`, if any.
pub open spec fn still_pending(pending: Option<Generation>, reached: Generation) -> Option<
    Generation,
> {
    match pending {
        Some(p) => if reached.before(p) {
            Some(p)
        } else {
            None
        },
        None => None,
    }
}

/// The entry that an accepted snapshot leaves.
pub open spec fn snapshot_entry<V>(
    views: Map<NodeId, StateViewObject<V>>,
    snap: InboundSnapshot<V>,
    now: Instant,
) -> StateViewObject<V> {
    StateViewObject {
        generation: snap.generation,
        wire_version: snap.wire_version,
        value: snap.view,
        created_time: snap.created_time,
        modified_time: snap.modified_time,
        synced_at: now,
        pending_remote_generation: still_pending(
            if views.contains_key(snap.source) {
                views[snap.source].pending_remote_generation
            } else {
                None
            },
            snap.generation,
        ),
        source_node: snap.source,
    }
}

/// The views after a snapshot has arrived at `now`.
pub open spec fn views_after_snapshot<V>(
    views: Map<NodeId, StateViewObject<V>>,
    snap: InboundSnapshot<V>,
    now: Instant,
) -> Map<NodeId, StateViewObject<V>> {
    if snapshot_accepted(views, snap.source, snap.generation) {
        views.insert(snap.source, snapshot_entry(views, snap, now))
    } else {
        views
    }
}

/// What becomes of a delta that leads to `generation`: it must follow the view held of its
/// source by exactly one mutation of the same incarnation.
pub open spec fn delta_verdict<V>(
    views: Map<NodeId, StateViewObject<V>>,
    source: NodeId,
    generation: Generation,
) -> DeltaAcceptResult {
    if !views.contains_key(source) {
        DeltaAcceptResult::UnknownPeer
    } else {
        let local = views[source].generation;
        if generation.incarnation < local.incarnation {
            DeltaAcceptResult::Discarded
        } else if generation.incarnation > local.incarnation {
            DeltaAcceptResult::GapDetected { local, incoming: generation }
        } else if generation.age == local.age + 1 {
            DeltaAcceptResult::Applied
        } else if generation.age <= local.age {
            DeltaAcceptResult::Discarded
        } else {
            DeltaAcceptResult::GapDetected { local, incoming: generation }
        }
    }
}

/// The entry that an applied delta leaves in place of `existing`.
pub open spec fn delta_entry<V>(
    existing: StateViewObject<V>,
    generation: Generation,
    wire_version: u32,
    value: V,
    unix_ms: i64,
    now: Instant,
) -> StateViewObject<V> {
    StateViewObject {
        generation,
        wire_version,
        value,
        created_time: existing.created_time,
        modified_time: unix_ms,
        synced_at: now,
        pending_remote_generation: still_pending(existing.pending_remote_generation, generation),
        source_node: existing.source_node,
    }
}

/// The views after the change feed has announced that `source` is at `incoming`.
pub open spec fn views_after_notice<V>(
    views: Map<NodeId, StateViewObject<V>>,
    source: NodeId,
    incoming: Generation,
) -> Map<NodeId, StateViewObject<V>> {
    if views.contains_key(source) && views[source].generation.before(incoming) {
        views.insert(source, views[source].with_pending(Some(incoming)))
    } else {
        views
    }
}

/// The placeholder entry of a node that has joined and sent nothing yet. It is older than any
/// real state and marked stale, so that a query pulls the real one.
pub open spec fn placeholder<V>(node: NodeId, default_view: V, now: Instant) -> StateViewObject<V> {
    StateViewObject {
        generation: Generation { incarnation: 0, age: 0 },
        wire_version: 0,
        value: default_view,
        created_time: 0,
        modified_time: 0,
        synced_at: now,
        pending_remote_generation: Some(Generation { incarnation: 1, age: 0 }),
        source_node: node,
    }
}

/// The views of `local` after `node` has joined at `now`.
pub open spec fn views_after_join<V>(
    views: Map<NodeId, StateViewObject<V>>,
    local: NodeId,
    node: NodeId,
    default_view: V,
    now: Instant,
) -> Map<NodeId, StateViewObject<V>> {
    if node == local || views.contains_key(node) {
        views
    } else {
        views.insert(node, placeholder(node, default_view, now))
    }
}

/// The views of `local` after `node` has left.
pub open spec fn views_after_leave<V>(
    views: Map<NodeId, StateViewObject<V>>,
    local: NodeId,
    node: NodeId,
) -> Map<NodeId, StateViewObject<V>> {
    if node == local {
        views
    } else {
        views.remove(node)
    }
}

/// What a mutation that leaves the value of `m1` does to a shard: the age grows by one, and a
/// clone of the projected `view` is published as the node's own view. The two times in `m1`
/// are readings of the clock.
pub open spec fn mutation_step<S, V: Clone, P: FnOnce(&S) -> V>(
    m0: ShardModel<S, V>,
    m1: ShardModel<S, V>,
    p: P,
    view: V,
) -> bool {
    let own = m1.views[m1.node_id];
    &&& (m0.clock.unix_ms)(m1.state.modified_time)
    &&& (m0.clock.now)(own.synced_at)
    &&& call_ensures(p, (&m1.state.value,), view)
    &&& cloned(view, own.value)
    &&& m1 == m0.publishing(
        advanced(m0.state, m1.state.value, m1.state.modified_time),
        own.value,
        own.synced_at,
    )
}

/// What preparing a mutation that leaves the value of `new_state` yields: the state to own
/// next, with the clock's time of the mutation, and the view to publish.
pub open spec fn prepared_step<S, V, P: FnOnce(&S) -> V>(
    m0: ShardModel<S, V>,
    p: P,
    new_state: StateObject<S>,
    view: V,
) -> bool {
    &&& (m0.clock.unix_ms)(new_state.modified_time)
    &&& call_ensures(p, (&new_state.value,), view)
    &&& new_state == advanced(m0.state, new_state.value, new_state.modified_time)
}

/// What committing does: the prepared state is owned, and a clone of its view published.
pub open spec fn committed_step<S, V: Clone>(
    m0: ShardModel<S, V>,
    m1: ShardModel<S, V>,
    new_state: StateObject<S>,
    view: V,
) -> bool {
    let own = m1.views[m1.node_id];
    &&& (m0.clock.now)(own.synced_at)
    &&& cloned(view, own.value)
    &&& m1 == m0.publishing(new_state, own.value, own.synced_at)
}

/// Pure state machine managing one distributed state shard on a single node.
///
/// `ShardCore` holds the owned `StateObject<S>` and the cluster-wide view map. It implements
/// all ordering, mutation, and view-map logic without depending on any actor framework.
#[derive(Debug)]
pub struct ShardCore<S, V, C> {
    node_id: NodeId,
    state: StateObject<S>,
    views: ViewMap<V>,
    clock: C,
}

impl<S, V, C: Clock> View for ShardCore<S, V, C> {
    type V = ShardModel<S, V>;

    closed spec fn view(&self) -> ShardModel<S, V> {
        ShardModel {
            node_id: self.node_id,
            state: self.state,
            views: self.views@,
            clock: clock::readings(self.clock),
        }
    }
}

impl<S, V, C: Clock> ShardCore<S, V, C> {
    pub closed spec fn wf(&self) -> bool {
        self.views.wf() && self@.wf()
    }

    /// What tells the time.
    pub closed spec fn time_source(&self) -> C {
        self.clock
    }

    /// The views as a table that can be walked.
    pub closed spec fn entries(&self) -> NodeMap<StateViewObject<V>> {
        self.views.entries()
    }

    /// What a well-formed shard holds is well-formed, and its table of entries holds its views.
    pub proof fn lemma_wf(&self)
        requires
            self.wf(),
        ensures
            self@.wf(),
            self@.clock == clock::readings(self.time_source()),
            self.entries().wf(),
            self.entries()@ == self@.views,
            self@.views.dom().finite(),
            self.entries().ids().len() == self@.views.dom().len(),
            crate::node_map::ascending(self.entries().ids()),
            forall|i: int|
                0 <= i < self.entries().ids().len() ==> self@.views.contains_key(
                    #[trigger] self.entries().ids()[i],
                ),
            forall|id: NodeId| #[trigger]
                self@.views.contains_key(id) ==> exists|i: int|
                    0 <= i < self.entries().ids().len() && #[trigger] self.entries().ids()[i] == id,
    {
        self.views.lemma_entries();
    }

    /// A shard that owns `state` and publishes `initial_view` as its view.
    pub fn new(node_id: NodeId, state: StateObject<S>, initial_view: V, clock: C) -> (shard: Self)
        ensures
            shard.wf(),
            shard.time_source() == clock,
            shard@.node_id == node_id,
            shard@.state == state,
            shard@.clock == clock::readings(clock),
            (shard@.clock.now)(shard@.views[node_id].synced_at),
            shard@.views == Map::<NodeId, StateViewObject<V>>::empty().insert(
                node_id,
                shard@.own_entry(initial_view, shard@.views[node_id].synced_at),
            ),
    {
        let now = clock.now();
        let initial = StateViewObject {
            generation: state.generation,
            wire_version: state.storage_version,
            value: initial_view,
            created_time: state.created_time,
            modified_time: state.modified_time,
            synced_at: now,
            pending_remote_generation: None,
            source_node: node_id,
        };
        let views = ViewMap::new(node_id, initial);
        ShardCore { node_id, state, views, clock }
    }

    /// The local node's ID.
    pub fn node_id(&self) -> (id: NodeId)
        ensures
            id == self@.node_id,
    {
        self.node_id
    }

    /// The time source.
    pub fn clock(&self) -> (clock: &C)
        ensures
            *clock == self.time_source(),
            self@.clock == clock::readings(*clock),
    {
        &self.clock
    }

    /// Read-only access to the owned state.
    pub fn state(&self) -> (s: &StateObject<S>)
        ensures
            *s == self@.state,
    {
        &self.state
    }

    /// Mutable access to the owned state (for persistence restore).
    pub fn state_mut(&mut self) -> (s: &mut StateObject<S>)
        requires
            old(self).wf(),
        ensures
            *s == old(self)@.state,
            final(self).wf(),
            final(self)@ == (ShardModel { state: *final(s), ..old(self)@ }),
    {
        &mut self.state
    }

    /// A single node's view.
    pub fn get_view(&self, node_id: &NodeId) -> (r: Option<&StateViewObject<V>>)
        requires
            self.wf(),
        ensures
            r == view_map::entry_of(self@.views, *node_id),
    {
        self.views.get(node_id)
    }

    /// Number of nodes in the view map.
    pub fn view_count(&self) -> (n: usize)
        requires
            self.wf(),
        ensures
            n == self@.views.dom().len(),
    {
        self.views.len()
    }

    /// The views as a table that can be walked.
    pub fn table(&self) -> (t: &NodeMap<StateViewObject<V>>)
        ensures
            *t == self.entries(),
    {
        self.views.table()
    }

    /// Whether an inbound update should be accepted: `incoming` must be newer than `local`.
    pub fn should_accept(incoming: Generation, local: Generation) -> (b: bool)
        ensures
            b == accepts(incoming, local),
    {
        local.is_before(&incoming)
    }

    /// Accept or discard an inbound full snapshot that arrives at `now`.
    pub fn accept_inbound_snapshot_at(&mut self, snap: InboundSnapshot<V>, now: Instant) -> (r:
        AcceptResult)
        requires
            old(self).wf(),
        ensures
            final(self).wf(),
            r == if snapshot_accepted(old(self)@.views, snap.source, snap.generation) {
                AcceptResult::Accepted
            } else {
                AcceptResult::Discarded
            },
            final(self)@ == old(self)@.with_views(
                views_after_snapshot(old(self)@.views, snap, now),
            ),
    {
        let pending = match self.views.get(&snap.source) {
            Some(existing) => {
                if !Self::should_accept(snap.generation, existing.generation) {
                    return AcceptResult::Discarded;
                }
                keep_pending(existing.pending_remote_generation, snap.generation)
            },
            None => None,
        };
        self.views.upsert(
            snap.source,
            StateViewObject {
                generation: snap.generation,
                wire_version: snap.wire_version,
                value: snap.view,
                created_time: snap.created_time,
                modified_time: snap.modified_time,
                synced_at: now,
                pending_remote_generation: pending,
                source_node: snap.source,
            },
        );
        AcceptResult::Accepted
    }

    /// Accept or discard an inbound full snapshot from a peer.
    ///
    /// A peer with no existing entry is always accepted; otherwise the snapshot must be newer
    /// than the view held of the peer.
    pub fn accept_inbound_snapshot(&mut self, snap: InboundSnapshot<V>) -> (r: AcceptResult)
        requires
            old(self).wf(),
        ensures
            final(self).wf(),
            r == if snapshot_accepted(old(self)@.views, snap.source, snap.generation) {
                AcceptResult::Accepted
            } else {
                AcceptResult::Discarded
            },
            exists|now: Instant|
                (old(self)@.clock.now)(now) && final(self)@ == old(self)@.with_views(
                    #[trigger] views_after_snapshot(old(self)@.views, snap, now),
                ),
    {
        let now = self.clock.now();
        self.accept_inbound_snapshot_at(snap, now)
    }

    /// What becomes of a delta of `source` that leads to `generation`.
    pub fn judge_delta(&self, source: &NodeId, generation: Generation) -> (r: DeltaAcceptResult)
        requires
            self.wf(),
        ensures
            r == delta_verdict(self@.views, *source, generation),
    {
        let local = match self.views.get(source) {
            Some(existing) => existing.generation,
            None => {
                return DeltaAcceptResult::UnknownPeer;
            },
        };
        if generation.incarnation < local.incarnation {
            return DeltaAcceptResult::Discarded;
        }
        if generation.incarnation > local.incarnation {
            return DeltaAcceptResult::GapDetected { local, incoming: generation };
        }
        if generation.age <= local.age {
            return DeltaAcceptResult::Discarded;
        }
        if generation.age - 1 != local.age {
            return DeltaAcceptResult::GapDetected { local, incoming: generation };
        }
        DeltaAcceptResult::Applied
    }

    /// Accept or discard an inbound delta that turns the view of `source` into `value`, and
    /// arrives at `now`.
    pub fn accept_inbound_delta_at(
        &mut self,
        source: NodeId,
        generation: Generation,
        wire_version: u32,
        value: V,
        unix_ms: i64,
        now: Instant,
    ) -> (r: DeltaAcceptResult)
        requires
            old(self).wf(),
        ensures
            final(self).wf(),
            r == delta_verdict(old(self)@.views, source, generation),
            final(self)@ == if r is Applied {
                old(self)@.with_views(
                    old(self)@.views.insert(
                        source,
                        delta_entry(
                            old(self)@.views[source],
                            generation,
                            wire_version,
                            value,
                            unix_ms,
                            now,
                        ),
                    ),
                )
            } else {
                old(self)@
            },
    {
        let verdict = self.judge_delta(&source, generation);
        if verdict != DeltaAcceptResult::Applied {
            return verdict;
        }
        if let Some(existing) = self.views.get(&source) {
            let view = StateViewObject {
                generation,
                wire_version,
                value,
                created_time: existing.created_time,
                modified_time: unix_ms,
                synced_at: now,
                pending_remote_generation: keep_pending(
                    existing.pending_remote_generation,
                    generation,
                ),
                source_node: source,
            };
            self.views.update(&source, view);
        }
        DeltaAcceptResult::Applied
    }

    /// Accept or discard an inbound delta update from a peer.
    ///
    /// The `generation` is the generation *after* applying the delta.
    ///
    /// - If the peer has no entry, returns `UnknownPeer`.
    /// - If the generation doesn't follow the peer's current view, returns `GapDetected`.
    /// - If stale (older incarnation or age), returns `Discarded`.
    /// - Otherwise, applies `apply_fn` and updates the view map.
    pub fn accept_inbound_delta<AF: FnOnce(&V) -> V>(
        &mut self,
        source: NodeId,
        generation: Generation,
        wire_version: u32,
        apply_fn: AF,
    ) -> (r: DeltaAcceptResult)
        requires
            old(self).wf(),
            delta_verdict(old(self)@.views, source, generation) is Applied ==> call_requires(
                apply_fn,
                (&old(self)@.views[source].value,),
            ),
        ensures
            final(self).wf(),
            r == delta_verdict(old(self)@.views, source, generation),
            r !is Applied ==> final(self)@ == old(self)@,
            r is Applied ==> {
                let entry = final(self)@.views[source];
                &&& (old(self)@.clock.unix_ms)(entry.modified_time)
                &&& (old(self)@.clock.now)(entry.synced_at)
                &&& call_ensures(apply_fn, (&old(self)@.views[source].value,), entry.value)
                &&& final(self)@ == old(self)@.with_views(
                    old(self)@.views.insert(
                        source,
                        delta_entry(
                            old(self)@.views[source],
                            generation,
                            wire_version,
                            entry.value,
                            entry.modified_time,
                            entry.synced_at,
                        ),
                    ),
                )
            },
    {
        let verdict = self.judge_delta(&source, generation);
        if verdict != DeltaAcceptResult::Applied {
            return verdict;
        }
        if let Some(existing) = self.views.get(&source) {
            let value = apply_fn(&existing.value);
            let now = self.clock.now();
            let unix_ms = self.clock.unix_ms();
            self.accept_inbound_delta_at(source, generation, wire_version, value, unix_ms, now);
        }
        DeltaAcceptResult::Applied
    }

    /// The peers whose views are stale at `now`: not synced within `max_staleness`, or with a
    /// newer generation announced.
    pub fn stale_peers_at(&self, max_staleness: Duration, now: Instant) -> (stale: Vec<NodeId>)
        requires
            self.wf(),
        ensures
            stale@ == view_map::stale_among(
                self.entries().ids(),
                self@.views,
                self@.node_id,
                max_staleness,
                now,
            ),
    {
        proof {
            self.views.lemma_entries();
        }
        self.views.stale_peers_at(self.node_id, max_staleness, now)
    }

    /// The peers whose views are stale by now.
    pub fn stale_peers(&self, max_staleness: Duration) -> (stale: Vec<NodeId>)
        requires
            self.wf(),
        ensures
            exists|now: Instant|
                (self@.clock.now)(now) && stale@ == #[trigger] view_map::stale_among(
                    self.entries().ids(),
                    self@.views,
                    self@.node_id,
                    max_staleness,
                    now,
                ),
    {
        let now = self.clock.now();
        self.stale_peers_at(max_staleness, now)
    }

    /// Mark a peer's view as stale based on a change-feed notification: if the announced
    /// generation is newer than the view, it becomes the view's pending generation.
    pub fn mark_stale(&mut self, source: NodeId, incarnation: u64, age: u64)
        requires
            old(self).wf(),
        ensures
            final(self).wf(),
            final(self)@ == old(self)@.with_views(
                views_after_notice(old(self)@.views, source, Generation { incarnation, age }),
            ),
    {
        let incoming = Generation::new(incarnation, age);
        if let Some(existing) = self.views.get_mut(&source) {
            if existing.generation.is_before(&incoming) {
                existing.pending_remote_generation = Some(incoming);
            }
        }
        assert(self@.views =~= views_after_notice(old(self)@.views, source, incoming));
    }

    /// Handle a node joining the cluster at `now`: a node without an entry gets a placeholder.
    pub fn on_node_joined_at(&mut self, node_id: NodeId, default_view: V, now: Instant)
        requires
            old(self).wf(),
        ensures
            final(self).wf(),
            final(self)@ == old(self)@.with_views(
                views_after_join(
                    old(self)@.views,
                    old(self)@.node_id,
                    node_id,
                    default_view,
                    now,
                ),
            ),
    {
        if node_id == self.node_id {
            return;
        }
        self.views.insert_node(
            node_id,
            StateViewObject {
                generation: Generation::zero(),
                wire_version: 0,
                value: default_view,
                created_time: 0,
                modified_time: 0,
                synced_at: now,
                pending_remote_generation: Some(Generation::new(1, 0)),
                source_node: node_id,
            },
        );
    }

    /// Handle a node joining the cluster.
    ///
    /// Adds a placeholder entry for the new node if it doesn't already exist, marked stale so
    /// that the query path knows to pull.
    pub fn on_node_joined(&mut self, node_id: NodeId, default_view: V)
        requires
            old(self).wf(),
        ensures
            final(self).wf(),
            exists|now: Instant|
                (old(self)@.clock.now)(now) && final(self)@ == old(self)@.with_views(
                    #[trigger] views_after_join(
                        old(self)@.views,
                        old(self)@.node_id,
                        node_id,
                        default_view,
                        now,
                    ),
                ),
    {
        let now = self.clock.now();
        self.on_node_joined_at(node_id, default_view, now);
    }

    /// Handle a node leaving the cluster: its entry is dropped. The local node keeps its own.
    pub fn on_node_left(&mut self, node_id: NodeId)
        requires
            old(self).wf(),
        ensures
            final(self).wf(),
            final(self)@ == old(self)@.with_views(
                views_after_leave(old(self)@.views, old(self)@.node_id, node_id),
            ),
    {
        if node_id == self.node_id {
            return;
        }
        self.views.remove_node(&node_id);
    }

    /// Query the views with a freshness requirement, at `now`.
    pub fn query_local_at<R, F: FnOnce(&NodeMap<StateViewObject<V>>) -> R>(
        &self,
        max_staleness: Duration,
        project: F,
        now: Instant,
    ) -> (r: QueryResult<R>)
        requires
            self.wf(),
            call_requires(project, (&self.entries(),)),
        ensures
            query_answer(self.entries(), self@.node_id, max_staleness, project, now, r),
    {
        let stale = self.stale_peers_at(max_staleness, now);
        proof {
            self.views.lemma_entries();
        }
        let result = project(self.views.table());
        if stale.len() == 0 {
            QueryResult::Fresh(result)
        } else {
            QueryResult::StalePeersDetected { stale_peers: stale, result }
        }
    }

    /// Query the views with a freshness requirement.
    ///
    /// The projection always runs on the current views. Returns [`QueryResult::Fresh`] if all
    /// peers are within `max_staleness`, and the stale peers along with the result otherwise.
    /// The local node's own entry is never considered stale.
    pub fn query_local<R, F: FnOnce(&NodeMap<StateViewObject<V>>) -> R>(
        &self,
        max_staleness: Duration,
        project: F,
    ) -> (r: QueryResult<R>)
        requires
            self.wf(),
            call_requires(project, (&self.entries(),)),
        ensures
            exists|now: Instant|
                (self@.clock.now)(now) && #[trigger] query_answer(
                    self.entries(),
                    self@.node_id,
                    max_staleness,
                    project,
                    now,
                    r,
                ),
    {
        let now = self.clock.now();
        self.query_local_at(max_staleness, project, now)
    }

    /// Publishes `view` at `now` as the local node's own entry.
    fn update_own_view_at(&mut self, view: V, now: Instant)
        requires
            old(self).wf(),
        ensures
            final(self).wf(),
            final(self)@ == old(self)@.publishing(old(self)@.state, view, now),
    {
        let own = StateViewObject {
            generation: self.state.generation,
            wire_version: self.state.storage_version,
            value: view,
            created_time: self.state.created_time,
            modified_time: self.state.modified_time,
            synced_at: now,
            pending_remote_generation: None,
            source_node: self.node_id,
        };
        let id = self.node_id;
        self.views.update(&id, own);
    }

    /// Publishes `view` as the local node's own entry.
    fn update_own_view(&mut self, view: V)
        requires
            old(self).wf(),
        ensures
            final(self).wf(),
            final(self)@ == old(self)@.publishing(
                old(self)@.state,
                view,
                final(self)@.views[old(self)@.node_id].synced_at,
            ),
            (old(self)@.clock.now)(final(self)@.views[old(self)@.node_id].synced_at),
    {
        let now = self.clock.now();
        self.update_own_view_at(view, now);
    }

    /// Counts one more mutation of the owned state, made at `unix_ms`.
    fn advance_at(&mut self, unix_ms: i64)
        requires
            old(self).wf(),
            old(self)@.state.generation.age < u64::MAX,
        ensures
            final(self).wf(),
            final(self)@ == (ShardModel {
                state: advanced(old(self)@.state, old(self)@.state.value, unix_ms),
                ..old(self)@
            }),
    {
        self.state.generation.age = self.state.generation.age + 1;
        self.state.modified_time = unix_ms;
    }
}

impl<S, V: Clone, C: Clock> ShardCore<S, V, C> {
    /// Collect a full snapshot of all views.
    pub fn snapshot(&self) -> (copy: NodeMap<StateViewObject<V>>)
        requires
            self.wf(),
        ensures
            copy.wf(),
            copy@.dom() == self@.views.dom(),
            forall|id: NodeId| #[trigger]
                self@.views.contains_key(id) ==> cloned(self@.views[id].value, copy@[id].value)
                    && copy@[id] == self@.views[id].with_value(copy@[id].value),
    {
        self.views.snapshot()
    }

    /// Apply a mutation closure to the owned state.
    ///
    /// The `project_fn` converts the updated state into a view for the
    /// view map entry. For simple states, pass `|s| s.clone()`.
    pub fn apply_mutation<F: FnOnce(&mut S), P: FnOnce(&S) -> V>(
        &mut self,
        mutate_fn: F,
        project_fn: P,
    ) -> (outcome: MutationOutcome<V>)
        requires
            old(self).wf(),
            old(self)@.state.generation.age < u64::MAX,
            may_mutate(mutate_fn, old(self)@.state.value),
            forall|place: &mut S| *place == old(self)@.state.value && #[trigger] call_ensures(
                mutate_fn,
                (place,),
                (),
            ) ==> call_requires(project_fn, (final(place),)),
        ensures
            final(self).wf(),
            exists|place: &mut S| *place == old(self)@.state.value && *final(place)
                == final(self)@.state.value && #[trigger] call_ensures(mutate_fn, (place,), ()),
            mutation_step(old(self)@, final(self)@, project_fn, outcome.view),
            outcome.generation == final(self)@.state.generation,
    {
        mutate_fn(&mut self.state.value);
        let unix_ms = self.clock.unix_ms();
        self.advance_at(unix_ms);
        let view = project_fn(&self.state.value);
        self.update_own_view(view.clone());
        MutationOutcome { generation: self.state.generation, view }
    }

    /// Apply a delta-aware mutation to the owned state.
    ///
    /// - `mutate_fn` applies the mutation and returns a description of the change.
    /// - `project_view_fn` projects the full state into the public view.
    /// - `project_delta_fn` projects the state-level change into a view-level delta.
    pub fn apply_mutation_with_delta<F, PV, PD, DC, VD>(
        &mut self,
        mutate_fn: F,
        project_view_fn: PV,
        project_delta_fn: PD,
    ) -> (outcome: DeltaMutationOutcome<V, VD>) where
        F: FnOnce(&mut S) -> DC,
        PV: FnOnce(&S) -> V,
        PD: FnOnce(&DC) -> VD,

        requires
            old(self).wf(),
            old(self)@.state.generation.age < u64::MAX,
            may_mutate(mutate_fn, old(self)@.state.value),
            forall|place: &mut S, out: DC| *place == old(self)@.state.value
                && #[trigger] call_ensures(mutate_fn, (place,), out) ==> call_requires(
                project_view_fn,
                (final(place),),
            ) && call_requires(project_delta_fn, (&out,)),
        ensures
            final(self).wf(),
            exists|place: &mut S, change: DC| *place == old(self)@.state.value && *final(place)
                == final(self)@.state.value && #[trigger] call_ensures(mutate_fn, (place,), change)
                && call_ensures(project_delta_fn, (&change,), outcome.view_delta),
            mutation_step(old(self)@, final(self)@, project_view_fn, outcome.view),
            outcome.generation == final(self)@.state.generation,
    {
        let change = mutate_fn(&mut self.state.value);
        let unix_ms = self.clock.unix_ms();
        self.advance_at(unix_ms);
        let view = project_view_fn(&self.state.value);
        let view_delta = project_delta_fn(&change);
        self.update_own_view(view.clone());
        DeltaMutationOutcome { generation: self.state.generation, view, view_delta }
    }

    /// Phase 2: Commit a previously prepared mutation.
    ///
    /// Replaces the owned state and updates the local view map entry.
    /// Only call after persistence succeeds.
    pub fn commit_mutation(&mut self, prepared: PreparedMutation<S, V>) -> (outcome:
        MutationOutcome<V>)
        requires
            old(self).wf(),
        ensures
            final(self).wf(),
            committed_step(old(self)@, final(self)@, prepared.new_state, prepared.view),
            outcome.generation == prepared.new_state.generation,
            outcome.view == prepared.view,
    {
        self.state = prepared.new_state;
        self.update_own_view(prepared.view.clone());
        MutationOutcome { generation: self.state.generation, view: prepared.view }
    }

    /// Phase 2 (delta-aware): Commit a previously prepared delta mutation.
    pub fn commit_delta_mutation<VD>(&mut self, prepared: PreparedDeltaMutation<S, V, VD>) -> (outcome:
        DeltaMutationOutcome<V, VD>)
        requires
            old(self).wf(),
        ensures
            final(self).wf(),
            committed_step(old(self)@, final(self)@, prepared.new_state, prepared.view),
            outcome.generation == prepared.new_state.generation,
            outcome.view == prepared.view,
            outcome.view_delta == prepared.view_delta,
    {
        self.state = prepared.new_state;
        self.update_own_view(prepared.view.clone());
        DeltaMutationOutcome {
            generation: self.state.generation,
            view: prepared.view,
            view_delta: prepared.view_delta,
        }
    }
}

impl<S: Clone, V, C: Clock> ShardCore<S, V, C> {
    /// Phase 1: Prepare a mutation without modifying state or view map.
    ///
    /// Clones the state, applies the mutation to the clone, and computes
    /// the new view. The caller should persist `prepared.state()` and then
    /// call `commit_mutation` on success, or simply drop the prepared
    /// value on failure (state remains unchanged).
    pub fn prepare_mutation<F: FnOnce(&mut S), P: FnOnce(&S) -> V>(
        &self,
        mutate_fn: F,
        project_fn: P,
    ) -> (prepared: PreparedMutation<S, V>)
        requires
            self@.state.generation.age < u64::MAX,
            forall|start: S|
                #![trigger cloned(self@.state.value, start)]
                cloned(self@.state.value, start) ==> may_mutate(mutate_fn, start),
            forall|place: &mut S| cloned(self@.state.value, *place) && #[trigger] call_ensures(
                mutate_fn,
                (place,),
                (),
            ) ==> call_requires(project_fn, (final(place),)),
        ensures
            exists|place: &mut S| cloned(self@.state.value, *place) && *final(place)
                == prepared.new_state.value && #[trigger] call_ensures(mutate_fn, (place,), ()),
            prepared_step(self@, project_fn, prepared.new_state, prepared.view),
    {
        let mut new_state = self.state.clone();
        mutate_fn(&mut new_state.value);
        new_state.generation.age = new_state.generation.age + 1;
        new_state.modified_time = self.clock.unix_ms();
        let view = project_fn(&new_state.value);
        PreparedMutation { new_state, view }
    }

    /// Phase 1 (delta-aware): Prepare a delta mutation without modifying
    /// state or view map.
    pub fn prepare_mutation_with_delta<F, PV, PD, DC, VD>(
        &self,
        mutate_fn: F,
        project_view_fn: PV,
        project_delta_fn: PD,
    ) -> (prepared: PreparedDeltaMutation<S, V, VD>) where
        F: FnOnce(&mut S) -> DC,
        PV: FnOnce(&S) -> V,
        PD: FnOnce(&DC) -> VD,

        requires
            self@.state.generation.age < u64::MAX,
            forall|start: S|
                #![trigger cloned(self@.state.value, start)]
                cloned(self@.state.value, start) ==> may_mutate(mutate_fn, start),
            forall|place: &mut S, out: DC| cloned(self@.state.value, *place)
                && #[trigger] call_ensures(mutate_fn, (place,), out) ==> call_requires(
                project_view_fn,
                (final(place),),
            ) && call_requires(project_delta_fn, (&out,)),
        ensures
            exists|place: &mut S, change: DC| cloned(self@.state.value, *place) && *final(place)
                == prepared.new_state.value && #[trigger] call_ensures(mutate_fn, (place,), change)
                && call_ensures(project_delta_fn, (&change,), prepared.view_delta),
            prepared_step(self@, project_view_fn, prepared.new_state, prepared.view),
    {
        let mut new_state = self.state.clone();
        let change = mutate_fn(&mut new_state.value);
        new_state.generation.age = new_state.generation.age + 1;
        new_state.modified_time = self.clock.unix_ms();
        let view = project_view_fn(&new_state.value);
        let view_delta = project_delta_fn(&change);
        PreparedDeltaMutation { new_state, view, view_delta }
    }
}

/// What a freshness-checked query answers at `now`: the projection of the views, and the
/// stale peers if there are any.
pub open spec fn query_answer<V, R, F: FnOnce(&NodeMap<StateViewObject<V>>) -> R>(
    entries: NodeMap<StateViewObject<V>>,
    local: NodeId,
    max_staleness: Duration,
    project: F,
    now: Instant,
    answer: QueryResult<R>,
) -> bool {
    let stale = view_map::stale_among(entries.ids(), entries@, local, max_staleness, now);
    match answer {
        QueryResult::Fresh(result) => stale.len() == 0 && call_ensures(
            project,
            (&entries,),
            result,
        ),
        QueryResult::StalePeersDetected { stale_peers, result } => stale.len() > 0 && stale_peers@
            == stale && call_ensures(project, (&entries,), result),
    }
}

/// The announced generation that is still ahead of `reached`, if any.
fn keep_pending(pending: Option<Generation>, reached: Generation) -> (kept: Option<Generation>)
    ensures
        kept == still_pending(pending, reached),
{
    match pending {
        Some(p) => if reached.is_before(&p) {
            Some(p)
        } else {
            None
        },
        None => None,
    }
}

/// A fresh `StateObject` of the given incarnation, created at `unix_ms`.
pub fn new_state_object_at<S>(value: S, incarnation: u64, unix_ms: i64) -> (state: StateObject<S>)
    ensures
        state == (StateObject {
            generation: Generation { incarnation, age: 0 },
            storage_version: 0,
            value,
            created_time: unix_ms,
            modified_time: unix_ms,
        }),
{
    StateObject {
        generation: Generation::new(incarnation, 0),
        storage_version: 0,
        value,
        created_time: unix_ms,
        modified_time: unix_ms,
    }
}

/// A fresh `StateObject` for a state with a given incarnation. Used at node startup.
pub fn new_state_object<S, C: Clock>(value: S, incarnation: u64, clock: &C) -> (state: StateObject<
    S,
>)
    ensures
        call_ensures(C::unix_ms, (clock,), state.created_time),
        state == (StateObject {
            generation: Generation { incarnation, age: 0 },
            storage_version: 0,
            value,
            created_time: state.created_time,
            modified_time: state.created_time,
        }),
{
    let now = clock.unix_ms();
    new_state_object_at(value, incarnation, now)
}

} // verus!
