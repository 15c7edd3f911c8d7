//! The views that a node holds of every node's state.
use vstd::prelude::*;

use crate::node_map::NodeMap;
use crate::traits::clock::Clock;
use crate::types::envelope::StateViewObject;
use crate::types::node::NodeId;
use crate::types::time::{Duration, Instant};

verus! {

/// Whether a view is stale at `now`: its owner has announced a newer generation, or it was
/// last synchronized more than `max_staleness` ago.
pub open spec fn is_stale<V>(
    view: StateViewObject<V>,
    max_staleness: Duration,
    now: Instant,
) -> bool {
    view.pending_remote_generation is Some || now.since(view.synced_at) > max_staleness.nanos
}

/// The test for nodes other than `local` whose views are stale at `now`.
pub open spec fn stale_test<V>(
    views: Map<NodeId, StateViewObject<V>>,
    local: NodeId,
    max_staleness: Duration,
    now: Instant,
) -> spec_fn(NodeId) -> bool {
    |id: NodeId| id != local && is_stale(views[id], max_staleness, now)
}

/// The nodes of `ids`, in order, other than `local` whose views are stale at `now`.
pub open spec fn stale_among<V>(
    ids: Seq<NodeId>,
    views: Map<NodeId, StateViewObject<V>>,
    local: NodeId,
    max_staleness: Duration,
    now: Instant,
) -> Seq<NodeId> {
    ids.filter(stale_test(views, local, max_staleness, now))
}

/// The map of views of one state: one entry per known node.
#[derive(Debug)]
pub struct ViewMap<V> {
    views: NodeMap<StateViewObject<V>>,
}

impl<V> View for ViewMap<V> {
    type V = Map<NodeId, StateViewObject<V>>;

    closed spec fn view(&self) -> Map<NodeId, StateViewObject<V>> {
        self.views@
    }
}

/// The entry of `id`, if it has one.
pub open spec fn entry_of<'a, V>(
    views: Map<NodeId, StateViewObject<V>>,
    id: NodeId,
) -> Option<&'a StateViewObject<V>> {
    if views.contains_key(id) {
        Some(&views[id])
    } else {
        None
    }
}

impl<V> ViewMap<V> {
    pub closed spec fn wf(&self) -> bool {
        self.views.wf()
    }

    /// The nodes with an entry, in ascending order.
    pub closed spec fn ids(&self) -> Seq<NodeId> {
        self.views.ids()
    }

    /// The entries as a table that can be walked.
    pub closed spec fn entries(&self) -> NodeMap<StateViewObject<V>> {
        self.views
    }

    /// The table of entries holds what the map holds.
    pub proof fn lemma_entries(&self)
        requires
            self.wf(),
        ensures
            self.entries().wf(),
            self.entries()@ == self@,
            self.entries().ids() == self.ids(),
            crate::node_map::ascending(self.ids()),
            self.ids().len() == self@.dom().len(),
            self@.dom().finite(),
            forall|i: int|
                0 <= i < self.ids().len() ==> self@.contains_key(#[trigger] self.ids()[i]),
            forall|id: NodeId| #[trigger]
                self@.contains_key(id) ==> exists|i: int|
                    0 <= i < self.ids().len() && #[trigger] self.ids()[i] == id,
    {
        self.views.lemma_ids();
    }

    /// A map with a single entry for the local node.
    pub fn new(node_id: NodeId, initial_view: StateViewObject<V>) -> (m: Self)
        ensures
            m.wf(),
            m@ == Map::<NodeId, StateViewObject<V>>::empty().insert(node_id, initial_view),
    {
        let mut views = NodeMap::new();
        views.insert(node_id, initial_view);
        ViewMap { views }
    }

    /// A node's view; `None` if the node has no entry.
    pub fn get(&self, node_id: &NodeId) -> (r: Option<&StateViewObject<V>>)
        requires
            self.wf(),
        ensures
            r == entry_of(self@, *node_id),
    {
        self.views.get(node_id)
    }

    /// Replaces an existing node's view; returns `false`, changing nothing, if the node has
    /// no entry.
    pub fn update(&mut self, node_id: &NodeId, view: StateViewObject<V>) -> (updated: bool)
        requires
            old(self).wf(),
        ensures
            final(self).wf(),
            updated == old(self)@.contains_key(*node_id),
            final(self)@ == if updated {
                old(self)@.insert(*node_id, view)
            } else {
                old(self)@
            },
    {
        if self.views.contains_key(node_id) {
            self.views.insert(*node_id, view);
            true
        } else {
            false
        }
    }

    /// Adds an entry for a new node; returns `false`, changing nothing, if the node already
    /// has one.
    pub fn insert_node(&mut self, node_id: NodeId, view: StateViewObject<V>) -> (inserted: bool)
        requires
            old(self).wf(),
        ensures
            final(self).wf(),
            inserted == !old(self)@.contains_key(node_id),
            final(self)@ == if inserted {
                old(self)@.insert(node_id, view)
            } else {
                old(self)@
            },
    {
        if self.views.contains_key(&node_id) {
            false
        } else {
            self.views.insert(node_id, view);
            true
        }
    }

    /// Adds or replaces a node's view.
    pub fn upsert(&mut self, node_id: NodeId, view: StateViewObject<V>)
        requires
            old(self).wf(),
        ensures
            final(self).wf(),
            final(self)@ == old(self)@.insert(node_id, view),
    {
        self.views.insert(node_id, view);
    }

    /// Drops a node's entry; returns whether it had one.
    pub fn remove_node(&mut self, node_id: &NodeId) -> (removed: bool)
        requires
            old(self).wf(),
        ensures
            final(self).wf(),
            removed == old(self)@.contains_key(*node_id),
            final(self)@ == old(self)@.remove(*node_id),
    {
        let previous = self.views.remove(node_id);
        previous.is_some()
    }

    /// A node's view for changing in place.
    pub fn get_mut(&mut self, node_id: &NodeId) -> (r: Option<&mut StateViewObject<V>>)
        requires
            old(self).wf(),
        ensures
            match r {
                Some(v) => {
                    &&& old(self)@.contains_key(*node_id)
                    &&& *v == old(self)@[*node_id]
                    &&& final(self).wf()
                    &&& final(self)@ == old(self)@.insert(*node_id, *final(v))
                },
                None => !old(self)@.contains_key(*node_id) && *final(self) == *old(self),
            },
    {
        self.views.get_mut(node_id)
    }

    /// Whether a node has an entry.
    pub fn contains(&self, node_id: &NodeId) -> (b: bool)
        requires
            self.wf(),
        ensures
            b == self@.contains_key(*node_id),
    {
        self.views.contains_key(node_id)
    }

    /// The number of nodes with an entry.
    pub fn len(&self) -> (n: usize)
        requires
            self.wf(),
        ensures
            n == self@.dom().len(),
    {
        self.views.len()
    }

    /// All nodes with an entry, in ascending order.
    pub fn node_ids(&self) -> (ids: Vec<NodeId>)
        ensures
            ids@ == self.ids(),
    {
        self.views.keys()
    }

    /// The entries as a table that can be walked.
    pub fn table(&self) -> (t: &NodeMap<StateViewObject<V>>)
        ensures
            *t == self.entries(),
    {
        &self.views
    }

    /// The peers, other than `local_node`, whose views are stale at `now`, in ascending order.
    pub fn stale_peers_at(
        &self,
        local_node: NodeId,
        max_staleness: Duration,
        now: Instant,
    ) -> (stale: Vec<NodeId>)
        requires
            self.wf(),
        ensures
            stale@ == stale_among(self.ids(), self@, local_node, max_staleness, now),
    {
        let mut stale: Vec<NodeId> = Vec::new();
        let mut i: usize = 0;
        let n = self.views.len();
        let ghost p = stale_test(self@, local_node, max_staleness, now);
        assert(self.ids().take(0).filter(p) =~= Seq::<NodeId>::empty()) by {
            reveal(Seq::filter);
        }
        while i < n
            invariant
                self.wf(),
                n == self.ids().len(),
                i <= n,
                p == stale_test(self@, local_node, max_staleness, now),
                stale@ == self.ids().take(i as int).filter(p),
            decreases n - i,
        {
            let id = self.views.id_at(i);
            let view = self.views.value_at(i);
            proof {
                let next = self.ids().take(i + 1);
                assert(next.drop_last() =~= self.ids().take(i as int));
                assert(next.last() == id);
                reveal(Seq::filter);
            }
            if id != local_node && (view.pending_remote_generation.is_some() || now.duration_since(
                view.synced_at,
            ).nanos > max_staleness.nanos) {
                stale.push(id);
            }
            i = i + 1;
        }
        assert(self.ids().take(n as int) =~= self.ids());
        stale
    }

    /// The peers, other than `local_node`, whose views are stale at the time that `clock`
    /// tells.
    pub fn stale_peers<C: Clock>(
        &self,
        local_node: NodeId,
        max_staleness: Duration,
        clock: &C,
    ) -> (stale: Vec<NodeId>)
        requires
            self.wf(),
        ensures
            exists|now: Instant|
                call_ensures(C::now, (clock,), now) && stale@ == #[trigger] stale_among(
                    self.ids(),
                    self@,
                    local_node,
                    max_staleness,
                    now,
                ),
    {
        let now = clock.now();
        self.stale_peers_at(local_node, max_staleness, now)
    }

    /// Updates a node's view by a function of the current one: the entry becomes what `f`
    /// returns, and stays as it is when `f` returns `None`. Returns whether it was written.
    pub fn update_if<F>(&mut self, node_id: &NodeId, f: F) -> (written: bool) where
        F: FnOnce(Option<&StateViewObject<V>>) -> Option<StateViewObject<V>>,

        requires
            old(self).wf(),
            call_requires(f, (entry_of(old(self)@, *node_id),)),
        ensures
            final(self).wf(),
            exists|outcome: Option<StateViewObject<V>>| #[trigger]
                call_ensures(f, (entry_of(old(self)@, *node_id),), outcome) && written
                    == outcome.is_some() && final(self)@ == match outcome {
                    Some(view) => old(self)@.insert(*node_id, view),
                    None => old(self)@,
                },
    {
        match f(self.views.get(node_id)) {
            Some(view) => {
                self.views.insert(*node_id, view);
                true
            },
            None => false,
        }
    }
}

impl<V: Clone> ViewMap<V> {
    /// A copy of all entries, each differing from its original at most by what cloning the
    /// value changes.
    pub fn snapshot(&self) -> (copy: NodeMap<StateViewObject<V>>)
        requires
            self.wf(),
        ensures
            copy.wf(),
            copy@.dom() == self@.dom(),
            forall|id: NodeId| #[trigger]
                self@.contains_key(id) ==> cloned(self@[id].value, copy@[id].value) && copy@[id]
                    == self@[id].with_value(copy@[id].value),
    {
        let mut copy: NodeMap<StateViewObject<V>> = NodeMap::new();
        let mut i: usize = 0;
        let n = self.views.len();
        proof {
            self.lemma_entries();
        }
        while i < n
            invariant
                self.wf(),
                copy.wf(),
                n == self.ids().len(),
                i <= n,
                crate::node_map::ascending(self.ids()),
                forall|j: int| 0 <= j < i ==> copy@.contains_key(#[trigger] self.ids()[j]),
                forall|id: NodeId| #[trigger] copy@.contains_key(id) ==> exists|j: int|
                    0 <= j < i && #[trigger] self.ids()[j] == id,
                forall|id: NodeId| #[trigger]
                    copy@.contains_key(id) ==> cloned(self@[id].value, copy@[id].value) && copy@[id]
                        == self@[id].with_value(copy@[id].value),
            decreases n - i,
        {
            let id = self.views.id_at(i);
            let ghost before = copy@;
            copy.insert(id, self.views.value_at(i).clone());
            proof {
                assert forall|k: NodeId| #[trigger] copy@.contains_key(k) implies exists|j: int|
                    0 <= j < i + 1 && #[trigger] self.ids()[j] == k by {
                    if k == id {
                        assert(self.ids()[i as int] == k);
                    } else {
                        assert(before.contains_key(k));
                        let j = choose|j: int| 0 <= j < i && #[trigger] self.ids()[j] == k;
                        assert(self.ids()[j] == k);
                    }
                }
            }
            i = i + 1;
        }
        proof {
            assert forall|id: NodeId| copy@.contains_key(id) == self@.contains_key(id) by {
                if self@.contains_key(id) {
                    let j = choose|j: int| 0 <= j < n && #[trigger] self.ids()[j] == id;
                    assert(copy@.contains_key(self.ids()[j]));
                }
            }
            assert(copy@.dom() =~= self@.dom());
        }
        copy
    }
}

} // verus!
