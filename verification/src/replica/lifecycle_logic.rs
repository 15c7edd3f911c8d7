//! Cluster lifecycle events: nodes that join, leave, and come back.
use vstd::prelude::*;

use crate::node_map::NodeMap;
use crate::replica::shard_core;
use crate::replica::shard_core::ShardCore;
use crate::traits::clock::Clock;
use crate::types::node::NodeId;
use crate::types::time::Instant;

verus! {

/// Action the host should take after a node joins.
#[derive(Debug, Clone, Copy, PartialEq, Eq, Structural)]
pub enum JoinAction {
    /// Send the local node's current snapshot to the new peer so it
    /// can populate its view map.
    SendSnapshotToPeer { target: NodeId },
}

/// Action the host should take after a node leaves.
#[derive(Debug, Clone, Copy, PartialEq, Eq, Structural)]
pub enum LeaveAction {
    /// The peer has been removed from the view map.
    /// Discard any in-flight messages from this node.
    PeerRemoved { node_id: NodeId },
}

/// Pure logic for handling cluster lifecycle events (node join, leave,
/// crash-restart).
///
/// Tracks the nodes that have left and not come back, so that late messages of theirs do not
/// re-create the views that were removed.
#[derive(Debug)]
pub struct LifecycleLogic {
    departed_nodes: NodeMap<()>,
}

impl View for LifecycleLogic {
    type V = Set<NodeId>;

    closed spec fn view(&self) -> Set<NodeId> {
        self.departed_nodes@.dom()
    }
}

impl LifecycleLogic {
    pub closed spec fn wf(&self) -> bool {
        self.departed_nodes.wf()
    }

    /// No node has left yet.
    pub fn new() -> (logic: Self)
        ensures
            logic.wf(),
            logic@ == Set::<NodeId>::empty(),
    {
        let logic = LifecycleLogic { departed_nodes: NodeMap::new() };
        assert(logic@ =~= Set::<NodeId>::empty());
        logic
    }

    /// Handle a node joining the cluster.
    ///
    /// Adds it to the views and forgets that it has ever left. Returns the action for the host
    /// to execute.
    pub fn on_node_joined<S, V, C: Clock>(
        &mut self,
        shard: &mut ShardCore<S, V, C>,
        node_id: NodeId,
        default_view: V,
    ) -> (actions: Vec<JoinAction>)
        requires
            old(self).wf(),
            old(shard).wf(),
        ensures
            final(self).wf(),
            final(shard).wf(),
            final(self)@ == old(self)@.remove(node_id),
            exists|now: Instant|
                (old(shard)@.clock.now)(now) && final(shard)@ == old(shard)@.with_views(
                    #[trigger] shard_core::views_after_join(
                        old(shard)@.views,
                        old(shard)@.node_id,
                        node_id,
                        default_view,
                        now,
                    ),
                ),
            actions@ == seq![JoinAction::SendSnapshotToPeer { target: node_id }],
    {
        self.departed_nodes.remove(&node_id);
        assert(self@ =~= old(self)@.remove(node_id));
        shard.on_node_joined(node_id, default_view);
        let mut actions: Vec<JoinAction> = Vec::new();
        actions.push(JoinAction::SendSnapshotToPeer { target: node_id });
        actions
    }

    /// Handle a node leaving the cluster.
    ///
    /// Removes its view and remembers that it has left, so that late messages of its are
    /// filtered.
    pub fn on_node_left<S, V, C: Clock>(
        &mut self,
        shard: &mut ShardCore<S, V, C>,
        node_id: NodeId,
    ) -> (action: LeaveAction)
        requires
            old(self).wf(),
            old(shard).wf(),
        ensures
            final(self).wf(),
            final(shard).wf(),
            final(self)@ == old(self)@.insert(node_id),
            final(shard)@ == old(shard)@.with_views(
                shard_core::views_after_leave(old(shard)@.views, old(shard)@.node_id, node_id),
            ),
            action == (LeaveAction::PeerRemoved { node_id }),
    {
        shard.on_node_left(node_id);
        self.departed_nodes.insert(node_id, ());
        assert(self@ =~= old(self)@.insert(node_id));
        LeaveAction::PeerRemoved { node_id }
    }

    /// Whether inbound messages from a node should be accepted: not if it has left and not
    /// joined again.
    pub fn should_accept_from(&self, node_id: &NodeId) -> (b: bool)
        requires
            self.wf(),
        ensures
            b == !self@.contains(*node_id),
    {
        !self.departed_nodes.contains_key(node_id)
    }

    /// Whether a node has left and not joined again.
    pub fn is_departed(&self, node_id: &NodeId) -> (b: bool)
        requires
            self.wf(),
        ensures
            b == self@.contains(*node_id),
    {
        self.departed_nodes.contains_key(node_id)
    }

    /// The number of nodes that have left and not joined again.
    pub fn departed_count(&self) -> (n: usize)
        requires
            self.wf(),
        ensures
            n == self@.len(),
    {
        self.departed_nodes.len()
    }
}

} // verus!
