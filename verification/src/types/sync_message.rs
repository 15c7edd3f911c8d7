//! The messages that nodes exchange.
use vstd::prelude::*;

use crate::engine::laws;
use crate::types::node::{Generation, NodeId};

verus! {

/// Wire-level synchronization messages exchanged between nodes.
#[derive(Debug)]
pub enum SyncMessage {
    /// A complete snapshot of a peer's view.
    FullSnapshot {
        state_name: String,
        source_node: NodeId,
        generation: Generation,
        wire_version: u32,
        data: Vec<u8>,
    },
    /// An incremental delta update. The delta advances the view
    /// from `generation.age - 1` to `generation.age`.
    DeltaUpdate {
        state_name: String,
        source_node: NodeId,
        generation: Generation,
        wire_version: u32,
        data: Vec<u8>,
    },
    /// Request a full snapshot from the owner.
    RequestSnapshot { state_name: String, requester: NodeId },
}

/// What a [`SyncMessage`] says, over mathematical sequences.
pub enum SyncContent {
    FullSnapshot {
        state_name: Seq<char>,
        source_node: NodeId,
        generation: Generation,
        wire_version: u32,
        data: Seq<u8>,
    },
    DeltaUpdate {
        state_name: Seq<char>,
        source_node: NodeId,
        generation: Generation,
        wire_version: u32,
        data: Seq<u8>,
    },
    RequestSnapshot { state_name: Seq<char>, requester: NodeId },
}

impl SyncMessage {
    /// The node that the message comes from.
    pub fn sender(&self) -> (id: NodeId)
        ensures
            id == laws::sender(self@),
    {
        match self {
            SyncMessage::FullSnapshot { source_node, .. } => *source_node,
            SyncMessage::DeltaUpdate { source_node, .. } => *source_node,
            SyncMessage::RequestSnapshot { requester, .. } => *requester,
        }
    }
}

impl View for SyncMessage {
    type V = SyncContent;

    open spec fn view(&self) -> SyncContent {
        match *self {
            SyncMessage::FullSnapshot {
                state_name,
                source_node,
                generation,
                wire_version,
                data,
            } => SyncContent::FullSnapshot {
                state_name: state_name@,
                source_node,
                generation,
                wire_version,
                data: data@,
            },
            SyncMessage::DeltaUpdate {
                state_name,
                source_node,
                generation,
                wire_version,
                data,
            } => SyncContent::DeltaUpdate {
                state_name: state_name@,
                source_node,
                generation,
                wire_version,
                data: data@,
            },
            SyncMessage::RequestSnapshot { state_name, requester } => SyncContent::RequestSnapshot {
                state_name: state_name@,
                requester,
            },
        }
    }
}

impl Clone for SyncMessage {
    fn clone(&self) -> (copy: Self)
        ensures
            copy@ == self@,
    {
        match self {
            SyncMessage::FullSnapshot {
                state_name,
                source_node,
                generation,
                wire_version,
                data,
            } => SyncMessage::FullSnapshot {
                state_name: state_name.clone(),
                source_node: *source_node,
                generation: *generation,
                wire_version: *wire_version,
                data: data.clone(),
            },
            SyncMessage::DeltaUpdate {
                state_name,
                source_node,
                generation,
                wire_version,
                data,
            } => SyncMessage::DeltaUpdate {
                state_name: state_name.clone(),
                source_node: *source_node,
                generation: *generation,
                wire_version: *wire_version,
                data: data.clone(),
            },
            SyncMessage::RequestSnapshot { state_name, requester } => SyncMessage::RequestSnapshot {
                state_name: state_name.clone(),
                requester: *requester,
            },
        }
    }
}

/// A notification that a state has changed on a node (used by the change feed).
#[derive(Debug)]
pub struct ChangeNotification {
    pub state_name: String,
    pub source_node: NodeId,
    pub generation: Generation,
}

/// What a [`ChangeNotification`] says.
pub struct ChangeContent {
    pub state_name: Seq<char>,
    pub source_node: NodeId,
    pub generation: Generation,
}

impl View for ChangeNotification {
    type V = ChangeContent;

    open spec fn view(&self) -> ChangeContent {
        ChangeContent {
            state_name: self.state_name@,
            source_node: self.source_node,
            generation: self.generation,
        }
    }
}

impl Clone for ChangeNotification {
    fn clone(&self) -> (copy: Self)
        ensures
            copy@ == self@,
    {
        ChangeNotification {
            state_name: self.state_name.clone(),
            source_node: self.source_node,
            generation: self.generation,
        }
    }
}

/// The contents of a list of notifications, in order.
pub open spec fn notification_contents(list: Seq<ChangeNotification>) -> Seq<ChangeContent> {
    Seq::new(list.len(), |i: int| list[i]@)
}

/// A batched collection of change notifications broadcast by the aggregator.
/// No target node is specified because this message is broadcast to all nodes in the cluster.
#[derive(Debug)]
pub struct BatchedChangeFeed {
    pub source_node: NodeId,
    pub notifications: Vec<ChangeNotification>,
}

/// What a [`BatchedChangeFeed`] says.
pub struct FeedContent {
    pub source_node: NodeId,
    pub notifications: Seq<ChangeContent>,
}

impl View for BatchedChangeFeed {
    type V = FeedContent;

    open spec fn view(&self) -> FeedContent {
        FeedContent {
            source_node: self.source_node,
            notifications: notification_contents(self.notifications@),
        }
    }
}

impl Clone for BatchedChangeFeed {
    fn clone(&self) -> (copy: Self)
        ensures
            copy@ == self@,
    {
        let mut notifications: Vec<ChangeNotification> = Vec::new();
        let mut i: usize = 0;
        while i < self.notifications.len()
            invariant
                i <= self.notifications.len(),
                notifications@.len() == i,
                forall|j: int| 0 <= j < i ==> notifications@[j]@ == self.notifications@[j]@,
            decreases self.notifications.len() - i,
        {
            notifications.push(self.notifications[i].clone());
            i = i + 1;
        }
        assert(notification_contents(notifications@) =~= notification_contents(
            self.notifications@,
        ));
        BatchedChangeFeed { source_node: self.source_node, notifications }
    }
}

} // verus!
