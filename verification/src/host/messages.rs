//! Message types for an actor that hosts an engine.
//!
//! Those that hold functions are local-only. Across nodes, an actor sends
//! [`SyncMessage`]s and [`WireMessage`]s.
use std::marker::PhantomData;
use vstd::prelude::*;

use crate::engine::{EngineQueryResult, WireMessage};
use crate::node_map::NodeMap;
use crate::traits::state::SyncUrgency;
use crate::types::envelope::StateViewObject;
use crate::types::node::NodeId;
use crate::types::sync_message::SyncMessage;
use crate::types::time::Duration;

verus! {

/// Fire-and-forget: apply a mutation on this node.
pub struct Mutate<F, P> {
    pub mutate_fn: F,
    pub project_fn: P,
    pub urgency: SyncUrgency,
}

/// Fire-and-forget: apply a delta-aware mutation on this node.
pub struct MutateDelta<F, PV, PD, SD> {
    pub mutate_fn: F,
    pub project_view_fn: PV,
    pub project_delta_fn: PD,
    pub urgency: SyncUrgency,
    pub serialize_delta: SD,
}

/// Fire-and-forget: deliver an inbound sync message from a peer.
#[derive(Debug)]
pub struct InboundSync {
    pub message: SyncMessage,
}

/// Fire-and-forget: deliver an inbound wire message (sync or feed).
#[derive(Debug)]
pub struct InboundWire {
    pub message: WireMessage,
}

/// Request-reply: query the view map on this node.
#[derive(Debug)]
pub struct QueryViews<V> {
    pub max_staleness: Duration,
    pub _marker: PhantomData<V>,
}

impl<V> QueryViews<V> {
    /// A query that takes views no older than `max_staleness` as fresh.
    pub fn new(max_staleness: Duration) -> (q: Self)
        ensures
            q.max_staleness == max_staleness,
    {
        QueryViews { max_staleness, _marker: PhantomData }
    }
}

/// Request-reply: query the view map on this node, across a simulated network.
#[derive(Debug)]
pub struct QueryAll<V> {
    pub max_staleness: Duration,
    pub _marker: PhantomData<V>,
}

impl<V> QueryAll<V> {
    /// A query that takes views no older than `max_staleness` as fresh.
    pub fn new(max_staleness: Duration) -> (q: Self)
        ensures
            q.max_staleness == max_staleness,
    {
        QueryAll { max_staleness, _marker: PhantomData }
    }
}

/// Query reply: the full view map snapshot.
#[derive(Debug)]
pub struct QueryReply<V> {
    pub views: NodeMap<StateViewObject<V>>,
    pub result: EngineQueryResult<()>,
}

/// Fire-and-forget: notify this actor of a cluster membership change.
#[derive(Debug)]
pub enum ClusterChange<V> {
    NodeJoined { node_id: NodeId, default_view: V },
    NodeLeft { node_id: NodeId },
}

/// Fire-and-forget: trigger periodic sync.
#[derive(Debug)]
pub struct PeriodicSync;

/// Fire-and-forget: flush pending change feed notifications.
#[derive(Debug)]
pub struct FlushChangeFeed;

} // verus!
