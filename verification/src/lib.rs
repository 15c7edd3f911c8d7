//! Framework-agnostic distributed state replication.
//!
//! Every node of a cluster owns a state and holds views of the states of the others. A mutation
//! of the owned state is projected into a view and synchronized to the peers by a configurable
//! strategy; [`DistributedStateEngine`] decides what is sent and what is taken in, and performs
//! no I/O itself.
//!
//! - [`types`]: identities, versions, configuration, messages and errors
//! - [`traits`]: what users implement
//! - [`replica`]: the parts of the protocol, each on its own
//! - [`engine`]: the parts combined, and what holds of them together
//! - [`codec`]: the bytes of messages
//! - [`registry`]: the state types of a node
//! - [`host`]: what whoever runs an engine decides
//! - [`sim`]: a deterministic simulation of a cluster with faults
//! - [`test_support`]: states, a clock and a storage for tests
pub mod codec;
pub mod engine;
pub mod host;
pub mod node_map;
pub mod registry;
pub mod replica;
pub mod sim;
pub mod test_support;
pub mod traits;
pub mod types;

pub use engine::{
    DeltaMutateResult, DistributedStateEngine, EngineAction, EngineHealth, EngineQueryResult,
    HealthStatus, MutateResult, SyncMetrics, WireMessage,
};
pub use node_map::NodeMap;
pub use registry::{AnyStateShard, StateRegistry};
pub use traits::clock::Clock;
pub use traits::persistence::PersistError;
pub use traits::state::{DeltaDistributedState, DistributedState, SyncUrgency};
pub use types::config::{ChangeFeedConfig, PushMode, StateConfig, SyncStrategy};
pub use types::envelope::{StateObject, StateViewObject};
pub use types::errors::{DeserializeError, MutationError, QueryError, RegistryError};
pub use types::node::{Generation, NodeId, VersionMismatchPolicy};
pub use types::sync_message::{BatchedChangeFeed, ChangeNotification, SyncMessage};
pub use types::time::{Duration, Instant};

use vstd::prelude::*;

verus! {

} // verus!
