//! What a host of the engine decides: how actions become messages to peers, how commands become
//! engine operations, who is told of whom, and what faults do to messages in transit.
pub mod events;
pub mod interceptor;
pub mod messages;
pub mod network;
pub mod node;
pub mod routing;
pub mod state_actor;
