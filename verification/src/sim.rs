//! A deterministic simulation of a cluster: nodes, a transport between them, and faults.
pub mod cluster;
pub mod cluster_laws;
pub mod cluster_model;
pub mod convergence;
pub mod interceptor;
pub mod push_laws;
pub mod test_cluster;
pub mod test_codec;
pub mod test_convergence;
pub mod tick_laws;
pub mod transport;
pub mod transport_laws;
