//! The replication logic of one state on one node, without any I/O.
pub mod change_feed_logic;
pub mod delta_accumulator;
pub mod diagnostics;
pub mod diagnostics_laws;
pub mod lifecycle_logic;
pub mod persistence_startup_logic;
pub mod shard_core;
pub mod shard_laws;
pub mod sync_logic;
pub mod versioning_logic;
pub mod view_laws;
pub mod view_map;
