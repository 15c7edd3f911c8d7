//! The values that users construct and receive.
pub mod config;
pub mod envelope;
pub mod errors;
pub mod node;
pub mod sync_message;
pub mod text;
pub mod time;
