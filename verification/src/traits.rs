//! What users implement.
pub mod clock;
pub mod persistence;
pub mod state;
