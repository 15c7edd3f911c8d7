//! State types, a clock and a storage for tests.
pub mod configs;
pub mod test_clock;
pub mod test_persist;
pub mod test_state;
