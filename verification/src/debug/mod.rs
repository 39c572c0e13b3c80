//! Debugging interfaces.
pub mod tracing;
