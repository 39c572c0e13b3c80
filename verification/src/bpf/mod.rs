//! eBPF maps and helper functions.
pub mod helper;
pub mod map;
