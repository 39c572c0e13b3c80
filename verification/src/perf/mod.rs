//! Performance events.
pub mod kprobe;
