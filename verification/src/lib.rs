//! Verified core of the kernel's eBPF map, helper, tracing and kprobe logic.
pub mod error;
pub mod bpf;
pub mod debug;
pub mod init;
pub mod perf;
