//! Kernel initialisation data.
pub mod version_info;
