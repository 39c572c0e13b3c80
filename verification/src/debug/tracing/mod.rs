//! The `tracing` directory of the debug file system.
use vstd::prelude::*;

use crate::error::SystemError;

verus! {

/// What a poll of a file reports as ready, as bits.
#[derive(Debug, Clone, Copy, PartialEq, Eq, Structural)]
pub struct PollStatus {
    pub bits: u8,
}

/// The directories that tracing adds to the debug file system, each with its
/// mode: `tracing` under the root of the debug file system, read-only, and
/// `events` under `tracing`, writable by its owner. Each directory stands under the
/// one before it.
pub fn tracing_dir_layout() -> (r: Vec<(&'static str, u32)>)
    ensures
        r@.len() == 2,
        r@[0].0@ == "tracing"@,
        r@[0].1 == 0o555,
        r@[1].0@ == "events"@,
        r@[1].1 == 0o755,
{
    let mut dirs: Vec<(&'static str, u32)> = Vec::new();
    dirs.push(("tracing", 0o555));
    dirs.push(("events", 0o755));
    dirs
}

/// The callbacks of the directories under `tracing`: they can be opened, and
/// reading, writing or polling them fails because they are directories.
#[derive(Debug)]
pub struct TracingDirCallBack;

impl TracingDirCallBack {
    /// Opening a tracing directory succeeds.
    pub fn open(&self) -> (r: Result<(), SystemError>)
        ensures
            r is Ok,
    {
        Ok(())
    }

    /// Reading a tracing directory fails with `EISDIR`.
    pub fn read(&self, _buf: &mut [u8], _offset: usize) -> (r: Result<usize, SystemError>)
        ensures
            r == Err::<usize, SystemError>(SystemError::EISDIR),
            final(_buf)@ == old(_buf)@,
    {
        Err(SystemError::EISDIR)
    }

    /// Writing a tracing directory fails with `EISDIR`.
    pub fn write(&self, _buf: &[u8], _offset: usize) -> (r: Result<usize, SystemError>)
        ensures
            r == Err::<usize, SystemError>(SystemError::EISDIR),
    {
        Err(SystemError::EISDIR)
    }

    /// Polling a tracing directory fails with `EISDIR`.
    pub fn poll(&self) -> (r: Result<PollStatus, SystemError>)
        ensures
            r == Err::<PollStatus, SystemError>(SystemError::EISDIR),
    {
        Err(SystemError::EISDIR)
    }
}

} // verus!
