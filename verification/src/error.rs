use vstd::prelude::*;

verus! {

/// The kernel error codes that this part of the kernel reports.
#[derive(Debug, Clone, Copy, PartialEq, Eq, Structural)]
pub enum SystemError {
    /// No such file or directory (key not found).
    ENOENT,
    /// Argument list too long (a map is full, or a size is too large).
    E2BIG,
    /// File exists (the key is already there).
    EEXIST,
    /// Is a directory.
    EISDIR,
    /// Invalid argument.
    EINVAL,
    /// Function not implemented.
    ENOSYS,
}

/// The POSIX number of each error code.
pub open spec fn errno_of(e: SystemError) -> i32 {
    match e {
        SystemError::ENOENT => 2,
        SystemError::E2BIG => 7,
        SystemError::EEXIST => 17,
        SystemError::EISDIR => 21,
        SystemError::EINVAL => 22,
        SystemError::ENOSYS => 38,
    }
}

impl SystemError {
    /// The negative POSIX number of the error, as helper functions and system
    /// calls return it.
    pub fn to_posix_errno(&self) -> (r: i32)
        ensures
            r == -errno_of(*self),
            r < 0,
    {
        -self.errno()
    }

    /// The positive POSIX number of the error.
    pub fn errno(&self) -> (r: i32)
        ensures
            r == errno_of(*self),
            r > 0,
    {
        match self {
            SystemError::ENOENT => 2,
            SystemError::E2BIG => 7,
            SystemError::EEXIST => 17,
            SystemError::EISDIR => 21,
            SystemError::EINVAL => 22,
            SystemError::ENOSYS => 38,
        }
    }
}

/// The result type of the kernel's fallible operations.
pub type Result<T> = core::result::Result<T, SystemError>;

} // verus!
