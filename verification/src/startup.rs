//! What must hold of the process before the relays start.

use vstd::prelude::*;

verus! {

/// The fewest open files that the process must be allowed.
pub const MIN_FD_LIMIT: u64 = 4096;

/// The exit code after a startup or argument error.
pub const EXIT_FAILURE: i32 = 1;

/// Why the process cannot start.
#[derive(Clone, Copy, Debug, PartialEq, Eq, Structural)]
pub enum StartupError {
    /// The limit on open files is below `MIN_FD_LIMIT`.
    FdLimitTooLow { current: u64 },
    /// The process does not run as root, which raw sockets and the packet
    /// filter device ask for.
    NotRoot,
}

/// Tests the limit on open files first and the effective user second.
pub fn check_startup(fd_limit: u64, euid: u32) -> (r: Result<(), StartupError>)
    ensures
        r == if fd_limit < MIN_FD_LIMIT {
            Err::<(), StartupError>(StartupError::FdLimitTooLow { current: fd_limit })
        } else if euid != 0 {
            Err::<(), StartupError>(StartupError::NotRoot)
        } else {
            Ok::<(), StartupError>(())
        },
{
    if fd_limit < MIN_FD_LIMIT {
        Err(StartupError::FdLimitTooLow { current: fd_limit })
    } else if euid != 0 {
        Err(StartupError::NotRoot)
    } else {
        Ok(())
    }
}

} // verus!
