//! Processes as user programs name them.
use vstd::prelude::*;

use crate::syscall::cap::{Cap, CapType};
use crate::syscall::number::Syscall;

verus! {

/// Identifier of a process.
pub type ProcessId = usize;

/// Capabilities of this kind name a process.
#[derive(Clone, Copy, Debug)]
pub struct Process {}

impl CapType for Process {}

impl Cap<Process> {
    /// The system call that starts a process at `entry` with argument `arg`.
    pub fn spawn(entry: usize, arg: usize) -> (r: Syscall)
        ensures
            r == (Syscall::Spawn { entry, arg }),
    {
        Syscall::Spawn { entry, arg }
    }

    /// The system call that runs the process this capability names.
    pub fn switch(self) -> (r: Syscall)
        ensures
            r == (Syscall::Switch { process: self.handle }),
    {
        Syscall::Switch { process: self.handle }
    }
}

/// The system call that asks for the caller's process identifier.
pub fn get_pid() -> (r: Syscall)
    ensures
        r == Syscall::GetPid,
{
    Syscall::GetPid
}

/// The system call that gives the processor back to the process that
/// switched to the caller.
pub fn yield_now() -> (r: Syscall)
    ensures
        r == Syscall::Yield,
{
    Syscall::Yield
}

/// Why a process operation failed.
#[derive(Debug, Clone, Copy, PartialEq, Eq, Structural)]
pub enum ProcessError {
    Unknown,
}

} // verus!
