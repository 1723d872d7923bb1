//! The system-call interface shared by the kernel and user programs:
//! error values, rights, capabilities, messages and return words.
use vstd::prelude::*;

pub mod cap;
pub mod ipc;
pub mod log;
pub mod number;
pub mod process;

use crate::syscall::ipc::IpcError;
use crate::syscall::process::ProcessError;

verus! {

/// The six words a system call returns.
pub struct SyscallReturnWords {
    pub words: [usize; 6],
}

/// The raw outcome of a system call: a status word and six return words.
pub struct SyscallOut {
    pub ret: usize,
    pub words: SyscallReturnWords,
}

/// Result of a system call.
pub type SyscallResult<T> = Result<T, SyscallError>;

/// Why a system call failed.
#[derive(Debug, Clone, Copy, PartialEq, Eq, Structural)]
pub enum SyscallError {
    Success,
    RightsError(RightsError),
    IpcError(IpcError),
    ProcessError(ProcessError),
    InvalidObject,
    NoCap,
    Unknown,
}

/// Which right a capability lacked.
#[derive(Debug, Clone, Copy, PartialEq, Eq, Structural)]
pub enum RightsError {
    NoRead,
    NoWrite,
    NoExec,
    NoGrant,
    Unknown,
}

/// The status word that reports an error; 0 reports success.
pub open spec fn error_code(e: SyscallError) -> usize {
    match e {
        SyscallError::Success => 0x100,
        SyscallError::RightsError(r) => match r {
            RightsError::NoRead => 0x200,
            RightsError::NoWrite => 0x201,
            RightsError::NoExec => 0x202,
            RightsError::NoGrant => 0x203,
            RightsError::Unknown => 0x204,
        },
        SyscallError::IpcError(i) => match i {
            IpcError::Empty => 0x300,
            IpcError::Full => 0x301,
            IpcError::InvalidEndpoint => 0x302,
        },
        SyscallError::ProcessError(_) => 0x400,
        SyscallError::InvalidObject => 0x500,
        SyscallError::NoCap => 0x600,
        SyscallError::Unknown => 0x700,
    }
}

/// The error that a non-zero status word reports; unknown words give `Unknown`.
pub open spec fn error_of_code(code: usize) -> SyscallError {
    if code == 0x100 {
        SyscallError::Success
    } else if code == 0x200 {
        SyscallError::RightsError(RightsError::NoRead)
    } else if code == 0x201 {
        SyscallError::RightsError(RightsError::NoWrite)
    } else if code == 0x202 {
        SyscallError::RightsError(RightsError::NoExec)
    } else if code == 0x203 {
        SyscallError::RightsError(RightsError::NoGrant)
    } else if code == 0x204 {
        SyscallError::RightsError(RightsError::Unknown)
    } else if code == 0x300 {
        SyscallError::IpcError(IpcError::Empty)
    } else if code == 0x301 {
        SyscallError::IpcError(IpcError::Full)
    } else if code == 0x302 {
        SyscallError::IpcError(IpcError::InvalidEndpoint)
    } else if code == 0x400 {
        SyscallError::ProcessError(ProcessError::Unknown)
    } else if code == 0x500 {
        SyscallError::InvalidObject
    } else if code == 0x600 {
        SyscallError::NoCap
    } else {
        SyscallError::Unknown
    }
}

impl SyscallError {
    /// The status word that carries this error from the kernel to the caller.
    pub fn code(&self) -> (r: usize)
        ensures
            r == error_code(*self),
            r != 0,
    {
        match self {
            SyscallError::Success => 0x100,
            SyscallError::RightsError(r) => match r {
                RightsError::NoRead => 0x200,
                RightsError::NoWrite => 0x201,
                RightsError::NoExec => 0x202,
                RightsError::NoGrant => 0x203,
                RightsError::Unknown => 0x204,
            },
            SyscallError::IpcError(i) => match i {
                IpcError::Empty => 0x300,
                IpcError::Full => 0x301,
                IpcError::InvalidEndpoint => 0x302,
            },
            SyscallError::ProcessError(_) => 0x400,
            SyscallError::InvalidObject => 0x500,
            SyscallError::NoCap => 0x600,
            SyscallError::Unknown => 0x700,
        }
    }

    /// The error that the status word `code` reports.
    pub fn from_code(code: usize) -> (r: Self)
        ensures
            r == error_of_code(code),
    {
        if code == 0x100 {
            SyscallError::Success
        } else if code == 0x200 {
            SyscallError::RightsError(RightsError::NoRead)
        } else if code == 0x201 {
            SyscallError::RightsError(RightsError::NoWrite)
        } else if code == 0x202 {
            SyscallError::RightsError(RightsError::NoExec)
        } else if code == 0x203 {
            SyscallError::RightsError(RightsError::NoGrant)
        } else if code == 0x204 {
            SyscallError::RightsError(RightsError::Unknown)
        } else if code == 0x300 {
            SyscallError::IpcError(IpcError::Empty)
        } else if code == 0x301 {
            SyscallError::IpcError(IpcError::Full)
        } else if code == 0x302 {
            SyscallError::IpcError(IpcError::InvalidEndpoint)
        } else if code == 0x400 {
            SyscallError::ProcessError(ProcessError::Unknown)
        } else if code == 0x500 {
            SyscallError::InvalidObject
        } else if code == 0x600 {
            SyscallError::NoCap
        } else {
            SyscallError::Unknown
        }
    }
}

/// Law: every error survives the trip through its status word.
pub proof fn lemma_error_code_roundtrip(e: SyscallError)
    ensures
        error_of_code(error_code(e)) == e,
        error_code(e) != 0,
{
}

/// Law: a user program decodes from what the kernel hands back exactly the
/// result the kernel's handler gave, error or words.
pub proof fn lemma_result_roundtrip(result: SyscallResult<[usize; 6]>, out: SyscallOut)
    requires
        match result {
            Ok(w) => out.ret == 0 && out.words.words == w,
            Err(e) => out.ret == error_code(e),
        },
    ensures
        out.ret == 0 ==> result == Ok::<[usize; 6], SyscallError>(out.words.words),
        out.ret != 0 ==> result == Err::<[usize; 6], SyscallError>(error_of_code(out.ret)),
{
    if let Err(e) = result {
        lemma_error_code_roundtrip(e);
    }
}

impl SyscallOut {
    /// Bundles a status word and the return words.
    pub fn new(ret: usize, words: [usize; 6]) -> (r: Self)
        ensures
            r.ret == ret,
            r.words.words == words,
    {
        SyscallOut { ret, words: SyscallReturnWords { words } }
    }

    /// What the kernel hands back for `result`: status 0 and the words, or
    /// the error's status word and six zero words.
    pub fn from_result(result: SyscallResult<[usize; 6]>) -> (r: Self)
        ensures
            match result {
                Ok(w) => r.ret == 0 && r.words.words == w,
                Err(e) => r.ret == error_code(e) && r.words.words@ == seq![0usize, 0, 0, 0, 0, 0],
            },
    {
        match result {
            Ok(words) => SyscallOut::new(0, words),
            Err(e) => {
                let r = SyscallOut::new(e.code(), [0usize; 6]);
                assert(r.words.words@ =~= seq![0usize, 0, 0, 0, 0, 0]);
                r
            },
        }
    }

    /// The return words when the status word is 0, else the error it reports.
    pub fn into_result(self) -> (r: SyscallResult<[usize; 6]>)
        ensures
            self.ret == 0 ==> r == Ok::<[usize; 6], SyscallError>(self.words.words),
            self.ret != 0 ==> r == Err::<[usize; 6], SyscallError>(error_of_code(self.ret)),
    {
        if self.ret == 0 {
            Ok(self.words.words)
        } else {
            Err(SyscallError::from_code(self.ret))
        }
    }
}

} // verus!
