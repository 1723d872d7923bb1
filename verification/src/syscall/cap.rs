//! Capabilities as user programs hold them, and access rights.
use vstd::prelude::*;

use crate::syscall::number::Syscall;
use crate::syscall::process::Process;

verus! {

/// A capability to untyped memory.
pub struct Untyped;

/// Index of a capability in a process's capability table.
pub type CapHandle = usize;

/// Marks the kinds of kernel objects a capability can name.
pub trait CapType {}

impl CapType for Untyped {}

/// A capability of kind `T`, named by its handle.
#[derive(Debug)]
pub struct Cap<T: CapType> {
    pub handle: CapHandle,
    pub phantom: core::marker::PhantomData<T>,
}

impl<T: CapType> Clone for Cap<T> {
    fn clone(&self) -> (r: Self)
        ensures
            r.handle == self.handle,
    {
        Cap { handle: self.handle, phantom: core::marker::PhantomData }
    }
}

impl<T: CapType> Copy for Cap<T> {

}

impl<T: CapType> Cap<T> {
    /// The capability with handle `handle`.
    pub fn new(handle: CapHandle) -> (r: Self)
        ensures
            r.handle == handle,
    {
        Cap { handle, phantom: core::marker::PhantomData }
    }

    /// The system call that makes a copy of this capability holding only
    /// the rights also in `mask`.
    pub fn derive(self, mask: Rights) -> (r: Syscall)
        ensures
            r == (Syscall::DeriveCap { cap: self.handle, mask: mask.0 as usize }),
    {
        Syscall::DeriveCap { cap: self.handle, mask: mask.0 as usize }
    }

    /// The system call that moves this capability to the process that
    /// `process` names.
    pub fn move_to(self, process: Cap<Process>) -> (r: Syscall)
        ensures
            r == (Syscall::MoveCap { process: process.handle, cap: self.handle }),
    {
        Syscall::MoveCap { process: process.handle, cap: self.handle }
    }

    /// The capability with handle `handle`, as received from another process.
    pub fn from_handle(handle: CapHandle) -> (r: Self)
        ensures
            r.handle == handle,
    {
        Cap { handle, phantom: core::marker::PhantomData }
    }
}

/// Bits of all rights.
pub const RIGHTS_ALL: u8 = 0xff;

/// Bit of the read right.
pub const RIGHTS_READ: u8 = 0x1;

/// Bit of the write right.
pub const RIGHTS_WRITE: u8 = 0x2;

/// Bit of the execute right.
pub const RIGHTS_EXEC: u8 = 0x4;

/// Bit of the grant right.
pub const RIGHTS_GRANT: u8 = 0x8;

/// Bits of the read, write and execute rights.
pub const RIGHTS_RWE: u8 = 0x7;

/// Access rights: read (bit 0), write (bit 1), execute (bit 2), grant (bit 3).
#[derive(Clone, Copy, Debug, PartialEq, Eq, Structural)]
pub struct Rights(pub u8);

impl Rights {
    /// Whether the read right is held.
    pub fn read(self) -> (r: bool)
        ensures
            r == (self.0 & 0x1 != 0),
    {
        (self & Rights(RIGHTS_READ)).0 > 0
    }

    /// Whether the write right is held.
    pub fn write(self) -> (r: bool)
        ensures
            r == (self.0 & 0x2 != 0),
    {
        (self & Rights(RIGHTS_WRITE)).0 > 0
    }

    /// Whether the execute right is held.
    pub fn exec(self) -> (r: bool)
        ensures
            r == (self.0 & 0x4 != 0),
    {
        (self & Rights(RIGHTS_EXEC)).0 > 0
    }

    /// Whether the grant right is held.
    pub fn grant(self) -> (r: bool)
        ensures
            r == (self.0 & 0x8 != 0),
    {
        (self & Rights(RIGHTS_GRANT)).0 > 0
    }

    /// Whether at least one of the rights in `mask` is held.
    pub fn matches(self, mask: Rights) -> (r: bool)
        ensures
            r == (self.0 & mask.0 != 0),
    {
        (self & mask).0 > 0
    }

    /// The rights whose bits are in `value`, which must fit in a byte.
    pub fn from_usize(value: usize) -> (r: Self)
        requires
            value <= 0xff,
        ensures
            r.0 == value,
    {
        Rights(value as u8)
    }
}

impl core::ops::BitAnd for Rights {
    type Output = Self;

    fn bitand(self, rhs: Self) -> (r: Self) {
        Rights(self.0 & rhs.0)
    }
}

impl vstd::std_specs::ops::BitAndSpecImpl for Rights {
    open spec fn obeys_bitand_spec() -> bool {
        true
    }

    open spec fn bitand_req(self, rhs: Self) -> bool {
        true
    }

    open spec fn bitand_spec(self, rhs: Self) -> Self {
        Rights(self.0 & rhs.0)
    }
}

impl core::ops::BitOr for Rights {
    type Output = Self;

    fn bitor(self, rhs: Self) -> (r: Self) {
        Rights(self.0 | rhs.0)
    }
}

impl vstd::std_specs::ops::BitOrSpecImpl for Rights {
    open spec fn obeys_bitor_spec() -> bool {
        true
    }

    open spec fn bitor_req(self, rhs: Self) -> bool {
        true
    }

    open spec fn bitor_spec(self, rhs: Self) -> Self {
        Rights(self.0 | rhs.0)
    }
}

/// Outcome of an operation on a capability.
#[derive(Debug, Clone, Copy, PartialEq, Eq, Structural)]
pub enum CapError {
    Success,
    NoGrant,
    Unknown,
}

impl CapError {
    /// The outcome that the word `value` reports: 0 and 1 are known, any
    /// other word is `Unknown`.
    pub fn from_usize(value: usize) -> (r: Self)
        ensures
            r == if value == 0 {
                CapError::Success
            } else if value == 1 {
                CapError::NoGrant
            } else {
                CapError::Unknown
            },
    {
        if value == 0 {
            CapError::Success
        } else if value == 1 {
            CapError::NoGrant
        } else {
            CapError::Unknown
        }
    }

    /// The word that reports this outcome.
    pub fn value(self) -> (r: usize)
        ensures
            r == match self {
                CapError::Success => 0,
                CapError::NoGrant => 1,
                CapError::Unknown => usize::MAX,
            },
    {
        match self {
            CapError::Success => 0,
            CapError::NoGrant => 1,
            CapError::Unknown => usize::MAX,
        }
    }
}

} // verus!
