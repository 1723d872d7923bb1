//! x86_64 descriptor tables: privilege levels, the global descriptor table
//! and the interrupt descriptor table.
use vstd::prelude::*;

pub mod gdt;
pub mod idt;

verus! {

/// A CPU privilege level (ring).
#[derive(Debug, Clone, Copy, PartialEq, Eq, Structural)]
pub enum PrivilegeLevel {
    Ring0,
    Ring1,
    Ring2,
    Ring3,
}

/// The number of a privilege level.
pub open spec fn level_value(p: PrivilegeLevel) -> u16 {
    match p {
        PrivilegeLevel::Ring0 => 0,
        PrivilegeLevel::Ring1 => 1,
        PrivilegeLevel::Ring2 => 2,
        PrivilegeLevel::Ring3 => 3,
    }
}

/// Law: the rings carry their numbers 0 to 3, each its own.
pub proof fn lemma_level_numbers(p: PrivilegeLevel)
    ensures
        level_value(PrivilegeLevel::Ring0) == 0,
        level_value(PrivilegeLevel::Ring1) == 1,
        level_value(PrivilegeLevel::Ring2) == 2,
        level_value(PrivilegeLevel::Ring3) == 3,
        level_value(p) <= 3,
{
}

impl PrivilegeLevel {
    /// The level with number `value`, which must be at most 3.
    pub fn from_u16(value: u16) -> (r: Self)
        requires
            value <= 3,
        ensures
            level_value(r) == value,
    {
        match value {
            0 => PrivilegeLevel::Ring0,
            1 => PrivilegeLevel::Ring1,
            2 => PrivilegeLevel::Ring2,
            _ => PrivilegeLevel::Ring3,
        }
    }

    /// The number of the level.
    pub fn value(self) -> (r: u16)
        ensures
            r == level_value(self),
    {
        match self {
            PrivilegeLevel::Ring0 => 0,
            PrivilegeLevel::Ring1 => 1,
            PrivilegeLevel::Ring2 => 2,
            PrivilegeLevel::Ring3 => 3,
        }
    }
}

/// The operand of `lgdt` and `lidt`: the table's size minus one and its address.
#[derive(Debug)]
pub struct TablePointer {
    pub size: u16,
    pub offset: u64,
}

} // verus!
