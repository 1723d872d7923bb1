//! The interrupt descriptor table and its gate entries.
use vstd::prelude::*;

use crate::tables::{level_value, PrivilegeLevel, TablePointer};

verus! {

/// Number of entries of the interrupt descriptor table.
pub const IDT_LENGTH: usize = 256;

/// Vector of the double fault exception.
pub const DOUBLE_FAULT_INDEX: usize = 0x8;

/// Vector of the general protection fault exception.
pub const GP_FAULT_INDEX: usize = 0xd;

/// Vector of the page fault exception.
pub const PAGE_FAULT_INDEX: usize = 0xe;

/// Vector of the first interrupt that is not a CPU exception.
pub const FIRST_INTERRUPT: usize = 32;

/// The interrupt descriptor table.
#[derive(Clone, Copy, Debug)]
pub struct Table {
    pub entries: [Entry; 256],
}

/// A gate of the interrupt descriptor table.
#[derive(Clone, Copy, Debug)]
pub struct Entry {
    pub pointer_low: u16,
    pub gdt_selector: u16,
    pub options: EntryOptions,
    pub pointer_middle: u16,
    pub pointer_high: u32,
    pub reserved: u32,
}

/// The address of the handler that a gate points to.
pub open spec fn handler_address(e: Entry) -> u64 {
    (e.pointer_low as u64) | ((e.pointer_middle as u64) << 16u64) | ((e.pointer_high as u64)
        << 32u64)
}

impl Table {
    /// A table whose gates all point to address 0 in code segment
    /// `code_selector`, with minimal (not present) options.
    pub fn new(code_selector: u16) -> (r: Self)
        ensures
            forall|i: int|
                0 <= i < 256 ==> #[trigger] r.entries@[i] == Entry::empty_spec(code_selector),
    {
        let e = Entry::empty(code_selector);
        Table { entries: [e; 256] }
    }

    /// The entry of the double fault exception.
    pub fn double_fault(&mut self) -> (r: &mut Entry)
        ensures
            *r == old(self).entries@[DOUBLE_FAULT_INDEX as int],
            final(self).entries@ == old(self).entries@.update(
                DOUBLE_FAULT_INDEX as int,
                *final(r),
            ),
    {
        &mut self.entries[DOUBLE_FAULT_INDEX]
    }

    /// The entry of the general protection fault exception.
    pub fn gp_fault(&mut self) -> (r: &mut Entry)
        ensures
            *r == old(self).entries@[GP_FAULT_INDEX as int],
            final(self).entries@ == old(self).entries@.update(GP_FAULT_INDEX as int, *final(r)),
    {
        &mut self.entries[GP_FAULT_INDEX]
    }

    /// The entry of the page fault exception.
    pub fn page_pault(&mut self) -> (r: &mut Entry)
        ensures
            *r == old(self).entries@[PAGE_FAULT_INDEX as int],
            final(self).entries@ == old(self).entries@.update(PAGE_FAULT_INDEX as int, *final(r)),
    {
        &mut self.entries[PAGE_FAULT_INDEX]
    }

    /// The entry of interrupt `irq`, counted from the first vector after the
    /// CPU exceptions (vector 32 + `irq`).
    pub fn interrupts(&mut self, irq: usize) -> (r: &mut Entry)
        requires
            irq < IDT_LENGTH - FIRST_INTERRUPT,
        ensures
            *r == old(self).entries@[FIRST_INTERRUPT + irq],
            final(self).entries@ == old(self).entries@.update(
                FIRST_INTERRUPT + irq,
                *final(r),
            ),
    {
        &mut self.entries[FIRST_INTERRUPT + irq]
    }

    /// The `lidt` operand for this table, which sits at `address`.
    pub fn pointer(&self, address: u64) -> (r: TablePointer)
        ensures
            r.offset == address,
            r.size == 256 * 16 - 1,
    {
        TablePointer { offset: address, size: (IDT_LENGTH * 16) as u16 - 1 }
    }
}

impl Entry {
    pub open spec fn new_spec(pointer: u64, gdt_selector: u16, options: EntryOptions) -> Entry {
        Entry {
            pointer_low: pointer as u16,
            gdt_selector,
            options,
            pointer_middle: (pointer >> 16u64) as u16,
            pointer_high: (pointer >> 32u64) as u32,
            reserved: 0,
        }
    }

    pub open spec fn empty_spec(code_selector: u16) -> Entry {
        Entry::new_spec(0, code_selector, EntryOptions::minimal_spec())
    }

    fn new(pointer: u64, gdt_selector: u16, options: EntryOptions) -> (r: Self)
        ensures
            r == Entry::new_spec(pointer, gdt_selector, options),
    {
        Entry {
            pointer_low: #[verifier::truncate] (pointer as u16),
            gdt_selector,
            options,
            pointer_middle: #[verifier::truncate] ((pointer >> 16) as u16),
            pointer_high: #[verifier::truncate] ((pointer >> 32) as u32),
            reserved: 0,
        }
    }

    fn empty(code_selector: u16) -> (r: Self)
        ensures
            r == Entry::empty_spec(code_selector),
    {
        Self::new(0, code_selector, EntryOptions::minimal())
    }

    /// Points the entry at the handler at `handler_addr`.
    pub fn set_handler_addr(&mut self, handler_addr: u64) -> (r: &mut Self)
        ensures
            handler_address(*r) == handler_addr,
            r.gdt_selector == old(self).gdt_selector,
            r.options == old(self).options,
            r.reserved == old(self).reserved,
            *final(self) == *final(r),
    {
        self.pointer_low = #[verifier::truncate] (handler_addr as u16);
        self.pointer_middle = #[verifier::truncate] ((handler_addr >> 16) as u16);
        self.pointer_high = #[verifier::truncate] ((handler_addr >> 32) as u32);
        let a = handler_addr;
        assert(((a as u16) as u64) | ((((a >> 16u64) as u16) as u64) << 16u64) | ((((a
            >> 32u64) as u32) as u64) << 32u64) == a) by (bit_vector);
        self
    }
}

/// The options word of a gate: stack index in bits 0-2, gate type in bits
/// 8-11, privilege level in bits 13-14, present in bit 15.
#[derive(Clone, Copy, Debug, PartialEq, Eq, Structural)]
pub struct EntryOptions(pub u16);

/// Kind of a gate.
#[derive(Debug, Clone, Copy, PartialEq, Eq, Structural)]
pub enum GateType {
    Interrupt,
    Trap,
}

/// The type number of a gate kind: 0xE for interrupt gates, 0xF for trap gates.
pub open spec fn gate_value(g: GateType) -> u16 {
    match g {
        GateType::Interrupt => 0xE,
        GateType::Trap => 0xF,
    }
}

/// Law: an interrupt gate has type number 0xE and a trap gate 0xF, the
/// 64-bit gate types of the architecture.
pub proof fn lemma_gate_numbers()
    ensures
        gate_value(GateType::Interrupt) == 0xE,
        gate_value(GateType::Trap) == 0xF,
{
}

impl GateType {
    /// The type number of the kind.
    pub fn value(self) -> (r: u16)
        ensures
            r == gate_value(self),
    {
        match self {
            GateType::Interrupt => 0xE,
            GateType::Trap => 0xF,
        }
    }
}

/// The options word that `EntryOptions::new` builds.
pub open spec fn options_value(stack_index: u8, gate: u16, dpl: u16, present: bool) -> u16 {
    (stack_index as u16) | (gate << 8u16) | (dpl << 13u16) | ((if present {
        1u16
    } else {
        0u16
    }) << 15u16)
}

impl EntryOptions {
    pub open spec fn minimal_spec() -> EntryOptions {
        EntryOptions(options_value(0, 0xE, 0, false))
    }

    fn minimal() -> (r: Self)
        ensures
            r == EntryOptions::minimal_spec(),
    {
        Self::new(0, GateType::Interrupt, PrivilegeLevel::Ring0, false)
    }

    fn new(stack_index: u8, gate_type: GateType, dpl: PrivilegeLevel, present: bool) -> (r: Self)
        ensures
            r.0 == options_value(stack_index, gate_value(gate_type), level_value(dpl), present),
    {
        let p: u16 = if present {
            1
        } else {
            0
        };
        let bits = stack_index as u16 | gate_type.value() << 8 | dpl.value() << 13 | p << 15;
        EntryOptions(bits)
    }

    /// The interrupt stack table index.
    pub fn get_stack_index(self) -> (r: u8)
        ensures
            r == self.0 & 0b111,
    {
        let v = self.0;
        assert((v << 13u16) >> 13u16 == v & 7) by (bit_vector);
        assert(v & 7 <= 7) by (bit_vector);
        ((self.0 << 13) >> 13) as u8
    }

    /// Sets the interrupt stack table index, which must be at most 7.
    pub fn set_stack_index(&mut self, stack_index: u8) -> (r: &mut Self)
        requires
            stack_index <= 7,
        ensures
            r.0 == (old(self).0 >> 3u16) << 3u16 | stack_index as u16,
            *final(self) == *final(r),
    {
        self.0 = (self.0 >> 3) << 3 | stack_index as u16;
        self
    }

    /// The privilege level needed to invoke the entry with `int`.
    pub fn get_dpl(self) -> (r: PrivilegeLevel)
        ensures
            level_value(r) == (self.0 & 0b0110_0000_0000_0000) >> 13u16,
    {
        let dpl = (self.0 & 0b0110000000000000) >> 13;
        let v = self.0;
        assert((v & 0b0110_0000_0000_0000u16) >> 13u16 <= 3) by (bit_vector);
        PrivilegeLevel::from_u16(dpl)
    }

    /// Sets the privilege level needed to invoke the entry with `int`.
    pub fn set_dpl(&mut self, dpl: PrivilegeLevel) -> (r: &mut Self)
        ensures
            r.0 == (old(self).0 & 0b1001_1111_1111_1111) | (level_value(dpl) << 13u16),
            *final(self) == *final(r),
    {
        self.0 = (self.0 & 0b1001111111111111) | (dpl.value() << 13);
        self
    }

    /// The kind of the entry; the word must hold one of the two known kinds.
    pub fn get_gate_type(self) -> (r: GateType)
        requires
            (self.0 >> 8u16) & 0xF == 0xE || (self.0 >> 8u16) & 0xF == 0xF,
        ensures
            gate_value(r) == (self.0 >> 8u16) & 0xF,
    {
        let gate_type = (self.0 >> 8) & 0xF;
        if gate_type == 0xE {
            GateType::Interrupt
        } else {
            GateType::Trap
        }
    }

    /// Sets the kind of the entry. This also clears the stack index bits and bits 4-7.
    pub fn set_gate_type(&mut self, gate_type: GateType) -> (r: &mut Self)
        ensures
            r.0 == (old(self).0 & 0xF0F0) | (gate_value(gate_type) << 8u16),
            *final(self) == *final(r),
    {
        self.0 = (self.0 & 0xF0F0) | (gate_type.value() << 8);
        self
    }

    /// Whether the entry is present.
    pub fn get_present(self) -> (r: bool)
        ensures
            r == (self.0 >> 15u16 != 0),
    {
        self.0 >> 15 != 0
    }

    /// Sets whether the entry is present.
    pub fn set_present(&mut self, present: bool) -> (r: &mut Self)
        ensures
            r.0 == (old(self).0 << 1u16) >> 1u16 | ((if present {
                1u16
            } else {
                0u16
            }) << 15u16),
            *final(self) == *final(r),
    {
        let p: u16 = if present {
            1
        } else {
            0
        };
        self.0 = (self.0 << 1) >> 1 | (p << 15);
        self
    }
}

/// Law: each setter of the options word is read back by its getter, and
/// leaves the fields of the other setters as they were (setting the kind
/// of the entry also clears the stack index).
pub proof fn lemma_options_setters(v: u16, stack_index: u16, dpl: u16, gate: u16, present: bool)
    requires
        stack_index <= 7,
        dpl <= 3,
        gate == 0xE || gate == 0xF,
    ensures
        ({
            let w = (v >> 3u16) << 3u16 | stack_index;
            &&& w & 0b111 == stack_index
            &&& (w & 0b0110_0000_0000_0000) >> 13u16 == (v & 0b0110_0000_0000_0000) >> 13u16
            &&& w >> 15u16 == v >> 15u16
            &&& (w >> 8u16) & 0xF == (v >> 8u16) & 0xF
        }),
        ({
            let w = (v & 0b1001_1111_1111_1111) | (dpl << 13u16);
            &&& (w & 0b0110_0000_0000_0000) >> 13u16 == dpl
            &&& w & 0b111 == v & 0b111
            &&& w >> 15u16 == v >> 15u16
            &&& (w >> 8u16) & 0xF == (v >> 8u16) & 0xF
        }),
        ({
            let w = (v & 0xF0F0) | (gate << 8u16);
            &&& (w >> 8u16) & 0xF == gate
            &&& (w & 0b0110_0000_0000_0000) >> 13u16 == (v & 0b0110_0000_0000_0000) >> 13u16
            &&& w >> 15u16 == v >> 15u16
            &&& w & 0b111 == 0
        }),
        ({
            let p: u16 = if present {
                1
            } else {
                0
            };
            let w = (v << 1u16) >> 1u16 | (p << 15u16);
            &&& (w >> 15u16 != 0) == present
            &&& w & 0b111 == v & 0b111
            &&& (w & 0b0110_0000_0000_0000) >> 13u16 == (v & 0b0110_0000_0000_0000) >> 13u16
            &&& (w >> 8u16) & 0xF == (v >> 8u16) & 0xF
        }),
{
    assert({
        let w = (v >> 3u16) << 3u16 | stack_index;
        &&& w & 0b111 == stack_index
        &&& (w & 0b0110_0000_0000_0000) >> 13u16 == (v & 0b0110_0000_0000_0000) >> 13u16
        &&& w >> 15u16 == v >> 15u16
        &&& (w >> 8u16) & 0xF == (v >> 8u16) & 0xF
    }) by (bit_vector)
        requires
            stack_index <= 7,
    ;
    assert({
        let w = (v & 0b1001_1111_1111_1111) | (dpl << 13u16);
        &&& (w & 0b0110_0000_0000_0000) >> 13u16 == dpl
        &&& w & 0b111 == v & 0b111
        &&& w >> 15u16 == v >> 15u16
        &&& (w >> 8u16) & 0xF == (v >> 8u16) & 0xF
    }) by (bit_vector)
        requires
            dpl <= 3,
    ;
    assert({
        let w = (v & 0xF0F0) | (gate << 8u16);
        &&& (w >> 8u16) & 0xF == gate
        &&& (w & 0b0110_0000_0000_0000) >> 13u16 == (v & 0b0110_0000_0000_0000) >> 13u16
        &&& w >> 15u16 == v >> 15u16
        &&& w & 0b111 == 0
    }) by (bit_vector)
        requires
            gate == 0xE || gate == 0xF,
    ;
    let p: u16 = if present {
        1
    } else {
        0
    };
    assert({
        let w = (v << 1u16) >> 1u16 | (p << 15u16);
        &&& (w >> 15u16 != 0) == (p == 1)
        &&& w & 0b111 == v & 0b111
        &&& (w & 0b0110_0000_0000_0000) >> 13u16 == (v & 0b0110_0000_0000_0000) >> 13u16
        &&& (w >> 8u16) & 0xF == (v >> 8u16) & 0xF
    }) by (bit_vector)
        requires
            p == 0 || p == 1,
    ;
}

/// What the CPU pushes when it calls an interrupt handler.
#[derive(Debug)]
pub struct StackFrame {
    pub ip: usize,
    pub cs: usize,
    pub flags: usize,
    pub sp: usize,
    pub ss: usize,
}

/// The error code of a page fault.
pub struct PageFaultErrorCode(pub u64);

impl PageFaultErrorCode {
    /// The fault was a protection violation on a present page.
    pub fn is_present(&self) -> (r: bool)
        ensures
            r == (self.0 & 0b1 != 0),
    {
        self.0 & 0b1 != 0
    }

    /// The access was a write.
    pub fn is_write(&self) -> (r: bool)
        ensures
            r == (self.0 & 0b10 != 0),
    {
        self.0 & 0b10 != 0
    }

    /// The access came from user mode.
    pub fn is_user(&self) -> (r: bool)
        ensures
            r == (self.0 & 0b100 != 0),
    {
        self.0 & 0b100 != 0
    }

    /// The access was an instruction fetch.
    pub fn is_instruction_fetch(&self) -> (r: bool)
        ensures
            r == (self.0 & 0b1000 != 0),
    {
        self.0 & 0b1000 != 0
    }

    /// The fault was caused by a protection key.
    pub fn is_protection_key(&self) -> (r: bool)
        ensures
            r == (self.0 & 0b10000 != 0),
    {
        self.0 & 0b10000 != 0
    }

    /// The access was a shadow stack access.
    pub fn is_shadow_stack(&self) -> (r: bool)
        ensures
            r == (self.0 & 0b100000 != 0),
    {
        self.0 & 0b100000 != 0
    }

    /// The fault came from SGX.
    pub fn is_sgx(&self) -> (r: bool)
        ensures
            r == (self.0 & 0x8000 != 0),
    {
        self.0 & 0x8000 != 0
    }
}

} // verus!
