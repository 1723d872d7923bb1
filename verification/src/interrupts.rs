//! The descriptor tables the kernel installs for interrupts and system
//! calls, and the frame a system call arrives in.
use vstd::prelude::*;

use crate::syscall::number::{call_of_registers, Syscall};
use crate::syscall::{error_code, SyscallOut, SyscallResult};
use crate::bits::bits_of;
use crate::tables::gdt::{
    descriptor_dpl, selector_value, tss_descriptor, tss_limit, Descriptor, SegmentSelector, Table,
};
use crate::tables::idt;
use crate::tables::idt::{handler_address, EntryOptions, FIRST_INTERRUPT};
use crate::tss::{TaskStateSegment, TSS_SIZE};

verus! {

/// The interrupt stack table slot that the double fault handler runs on.
pub const DOUBLE_FAULT_STACK_INDEX: u16 = 0;

/// Bytes of the stack the double fault handler runs on.
pub const DOUBLE_FAULT_STACK_SIZE: usize = 4096 * 4;

/// The vector of the timer interrupt.
pub const TIMER_IRQ: u64 = 0x20;

/// The vector of the system-call interrupt.
pub const SYSCALL_IRQ: u64 = 0x80;

/// The task state segment: the double fault handler gets its own stack,
/// which ends at `double_fault_stack_end`.
pub fn create_tss(double_fault_stack_end: u64) -> (r: TaskStateSegment)
    ensures
        r.ist@ == Seq::new(7, |i: int| 0u64).update(
            DOUBLE_FAULT_STACK_INDEX as int,
            double_fault_stack_end,
        ),
        r.rsp@ == seq![0u64, 0u64, 0u64],
        r.iopb == TSS_SIZE,
        r.reserved_0 == 0 && r.reserved_1 == 0 && r.reserved_2 == 0,
{
    let mut tss = TaskStateSegment::new();
    tss.ist[DOUBLE_FAULT_STACK_INDEX as usize] = double_fault_stack_end;
    assert(tss.ist@ =~= Seq::new(7, |i: int| 0u64).update(
        DOUBLE_FAULT_STACK_INDEX as int,
        double_fault_stack_end,
    ));
    tss
}

proof fn lemma_tss_dpl(address: u64, iopb: u16)
    ensures
        descriptor_dpl(tss_descriptor(address, iopb, 0)) == 0,
{
    let limit = ((tss_limit(iopb, 0) - 1) as u16) as u64;
    let b0 = bits_of(address, 0, 24);
    let b1 = bits_of(address, 24, 32);
    assert((((((((0u64 | (b0 << 16u64)) | (b1 << 56u64)) | limit) | (0b1001u64 << 40u64)) | (0b1u64
        << 47u64)) >> 45u64) & 3) == 0) by (bit_vector)
        requires
            b0 == bits_of(address, 0, 24),
            b1 == bits_of(address, 24, 32),
            limit <= 0xffff,
    ;
}

/// The global descriptor table and the selectors of its kernel code, kernel
/// data, user data and task state segments.
pub struct Gdt {
    pub table: Table<16>,
    pub kernel_code: SegmentSelector,
    pub kernel_data: SegmentSelector,
    pub user_data: SegmentSelector,
    pub tss: SegmentSelector,
}

/// The global descriptor table: the null descriptor, kernel code, kernel
/// data, user data, then the two words of the descriptor of `tss`, which
/// sits at `tss_address`.
pub fn create_gdt(tss: &TaskStateSegment, tss_address: u64) -> (r: Gdt)
    ensures
        r.table.wf(),
        ({
            let t = tss_descriptor(tss_address, tss.iopb, 0);
            r.table@ == seq![
                0u64,
                0x00af9b000000ffffu64,
                0x00cf93000000ffffu64,
                0x00cff3000000ffffu64,
                t->SystemSegment_0,
                t->SystemSegment_1,
            ]
        }),
        r.kernel_code.bits() == selector_value(1, 0),
        r.kernel_data.bits() == selector_value(2, 0),
        r.user_data.bits() == selector_value(3, 3),
        r.tss.bits() == selector_value(4, 0),
{
    let mut table: Table<16> = Table::empty();
    let kernel_code = table.append(Descriptor::kernel_code_segment());
    let kernel_data = table.append(Descriptor::kernel_data_segment());
    let user_data = table.append(Descriptor::user_data_segment());
    let tss_descriptor = Descriptor::tss_segment(tss, tss_address);
    let tss_selector = table.append(tss_descriptor);
    assert((0x00af9b000000ffffu64 >> 45u64) & 3 == 0 && (0x00cf93000000ffffu64 >> 45u64) & 3 == 0
        && (0x00cff3000000ffffu64 >> 45u64) & 3 == 3) by (bit_vector);
    proof {
        lemma_tss_dpl(tss_address, tss.iopb);
    }
    Gdt { table, kernel_code, kernel_data, user_data, tss: tss_selector }
}

/// The options word of a present interrupt gate that runs on the current
/// stack at privilege level 0.
pub open spec fn present_options() -> u16 {
    0x8E00
}

/// `e` is a present interrupt gate in code segment `selector` that points
/// at `handler`.
pub open spec fn is_gate(e: idt::Entry, selector: u16, handler: u64) -> bool {
    &&& handler_address(e) == handler
    &&& e.gdt_selector == selector
    &&& e.options.0 == present_options()
    &&& e.reserved == 0
}

/// The handler that vector `v` (32 to 255) points at: the system-call entry
/// for the system-call vector, else the handler of its interrupt line.
pub open spec fn irq_handler_for(v: int, irq_handlers: Seq<u64>, syscall_entry: u64) -> u64 {
    if v == SYSCALL_IRQ {
        syscall_entry
    } else {
        irq_handlers[v - FIRST_INTERRUPT]
    }
}

/// Makes the entry present, pointing at `handler`.
fn install(entry: &mut idt::Entry, handler: u64)
    requires
        old(entry).options.0 == 0x0E00 || old(entry).options.0 == present_options(),
    ensures
        handler_address(*final(entry)) == handler,
        final(entry).gdt_selector == old(entry).gdt_selector,
        final(entry).reserved == old(entry).reserved,
        final(entry).options.0 == present_options(),
{
    let o = entry.options.0;
    assert(((o << 1u16) >> 1u16) | (1u16 << 15u16) == 0x8E00u16) by (bit_vector)
        requires
            o == 0x0E00u16 || o == 0x8E00u16,
    ;
    entry.set_handler_addr(handler).options.set_present(true);
}

/// The interrupt descriptor table: gates in code segment `code_selector`
/// for the page fault, general protection fault and double fault handlers
/// (the last on its own stack), one for each interrupt line from vector 32
/// on, and the system-call entry on the system-call vector. The other
/// vectors keep empty gates.
pub fn create_idt(
    code_selector: u16,
    page_fault: u64,
    gp_fault: u64,
    double_fault: u64,
    irq_handlers: &[u64],
    syscall_entry: u64,
) -> (r: idt::Table)
    requires
        irq_handlers@.len() == 256 - FIRST_INTERRUPT,
    ensures
        is_gate(r.entries@[idt::PAGE_FAULT_INDEX as int], code_selector, page_fault),
        is_gate(r.entries@[idt::GP_FAULT_INDEX as int], code_selector, gp_fault),
        is_gate(r.entries@[idt::DOUBLE_FAULT_INDEX as int], code_selector, double_fault),
        r.entries@[idt::DOUBLE_FAULT_INDEX as int].options.0 & 0b111
            == DOUBLE_FAULT_STACK_INDEX,
        forall|v: int|
            FIRST_INTERRUPT <= v < 256 ==> is_gate(
                #[trigger] r.entries@[v],
                code_selector,
                irq_handler_for(v, irq_handlers@, syscall_entry),
            ),
        forall|v: int|
            0 <= v < FIRST_INTERRUPT && v != idt::PAGE_FAULT_INDEX && v != idt::GP_FAULT_INDEX
                && v != idt::DOUBLE_FAULT_INDEX ==> #[trigger] r.entries@[v]
                == idt::Entry::empty_spec(code_selector),
{
    let mut table = idt::Table::new(code_selector);
    assert(EntryOptions::minimal_spec().0 == 0x0E00) by (bit_vector);
    install(table.page_pault(), page_fault);
    install(table.gp_fault(), gp_fault);
    {
        let e = table.double_fault();
        install(e, double_fault);
        let o = e.options.0;
        e.options.set_stack_index(DOUBLE_FAULT_STACK_INDEX as u8);
        assert(((o >> 3u16) << 3u16 | 0u16) == o && o & 7 == 0) by (bit_vector)
            requires
                o == 0x8E00u16,
        ;
    }
    let mut v: usize = FIRST_INTERRUPT;
    while v < 256
        invariant
            FIRST_INTERRUPT <= v <= 256,
            irq_handlers@.len() == 256 - FIRST_INTERRUPT,
            is_gate(table.entries@[idt::PAGE_FAULT_INDEX as int], code_selector, page_fault),
            is_gate(table.entries@[idt::GP_FAULT_INDEX as int], code_selector, gp_fault),
            is_gate(table.entries@[idt::DOUBLE_FAULT_INDEX as int], code_selector, double_fault),
            table.entries@[idt::DOUBLE_FAULT_INDEX as int].options.0 & 0b111
                == DOUBLE_FAULT_STACK_INDEX,
            forall|w: int|
                FIRST_INTERRUPT <= w < v ==> is_gate(
                    #[trigger] table.entries@[w],
                    code_selector,
                    irq_handlers@[w - FIRST_INTERRUPT],
                ),
            forall|w: int|
                v <= w < 256 ==> #[trigger] table.entries@[w] == idt::Entry::empty_spec(
                    code_selector,
                ),
            forall|w: int|
                0 <= w < FIRST_INTERRUPT && w != idt::PAGE_FAULT_INDEX && w != idt::GP_FAULT_INDEX
                    && w != idt::DOUBLE_FAULT_INDEX ==> #[trigger] table.entries@[w]
                    == idt::Entry::empty_spec(code_selector),
            EntryOptions::minimal_spec().0 == 0x0E00,
        decreases 256 - v,
    {
        install(table.interrupts(v - FIRST_INTERRUPT), irq_handlers[v - FIRST_INTERRUPT]);
        v = v + 1;
    }
    install(table.interrupts(SYSCALL_IRQ as usize - FIRST_INTERRUPT), syscall_entry);
    table
}

/// The registers a system call arrives in, as the entry stub pushes them.
#[derive(Debug, Clone, Copy)]
pub struct SyscallFrame {
    pub r9: usize,
    pub r8: usize,
    pub r10: usize,
    pub rdx: usize,
    pub rsi: usize,
    pub rdi: usize,
    pub rax: usize,
}

impl SyscallFrame {
    /// The call the frame carries: the number in `rax`, the arguments in
    /// `rdi`, `rsi`, `rdx`, `r10` and `r8`; `None` for an unknown number.
    pub fn call(&self) -> (r: Option<Syscall>)
        ensures
            r == call_of_registers(seq![self.rax, self.rdi, self.rsi, self.rdx, self.r10, self.r8]),
    {
        let regs = [self.rax, self.rdi, self.rsi, self.rdx, self.r10, self.r8];
        assert(regs@ =~= seq![self.rax, self.rdi, self.rsi, self.rdx, self.r10, self.r8]);
        Syscall::from_registers(regs)
    }

    /// Puts the outcome of the call where the caller reads it: the status
    /// word in `rax`, the six return words in `rdi`, `rsi`, `rdx`, `r10`,
    /// `r8` and `r9`.
    pub fn complete(&mut self, result: SyscallResult<[usize; 6]>)
        ensures
            ({
                let out = seq![final(self).rdi, final(self).rsi, final(self).rdx, final(self).r10, final(self).r8, final(self).r9];
                match result {
                    Ok(w) => final(self).rax == 0 && out == w@,
                    Err(e) => final(self).rax == error_code(e) && out == seq![0usize, 0, 0, 0, 0, 0],
                }
            }),
    {
        let out = SyscallOut::from_result(result);
        self.rax = out.ret;
        self.rdi = out.words.words[0];
        self.rsi = out.words.words[1];
        self.rdx = out.words.words[2];
        self.r10 = out.words.words[3];
        self.r8 = out.words.words[4];
        self.r9 = out.words.words[5];
        proof {
            let o = seq![self.rdi, self.rsi, self.rdx, self.r10, self.r8, self.r9];
            assert(o =~= out.words.words@);
        }
    }
}

} // verus!
