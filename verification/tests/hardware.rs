use kernel::bits::{get_bit, get_bits};
use kernel::interrupts::{create_gdt, create_idt, create_tss, SyscallFrame, SYSCALL_IRQ};
use kernel::paging::{Entry, Page, PhysicalAddress, VirtualAddress};
use kernel::pic::{ChainedPics, PortWrite, CMD_END_OF_INTERRUPT, CMD_INIT, MODE_8086, WAIT_PORT};
use kernel::syscall::ipc::Message;
use kernel::syscall::number::{Syscall, SYS_SEND};
use kernel::syscall::{SyscallError, SyscallOut};
use kernel::tables::gdt::{Descriptor, SegmentSelector};
use kernel::tables::idt::{EntryOptions, PageFaultErrorCode, Table as Idt, PAGE_FAULT_INDEX};
use kernel::tables::PrivilegeLevel;
use kernel::tss::{TaskStateSegment, TSS_SIZE};

#[test]
fn bit_helpers() {
    assert_eq!(get_bit(0b1010, 1), 1);
    assert_eq!(get_bit(0b1010, 2), 0);
    assert_eq!(get_bits(0xABCD, 4, 12), 0xBC);
    assert_eq!(get_bits(u64::MAX, 0, 64), u64::MAX);
}

#[test]
fn paging_indices_and_pages() {
    let v = VirtualAddress::new(0x0000_7fff_ffff_f000);
    assert_eq!(v.page_table_index(4), 255);
    assert_eq!(v.page_table_index(1), 511);
    assert_eq!(VirtualAddress::new_truncate(0x0000_8000_0000_0000).0, 0xffff_8000_0000_0000);
    let p = Page::from_page_table_indices(1, 2, 3, 4);
    assert_eq!(p.start_address.0, (1 << 39) | (2 << 30) | (3 << 21) | (4 << 12));
    assert_eq!(p.page_table_index(4), 1);
    assert_eq!(p.page_table_index(3), 2);
    assert_eq!(p.page_table_index(2), 3);
    assert_eq!(p.page_table_index(1), 4);
    assert_eq!(PhysicalAddress(0x3000).sub(PhysicalAddress(0x1000)), 0x2000);
}

#[test]
fn unused_entry_points_nowhere() {
    let mut e = Entry::new();
    assert!(e.unused());
    assert_eq!(e.pointed_address(), None);
    e.set_unused();
    assert!(e.unused());
    assert!(!e.get_flags().present());
}

#[test]
fn selectors_pack_index_and_level() {
    let s = SegmentSelector::new(4, PrivilegeLevel::Ring3);
    assert_eq!(s.as_u64(), (4 << 3) | 3);
    assert_eq!(s.get_index(), 4);
    assert_eq!(s.get_rpl(), PrivilegeLevel::Ring3);
    assert!(!s.get_ti());
}

#[test]
fn tss_has_the_double_fault_stack() {
    let tss = create_tss(0xdead_b000);
    assert_eq!(tss.ist[0], 0xdead_b000);
    assert!(tss.ist[1..].iter().all(|s| *s == 0));
    assert_eq!(tss.iopb, TSS_SIZE);
    let fresh = TaskStateSegment::new();
    assert_eq!(fresh.ist, [0; 7]);
}

#[test]
fn gdt_layout_and_selectors() {
    let tss = create_tss(0x9000);
    let gdt = create_gdt(&tss, 0x1234_5678_9abc);
    let words = gdt.table.entries();
    assert_eq!(words.len(), 6);
    assert_eq!(words[0], 0);
    assert_eq!(words[1], 0x00af9b000000ffff);
    assert_eq!(words[2], 0x00cf93000000ffff);
    assert_eq!(words[3], 0x00cff3000000ffff);
    // TSS descriptor: base 0x..5678_9abc, limit 103, type 9, present.
    assert_eq!(words[4] & 0xffff, 103);
    assert_eq!((words[4] >> 16) & 0xff_ffff, 0x78_9abc);
    assert_eq!(words[4] >> 56, 0x56);
    assert_eq!((words[4] >> 40) & 0xf, 0b1001);
    assert_eq!((words[4] >> 47) & 1, 1);
    assert_eq!(words[5], 0x1234);
    assert_eq!(gdt.kernel_code.as_u64(), 8);
    assert_eq!(gdt.kernel_data.as_u64(), 16);
    assert_eq!(gdt.user_data.as_u64(), 24 | 3);
    assert_eq!(gdt.tss.as_u64(), 32);
    let ptr = gdt.table.pointer(0x5000);
    assert_eq!(ptr.size, 6 * 8 - 1);
    assert_eq!(ptr.offset, 0x5000);
    assert_eq!(Descriptor::user_data_segment().get_dpl(), PrivilegeLevel::Ring3);
}

#[test]
fn descriptor_base_and_limit() {
    let code = Descriptor::kernel_code_segment();
    assert_eq!(code.limit(), 0xfffff);
    assert_eq!(code.base(), 0);
    let tss = TaskStateSegment::new();
    let d = Descriptor::tss_segment(&tss, 0x1234);
    assert_eq!(d.limit(), 103);
    assert_eq!(d.base(), 0x1234);
    assert_eq!(d.get_dpl(), PrivilegeLevel::Ring0);
}

#[test]
fn tss_descriptor_high_word_holds_upper_base() {
    let tss = TaskStateSegment::new();
    match Descriptor::tss_segment(&tss, 0x1234_5678_9abc_def0) {
        Descriptor::SystemSegment(low, high) => {
            assert_eq!(high, 0x1234_5678);
            assert_eq!((low >> 16) & 0xff_ffff, 0xbc_def0);
            assert_eq!(low >> 56, 0x9a);
            assert_eq!((low >> 40) & 0xf, 0b1001);
            assert_eq!((low >> 47) & 1, 1);
            assert_eq!(low & 0xffff, 103);
        }
        _ => panic!("expected a system segment"),
    }
}

fn handler_of(e: &kernel::tables::idt::Entry) -> u64 {
    (e.pointer_low as u64) | ((e.pointer_middle as u64) << 16) | ((e.pointer_high as u64) << 32)
}

#[test]
fn idt_gates() {
    let irqs: Vec<u64> = (0..224).map(|i| 0x1_0000 + i * 0x10).collect();
    let idt = create_idt(8, 0xaaaa_0000_1111, 0xbbbb, 0xcccc, &irqs, 0xdddd);
    let pf = &idt.entries[PAGE_FAULT_INDEX];
    assert_eq!(handler_of(pf), 0xaaaa_0000_1111);
    assert!(pf.options.get_present());
    assert_eq!(pf.gdt_selector, 8);
    assert_eq!(handler_of(&idt.entries[0xd]), 0xbbbb);
    assert_eq!(handler_of(&idt.entries[0x8]), 0xcccc);
    assert_eq!(idt.entries[0x8].options.get_stack_index(), 0);
    assert_eq!(handler_of(&idt.entries[32]), 0x1_0000);
    assert_eq!(handler_of(&idt.entries[255]), 0x1_0000 + 223 * 0x10);
    assert_eq!(handler_of(&idt.entries[SYSCALL_IRQ as usize]), 0xdddd);
    assert!(idt.entries[SYSCALL_IRQ as usize].options.get_present());
    assert!(!idt.entries[3].options.get_present());
    assert_eq!(handler_of(&idt.entries[3]), 0);
    assert_eq!(Idt::new(8).pointer(0x7000).size, 4095);
}

#[test]
fn entry_options_setters() {
    let mut o = EntryOptions(0x0E00);
    o.set_present(true);
    assert_eq!(o.0, 0x8E00);
    o.set_stack_index(3);
    assert_eq!(o.get_stack_index(), 3);
    o.set_dpl(PrivilegeLevel::Ring3);
    assert_eq!(o.get_dpl(), PrivilegeLevel::Ring3);
    o.set_present(false);
    assert!(!o.get_present());
}

#[test]
fn page_fault_error_code_bits() {
    let e = PageFaultErrorCode(0b111);
    assert!(e.is_present() && e.is_write() && e.is_user());
    assert!(!e.is_instruction_fetch());
}

#[test]
fn pic_initialization_sequence() {
    let pics = ChainedPics::new(32, 40);
    let w = pics.initialize([0xfe, 0xff]);
    let wait = PortWrite { port: WAIT_PORT, value: 0 };
    let expected = vec![
        PortWrite { port: 0x20, value: CMD_INIT },
        wait,
        PortWrite { port: 0xA0, value: CMD_INIT },
        wait,
        PortWrite { port: 0x21, value: 32 },
        wait,
        PortWrite { port: 0xA1, value: 40 },
        wait,
        PortWrite { port: 0x21, value: 4 },
        wait,
        PortWrite { port: 0xA1, value: 2 },
        wait,
        PortWrite { port: 0x21, value: MODE_8086 },
        wait,
        PortWrite { port: 0xA1, value: MODE_8086 },
        wait,
        PortWrite { port: 0x21, value: 0xfe },
        PortWrite { port: 0xA1, value: 0xff },
    ];
    assert_eq!(w, expected);
    assert_eq!(
        pics.write_masks(0xfe, 0xff),
        vec![PortWrite { port: 0x21, value: 0xfe }, PortWrite { port: 0xA1, value: 0xff }]
    );
}

#[test]
fn pic_end_of_interrupt_goes_to_the_right_controllers() {
    let pics = ChainedPics::new(32, 40);
    assert!(pics.handles_interrupt(32));
    assert!(pics.handles_interrupt(47));
    assert!(!pics.handles_interrupt(48));
    let eoi_master = PortWrite { port: 0x20, value: CMD_END_OF_INTERRUPT };
    let eoi_slave = PortWrite { port: 0xA0, value: CMD_END_OF_INTERRUPT };
    assert_eq!(pics.notify_end_of_interrupt(0x20), vec![eoi_master]);
    assert_eq!(pics.notify_end_of_interrupt(41), vec![eoi_slave, eoi_master]);
    assert_eq!(pics.notify_end_of_interrupt(0x80), vec![]);
}

#[test]
fn pic_masks() {
    let pics = ChainedPics::new(32, 40);
    assert!(pics.is_masked(0, [0x01, 0x00]));
    assert!(!pics.is_masked(1, [0x01, 0x00]));
    assert!(pics.is_masked(9, [0x00, 0x02]));
    let w = pics.set_masked(9, true, [0x00, 0x00]);
    assert_eq!(w, PortWrite { port: 0xA1, value: 0x02 });
    assert!(pics.is_masked(9, [0x00, w.value]));
    // Only the line's own bit survives from the old mask.
    let w = pics.set_masked(2, false, [0xff, 0xff]);
    assert_eq!(w, PortWrite { port: 0x21, value: 0x00 });
    assert!(!pics.is_masked(2, [w.value, 0xff]));
}

#[test]
fn syscall_frame_decodes_and_completes() {
    let msg = Message::from_words([1, 2, 3, 4]);
    let regs = Syscall::Send { endpoint: 7, message: msg }.registers();
    assert_eq!(regs, [SYS_SEND, 7, 1, 2, 3, 4]);
    let mut frame = SyscallFrame {
        rax: regs[0],
        rdi: regs[1],
        rsi: regs[2],
        rdx: regs[3],
        r10: regs[4],
        r8: regs[5],
        r9: 0,
    };
    assert_eq!(frame.call(), Some(Syscall::Send { endpoint: 7, message: msg }));
    frame.complete(Ok([10, 11, 12, 13, 14, 15]));
    assert_eq!(frame.rax, 0);
    assert_eq!([frame.rdi, frame.rsi, frame.rdx, frame.r10, frame.r8, frame.r9], [10, 11, 12, 13, 14, 15]);
    frame.complete(Err(SyscallError::NoCap));
    let out = SyscallOut::new(frame.rax, [frame.rdi, frame.rsi, frame.rdx, frame.r10, frame.r8, frame.r9]);
    assert_eq!(out.into_result(), Err(SyscallError::NoCap));
    let unknown = SyscallFrame { rax: 999, rdi: 0, rsi: 0, rdx: 0, r10: 0, r8: 0, r9: 0 };
    assert_eq!(unknown.call(), None);
}
