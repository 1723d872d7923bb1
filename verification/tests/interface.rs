use kernel::allocator::{align_up, Allocator, BumpAllocator};
use kernel::ring_buffer::{RingBuffer, RingBufferEntryWrapper};
use kernel::syscall::cap::{Cap, CapError, Rights, RIGHTS_ALL, RIGHTS_GRANT, RIGHTS_READ, RIGHTS_RWE};
use kernel::syscall::ipc::{received, Endpoint, IpcError, IpcStatus, Message, ReplyEndpoint};
use kernel::syscall::log::WriteTo;
use kernel::syscall::number::{
    Syscall, SYS_CREATE_ENDPOINT, SYS_DERIVE_CAP, SYS_GET_PID, SYS_MOVE_CAP, SYS_RECV, SYS_REPLY,
    SYS_SPAWN, SYS_SWITCH, SYS_YIELD,
};
use kernel::syscall::process::{get_pid, yield_now, Process};
use kernel::syscall::{RightsError, SyscallError, SyscallOut};

#[test]
fn error_codes_round_trip() {
    let errors = [
        SyscallError::Success,
        SyscallError::RightsError(RightsError::NoRead),
        SyscallError::RightsError(RightsError::NoWrite),
        SyscallError::RightsError(RightsError::NoExec),
        SyscallError::RightsError(RightsError::NoGrant),
        SyscallError::RightsError(RightsError::Unknown),
        SyscallError::IpcError(IpcError::Empty),
        SyscallError::IpcError(IpcError::Full),
        SyscallError::IpcError(IpcError::InvalidEndpoint),
        SyscallError::InvalidObject,
        SyscallError::NoCap,
        SyscallError::Unknown,
    ];
    for e in errors {
        assert_ne!(e.code(), 0);
        assert_eq!(SyscallError::from_code(e.code()), e);
        assert_eq!(SyscallOut::from_result(Err(e)).into_result(), Err(e));
    }
    assert_eq!(SyscallOut::from_result(Ok([1, 2, 3, 4, 5, 6])).into_result(), Ok([1, 2, 3, 4, 5, 6]));
    assert_eq!(SyscallOut::new(0, [9; 6]).into_result(), Ok([9; 6]));
}

#[test]
fn calls_round_trip_through_registers() {
    let m = Message::from_words([5, 6, 7, 8]);
    let calls = [
        Syscall::Switch { process: 3 },
        Syscall::GetPid,
        Syscall::Yield,
        Syscall::Spawn { entry: 0x1000, arg: 4 },
        Syscall::Log { start: 0x2000, length: 12 },
        Syscall::DeriveCap { cap: 2, mask: 1 },
        Syscall::MoveCap { process: 1, cap: 2 },
        Syscall::CreateEndpoint,
        Syscall::Send { endpoint: 1, message: m },
        Syscall::Recv { endpoint: 1 },
        Syscall::Reply { endpoint: 4, message: m },
    ];
    for c in calls {
        assert_eq!(Syscall::from_registers(c.registers()), Some(c));
    }
    assert_eq!(Syscall::from_registers([0, 0, 0, 0, 0, 0]), None);
}

#[test]
fn user_side_calls() {
    let ep: Cap<Endpoint> = Cap::new(3);
    let proc_cap: Cap<Process> = Cap::new(1);
    let m = Message::from_words([1, 0, 0, 0]);
    assert_eq!(ep.send(m), Syscall::Send { endpoint: 3, message: m });
    assert_eq!(ep.recv().registers(), [SYS_RECV, 3, 0, 0, 0, 0]);
    assert_eq!(Cap::<Endpoint>::create().registers()[0], SYS_CREATE_ENDPOINT);
    assert_eq!(ep.derive(Rights(RIGHTS_READ)).registers(), [SYS_DERIVE_CAP, 3, 1, 0, 0, 0]);
    assert_eq!(ep.move_to(proc_cap).registers(), [SYS_MOVE_CAP, 1, 3, 0, 0, 0]);
    assert_eq!(Cap::<Process>::spawn(0x1000, 9).registers(), [SYS_SPAWN, 0x1000, 9, 0, 0, 0]);
    assert_eq!(proc_cap.switch().registers(), [SYS_SWITCH, 1, 0, 0, 0, 0]);
    assert_eq!(get_pid().registers()[0], SYS_GET_PID);
    assert_eq!(yield_now().registers()[0], SYS_YIELD);
    let reply: Cap<ReplyEndpoint> = Cap::from_handle(6);
    assert_eq!(reply.reply(m).registers(), [SYS_REPLY, 6, 1, 0, 0, 0]);
    let (r, msg) = received([6, 1, 2, 3, 4, 0]);
    assert_eq!(r.handle, 6);
    assert_eq!(msg.into_words(), [1, 2, 3, 4]);
    assert_eq!(IpcStatus::from_word(0), Some(IpcStatus::WouldBlock));
    assert_eq!(IpcStatus::from_word(IpcStatus::Ready.value()), Some(IpcStatus::Ready));
    assert_eq!(IpcStatus::from_word(2), None);
}

#[test]
fn rights_bits() {
    let all = Rights(RIGHTS_ALL);
    assert!(all.read() && all.write() && all.exec() && all.grant());
    let rwe = Rights(RIGHTS_RWE);
    assert!(!rwe.grant());
    assert!(rwe.matches(Rights(RIGHTS_READ)));
    assert!(!rwe.matches(Rights(RIGHTS_GRANT)));
    assert_eq!((rwe & Rights(RIGHTS_READ)).0, RIGHTS_READ);
    assert_eq!((Rights(RIGHTS_READ) | Rights(RIGHTS_GRANT)).0, 0x9);
    assert_eq!(Rights::from_usize(0x7).0, 7);
    assert_eq!(CapError::from_usize(1), CapError::NoGrant);
    assert_eq!(CapError::from_usize(7), CapError::Unknown);
    assert_eq!(CapError::Unknown.value(), usize::MAX);
}

#[test]
fn message_text_round_trip() {
    let m = Message::from_str("sendsend");
    assert_eq!(m.into_words(), [usize::from_be_bytes(*b"sendsend"), 0, 0, 0]);
    let m = Message::from_str("send 1 to echo");
    let mut buf = [0u8; 32];
    let text = m.to_string(&mut buf);
    assert_eq!(text.trim_matches(char::from(0)), "send 1 to echo");
    let mut bytes = [0u8; 32];
    bytes[..14].copy_from_slice(b"send 1 to echo");
    assert_eq!(Message::from_bytes(bytes), m);
    assert_eq!(Message::from_words(m.into_words()), m);
}

#[test]
fn message_longer_than_four_words_is_cut() {
    let text = "0123456789abcdef0123456789abcdefXYZ";
    let m = Message::from_str(text);
    let mut buf = [0u8; 32];
    assert_eq!(m.to_string(&mut buf), &text[..32]);
}

#[test]
fn write_to_buffer_and_overflow() {
    let mut buf = [0u8; 8];
    let mut w = WriteTo::new(&mut buf);
    assert_eq!(w.is_empty(), Some(true));
    assert!(w.write_str("abc").is_ok());
    assert_eq!(w.len(), Some(3));
    assert_eq!(w.as_str(), Some("abc"));
    let mut buf = [0u8; 4];
    let mut w = WriteTo::new(&mut buf);
    assert!(w.write_str("abcdef").is_err());
    assert_eq!(w.len(), None);
    assert!(w.write_str("x").is_err());
}

#[test]
fn ring_buffer_is_first_in_first_out() {
    let mut rb: RingBuffer<4> = RingBuffer::new();
    assert!(rb.is_empty());
    assert!(rb.write_str("one").is_ok());
    assert!(rb.write_str("two").is_ok());
    let mut out = [0u8; 128];
    assert!(rb.read_str(&mut out).is_ok());
    assert_eq!(&out[..4], b"one\0");
    assert!(rb.read_str(&mut out).is_ok());
    assert_eq!(&out[..4], b"two\0");
    assert!(rb.is_empty());
    assert!(rb.read_str(&mut out).is_err());
}

#[test]
fn ring_buffer_refuses_long_messages_and_dumps() {
    let mut rb: RingBuffer<4> = RingBuffer::new();
    let long = "x".repeat(129);
    assert!(rb.write_str(&long).is_err());
    assert!(rb.is_empty());
    assert!(rb.write_str("a").is_ok());
    assert!(rb.write_str("b").is_ok());
    assert!(rb.write_str("c").is_ok());
    assert!(rb.write_str("d").is_ok());
    assert!(rb.is_full());
    let entries = rb.dump();
    assert_eq!(entries.len(), 4);
    assert_eq!(entries[0][0], b'a');
    assert_eq!(entries[3][0], b'd');
    assert!(rb.is_empty());
}

#[test]
fn ring_buffer_entry_cuts_off_text() {
    let mut w = RingBufferEntryWrapper::new([0u8; 128]);
    assert!(w.write_str("hello").is_ok());
    assert!(w.write_str(" world").is_ok());
    assert_eq!(w.as_str().trim_matches(char::from(0)), "hello world");
    let mut w = RingBufferEntryWrapper::new([0u8; 128]);
    let long = "y".repeat(200);
    assert!(w.write_str(&long).is_ok());
    assert_eq!(w.as_str(), &long[..128]);
}

#[test]
fn bump_allocations_do_not_overlap() {
    let mut a = BumpAllocator::new();
    a.init(0x1000, 0x2000);
    let p1 = a.allocate(0x100, 0);
    assert_eq!(p1, 0x1000);
    let p2 = a.allocate(0x10, 0);
    assert_eq!(p2, 0x1100);
    assert!(p2 >= p1 + 0x100);
    assert_eq!(a.allocate(0x1000, 0), 0);
    a.deallocate(p1, 0x100, 0);
    let p3 = a.allocate(0x10, 0);
    assert_eq!(p3, 0x1110);
    a.deallocate(p2, 0x10, 0);
    a.deallocate(p3, 0x10, 0);
    assert_eq!(a.allocate(0x10, 0), 0x1000);
}

#[test]
fn bump_allocator_without_heap_serves_nothing() {
    let mut a = BumpAllocator::new();
    assert_eq!(a.allocate(1, 0), 0);
    assert_eq!(a.allocate(0, 0), 0);
}

#[test]
fn align_up_tests_the_bits_of_align() {
    assert_eq!(align_up(0x1000, 0x1000), 0x1000);
    assert_eq!(align_up(3, 6), 7);
    assert_eq!(align_up(0x1001, 8), 0x1001);
    assert_eq!(align_up(0x1008, 8), 0x1008);
    assert_eq!(align_up(12, 8), 12);
    assert_eq!(align_up(4, 4), 4);
    assert_eq!(align_up(5, 4), 5);
    assert_eq!(align_up(0x20, 0x20), 0x20);
}

#[test]
fn ring_without_slots_refuses_long_messages() {
    let mut rb: RingBuffer<0> = RingBuffer::new();
    let long = "y".repeat(200);
    assert!(rb.write_str(&long).is_err());
    assert!(rb.is_empty());
}

#[test]
fn ring_buffer_gives_back_a_full_ring_in_order() {
    let mut rb: RingBuffer<3> = RingBuffer::new();
    for m in ["first", "second", "third"] {
        assert!(rb.write_str(m).is_ok());
    }
    let mut out = [0u8; 128];
    for m in ["first", "second", "third"] {
        assert!(rb.read_str(&mut out).is_ok());
        assert_eq!(&out[..m.len()], m.as_bytes());
        assert!(out[m.len()..].iter().all(|b| *b == 0));
    }
    assert!(rb.is_empty());
    let before = out;
    assert!(rb.read_str(&mut out).is_err());
    assert_eq!(out, before);
}

#[test]
fn write_to_joins_successive_writes() {
    let mut buf = [0u8; 8];
    let mut w = WriteTo::new(&mut buf);
    assert!(w.write_str("ab").is_ok());
    assert!(w.write_str("").is_ok());
    assert!(w.write_str("cde").is_ok());
    assert_eq!(w.len(), Some(5));
    assert_eq!(w.is_empty(), Some(false));
    assert_eq!(w.as_str(), Some("abcde"));
    let mut buf = [0u8; 4];
    let mut w = WriteTo::new(&mut buf);
    assert!(w.write_str("ab").is_ok());
    assert!(w.write_str("cde").is_err());
    assert_eq!(w.is_empty(), None);
    assert_eq!(w.as_str(), None);
}

#[test]
fn many_allocations_stay_apart_and_inside_the_heap() {
    let mut a = BumpAllocator::new();
    a.init(0x4000, 0x5000);
    let mut taken: Vec<(usize, usize)> = Vec::new();
    for (size, align) in [(0x10, 0), (0x30, 6), (0x1, 0), (0x200, 0x40), (0x7, 3)] {
        let p = a.allocate(size, align);
        assert_ne!(p, 0);
        assert!(p >= 0x4000 && p + size <= 0x5000);
        for (q, qs) in &taken {
            assert!(q + qs <= p);
        }
        taken.push((p, size));
    }
}
