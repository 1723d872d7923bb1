use kernel::capability::{init as init_capabilities, Capability, KernelObject};
use kernel::kernel::{
    handle_sys_create_endpoint, handle_sys_derive_cap, handle_sys_get_pid, handle_sys_move_cap,
    handle_sys_recv, handle_sys_reply, handle_sys_send, handle_sys_spawn, handle_sys_switch,
    handle_sys_yield, init_multiprocessing, Kernel, Switch, STACK_SIZE,
};
use kernel::paging::PhysicalAddress;
use kernel::process::{Process, KERNEL_TASK_ID};
use kernel::syscall::cap::{Rights, RIGHTS_ALL, RIGHTS_READ, RIGHTS_RWE};
use kernel::syscall::ipc::{IpcError, Message};
use kernel::syscall::number::Syscall;
use kernel::syscall::{RightsError, SyscallError};

const STACK_AT: usize = 0x10_0000;
const TRAMPOLINE: usize = 0x4000;

fn boot() -> Kernel {
    init_multiprocessing(0x1000, vec![0u8; STACK_SIZE], STACK_AT, TRAMPOLINE)
}

#[test]
fn init_multiprocessing_gives_the_kernel_task_a_capability_on_itself() {
    let k = boot();
    assert_eq!(k.current_pid(), KERNEL_TASK_ID);
    let p = k.process(KERNEL_TASK_ID);
    assert_eq!(p.next_cap_handle(), 1);
    let cap = p.get_cap(0).unwrap();
    assert_eq!(cap.object, KernelObject::Process(KERNEL_TASK_ID));
    assert_eq!(cap.rights, Rights(RIGHTS_ALL));
    let ctx = p.saved_context();
    assert_eq!(ctx.rip, TRAMPOLINE);
    assert_eq!(ctx.initial_rdi, 0x1000);
    assert_eq!(ctx.rsp, (STACK_AT + STACK_SIZE) & !0xF);
    assert_eq!(handle_sys_get_pid(&k), Ok([0, 0, 0, 0, 0, 0]));
}

#[test]
fn spawn_then_switch_and_yield_back() {
    let mut k = boot();
    let r = handle_sys_spawn(&mut k, 0x2000, 7, vec![0u8; STACK_SIZE], 0x20_0000, TRAMPOLINE);
    assert_eq!(r, Ok([1, 0, 0, 0, 0, 0]));
    let child = k.process(1);
    assert_eq!(child.saved_context().initial_rsi, 7);
    let out = handle_sys_switch(&mut k, 1);
    assert_eq!(out.result, Ok([0; 6]));
    assert_eq!(out.switch, Some(Switch { from: 0, to: 1 }));
    assert_eq!(k.current_pid(), 1);
    assert_eq!(k.process(1).previous_process(), Some(0));
    let back = handle_sys_yield(&mut k);
    assert_eq!(back.result, Ok([0; 6]));
    assert_eq!(back.switch, Some(Switch { from: 1, to: 0 }));
    assert_eq!(k.current_pid(), 0);
}

#[test]
fn switch_without_a_capability_fails() {
    let mut k = boot();
    let out = handle_sys_switch(&mut k, 42);
    assert_eq!(out.result, Err(SyscallError::NoCap));
    assert!(out.switch.is_none());
    assert_eq!(k.current_pid(), 0);
}

#[test]
fn switch_needs_a_process_capability_with_execute_right() {
    let mut k = boot();
    let ep = handle_sys_create_endpoint(&mut k).unwrap()[0];
    assert_eq!(handle_sys_switch(&mut k, ep).result, Err(SyscallError::InvalidObject));
    let read_only = handle_sys_derive_cap(&mut k, 0, Rights(RIGHTS_READ)).unwrap()[0];
    let out = handle_sys_switch(&mut k, read_only);
    assert_eq!(out.result, Err(SyscallError::RightsError(RightsError::NoExec)));
    assert!(out.switch.is_none());
    assert_eq!(handle_sys_yield(&mut k).result, Err(SyscallError::Unknown));
}

#[test]
fn send_then_receive_gives_back_the_message() {
    let mut k = boot();
    let ep = handle_sys_create_endpoint(&mut k).unwrap()[0];
    assert_eq!(ep, 1);
    let msg = Message::from_str("sendsend");
    let sent = handle_sys_send(&mut k, ep, msg);
    assert_eq!(sent.result, Ok([0, 0, 0, 0, 0, 0]));
    assert!(sent.switch.is_none());
    let got = handle_sys_recv(&mut k, ep).unwrap();
    assert_eq!(got[0], 2);
    assert_eq!([got[1], got[2], got[3], got[4]], msg.into_words());
    let reply_cap = k.process(0).get_cap(2).unwrap();
    assert_eq!(reply_cap.object, KernelObject::ReplyEndpoint(0));
    // The endpoint is empty again.
    assert_eq!(handle_sys_recv(&mut k, ep), Err(SyscallError::IpcError(IpcError::Empty)));
}

#[test]
fn second_send_to_a_full_endpoint_is_refused() {
    let mut k = boot();
    let ep = handle_sys_create_endpoint(&mut k).unwrap()[0];
    let msg = Message::from_words([1, 2, 3, 4]);
    assert!(handle_sys_send(&mut k, ep, msg).result.is_ok());
    assert_eq!(
        handle_sys_send(&mut k, ep, msg).result,
        Err(SyscallError::IpcError(IpcError::Full))
    );
}

#[test]
fn reply_reaches_the_next_receive() {
    let mut k = boot();
    let ep = handle_sys_create_endpoint(&mut k).unwrap()[0];
    let ask = Message::from_words([1, 0, 0, 0]);
    assert!(handle_sys_send(&mut k, ep, ask).result.is_ok());
    let got = handle_sys_recv(&mut k, ep).unwrap();
    let reply_handle = got[0];
    let answer = Message::from_words([9, 8, 7, 6]);
    let replied = handle_sys_reply(&mut k, reply_handle, answer);
    assert_eq!(replied.result, Ok([0; 6]));
    assert!(k.process(0).get_cap(reply_handle).is_err());
    let back = handle_sys_recv(&mut k, ep).unwrap();
    assert_eq!([back[1], back[2], back[3], back[4]], [9, 8, 7, 6]);
}

#[test]
fn a_reply_capability_serves_one_reply() {
    let mut k = boot();
    let ep = handle_sys_create_endpoint(&mut k).unwrap()[0];
    assert!(handle_sys_send(&mut k, ep, Message::from_words([1, 0, 0, 0])).result.is_ok());
    let reply_handle = handle_sys_recv(&mut k, ep).unwrap()[0];
    let answer = Message::from_words([2, 0, 0, 0]);
    assert_eq!(handle_sys_reply(&mut k, reply_handle, answer).result, Ok([0; 6]));
    let again = handle_sys_reply(&mut k, reply_handle, answer);
    assert_eq!(again.result, Err(SyscallError::NoCap));
    assert!(again.switch.is_none());
}

#[test]
fn kernel_accepts_only_calls_it_can_carry_out() {
    let mut k = boot();
    assert!(k.accepts(Syscall::GetPid));
    assert!(k.accepts(Syscall::CreateEndpoint));
    assert!(k.accepts(Syscall::Switch { process: 0 }));
    assert!(k.accepts(Syscall::Yield));
    // No slot 7 was ever handed out: a move of it cannot be carried out.
    assert!(!k.accepts(Syscall::MoveCap { process: 0, cap: 7 }));
    assert!(k.accepts(Syscall::MoveCap { process: 0, cap: 0 }));
    let ep = handle_sys_create_endpoint(&mut k).unwrap()[0];
    assert!(k.accepts(Syscall::Send { endpoint: ep, message: Message::from_words([0; 4]) }));
    assert!(k.accepts(Syscall::Recv { endpoint: ep }));
    assert!(k.has_process(0));
    assert!(!k.has_process(5));
    let empty = Kernel::new();
    assert!(!empty.accepts(Syscall::GetPid));
}

#[test]
fn derive_narrows_rights_and_needs_grant() {
    let mut k = boot();
    let ep = handle_sys_create_endpoint(&mut k).unwrap()[0];
    let read_only = handle_sys_derive_cap(&mut k, ep, Rights(RIGHTS_READ)).unwrap()[0];
    let cap = k.process(0).get_cap(read_only).unwrap();
    assert_eq!(cap.rights, Rights(RIGHTS_READ));
    assert_eq!(
        handle_sys_derive_cap(&mut k, read_only, Rights(RIGHTS_ALL)),
        Err(SyscallError::RightsError(RightsError::NoGrant))
    );
    // A read-only endpoint capability cannot send.
    assert_eq!(
        handle_sys_send(&mut k, read_only, Message::from_words([0; 4])).result,
        Err(SyscallError::RightsError(RightsError::NoWrite))
    );
}

#[test]
fn move_cap_hands_a_capability_to_another_process() {
    let mut k = boot();
    let child = handle_sys_spawn(&mut k, 0x2000, 0, vec![0u8; STACK_SIZE], 0x20_0000, TRAMPOLINE)
        .unwrap()[0];
    let ep = handle_sys_create_endpoint(&mut k).unwrap()[0];
    let moved = handle_sys_move_cap(&mut k, child, ep).unwrap()[0];
    assert_eq!(moved, 0);
    assert!(k.process(0).get_cap(ep).is_err());
    let cap = k.process(1).get_cap(moved).unwrap();
    assert_eq!(cap.object, KernelObject::Endpoint(0));
}

#[test]
fn capability_derive_and_rights() {
    let c = Capability { object: KernelObject::Endpoint(3), rights: Rights(RIGHTS_ALL) };
    let d = c.derive(Rights(RIGHTS_READ)).unwrap();
    assert_eq!(d.rights, Rights(RIGHTS_READ));
    assert_eq!(d.object, KernelObject::Endpoint(3));
    assert_eq!(
        d.derive(Rights(RIGHTS_READ)),
        Err(SyscallError::RightsError(RightsError::NoGrant))
    );
    assert!(d.has_rights(Rights(RIGHTS_READ)).is_ok());
    assert_eq!(
        d.has_rights(Rights(0x2)),
        Err(SyscallError::RightsError(RightsError::Unknown))
    );
}

#[test]
fn process_capabilities_insert_get_remove() {
    let mut p = Process::new(5, 0x1000, vec![0u8; 64], 0x8000, 1, TRAMPOLINE);
    assert_eq!(p.pid(), 5);
    let cap = Capability { object: KernelObject::Process(5), rights: Rights(RIGHTS_RWE) };
    let h = p.insert_cap(cap).unwrap();
    assert_eq!(h, 0);
    assert_eq!(p.get_cap(h), Ok(cap));
    assert_eq!(p.remove_cap(h), Ok(cap));
    assert_eq!(p.get_cap(h), Err(SyscallError::NoCap));
    assert_eq!(p.insert_cap(cap), Ok(1));
    assert_eq!(p.dump_caps(), vec![(0, None), (1, Some(cap))]);
}

#[test]
fn untyped_capabilities_for_memory_around_the_kernel() {
    let mut k = boot();
    let kernel_region = Some([PhysicalAddress(0x100000), PhysicalAddress(0x200000)]);
    let mut regions = [None; 16];
    regions[0] = Some([PhysicalAddress(0), PhysicalAddress(0x9f000)]);
    regions[1] = Some([PhysicalAddress(0x100000), PhysicalAddress(0x800000)]);
    init_capabilities(&mut k, kernel_region, regions);
    let p = k.process(KERNEL_TASK_ID);
    assert_eq!(p.next_cap_handle(), 3);
    assert_eq!(
        p.get_cap(1).unwrap().object,
        KernelObject::Untyped { addr: PhysicalAddress(0), size: 0x9f000 }
    );
    assert_eq!(
        p.get_cap(2).unwrap().object,
        KernelObject::Untyped { addr: PhysicalAddress(0x200000), size: 0x600000 }
    );
    assert_eq!(p.get_cap(2).unwrap().rights, Rights(RIGHTS_RWE));
}
