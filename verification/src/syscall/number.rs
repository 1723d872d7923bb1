//! System-call numbers and the registers a call travels in: the number in
//! `rax`, the arguments in `rdi`, `rsi`, `rdx`, `r10` and `r8`.
use vstd::prelude::*;

use crate::syscall::cap::CapHandle;
use crate::syscall::ipc::Message;

verus! {

pub const SYS_SWITCH: usize = 1;

pub const SYS_GET_PID: usize = 2;

pub const SYS_YIELD: usize = 3;

pub const SYS_SPAWN: usize = 4;

pub const SYS_LOG: usize = 5;

pub const SYS_DERIVE_CAP: usize = 6;

pub const SYS_MOVE_CAP: usize = 7;

pub const SYS_CREATE_ENDPOINT: usize = 8;

pub const SYS_SEND: usize = 9;

pub const SYS_RECV: usize = 10;

pub const SYS_REPLY: usize = 11;

/// A system call with its arguments.
#[derive(Debug, Clone, Copy, PartialEq, Eq)]
pub enum Syscall {
    /// Run the process that capability `process` names.
    Switch { process: CapHandle },
    /// The identifier of the calling process.
    GetPid,
    /// Give the processor back to the process that switched here.
    Yield,
    /// Start a process at `entry` with argument `arg`.
    Spawn { entry: usize, arg: usize },
    /// Log the `length` bytes at `start`.
    Log { start: usize, length: usize },
    /// Copy capability `cap` with the rights in `mask`.
    DeriveCap { cap: CapHandle, mask: usize },
    /// Move capability `cap` to the process that capability `process` names.
    MoveCap { process: CapHandle, cap: CapHandle },
    /// Create an endpoint.
    CreateEndpoint,
    /// Send `message` through endpoint `endpoint`.
    Send { endpoint: CapHandle, message: Message },
    /// Receive a message from endpoint `endpoint`.
    Recv { endpoint: CapHandle },
    /// Answer through reply endpoint `endpoint` with `message`.
    Reply { endpoint: CapHandle, message: Message },
}

/// The registers `rax`, `rdi`, `rsi`, `rdx`, `r10` and `r8` that carry
/// `call`; unused ones are 0.
pub open spec fn call_registers(call: Syscall) -> Seq<usize> {
    match call {
        Syscall::Switch { process } => seq![SYS_SWITCH, process, 0, 0, 0, 0],
        Syscall::GetPid => seq![SYS_GET_PID, 0, 0, 0, 0, 0],
        Syscall::Yield => seq![SYS_YIELD, 0, 0, 0, 0, 0],
        Syscall::Spawn { entry, arg } => seq![SYS_SPAWN, entry, arg, 0, 0, 0],
        Syscall::Log { start, length } => seq![SYS_LOG, start, length, 0, 0, 0],
        Syscall::DeriveCap { cap, mask } => seq![SYS_DERIVE_CAP, cap, mask, 0, 0, 0],
        Syscall::MoveCap { process, cap } => seq![SYS_MOVE_CAP, process, cap, 0, 0, 0],
        Syscall::CreateEndpoint => seq![SYS_CREATE_ENDPOINT, 0, 0, 0, 0, 0],
        Syscall::Send { endpoint, message } => seq![
            SYS_SEND,
            endpoint,
            message.data@[0],
            message.data@[1],
            message.data@[2],
            message.data@[3],
        ],
        Syscall::Recv { endpoint } => seq![SYS_RECV, endpoint, 0, 0, 0, 0],
        Syscall::Reply { endpoint, message } => seq![
            SYS_REPLY,
            endpoint,
            message.data@[0],
            message.data@[1],
            message.data@[2],
            message.data@[3],
        ],
    }
}

/// The message carried by the four argument registers after the first.
pub open spec fn message_in(regs: Seq<usize>) -> Message {
    Message { data: [regs[2], regs[3], regs[4], regs[5]] }
}

/// The call that registers `regs` carry, if `rax` holds a known number.
pub open spec fn call_of_registers(regs: Seq<usize>) -> Option<Syscall> {
    let n = regs[0];
    if n == SYS_SWITCH {
        Some(Syscall::Switch { process: regs[1] })
    } else if n == SYS_GET_PID {
        Some(Syscall::GetPid)
    } else if n == SYS_YIELD {
        Some(Syscall::Yield)
    } else if n == SYS_SPAWN {
        Some(Syscall::Spawn { entry: regs[1], arg: regs[2] })
    } else if n == SYS_LOG {
        Some(Syscall::Log { start: regs[1], length: regs[2] })
    } else if n == SYS_DERIVE_CAP {
        Some(Syscall::DeriveCap { cap: regs[1], mask: regs[2] })
    } else if n == SYS_MOVE_CAP {
        Some(Syscall::MoveCap { process: regs[1], cap: regs[2] })
    } else if n == SYS_CREATE_ENDPOINT {
        Some(Syscall::CreateEndpoint)
    } else if n == SYS_SEND {
        Some(Syscall::Send { endpoint: regs[1], message: message_in(regs) })
    } else if n == SYS_RECV {
        Some(Syscall::Recv { endpoint: regs[1] })
    } else if n == SYS_REPLY {
        Some(Syscall::Reply { endpoint: regs[1], message: message_in(regs) })
    } else {
        None
    }
}

impl Syscall {
    /// The registers `rax`, `rdi`, `rsi`, `rdx`, `r10` and `r8` that carry
    /// this call.
    pub fn registers(&self) -> (r: [usize; 6])
        ensures
            r@ == call_registers(*self),
    {
        let r = match *self {
            Syscall::Switch { process } => [SYS_SWITCH, process, 0, 0, 0, 0],
            Syscall::GetPid => [SYS_GET_PID, 0, 0, 0, 0, 0],
            Syscall::Yield => [SYS_YIELD, 0, 0, 0, 0, 0],
            Syscall::Spawn { entry, arg } => [SYS_SPAWN, entry, arg, 0, 0, 0],
            Syscall::Log { start, length } => [SYS_LOG, start, length, 0, 0, 0],
            Syscall::DeriveCap { cap, mask } => [SYS_DERIVE_CAP, cap, mask, 0, 0, 0],
            Syscall::MoveCap { process, cap } => [SYS_MOVE_CAP, process, cap, 0, 0, 0],
            Syscall::CreateEndpoint => [SYS_CREATE_ENDPOINT, 0, 0, 0, 0, 0],
            Syscall::Send { endpoint, message } => [
                SYS_SEND,
                endpoint,
                message.data[0],
                message.data[1],
                message.data[2],
                message.data[3],
            ],
            Syscall::Recv { endpoint } => [SYS_RECV, endpoint, 0, 0, 0, 0],
            Syscall::Reply { endpoint, message } => [
                SYS_REPLY,
                endpoint,
                message.data[0],
                message.data[1],
                message.data[2],
                message.data[3],
            ],
        };
        assert(r@ =~= call_registers(*self));
        r
    }

    /// The call that `regs` (`rax`, `rdi`, `rsi`, `rdx`, `r10`, `r8`)
    /// carry; `None` when `rax` holds no known number.
    pub fn from_registers(regs: [usize; 6]) -> (r: Option<Syscall>)
        ensures
            r == call_of_registers(regs@),
    {
        let message = Message { data: [regs[2], regs[3], regs[4], regs[5]] };
        let n = regs[0];
        if n == SYS_SWITCH {
            Some(Syscall::Switch { process: regs[1] })
        } else if n == SYS_GET_PID {
            Some(Syscall::GetPid)
        } else if n == SYS_YIELD {
            Some(Syscall::Yield)
        } else if n == SYS_SPAWN {
            Some(Syscall::Spawn { entry: regs[1], arg: regs[2] })
        } else if n == SYS_LOG {
            Some(Syscall::Log { start: regs[1], length: regs[2] })
        } else if n == SYS_DERIVE_CAP {
            Some(Syscall::DeriveCap { cap: regs[1], mask: regs[2] })
        } else if n == SYS_MOVE_CAP {
            Some(Syscall::MoveCap { process: regs[1], cap: regs[2] })
        } else if n == SYS_CREATE_ENDPOINT {
            Some(Syscall::CreateEndpoint)
        } else if n == SYS_SEND {
            Some(Syscall::Send { endpoint: regs[1], message })
        } else if n == SYS_RECV {
            Some(Syscall::Recv { endpoint: regs[1] })
        } else if n == SYS_REPLY {
            Some(Syscall::Reply { endpoint: regs[1], message })
        } else {
            None
        }
    }
}

/// Law: the kernel reads back from the registers exactly the call a user
/// program put in them.
pub proof fn lemma_registers_roundtrip(call: Syscall)
    ensures
        call_of_registers(call_registers(call)) == Some(call),
{
    match call {
        Syscall::Send { endpoint, message } => {
            assert(message_in(call_registers(call)).data =~= message.data);
        },
        Syscall::Reply { endpoint, message } => {
            assert(message_in(call_registers(call)).data =~= message.data);
        },
        _ => {},
    }
}

/// Law: each call has a fixed register layout: the call number in `rax`,
/// then its arguments in `rdi`, `rsi`, `rdx`, `r10` and `r8` in the order
/// the call names them (the log call puts the message's address in `rdi`
/// and its length in `rsi`; a send or reply puts the endpoint in `rdi` and
/// the message's four words after it); registers a call does not use hold
/// 0 and are ignored when read back.
pub proof fn lemma_register_layout(a: usize, b: usize, c: usize, d: usize, e: usize)
    ensures
        call_registers(Syscall::Switch { process: a }) == seq![SYS_SWITCH, a, 0, 0, 0, 0],
        call_registers(Syscall::GetPid) == seq![SYS_GET_PID, 0usize, 0, 0, 0, 0],
        call_registers(Syscall::Yield) == seq![SYS_YIELD, 0usize, 0, 0, 0, 0],
        call_registers(Syscall::Spawn { entry: a, arg: b }) == seq![SYS_SPAWN, a, b, 0, 0, 0],
        call_registers(Syscall::Log { start: a, length: b }) == seq![SYS_LOG, a, b, 0, 0, 0],
        call_registers(Syscall::DeriveCap { cap: a, mask: b }) == seq![SYS_DERIVE_CAP, a, b, 0, 0, 0],
        call_registers(Syscall::MoveCap { process: a, cap: b }) == seq![SYS_MOVE_CAP, a, b, 0, 0, 0],
        call_registers(Syscall::CreateEndpoint) == seq![SYS_CREATE_ENDPOINT, 0usize, 0, 0, 0, 0],
        call_registers(Syscall::Send { endpoint: a, message: Message { data: [b, c, d, e] } })
            == seq![SYS_SEND, a, b, c, d, e],
        call_registers(Syscall::Recv { endpoint: a }) == seq![SYS_RECV, a, 0, 0, 0, 0],
        call_registers(Syscall::Reply { endpoint: a, message: Message { data: [b, c, d, e] } })
            == seq![SYS_REPLY, a, b, c, d, e],
        call_of_registers(seq![SYS_SWITCH, a, b, c, d, e]) == Some(Syscall::Switch { process: a }),
        call_of_registers(seq![SYS_GET_PID, a, b, c, d, e]) == Some(Syscall::GetPid),
        call_of_registers(seq![SYS_YIELD, a, b, c, d, e]) == Some(Syscall::Yield),
        call_of_registers(seq![SYS_SPAWN, a, b, c, d, e]) == Some(
            Syscall::Spawn { entry: a, arg: b },
        ),
        call_of_registers(seq![SYS_LOG, a, b, c, d, e]) == Some(
            Syscall::Log { start: a, length: b },
        ),
        call_of_registers(seq![SYS_DERIVE_CAP, a, b, c, d, e]) == Some(
            Syscall::DeriveCap { cap: a, mask: b },
        ),
        call_of_registers(seq![SYS_MOVE_CAP, a, b, c, d, e]) == Some(
            Syscall::MoveCap { process: a, cap: b },
        ),
        call_of_registers(seq![SYS_CREATE_ENDPOINT, a, b, c, d, e]) == Some(
            Syscall::CreateEndpoint,
        ),
        call_of_registers(seq![SYS_SEND, a, b, c, d, e]) == Some(
            Syscall::Send { endpoint: a, message: Message { data: [b, c, d, e] } },
        ),
        call_of_registers(seq![SYS_RECV, a, b, c, d, e]) == Some(Syscall::Recv { endpoint: a }),
        call_of_registers(seq![SYS_REPLY, a, b, c, d, e]) == Some(
            Syscall::Reply { endpoint: a, message: Message { data: [b, c, d, e] } },
        ),
{
    assert(call_registers(Syscall::Send { endpoint: a, message: Message { data: [b, c, d, e] } })
        =~= seq![SYS_SEND, a, b, c, d, e]);
    assert(call_registers(Syscall::Reply { endpoint: a, message: Message { data: [b, c, d, e] } })
        =~= seq![SYS_REPLY, a, b, c, d, e]);
    assert(message_in(seq![SYS_SEND, a, b, c, d, e]).data =~= [b, c, d, e]);
    assert(message_in(seq![SYS_REPLY, a, b, c, d, e]).data =~= [b, c, d, e]);
}

} // verus!
