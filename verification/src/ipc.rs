//! Kernel IPC endpoints: a slot for one message and the processes waiting
//! on it.
use vstd::prelude::*;

use crate::process::{blocker_cleared, same_but_blocker, table_wf, Process, ProcessTable};
use crate::syscall::ipc::{IpcError, IpcStatus, Message};
use crate::syscall::process::ProcessId;
use crate::syscall::SyscallError;

verus! {

/// Identifier of an endpoint.
pub type EndpointId = usize;

/// An endpoint: at most one message in transit, and the processes that last
/// sent and received on it.
pub struct Endpoint {
    pub message: Option<Message>,
    pub waiting_sender: Option<ProcessId>,
    pub waiting_receiver: Option<ProcessId>,
}

/// The blocker of process `who` (if any) is cleared: it is `process` itself
/// (`p0` becoming `p1`) or a process of the table (`t0` becoming `t1`).
pub open spec fn waiter_unblocked(
    who: Option<ProcessId>,
    p0: Process,
    p1: Process,
    t0: Map<ProcessId, Process>,
    t1: Map<ProcessId, Process>,
) -> bool {
    match who {
        Some(pid) => if pid == p0.id_of() {
            p1.blocker_of() is None && same_but_blocker(p0, p1) && t1 == t0
        } else {
            p1 == p0 && blocker_cleared(t0, t1, pid)
        },
        None => p1 == p0 && t1 == t0,
    }
}

/// Process `who` (if any) is `process` itself or in the table.
pub open spec fn waiter_known(who: Option<ProcessId>, p: Process, t: Map<ProcessId, Process>) -> bool {
    who matches Some(pid) ==> pid == p.id_of() || t.contains_key(pid)
}

/// What `write` of `message` by `p0` does to endpoint `e0` (becoming `e1`),
/// to the writer (becoming `p1`) and to the table (`t0` becoming `t1`).
pub open spec fn write_result(
    e0: Endpoint,
    e1: Endpoint,
    message: Message,
    p0: Process,
    p1: Process,
    t0: Map<ProcessId, Process>,
    t1: Map<ProcessId, Process>,
    r: Result<IpcStatus, SyscallError>,
) -> bool {
    &&& waiter_unblocked(e0.waiting_receiver, p0, p1, t0, t1)
    &&& e0.message is Some ==> r == Err::<IpcStatus, SyscallError>(
        SyscallError::IpcError(IpcError::Full),
    ) && e1 == e0
    &&& e0.message is None ==> {
        &&& e1.message == Some(message)
        &&& e1.waiting_sender == Some(p0.id_of())
        &&& e1.waiting_receiver == e0.waiting_receiver
        &&& r == Ok::<IpcStatus, SyscallError>(
            if e0.waiting_receiver is Some {
                IpcStatus::Ready
            } else {
                IpcStatus::WouldBlock
            },
        )
    }
}

/// What `read` by `p0` does to endpoint `e0` (becoming `e1`), to the reader
/// (becoming `p1`) and to the table (`t0` becoming `t1`).
pub open spec fn read_result(
    e0: Endpoint,
    e1: Endpoint,
    p0: Process,
    p1: Process,
    t0: Map<ProcessId, Process>,
    t1: Map<ProcessId, Process>,
    r: Result<Message, SyscallError>,
) -> bool {
    &&& waiter_unblocked(e0.waiting_sender, p0, p1, t0, t1)
    &&& e0.message is None ==> r == Err::<Message, SyscallError>(
        SyscallError::IpcError(IpcError::Empty),
    ) && e1 == e0
    &&& e0.message is Some ==> {
        &&& r == Ok::<Message, SyscallError>(e0.message->0)
        &&& e1.message is None
        &&& e1.waiting_receiver == Some(p0.id_of())
        &&& e1.waiting_sender == e0.waiting_sender
    }
}

fn unblock(who: Option<ProcessId>, process: &mut Process, table: &mut ProcessTable)
    requires
        table_wf(old(table)@),
        waiter_known(who, *old(process), old(table)@),
    ensures
        table_wf(final(table)@),
        final(process).wf() == old(process).wf(),
        waiter_unblocked(who, *old(process), *final(process), old(table)@, final(table)@),
{
    if let Some(pid) = who {
        if pid == process.pid() {
            process.set_blocker(None);
        } else {
            table.clear_blocker(pid);
        }
    }
}

impl Endpoint {
    /// An endpoint with no message and nobody waiting.
    pub fn new() -> (r: Self)
        ensures
            r.message is None,
            r.waiting_sender is None,
            r.waiting_receiver is None,
    {
        Endpoint { message: None, waiting_sender: None, waiting_receiver: None }
    }

    /// Puts `message` from `process` into the endpoint; fails when a message
    /// is already there. First unblocks the receiver that waits on the
    /// endpoint, which is `process` itself or in `table`. Reports whether a
    /// receiver is waiting.
    pub fn write(
        &mut self,
        message: Message,
        process: &mut Process,
        table: &mut ProcessTable,
    ) -> (r: Result<IpcStatus, SyscallError>)
        requires
            table_wf(old(table)@),
            waiter_known(old(self).waiting_receiver, *old(process), old(table)@),
        ensures
            table_wf(final(table)@),
            final(process).wf() == old(process).wf(),
            write_result(
                *old(self),
                *final(self),
                message,
                *old(process),
                *final(process),
                old(table)@,
                final(table)@,
                r,
            ),
    {
        unblock(self.waiting_receiver, process, table);
        match self.message {
            Some(_) => Err(SyscallError::IpcError(IpcError::Full)),
            None => {
                self.message = Some(message);
                self.waiting_sender = Some(process.pid());
                if self.waiting_receiver.is_some() {
                    Ok(IpcStatus::Ready)
                } else {
                    Ok(IpcStatus::WouldBlock)
                }
            },
        }
    }

    /// Takes the message out of the endpoint for `process`; fails when there
    /// is none. First unblocks the sender that waits on the endpoint, which
    /// is `process` itself or in `table`.
    pub fn read(&mut self, process: &mut Process, table: &mut ProcessTable) -> (r: Result<
        Message,
        SyscallError,
    >)
        requires
            table_wf(old(table)@),
            waiter_known(old(self).waiting_sender, *old(process), old(table)@),
        ensures
            table_wf(final(table)@),
            final(process).wf() == old(process).wf(),
            read_result(
                *old(self),
                *final(self),
                *old(process),
                *final(process),
                old(table)@,
                final(table)@,
                r,
            ),
    {
        unblock(self.waiting_sender, process, table);
        match self.message {
            Some(_) => {
                self.waiting_receiver = Some(process.pid());
                Ok(self.message.take().unwrap())
            },
            None => Err(SyscallError::IpcError(IpcError::Empty)),
        }
    }

    /// Puts the answer `message` into the endpoint; fails when a message is
    /// already there.
    pub fn reply(&mut self, message: Message) -> (r: Result<(), SyscallError>)
        ensures
            old(self).message is Some ==> r == Err::<(), SyscallError>(
                SyscallError::IpcError(IpcError::Full),
            ) && *final(self) == *old(self),
            old(self).message is None ==> {
                &&& r == Ok::<(), SyscallError>(())
                &&& final(self).message == Some(message)
                &&& final(self).waiting_sender == old(self).waiting_sender
                &&& final(self).waiting_receiver == old(self).waiting_receiver
            },
    {
        match self.message {
            Some(_) => Err(SyscallError::IpcError(IpcError::Full)),
            None => {
                self.message = Some(message);
                Ok(())
            },
        }
    }
}

/// Law: on an endpoint without a message, a write by process `w` succeeds;
/// a second write before a read is refused as full and changes nothing; a
/// read by process `q` then gives the message that was written, leaves the
/// endpoint without one, records `q` as its receiver and unblocks the
/// writer (`q` itself, or a process of the table); a second read is refused
/// as empty and changes nothing. The requirements are what `write` and
/// `read` ensure for those four calls.
pub proof fn lemma_write_then_read(
    e0: Endpoint,
    e1: Endpoint,
    e2: Endpoint,
    e3: Endpoint,
    e4: Endpoint,
    m: Message,
    m2: Message,
    w: (Process, Process, Map<ProcessId, Process>, Map<ProcessId, Process>),
    w2: (Process, Process, Map<ProcessId, Process>, Map<ProcessId, Process>),
    q: (Process, Process, Map<ProcessId, Process>, Map<ProcessId, Process>),
    q2: (Process, Process, Map<ProcessId, Process>, Map<ProcessId, Process>),
    first: Result<IpcStatus, SyscallError>,
    second: Result<IpcStatus, SyscallError>,
    got: Result<Message, SyscallError>,
    again: Result<Message, SyscallError>,
)
    requires
        e0.message is None,
        write_result(e0, e1, m, w.0, w.1, w.2, w.3, first),
        write_result(e1, e2, m2, w2.0, w2.1, w2.2, w2.3, second),
        read_result(e2, e3, q.0, q.1, q.2, q.3, got),
        waiter_known(e2.waiting_sender, q.0, q.2),
        read_result(e3, e4, q2.0, q2.1, q2.2, q2.3, again),
    ensures
        first is Ok,
        second == Err::<IpcStatus, SyscallError>(SyscallError::IpcError(IpcError::Full)),
        e2 == e1,
        got == Ok::<Message, SyscallError>(m),
        e3.message is None,
        e3.waiting_receiver == Some(q.0.id_of()),
        e3.waiting_sender == Some(w.0.id_of()),
        if w.0.id_of() == q.0.id_of() {
            q.1.blocker_of() is None
        } else {
            q.3.contains_key(w.0.id_of()) && q.3[w.0.id_of()].blocker_of() is None
        },
        again == Err::<Message, SyscallError>(SyscallError::IpcError(IpcError::Empty)),
        e4 == e3,
{
}

} // verus!
