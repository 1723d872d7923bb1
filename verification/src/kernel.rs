//! The kernel's state (processes, endpoints, the running process) and the
//! system-call handlers that move it from one state to the next. Context
//! switches that a handler asks for are left to the caller.
use vstd::prelude::*;

use std::collections::BTreeMap;

use crate::capability::{Capability, KernelObject};
use crate::ipc::{Endpoint, EndpointId};
use crate::process::{
    Context, cap_inserted, derived_cap, moved_cap, move_target_ok, same_but, table_wf, Process,
    ProcessTable,
};
use crate::syscall::ipc::{IpcError, Message};
use crate::syscall::number::Syscall;
use crate::syscall::cap::{CapHandle, Rights, RIGHTS_ALL, RIGHTS_EXEC, RIGHTS_READ, RIGHTS_WRITE};
use crate::syscall::process::ProcessId;
use crate::syscall::{RightsError, SyscallError, SyscallResult};

verus! {

broadcast use vstd::laws_cmp::group_laws_cmp, vstd::std_specs::btree::group_btree_axioms;

/// What a system call hands back to its caller: six words or an error.
pub type SyscallReturn = Result<[usize; 6], SyscallError>;

/// Size in bytes of the stack of a spawned process.
pub const STACK_SIZE: usize = 4096 * 2;

/// A context switch that the caller of a handler must carry out: save the
/// registers of `from`, load those of `to`.
#[derive(Clone, Copy, Debug, PartialEq, Eq, Structural)]
pub struct Switch {
    pub from: ProcessId,
    pub to: ProcessId,
}

/// The result of a handler and the context switch it asks for, if any.
pub struct Outcome {
    pub result: SyscallReturn,
    pub switch: Option<Switch>,
}

/// The kernel's state.
pub struct Kernel {
    processes: ProcessTable,
    endpoints: BTreeMap<EndpointId, Endpoint>,
    current: ProcessId,
    next_process_id: usize,
    next_endpoint_id: usize,
}

/// The first word of a return, the others zero.
pub open spec fn one_word(w: usize) -> [usize; 6] {
    [w, 0, 0, 0, 0, 0]
}

impl Kernel {
    /// All processes, by identifier.
    pub closed spec fn processes(&self) -> Map<ProcessId, Process> {
        self.processes@
    }

    /// All endpoints, by identifier.
    pub closed spec fn endpoints(&self) -> Map<EndpointId, Endpoint> {
        self.endpoints@
    }

    /// The running process.
    pub closed spec fn current(&self) -> ProcessId {
        self.current
    }

    /// The identifier the next spawned process gets.
    pub closed spec fn next_pid(&self) -> ProcessId {
        self.next_process_id
    }

    /// The identifier the next created endpoint gets.
    pub closed spec fn next_endpoint(&self) -> EndpointId {
        self.next_endpoint_id
    }

    pub open spec fn wf(&self) -> bool {
        table_wf(self.processes())
    }

    /// The running process exists.
    pub open spec fn has_current(&self) -> bool {
        self.processes().contains_key(self.current())
    }

    /// The running process.
    pub open spec fn current_process(&self) -> Process {
        self.processes()[self.current()]
    }

    /// Capability `cap_id` of the running process, if the slot holds one.
    pub open spec fn current_cap(&self, cap_id: CapHandle) -> Option<Capability> {
        let caps = self.current_process().caps();
        if caps.contains_key(cap_id) {
            caps[cap_id]
        } else {
            None
        }
    }

    /// A kernel without processes or endpoints; process 0 runs first.
    pub fn new() -> (r: Self)
        ensures
            r.wf(),
            r.processes() == Map::<ProcessId, Process>::empty(),
            r.endpoints() == Map::<EndpointId, Endpoint>::empty(),
            r.current() == 0,
            r.next_pid() == 0,
            r.next_endpoint() == 0,
    {
        Kernel {
            processes: ProcessTable::new(),
            endpoints: BTreeMap::new(),
            current: 0,
            next_process_id: 0,
            next_endpoint_id: 0,
        }
    }

    /// The running process's identifier.
    pub fn current_pid(&self) -> (r: ProcessId)
        ensures
            r == self.current(),
    {
        self.current
    }

    /// Process `pid`, which must exist.
    pub fn process(&self, pid: ProcessId) -> (r: &Process)
        requires
            self.processes().contains_key(pid),
        ensures
            *r == self.processes()[pid],
    {
        self.processes.get(pid)
    }

    /// The running process, which must exist.
    pub fn get_current_mut(&self) -> (r: &Process)
        requires
            self.has_current(),
        ensures
            *r == self.current_process(),
    {
        self.processes.get(self.current)
    }

    /// Endpoint `id`, if it exists.
    pub fn endpoint(&self, id: EndpointId) -> (r: Option<&Endpoint>)
        ensures
            r == if self.endpoints().contains_key(id) {
                Some(&self.endpoints()[id])
            } else {
                None::<&Endpoint>
            },
    {
        self.endpoints.get(&id)
    }

    /// Removes process `pid`, which must exist, and hands it out.
    pub(crate) fn take_process(&mut self, pid: ProcessId) -> (r: Process)
        requires
            old(self).processes().contains_key(pid),
        ensures
            r == old(self).processes()[pid],
            final(self).processes() == old(self).processes().remove(pid),
            final(self).endpoints() == old(self).endpoints(),
            final(self).current() == old(self).current(),
            final(self).next_pid() == old(self).next_pid(),
            final(self).next_endpoint() == old(self).next_endpoint(),
    {
        self.processes.take(pid)
    }

    /// Stores `process` under its identifier.
    pub(crate) fn put_process(&mut self, process: Process)
        ensures
            final(self).processes() == old(self).processes().insert(process.id_of(), process),
            final(self).endpoints() == old(self).endpoints(),
            final(self).current() == old(self).current(),
            final(self).next_pid() == old(self).next_pid(),
            final(self).next_endpoint() == old(self).next_endpoint(),
    {
        self.processes.put(process);
    }

    /// Stores the registers of process `pid`, saved when it stopped running;
    /// nothing else changes.
    pub fn save_context(&mut self, pid: ProcessId, context: Context)
        requires
            old(self).wf(),
            old(self).processes().contains_key(pid),
        ensures
            final(self).wf(),
            final(self).processes().dom() == old(self).processes().dom(),
            forall|q: ProcessId| q != pid ==> #[trigger] final(self).processes().get(q) == old(
                self,
            ).processes().get(q),
            ({
                let p0 = old(self).processes()[pid];
                let p1 = final(self).processes()[pid];
                &&& p1.context() == context
                &&& p1.id_of() == p0.id_of()
                &&& p1.caps() == p0.caps()
                &&& p1.next_handle() == p0.next_handle()
                &&& p1.blocker_of() == p0.blocker_of()
                &&& p1.previous() == p0.previous()
                &&& p1.exit_code_of() == p0.exit_code_of()
            }),
            final(self).endpoints() == old(self).endpoints(),
            final(self).current() == old(self).current(),
            final(self).next_pid() == old(self).next_pid(),
            final(self).next_endpoint() == old(self).next_endpoint(),
    {
        let mut p = self.processes.take(pid);
        p.set_context(context);
        self.processes.put(p);
        proof {
            assert(self.processes@.dom() =~= old(self).processes@.dom());
        }
    }

    /// Stores `process` under its identifier and returns that identifier.
    pub fn register(&mut self, process: Process) -> (r: ProcessId)
        requires
            old(self).wf(),
            process.wf(),
        ensures
            final(self).wf(),
            r == process.id_of(),
            final(self).processes() == old(self).processes().insert(process.id_of(), process),
            final(self).endpoints() == old(self).endpoints(),
            final(self).current() == old(self).current(),
            final(self).next_pid() == old(self).next_pid(),
            final(self).next_endpoint() == old(self).next_endpoint(),
    {
        let id = process.pid();
        self.processes.put(process);
        id
    }

    /// Makes `next_id` the running process and records in it that the
    /// previously running process switched to it. Both must exist.
    pub fn switch_process(&mut self, next_id: ProcessId) -> (r: SyscallResult<()>)
        requires
            old(self).wf(),
            old(self).has_current(),
            old(self).processes().contains_key(next_id),
        ensures
            r is Ok,
            final(self).wf(),
            switched(*old(self), *final(self), next_id),
    {
        let from = self.current;
        self.current = next_id;
        let mut next = self.processes.take(next_id);
        next.set_previous(from);
        self.processes.put(next);
        assert(self.processes@.dom() =~= old(self).processes@.dom());
        Ok(())
    }

    /// Creates an endpoint under the next identifier (which then wraps
    /// around at the end of the range) and returns the identifier.
    pub fn create_endpoint(&mut self) -> (r: EndpointId)
        ensures
            r == old(self).next_endpoint(),
            final(self).next_endpoint() == if old(self).next_endpoint() == usize::MAX {
                0
            } else {
                (old(self).next_endpoint() + 1) as usize
            },
            final(self).endpoints().contains_key(r),
            final(self).endpoints()[r].message is None,
            final(self).endpoints()[r].waiting_sender is None,
            final(self).endpoints()[r].waiting_receiver is None,
            forall|e: EndpointId| e != r ==> #[trigger] final(self).endpoints().get(e) == old(self).endpoints().get(e),
            final(self).endpoints().dom() == old(self).endpoints().dom().insert(r),
            final(self).processes() == old(self).processes(),
            final(self).current() == old(self).current(),
            final(self).next_pid() == old(self).next_pid(),
    {
        let ep = Endpoint::new();
        let ep_id = self.next_endpoint_id;
        self.next_endpoint_id = self.next_endpoint_id.wrapping_add(1);
        self.endpoints.insert(ep_id, ep);
        ep_id
    }
}

/// `k1` is `k0` after switching to `next`: `next` runs and records that the
/// process that ran before switched to it.
pub open spec fn switched(k0: Kernel, k1: Kernel, next: ProcessId) -> bool {
    let p0 = k0.processes()[next];
    let p1 = k1.processes()[next];
    &&& k1.current() == next
    &&& k1.processes().dom() == k0.processes().dom()
    &&& p1.previous() == Some(k0.current())
    &&& p1.id_of() == p0.id_of()
    &&& p1.caps() == p0.caps()
    &&& p1.next_handle() == p0.next_handle()
    &&& p1.blocker_of() == p0.blocker_of()
    &&& p1.exit_code_of() == p0.exit_code_of()
    &&& p1.context() == p0.context()
    &&& forall|q: ProcessId| q != next ==> #[trigger] k1.processes().get(q) == k0.processes().get(q)
    &&& k1.endpoints() == k0.endpoints()
    &&& k1.next_pid() == k0.next_pid()
    &&& k1.next_endpoint() == k0.next_endpoint()
}

/// The kernel is unchanged.
pub open spec fn unchanged(k0: Kernel, k1: Kernel) -> bool {
    &&& k1.processes() == k0.processes()
    &&& k1.endpoints() == k0.endpoints()
    &&& k1.current() == k0.current()
    &&& k1.next_pid() == k0.next_pid()
    &&& k1.next_endpoint() == k0.next_endpoint()
}

/// Only the running process changed, from `k0`'s to `p1`.
pub open spec fn only_current_changed(k0: Kernel, k1: Kernel, p1: Process) -> bool {
    &&& k1.processes() == k0.processes().insert(k0.current(), p1)
    &&& k1.endpoints() == k0.endpoints()
    &&& k1.current() == k0.current()
    &&& k1.next_pid() == k0.next_pid()
    &&& k1.next_endpoint() == k0.next_endpoint()
}

/// Switches to the process named by capability `cap_id` of the running
/// process; the capability must carry the execute right.
pub fn handle_sys_switch(kernel: &mut Kernel, cap_id: usize) -> (r: Outcome)
    requires
        old(kernel).wf(),
        old(kernel).has_current(),
        old(kernel).current_cap(cap_id) matches Some(c) ==> (c.object matches KernelObject::Process(
            next,
        ) ==> (c.rights.0 & RIGHTS_EXEC != 0 ==> old(kernel).processes().contains_key(next))),
    ensures
        final(kernel).wf(),
        match old(kernel).current_cap(cap_id) {
            None => r.result == Err::<[usize; 6], SyscallError>(SyscallError::NoCap) && r.switch
                is None && unchanged(*old(kernel), *final(kernel)),
            Some(c) => match c.object {
                KernelObject::Process(next) => if c.rights.0 & RIGHTS_EXEC != 0 {
                    &&& r.result == Ok::<[usize; 6], SyscallError>(one_word(0))
                    &&& r.switch == Some(Switch { from: old(kernel).current(), to: next })
                    &&& switched(*old(kernel), *final(kernel), next)
                } else {
                    &&& r.result == Err::<[usize; 6], SyscallError>(
                        SyscallError::RightsError(RightsError::NoExec),
                    )
                    &&& r.switch is None
                    &&& unchanged(*old(kernel), *final(kernel))
                },
                _ => r.result == Err::<[usize; 6], SyscallError>(SyscallError::InvalidObject)
                    && r.switch is None && unchanged(*old(kernel), *final(kernel)),
            },
        },
{
    let from = kernel.current;
    let proc = kernel.processes.get(from);
    let cap = match proc.get_cap(cap_id) {
        Ok(c) => c,
        Err(e) => {
            return Outcome { result: Err(e), switch: None };
        },
    };
    match cap.object {
        KernelObject::Process(next_id) => {
            if cap.has_rights(Rights(RIGHTS_EXEC)).is_ok() {
                let _ = kernel.switch_process(next_id);
                Outcome { result: Ok([0, 0, 0, 0, 0, 0]), switch: Some(Switch { from, to: next_id }) }
            } else {
                Outcome { result: Err(SyscallError::RightsError(RightsError::NoExec)), switch: None }
            }
        },
        _ => Outcome { result: Err(SyscallError::InvalidObject), switch: None },
    }
}

/// The running process's identifier in the first word.
pub fn handle_sys_get_pid(kernel: &Kernel) -> (r: SyscallReturn)
    ensures
        r == Ok::<[usize; 6], SyscallError>(one_word(kernel.current())),
{
    Ok([kernel.current, 0, 0, 0, 0, 0])
}

/// Switches back to the process that last switched to the running one;
/// fails when there is none.
pub fn handle_sys_yield(kernel: &mut Kernel) -> (r: Outcome)
    requires
        old(kernel).wf(),
        old(kernel).has_current(),
        old(kernel).current_process().previous() matches Some(pid) ==> old(
            kernel,
        ).processes().contains_key(pid),
    ensures
        final(kernel).wf(),
        match old(kernel).current_process().previous() {
            Some(pid) => {
                &&& r.result == Ok::<[usize; 6], SyscallError>(one_word(0))
                &&& r.switch == Some(Switch { from: old(kernel).current(), to: pid })
                &&& switched(*old(kernel), *final(kernel), pid)
            },
            None => r.result == Err::<[usize; 6], SyscallError>(SyscallError::Unknown) && r.switch
                is None && unchanged(*old(kernel), *final(kernel)),
        },
{
    let from = kernel.current;
    let target = kernel.processes.get(from).yield_to();
    match target {
        Ok(pid) => {
            let _ = kernel.switch_process(pid);
            Outcome { result: Ok([0, 0, 0, 0, 0, 0]), switch: Some(Switch { from, to: pid }) }
        },
        Err(e) => Outcome { result: Err(e), switch: None },
    }
}

/// Derives a capability from capability `cap_id` of the running process
/// with the rights also in `mask`, and returns its handle in the first word.
pub fn handle_sys_derive_cap(kernel: &mut Kernel, cap_id: CapHandle, mask: Rights) -> (r:
    SyscallReturn)
    requires
        old(kernel).wf(),
        old(kernel).has_current(),
        old(kernel).current_process().next_handle() < usize::MAX,
    ensures
        final(kernel).wf(),
        final(kernel).has_current(),
        only_current_changed(*old(kernel), *final(kernel), final(kernel).current_process()),
        exists|rr: Result<CapHandle, SyscallError>|
            derived_cap(
                old(kernel).current_process(),
                final(kernel).current_process(),
                cap_id,
                mask,
                rr,
            ) && r == match rr {
                Ok(h) => Ok::<[usize; 6], SyscallError>(one_word(h)),
                Err(e) => Err::<[usize; 6], SyscallError>(e),
            },
{
    let pid = kernel.current;
    let mut proc = kernel.processes.take(pid);
    let rr = proc.derive_cap(cap_id, mask);
    let ghost p1 = proc;
    kernel.processes.put(proc);
    proof {
        assert(kernel.processes@ =~= old(kernel).processes@.insert(pid, p1));
    }
    let r = match rr {
        Ok(handle) => Ok([handle, 0, 0, 0, 0, 0]),
        Err(e) => Err(e),
    };
    assert(derived_cap(old(kernel).current_process(), kernel.current_process(), cap_id, mask, rr));
    r
}

/// Creates an endpoint and gives the running process a capability on it
/// with all rights; returns the handle in the first word.
pub fn handle_sys_create_endpoint(kernel: &mut Kernel) -> (r: SyscallReturn)
    requires
        old(kernel).wf(),
        old(kernel).has_current(),
        old(kernel).current_process().next_handle() < usize::MAX,
    ensures
        final(kernel).wf(),
        final(kernel).has_current(),
        r == Ok::<[usize; 6], SyscallError>(one_word(old(kernel).current_process().next_handle())),
        cap_inserted(
            old(kernel).current_process(),
            final(kernel).current_process(),
            Capability {
                object: KernelObject::Endpoint(old(kernel).next_endpoint()),
                rights: Rights(RIGHTS_ALL),
            },
        ),
        final(kernel).processes() == old(kernel).processes().insert(
            old(kernel).current(),
            final(kernel).current_process(),
        ),
        final(kernel).endpoints().contains_key(old(kernel).next_endpoint()),
        final(kernel).endpoints()[old(kernel).next_endpoint()].message is None,
        final(kernel).endpoints()[old(kernel).next_endpoint()].waiting_sender is None,
        final(kernel).endpoints()[old(kernel).next_endpoint()].waiting_receiver is None,
        forall|e: EndpointId|
            e != old(kernel).next_endpoint() ==> #[trigger] final(kernel).endpoints().get(e)
                == old(kernel).endpoints().get(e),
        final(kernel).current() == old(kernel).current(),
        final(kernel).next_pid() == old(kernel).next_pid(),
{
    let ep_id = kernel.create_endpoint();
    let cap = Capability { object: KernelObject::Endpoint(ep_id), rights: Rights(RIGHTS_ALL) };
    let pid = kernel.current;
    let mut proc = kernel.processes.take(pid);
    let rr = proc.insert_cap(cap);
    kernel.processes.put(proc);
    proof {
        assert(kernel.processes@.dom() =~= old(kernel).processes@.dom());
    }
    match rr {
        Ok(handle) => Ok([handle, 0, 0, 0, 0, 0]),
        Err(e) => Err(e),
    }
}

/// Moves capability `cap_id` of the running process to the process named by
/// its capability `process_cap_id`; returns the new handle in the first word.
pub fn handle_sys_move_cap(kernel: &mut Kernel, process_cap_id: CapHandle, cap_id: CapHandle) -> (r:
    SyscallReturn)
    requires
        old(kernel).wf(),
        old(kernel).has_current(),
        old(kernel).current_process().caps().contains_key(cap_id),
        old(kernel).current_process().next_handle() < usize::MAX,
        move_target_ok(
            old(kernel).current_process(),
            cap_id,
            process_cap_id,
            old(kernel).processes().remove(old(kernel).current()),
        ),
    ensures
        final(kernel).wf(),
        final(kernel).has_current(),
        final(kernel).endpoints() == old(kernel).endpoints(),
        final(kernel).current() == old(kernel).current(),
        final(kernel).next_pid() == old(kernel).next_pid(),
        exists|rr: Result<CapHandle, SyscallError>|
            moved_cap(
                old(kernel).current_process(),
                final(kernel).current_process(),
                old(kernel).processes().remove(old(kernel).current()),
                final(kernel).processes().remove(old(kernel).current()),
                cap_id,
                process_cap_id,
                rr,
            ) && r == match rr {
                Ok(h) => Ok::<[usize; 6], SyscallError>(one_word(h)),
                Err(e) => Err::<[usize; 6], SyscallError>(e),
            },
{
    let pid = kernel.current;
    let mut proc = kernel.processes.take(pid);
    proof {
        assert(table_wf(kernel.processes@));
    }
    let rr = proc.move_cap(cap_id, process_cap_id, &mut kernel.processes);
    let ghost t1 = kernel.processes@;
    let ghost p1 = proc;
    kernel.processes.put(proc);
    proof {
        assert(kernel.processes@ == t1.insert(pid, p1));
        assert(kernel.processes@.remove(pid) =~= t1);
    }
    let r = match rr {
        Ok(handle) => Ok([handle, 0, 0, 0, 0, 0]),
        Err(e) => Err(e),
    };
    assert(moved_cap(
        old(kernel).current_process(),
        kernel.current_process(),
        old(kernel).processes().remove(old(kernel).current()),
        kernel.processes().remove(old(kernel).current()),
        cap_id,
        process_cap_id,
        rr,
    ));
    r
}


/// `p` is a process just created as process `id`, with capability table
/// `caps` and next handle `next`.
pub open spec fn fresh_process(
    p: Process,
    id: ProcessId,
    context: crate::process::Context,
    caps: Map<CapHandle, Option<Capability>>,
    next: CapHandle,
) -> bool {
    &&& p.id_of() == id
    &&& p.context() == context
    &&& p.stack() == zeroed_stack()
    &&& p.caps() == caps
    &&& p.next_handle() == next
    &&& p.exit_code_of() is None
    &&& p.blocker_of() is None
    &&& p.previous() is None
    &&& p.wf()
}

/// A stack of `STACK_SIZE` zero bytes, as a spawned process gets it.
pub open spec fn zeroed_stack() -> Seq<u8> {
    Seq::new(STACK_SIZE as nat, |i: int| 0u8)
}

/// Creates process `entry(arg)` on `stack` (`STACK_SIZE` zero bytes), whose
/// first byte sits at `stack_address`, under the next process identifier (which then wraps
/// around at the end of the range), starting at `trampoline`; gives the
/// running process a capability on it with all rights and returns its
/// handle in the first word. When the new process takes the running
/// process's identifier, it replaces it and gets the capability itself.
pub fn handle_sys_spawn(
    kernel: &mut Kernel,
    entry: usize,
    arg: usize,
    stack: Vec<u8>,
    stack_address: usize,
    trampoline: usize,
) -> (r: SyscallReturn)
    requires
        old(kernel).wf(),
        stack@ == zeroed_stack(),
        stack_address + STACK_SIZE <= usize::MAX,
        old(kernel).next_pid() != old(kernel).current() ==> old(kernel).has_current() && old(
            kernel,
        ).current_process().next_handle() < usize::MAX,
    ensures
        final(kernel).wf(),
        final(kernel).has_current(),
        ({
            let id = old(kernel).next_pid();
            let cur = old(kernel).current();
            let cap = Capability { object: KernelObject::Process(id), rights: Rights(RIGHTS_ALL) };
            let context = crate::process::initial_context(
                entry,
                arg,
                (stack_address + STACK_SIZE) as usize,
                trampoline,
            );
            &&& final(kernel).next_pid() == if id == usize::MAX {
                0
            } else {
                (id + 1) as usize
            }
            &&& final(kernel).processes().dom() == old(kernel).processes().dom().insert(id)
            &&& final(kernel).current() == cur
            &&& final(kernel).endpoints() == old(kernel).endpoints()
            &&& final(kernel).next_endpoint() == old(kernel).next_endpoint()
            &&& if id == cur {
                &&& r == Ok::<[usize; 6], SyscallError>(one_word(0))
                &&& fresh_process(
                    final(kernel).processes()[id],
                    id,
                    context,
                    Map::<CapHandle, Option<Capability>>::empty().insert(0, Some(cap)),
                    1,
                )
                &&& forall|q: ProcessId|
                    q != id ==> #[trigger] final(kernel).processes().get(q) == old(
                        kernel,
                    ).processes().get(q)
            } else {
                &&& r == Ok::<[usize; 6], SyscallError>(
                    one_word(old(kernel).current_process().next_handle()),
                )
                &&& fresh_process(
                    final(kernel).processes()[id],
                    id,
                    context,
                    Map::<CapHandle, Option<Capability>>::empty(),
                    0,
                )
                &&& cap_inserted(
                    old(kernel).current_process(),
                    final(kernel).current_process(),
                    cap,
                )
                &&& forall|q: ProcessId|
                    q != id && q != cur ==> #[trigger] final(kernel).processes().get(q) == old(
                        kernel,
                    ).processes().get(q)
            }
        }),
{
    let id = kernel.next_process_id;
    kernel.next_process_id = kernel.next_process_id.wrapping_add(1);
    let process = Process::new(id, entry, stack, stack_address, arg, trampoline);
    let ghost fresh = process;
    let pid = kernel.register(process);
    let cap = Capability { object: KernelObject::Process(pid), rights: Rights(RIGHTS_ALL) };
    let cur = kernel.current;
    let mut proc = kernel.processes.take(cur);
    let rr = proc.insert_cap(cap);
    let ghost p1 = proc;
    kernel.processes.put(proc);
    proof {
        assert(kernel.processes@ =~= old(kernel).processes@.insert(id, fresh).insert(cur, p1));
        assert(kernel.processes@.dom() =~= old(kernel).processes@.dom().insert(id));
    }
    match rr {
        Ok(handle) => Ok([handle, 0, 0, 0, 0, 0]),
        Err(e) => Err(e),
    }
}

/// Starts multiprocessing: a kernel whose process 0 runs the kernel's own
/// task `entry(0)` on `stack` (whose first byte sits at `stack_address`),
/// starting at `trampoline`, and holds capability 0 on itself with all rights.
pub fn init_multiprocessing(entry: usize, stack: Vec<u8>, stack_address: usize, trampoline: usize) -> (r:
    Kernel)
    requires
        stack@ == zeroed_stack(),
        stack_address + STACK_SIZE <= usize::MAX,
    ensures
        r.wf(),
        r.current() == crate::process::KERNEL_TASK_ID,
        r.processes().dom() == Set::<ProcessId>::empty().insert(crate::process::KERNEL_TASK_ID),
        fresh_process(
            r.processes()[crate::process::KERNEL_TASK_ID],
            crate::process::KERNEL_TASK_ID,
            crate::process::initial_context(entry, 0, (stack_address + STACK_SIZE) as usize, trampoline),
            Map::<CapHandle, Option<Capability>>::empty().insert(
                0,
                Some(
                    Capability {
                        object: KernelObject::Process(crate::process::KERNEL_TASK_ID),
                        rights: Rights(RIGHTS_ALL),
                    },
                ),
            ),
            1,
        ),
        r.endpoints() == Map::<EndpointId, Endpoint>::empty(),
        r.next_pid() == 1,
        r.next_endpoint() == 0,
{
    let mut kernel = Kernel::new();
    let res = handle_sys_spawn(&mut kernel, entry, 0, stack, stack_address, trampoline);
    assert(res == Ok::<[usize; 6], SyscallError>(one_word(0)));
    assert(kernel.processes().dom() =~= Set::<ProcessId>::empty().insert(0));
    kernel
}


/// Only the running process's blocker changed, to `Some(cap_id)`.
pub open spec fn only_blocker_set(k0: Kernel, k1: Kernel, cap_id: CapHandle) -> bool {
    let cur = k0.current();
    &&& k1.processes().dom() == k0.processes().dom()
    &&& same_but(k0.processes()[cur], k1.processes()[cur], Some(cap_id), k0.processes()[cur].previous())
    &&& forall|q: ProcessId| q != cur ==> #[trigger] k1.processes().get(q) == k0.processes().get(q)
    &&& k1.endpoints() == k0.endpoints()
    &&& k1.current() == k0.current()
    &&& k1.next_pid() == k0.next_pid()
    &&& k1.next_endpoint() == k0.next_endpoint()
}

/// The endpoint that capability `cap_id` of the running process names, when
/// it is an endpoint capability carrying one of `rights` and the endpoint
/// exists.
pub open spec fn usable_endpoint(k: Kernel, cap_id: CapHandle, rights: u8, reply: bool) -> Option<EndpointId> {
    match k.current_cap(cap_id) {
        Some(c) => match c.object {
            KernelObject::Endpoint(eid) => if !reply && c.rights.0 & rights != 0
                && k.endpoints().contains_key(eid) {
                Some(eid)
            } else {
                None
            },
            KernelObject::ReplyEndpoint(eid) => if reply && c.rights.0 & rights != 0
                && k.endpoints().contains_key(eid) {
                Some(eid)
            } else {
                None
            },
            _ => None,
        },
        None => None,
    }
}

/// Why a send, receive or reply on capability `cap_id` fails before it
/// reaches an endpoint, if it does.
pub open spec fn endpoint_cap_error(k: Kernel, cap_id: CapHandle, rights: u8, reply: bool) -> Option<
    SyscallError,
> {
    match k.current_cap(cap_id) {
        None => Some(SyscallError::NoCap),
        Some(c) => match c.object {
            KernelObject::Endpoint(eid) => if reply {
                Some(SyscallError::InvalidObject)
            } else if c.rights.0 & rights == 0 {
                Some(SyscallError::RightsError(RightsError::NoWrite))
            } else if !k.endpoints().contains_key(eid) {
                Some(SyscallError::IpcError(IpcError::InvalidEndpoint))
            } else {
                None
            },
            KernelObject::ReplyEndpoint(eid) => if !reply {
                Some(SyscallError::InvalidObject)
            } else if c.rights.0 & rights == 0 {
                Some(SyscallError::RightsError(RightsError::NoWrite))
            } else if !k.endpoints().contains_key(eid) {
                Some(SyscallError::IpcError(IpcError::InvalidEndpoint))
            } else {
                None
            },
            _ => Some(SyscallError::InvalidObject),
        },
    }
}

/// `k1` is `k0` after the running process sent `message` on endpoint `eid`
/// through capability `cap_id`: the running process blocks on `cap_id`, the
/// receiver waiting on the endpoint is unblocked and switched to, the
/// endpoint holds the message unless it already held one, and no receiver
/// waits on it any more.
pub open spec fn sent(k0: Kernel, k1: Kernel, eid: EndpointId, cap_id: CapHandle, message: Message, r: Outcome) -> bool {
    let cur = k0.current();
    let e0 = k0.endpoints()[eid];
    let e1 = k1.endpoints()[eid];
    let recv = e0.waiting_receiver;
    let t0 = k0.processes();
    let t1 = k1.processes();
    &&& r.result == if e0.message is Some {
        Err::<[usize; 6], SyscallError>(SyscallError::IpcError(IpcError::Full))
    } else {
        Ok::<[usize; 6], SyscallError>(one_word(if recv is Some { 1usize } else { 0usize }))
    }
    &&& e1.waiting_receiver is None
    &&& e1.message == if e0.message is Some { e0.message } else { Some(message) }
    &&& e1.waiting_sender == if e0.message is Some { e0.waiting_sender } else { Some(cur) }
    &&& k1.endpoints().dom() == k0.endpoints().dom()
    &&& forall|e: EndpointId| e != eid ==> #[trigger] k1.endpoints().get(e) == k0.endpoints().get(e)
    &&& t1.dom() == t0.dom()
    &&& k1.next_pid() == k0.next_pid()
    &&& k1.next_endpoint() == k0.next_endpoint()
    &&& match recv {
        Some(rid) => {
            &&& r.switch == Some(Switch { from: cur, to: rid })
            &&& k1.current() == rid
            &&& if rid == cur {
                same_but(t0[cur], t1[cur], None, Some(cur))
            } else {
                &&& same_but(t0[cur], t1[cur], Some(cap_id), t0[cur].previous())
                &&& same_but(t0[rid], t1[rid], None, Some(cur))
            }
            &&& forall|q: ProcessId| q != cur && q != rid ==> #[trigger] t1.get(q) == t0.get(q)
        },
        None => {
            &&& r.switch is None
            &&& k1.current() == cur
            &&& same_but(t0[cur], t1[cur], Some(cap_id), t0[cur].previous())
            &&& forall|q: ProcessId| q != cur ==> #[trigger] t1.get(q) == t0.get(q)
        },
    }
}

/// Sends `message` on the endpoint named by capability `cap_id` of the
/// running process, which must carry the write right. Reports 1 in the
/// first word when a receiver waits (and switches to it), 0 otherwise.
pub fn handle_sys_send(kernel: &mut Kernel, cap_id: CapHandle, message: Message) -> (r: Outcome)
    requires
        old(kernel).wf(),
        old(kernel).has_current(),
        usable_endpoint(*old(kernel), cap_id, RIGHTS_WRITE, false) matches Some(eid) ==> (old(
            kernel,
        ).endpoints()[eid].waiting_receiver matches Some(rid) ==> old(
            kernel,
        ).processes().contains_key(rid)),
    ensures
        final(kernel).wf(),
        final(kernel).has_current(),
        match endpoint_cap_error(*old(kernel), cap_id, RIGHTS_WRITE, false) {
            Some(e) => r.result == Err::<[usize; 6], SyscallError>(e) && r.switch is None
                && only_blocker_set(*old(kernel), *final(kernel), cap_id),
            None => sent(
                *old(kernel),
                *final(kernel),
                usable_endpoint(*old(kernel), cap_id, RIGHTS_WRITE, false)->0,
                cap_id,
                message,
                r,
            ),
        },
{
    let pid = kernel.current;
    let mut proc = kernel.processes.take(pid);
    proc.set_blocker(Some(cap_id));
    let cap = match proc.get_cap(cap_id) {
        Ok(c) => c,
        Err(e) => {
            kernel.processes.put(proc);
            assert(kernel.processes@.dom() =~= old(kernel).processes@.dom());
            return Outcome { result: Err(e), switch: None };
        },
    };
    let eid = match cap.object {
        KernelObject::Endpoint(eid) => {
            if cap.has_rights(Rights(RIGHTS_WRITE)).is_ok() {
                if kernel.endpoints.contains_key(&eid) {
                    eid
                } else {
                    kernel.processes.put(proc);
                    assert(kernel.processes@.dom() =~= old(kernel).processes@.dom());
                    return Outcome {
                        result: Err(SyscallError::IpcError(IpcError::InvalidEndpoint)),
                        switch: None,
                    };
                }
            } else {
                kernel.processes.put(proc);
                assert(kernel.processes@.dom() =~= old(kernel).processes@.dom());
                return Outcome {
                    result: Err(SyscallError::RightsError(RightsError::NoWrite)),
                    switch: None,
                };
            }
        },
        _ => {
            kernel.processes.put(proc);
            assert(kernel.processes@.dom() =~= old(kernel).processes@.dom());
            return Outcome { result: Err(SyscallError::InvalidObject), switch: None };
        },
    };
    let mut endpoint = match kernel.endpoints.remove(&eid) {
        Some(e) => e,
        None => vstd::pervasive::unreached(),
    };
    let ghost e0 = endpoint;
    let ghost p_before = proc;
    let ghost tab_before = kernel.processes@;
    let status = endpoint.write(message, &mut proc, &mut kernel.processes);
    let ghost p_after = proc;
    let ghost tab_after = kernel.processes@;
    let result = match status {
        Ok(s) => Ok([s.value(), 0, 0, 0, 0, 0]),
        Err(e) => Err(e),
    };
    let receiver = endpoint.waiting_receiver.take();
    kernel.endpoints.insert(eid, endpoint);
    kernel.processes.put(proc);
    proof {
        assert(kernel.processes@.dom() =~= old(kernel).processes@.dom());
        assert(kernel.endpoints@.dom() =~= old(kernel).endpoints@.dom());
    }
    let ghost k_mid = *kernel;
    let switch = match receiver {
        Some(rid) => {
            let _ = kernel.switch_process(rid);
            Some(Switch { from: pid, to: rid })
        },
        None => None,
    };
    let r = Outcome { result, switch };
    assert(usable_endpoint(*old(kernel), cap_id, RIGHTS_WRITE, false) == Some(eid));
    assert(endpoint_cap_error(*old(kernel), cap_id, RIGHTS_WRITE, false) is None);
    assert(e0 == old(kernel).endpoints()[eid]);
    let ghost e1 = kernel.endpoints()[eid];
    assert(e1.waiting_receiver is None);
    assert(e1.message == if e0.message is Some { e0.message } else { Some(message) });
    assert(r.result == if e0.message is Some {
        Err::<[usize; 6], SyscallError>(SyscallError::IpcError(IpcError::Full))
    } else {
        Ok::<[usize; 6], SyscallError>(one_word(if e0.waiting_receiver is Some { 1usize } else { 0usize }))
    });
    assert(kernel.processes().dom() == old(kernel).processes().dom());
    let ghost t0 = old(kernel).processes();
    let ghost t1 = kernel.processes();
    let ghost cur = pid;
    assert(same_but(t0[cur], p_before, Some(cap_id), t0[cur].previous()));
    assert(tab_before == t0.remove(cur));
    assert(k_mid.processes() == tab_after.insert(cur, p_after));
    proof {
        match e0.waiting_receiver {
            Some(rid) => {
                assert(switched(k_mid, *kernel, rid));
                if rid == cur {
                    assert(same_but(t0[cur], t1[cur], None, Some(cur)));
                } else {
                    assert(p_before.id_of() == cur);
                    assert(p_after == p_before);
                    assert(t1.get(cur) == k_mid.processes().get(cur));
                    assert(t1[cur] == p_after);
                    assert(same_but(t0[cur], t1[cur], Some(cap_id), t0[cur].previous()));
                    assert(same_but(t0[rid], t1[rid], None, Some(cur)));
                }
                assert forall|q: ProcessId| q != cur && q != rid implies #[trigger] t1.get(q) == t0.get(q) by {
                    assert(t1.get(q) == k_mid.processes().get(q));
                    assert(k_mid.processes().get(q) == tab_after.get(q));
                    assert(tab_after.get(q) == tab_before.get(q));
                    assert(tab_before.get(q) == t0.get(q));
                }
            },
            None => {
                assert(same_but(t0[cur], t1[cur], Some(cap_id), t0[cur].previous()));
                assert(forall|q: ProcessId| q != cur ==> #[trigger] t1.get(q) == t0.get(q));
            },
        }

    }
    r
}


/// The endpoint that capability `cap_id` of the running process names, if
/// it names an endpoint.
pub open spec fn named_endpoint(k: Kernel, cap_id: CapHandle) -> EndpointId {
    match k.current_cap(cap_id) {
        Some(c) => match c.object {
            KernelObject::Endpoint(eid) => eid,
            KernelObject::ReplyEndpoint(eid) => eid,
            _ => 0,
        },
        None => 0,
    }
}

/// The capability to answer on endpoint `eid` that a receiver gets.
pub open spec fn reply_cap(eid: EndpointId) -> Capability {
    Capability { object: KernelObject::ReplyEndpoint(eid), rights: Rights(RIGHTS_WRITE) }
}

/// `p1` is `p0` with capability `cap` under `p0`'s next handle and blocker
/// `blocker`.
pub open spec fn cap_added(p0: Process, p1: Process, cap: Capability, blocker: Option<CapHandle>) -> bool {
    &&& p1.id_of() == p0.id_of()
    &&& p1.caps() == p0.caps().insert(p0.next_handle(), Some(cap))
    &&& p1.next_handle() == p0.next_handle() + 1
    &&& p1.previous() == p0.previous()
    &&& p1.context() == p0.context()
    &&& p1.exit_code_of() == p0.exit_code_of()
    &&& p1.blocker_of() == blocker
    &&& p1.wf()
}

/// `k1` is `k0` after the running process received on endpoint `eid`: it got
/// a reply capability under its next handle, the sender waiting on the
/// endpoint was unblocked, and the message (if any) moved out of the
/// endpoint, whose receiver is now the running process.
pub open spec fn received(k0: Kernel, k1: Kernel, eid: EndpointId, r: SyscallReturn) -> bool {
    let cur = k0.current();
    let t0 = k0.processes();
    let t1 = k1.processes();
    let p0 = t0[cur];
    let h = p0.next_handle();
    let e0 = k0.endpoints()[eid];
    let snd = e0.waiting_sender;
    &&& r == match e0.message {
        Some(m) => Ok::<[usize; 6], SyscallError>(
            [h, m.data[0], m.data[1], m.data[2], m.data[3], 0],
        ),
        None => Err::<[usize; 6], SyscallError>(SyscallError::IpcError(IpcError::Empty)),
    }
    &&& k1.endpoints() == k0.endpoints().insert(
        eid,
        match e0.message {
            Some(_) => Endpoint { message: None, waiting_sender: snd, waiting_receiver: Some(cur) },
            None => e0,
        },
    )
    &&& t1.dom() == t0.dom()
    &&& cap_added(p0, t1[cur], reply_cap(eid), if snd == Some(cur) { None } else { p0.blocker_of() })
    &&& match snd {
        Some(sid) => sid != cur ==> same_but(t0[sid], t1[sid], None, t0[sid].previous()),
        None => true,
    }
    &&& forall|q: ProcessId| q != cur && Some(q) != snd ==> #[trigger] t1.get(q) == t0.get(q)
    &&& k1.current() == k0.current()
    &&& k1.next_pid() == k0.next_pid()
    &&& k1.next_endpoint() == k0.next_endpoint()
}

/// Receives a message on the endpoint named by capability `cap_id` of the
/// running process, which must carry the read right; returns the handle of
/// a new reply capability and the message's four words.
pub fn handle_sys_recv(kernel: &mut Kernel, cap_id: CapHandle) -> (r: SyscallReturn)
    requires
        old(kernel).wf(),
        old(kernel).has_current(),
        old(kernel).current_process().next_handle() < usize::MAX,
        usable_endpoint(*old(kernel), cap_id, RIGHTS_READ, false) matches Some(eid) ==> (old(
            kernel,
        ).endpoints()[eid].waiting_sender matches Some(sid) ==> old(
            kernel,
        ).processes().contains_key(sid)),
    ensures
        final(kernel).wf(),
        final(kernel).has_current(),
        match endpoint_cap_error(*old(kernel), cap_id, RIGHTS_READ, false) {
            Some(e) => {
                &&& r == Err::<[usize; 6], SyscallError>(e)
                &&& if e == SyscallError::IpcError(IpcError::InvalidEndpoint) {
                    &&& final(kernel).processes() == old(kernel).processes().insert(
                        old(kernel).current(),
                        final(kernel).current_process(),
                    )
                    &&& cap_added(
                        old(kernel).current_process(),
                        final(kernel).current_process(),
                        reply_cap(named_endpoint(*old(kernel), cap_id)),
                        old(kernel).current_process().blocker_of(),
                    )
                    &&& final(kernel).endpoints() == old(kernel).endpoints()
                    &&& final(kernel).current() == old(kernel).current()
                    &&& final(kernel).next_pid() == old(kernel).next_pid()
                    &&& final(kernel).next_endpoint() == old(kernel).next_endpoint()
                } else {
                    unchanged(*old(kernel), *final(kernel))
                }
            },
            None => received(
                *old(kernel),
                *final(kernel),
                usable_endpoint(*old(kernel), cap_id, RIGHTS_READ, false)->0,
                r,
            ),
        },
{
    let pid = kernel.current;
    let cap = match kernel.processes.get(pid).get_cap(cap_id) {
        Ok(c) => c,
        Err(e) => {
            return Err(e);
        },
    };
    let eid = match cap.object {
        KernelObject::Endpoint(eid) => {
            if cap.has_rights(Rights(RIGHTS_READ)).is_ok() {
                eid
            } else {
                return Err(SyscallError::RightsError(RightsError::NoWrite));
            }
        },
        _ => {
            return Err(SyscallError::InvalidObject);
        },
    };
    let reply = Capability { object: KernelObject::ReplyEndpoint(eid), rights: Rights(RIGHTS_WRITE) };
    let mut proc = kernel.processes.take(pid);
    let handle = match proc.insert_cap(reply) {
        Ok(h) => h,
        Err(e) => vstd::pervasive::unreached(),
    };
    if !kernel.endpoints.contains_key(&eid) {
        kernel.processes.put(proc);
        assert(kernel.processes@ =~= old(kernel).processes@.insert(pid, kernel.processes@[pid]));
        return Err(SyscallError::IpcError(IpcError::InvalidEndpoint));
    }
    let mut endpoint = match kernel.endpoints.remove(&eid) {
        Some(e) => e,
        None => vstd::pervasive::unreached(),
    };
    let ghost e0 = endpoint;
    let ghost p_before = proc;
    let ghost tab_before = kernel.processes@;
    let msg = endpoint.read(&mut proc, &mut kernel.processes);
    let ghost p_after = proc;
    let ghost tab_after = kernel.processes@;
    kernel.endpoints.insert(eid, endpoint);
    kernel.processes.put(proc);
    proof {
        let t0 = old(kernel).processes();
        let t1 = kernel.processes();
        assert(t1.dom() =~= t0.dom());
        assert(p_before.id_of() == pid);
        assert(tab_before == t0.remove(pid));
        assert(t1 == tab_after.insert(pid, p_after));
        assert forall|q: ProcessId| q != pid && Some(q) != e0.waiting_sender implies #[trigger] t1.get(q)
            == t0.get(q) by {
            assert(tab_after.get(q) == tab_before.get(q));
        }
        if e0.message is Some {
            assert(kernel.endpoints@ =~= old(kernel).endpoints@.insert(
                eid,
                Endpoint { message: None, waiting_sender: e0.waiting_sender, waiting_receiver: Some(pid) },
            ));
        } else {
            assert(kernel.endpoints@ =~= old(kernel).endpoints@.insert(eid, e0));
        }
    }
    match msg {
        Ok(m) => Ok([handle, m.data[0], m.data[1], m.data[2], m.data[3], 0]),
        Err(e) => Err(e),
    }
}

/// `k1` is `k0` after the running process answered `message` on endpoint
/// `eid` through reply capability `cap_id`: the capability is used up, the
/// running process blocks on it, the endpoint holds the answer unless it
/// already held a message, and the sender waiting on the endpoint is
/// switched to.
pub open spec fn replied(k0: Kernel, k1: Kernel, eid: EndpointId, cap_id: CapHandle, message: Message, r: Outcome) -> bool {
    let cur = k0.current();
    let t0 = k0.processes();
    let t1 = k1.processes();
    let p0 = t0[cur];
    let p1 = t1[cur];
    let e0 = k0.endpoints()[eid];
    let snd = e0.waiting_sender;
    &&& r.result == if e0.message is Some {
        Err::<[usize; 6], SyscallError>(SyscallError::IpcError(IpcError::Full))
    } else {
        Ok::<[usize; 6], SyscallError>(one_word(0))
    }
    &&& k1.endpoints() == k0.endpoints().insert(
        eid,
        Endpoint {
            message: if e0.message is Some { e0.message } else { Some(message) },
            waiting_sender: None,
            waiting_receiver: e0.waiting_receiver,
        },
    )
    &&& t1.dom() == t0.dom()
    &&& p1.id_of() == p0.id_of()
    &&& p1.caps() == p0.caps().insert(cap_id, None)
    &&& p1.next_handle() == p0.next_handle()
    &&& p1.context() == p0.context()
    &&& p1.exit_code_of() == p0.exit_code_of()
    &&& p1.blocker_of() == Some(cap_id)
    &&& p1.wf()
    &&& p1.previous() == if snd == Some(cur) { Some(cur) } else { p0.previous() }
    &&& k1.next_pid() == k0.next_pid()
    &&& k1.next_endpoint() == k0.next_endpoint()
    &&& match snd {
        Some(sid) => {
            &&& r.switch == Some(Switch { from: cur, to: sid })
            &&& k1.current() == sid
            &&& sid != cur ==> same_but(t0[sid], t1[sid], t0[sid].blocker_of(), Some(cur))
        },
        None => r.switch is None && k1.current() == cur,
    }
    &&& forall|q: ProcessId| q != cur && Some(q) != snd ==> #[trigger] t1.get(q) == t0.get(q)
}

/// What `handle_sys_reply` of `message` through capability `cap_id` does,
/// taking `k0` to `k1` with outcome `r`.
pub open spec fn reply_outcome(k0: Kernel, k1: Kernel, cap_id: CapHandle, message: Message, r: Outcome) -> bool {
    match endpoint_cap_error(k0, cap_id, RIGHTS_WRITE, true) {
        Some(e) => {
            &&& r.result == Err::<[usize; 6], SyscallError>(e)
            &&& r.switch is None
            &&& if e == SyscallError::IpcError(IpcError::InvalidEndpoint) {
                let p0 = k0.current_process();
                let p1 = k1.current_process();
                &&& k1.processes() == k0.processes().insert(
                    k0.current(),
                    p1,
                )
                &&& p1.caps() == p0.caps().insert(cap_id, None)
                &&& p1.blocker_of() == Some(cap_id)
                &&& p1.id_of() == p0.id_of()
                &&& p1.next_handle() == p0.next_handle()
                &&& p1.previous() == p0.previous()
                &&& p1.context() == p0.context()
                &&& p1.exit_code_of() == p0.exit_code_of()
                &&& k1.endpoints() == k0.endpoints()
                &&& k1.current() == k0.current()
                &&& k1.next_pid() == k0.next_pid()
                &&& k1.next_endpoint() == k0.next_endpoint()
            } else {
                only_blocker_set(k0, k1, cap_id)
            }
        },
        None => replied(
            k0,
            k1,
            usable_endpoint(k0, cap_id, RIGHTS_WRITE, true)->0,
            cap_id,
            message,
            r,
        ),
    }
}

/// Answers `message` through the reply capability `cap_id` of the running
/// process, which must carry the write right; the capability is used up.
/// Switches to the sender waiting on the endpoint.
pub fn handle_sys_reply(kernel: &mut Kernel, cap_id: CapHandle, message: Message) -> (r: Outcome)
    requires
        old(kernel).wf(),
        old(kernel).has_current(),
        usable_endpoint(*old(kernel), cap_id, RIGHTS_WRITE, true) matches Some(eid) ==> (old(
            kernel,
        ).endpoints()[eid].waiting_sender matches Some(sid) ==> old(
            kernel,
        ).processes().contains_key(sid)),
    ensures
        final(kernel).wf(),
        final(kernel).has_current(),
        reply_outcome(*old(kernel), *final(kernel), cap_id, message, r),
{
    let pid = kernel.current;
    let mut proc = kernel.processes.take(pid);
    proc.set_blocker(Some(cap_id));
    let cap = match proc.get_cap(cap_id) {
        Ok(c) => c,
        Err(e) => {
            kernel.processes.put(proc);
            assert(kernel.processes@.dom() =~= old(kernel).processes@.dom());
            return Outcome { result: Err(e), switch: None };
        },
    };
    let eid = match cap.object {
        KernelObject::ReplyEndpoint(eid) => {
            if cap.has_rights(Rights(RIGHTS_WRITE)).is_ok() {
                let _ = proc.remove_cap(cap_id);
                if kernel.endpoints.contains_key(&eid) {
                    eid
                } else {
                    kernel.processes.put(proc);
                    assert(kernel.processes@ =~= old(kernel).processes@.insert(pid, kernel.processes@[pid]));
                    return Outcome {
                        result: Err(SyscallError::IpcError(IpcError::InvalidEndpoint)),
                        switch: None,
                    };
                }
            } else {
                kernel.processes.put(proc);
                assert(kernel.processes@.dom() =~= old(kernel).processes@.dom());
                return Outcome {
                    result: Err(SyscallError::RightsError(RightsError::NoWrite)),
                    switch: None,
                };
            }
        },
        _ => {
            kernel.processes.put(proc);
            assert(kernel.processes@.dom() =~= old(kernel).processes@.dom());
            return Outcome { result: Err(SyscallError::InvalidObject), switch: None };
        },
    };
    let mut endpoint = match kernel.endpoints.remove(&eid) {
        Some(e) => e,
        None => vstd::pervasive::unreached(),
    };
    let ghost e0 = endpoint;
    let res = endpoint.reply(message);
    let result = match res {
        Ok(_) => Ok([0, 0, 0, 0, 0, 0]),
        Err(e) => Err(e),
    };
    let sender = endpoint.waiting_sender.take();
    kernel.endpoints.insert(eid, endpoint);
    let ghost p_mid = proc;
    kernel.processes.put(proc);
    proof {
        assert(kernel.processes@.dom() =~= old(kernel).processes@.dom());
        assert(kernel.endpoints@ =~= old(kernel).endpoints@.insert(
            eid,
            Endpoint {
                message: if e0.message is Some { e0.message } else { Some(message) },
                waiting_sender: None,
                waiting_receiver: e0.waiting_receiver,
            },
        ));
    }
    let ghost k_mid = *kernel;
    let switch = match sender {
        Some(sid) => {
            let _ = kernel.switch_process(sid);
            Some(Switch { from: pid, to: sid })
        },
        None => None,
    };
    let r = Outcome { result, switch };
    proof {
        let t0 = old(kernel).processes();
        let t1 = kernel.processes();
        assert(k_mid.processes() == old(kernel).processes().insert(pid, p_mid));
        let p0 = t0[pid];
        assert(p_mid.caps() == p0.caps().insert(cap_id, None));
        assert(p_mid.blocker_of() == Some(cap_id));
        assert(p_mid.previous() == p0.previous());
        match e0.waiting_sender {
            Some(sid) => {
                assert(switched(k_mid, *kernel, sid));
                if sid == pid {
                    assert(t1[pid].previous() == Some(pid));
                } else {
                    assert(t1.get(pid) == k_mid.processes().get(pid));
                    assert(t1[pid] == p_mid);
                }
            },
            None => {
                assert(t1[pid] == p_mid);
            },
        }
        assert(usable_endpoint(*old(kernel), cap_id, RIGHTS_WRITE, true) == Some(eid));
        assert forall|q: ProcessId| q != pid && Some(q) != e0.waiting_sender implies #[trigger] t1.get(q)
            == t0.get(q) by {
            assert(t1.get(q) == k_mid.processes().get(q));
        }
    }
    r
}

/// What handling `call` needs of the kernel besides `wf`: the running
/// process exists, has room for a new handle where the call hands one out,
/// and each process that the call would switch to, unblock or give a
/// capability exists.
pub open spec fn call_ok(k: Kernel, call: Syscall) -> bool {
    &&& k.has_current()
    &&& match call {
        Syscall::Switch { process } => (k.current_cap(process) matches Some(c) ==> (
        c.object matches KernelObject::Process(next) ==> (c.rights.0 & RIGHTS_EXEC != 0
            ==> k.processes().contains_key(next)))),
        Syscall::GetPid => true,
        Syscall::Log { .. } => true,
        Syscall::Yield => (k.current_process().previous() matches Some(pid)
            ==> k.processes().contains_key(pid)),
        Syscall::Spawn { .. } => k.next_pid() != k.current() ==> k.current_process().next_handle()
            < usize::MAX,
        Syscall::DeriveCap { .. } => k.current_process().next_handle() < usize::MAX,
        Syscall::CreateEndpoint => k.current_process().next_handle() < usize::MAX,
        Syscall::MoveCap { process, cap } => {
            &&& k.current_process().caps().contains_key(cap)
            &&& k.current_process().next_handle() < usize::MAX
            &&& move_target_ok(
                k.current_process(),
                cap,
                process,
                k.processes().remove(k.current()),
            )
        },
        Syscall::Send { endpoint, .. } => (usable_endpoint(k, endpoint, RIGHTS_WRITE, false) matches Some(
            eid,
        ) ==> (k.endpoints()[eid].waiting_receiver matches Some(rid) ==> k.processes().contains_key(
            rid,
        ))),
        Syscall::Recv { endpoint } => {
            &&& k.current_process().next_handle() < usize::MAX
            &&& (usable_endpoint(k, endpoint, RIGHTS_READ, false) matches Some(eid) ==> (
            k.endpoints()[eid].waiting_sender matches Some(sid) ==> k.processes().contains_key(
                sid,
            )))
        },
        Syscall::Reply { endpoint, .. } => (usable_endpoint(k, endpoint, RIGHTS_WRITE, true) matches Some(
            eid,
        ) ==> (k.endpoints()[eid].waiting_sender matches Some(sid) ==> k.processes().contains_key(
            sid,
        ))),
    }
}

impl Kernel {
    /// Capability `cap_id` of the running process, if the slot holds one.
    fn current_cap_of(&self, cap_id: CapHandle) -> (r: Option<Capability>)
        requires
            self.has_current(),
        ensures
            r == self.current_cap(cap_id),
    {
        match self.processes.get(self.current).cap_slot(cap_id) {
            Some(slot) => slot,
            None => None,
        }
    }

    /// The endpoint that capability `cap_id` of the running process names,
    /// when it is usable for `rights` (see `usable_endpoint`).
    fn usable_endpoint_of(&self, cap_id: CapHandle, rights: u8, reply: bool) -> (r: Option<
        EndpointId,
    >)
        requires
            self.has_current(),
        ensures
            r == usable_endpoint(*self, cap_id, rights, reply),
    {
        match self.current_cap_of(cap_id) {
            Some(c) => match c.object {
                KernelObject::Endpoint(eid) => if !reply && c.rights.0 & rights != 0
                    && self.endpoint(eid).is_some() {
                    Some(eid)
                } else {
                    None
                },
                KernelObject::ReplyEndpoint(eid) => if reply && c.rights.0 & rights != 0
                    && self.endpoint(eid).is_some() {
                    Some(eid)
                } else {
                    None
                },
                _ => None,
            },
            None => None,
        }
    }

    /// Whether process `pid` exists.
    pub fn has_process(&self, pid: ProcessId) -> (r: bool)
        ensures
            r == self.processes().contains_key(pid),
    {
        self.processes.contains(pid)
    }

    /// Whether `who`, when some process waits, is a process of the table.
    fn waiter_exists(&self, who: Option<ProcessId>) -> (r: bool)
        ensures
            r == (who matches Some(pid) ==> self.processes().contains_key(pid)),
    {
        match who {
            Some(pid) => self.processes.contains(pid),
            None => true,
        }
    }

    /// Whether the kernel can carry out `call` in its present state (see
    /// `call_ok`); the handlers need this, and the caller fails the call
    /// where it does not hold.
    pub fn accepts(&self, call: Syscall) -> (r: bool)
        requires
            self.wf(),
        ensures
            r == call_ok(*self, call),
    {
        if !self.processes.contains(self.current) {
            return false;
        }
        let p = self.processes.get(self.current);
        let room = p.next_cap_handle() < usize::MAX;
        match call {
            Syscall::Switch { process } => match self.current_cap_of(process) {
                Some(c) => match c.object {
                    KernelObject::Process(next) => c.rights.0 & RIGHTS_EXEC == 0
                        || self.processes.contains(next),
                    _ => true,
                },
                None => true,
            },
            Syscall::GetPid => true,
            Syscall::Log { .. } => true,
            Syscall::Yield => self.waiter_exists(p.previous_process()),
            Syscall::Spawn { .. } => self.next_process_id == self.current || room,
            Syscall::DeriveCap { .. } => room,
            Syscall::CreateEndpoint => room,
            Syscall::MoveCap { process, cap } => match p.cap_slot(cap) {
                None => false,
                Some(None) => room,
                Some(Some(_)) => {
                    let target = if process == cap {
                        None
                    } else {
                        match p.cap_slot(process) {
                            Some(Some(c)) => match c.object {
                                KernelObject::Process(pid) => Some(pid),
                                _ => None,
                            },
                            _ => None,
                        }
                    };
                    room && match target {
                        Some(pid) => pid == self.current || (self.processes.contains(pid)
                            && self.processes.get(pid).next_cap_handle() < usize::MAX),
                        None => true,
                    }
                },
            },
            Syscall::Send { endpoint, .. } => match self.usable_endpoint_of(
                endpoint,
                RIGHTS_WRITE,
                false,
            ) {
                Some(eid) => match self.endpoint(eid) {
                    Some(e) => self.waiter_exists(e.waiting_receiver),
                    None => true,
                },
                None => true,
            },
            Syscall::Recv { endpoint } => room && match self.usable_endpoint_of(
                endpoint,
                RIGHTS_READ,
                false,
            ) {
                Some(eid) => match self.endpoint(eid) {
                    Some(e) => self.waiter_exists(e.waiting_sender),
                    None => true,
                },
                None => true,
            },
            Syscall::Reply { endpoint, .. } => match self.usable_endpoint_of(
                endpoint,
                RIGHTS_WRITE,
                true,
            ) {
                Some(eid) => match self.endpoint(eid) {
                    Some(e) => self.waiter_exists(e.waiting_sender),
                    None => true,
                },
                None => true,
            },
        }
    }
}

/// Law: a message sent through an endpoint that held none is what the next
/// receive on that endpoint returns, after the handle of the new reply
/// capability; the send succeeds and the receive leaves the endpoint empty.
pub proof fn lemma_send_then_recv(
    k0: Kernel,
    k1: Kernel,
    k2: Kernel,
    eid: EndpointId,
    cap_id: CapHandle,
    message: Message,
    r1: Outcome,
    r2: SyscallReturn,
)
    requires
        k0.endpoints().contains_key(eid),
        k0.endpoints()[eid].message is None,
        sent(k0, k1, eid, cap_id, message, r1),
        received(k1, k2, eid, r2),
    ensures
        r1.result is Ok,
        r2 == Ok::<[usize; 6], SyscallError>(
            [
                k1.current_process().next_handle(),
                message.data[0],
                message.data[1],
                message.data[2],
                message.data[3],
                0,
            ],
        ),
        k2.endpoints()[eid].message is None,
{
}

/// Law: a reply through an endpoint that held no message is what the next
/// receive on that endpoint returns; the reply succeeds.
pub proof fn lemma_reply_then_recv(
    k0: Kernel,
    k1: Kernel,
    k2: Kernel,
    eid: EndpointId,
    cap_id: CapHandle,
    message: Message,
    r1: Outcome,
    r2: SyscallReturn,
)
    requires
        k0.endpoints().contains_key(eid),
        k0.endpoints()[eid].message is None,
        replied(k0, k1, eid, cap_id, message, r1),
        received(k1, k2, eid, r2),
    ensures
        r1.result is Ok,
        r2 == Ok::<[usize; 6], SyscallError>(
            [
                k1.current_process().next_handle(),
                message.data[0],
                message.data[1],
                message.data[2],
                message.data[3],
                0,
            ],
        ),
        k2.endpoints()[eid].message is None,
{
}

/// Law: after a switch to a process, a yield from that process succeeds
/// and gives the processor back to the process that switched, with the
/// endpoints as they were.
pub proof fn lemma_switch_then_yield(
    k0: Kernel,
    k1: Kernel,
    k2: Kernel,
    next: ProcessId,
    r: Outcome,
)
    requires
        k0.has_current(),
        k0.processes().contains_key(next),
        switched(k0, k1, next),
        match k1.current_process().previous() {
            Some(pid) => {
                &&& r.result == Ok::<[usize; 6], SyscallError>(one_word(0))
                &&& r.switch == Some(Switch { from: k1.current(), to: pid })
                &&& switched(k1, k2, pid)
            },
            None => r.result == Err::<[usize; 6], SyscallError>(SyscallError::Unknown)
                && r.switch is None && unchanged(k1, k2),
        },
    ensures
        r.result is Ok,
        r.switch == Some(Switch { from: next, to: k0.current() }),
        k2.current() == k0.current(),
        k2.endpoints() == k0.endpoints(),
        k2.processes().dom() == k0.processes().dom(),
{
}

/// Law: a reply capability serves one reply. After a reply through
/// capability `cap_id` succeeds, a second reply through the same handle by
/// the same process, whose capabilities have not changed since, fails with
/// `NoCap` and switches nowhere.
pub proof fn lemma_reply_cap_used_up(
    k0: Kernel,
    k1: Kernel,
    k2: Kernel,
    k3: Kernel,
    cap_id: CapHandle,
    message: Message,
    message2: Message,
    r1: Outcome,
    r2: Outcome,
)
    requires
        reply_outcome(k0, k1, cap_id, message, r1),
        r1.result is Ok,
        k2.current() == k0.current(),
        k2.has_current(),
        k2.current_process().caps() == k1.processes()[k0.current()].caps(),
        reply_outcome(k2, k3, cap_id, message2, r2),
    ensures
        r2.result == Err::<[usize; 6], SyscallError>(SyscallError::NoCap),
        r2.switch is None,
{
    assert(endpoint_cap_error(k0, cap_id, RIGHTS_WRITE, true) is None);
    assert(k2.current_process().caps().contains_key(cap_id));
    assert(k2.current_cap(cap_id) is None);
}

/// Law: a receive that gets a message hands the receiver, under the handle
/// in the first word it returns, a reply capability on that same endpoint
/// carrying the write right alone (0x2): enough to reply once, not to read,
/// derive or pass it on with more rights. The receiver's other capabilities
/// stay as they were.
pub proof fn lemma_recv_grants_reply_cap(
    k0: Kernel,
    k1: Kernel,
    eid: EndpointId,
    words: [usize; 6],
)
    requires
        k0.wf(),
        k0.has_current(),
        received(k0, k1, eid, Ok::<[usize; 6], SyscallError>(words)),
    ensures
        ({
            let p0 = k0.current_process();
            let p1 = k1.processes()[k0.current()];
            &&& !p0.caps().contains_key(words[0])
            &&& p1.caps() == p0.caps().insert(
                words[0],
                Some(
                    Capability { object: KernelObject::ReplyEndpoint(eid), rights: Rights(0x2) },
                ),
            )
        }),
{
    let p0 = k0.current_process();
    assert(table_wf(k0.processes()));
    assert(k0.processes().contains_key(k0.current()));
    if p0.caps().contains_key(p0.next_handle()) {
        crate::process::lemma_handles_below_next(p0, p0.next_handle());
    }
}

} // verus!
