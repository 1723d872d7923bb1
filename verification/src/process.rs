//! Kernel processes: their saved registers, stacks and capability tables.
use vstd::prelude::*;

use std::collections::BTreeMap;

use vstd::std_specs::iter::IteratorSpec;

use crate::capability::Capability;
use crate::syscall::cap::{CapHandle, Rights};
use crate::syscall::process::ProcessId;
use crate::syscall::{SyscallError, SyscallResult};

verus! {

broadcast use vstd::laws_cmp::group_laws_cmp, vstd::std_specs::btree::group_btree_axioms;

/// Identifier of the first process, which runs the kernel's own task.
pub const KERNEL_TASK_ID: ProcessId = 0;

/// Initial flags of a new process: interrupts enabled (bit 9) and the
/// always-set bit 1.
pub const INITIAL_RFLAGS: usize = 0x202;

/// The registers saved when a process is switched out.
#[derive(Debug, Clone, Copy, PartialEq, Eq, Structural)]
pub struct Context {
    pub r15: usize,
    pub r14: usize,
    pub r13: usize,
    pub r12: usize,
    pub rbx: usize,
    pub rbp: usize,
    pub rip: usize,
    pub rsp: usize,
    pub rflags: usize,
    pub initial_rdi: usize,
    pub initial_rsi: usize,
}

impl Default for Context {
    fn default() -> (r: Self)
        ensures
            r == (Context {
                r15: 0,
                r14: 0,
                r13: 0,
                r12: 0,
                rbx: 0,
                rbp: 0,
                rip: 0,
                rsp: 0,
                rflags: 0,
                initial_rdi: 0,
                initial_rsi: 0,
            }),
    {
        Context {
            r15: 0,
            r14: 0,
            r13: 0,
            r12: 0,
            rbx: 0,
            rbp: 0,
            rip: 0,
            rsp: 0,
            rflags: 0,
            initial_rdi: 0,
            initial_rsi: 0,
        }
    }
}

/// A process: its identifier, saved registers, stack and capabilities.
pub struct Process {
    pub id: ProcessId,
    context: Context,
    stack: Vec<u8>,
    pub exit_code: Option<CapHandle>,
    next_cap: CapHandle,
    pub blocker: Option<CapHandle>,
    caps: BTreeMap<CapHandle, Option<Capability>>,
    previous: Option<ProcessId>,
}

/// The context a new process starts in: at `trampoline`, which calls
/// `entry` with `arg`, on a 16-byte aligned stack top.
pub open spec fn initial_context(entry: usize, arg: usize, stack_top: usize, trampoline: usize) -> Context {
    Context {
        r15: 0,
        r14: 0,
        r13: 0,
        r12: 0,
        rbx: 0,
        rbp: 0,
        rip: trampoline,
        rsp: stack_top & !0xFusize,
        rflags: INITIAL_RFLAGS,
        initial_rdi: entry,
        initial_rsi: arg,
    }
}

impl Process {
    /// The process's identifier.
    pub closed spec fn id_of(&self) -> ProcessId {
        self.id
    }

    /// The exit code, once the process has one.
    pub closed spec fn exit_code_of(&self) -> Option<CapHandle> {
        self.exit_code
    }

    /// The capability the process last blocked on.
    pub closed spec fn blocker_of(&self) -> Option<CapHandle> {
        self.blocker
    }

    /// The capability table: handle to capability, or `None` for a removed one.
    pub closed spec fn caps(&self) -> Map<CapHandle, Option<Capability>> {
        self.caps@
    }

    /// The handle the next inserted capability gets.
    pub closed spec fn next_handle(&self) -> CapHandle {
        self.next_cap
    }

    /// The process that switched to this one most recently.
    pub closed spec fn previous(&self) -> Option<ProcessId> {
        self.previous
    }

    /// The saved registers.
    pub closed spec fn context(&self) -> Context {
        self.context
    }

    /// The process's stack.
    pub closed spec fn stack(&self) -> Seq<u8> {
        self.stack@
    }

    /// Every handle in the table was handed out before the next one.
    pub closed spec fn wf(&self) -> bool {
        forall|h: CapHandle| #[trigger] self.caps@.contains_key(h) ==> h < self.next_cap
    }

    /// Process `id`, to start at `trampoline`, which calls `entry` with
    /// `arg`, on `stack`, whose first byte sits at `stack_address`.
    pub fn new(
        id: ProcessId,
        entry: usize,
        stack: Vec<u8>,
        stack_address: usize,
        arg: usize,
        trampoline: usize,
    ) -> (r: Self)
        requires
            stack_address + stack@.len() <= usize::MAX,
        ensures
            r.wf(),
            r.id_of() == id,
            r.context() == initial_context(entry, arg, (stack_address + stack@.len()) as usize, trampoline),
            r.stack() == stack@,
            r.exit_code_of() is None,
            r.next_handle() == 0,
            r.blocker_of() is None,
            r.caps() == Map::<CapHandle, Option<Capability>>::empty(),
            r.previous() is None,
    {
        let stack_top = stack_address + stack.len();
        let rsp = stack_top & !0xF;
        let mut context = Context::default();
        context.rip = trampoline;
        context.rsp = rsp;
        context.initial_rdi = entry;
        context.initial_rsi = arg;
        context.rflags = INITIAL_RFLAGS;
        Process {
            id,
            stack,
            context,
            exit_code: None,
            next_cap: 0,
            blocker: None,
            caps: BTreeMap::new(),
            previous: None,
        }
    }

    /// Whether the process has an exit code.
    pub fn exited(self) -> (r: bool)
        ensures
            r == self.exit_code_of() is Some,
    {
        self.exit_code.is_some()
    }

    /// Records the process's exit code.
    pub fn set_exit_code(&mut self, exit_code: usize)
        ensures
            final(self).exit_code_of() == Some(exit_code),
            final(self).id_of() == old(self).id_of(),
            final(self).blocker_of() == old(self).blocker_of(),
            final(self).caps() == old(self).caps(),
            final(self).next_handle() == old(self).next_handle(),
            final(self).previous() == old(self).previous(),
            final(self).context() == old(self).context(),
            final(self).wf() == old(self).wf(),
    {
        self.exit_code = Some(exit_code);
        assert(self.caps@ == old(self).caps@ && self.next_cap == old(self).next_cap);
        assert(self.wf() == old(self).wf());
    }

    /// The process's identifier.
    pub fn pid(&self) -> (r: ProcessId)
        ensures
            r == self.id_of(),
    {
        self.id
    }

    /// Records the capability the process blocks on.
    pub fn set_blocker(&mut self, blocker: Option<CapHandle>)
        ensures
            final(self).blocker_of() == blocker,
            final(self).previous() == old(self).previous(),
            final(self).id_of() == old(self).id_of(),
            final(self).exit_code_of() == old(self).exit_code_of(),
            final(self).caps() == old(self).caps(),
            final(self).next_handle() == old(self).next_handle(),
            final(self).context() == old(self).context(),
            final(self).wf() == old(self).wf(),
    {
        self.blocker = blocker;
        assert(self.caps@ == old(self).caps@ && self.next_cap == old(self).next_cap);
        assert(self.wf() == old(self).wf());
    }

    /// Records that `pid` switched to this process.
    pub fn set_previous(&mut self, pid: ProcessId)
        ensures
            final(self).previous() == Some(pid),
            final(self).id_of() == old(self).id_of(),
            final(self).exit_code_of() == old(self).exit_code_of(),
            final(self).blocker_of() == old(self).blocker_of(),
            final(self).caps() == old(self).caps(),
            final(self).next_handle() == old(self).next_handle(),
            final(self).context() == old(self).context(),
            final(self).wf() == old(self).wf(),
    {
        self.previous = Some(pid);
        assert(self.caps@ == old(self).caps@ && self.next_cap == old(self).next_cap);
        assert(self.wf() == old(self).wf());
    }

    /// The process that switched to this one most recently, if any.
    pub fn previous_process(&self) -> (r: Option<ProcessId>)
        ensures
            r == self.previous(),
    {
        self.previous
    }

    /// The saved registers.
    pub fn saved_context(&self) -> (r: Context)
        ensures
            r == self.context(),
    {
        self.context
    }

    /// Replaces the saved registers.
    pub fn set_context(&mut self, context: Context)
        ensures
            final(self).context() == context,
            final(self).id_of() == old(self).id_of(),
            final(self).exit_code_of() == old(self).exit_code_of(),
            final(self).blocker_of() == old(self).blocker_of(),
            final(self).caps() == old(self).caps(),
            final(self).next_handle() == old(self).next_handle(),
            final(self).previous() == old(self).previous(),
            final(self).wf() == old(self).wf(),
    {
        self.context = context;
        assert(self.caps@ == old(self).caps@ && self.next_cap == old(self).next_cap);
        assert(self.wf() == old(self).wf());
    }

    /// The handle the next inserted capability gets.
    pub fn next_cap_handle(&self) -> (r: CapHandle)
        ensures
            r == self.next_handle(),
    {
        self.next_cap
    }

    /// The table slot of `handle`: `None` when it was never handed out,
    /// `Some(None)` when its capability was removed.
    pub fn cap_slot(&self, handle: CapHandle) -> (r: Option<Option<Capability>>)
        ensures
            r == if self.caps().contains_key(handle) {
                Some(self.caps()[handle])
            } else {
                None::<Option<Capability>>
            },
    {
        match self.caps.get(&handle) {
            Some(slot) => Some(*slot),
            None => None,
        }
    }

    /// The capability table in handle order, for the caller to print: each
    /// handle with its slot, every handle of the table once.
    pub fn dump_caps(&self) -> (r: Vec<(CapHandle, Option<Capability>)>)
        ensures
            r@.len() == self.caps().dom().len(),
            forall|i: int|
                0 <= i < r@.len() ==> self.caps().contains_key(#[trigger] r@[i].0) && self.caps()[r@[i].0]
                    == r@[i].1,
            forall|h: CapHandle|
                #[trigger] self.caps().contains_key(h) ==> exists|i: int|
                    0 <= i < r@.len() && #[trigger] r@[i].0 == h,
            forall|i: int, j: int| 0 <= i < j < r@.len() ==> #[trigger] r@[i].0 < #[trigger] r@[j].0,
    {
        let mut out: Vec<(CapHandle, Option<Capability>)> = Vec::new();
        let iter = self.caps.iter();
        let ghost v = IteratorSpec::remaining(&iter);
        for kv in it: iter
            invariant
                it.seq() == v,
                out@.len() == it.index(),
                forall|i: int|
                    0 <= i < it.index() ==> #[trigger] out@[i] == (*it.seq()[i].0, *it.seq()[i].1),
        {
            let (h, slot) = kv;
            out.push((*h, *slot));
        }
        proof {
            assert(out@.len() == v.len());
            assert forall|i: int| 0 <= i < out@.len() implies self.caps().contains_key(
                #[trigger] out@[i].0,
            ) && self.caps()[out@[i].0] == out@[i].1 by {
                assert(self.caps@.contains_key(*v[i].0));
            }
            assert forall|h: CapHandle| #[trigger] self.caps().contains_key(h) implies exists|i: int|
                0 <= i < out@.len() && #[trigger] out@[i].0 == h by {
                assert(v.contains((&h, &self.caps@[h])));
                let i = choose|i: int| 0 <= i < v.len() && v[i] == (&h, &self.caps@[h]);
                assert(out@[i].0 == h);
            }
            let keys = v.map_values(|kv: (&CapHandle, &Option<Capability>)| *kv.0);
            assert(vstd::laws_cmp::obeys_cmp::<CapHandle>());
            assert(vstd::std_specs::btree::key_obeys_cmp_spec::<CapHandle>());
            assert(vstd::std_specs::btree::increasing_seq(keys));
            assert forall|i: int, j: int| 0 <= i < j < out@.len() implies #[trigger] out@[i].0
                < #[trigger] out@[j].0 by {
                assert(keys[i] == out@[i].0 && keys[j] == out@[j].0);
                assert(vstd::std_specs::cmp::OrdSpec::cmp_spec(&keys[i], &keys[j]) is Less);
            }
        }
        out
    }

    /// Stores `cap` under a fresh handle and returns that handle.
    pub fn insert_cap(&mut self, cap: Capability) -> (r: SyscallResult<CapHandle>)
        requires
            old(self).wf(),
            old(self).next_handle() < usize::MAX,
        ensures
            final(self).wf(),
            r == Ok::<CapHandle, SyscallError>(old(self).next_handle()),
            !old(self).caps().contains_key(old(self).next_handle()),
            final(self).caps() == old(self).caps().insert(old(self).next_handle(), Some(cap)),
            final(self).next_handle() == old(self).next_handle() + 1,
            final(self).id_of() == old(self).id_of(),
            final(self).exit_code_of() == old(self).exit_code_of(),
            final(self).blocker_of() == old(self).blocker_of(),
            final(self).previous() == old(self).previous(),
            final(self).context() == old(self).context(),
            final(self).stack() == old(self).stack(),
    {
        let key = self.next_cap;
        self.next_cap = self.next_cap + 1;
        self.caps.insert(key, Some(cap));
        Ok(key)
    }

    /// A copy of the capability with handle `cap_id`.
    pub fn get_cap(&self, cap_id: usize) -> (r: SyscallResult<Capability>)
        ensures
            r == if self.caps().contains_key(cap_id) && self.caps()[cap_id] is Some {
                Ok::<Capability, SyscallError>(self.caps()[cap_id]->0)
            } else {
                Err::<Capability, SyscallError>(SyscallError::NoCap)
            },
    {
        let cap = self.caps.get(&cap_id);
        match cap {
            Some(Some(cap)) => Ok(*cap),
            _ => Err(SyscallError::NoCap),
        }
    }

    /// Empties the slot of `cap_id`, which must have been handed out, and
    /// returns the capability that was in it.
    pub fn remove_cap(&mut self, cap_id: usize) -> (r: SyscallResult<Capability>)
        requires
            old(self).caps().contains_key(cap_id),
        ensures
            final(self).caps() == old(self).caps().insert(cap_id, None),
            r == match old(self).caps()[cap_id] {
                Some(c) => Ok::<Capability, SyscallError>(c),
                None => Err::<Capability, SyscallError>(SyscallError::NoCap),
            },
            final(self).next_handle() == old(self).next_handle(),
            final(self).wf() == old(self).wf(),
            final(self).id_of() == old(self).id_of(),
            final(self).exit_code_of() == old(self).exit_code_of(),
            final(self).blocker_of() == old(self).blocker_of(),
            final(self).previous() == old(self).previous(),
            final(self).context() == old(self).context(),
    {
        let cap = self.caps.insert(cap_id, None);
        assert(self.caps@.dom() =~= old(self).caps@.dom());
        match cap {
            Some(Some(cap)) => Ok(cap),
            _ => Err(SyscallError::NoCap),
        }
    }

    /// Stores, under a fresh handle, a capability derived from `cap_id`
    /// with the rights also in `mask`.
    pub fn derive_cap(&mut self, cap_id: usize, mask: Rights) -> (r: Result<CapHandle, SyscallError>)
        requires
            old(self).wf(),
            old(self).next_handle() < usize::MAX,
        ensures
            final(self).wf(),
            derived_cap(*old(self), *final(self), cap_id, mask, r),
    {
        let cap = self.get_cap(cap_id)?;
        let new_cap = cap.derive(mask)?;
        self.insert_cap(new_cap)
    }
}

impl Process {
    /// The process to switch to when this one yields: the one that switched
    /// to it; fails when there is none.
    pub fn yield_to(&self) -> (r: SyscallResult<ProcessId>)
        ensures
            r == match self.previous() {
                Some(pid) => Ok::<ProcessId, SyscallError>(pid),
                None => Err::<ProcessId, SyscallError>(SyscallError::Unknown),
            },
    {
        match self.previous {
            Some(pid) => Ok(pid),
            None => Err(SyscallError::Unknown),
        }
    }

    /// Moves capability `cap_id` of this process to the process named by
    /// this process's capability `target_process_cap_id`, and returns its
    /// handle there. The capability leaves this process's table first, so a
    /// failed move loses it. The other processes are in `table`.
    pub fn move_cap(
        &mut self,
        cap_id: CapHandle,
        target_process_cap_id: CapHandle,
        table: &mut ProcessTable,
    ) -> (r: Result<CapHandle, SyscallError>)
        requires
            old(self).wf(),
            old(self).caps().contains_key(cap_id),
            old(self).next_handle() < usize::MAX,
            table_wf(old(table)@),
            move_target_ok(*old(self), cap_id, target_process_cap_id, old(table)@),
        ensures
            final(self).wf(),
            table_wf(final(table)@),
            moved_cap(*old(self), *final(self), old(table)@, final(table)@, cap_id, target_process_cap_id, r),
    {
        let cap = self.remove_cap(cap_id)?;
        let proc_cap = self.get_cap(target_process_cap_id)?;
        match proc_cap.object {
            crate::capability::KernelObject::Process(pid) => {
                if pid == self.id {
                    self.insert_cap(cap)
                } else {
                    let mut target = table.take(pid);
                    let r = target.insert_cap(cap);
                    table.put(target);
                    assert(table@.dom() =~= old(table)@.dom());
                    r
                }
            },
            _ => Err(SyscallError::InvalidObject),
        }
    }
}

/// The capability table of `p` once slot `cap_id` is emptied.
pub open spec fn caps_without(p: Process, cap_id: CapHandle) -> Map<CapHandle, Option<Capability>> {
    p.caps().insert(cap_id, None)
}

/// The process that capability `target` of `p` names once slot `cap_id` is
/// emptied, if it names one.
pub open spec fn move_target(p: Process, cap_id: CapHandle, target: CapHandle) -> Option<ProcessId> {
    let caps = caps_without(p, cap_id);
    if caps.contains_key(target) && caps[target] is Some {
        match caps[target]->0.object {
            crate::capability::KernelObject::Process(pid) => Some(pid),
            _ => None,
        }
    } else {
        None
    }
}

/// A move whose target is another process finds it in the table, with room
/// for a new handle.
pub open spec fn move_target_ok(
    p: Process,
    cap_id: CapHandle,
    target: CapHandle,
    table: Map<ProcessId, Process>,
) -> bool {
    p.caps()[cap_id] is Some ==> match move_target(p, cap_id, target) {
        Some(pid) => pid != p.id_of() ==> table.contains_key(pid) && table[pid].next_handle()
            < usize::MAX,
        None => true,
    }
}

/// What `move_cap` does: slot `cap_id` of `p0` is emptied; when it held a
/// capability and `target` names a process, the capability is stored there
/// under that process's next handle, which is returned.
pub open spec fn moved_cap(
    p0: Process,
    p1: Process,
    t0: Map<ProcessId, Process>,
    t1: Map<ProcessId, Process>,
    cap_id: CapHandle,
    target: CapHandle,
    r: Result<CapHandle, SyscallError>,
) -> bool {
    let caps = caps_without(p0, cap_id);
    let removed = p0.caps()[cap_id];
    let unchanged_rest = p1.id_of() == p0.id_of() && p1.previous() == p0.previous()
        && p1.context() == p0.context() && p1.exit_code_of() == p0.exit_code_of()
        && p1.blocker_of() == p0.blocker_of();
    let only_removed = p1.caps() == caps && p1.next_handle() == p0.next_handle() && t1 == t0;
    &&& unchanged_rest
    &&& match removed {
        None => r == Err::<CapHandle, SyscallError>(SyscallError::NoCap) && only_removed,
        Some(c) => if !(caps.contains_key(target) && caps[target] is Some) {
            r == Err::<CapHandle, SyscallError>(SyscallError::NoCap) && only_removed
        } else {
            match move_target(p0, cap_id, target) {
                None => r == Err::<CapHandle, SyscallError>(SyscallError::InvalidObject)
                    && only_removed,
                Some(pid) => if pid == p0.id_of() {
                    &&& r == Ok::<CapHandle, SyscallError>(p0.next_handle())
                    &&& p1.caps() == caps.insert(p0.next_handle(), Some(c))
                    &&& p1.next_handle() == p0.next_handle() + 1
                    &&& t1 == t0
                } else {
                    &&& r == Ok::<CapHandle, SyscallError>(t0[pid].next_handle())
                    &&& p1.caps() == caps
                    &&& p1.next_handle() == p0.next_handle()
                    &&& t1.dom() == t0.dom()
                    &&& cap_inserted(t0[pid], t1[pid], c)
                    &&& forall|q: ProcessId| q != pid ==> #[trigger] t1.get(q) == t0.get(q)
                },
            }
        },
    }
}

/// Law: a capability stored by `insert_cap` is found again under the handle
/// it returned, and no capability that was there before is replaced.
pub proof fn lemma_insert_then_get(before: Process, after: Process, cap: Capability, handle: CapHandle)
    requires
        before.wf(),
        handle == before.next_handle(),
        after.caps() == before.caps().insert(before.next_handle(), Some(cap)),
    ensures
        after.caps().contains_key(handle) && after.caps()[handle] == Some(cap),
        forall|h: CapHandle| #[trigger] before.caps().contains_key(h) ==> after.caps()[h] == before.caps()[h],
{
}


/// What `derive_cap` does: when slot `cap_id` holds a capability with the
/// grant right, a capability on the same object with the rights also in
/// `mask` is stored under the next handle, which is returned; otherwise the
/// process is unchanged and the error says why.
pub open spec fn derived_cap(
    p0: Process,
    p1: Process,
    cap_id: CapHandle,
    mask: Rights,
    r: Result<CapHandle, SyscallError>,
) -> bool {
    let slot_ok = p0.caps().contains_key(cap_id) && p0.caps()[cap_id] is Some;
    let c = p0.caps()[cap_id]->0;
    &&& p1.id_of() == p0.id_of()
    &&& p1.exit_code_of() == p0.exit_code_of()
    &&& p1.blocker_of() == p0.blocker_of()
    &&& p1.previous() == p0.previous()
    &&& p1.context() == p0.context()
    &&& if !slot_ok {
        &&& r == Err::<CapHandle, SyscallError>(SyscallError::NoCap)
        &&& p1.caps() == p0.caps()
        &&& p1.next_handle() == p0.next_handle()
    } else if c.rights.0 & 0x8 == 0 {
        &&& r == Err::<CapHandle, SyscallError>(
            SyscallError::RightsError(crate::syscall::RightsError::NoGrant),
        )
        &&& p1.caps() == p0.caps()
        &&& p1.next_handle() == p0.next_handle()
    } else {
        &&& r == Ok::<CapHandle, SyscallError>(p0.next_handle())
        &&& p1.caps() == p0.caps().insert(
            p0.next_handle(),
            Some(Capability { object: c.object, rights: Rights(c.rights.0 & mask.0) }),
        )
        &&& p1.next_handle() == p0.next_handle() + 1
    }
}

/// Law: a move that succeeds hands the capability over unchanged (same
/// object, same rights) to the process that capability `target` of the mover
/// names, under the handle it returns, adding no other capability there;
/// the mover's slot `cap_id` is emptied and no other process changes.
pub proof fn lemma_move_keeps_capability(
    p0: Process,
    p1: Process,
    t0: Map<ProcessId, Process>,
    t1: Map<ProcessId, Process>,
    cap_id: CapHandle,
    target: CapHandle,
    h: CapHandle,
)
    requires
        p0.wf(),
        p0.caps().contains_key(cap_id),
        move_target_ok(p0, cap_id, target, t0),
        moved_cap(p0, p1, t0, t1, cap_id, target, Ok(h)),
    ensures
        p0.caps()[cap_id] is Some,
        target != cap_id,
        p0.caps().contains_key(target),
        p0.caps()[target] matches Some(tc) && tc.object matches crate::capability::KernelObject::Process(
            pid,
        ) && if pid == p0.id_of() {
            &&& p1.caps() == p0.caps().insert(cap_id, None).insert(h, p0.caps()[cap_id])
            &&& !p0.caps().contains_key(h)
            &&& t1 == t0
        } else {
            &&& p1.caps() == p0.caps().insert(cap_id, None)
            &&& t0.contains_key(pid) && t1.contains_key(pid)
            &&& t1[pid].caps() == t0[pid].caps().insert(h, p0.caps()[cap_id])
            &&& forall|q: ProcessId| q != pid ==> #[trigger] t1.get(q) == t0.get(q)
        },
{
    let caps = caps_without(p0, cap_id);
    assert(caps.contains_key(target) && caps[target] is Some);
    if target == cap_id {
        assert(caps[target] is None);
    }
    assert(caps[target] == p0.caps()[target]);
    if p0.caps().contains_key(p0.next_handle()) {
        assert(p0.next_handle() < p0.next_handle());
    }
}

/// Law: a derive that succeeds stores, under the handle it returns, a
/// capability on the same object whose rights are exactly those of the
/// source that are also in `mask`, so none that the source lacks; the
/// source carries the grant right, and no other slot changes.
pub proof fn lemma_derive_keeps_object(
    p0: Process,
    p1: Process,
    cap_id: CapHandle,
    mask: Rights,
    h: CapHandle,
)
    requires
        derived_cap(p0, p1, cap_id, mask, Ok(h)),
    ensures
        p0.caps().contains_key(cap_id),
        p0.caps()[cap_id] matches Some(c) && {
            &&& c.rights.0 & 0x8 != 0
            &&& h == p0.next_handle()
            &&& p1.caps()[h] matches Some(d) && {
                &&& d.object == c.object
                &&& d.rights.0 == c.rights.0 & mask.0
                &&& d.rights.0 & !c.rights.0 == 0
                &&& d.rights.0 & !mask.0 == 0
            }
            &&& forall|k: CapHandle| k != h ==> #[trigger] p1.caps().get(k) == p0.caps().get(k)
        },
{
    let c = p0.caps()[cap_id]->0;
    let d = Capability { object: c.object, rights: Rights(c.rights.0 & mask.0) };
    crate::capability::lemma_derive_narrows(c, mask, d);
    assert(p1.caps()[h] == Some(d));
}

/// Every handle in the table of a well-formed process was handed out
/// before its next handle.
pub proof fn lemma_handles_below_next(p: Process, h: CapHandle)
    requires
        p.wf(),
        p.caps().contains_key(h),
    ensures
        h < p.next_handle(),
{
}

/// `b` is `a` with blocker `blocker` and previous process `previous`.
pub open spec fn same_but(a: Process, b: Process, blocker: Option<CapHandle>, previous: Option<ProcessId>) -> bool {
    &&& b.id_of() == a.id_of()
    &&& b.caps() == a.caps()
    &&& b.next_handle() == a.next_handle()
    &&& b.context() == a.context()
    &&& b.exit_code_of() == a.exit_code_of()
    &&& b.wf() == a.wf()
    &&& b.blocker_of() == blocker
    &&& b.previous() == previous
}

/// `b` is `a` with at most its blocker changed.
pub open spec fn same_but_blocker(a: Process, b: Process) -> bool {
    &&& b.id_of() == a.id_of()
    &&& b.caps() == a.caps()
    &&& b.next_handle() == a.next_handle()
    &&& b.previous() == a.previous()
    &&& b.context() == a.context()
    &&& b.exit_code_of() == a.exit_code_of()
    &&& b.wf() == a.wf()
}

/// `b` is `a` with `cap` stored under its next handle.
pub open spec fn cap_inserted(a: Process, b: Process, cap: Capability) -> bool {
    &&& b.id_of() == a.id_of()
    &&& b.caps() == a.caps().insert(a.next_handle(), Some(cap))
    &&& b.next_handle() == a.next_handle() + 1
    &&& b.previous() == a.previous()
    &&& b.context() == a.context()
    &&& b.exit_code_of() == a.exit_code_of()
    &&& b.blocker_of() == a.blocker_of()
    &&& b.wf()
}

/// Table `m1` is `m0` with the blocker of process `pid` cleared.
pub open spec fn blocker_cleared(m0: Map<ProcessId, Process>, m1: Map<ProcessId, Process>, pid: ProcessId) -> bool {
    &&& m1.dom() == m0.dom()
    &&& m1[pid].blocker_of() is None
    &&& same_but_blocker(m0[pid], m1[pid])
    &&& forall|q: ProcessId| q != pid ==> #[trigger] m1.get(q) == m0.get(q)
}

/// All processes, by identifier.
pub struct ProcessTable {
    processes: BTreeMap<ProcessId, Process>,
}

impl View for ProcessTable {
    type V = Map<ProcessId, Process>;

    closed spec fn view(&self) -> Map<ProcessId, Process> {
        self.processes@
    }
}

/// Each process is stored under its own identifier and is well formed.
pub open spec fn table_wf(m: Map<ProcessId, Process>) -> bool {
    forall|pid: ProcessId| #[trigger] m.contains_key(pid) ==> m[pid].id_of() == pid && m[pid].wf()
}

impl ProcessTable {
    /// A table without processes.
    pub fn new() -> (r: Self)
        ensures
            r@ == Map::<ProcessId, Process>::empty(),
    {
        ProcessTable { processes: BTreeMap::new() }
    }

    /// Whether process `pid` exists.
    pub fn contains(&self, pid: ProcessId) -> (r: bool)
        ensures
            r == self@.contains_key(pid),
    {
        self.processes.contains_key(&pid)
    }

    /// Process `pid`, which must exist.
    pub fn get(&self, pid: ProcessId) -> (r: &Process)
        requires
            self@.contains_key(pid),
        ensures
            *r == self@[pid],
    {
        match self.processes.get(&pid) {
            Some(p) => p,
            None => vstd::pervasive::unreached(),
        }
    }

    /// Removes process `pid`, which must exist, and hands it out.
    pub fn take(&mut self, pid: ProcessId) -> (r: Process)
        requires
            old(self)@.contains_key(pid),
        ensures
            r == old(self)@[pid],
            final(self)@ == old(self)@.remove(pid),
    {
        match self.processes.remove(&pid) {
            Some(p) => p,
            None => vstd::pervasive::unreached(),
        }
    }

    /// Stores `process` under its identifier, replacing any process there.
    pub fn put(&mut self, process: Process)
        ensures
            final(self)@ == old(self)@.insert(process.id_of(), process),
    {
        let id = process.id;
        self.processes.insert(id, process);
    }

    /// Clears the blocker of process `pid`, which must exist.
    pub fn clear_blocker(&mut self, pid: ProcessId)
        requires
            old(self)@.contains_key(pid),
            table_wf(old(self)@),
        ensures
            table_wf(final(self)@),
            blocker_cleared(old(self)@, final(self)@, pid),
    {
        let mut p = self.take(pid);
        p.set_blocker(None);
        self.put(p);
        assert(self@.dom() =~= old(self)@.dom());
        assert forall|q: ProcessId| q != pid implies #[trigger] self@.get(q) == old(self)@.get(q) by {
        }
    }
}

} // verus!
