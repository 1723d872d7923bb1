//! Kernel-side capabilities: the kernel object a capability names and the
//! rights it carries.
use vstd::prelude::*;

use crate::ipc::EndpointId;
use crate::kernel::Kernel;
use crate::process::{Process, KERNEL_TASK_ID};
use crate::syscall::cap::CapHandle;
use crate::paging::PhysicalAddress;
use crate::syscall::cap::{Rights, RIGHTS_RWE};
use crate::syscall::process::ProcessId;
use crate::syscall::{RightsError, SyscallError};

verus! {

/// An object managed by the kernel.
#[derive(Clone, Copy, Debug, PartialEq, Eq, Structural)]
pub enum KernelObject {
    Untyped { addr: PhysicalAddress, size: usize },
    Process(ProcessId),
    Endpoint(EndpointId),
    ReplyEndpoint(EndpointId),
    Frame { addr: PhysicalAddress, size: usize },
}

/// A capability: a kernel object and the rights held on it.
#[derive(Clone, Copy, Debug, PartialEq, Eq, Structural)]
pub struct Capability {
    pub object: KernelObject,
    pub rights: Rights,
}

impl Capability {
    /// A capability on the same object with the rights also in `mask`; only
    /// a capability with the grant right can be derived from.
    pub fn derive(self, mask: Rights) -> (r: Result<Self, SyscallError>)
        ensures
            self.rights.0 & 0x8 == 0 ==> r == Err::<Capability, SyscallError>(
                SyscallError::RightsError(RightsError::NoGrant),
            ),
            self.rights.0 & 0x8 != 0 ==> r == Ok::<Capability, SyscallError>(
                Capability { object: self.object, rights: Rights(self.rights.0 & mask.0) },
            ),
    {
        if !self.rights.grant() {
            return Err(SyscallError::RightsError(RightsError::NoGrant));
        }
        Ok(Capability { object: self.object, rights: self.rights & mask })
    }

    /// Succeeds when at least one of `rights` is held.
    pub fn has_rights(self, rights: Rights) -> (r: Result<(), SyscallError>)
        ensures
            r == if self.rights.0 & rights.0 != 0 {
                Ok::<(), SyscallError>(())
            } else {
                Err::<(), SyscallError>(SyscallError::RightsError(RightsError::Unknown))
            },
    {
        if self.rights.matches(rights) {
            Ok(())
        } else {
            Err(SyscallError::RightsError(RightsError::Unknown))
        }
    }
}

/// Law: a derived capability names the same object and holds no right that
/// the capability it was derived from did not hold.
pub proof fn lemma_derive_narrows(c: Capability, mask: Rights, d: Capability)
    requires
        c.rights.0 & 0x8 != 0,
        d == (Capability { object: c.object, rights: Rights(c.rights.0 & mask.0) }),
    ensures
        d.object == c.object,
        d.rights.0 & !c.rights.0 == 0,
        d.rights.0 & !mask.0 == 0,
{
    let a = c.rights.0;
    let m = mask.0;
    assert((a & m) & !a == 0 && (a & m) & !m == 0) by (bit_vector);
}

/// A memory region as the two addresses that bound it.
pub type Region = [PhysicalAddress; 2];

/// The untyped-memory capability for `size` bytes at `addr`, with read,
/// write and execute rights.
pub open spec fn untyped_cap(addr: usize, size: usize) -> Capability {
    Capability {
        object: KernelObject::Untyped { addr: PhysicalAddress(addr), size },
        rights: Rights(RIGHTS_RWE),
    }
}

/// The parts of `region` below and above the `reserved` region, as
/// untyped-memory capabilities; empty parts give none.
pub open spec fn region_caps(reserved: Region, region: Region) -> Seq<Capability> {
    let (r0, r1) = (region[0].0, region[1].0);
    let (k0, k1) = (reserved[0].0, reserved[1].0);
    let upper = vstd::math::min(r1 as int, k0 as int);
    let lower = vstd::math::max(r0 as int, k1 as int);
    let below = if r0 < k0 && upper - r0 > 0 {
        seq![untyped_cap(r0, (upper - r0) as usize)]
    } else {
        Seq::empty()
    };
    let above = if r1 > k1 && r1 - lower > 0 {
        seq![untyped_cap(lower as usize, (r1 - lower) as usize)]
    } else {
        Seq::empty()
    };
    below + above
}

/// The capabilities for all available regions, in order.
pub open spec fn regions_caps(reserved: Region, regions: Seq<Option<Region>>) -> Seq<Capability>
    decreases regions.len(),
{
    if regions.len() == 0 {
        Seq::empty()
    } else {
        regions_caps(reserved, regions.drop_last()) + match regions.last() {
            Some(r) => region_caps(reserved, r),
            None => Seq::empty(),
        }
    }
}

/// `c` is an untyped-memory capability that lies wholly below or wholly
/// above the `reserved` region.
pub open spec fn untyped_outside(c: Capability, reserved: Region) -> bool {
    c.object matches KernelObject::Untyped { addr, size } && (addr.0 + size <= reserved[0].0
        || addr.0 >= reserved[1].0)
}

/// Law: every capability made for the free regions is untyped memory that
/// lies wholly below or wholly above the reserved region, so none covers
/// memory the kernel occupies.
pub proof fn lemma_untyped_outside_reserved(reserved: Region, regions: Seq<Option<Region>>)
    ensures
        forall|i: int|
            0 <= i < regions_caps(reserved, regions).len() ==> untyped_outside(
                #[trigger] regions_caps(reserved, regions)[i],
                reserved,
            ),
    decreases regions.len(),
{
    if regions.len() > 0 {
        lemma_untyped_outside_reserved(reserved, regions.drop_last());
        let before = regions_caps(reserved, regions.drop_last());
        let last = match regions.last() {
            Some(r) => region_caps(reserved, r),
            None => Seq::empty(),
        };
        assert forall|i: int| 0 <= i < last.len() implies untyped_outside(#[trigger] last[i], reserved) by {
        }
        assert forall|i: int| 0 <= i < before.len() + last.len() implies untyped_outside(
            #[trigger] (before + last)[i],
            reserved,
        ) by {
            if i < before.len() {
                assert((before + last)[i] == before[i]);
            } else {
                assert((before + last)[i] == last[i - before.len()]);
            }
        }
    }
}

/// `c` is an untyped-memory capability for a non-empty part of `region`,
/// with read, write and execute rights.
pub open spec fn untyped_within(c: Capability, region: Region) -> bool {
    &&& c.rights == Rights(RIGHTS_RWE)
    &&& c.object matches KernelObject::Untyped { addr, size } && size > 0 && region[0].0 <= addr.0
        && addr.0 + size <= region[1].0
}

/// Capability `c` covers address `x`: it is untyped memory from which `x`
/// is one of the bytes.
pub open spec fn covers(c: Capability, x: int) -> bool {
    c.object matches KernelObject::Untyped { addr, size } && addr.0 <= x < addr.0 + size
}

/// Address `x` lies in `region` and not in `reserved`.
pub open spec fn free_byte(reserved: Region, region: Region, x: int) -> bool {
    region[0].0 <= x < region[1].0 && (x < reserved[0].0 || x >= reserved[1].0)
}

/// Law: the capabilities made for one free region lie inside it and
/// outside the reserved region, and between them cover every byte of the
/// region that the reserved region does not.
pub proof fn lemma_region_caps_exact(reserved: Region, region: Region)
    ensures
        forall|i: int|
            0 <= i < region_caps(reserved, region).len() ==> {
                &&& untyped_within(#[trigger] region_caps(reserved, region)[i], region)
                &&& untyped_outside(region_caps(reserved, region)[i], reserved)
            },
        forall|x: int|
            #[trigger] free_byte(reserved, region, x) ==> exists|i: int|
                0 <= i < region_caps(reserved, region).len() && covers(
                    #[trigger] region_caps(reserved, region)[i],
                    x,
                ),
{
    let caps = region_caps(reserved, region);
    let (r0, r1) = (region[0].0, region[1].0);
    let (k0, k1) = (reserved[0].0, reserved[1].0);
    let upper = vstd::math::min(r1 as int, k0 as int);
    let lower = vstd::math::max(r0 as int, k1 as int);
    let below = if r0 < k0 && upper - r0 > 0 {
        seq![untyped_cap(r0, (upper - r0) as usize)]
    } else {
        Seq::empty()
    };
    let above = if r1 > k1 && r1 - lower > 0 {
        seq![untyped_cap(lower as usize, (r1 - lower) as usize)]
    } else {
        Seq::empty()
    };
    assert(caps == below + above);
    assert forall|i: int| 0 <= i < caps.len() implies {
        &&& untyped_within(#[trigger] caps[i], region)
        &&& untyped_outside(caps[i], reserved)
    } by {
        if i < below.len() {
            assert(caps[i] == below[i]);
        } else {
            assert(caps[i] == above[i - below.len()]);
        }
    }
    assert forall|x: int| #[trigger] free_byte(reserved, region, x) implies exists|i: int|
        0 <= i < caps.len() && covers(#[trigger] caps[i], x) by {
        if x < k0 {
            assert(caps[0] == below[0]);
            assert(covers(caps[0], x));
        } else {
            assert(caps[below.len() as int] == above[0]);
            assert(covers(caps[below.len() as int], x));
        }
    }
}

/// `c` lies inside one of the regions of `regions`.
pub open spec fn within_some(c: Capability, regions: Seq<Option<Region>>) -> bool {
    exists|j: int|
        0 <= j < regions.len() && #[trigger] regions[j] is Some && untyped_within(c, regions[j]->0)
}

/// Law: every capability made for the free regions lies inside one of the
/// regions that were listed as free.
pub proof fn lemma_untyped_inside_regions(reserved: Region, regions: Seq<Option<Region>>)
    ensures
        forall|i: int|
            0 <= i < regions_caps(reserved, regions).len() ==> within_some(
                #[trigger] regions_caps(reserved, regions)[i],
                regions,
            ),
    decreases regions.len(),
{
    if regions.len() > 0 {
        let init = regions.drop_last();
        lemma_untyped_inside_regions(reserved, init);
        let before = regions_caps(reserved, init);
        let n = regions.len() - 1;
        let last = match regions.last() {
            Some(r) => region_caps(reserved, r),
            None => Seq::empty(),
        };
        let all = regions_caps(reserved, regions);
        assert(all == before + last);
        assert forall|i: int| 0 <= i < all.len() implies within_some(#[trigger] all[i], regions) by {
            if i < before.len() {
                assert(all[i] == before[i]);
                assert(within_some(before[i], init));
                let j = choose|j: int|
                    0 <= j < init.len() && #[trigger] init[j] is Some && untyped_within(
                        before[i],
                        init[j]->0,
                    );
                assert(regions[j] == init[j]);
            } else {
                assert(all[i] == last[i - before.len()]);
                assert(regions[n] == regions.last());
                let r = regions.last()->0;
                assert(regions[n] is Some);
                lemma_region_caps_exact(reserved, r);
                assert(untyped_within(region_caps(reserved, r)[i - before.len()], r));
            }
        }
    }
}

/// A region whose bounds are in order wherever it sticks out of `reserved`.
pub open spec fn region_ok(reserved: Region, region: Region) -> bool {
    (region[0].0 < reserved[0].0 || region[1].0 > reserved[1].0) ==> region[0].0 <= region[1].0
}


/// `m` with the capabilities of `list` stored under handles `next`,
/// `next + 1`, and so on.
pub open spec fn with_caps(
    m: Map<CapHandle, Option<Capability>>,
    next: int,
    list: Seq<Capability>,
) -> Map<CapHandle, Option<Capability>>
    decreases list.len(),
{
    if list.len() == 0 {
        m
    } else {
        with_caps(m, next, list.drop_last()).insert(
            (next + list.len() - 1) as CapHandle,
            Some(list.last()),
        )
    }
}

proof fn lemma_regions_caps_len(reserved: Region, regions: Seq<Option<Region>>)
    ensures
        regions_caps(reserved, regions).len() <= 2 * regions.len(),
    decreases regions.len(),
{
    if regions.len() > 0 {
        lemma_regions_caps_len(reserved, regions.drop_last());
    }
}

fn insert_untyped(task: &mut Process, addr: usize, size: usize)
    requires
        old(task).wf(),
        old(task).next_handle() < usize::MAX,
    ensures
        final(task).wf(),
        final(task).id_of() == old(task).id_of(),
        final(task).next_handle() == old(task).next_handle() + 1,
        final(task).caps() == old(task).caps().insert(old(task).next_handle(), Some(untyped_cap(addr, size))),
        final(task).blocker_of() == old(task).blocker_of(),
        final(task).previous() == old(task).previous(),
        final(task).context() == old(task).context(),
        final(task).exit_code_of() == old(task).exit_code_of(),
{
    let cap = Capability {
        object: KernelObject::Untyped { addr: PhysicalAddress(addr), size },
        rights: Rights(RIGHTS_RWE),
    };
    let _ = task.insert_cap(cap);
}

/// Gives the kernel's own task (process 0) untyped-memory capabilities, with
/// read, write and execute rights, for the parts of each available memory
/// region that lie below and above the region the kernel occupies.
pub fn init(
    kernel: &mut Kernel,
    kernel_memory_region: Option<Region>,
    available_memory_regions: [Option<Region>; 16],
)
    requires
        old(kernel).wf(),
        old(kernel).processes().contains_key(KERNEL_TASK_ID),
        kernel_memory_region is Some,
        forall|i: int|
            0 <= i < 16 ==> (#[trigger] available_memory_regions@[i] matches Some(r) ==> region_ok(
                kernel_memory_region->0,
                r,
            )),
        old(kernel).processes()[KERNEL_TASK_ID].next_handle() + regions_caps(
            kernel_memory_region->0,
            available_memory_regions@,
        ).len() <= usize::MAX,
    ensures
        final(kernel).wf(),
        ({
            let p0 = old(kernel).processes()[KERNEL_TASK_ID];
            let p1 = final(kernel).processes()[KERNEL_TASK_ID];
            let list = regions_caps(kernel_memory_region->0, available_memory_regions@);
            &&& final(kernel).processes() == old(kernel).processes().insert(KERNEL_TASK_ID, p1)
            &&& p1.caps() == with_caps(p0.caps(), p0.next_handle() as int, list)
            &&& p1.next_handle() == p0.next_handle() + list.len()
            &&& p1.id_of() == p0.id_of()
            &&& p1.blocker_of() == p0.blocker_of()
            &&& p1.previous() == p0.previous()
            &&& p1.context() == p0.context()
            &&& p1.exit_code_of() == p0.exit_code_of()
        }),
        final(kernel).endpoints() == old(kernel).endpoints(),
        final(kernel).current() == old(kernel).current(),
        final(kernel).next_pid() == old(kernel).next_pid(),
        final(kernel).next_endpoint() == old(kernel).next_endpoint(),
{
    let reserved = match kernel_memory_region {
        Some(r) => r,
        None => vstd::pervasive::unreached(),
    };
    let mut task = kernel.take_process(KERNEL_TASK_ID);
    let ghost p0 = task;
    let ghost all = available_memory_regions@;
    let mut i: usize = 0;
    while i < 16
        invariant
            i <= 16,
            all == available_memory_regions@,
            all.len() == 16,
            kernel_memory_region == Some(reserved),
            forall|j: int| 0 <= j < 16 ==> (#[trigger] all[j] matches Some(r) ==> region_ok(reserved, r)),
            p0.next_handle() + regions_caps(reserved, all).len() <= usize::MAX,
            task.wf(),
            task.id_of() == p0.id_of(),
            task.blocker_of() == p0.blocker_of(),
            task.previous() == p0.previous(),
            task.context() == p0.context(),
            task.exit_code_of() == p0.exit_code_of(),
            task.next_handle() == p0.next_handle() + regions_caps(reserved, all.take(i as int)).len(),
            task.caps() == with_caps(p0.caps(), p0.next_handle() as int, regions_caps(reserved, all.take(i as int))),
        decreases 16 - i,
    {
        let ghost before = regions_caps(reserved, all.take(i as int));
        proof {
            assert(all.take(i + 1).drop_last() =~= all.take(i as int));
            assert(all.take(i + 1).last() == all[i as int]);
            lemma_regions_caps_prefix(reserved, all, i as int + 1);
        }
        if let Some(region) = available_memory_regions[i] {
            let ghost rc = region_caps(reserved, region);
            if region[0].0 < reserved[0].0 {
                let upper = if region[1].0 < reserved[0].0 { region[1] } else { reserved[0] };
                let size = upper.sub(region[0]);
                if size > 0 {
                    insert_untyped(&mut task, region[0].0, size);
                    proof {
                        assert(before.push(untyped_cap(region[0].0, size)).drop_last() =~= before);
                    }
                }
            }
            let ghost mid = if region[0].0 < reserved[0].0 && vstd::math::min(region[1].0 as int, reserved[0].0 as int) - region[0].0 > 0 {
                before.push(untyped_cap(region[0].0, (vstd::math::min(region[1].0 as int, reserved[0].0 as int) - region[0].0) as usize))
            } else {
                before
            };
            assert(task.caps() == with_caps(p0.caps(), p0.next_handle() as int, mid));
            assert(task.next_handle() == p0.next_handle() + mid.len());
            if region[1].0 > reserved[1].0 {
                let lower = if region[0].0 < reserved[1].0 { reserved[1] } else { region[0] };
                let size = region[1].sub(lower);
                if size > 0 {
                    insert_untyped(&mut task, lower.0, size);
                    proof {
                        assert(mid.push(untyped_cap(lower.0, size)).drop_last() =~= mid);
                    }
                }
            }
            let ghost fin = if region[1].0 > reserved[1].0 && region[1].0 - vstd::math::max(region[0].0 as int, reserved[1].0 as int) > 0 {
                mid.push(untyped_cap(vstd::math::max(region[0].0 as int, reserved[1].0 as int) as usize, (region[1].0 - vstd::math::max(region[0].0 as int, reserved[1].0 as int)) as usize))
            } else {
                mid
            };
            assert(task.caps() == with_caps(p0.caps(), p0.next_handle() as int, fin));
            assert(task.next_handle() == p0.next_handle() + fin.len());
            proof {
                let after = regions_caps(reserved, all.take(i + 1));
                assert(after =~= before + rc);
                assert(fin =~= before + rc);
            }
        } else {
            proof {
                assert(regions_caps(reserved, all.take(i + 1)) =~= before);
            }
        }
        i = i + 1;
    }
    proof {
        assert(all.take(16) =~= all);
    }
    kernel.put_process(task);
}

proof fn lemma_regions_caps_prefix(reserved: Region, all: Seq<Option<Region>>, n: int)
    requires
        0 <= n <= all.len(),
    ensures
        regions_caps(reserved, all.take(n)).len() <= regions_caps(reserved, all).len(),
    decreases all.len() - n,
{
    if n < all.len() {
        lemma_regions_caps_prefix(reserved, all, n + 1);
        assert(all.take(n + 1).drop_last() =~= all.take(n));
    } else {
        assert(all.take(n) =~= all);
    }
}

} // verus!
