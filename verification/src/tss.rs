//! The x86_64 task state segment.
use vstd::prelude::*;

verus! {

/// Size in bytes of the task state segment as the CPU reads it.
pub const TSS_SIZE: u16 = 104;

/// The task state segment: stacks for privilege changes and for interrupts,
/// and the offset of the I/O permission bitmap.
pub struct TaskStateSegment {
    pub reserved_0: u32,
    pub rsp: [u64; 3],
    pub reserved_1: u64,
    pub ist: [u64; 7],
    pub reserved_2: u64,
    pub iopb: u16,
}

impl TaskStateSegment {
    /// A segment with no stacks set and no I/O permission bitmap (the bitmap
    /// offset is the segment's own size).
    pub fn new() -> (r: Self)
        ensures
            r.reserved_0 == 0,
            r.rsp@ == seq![0u64, 0u64, 0u64],
            r.reserved_1 == 0,
            r.ist@ == Seq::new(7, |i: int| 0u64),
            r.reserved_2 == 0,
            r.iopb == TSS_SIZE,
    {
        let r = TaskStateSegment {
            reserved_0: 0,
            rsp: [0u64; 3],
            reserved_1: 0,
            ist: [0u64; 7],
            reserved_2: 0,
            iopb: TSS_SIZE,
        };
        assert(r.rsp@ =~= seq![0u64, 0u64, 0u64]);
        assert(r.ist@ =~= Seq::new(7, |i: int| 0u64));
        r
    }
}

} // verus!
