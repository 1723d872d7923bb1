//! The kernel heap: a bump allocator that hands out ever higher addresses
//! and forgets them all at once when the last allocation is freed.
use vstd::prelude::*;

verus! {

/// The address `align_up` gives for `addr`: unchanged when `addr & align`
/// is zero, else moved down by `addr & align` and up by `align`.
pub open spec fn aligned(addr: usize, align: usize) -> int {
    let remainder = addr & align;
    if remainder == 0 {
        addr as int
    } else {
        addr - remainder + align
    }
}

/// The bits that `addr` and `align` share are no more than either of them.
proof fn lemma_shared_bits(addr: usize, align: usize)
    ensures
        addr & align <= addr,
        addr & align <= align,
        aligned(addr, align) >= addr,
{
    assert((addr & align) <= addr && (addr & align) <= align) by (bit_vector);
}

/// `addr` when `addr & align` is zero, else `addr - (addr & align) + align`:
/// never below `addr`, but a multiple of `align` only in some cases (for a
/// power of two `align`, `addr & align` tests the single bit of `align`, so
/// an `addr` without that bit comes back unchanged, aligned or not).
pub fn align_up(addr: usize, align: usize) -> (r: usize)
    requires
        aligned(addr, align) <= usize::MAX,
    ensures
        r == aligned(addr, align),
        r >= addr,
{
    let remainder = addr & align;
    proof {
        lemma_shared_bits(addr, align);
    }
    if remainder == 0 {
        addr
    } else {
        addr - remainder + align
    }
}

/// What the heap hands out and takes back.
pub trait Allocator {
    /// Whether a request for `align` can be served without overflowing the
    /// address arithmetic.
    spec fn can_alloc(&self, align: usize) -> bool;

    /// Whether an allocation is outstanding, so that one can be freed.
    spec fn can_dealloc(&self) -> bool;

    /// The start of `size` fresh bytes, or 0 when none are left.
    fn allocate(&mut self, size: usize, align: usize) -> (addr: usize)
        requires
            old(self).can_alloc(align),
    ;

    /// Gives back the allocation at `addr`.
    fn deallocate(&mut self, addr: usize, size: usize, align: usize)
        requires
            old(self).can_dealloc(),
    ;
}

/// A heap between `heap_start` and `heap_end` that only ever moves its
/// `next` free address up, and counts the allocations still in use.
pub struct BumpAllocator {
    heap_start: usize,
    heap_end: usize,
    next: usize,
    allocations: usize,
}

impl BumpAllocator {
    /// The first address of the heap.
    pub closed spec fn start(&self) -> usize {
        self.heap_start
    }

    /// The address just past the heap.
    pub closed spec fn end(&self) -> usize {
        self.heap_end
    }

    /// The first address not yet handed out.
    pub closed spec fn next_free(&self) -> usize {
        self.next
    }

    /// How many allocations are still in use.
    pub closed spec fn live(&self) -> usize {
        self.allocations
    }

    /// An allocator over an empty heap at address 0.
    pub fn new() -> (a: Self)
        ensures
            a.start() == 0,
            a.end() == 0,
            a.next_free() == 0,
            a.live() == 0,
    {
        BumpAllocator { heap_start: 0, heap_end: 0, next: 0, allocations: 0 }
    }

    /// Hands the allocator the heap from `start` to `end`, forgetting any
    /// earlier allocation.
    pub fn init(&mut self, start: usize, end: usize)
        ensures
            final(self).start() == start,
            final(self).end() == end,
            final(self).next_free() == start,
            final(self).live() == 0,
    {
        self.heap_start = start;
        self.heap_end = end;
        self.next = start;
        self.allocations = 0;
    }
}

impl Allocator for BumpAllocator {
    open spec fn can_alloc(&self, align: usize) -> bool {
        &&& aligned(self.next_free(), align) <= usize::MAX
        &&& self.live() < usize::MAX
    }

    open spec fn can_dealloc(&self) -> bool {
        self.live() > 0
    }

    /// Serves the request at the aligned `next` address when it ends within
    /// the heap; then `next` moves past it.
    fn allocate(&mut self, size: usize, align: usize) -> (addr: usize)
        ensures
            ({
                let start = aligned(old(self).next_free(), align);
                if start + size <= old(self).end() {
                    &&& addr == start
                    &&& final(self).next_free() == start + size
                    &&& final(self).live() == old(self).live() + 1
                } else {
                    &&& addr == 0
                    &&& final(self).next_free() == old(self).next_free()
                    &&& final(self).live() == old(self).live()
                }
            }),
            final(self).start() == old(self).start(),
            final(self).end() == old(self).end(),
    {
        let alloc_start = align_up(self.next, align);
        let alloc_end = match alloc_start.checked_add(size) {
            Some(end) => end,
            None => return 0,
        };
        if alloc_end > self.heap_end {
            0
        } else {
            self.next = alloc_end;
            self.allocations = self.allocations + 1;
            alloc_start
        }
    }

    /// One allocation fewer; when none is left, the whole heap is free again.
    fn deallocate(&mut self, addr: usize, size: usize, align: usize)
        ensures
            final(self).live() == old(self).live() - 1,
            final(self).next_free() == if old(self).live() == 1 {
                old(self).start()
            } else {
                old(self).next_free()
            },
            final(self).start() == old(self).start(),
            final(self).end() == old(self).end(),
    {
        self.allocations = self.allocations - 1;
        if self.allocations == 0 {
            self.next = self.heap_start;
        }
    }
}

/// `after` is `before` once an allocation of `size` bytes for `align`
/// succeeded at `addr`.
pub open spec fn allocated(
    before: BumpAllocator,
    after: BumpAllocator,
    size: usize,
    align: usize,
    addr: usize,
) -> bool {
    &&& addr == aligned(before.next_free(), align)
    &&& addr + size <= before.end()
    &&& after.next_free() == addr + size
    &&& after.start() == before.start()
    &&& after.end() == before.end()
}

proof fn lemma_allocations_below(
    heaps: Seq<BumpAllocator>,
    sizes: Seq<usize>,
    aligns: Seq<usize>,
    addrs: Seq<usize>,
    j: int,
)
    requires
        heaps.len() == addrs.len() + 1,
        sizes.len() == addrs.len(),
        aligns.len() == addrs.len(),
        heaps[0].start() <= heaps[0].next_free(),
        forall|i: int|
            0 <= i < addrs.len() ==> allocated(
                heaps[i],
                heaps[i + 1],
                sizes[i],
                aligns[i],
                #[trigger] addrs[i],
            ),
        0 <= j <= addrs.len(),
    ensures
        heaps[j].start() == heaps[0].start(),
        heaps[j].end() == heaps[0].end(),
        heaps[0].next_free() <= heaps[j].next_free(),
        forall|i: int|
            0 <= i < j ==> heaps[0].start() <= #[trigger] addrs[i] && addrs[i] + sizes[i]
                <= heaps[j].next_free() && heaps[j].next_free() <= heaps[0].end(),
    decreases j,
{
    if j > 0 {
        lemma_allocations_below(heaps, sizes, aligns, addrs, j - 1);
        assert(allocated(heaps[j - 1], heaps[j], sizes[j - 1], aligns[j - 1], addrs[j - 1]));
        lemma_shared_bits(heaps[j - 1].next_free(), aligns[j - 1]);
    }
}

/// Law: allocations that succeed one after another, with no free between
/// them, lie inside the heap and do not overlap; each starts at or after
/// the end of every earlier one. `heaps` holds the allocator before and
/// after each allocation, whose next free address starts inside the heap.
pub proof fn lemma_allocations_disjoint(
    heaps: Seq<BumpAllocator>,
    sizes: Seq<usize>,
    aligns: Seq<usize>,
    addrs: Seq<usize>,
)
    requires
        heaps.len() == addrs.len() + 1,
        sizes.len() == addrs.len(),
        aligns.len() == addrs.len(),
        heaps[0].start() <= heaps[0].next_free(),
        forall|i: int|
            0 <= i < addrs.len() ==> allocated(
                heaps[i],
                heaps[i + 1],
                sizes[i],
                aligns[i],
                #[trigger] addrs[i],
            ),
    ensures
        forall|i: int|
            0 <= i < addrs.len() ==> heaps[0].start() <= #[trigger] addrs[i] && addrs[i]
                + sizes[i] <= heaps[0].end(),
        forall|i: int, j: int|
            #![trigger addrs[i], addrs[j]]
            0 <= i < j < addrs.len() ==> addrs[i] + sizes[i] <= addrs[j],
{
    let k = addrs.len() as int;
    lemma_allocations_below(heaps, sizes, aligns, addrs, k);
    assert forall|i: int, j: int| 0 <= i < j < k implies #[trigger] addrs[i] + sizes[i]
        <= #[trigger] addrs[j] by {
        lemma_allocations_below(heaps, sizes, aligns, addrs, j);
        assert(allocated(heaps[j], heaps[j + 1], sizes[j], aligns[j], addrs[j]));
        lemma_shared_bits(heaps[j].next_free(), aligns[j]);
    }
}

} // verus!
