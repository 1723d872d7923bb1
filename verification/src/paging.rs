//! Four-level x86_64 paging: table entries, their flags, virtual addresses
//! and the page-table indices they decompose into.
use vstd::prelude::*;

use crate::bits::{bit_of, get_bit};

verus! {

/// Size of a page in bytes.
pub const PAGE_SIZE: usize = 4096;

/// Number of entries of a page table.
pub const ENTRY_COUNT: usize = 512;

/// Bits of an entry that hold the address of the frame or table it points to.
pub const ADDRESS_MASK: u64 = 0x000f_ffff_ffff_f000;

/// Bits of an entry that hold flags: bits 0 to 8 and bit 63.
pub const FLAGS_MASK: u64 = 0x8000_0000_0000_01ff;

// ---------------------------------------------------------------------------
// Entries and flags
// ---------------------------------------------------------------------------
/// One entry of a page table.
#[derive(Clone, Copy, PartialEq, Eq, Structural)]
pub struct Entry(u64);

/// The flag bits of an entry.
pub struct Flags(u64);

impl Entry {
    /// The raw 64-bit value of the entry.
    pub closed spec fn bits(self) -> u64 {
        self.0
    }

    /// An unused (zero) entry.
    pub fn new() -> (r: Self)
        ensures
            r.bits() == 0,
    {
        Entry(0)
    }

    /// Whether the entry is zero.
    pub fn unused(&self) -> (r: bool)
        ensures
            r == (self.bits() == 0),
    {
        self.0 == 0
    }

    /// Clears the entry.
    pub fn set_unused(&mut self)
        ensures
            final(self).bits() == 0,
    {
        self.0 = 0;
    }

    /// The flag bits of the entry.
    pub fn get_flags(self) -> (r: Flags)
        ensures
            r.bits() == self.bits() & FLAGS_MASK,
    {
        Flags::from_entry(self)
    }

    /// The address the entry points to, when it is present.
    pub fn pointed_address(&self) -> (r: Option<usize>)
        ensures
            r == if bit_of(self.bits(), 0) == 1 {
                Some((self.bits() & ADDRESS_MASK) as usize)
            } else {
                None::<usize>
            },
    {
        if self.get_flags().present() {
            proof {
                let v = self.0;
                assert(((v & 0x8000_0000_0000_01ffu64) >> 0u64) & 1 == (v >> 0u64) & 1)
                    by (bit_vector);
            }
            Some(#[verifier::truncate] ((self.0 & ADDRESS_MASK) as usize))
        } else {
            proof {
                let v = self.0;
                assert(((v & 0x8000_0000_0000_01ffu64) >> 0u64) & 1 == (v >> 0u64) & 1)
                    by (bit_vector);
            }
            None
        }
    }

    /// Points the entry at `address` with `flags`; `address` must have no bit
    /// outside the address bits.
    pub fn set(&mut self, address: usize, flags: Flags)
        requires
            address as u64 & !ADDRESS_MASK == 0,
        ensures
            final(self).bits() == address as u64 | flags.bits(),
    {
        self.0 = address as u64 | flags.0;
    }
}

impl Flags {
    /// The raw flag bits.
    pub closed spec fn bits(self) -> u64 {
        self.0
    }

    /// The flag bits of `entry`.
    pub fn from_entry(entry: Entry) -> (r: Self)
        ensures
            r.bits() == entry.bits() & FLAGS_MASK,
    {
        assert(0x1FFu64 | (1u64 << 63u64) == 0x8000_0000_0000_01ffu64) by (bit_vector);
        Flags(entry.0 & (0x1FF | (1 << 63)))
    }

    /// Bit 0: the entry is present.
    pub fn present(&self) -> (r: bool)
        ensures
            r == (bit_of(self.bits(), 0) == 1),
    {
        get_bit(self.0, 0) > 0
    }

    /// Bit 1: writes are allowed.
    pub fn writable(&self) -> (r: bool)
        ensures
            r == (bit_of(self.bits(), 1) == 1),
    {
        get_bit(self.0, 1) > 0
    }

    /// Bit 2: user mode may access.
    pub fn user_accessible(&self) -> (r: bool)
        ensures
            r == (bit_of(self.bits(), 2) == 1),
    {
        get_bit(self.0, 2) > 0
    }

    /// Bit 3: write-through caching.
    pub fn write_through_caching(&self) -> (r: bool)
        ensures
            r == (bit_of(self.bits(), 3) == 1),
    {
        get_bit(self.0, 3) > 0
    }

    /// Bit 4: caching disabled.
    pub fn disable_caching(&self) -> (r: bool)
        ensures
            r == (bit_of(self.bits(), 4) == 1),
    {
        get_bit(self.0, 4) > 0
    }

    /// Bit 5: the entry was used in a translation.
    pub fn accessed(&self) -> (r: bool)
        ensures
            r == (bit_of(self.bits(), 5) == 1),
    {
        get_bit(self.0, 5) > 0
    }

    /// Bit 6: the page was written.
    pub fn dirty(&self) -> (r: bool)
        ensures
            r == (bit_of(self.bits(), 6) == 1),
    {
        get_bit(self.0, 6) > 0
    }

    /// Bit 7: the entry maps a huge page.
    pub fn huge(&self) -> (r: bool)
        ensures
            r == (bit_of(self.bits(), 7) == 1),
    {
        get_bit(self.0, 7) > 0
    }

    /// Bit 8: the mapping is global.
    pub fn global(&self) -> (r: bool)
        ensures
            r == (bit_of(self.bits(), 8) == 1),
    {
        get_bit(self.0, 8) > 0
    }

    /// Bit 63: instruction fetches are not allowed.
    pub fn no_execute(&self) -> (r: bool)
        ensures
            r == (bit_of(self.bits(), 63) == 1),
    {
        get_bit(self.0, 63) > 0
    }
}

/// Law: after `set(address, flags)` with flags read from an entry, the entry
/// reports those flags again and points at `address` exactly when the
/// present flag is set.
pub proof fn lemma_set_then_read(address: u64, flags: u64, entry: u64)
    requires
        address & !ADDRESS_MASK == 0,
        flags & !FLAGS_MASK == 0,
        entry == address | flags,
    ensures
        entry & FLAGS_MASK == flags,
        entry & ADDRESS_MASK == address,
        bit_of(entry, 0) == bit_of(flags, 0),
{
    assert(entry & 0x8000_0000_0000_01ffu64 == flags) by (bit_vector)
        requires
            address & !0x000f_ffff_ffff_f000u64 == 0,
            flags & !0x8000_0000_0000_01ffu64 == 0,
            entry == address | flags,
    ;
    assert(entry & 0x000f_ffff_ffff_f000u64 == address) by (bit_vector)
        requires
            address & !0x000f_ffff_ffff_f000u64 == 0,
            flags & !0x8000_0000_0000_01ffu64 == 0,
            entry == address | flags,
    ;
    assert((entry >> 0u64) & 1 == (flags >> 0u64) & 1) by (bit_vector)
        requires
            address & !0x000f_ffff_ffff_f000u64 == 0,
            entry == address | flags,
    ;
}


// ---------------------------------------------------------------------------
// Addresses and pages
// ---------------------------------------------------------------------------
/// `a` with bits 48 to 63 copied from bit 47 (the canonical form).
pub open spec fn canonical(a: u64) -> u64 {
    if (a >> 47u64) & 1 == 1 {
        a | 0xffff_0000_0000_0000
    } else {
        a & 0x0000_ffff_ffff_ffff
    }
}

/// Index into the page table of `level` (1 to 4) that address `a` selects.
pub open spec fn table_index(a: u64, level: u64) -> u64 {
    ((a >> 12u64) >> ((level - 1) * 9) as u64) % 512
}

/// Law: the page-table index of each level is a 9-bit group of the address
/// above its 12-bit page offset: bits 12 to 20 index the level 1 table, 21
/// to 29 level 2, 30 to 38 level 3 and 39 to 47 level 4.
pub proof fn lemma_table_index_bits(a: u64)
    ensures
        table_index(a, 1) == (a >> 12u64) & 0x1ff,
        table_index(a, 2) == (a >> 21u64) & 0x1ff,
        table_index(a, 3) == (a >> 30u64) & 0x1ff,
        table_index(a, 4) == (a >> 39u64) & 0x1ff,
{
    assert(((a >> 12u64) >> 0u64) % 512 == (a >> 12u64) & 0x1ff && ((a >> 12u64) >> 9u64) % 512 == (
    a >> 21u64) & 0x1ff && ((a >> 12u64) >> 18u64) % 512 == (a >> 30u64) & 0x1ff && ((a >> 12u64)
        >> 27u64) % 512 == (a >> 39u64) & 0x1ff) by (bit_vector);
}

/// A virtual address.
#[derive(Clone, Copy, Debug, PartialEq, Eq, Structural, PartialOrd, Ord)]
pub struct VirtualAddress(pub usize);

/// A physical address.
#[derive(Clone, Copy, Debug, PartialEq, Eq, Structural, PartialOrd, Ord)]
pub struct PhysicalAddress(pub usize);

fn canonical_u64(a: u64) -> (r: u64)
    ensures
        r == canonical(a),
{
    if (a >> 47) & 1 == 1 {
        a | 0xffff_0000_0000_0000
    } else {
        a & 0x0000_ffff_ffff_ffff
    }
}

impl VirtualAddress {
    /// The address in canonical form: bits 48 to 63 copy bit 47.
    pub fn new_truncate(addr: usize) -> (r: VirtualAddress)
        ensures
            r.0 == canonical(addr as u64) as usize,
    {
        VirtualAddress(#[verifier::truncate] (canonical_u64(addr as u64) as usize))
    }

    /// `addr` as a virtual address; it must already be canonical.
    pub fn new(addr: usize) -> (r: VirtualAddress)
        requires
            canonical(addr as u64) as usize == addr,
        ensures
            r.0 == addr,
    {
        let v = Self::new_truncate(addr);
        v
    }

    /// Index into the page table of `level` (1 to 4) that this address selects.
    pub fn page_table_index(self, level: usize) -> (r: usize)
        requires
            0 < level < 5,
        ensures
            r == table_index(self.0 as u64, level as u64),
    {
        let shift = ((level - 1) * 9) as u64;
        let a = self.0 as u64;
        assert(((a >> 12u64) >> shift) % 512 < 512) by (bit_vector);
        (((a >> 12) >> shift) % 512) as usize
    }
}

impl PhysicalAddress {
    /// Distance in bytes from `rhs` up to `self`.
    pub fn sub(self, rhs: Self) -> (r: usize)
        requires
            self.0 >= rhs.0,
        ensures
            r == self.0 - rhs.0,
    {
        self.0 - rhs.0
    }
}

/// A 4 KiB page of virtual memory, named by its first address.
#[derive(Clone, Copy)]
pub struct Page {
    pub start_address: VirtualAddress,
}

/// The address that the four page-table indices select.
pub open spec fn indices_address(p4: u64, p3: u64, p2: u64, p1: u64) -> u64 {
    (p4 << 39u64) | (p3 << 30u64) | (p2 << 21u64) | (p1 << 12u64)
}

impl Page {
    fn containing_address(address: VirtualAddress) -> (r: Page)
        ensures
            r.start_address.0 == (address.0 / 4096) * 4096,
    {
        Page { start_address: VirtualAddress((address.0 / PAGE_SIZE) * PAGE_SIZE) }
    }

    /// Index into the page table of `level` (1 to 4) that selects this page.
    pub fn page_table_index(self, level: usize) -> (r: usize)
        requires
            0 < level < 5,
        ensures
            r == table_index(self.start_address.0 as u64, level as u64),
    {
        self.start_address.page_table_index(level)
    }

    /// The page that the four indices select; each must be below 512.
    pub fn from_page_table_indices(
        p4_index: usize,
        p3_index: usize,
        p2_index: usize,
        p1_index: usize,
    ) -> (r: Self)
        requires
            p4_index < ENTRY_COUNT,
            p3_index < ENTRY_COUNT,
            p2_index < ENTRY_COUNT,
            p1_index < ENTRY_COUNT,
        ensures
            r.start_address.0 == ((canonical(
                indices_address(p4_index as u64, p3_index as u64, p2_index as u64, p1_index as u64)
                    as usize as u64,
            ) as usize) / 4096) * 4096,
    {
        let mut addr: u64 = 0;
        addr = addr | ((p4_index as u64) << 39);
        addr = addr | ((p3_index as u64) << 30);
        addr = addr | ((p2_index as u64) << 21);
        addr = addr | ((p1_index as u64) << 12);
        assert(addr == indices_address(p4_index as u64, p3_index as u64, p2_index as u64, p1_index as u64))
            by (bit_vector)
            requires
                addr == (((0u64 | ((p4_index as u64) << 39u64)) | ((p3_index as u64) << 30u64))
                    | ((p2_index as u64) << 21u64)) | ((p1_index as u64) << 12u64),
        ;
        Page::containing_address(VirtualAddress::new_truncate(#[verifier::truncate] (addr as usize)))
    }
}

/// Law: on a machine whose `usize` holds 64-bit addresses, the page built
/// from four indices by `Page::from_page_table_indices` gives back each of
/// them as its page-table index.
pub proof fn lemma_page_indices_roundtrip(p4: usize, p3: usize, p2: usize, p1: usize, page: Page)
    requires
        usize::MAX == u64::MAX,
        p4 < 512,
        p3 < 512,
        p2 < 512,
        p1 < 512,
        page.start_address.0 == ((canonical(
            indices_address(p4 as u64, p3 as u64, p2 as u64, p1 as u64) as usize as u64,
        ) as usize) / 4096) * 4096,
    ensures
        table_index(page.start_address.0 as u64, 4) == p4,
        table_index(page.start_address.0 as u64, 3) == p3,
        table_index(page.start_address.0 as u64, 2) == p2,
        table_index(page.start_address.0 as u64, 1) == p1,
{
    lemma_indices_roundtrip_u64(p4 as u64, p3 as u64, p2 as u64, p1 as u64);
}

proof fn lemma_indices_roundtrip_u64(p4: u64, p3: u64, p2: u64, p1: u64)
    requires
        p4 < 512,
        p3 < 512,
        p2 < 512,
        p1 < 512,
    ensures
        ({
            let page = ((canonical(indices_address(p4, p3, p2, p1)) / 4096) * 4096) as u64;
            &&& table_index(page, 4) == p4
            &&& table_index(page, 3) == p3
            &&& table_index(page, 2) == p2
            &&& table_index(page, 1) == p1
        }),
{
    let a = indices_address(p4, p3, p2, p1);
    let c = canonical(a);
    let page = ((c / 4096) * 4096) as u64;
    assert(page == c & !0xfffu64) by (bit_vector)
        requires
            page == ((c / 4096) * 4096) as u64,
    ;
    if (a >> 47u64) & 1 == 1 {
        assert(table_index(page, 4) == p4 && table_index(page, 3) == p3 && table_index(page, 2)
            == p2 && table_index(page, 1) == p1) by (bit_vector)
            requires
                p4 < 512,
                p3 < 512,
                p2 < 512,
                p1 < 512,
                a == (p4 << 39u64) | (p3 << 30u64) | (p2 << 21u64) | (p1 << 12u64),
                c == a | 0xffff_0000_0000_0000u64,
                page == c & !0xfffu64,
        ;
    } else {
        assert(table_index(page, 4) == p4 && table_index(page, 3) == p3 && table_index(page, 2)
            == p2 && table_index(page, 1) == p1) by (bit_vector)
            requires
                p4 < 512,
                p3 < 512,
                p2 < 512,
                p1 < 512,
                a == (p4 << 39u64) | (p3 << 30u64) | (p2 << 21u64) | (p1 << 12u64),
                c == a & 0x0000_ffff_ffff_ffffu64,
                page == c & !0xfffu64,
        ;
    }
}


// ---------------------------------------------------------------------------
// Tables
// ---------------------------------------------------------------------------
/// Marks the level of a page table.
pub trait TableLevel {}

/// The top-level table (PML4).
pub struct Level4;

/// A page-directory-pointer table.
pub struct Level3;

/// A page directory.
pub struct Level2;

/// A page table, whose entries map pages.
pub struct Level1;

impl TableLevel for Level4 {}

impl TableLevel for Level3 {}

impl TableLevel for Level2 {}

impl TableLevel for Level1 {}

/// A level whose entries point to tables of the next level.
pub trait HierarchicalLevel: TableLevel {
    type NextLevel: TableLevel;
}

impl HierarchicalLevel for Level4 {
    type NextLevel = Level3;
}

impl HierarchicalLevel for Level3 {
    type NextLevel = Level2;
}

impl HierarchicalLevel for Level2 {
    type NextLevel = Level1;
}

/// The top level of the page-table hierarchy.
pub trait TopLevel: TableLevel {}

impl TopLevel for Level4 {}

/// A page table of level `L`: 512 entries.
pub struct Table<L: TableLevel> {
    entries: [Entry; 512],
    phantom: core::marker::PhantomData<L>,
}

impl<L: TableLevel> Table<L> {
    /// The raw values of the entries.
    pub closed spec fn entry_bits(&self) -> Seq<u64> {
        self.entries@.map_values(|e: Entry| e.bits())
    }

    /// A table whose entries are all unused.
    pub fn new() -> (r: Self)
        ensures
            r.entry_bits() == Seq::new(512, |i: int| 0u64),
    {
        let t = Table { entries: [Entry(0); 512], phantom: core::marker::PhantomData };
        assert(t.entry_bits() =~= Seq::new(512, |i: int| 0u64));
        t
    }

    /// Marks every entry unused.
    pub fn zero(&mut self)
        ensures
            final(self).entry_bits() == Seq::new(512, |i: int| 0u64),
    {
        let mut i: usize = 0;
        while i < ENTRY_COUNT
            invariant
                i <= 512,
                self.entries@.len() == 512,
                forall|k: int| 0 <= k < i ==> (#[trigger] self.entries@[k]).bits() == 0,
            decreases 512 - i,
        {
            self.entries[i].set_unused();
            i = i + 1;
        }
        assert(self.entry_bits() =~= Seq::new(512, |i: int| 0u64));
    }

    /// Entry `index` of the table.
    pub fn index(&self, index: usize) -> (r: &Entry)
        requires
            index < 512,
        ensures
            r.bits() == self.entry_bits()[index as int],
    {
        &self.entries[index]
    }

    /// Replaces entry `index` of the table.
    pub fn set_entry(&mut self, index: usize, entry: Entry)
        requires
            index < 512,
        ensures
            final(self).entry_bits() == old(self).entry_bits().update(index as int, entry.bits()),
    {
        self.entries[index] = entry;
        assert(self.entry_bits() =~= old(self).entry_bits().update(index as int, entry.bits()));
    }
}

impl<L: HierarchicalLevel> Table<L> {
    /// Address, under the recursive mapping, of the table that entry `index`
    /// points to, given the address of this table; none when the entry is
    /// not present or maps a huge page.
    pub fn next_table_address(&self, table_address: usize, index: usize) -> (r: Option<usize>)
        requires
            index < 512,
        ensures
            r == if bit_of(self.entry_bits()[index as int], 0) == 1 && bit_of(
                self.entry_bits()[index as int],
                7,
            ) == 0 {
                Some(((table_address as u64) << 9u64 | (index as u64) << 12u64) as usize)
            } else {
                None::<usize>
            },
    {
        let entry_flags = self.entries[index].get_flags();
        proof {
            let v = self.entries@[index as int].bits();
            assert(((v & 0x8000_0000_0000_01ffu64) >> 0u64) & 1 == (v >> 0u64) & 1)
                by (bit_vector);
            assert(((v & 0x8000_0000_0000_01ffu64) >> 7u64) & 1 == (v >> 7u64) & 1)
                by (bit_vector);
            assert((v >> 7u64) & 1 <= 1) by (bit_vector);
            assert(self.entry_bits()[index as int] == v);
        }
        let present = entry_flags.present();
        let huge = entry_flags.huge();
        if present && !huge {
            Some(#[verifier::truncate] (((table_address as u64) << 9 | (index as u64) << 12) as usize))
        } else {
            None
        }
    }
}

/// Translation between physical and virtual addresses.
pub trait Mapper {
    fn to_virtual(&self, addr: PhysicalAddress) -> VirtualAddress;

    fn to_physical(&self, addr: VirtualAddress) -> PhysicalAddress;
}

/// Access to the active top-level table through its recursive mapping.
pub struct RecursiveMapper<'a> {
    p4: &'a mut Table<Level4>,
}

impl<'a> RecursiveMapper<'a> {
    /// A mapper over the top-level table `p4`.
    pub fn new(p4: &'a mut Table<Level4>) -> (r: Self)
        ensures
            r.p4() == *old(p4),
    {
        RecursiveMapper { p4 }
    }

    pub closed spec fn p4(&self) -> Table<Level4> {
        *self.p4
    }

    /// The top-level table.
    pub fn get_p4(&self) -> (r: &Table<Level4>)
        ensures
            *r == self.p4(),
    {
        self.p4
    }

    /// The top-level table, reached through a mutable mapper.
    pub fn get_p4_mut(&mut self) -> (r: &Table<Level4>)
        ensures
            *r == old(self).p4(),
    {
        self.p4
    }
}

} // verus!
