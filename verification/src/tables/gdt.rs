//! The global descriptor table, its descriptors and segment selectors.
use vstd::prelude::*;

use crate::bits::{bit_of, bits_of, get_bit, get_bits};
use crate::tables::{level_value, PrivilegeLevel, TablePointer};
use crate::tss::{TaskStateSegment, TSS_SIZE};

verus! {

/// A global descriptor table with room for `MAX` 64-bit words; word 0 is the
/// null descriptor.
pub struct Table<const MAX: usize> {
    entries: Vec<u64>,
    length: usize,
}

impl<const MAX: usize> View for Table<MAX> {
    type V = Seq<u64>;

    /// The words in use, the null descriptor first.
    closed spec fn view(&self) -> Seq<u64> {
        self.entries@.subrange(0, self.length as int)
    }
}

/// Raw value of the selector of entry `index` with requested level `rpl`.
pub open spec fn selector_value(index: u16, rpl: u16) -> u16 {
    (index << 3u16) | rpl
}

/// The word of a descriptor that holds its type and privilege level.
pub open spec fn descriptor_low(d: Descriptor) -> u64 {
    match d {
        Descriptor::UserSegment(v) => v,
        Descriptor::SystemSegment(v, _) => v,
    }
}

/// The base address that `Descriptor::base` reads from a descriptor.
pub open spec fn descriptor_base(d: Descriptor) -> u64 {
    match d {
        Descriptor::UserSegment(v) => bits_of(v, 16, 32) | (bits_of(v, 32, 40) << 8u64) | (bits_of(
            v,
            56,
            64,
        ) << 16u64),
        Descriptor::SystemSegment(low, high) => bits_of(low, 16, 32) | (bits_of(low, 32, 40)
            << 8u64) | (bits_of(low, 56, 64) << 16u64) | (bits_of(high, 0, 32) << 32u64),
    }
}

/// Privilege level of a descriptor: bits 45 and 46.
pub open spec fn descriptor_dpl(d: Descriptor) -> u16 {
    ((descriptor_low(d) >> 45u64) & 3) as u16
}

impl<const MAX: usize> Table<MAX> {
    pub closed spec fn wf(&self) -> bool {
        &&& self.entries@.len() == MAX
        &&& 1 <= self.length <= MAX
        &&& MAX < 8192
    }

    /// A table holding only the null descriptor.
    pub fn empty() -> (r: Self)
        requires
            0 < MAX < 8192,
        ensures
            r.wf(),
            r@ == seq![0u64],
    {
        let mut entries: Vec<u64> = Vec::new();
        let mut i: usize = 0;
        while i < MAX
            invariant
                i <= MAX,
                entries@.len() == i,
                forall|k: int| 0 <= k < i ==> entries@[k] == 0,
            decreases MAX - i,
        {
            entries.push(0);
            i = i + 1;
        }
        let r = Table { entries, length: 1 };
        assert(r@ =~= seq![0u64]);
        r
    }

    fn push(&mut self, value: u64) -> (r: usize)
        requires
            old(self).wf(),
            old(self)@.len() < MAX,
        ensures
            final(self).wf(),
            r == old(self)@.len(),
            final(self)@ == old(self)@.push(value),
    {
        let index = self.length;
        self.entries.set(index, value);
        self.length = self.length + 1;
        assert(self@ =~= old(self)@.push(value));
        index
    }

    /// Adds `entry` (one word for a code or data segment, two for a system
    /// segment) and returns its selector, with the descriptor's privilege
    /// level as requested level. The table must keep a free word.
    pub fn append(&mut self, entry: Descriptor) -> (r: SegmentSelector)
        requires
            old(self).wf(),
            match entry {
                Descriptor::UserSegment(_) => old(self)@.len() + 1 < MAX,
                Descriptor::SystemSegment(_, _) => old(self)@.len() + 2 < MAX,
            },
        ensures
            final(self).wf(),
            r.bits() == selector_value(old(self)@.len() as u16, descriptor_dpl(entry)),
            final(self)@ == match entry {
                Descriptor::UserSegment(v) => old(self)@.push(v),
                Descriptor::SystemSegment(low, high) => old(self)@.push(low).push(high),
            },
    {
        let index = match entry {
            Descriptor::UserSegment(value) => self.push(value),
            Descriptor::SystemSegment(value_low, value_high) => {
                let index = self.push(value_low);
                self.push(value_high);
                index
            },
        };
        SegmentSelector::new(index as u16, entry.get_dpl())
    }

    /// The words in use.
    pub fn entries(&self) -> (r: &[u64])
        requires
            self.wf(),
        ensures
            r@ == self@,
    {
        vstd::slice::slice_subrange(self.entries.as_slice(), 0, self.length)
    }

    /// The `lgdt` operand for this table, which sits at `address`.
    pub fn pointer(&self, address: u64) -> (r: TablePointer)
        requires
            self.wf(),
        ensures
            r.offset == address,
            r.size == self@.len() * 8 - 1,
    {
        TablePointer { offset: address, size: (self.length * 8) as u16 - 1 }
    }
}

/// Law: the selector that `append` returns names the word where the
/// descriptor was stored, with the descriptor's privilege level.
pub proof fn lemma_append_selector<const MAX: usize>(
    before: Seq<u64>,
    after: Seq<u64>,
    entry: Descriptor,
    selector: SegmentSelector,
)
    requires
        before.len() < 8192,
        selector.bits() == selector_value(before.len() as u16, descriptor_dpl(entry)),
        after == match entry {
            Descriptor::UserSegment(v) => before.push(v),
            Descriptor::SystemSegment(low, high) => before.push(low).push(high),
        },
    ensures
        after[selector_index(selector.bits()) as int] == descriptor_low(entry),
        selector_rpl(selector.bits()) == descriptor_dpl(entry),
{
    let i = before.len() as u16;
    let d = descriptor_dpl(entry);
    let low = descriptor_low(entry);
    assert(d <= 3) by (bit_vector)
        requires
            d == ((low >> 45u64) & 3) as u16,
    ;
    assert(((i << 3u16) | d) >> 3u16 == i && ((i << 3u16) | d) & 3 == d) by (bit_vector)
        requires
            i < 8192,
            d <= 3,
    ;
}

/// A segment descriptor.
#[derive(Clone, Copy)]
pub enum Descriptor {
    /// Descriptor for a code or data segment.
    ///
    /// Since segmentation is no longer supported in 64-bit mode, almost all of
    /// code and data descriptors is ignored. Only some flags are still used.
    UserSegment(u64),
    /// A system segment descriptor such as a LDT or TSS descriptor.
    SystemSegment(u64, u64),
}

impl Descriptor {
    /// All bits of the descriptor; a system segment's second word is the
    /// upper half.
    pub fn get_bits(self) -> (r: u128)
        ensures
            r == match self {
                Descriptor::UserSegment(v) => v as int,
                Descriptor::SystemSegment(low, high) => high * 0x1_0000_0000_0000_0000 + low,
            },
    {
        match self {
            Descriptor::UserSegment(v) => v as u128,
            Descriptor::SystemSegment(value_low, value_high) => {
                let h = value_high as u128;
                assert(h << 64u128 == h * 0x1_0000_0000_0000_0000u128) by (bit_vector)
                    requires
                        h < 0x1_0000_0000_0000_0000u128,
                ;
                (h << 64) + value_low as u128
            },
        }
    }

    /// The privilege level in bits 45 and 46.
    pub fn get_dpl(self) -> (r: PrivilegeLevel)
        ensures
            level_value(r) == descriptor_dpl(self),
    {
        let value_low = match self {
            Descriptor::UserSegment(v) => v,
            Descriptor::SystemSegment(v, _) => v,
        };
        let dpl = (value_low & (3 << 45)) >> 45;
        assert((value_low & (3u64 << 45u64)) >> 45u64 == (value_low >> 45u64) & 3) by (bit_vector);
        assert((value_low >> 45u64) & 3 <= 3) by (bit_vector);
        PrivilegeLevel::from_u16(dpl as u16)
    }

    /// The base address as the descriptor's fields are read: bits 16-31,
    /// bits 32-39 shifted up by 8, bits 56-63 shifted up by 16, and for a
    /// system segment bits 0-31 of the second word shifted up by 32.
    pub fn base(self) -> (r: u64)
        ensures
            r == descriptor_base(self),
    {
        match self {
            Descriptor::SystemSegment(value_low, value_high) => {
                get_bits(value_low, 16, 32) | (get_bits(value_low, 32, 40) << 8) | (get_bits(
                    value_low,
                    56,
                    64,
                ) << 16) | (get_bits(value_high, 0, 32) << 32)
            },
            Descriptor::UserSegment(value) => {
                get_bits(value, 16, 32) | (get_bits(value, 32, 40) << 8) | (get_bits(value, 56, 64)
                    << 16)
            },
        }
    }

    /// The segment limit: bits 0-15, and bits 48-51 shifted up by 16.
    pub fn limit(self) -> (r: u64)
        ensures
            r == bits_of(descriptor_low(self), 0, 16) | (bits_of(descriptor_low(self), 48, 52)
                << 16u64),
    {
        let v = match self {
            Descriptor::SystemSegment(v, _) => v,
            Descriptor::UserSegment(v) => v,
        };
        get_bits(v, 0, 16) | (get_bits(v, 48, 52) << 16)
    }

    /// The access byte: bits 40 to 47.
    pub fn get_access_byte(self) -> (r: AccessByte)
        ensures
            r.bits() == bits_of(descriptor_low(self), 40, 48),
    {
        let v = match self {
            Descriptor::SystemSegment(v, _) => v,
            Descriptor::UserSegment(v) => v,
        };
        assert((v >> 40u64) & ((1u64 << 8u64) - 1) as u64 <= 255) by (bit_vector);
        AccessByte(get_bits(v, 40, 48) as u8)
    }

    /// The flags nibble: bits 52 to 55.
    pub fn get_flags(self) -> (r: DescriptorFlags)
        ensures
            r.bits() == bits_of(descriptor_low(self), 52, 56),
    {
        let v = match self {
            Descriptor::SystemSegment(v, _) => v,
            Descriptor::UserSegment(v) => v,
        };
        assert((v >> 52u64) & ((1u64 << 4u64) - 1) as u64 <= 15) by (bit_vector);
        DescriptorFlags(get_bits(v, 52, 56) as u8)
    }

    /// Creates a segment descriptor for a 64-bit kernel code segment. Suitable
    /// for use with `syscall` or 64-bit `sysenter`.
    pub fn kernel_code_segment() -> (r: Descriptor)
        ensures
            r == Descriptor::UserSegment(0x00af9b000000ffff),
    {
        Descriptor::UserSegment(0x00af9b000000ffff)
    }

    /// Creates a segment descriptor for a kernel data segment (32-bit or
    /// 64-bit). Suitable for use with `syscall` or `sysenter`.
    pub fn kernel_data_segment() -> (r: Descriptor)
        ensures
            r == Descriptor::UserSegment(0x00cf93000000ffff),
    {
        Descriptor::UserSegment(0x00cf93000000ffff)
    }

    /// Creates a segment descriptor for a ring 3 data segment (32-bit or
    /// 64-bit). Suitable for use with `sysret` or `sysexit`.
    pub fn user_data_segment() -> (r: Descriptor)
        ensures
            r == Descriptor::UserSegment(0x00cff3000000ffff),
    {
        Descriptor::UserSegment(0x00cff3000000ffff)
    }

    /// The descriptor of the task state segment `tss`, which sits at `address`,
    /// with no I/O permission bitmap beyond the segment.
    pub fn tss_segment(tss: &TaskStateSegment, address: u64) -> (r: Descriptor)
        ensures
            r == tss_descriptor(address, tss.iopb, 0),
    {
        Self::tss_segment_raw(tss, address, 0)
    }

    /// The descriptor of the task state segment `tss` at `address`, whose
    /// limit also covers an I/O bitmap of `iomap_size` bytes.
    fn tss_segment_raw(tss: &TaskStateSegment, address: u64, iomap_size: u16) -> (r: Descriptor)
        ensures
            r == tss_descriptor(address, tss.iopb, iomap_size),
    {
        let ptr = address;
        let mut low: u64 = 0;
        // base
        low = low | (get_bits(ptr, 0, 24) << 16);
        low = low | (get_bits(ptr, 24, 32) << 56);
        // limit (the `-1` is needed since the bound is inclusive)
        let iomap_limit = tss.iopb as u64 + iomap_size as u64;
        let size = if (TSS_SIZE as u64) < iomap_limit {
            iomap_limit
        } else {
            TSS_SIZE as u64
        };
        low = low | (#[verifier::truncate] ((size - 1) as u16) as u64);
        // type (0b1001 = available 64-bit tss)
        low = low | (0b1001 << 40);
        low = low | (0b1 << 47);
        // base bits 32-63; the rest of the second word is reserved and zero
        let high: u64 = ptr >> 32;
        assert(low == ((((0u64 | (bits_of(ptr, 0, 24) << 16u64)) | (bits_of(ptr, 24, 32) << 56u64))
            | (((tss_limit(tss.iopb, iomap_size) - 1) as u16) as u64)) | (0b1001u64 << 40u64)) | (
        0b1u64 << 47u64));
        Descriptor::SystemSegment(low, high)
    }
}

/// Size that the limit of a task state segment descriptor covers.
pub open spec fn tss_limit(iopb: u16, iomap_size: u16) -> u64 {
    let iomap_limit = iopb as u64 + iomap_size as u64;
    if (TSS_SIZE as u64) < iomap_limit {
        iomap_limit as u64
    } else {
        TSS_SIZE as u64
    }
}

/// The system descriptor of an available 64-bit task state segment at
/// `address`: base bits 0-23 at bit 16 and 24-31 at bit 56, the limit (size
/// minus one) in bits 0-15, type 0b1001 at bit 40, present bit 47; the second
/// word holds base bits 32-63 in its low half and zeros above them.
pub open spec fn tss_descriptor(address: u64, iopb: u16, iomap_size: u16) -> Descriptor {
    Descriptor::SystemSegment(
        ((((0u64 | (bits_of(address, 0, 24) << 16u64)) | (bits_of(address, 24, 32) << 56u64)) | (((
        tss_limit(iopb, iomap_size) - 1) as u16) as u64)) | (0b1001u64 << 40u64)) | (0b1u64
            << 47u64),
        address >> 32u64,
    )
}

/// The access byte of a descriptor.
pub struct AccessByte(u8);

/// Kind of a system segment.
#[derive(Debug)]
enum SystemSegmentType {
    LDT,
    AvailableTSS,
    BusyTSS,
}

impl AccessByte {
    /// The raw byte.
    pub closed spec fn bits(&self) -> u8 {
        self.0
    }

    fn get_present(&self) -> (r: bool)
        ensures
            r == (bit_of(self.0 as u64, 7) == 1),
    {
        get_bit(self.0 as u64, 7) > 0
    }

    fn get_dpl(&self) -> (r: PrivilegeLevel)
        ensures
            level_value(r) == bits_of(self.0 as u64, 5, 7),
    {
        let v = self.0 as u64;
        assert((v >> 5u64) & ((1u64 << 2u64) - 1) as u64 <= 3) by (bit_vector);
        PrivilegeLevel::from_u16(get_bits(v, 5, 7) as u16)
    }

    fn get_is_system(&self) -> (r: bool)
        ensures
            r == (bit_of(self.0 as u64, 4) == 0),
    {
        get_bit(self.0 as u64, 4) == 0
    }

    fn get_is_executable(&self) -> (r: bool)
        requires
            bit_of(self.0 as u64, 4) == 1,
        ensures
            r == (bit_of(self.0 as u64, 3) == 1),
    {
        get_bit(self.0 as u64, 3) > 0
    }

    fn get_dc(&self) -> (r: bool)
        requires
            bit_of(self.0 as u64, 4) == 1,
        ensures
            r == (bit_of(self.0 as u64, 2) == 1),
    {
        get_bit(self.0 as u64, 2) > 0
    }

    fn get_rw(&self) -> (r: bool)
        requires
            bit_of(self.0 as u64, 4) == 1,
        ensures
            r == (bit_of(self.0 as u64, 1) == 1),
    {
        get_bit(self.0 as u64, 1) > 0
    }

    fn get_accessed(&self) -> (r: bool)
        requires
            bit_of(self.0 as u64, 4) == 1,
        ensures
            r == (bit_of(self.0 as u64, 0) == 1),
    {
        get_bit(self.0 as u64, 0) > 0
    }

    fn get_system_segment_type(&self) -> (r: SystemSegmentType)
        requires
            bit_of(self.0 as u64, 4) == 0,
            bits_of(self.0 as u64, 0, 4) == 0x2 || bits_of(self.0 as u64, 0, 4) == 0x9
                || bits_of(self.0 as u64, 0, 4) == 0xB,
        ensures
            r == if bits_of(self.0 as u64, 0, 4) == 0x2 {
                SystemSegmentType::LDT
            } else if bits_of(self.0 as u64, 0, 4) == 0x9 {
                SystemSegmentType::AvailableTSS
            } else {
                SystemSegmentType::BusyTSS
            },
    {
        match get_bits(self.0 as u64, 0, 4) {
            0x2 => SystemSegmentType::LDT,
            0x9 => SystemSegmentType::AvailableTSS,
            _ => SystemSegmentType::BusyTSS,
        }
    }
}

/// The flags nibble of a descriptor.
pub struct DescriptorFlags(u8);

impl DescriptorFlags {
    /// The raw nibble.
    pub closed spec fn bits(&self) -> u8 {
        self.0
    }
}

/// A segment selector: descriptor index, table indicator and requested
/// privilege level.
#[derive(Clone, Copy)]
pub struct SegmentSelector(u16);

/// Requested privilege level of a raw selector: its two low bits.
pub open spec fn selector_rpl(s: u16) -> u16 {
    s & 3
}

/// Descriptor index of a raw selector: bits 3 to 15.
pub open spec fn selector_index(s: u16) -> u16 {
    s >> 3u16
}

impl SegmentSelector {
    /// The raw 16-bit selector.
    pub closed spec fn bits(&self) -> u16 {
        self.0
    }

    /// The selector of entry `index` with requested level `rpl`.
    pub fn new(index: u16, rpl: PrivilegeLevel) -> (r: Self)
        ensures
            r.bits() == selector_value(index, level_value(rpl)),
    {
        SegmentSelector(index << 3 | rpl.value())
    }

    /// The raw selector widened to 64 bits.
    pub fn as_u64(&self) -> (r: u64)
        ensures
            r == self.bits(),
    {
        self.0 as u64
    }

    /// The requested privilege level.
    pub fn get_rpl(&self) -> (r: PrivilegeLevel)
        ensures
            level_value(r) == selector_rpl(self.bits()),
    {
        let v = self.0;
        assert((v << 14u16) >> 14u16 == v & 3) by (bit_vector);
        assert(v & 3 <= 3) by (bit_vector);
        PrivilegeLevel::from_u16(self.0 << 14 >> 14)
    }

    /// The table indicator: set for the local descriptor table.
    pub fn get_ti(&self) -> (r: bool)
        ensures
            r == (self.bits() & 0b100 != 0),
    {
        (self.0 & 0b0100) != 0
    }

    /// The descriptor index.
    pub fn get_index(&self) -> (r: u16)
        ensures
            r == selector_index(self.bits()),
    {
        self.0 >> 3
    }
}

/// Law: a selector built from an index below 8192 and a level gives both back.
pub proof fn lemma_selector_roundtrip(index: u16, rpl: u16)
    requires
        index < 8192,
        rpl <= 3,
    ensures
        selector_index(selector_value(index, rpl)) == index,
        selector_rpl(selector_value(index, rpl)) == rpl,
{
    assert(((index << 3u16) | rpl) >> 3u16 == index && ((index << 3u16) | rpl) & 3 == rpl)
        by (bit_vector)
        requires
            index < 8192,
            rpl <= 3,
    ;
}

} // verus!
