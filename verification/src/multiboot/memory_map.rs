//! The memory map tag: the ranges of physical memory and what each holds.
use vstd::prelude::*;

use crate::multiboot::{read_u32, read_u64, u32_at, u64_at, Tag, TagContainer, TagHeader, TagType};

verus! {

/// Bytes one memory map entry occupies.
pub const MEMORY_MAP_ENTRY_SIZE: usize = 24;

/// What a range of physical memory holds, as the boot loader reports it.
#[derive(Debug, Clone, Copy, PartialEq, Eq, Structural)]
pub enum MemoryMapTagEntryType {
    Available,
    Reserved,
    AcpiAvailable,
    ReservedHibernate,
    Defective,
    Custom(u32),
}

/// The number by which a memory map entry states its type.
#[derive(Debug, Clone, Copy, PartialEq, Eq, Structural)]
pub struct MemoryMapTagEntryTypeId(pub u32);

/// The type that the number `id` stands for: 1 to 5 are the known ones,
/// any other is a custom type.
pub open spec fn entry_type_of(id: u32) -> MemoryMapTagEntryType {
    if id == 1 {
        MemoryMapTagEntryType::Available
    } else if id == 2 {
        MemoryMapTagEntryType::Reserved
    } else if id == 3 {
        MemoryMapTagEntryType::AcpiAvailable
    } else if id == 4 {
        MemoryMapTagEntryType::ReservedHibernate
    } else if id == 5 {
        MemoryMapTagEntryType::Defective
    } else {
        MemoryMapTagEntryType::Custom(id)
    }
}

/// The number that stands for type `t`.
pub open spec fn entry_type_id(t: MemoryMapTagEntryType) -> u32 {
    match t {
        MemoryMapTagEntryType::Available => 1,
        MemoryMapTagEntryType::Reserved => 2,
        MemoryMapTagEntryType::AcpiAvailable => 3,
        MemoryMapTagEntryType::ReservedHibernate => 4,
        MemoryMapTagEntryType::Defective => 5,
        MemoryMapTagEntryType::Custom(v) => v,
    }
}

impl MemoryMapTagEntryType {
    /// The type that `id` stands for.
    pub fn from_id(id: &MemoryMapTagEntryTypeId) -> (r: Self)
        ensures
            r == entry_type_of(id.0),
    {
        match id.0 {
            1 => MemoryMapTagEntryType::Available,
            2 => MemoryMapTagEntryType::Reserved,
            3 => MemoryMapTagEntryType::AcpiAvailable,
            4 => MemoryMapTagEntryType::ReservedHibernate,
            5 => MemoryMapTagEntryType::Defective,
            val => MemoryMapTagEntryType::Custom(val),
        }
    }

    /// Whether `id` stands for this type: the two numbers are equal.
    pub fn is_id(&self, id: &MemoryMapTagEntryTypeId) -> (r: bool)
        ensures
            r == (entry_type_id(*self) == id.0),
    {
        MemoryMapTagEntryTypeId::from_type(self).0 == id.0
    }
}

impl MemoryMapTagEntryTypeId {
    /// The number that stands for `t`.
    pub fn from_type(t: &MemoryMapTagEntryType) -> (r: Self)
        ensures
            r.0 == entry_type_id(*t),
    {
        match t {
            MemoryMapTagEntryType::Available => MemoryMapTagEntryTypeId(1),
            MemoryMapTagEntryType::Reserved => MemoryMapTagEntryTypeId(2),
            MemoryMapTagEntryType::AcpiAvailable => MemoryMapTagEntryTypeId(3),
            MemoryMapTagEntryType::ReservedHibernate => MemoryMapTagEntryTypeId(4),
            MemoryMapTagEntryType::Defective => MemoryMapTagEntryTypeId(5),
            MemoryMapTagEntryType::Custom(val) => MemoryMapTagEntryTypeId(*val),
        }
    }

    /// Whether this number stands for `t`.
    pub fn is_type(&self, t: &MemoryMapTagEntryType) -> (r: bool)
        ensures
            r == (self.0 == entry_type_id(*t)),
    {
        self.0 == MemoryMapTagEntryTypeId::from_type(t).0
    }
}

/// Law: a number turned into a type and back is the same number.
pub proof fn lemma_entry_type_roundtrip(id: u32)
    ensures
        entry_type_id(entry_type_of(id)) == id,
{
}

/// Law: memory map entry types carry their Multiboot 2 numbers: 1
/// available RAM, 2 reserved, 3 ACPI reclaimable, 4 reserved across
/// hibernation, 5 defective; every other number is a custom type that keeps
/// it.
pub proof fn lemma_entry_type_numbers(id: u32)
    ensures
        (entry_type_of(id) == MemoryMapTagEntryType::Available) <==> id == 1,
        (entry_type_of(id) == MemoryMapTagEntryType::Reserved) <==> id == 2,
        (entry_type_of(id) == MemoryMapTagEntryType::AcpiAvailable) <==> id == 3,
        (entry_type_of(id) == MemoryMapTagEntryType::ReservedHibernate) <==> id == 4,
        (entry_type_of(id) == MemoryMapTagEntryType::Defective) <==> id == 5,
        (entry_type_of(id) == MemoryMapTagEntryType::Custom(id)) <==> (id == 0 || id > 5),
        entry_type_id(MemoryMapTagEntryType::Available) == 1,
        entry_type_id(MemoryMapTagEntryType::Reserved) == 2,
        entry_type_id(MemoryMapTagEntryType::AcpiAvailable) == 3,
        entry_type_id(MemoryMapTagEntryType::ReservedHibernate) == 4,
        entry_type_id(MemoryMapTagEntryType::Defective) == 5,
        entry_type_id(MemoryMapTagEntryType::Custom(id)) == id,
{
}

/// One range of physical memory.
#[derive(Debug, Clone, Copy)]
pub struct MemoryMapTagEntry {
    pub base_addr: u64,
    pub length: u64,
    pub memory_area_type: MemoryMapTagEntryTypeId,
    pub reserved: u32,
}

/// `e` is the memory map entry held by the 24 bytes at `pos` of `bytes`.
pub open spec fn entry_at(e: MemoryMapTagEntry, bytes: Seq<u8>, pos: int) -> bool {
    &&& e.base_addr == u64_at(bytes, pos)
    &&& e.length == u64_at(bytes, pos + 8)
    &&& e.memory_area_type.0 == u32_at(bytes, pos + 16)
    &&& e.reserved == u32_at(bytes, pos + 20)
}

/// The memory map entry at `pos` of `bytes`.
pub open spec fn entry_value(bytes: Seq<u8>, pos: int) -> MemoryMapTagEntry {
    MemoryMapTagEntry {
        base_addr: u64_at(bytes, pos) as u64,
        length: u64_at(bytes, pos + 8) as u64,
        memory_area_type: MemoryMapTagEntryTypeId(u32_at(bytes, pos + 16) as u32),
        reserved: u32_at(bytes, pos + 20) as u32,
    }
}

/// Law: a memory map entry holds, little-endian, the base address in its
/// first 8 bytes, the length in the next 8, the type number in the 4 after
/// them and a reserved word in the last 4.
pub proof fn lemma_entry_layout(e: MemoryMapTagEntry, bytes: Seq<u8>, pos: int)
    requires
        entry_at(e, bytes, pos),
    ensures
        e.base_addr == crate::elf::field_value(bytes, pos, 8, crate::elf::Endianness::Little),
        e.length == crate::elf::field_value(bytes, pos + 8, 8, crate::elf::Endianness::Little),
        e.memory_area_type.0 == crate::elf::field_value(
            bytes,
            pos + 16,
            4,
            crate::elf::Endianness::Little,
        ),
        e.reserved == crate::elf::field_value(bytes, pos + 20, 4, crate::elf::Endianness::Little),
{
}

/// An entry read from `bytes` is the entry that `bytes` hold.
pub proof fn lemma_entry_value(e: MemoryMapTagEntry, bytes: Seq<u8>, pos: int)
    requires
        entry_at(e, bytes, pos),
    ensures
        e == entry_value(bytes, pos),
{
}

/// The memory map: the size and version of its entries, and the entries.
pub struct MemoryMapTag {
    pub header: TagHeader,
    pub entry_size: u32,
    pub entry_version: u32,
    pub entries: Vec<MemoryMapTagEntry>,
}

impl Tag for MemoryMapTag {
    open spec fn kind() -> TagType {
        TagType::MemoryMap
    }

    open spec fn min_size() -> nat {
        16
    }

    fn tag_type() -> (t: TagType) {
        TagType::MemoryMap
    }

    /// The number of whole entries after the fixed fields.
    fn dst_len(header: &TagHeader) -> (n: usize)
        ensures
            n == (header.size - 16) / 24,
    {
        (header.size as usize - 16) / MEMORY_MAP_ENTRY_SIZE
    }
}

impl MemoryMapTag {
    /// Reads the memory map from its tag: the entry size and version, then
    /// as many whole 24-byte entries as the tag's size leaves room for.
    pub fn from_container(c: &TagContainer) -> (r: Self)
        requires
            c.header.tag_type == TagType::MemoryMap,
            c.header.size >= 16,
            c.payload@.len() + 8 == c.header.size,
        ensures
            r.header == c.header,
            r.entry_size == u32_at(c.payload@, 0),
            r.entry_version == u32_at(c.payload@, 4),
            r.entries@.len() == (c.header.size - 16) / 24,
            forall|k: int|
                0 <= k < r.entries@.len() ==> entry_at(#[trigger] r.entries@[k], c.payload@, 8 + 24 * k),
    {
        let p = c.payload;
        let entry_size = read_u32(p, 0);
        let entry_version = read_u32(p, 4);
        let n = Self::dst_len(&c.header);
        let mut entries: Vec<MemoryMapTagEntry> = Vec::new();
        let mut k: usize = 0;
        while k < n
            invariant
                p == c.payload,
                n == (c.header.size - 16) / 24,
                p@.len() + 8 == c.header.size,
                k <= n,
                entries@.len() == k,
                forall|j: int| 0 <= j < k ==> entry_at(#[trigger] entries@[j], p@, 8 + 24 * j),
            decreases n - k,
        {
            let pos = 8 + k * MEMORY_MAP_ENTRY_SIZE;
            let entry = MemoryMapTagEntry {
                base_addr: read_u64(p, pos),
                length: read_u64(p, pos + 8),
                memory_area_type: MemoryMapTagEntryTypeId(read_u32(p, pos + 16)),
                reserved: read_u32(p, pos + 20),
            };
            entries.push(entry);
            k = k + 1;
        }
        MemoryMapTag { header: c.header, entry_size, entry_version, entries }
    }
}

} // verus!
