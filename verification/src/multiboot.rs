//! Multiboot 2 boot information: the chain of tags that a boot loader hands
//! the kernel, read from the bytes that follow its header.
use vstd::prelude::*;

use crate::elf::{field_value, read_uint, Endianness};
use crate::multiboot::memory_map::{entry_at, MemoryMapTag};
use crate::multiboot::tags::{BootLoaderNameTag, CommandLineTag};

pub mod memory_map;
pub mod tags;

verus! {

/// The value a Multiboot 2 boot loader leaves in a register to say that it
/// loaded the kernel.
pub const MULTIBOOT2_MAGIC: u32 = 0x36D76289;

/// The little-endian 32-bit value at `pos` in `bytes`.
pub open spec fn u32_at(bytes: Seq<u8>, pos: int) -> nat {
    field_value(bytes, pos, 4, Endianness::Little)
}

/// The little-endian 64-bit value at `pos` in `bytes`.
pub open spec fn u64_at(bytes: Seq<u8>, pos: int) -> nat {
    field_value(bytes, pos, 8, Endianness::Little)
}

/// Law: Multiboot 2 numbers are little-endian: the 32-bit value at `pos`
/// has its least significant byte first.
pub proof fn lemma_u32_at_little_endian(bytes: Seq<u8>, pos: int)
    requires
        0 <= pos,
        pos + 4 <= bytes.len(),
    ensures
        u32_at(bytes, pos) == bytes[pos] + 256 * bytes[pos + 1] + 65536 * bytes[pos + 2]
            + 16777216 * bytes[pos + 3],
{
    crate::elf::lemma_field_byte_order(bytes, pos);
}

pub(crate) fn read_u32(bytes: &[u8], pos: usize) -> (r: u32)
    requires
        pos + 4 <= bytes@.len(),
    ensures
        r == u32_at(bytes@, pos as int),
{
    proof {
        crate::elf::lemma_byte_pow_8();
    }
    read_uint(bytes, pos, 4, Endianness::Little) as u32
}

pub(crate) fn read_u64(bytes: &[u8], pos: usize) -> (r: u64)
    requires
        pos + 8 <= bytes@.len(),
    ensures
        r == u64_at(bytes@, pos as int),
{
    read_uint(bytes, pos, 8, Endianness::Little)
}

/// The fixed part in front of the boot information: its total length in
/// bytes, this header included.
#[derive(Debug)]
pub struct BootInformationHeader {
    pub length: u32,
    pub reserved: u32,
}

/// The boot information: its header and the tags that follow it.
pub struct BootInformation<'a> {
    pub header: BootInformationHeader,
    pub payload: &'a [u8],
}

/// The kinds of tag that Multiboot 2 defines.
#[derive(Debug, Clone, Copy, PartialEq, Eq, Structural)]
pub enum TagType {
    End,
    CommandLine,
    BootLoaderName,
    Modules,
    BasicMemoryInformation,
    BiosBootDevice,
    MemoryMap,
    VbeInfo,
    FrameBufferInfo,
    ElfSymbols,
    ApmTable,
    Efi32BitSystemTablePointer,
    Efi64BitSystemTablePointer,
    SmbiosTables,
    AcpiOldRsdp,
    AcpiNewRsdp,
    NetworkingInfo,
    EfiMemoryMap,
    EfiBootServicesNotTerminated,
    Efi32BitImageHandlePointer,
    Efi64BitImageHandlePointer,
    ImageLoadBasePhysicalAddress,
}

/// The kind of tag that the number `v` stands for, if any.
pub open spec fn tag_type_of(v: nat) -> Option<TagType> {
    if v == 0 {
        Some(TagType::End)
    } else if v == 1 {
        Some(TagType::CommandLine)
    } else if v == 2 {
        Some(TagType::BootLoaderName)
    } else if v == 3 {
        Some(TagType::Modules)
    } else if v == 4 {
        Some(TagType::BasicMemoryInformation)
    } else if v == 5 {
        Some(TagType::BiosBootDevice)
    } else if v == 6 {
        Some(TagType::MemoryMap)
    } else if v == 7 {
        Some(TagType::VbeInfo)
    } else if v == 8 {
        Some(TagType::FrameBufferInfo)
    } else if v == 9 {
        Some(TagType::ElfSymbols)
    } else if v == 10 {
        Some(TagType::ApmTable)
    } else if v == 11 {
        Some(TagType::Efi32BitSystemTablePointer)
    } else if v == 12 {
        Some(TagType::Efi64BitSystemTablePointer)
    } else if v == 13 {
        Some(TagType::SmbiosTables)
    } else if v == 14 {
        Some(TagType::AcpiOldRsdp)
    } else if v == 15 {
        Some(TagType::AcpiNewRsdp)
    } else if v == 16 {
        Some(TagType::NetworkingInfo)
    } else if v == 17 {
        Some(TagType::EfiMemoryMap)
    } else if v == 18 {
        Some(TagType::EfiBootServicesNotTerminated)
    } else if v == 19 {
        Some(TagType::Efi32BitImageHandlePointer)
    } else if v == 20 {
        Some(TagType::Efi64BitImageHandlePointer)
    } else if v == 21 {
        Some(TagType::ImageLoadBasePhysicalAddress)
    } else {
        None
    }
}

/// Law: tag types carry their Multiboot 2 numbers, from 0 for the end tag
/// to 21 for the image load base address, in the order the specification
/// lists them; no other number names a tag type.
pub proof fn lemma_tag_type_numbers(v: nat)
    ensures
        (tag_type_of(v) == Some(TagType::End)) <==> v == 0,
        (tag_type_of(v) == Some(TagType::CommandLine)) <==> v == 1,
        (tag_type_of(v) == Some(TagType::BootLoaderName)) <==> v == 2,
        (tag_type_of(v) == Some(TagType::Modules)) <==> v == 3,
        (tag_type_of(v) == Some(TagType::BasicMemoryInformation)) <==> v == 4,
        (tag_type_of(v) == Some(TagType::BiosBootDevice)) <==> v == 5,
        (tag_type_of(v) == Some(TagType::MemoryMap)) <==> v == 6,
        (tag_type_of(v) == Some(TagType::VbeInfo)) <==> v == 7,
        (tag_type_of(v) == Some(TagType::FrameBufferInfo)) <==> v == 8,
        (tag_type_of(v) == Some(TagType::ElfSymbols)) <==> v == 9,
        (tag_type_of(v) == Some(TagType::ApmTable)) <==> v == 10,
        (tag_type_of(v) == Some(TagType::Efi32BitSystemTablePointer)) <==> v == 11,
        (tag_type_of(v) == Some(TagType::Efi64BitSystemTablePointer)) <==> v == 12,
        (tag_type_of(v) == Some(TagType::SmbiosTables)) <==> v == 13,
        (tag_type_of(v) == Some(TagType::AcpiOldRsdp)) <==> v == 14,
        (tag_type_of(v) == Some(TagType::AcpiNewRsdp)) <==> v == 15,
        (tag_type_of(v) == Some(TagType::NetworkingInfo)) <==> v == 16,
        (tag_type_of(v) == Some(TagType::EfiMemoryMap)) <==> v == 17,
        (tag_type_of(v) == Some(TagType::EfiBootServicesNotTerminated)) <==> v == 18,
        (tag_type_of(v) == Some(TagType::Efi32BitImageHandlePointer)) <==> v == 19,
        (tag_type_of(v) == Some(TagType::Efi64BitImageHandlePointer)) <==> v == 20,
        (tag_type_of(v) == Some(TagType::ImageLoadBasePhysicalAddress)) <==> v == 21,
        tag_type_of(v) is None <==> v > 21,
{
}

impl TagType {
    /// The kind of tag that the number `value` stands for, if any.
    pub fn from_u32(value: u32) -> (r: Option<TagType>)
        ensures
            r == tag_type_of(value as nat),
    {
        match value {
            0 => Some(TagType::End),
            1 => Some(TagType::CommandLine),
            2 => Some(TagType::BootLoaderName),
            3 => Some(TagType::Modules),
            4 => Some(TagType::BasicMemoryInformation),
            5 => Some(TagType::BiosBootDevice),
            6 => Some(TagType::MemoryMap),
            7 => Some(TagType::VbeInfo),
            8 => Some(TagType::FrameBufferInfo),
            9 => Some(TagType::ElfSymbols),
            10 => Some(TagType::ApmTable),
            11 => Some(TagType::Efi32BitSystemTablePointer),
            12 => Some(TagType::Efi64BitSystemTablePointer),
            13 => Some(TagType::SmbiosTables),
            14 => Some(TagType::AcpiOldRsdp),
            15 => Some(TagType::AcpiNewRsdp),
            16 => Some(TagType::NetworkingInfo),
            17 => Some(TagType::EfiMemoryMap),
            18 => Some(TagType::EfiBootServicesNotTerminated),
            19 => Some(TagType::Efi32BitImageHandlePointer),
            20 => Some(TagType::Efi64BitImageHandlePointer),
            21 => Some(TagType::ImageLoadBasePhysicalAddress),
            _ => None,
        }
    }
}

/// The first eight bytes of every tag: its kind and its size in bytes,
/// these eight included.
#[derive(Debug, Clone, Copy)]
pub struct TagHeader {
    pub tag_type: TagType,
    pub size: u32,
}

/// `h` is the header held by the eight bytes at `pos` of `bytes`.
pub open spec fn header_at(h: TagHeader, bytes: Seq<u8>, pos: int) -> bool {
    &&& tag_type_of(u32_at(bytes, pos)) == Some(h.tag_type)
    &&& h.size == u32_at(bytes, pos + 4)
}

impl TagHeader {
    /// Reads a tag header from the first eight bytes of `bytes`; `None` when
    /// its kind is not one Multiboot 2 defines.
    pub fn from_bytes(bytes: &[u8]) -> (r: Option<TagHeader>)
        requires
            bytes@.len() >= 8,
        ensures
            r is Some <==> tag_type_of(u32_at(bytes@, 0)) is Some,
            r matches Some(h) ==> header_at(h, bytes@, 0),
    {
        let type_id = read_u32(bytes, 0);
        let size = read_u32(bytes, 4);
        match TagType::from_u32(type_id) {
            Some(tag_type) => Some(TagHeader { tag_type, size }),
            None => None,
        }
    }
}

/// A tag: its header and the bytes after the header, up to its size.
pub struct TagContainer<'a> {
    pub header: TagHeader,
    pub payload: &'a [u8],
}

/// `c` is the tag that starts at `pos` of `bytes`.
pub open spec fn container_at(c: TagContainer, bytes: Seq<u8>, pos: int) -> bool {
    &&& header_at(c.header, bytes, pos)
    &&& c.payload@ == bytes.subrange(pos + 8, pos + c.header.size)
}

impl<'a> TagContainer<'a> {
    /// Reads the tag that `bytes` hold, its header first; `None` when the
    /// header names no known kind or its size does not fit in `bytes`.
    pub fn from_bytes(bytes: &'a [u8]) -> (r: Option<Self>)
        requires
            bytes@.len() >= 8,
        ensures
            r is Some <==> (tag_type_of(u32_at(bytes@, 0)) is Some && 8 <= u32_at(bytes@, 4)
                <= bytes@.len()),
            r matches Some(c) ==> container_at(c, bytes@, 0),
    {
        match TagHeader::from_bytes(bytes) {
            Some(header) => {
                let size = header.size as usize;
                if size < 8 || size > bytes.len() {
                    None
                } else {
                    Some(TagContainer { header, payload: vstd::slice::slice_subrange(bytes, 8, size) })
                }
            },
            None => None,
        }
    }
}

/// A kind of tag, with the length of its variable part.
pub trait Tag {
    /// The kind of this tag.
    spec fn kind() -> TagType;

    /// The fewest bytes a tag of this kind spans, header included.
    spec fn min_size() -> nat;

    /// The kind of this tag.
    fn tag_type() -> (t: TagType)
        ensures
            t == Self::kind(),
    ;

    /// The number of items in the variable part of a tag with `header`.
    fn dst_len(header: &TagHeader) -> usize
        requires
            header.size >= Self::min_size(),
    ;
}

/// The bytes after the header of the tag at `pos`, up to its size.
pub open spec fn tag_payload(bytes: Seq<u8>, pos: int) -> Seq<u8> {
    bytes.subrange(pos + 8, pos + u32_at(bytes, pos + 4))
}

/// `n` rounded up to a multiple of 8.
pub open spec fn round8(n: int) -> int {
    (n + 7) / 8 * 8
}

/// A well-formed tag starts at `pos` of `bytes`: its header fits, names a
/// known kind, and its size covers the header and fits.
pub open spec fn tag_ok(bytes: Seq<u8>, pos: int) -> bool {
    &&& 0 <= pos
    &&& pos + 8 <= bytes.len()
    &&& tag_type_of(u32_at(bytes, pos)) is Some
    &&& 8 <= u32_at(bytes, pos + 4)
    &&& pos + u32_at(bytes, pos + 4) <= bytes.len()
}

/// Where the tag after the one at `pos` starts: tags are 8-byte aligned.
pub open spec fn next_tag(bytes: Seq<u8>, pos: int) -> int {
    pos + round8(u32_at(bytes, pos + 4) as int)
}

/// The offsets of the tags from `pos` to the end of `bytes`, or `None`
/// when a malformed tag comes first.
pub open spec fn tag_offsets(bytes: Seq<u8>, pos: int) -> Option<Seq<int>>
    decreases bytes.len() + 8 - pos,
{
    if pos >= bytes.len() {
        Some(Seq::empty())
    } else if !tag_ok(bytes, pos) {
        None
    } else if next_tag(bytes, pos) <= pos {
        None
    } else {
        match tag_offsets(bytes, next_tag(bytes, pos)) {
            Some(rest) => Some(seq![pos] + rest),
            None => None,
        }
    }
}

/// The offset of the first tag of kind `t` from `pos` on, or `None` when
/// the chain ends, or turns malformed, before one.
pub open spec fn find_tag(bytes: Seq<u8>, pos: int, t: TagType) -> Option<int>
    decreases bytes.len() + 8 - pos,
{
    if pos >= bytes.len() {
        None
    } else if !tag_ok(bytes, pos) {
        None
    } else if tag_type_of(u32_at(bytes, pos)) == Some(t) {
        Some(pos)
    } else if next_tag(bytes, pos) <= pos {
        None
    } else {
        find_tag(bytes, next_tag(bytes, pos), t)
    }
}

/// The first of the offsets `offs` where a tag of kind `t` starts.
pub open spec fn first_of_kind(bytes: Seq<u8>, offs: Seq<int>, t: TagType) -> Option<int>
    decreases offs.len(),
{
    if offs.len() == 0 {
        None
    } else if tag_type_of(u32_at(bytes, offs[0])) == Some(t) {
        Some(offs[0])
    } else {
        first_of_kind(bytes, offs.drop_first(), t)
    }
}

/// Law: when the tags from `pos` on are all well formed, the tag that
/// `get_tag` finds is the first of its kind among those `get_tags` lists,
/// and there is none exactly when none is listed.
pub proof fn lemma_find_tag_is_first_listed(bytes: Seq<u8>, pos: int, t: TagType)
    requires
        tag_offsets(bytes, pos) is Some,
    ensures
        find_tag(bytes, pos, t) == first_of_kind(bytes, tag_offsets(bytes, pos)->0, t),
    decreases bytes.len() + 8 - pos,
{
    if pos < bytes.len() {
        let next = next_tag(bytes, pos);
        lemma_find_tag_is_first_listed(bytes, next, t);
        let rest = tag_offsets(bytes, next)->0;
        assert((seq![pos] + rest).drop_first() =~= rest);
    }
}

proof fn lemma_round8(n: int)
    requires
        n >= 8,
    ensures
        n <= round8(n) <= n + 7,
        round8(n) >= 8,
{
}

impl<'a> BootInformation<'a> {
    /// The boot information at the start of `bytes`: its header gives the
    /// total length, header included. `None` when the length is shorter
    /// than the header or longer than `bytes`.
    pub fn from_bytes(bytes: &'a [u8]) -> (r: Option<Self>)
        ensures
            r is Some <==> (bytes@.len() >= 8 && 8 <= u32_at(bytes@, 0) <= bytes@.len()),
            r matches Some(b) ==> {
                &&& b.header.length == u32_at(bytes@, 0)
                &&& b.header.reserved == u32_at(bytes@, 4)
                &&& b.payload@ == bytes@.subrange(8, u32_at(bytes@, 0) as int)
            },
    {
        if bytes.len() < 8 {
            return None;
        }
        let length = read_u32(bytes, 0);
        let reserved = read_u32(bytes, 4);
        if length < 8 || length as usize > bytes.len() {
            return None;
        }
        Some(BootInformation {
            header: BootInformationHeader { length, reserved },
            payload: vstd::slice::slice_subrange(bytes, 8, length as usize),
        })
    }

    /// All tags, in order. Every tag up to the end of the payload must be
    /// well formed (see `tags_well_formed`).
    pub fn get_tags(&self) -> (r: Vec<TagContainer<'a>>)
        requires
            self.payload@.len() + 8 <= usize::MAX,
            tag_offsets(self.payload@, 0) is Some,
        ensures
            ({
                let offs = tag_offsets(self.payload@, 0)->0;
                &&& r@.len() == offs.len()
                &&& forall|k: int|
                    0 <= k < r@.len() ==> container_at(#[trigger] r@[k], self.payload@, offs[k])
            }),
    {
        match self.scan_tags() {
            Some(v) => v,
            None => vstd::pervasive::unreached(),
        }
    }

    /// Whether every tag up to the end of the payload is well formed, which
    /// `get_tags` needs.
    pub fn tags_well_formed(&self) -> (r: bool)
        requires
            self.payload@.len() + 8 <= usize::MAX,
        ensures
            r == tag_offsets(self.payload@, 0) is Some,
    {
        self.scan_tags().is_some()
    }

    /// All tags, in order; `None` when a malformed tag comes before the end
    /// of the payload.
    fn scan_tags(&self) -> (r: Option<Vec<TagContainer<'a>>>)
        requires
            self.payload@.len() + 8 <= usize::MAX,
        ensures
            r is Some <==> tag_offsets(self.payload@, 0) is Some,
            r matches Some(v) ==> {
                let offs = tag_offsets(self.payload@, 0)->0;
                &&& v@.len() == offs.len()
                &&& forall|k: int|
                    0 <= k < v@.len() ==> container_at(#[trigger] v@[k], self.payload@, offs[k])
            },
    {
        let p = self.payload;
        let len = p.len();
        let mut tags: Vec<TagContainer<'a>> = Vec::new();
        let ghost mut offs: Seq<int> = Seq::empty();
        let mut i: usize = 0;
        while i < len
            invariant
                p == self.payload,
                len == p@.len(),
                len + 8 <= usize::MAX,
                i <= len + 7,
                tags@.len() == offs.len(),
                forall|k: int| 0 <= k < tags@.len() ==> container_at(#[trigger] tags@[k], p@, offs[k]),
                tag_offsets(p@, 0) == match tag_offsets(p@, i as int) {
                    Some(rest) => Some(offs + rest),
                    None => None::<Seq<int>>,
                },
            decreases len + 8 - i,
        {
            if i + 8 > len {
                assert(tag_offsets(p@, i as int) is None);
                return None;
            }
            let tail = vstd::slice::slice_subrange(p, i, len);
            assert(tail@.subrange(0, 4) =~= p@.subrange(i as int, i + 4));
            assert(tail@.subrange(4, 8) =~= p@.subrange(i + 4, i + 8));
            match TagContainer::from_bytes(tail) {
                Some(c) => {
                    let size = c.header.size as usize;
                    proof {
                        lemma_round8(size as int);
                        assert(c.payload@ =~= p@.subrange(i + 8, i + size));
                    }
                    let step = (size + 7) / 8 * 8;
                    assert(step == round8(size as int));
                    proof {
                        let rest = tag_offsets(p@, i + step);
                        assert(tag_ok(p@, i as int));
                        match rest {
                            Some(r) => {
                                assert(offs + (seq![i as int] + r) =~= offs.push(i as int) + r);
                            },
                            None => {},
                        }
                    }
                    tags.push(c);
                    proof {
                        offs = offs.push(i as int);
                    }
                    i = i + step;
                },
                None => {
                    assert(!tag_ok(p@, i as int));
                    assert(tag_offsets(p@, i as int) is None);
                    return None;
                },
            }
        }
        assert(offs + Seq::<int>::empty() =~= offs);
        Some(tags)
    }

    /// The command line tag; `None` when the chain ends, or turns malformed,
    /// before one.
    pub fn command_line(&self) -> (r: Option<CommandLineTag<'a>>)
        requires
            self.payload@.len() + 8 <= usize::MAX,
        ensures
            r is Some <==> find_tag(self.payload@, 0, TagType::CommandLine) is Some,
            r matches Some(t) ==> {
                let off = find_tag(self.payload@, 0, TagType::CommandLine)->0;
                &&& header_at(t.header, self.payload@, off)
                &&& t.string@ == tag_payload(self.payload@, off)
            },
    {
        match self.get_tag::<CommandLineTag>() {
            Some(c) => Some(CommandLineTag::from_container(&c)),
            None => None,
        }
    }

    /// The boot loader name tag; `None` when the chain ends, or turns
    /// malformed, before one.
    pub fn boot_loader_name(&self) -> (r: Option<BootLoaderNameTag<'a>>)
        requires
            self.payload@.len() + 8 <= usize::MAX,
        ensures
            r is Some <==> find_tag(self.payload@, 0, TagType::BootLoaderName) is Some,
            r matches Some(t) ==> {
                let off = find_tag(self.payload@, 0, TagType::BootLoaderName)->0;
                &&& header_at(t.header, self.payload@, off)
                &&& t.string@ == tag_payload(self.payload@, off)
            },
    {
        match self.get_tag::<BootLoaderNameTag>() {
            Some(c) => Some(BootLoaderNameTag::from_container(&c)),
            None => None,
        }
    }

    /// The memory map; `None` when the chain ends, or turns malformed, before
    /// one, or when the one found is too short for its fixed fields.
    pub fn memory_map(&self) -> (r: Option<MemoryMapTag>)
        requires
            self.payload@.len() + 8 <= usize::MAX,
        ensures
            r is Some <==> (find_tag(self.payload@, 0, TagType::MemoryMap) matches Some(off)
                && u32_at(self.payload@, off + 4) >= 16),
            r matches Some(m) ==> {
                let off = find_tag(self.payload@, 0, TagType::MemoryMap)->0;
                let body = tag_payload(self.payload@, off);
                &&& header_at(m.header, self.payload@, off)
                &&& m.entry_size == u32_at(body, 0)
                &&& m.entry_version == u32_at(body, 4)
                &&& m.entries@.len() == (m.header.size - 16) / 24
                &&& forall|k: int|
                    0 <= k < m.entries@.len() ==> entry_at(#[trigger] m.entries@[k], body, 8 + 24 * k)
            },
    {
        match self.get_tag::<MemoryMapTag>() {
            Some(c) => {
                if c.header.size < 16 {
                    None
                } else {
                    Some(MemoryMapTag::from_container(&c))
                }
            },
            None => None,
        }
    }

    /// The first tag of kind `T`; `None` when the chain ends, or turns
    /// malformed, before one.
    pub fn get_tag<T: Tag>(&self) -> (r: Option<TagContainer<'a>>)
        requires
            self.payload@.len() + 8 <= usize::MAX,
        ensures
            r is Some <==> find_tag(self.payload@, 0, T::kind()) is Some,
            r matches Some(c) ==> container_at(c, self.payload@, find_tag(self.payload@, 0, T::kind())->0),
            r matches Some(c) ==> c.header.tag_type == T::kind() && c.payload@.len() + 8 == c.header.size,
    {
        let kind = T::tag_type();
        let p = self.payload;
        let len = p.len();
        let mut i: usize = 0;
        while i < len
            invariant
                p == self.payload,
                len == p@.len(),
                len + 8 <= usize::MAX,
                i <= len + 7,
                kind == T::kind(),
                find_tag(p@, 0, kind) == find_tag(p@, i as int, kind),
            decreases len + 8 - i,
        {
            if i + 8 > len {
                assert(find_tag(p@, i as int, kind) is None);
                return None;
            }
            let tail = vstd::slice::slice_subrange(p, i, len);
            assert(tail@.subrange(0, 4) =~= p@.subrange(i as int, i + 4));
            assert(tail@.subrange(4, 8) =~= p@.subrange(i + 4, i + 8));
            match TagContainer::from_bytes(tail) {
                Some(c) => {
                    let size = c.header.size as usize;
                    proof {
                        lemma_round8(size as int);
                        assert(c.payload@ =~= p@.subrange(i + 8, i + size));
                        assert(tag_ok(p@, i as int));
                    }
                    if c.header.tag_type == kind {
                        return Some(c);
                    }
                    let step = (size + 7) / 8 * 8;
                    assert(step == round8(size as int));
                    i = i + step;
                },
                None => {
                    assert(!tag_ok(p@, i as int));
                    assert(find_tag(p@, i as int, kind) is None);
                    return None;
                },
            }
        }
        None
    }
}

} // verus!
