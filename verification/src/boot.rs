//! What the kernel takes from the boot loader before it starts the first
//! user program: the initial file system, the command line, the memory the
//! kernel image occupies and the memory that is free.
use vstd::prelude::*;
use vstd::string::*;
use vstd::utf8::{is_continuation_byte, valid_utf8};

use crate::capability::Region;
use crate::elf::{
    lemma_section_entry_value, section_entry_value, table_entry_bytes, Architecture, Endianness,
    ProgramHeaderEntry, SectionHeaderEntry, SegmentType,
};
use crate::multiboot::tags::{class_of_entry_size, text_of, ElfSectionsTag};
use crate::multiboot::memory_map::{entry_value, lemma_entry_value, MemoryMapTagEntry};
use crate::multiboot::{find_tag, tag_payload, u32_at, BootInformation, TagType, MULTIBOOT2_MAGIC};
use crate::paging::PhysicalAddress;
use crate::tar::File;
use crate::text::{bytes_equal, str_from_utf8, trim_nul, trim_nul_bytes};

verus! {

/// Whether the boot loader that started the kernel speaks Multiboot 2: it
/// left the Multiboot 2 magic value.
pub fn is_multiboot2(mb_magic: u32) -> (r: bool)
    ensures
        r == (mb_magic == MULTIBOOT2_MAGIC),
{
    mb_magic == MULTIBOOT2_MAGIC
}

/// Bytes of the command line the kernel keeps.
pub const COMMAND_LINE_SIZE: usize = 128;

/// How many free memory regions the kernel keeps.
pub const MEMORY_REGIONS: usize = 16;

/// What the boot loader told the kernel.
pub struct Info<'a> {
    pub tarfs: Option<&'a [u8]>,
    pub command_line: [u8; 128],
    pub kernel_memory_region: Option<Region>,
    pub available_memory_regions: [Option<Region>; 16],
}

impl<'a> Info<'a> {
    /// Nothing known yet: no file system, an all-NUL command line and no
    /// regions.
    pub fn empty() -> (r: Self)
        ensures
            r.tarfs is None,
            forall|k: int| 0 <= k < 128 ==> r.command_line@[k] == 0,
            r.kernel_memory_region is None,
            forall|k: int| 0 <= k < 16 ==> r.available_memory_regions@[k] is None,
    {
        Info {
            tarfs: None,
            command_line: [0u8; 128],
            kernel_memory_region: None,
            available_memory_regions: [None; 16],
        }
    }
}

/// The command line as the kernel keeps it: its bytes, then NUL bytes up
/// to 128.
pub fn command_line_array(text: &str) -> (r: [u8; 128])
    requires
        text.spec_bytes().len() <= 128,
    ensures
        forall|k: int| 0 <= k < text.spec_bytes().len() ==> r@[k] == text.spec_bytes()[k],
        forall|k: int| text.spec_bytes().len() <= k < 128 ==> r@[k] == 0,
{
    let bytes = text.as_bytes();
    let mut out = [0u8; 128];
    let mut i: usize = 0;
    while i < bytes.len()
        invariant
            bytes@ == text.spec_bytes(),
            bytes@.len() <= 128,
            i <= bytes@.len(),
            forall|k: int| 0 <= k < i ==> out@[k] == bytes@[k],
            forall|k: int| i <= k < 128 ==> out@[k] == 0,
        decreases bytes@.len() - i,
    {
        out[i] = bytes[i];
        i = i + 1;
    }
    out
}

// ---------------------------------------------------------------------------
// Free memory
// ---------------------------------------------------------------------------
/// The entry describes memory that is free for use.
pub open spec fn is_available(e: MemoryMapTagEntry) -> bool {
    e.memory_area_type.0 == 1
}

/// The entries that describe free memory, in order.
pub open spec fn available_entries(es: Seq<MemoryMapTagEntry>) -> Seq<MemoryMapTagEntry>
    decreases es.len(),
{
    if es.len() == 0 {
        Seq::empty()
    } else if is_available(es.last()) {
        available_entries(es.drop_last()).push(es.last())
    } else {
        available_entries(es.drop_last())
    }
}

/// The region runs from the entry's base address to its end.
pub open spec fn region_of(r: Region, e: MemoryMapTagEntry) -> bool {
    &&& r[0].0 == e.base_addr as usize
    &&& r[1].0 == (e.base_addr + e.length) as usize
}

/// The end of every entry that describes free memory fits in 64 bits.
pub open spec fn ends_fit(es: Seq<MemoryMapTagEntry>) -> bool {
    forall|k: int| 0 <= k < es.len() && is_available(#[trigger] es[k]) ==> es[k].base_addr + es[k].length <= u64::MAX
}

proof fn lemma_available_entries(es: Seq<MemoryMapTagEntry>, n: int)
    requires
        0 <= n < es.len(),
    ensures
        available_entries(es.take(n + 1)) == if is_available(es[n]) {
            available_entries(es.take(n)).push(es[n])
        } else {
            available_entries(es.take(n))
        },
        available_entries(es.take(n)).len() <= available_entries(es.take(n + 1)).len(),
{
    assert(es.take(n + 1).drop_last() =~= es.take(n));
}

proof fn lemma_available_prefix(es: Seq<MemoryMapTagEntry>, n: int)
    requires
        0 <= n <= es.len(),
    ensures
        available_entries(es.take(n)).len() <= available_entries(es).len(),
        forall|k: int|
            0 <= k < available_entries(es.take(n)).len() ==> #[trigger] available_entries(
                es.take(n),
            )[k] == available_entries(es)[k],
    decreases es.len() - n,
{
    if n < es.len() {
        lemma_available_prefix(es, n + 1);
        lemma_available_entries(es, n);
        let a = available_entries(es.take(n));
        let b = available_entries(es.take(n + 1));
        assert forall|k: int| 0 <= k < a.len() implies #[trigger] a[k] == available_entries(es)[k] by {
            assert(a[k] == b[k]);
        }
    } else {
        assert(es.take(n) =~= es);
    }
}

/// The free memory regions, in the order of the memory map, in the first
/// slots; the slots after them are empty. `None` when more than 16 regions
/// are free or the end of one does not fit in 64 bits.
pub fn available_regions(entries: &Vec<MemoryMapTagEntry>) -> (r: Option<[Option<Region>; 16]>)
    ensures
        r is Some <==> (available_entries(entries@).len() <= 16 && ends_fit(entries@)),
        r matches Some(a) ==> {
            &&& forall|k: int|
                0 <= k < available_entries(entries@).len() ==> (#[trigger] a@[k] matches Some(reg)
                    && region_of(reg, available_entries(entries@)[k]))
            &&& forall|k: int| available_entries(entries@).len() <= k < 16 ==> #[trigger] a@[k] is None
        },
{
    let mut out: [Option<Region>; 16] = [None; 16];
    let mut count: usize = 0;
    let mut i: usize = 0;
    proof {
        assert(entries@.take(0) =~= Seq::<MemoryMapTagEntry>::empty());
        lemma_available_prefix(entries@, 0);
    }
    while i < entries.len()
        invariant
            i <= entries@.len(),
            count == available_entries(entries@.take(i as int)).len(),
            count <= 16,
            count <= available_entries(entries@).len(),
            forall|k: int|
                0 <= k < i && is_available(#[trigger] entries@[k]) ==> entries@[k].base_addr
                    + entries@[k].length <= u64::MAX,
            forall|k: int|
                0 <= k < count ==> (#[trigger] out@[k] matches Some(reg) && region_of(
                    reg,
                    available_entries(entries@)[k],
                )),
            forall|k: int| count <= k < 16 ==> #[trigger] out@[k] is None,
        decreases entries@.len() - i,
    {
        proof {
            lemma_available_entries(entries@, i as int);
            lemma_available_prefix(entries@, i + 1);
        }
        let e = entries[i];
        if e.memory_area_type.0 == 1 {
            if count == 16 {
                return None;
            }
            if e.length > u64::MAX - e.base_addr {
                return None;
            }
            assert(available_entries(entries@.take(i + 1))[count as int] == e);
            let region = [
                PhysicalAddress(e.base_addr as usize),
                PhysicalAddress((e.base_addr + e.length) as usize),
            ];
            out[count] = Some(region);
            count = count + 1;
        }
        i = i + 1;
    }
    proof {
        assert(entries@.take(entries@.len() as int) =~= entries@);
    }
    Some(out)
}

// ---------------------------------------------------------------------------
// The kernel image
// ---------------------------------------------------------------------------
/// The name of the section that holds the boot loader's part of the kernel,
/// which is not counted as kernel memory.
pub open spec fn loader_name() -> Seq<u8> {
    seq![0x2eu8, 0x6cu8, 0x6fu8, 0x61u8, 0x64u8, 0x65u8, 0x72u8]
}

/// The NUL-terminated name at `off` of the string table `table` is `name`
/// (which holds no NUL byte); the table may end right after it.
pub open spec fn name_is(table: Seq<u8>, off: int, name: Seq<u8>) -> bool {
    &&& 0 <= off
    &&& off + name.len() <= table.len()
    &&& table.subrange(off, off + name.len()) == name
    &&& (off + name.len() == table.len() || table[off + name.len()] == 0)
}

/// The section is part of the kernel's memory: it is allocated at run time
/// and is not the loader's section.
pub open spec fn is_needed(s: SectionHeaderEntry, table: Seq<u8>) -> bool {
    &&& !name_is(table, s.name_offset as int, loader_name())
    &&& s.flags & 2 != 0
}

/// The sections that are part of the kernel's memory, in order.
pub open spec fn needed_sections(ss: Seq<SectionHeaderEntry>, table: Seq<u8>) -> Seq<
    SectionHeaderEntry,
>
    decreases ss.len(),
{
    if ss.len() == 0 {
        Seq::empty()
    } else if is_needed(ss.last(), table) {
        needed_sections(ss.drop_last(), table).push(ss.last())
    } else {
        needed_sections(ss.drop_last(), table)
    }
}

/// The lowest start address of the sections.
pub open spec fn lowest_start(ss: Seq<SectionHeaderEntry>) -> int
    decreases ss.len(),
{
    if ss.len() <= 1 {
        ss[0].addr as int
    } else {
        vstd::math::min(lowest_start(ss.drop_last()), ss.last().addr as int)
    }
}

/// The highest end address of the sections.
pub open spec fn highest_end(ss: Seq<SectionHeaderEntry>) -> int
    decreases ss.len(),
{
    if ss.len() <= 1 {
        ss[0].addr + ss[0].size
    } else {
        vstd::math::max(highest_end(ss.drop_last()), ss.last().addr + ss.last().size)
    }
}

/// Whether the NUL-terminated name at `off` of `table` is the loader's.
fn is_loader_section_name(table: &[u8], off: usize) -> (r: bool)
    ensures
        r == name_is(table@, off as int, loader_name()),
{
    let name: [u8; 7] = [0x2e, 0x6c, 0x6f, 0x61, 0x64, 0x65, 0x72];
    assert(name@ =~= loader_name());
    let len = table.len();
    if off > len || len - off < 7 {
        return false;
    }
    let mut k: usize = 0;
    while k < 7
        invariant
            k <= 7,
            off + 7 <= len,
            len == table@.len(),
            name@ == loader_name(),
            forall|j: int| 0 <= j < k ==> table@[off + j] == name@[j],
        decreases 7 - k,
    {
        if table[off + k] != name[k] {
            assert(table@.subrange(off as int, off + 7)[k as int] != loader_name()[k as int]);
            return false;
        }
        k = k + 1;
    }
    assert(table@.subrange(off as int, off + 7) =~= loader_name());
    off + 7 == len || table[off + 7] == 0
}

/// The end of every section that counts as kernel memory fits in 64 bits.
pub open spec fn section_ends_fit(ss: Seq<SectionHeaderEntry>, table: Seq<u8>) -> bool {
    forall|k: int|
        0 <= k < ss.len() && is_needed(#[trigger] ss[k], table) ==> ss[k].addr + ss[k].size
            <= u64::MAX
}

/// The memory the kernel image occupies: from the lowest start to the
/// highest end of its allocated sections, the loader's section left out;
/// `None` when no section counts or the end of one does not fit in 64 bits.
pub fn kernel_region(sections: &Vec<SectionHeaderEntry>, table: &[u8]) -> (r: Option<Region>)
    ensures
        r is Some <==> (needed_sections(sections@, table@).len() > 0 && section_ends_fit(
            sections@,
            table@,
        )),
        r matches Some(reg) ==> {
            let n = needed_sections(sections@, table@);
            &&& reg[0].0 == lowest_start(n) as u64 as usize
            &&& reg[1].0 == highest_end(n) as u64 as usize
        },
{
    let mut start: u64 = 0;
    let mut end: u64 = 0;
    let mut found = false;
    let mut i: usize = 0;
    while i < sections.len()
        invariant
            i <= sections@.len(),
            forall|k: int|
                0 <= k < i && is_needed(#[trigger] sections@[k], table@) ==> sections@[k].addr
                    + sections@[k].size <= u64::MAX,
            found <==> needed_sections(sections@.take(i as int), table@).len() > 0,
            found ==> start == lowest_start(needed_sections(sections@.take(i as int), table@)),
            found ==> end == highest_end(needed_sections(sections@.take(i as int), table@)),
        decreases sections@.len() - i,
    {
        let s = sections[i];
        let ghost before = needed_sections(sections@.take(i as int), table@);
        proof {
            assert(sections@.take(i + 1).drop_last() =~= sections@.take(i as int));
            assert(sections@.take(i + 1).last() == s);
            assert(before.push(s).drop_last() =~= before);
        }
        let name_is_loader = is_loader_section_name(table, s.name_offset as usize);
        if !name_is_loader && s.flags & 2 != 0 {
            if s.size > u64::MAX - s.addr {
                return None;
            }
            let s_end = s.addr + s.size;
            if !found {
                start = s.addr;
                end = s_end;
                found = true;
            } else {
                if s.addr < start {
                    start = s.addr;
                }
                if s_end > end {
                    end = s_end;
                }
            }
        }
        i = i + 1;
    }
    proof {
        assert(sections@.take(sections@.len() as int) =~= sections@);
    }
    if found {
        Some([PhysicalAddress(start as usize), PhysicalAddress(end as usize)])
    } else {
        None
    }
}

/// The section header of the section names' table: entry `shndx` of the
/// tag. `None` when there is no such entry, the entries are neither 40 nor
/// 64 bytes long, or the entries up to it do not fit in the tag.
pub fn string_table_section(tag: &ElfSectionsTag) -> (r: Option<SectionHeaderEntry>)
    ensures
        r is Some <==> {
            &&& tag.shndx < tag.number
            &&& (tag.entry_size == 40 || tag.entry_size == 64)
            &&& (tag.shndx + 1) * tag.entry_size <= tag.entry_bytes@.len()
            &&& (tag.shndx + 1) * tag.entry_size <= u32::MAX
        },
        r matches Some(s) ==> s == section_entry_value(
            class_of_entry_size(tag.entry_size),
            Endianness::Little,
            table_entry_bytes(tag.entry_bytes@, tag.shndx as int, tag.entry_size as int),
        ),
{
    if tag.shndx >= tag.number || (tag.entry_size != 40 && tag.entry_size != 64) {
        return None;
    }
    let es = tag.entry_size as u64;
    let end = (tag.shndx as u64 + 1) * es;
    if end > tag.entry_bytes.len() as u64 || end > 0xffff_ffff {
        return None;
    }
    let start = tag.shndx as u64 * es;
    let architecture = if tag.entry_size == 40 {
        Architecture::Bits32
    } else {
        Architecture::Bits64
    };
    let slice = vstd::slice::slice_subrange(tag.entry_bytes, start as usize, end as usize);
    let entry = SectionHeaderEntry::from_bytes(architecture, Endianness::Little, slice);
    proof {
        lemma_section_entry_value(entry, architecture, Endianness::Little, slice@);
    }
    Some(entry)
}

// ---------------------------------------------------------------------------
// The whole boot information
// ---------------------------------------------------------------------------
/// The command line the boot information holds: the string of its command
/// line tag without the final NUL byte, when there is such a tag, the
/// string is UTF-8 and it fits in 128 bytes.
pub open spec fn boot_command_line(p: Seq<u8>) -> Option<Seq<u8>> {
    match find_tag(p, 0, TagType::CommandLine) {
        Some(off) => {
            let s = tag_payload(p, off);
            if s.len() > 0 && valid_utf8(text_of(s)) && text_of(s).len() <= 128 {
                Some(text_of(s))
            } else {
                None
            }
        },
        None => None,
    }
}

/// The entries of the memory map the boot information holds, when there is
/// one whose size covers its fixed fields.
pub open spec fn boot_memory_entries(p: Seq<u8>) -> Option<Seq<MemoryMapTagEntry>> {
    match find_tag(p, 0, TagType::MemoryMap) {
        Some(off) => {
            let size = u32_at(p, off + 4);
            if size >= 16 {
                let body = tag_payload(p, off);
                Some(
                    Seq::new(
                        ((size - 16) / 24) as nat,
                        |k: int| entry_value(body, 8 + 24 * k),
                    ),
                )
            } else {
                None
            }
        },
        None => None,
    }
}

/// The kernel's section headers the boot information holds, when there is
/// an ELF sections tag whose entries can all be read.
pub open spec fn boot_sections(p: Seq<u8>) -> Option<Seq<SectionHeaderEntry>> {
    match find_tag(p, 0, TagType::ElfSymbols) {
        Some(off) => {
            let body = tag_payload(p, off);
            let number = u32_at(body, 0);
            let es = u32_at(body, 4);
            let bytes = body.subrange(12, body.len() as int);
            if body.len() >= 12 && (number > 0 ==> (es == 40 || es == 64)) && number * es
                <= bytes.len() && number * es <= u32::MAX {
                Some(
                    Seq::new(
                        number,
                        |k: int|
                            section_entry_value(
                                class_of_entry_size(es as u32),
                                Endianness::Little,
                                table_entry_bytes(bytes, k, es as int),
                            ),
                    ),
                )
            } else {
                None
            }
        },
        None => None,
    }
}

/// The boot information at `p`, with the section names' table `table`,
/// gives all the kernel needs.
pub open spec fn boot_info_ok(p: Seq<u8>, table: Seq<u8>) -> bool {
    &&& boot_command_line(p) is Some
    &&& boot_memory_entries(p) matches Some(es) && available_entries(es).len() <= 16 && ends_fit(
        es,
    )
    &&& boot_sections(p) matches Some(ss) && needed_sections(ss, table).len() > 0
        && section_ends_fit(ss, table)
}

/// What the kernel keeps of the boot information: the initial file system
/// `tarfs`, the command line, the free memory regions and the memory of
/// the kernel image, found with the section names' table `string_table`.
/// `None` when a part is missing or cannot be read.
pub fn prepare_bootstrap_info<'a>(
    information: &BootInformation,
    tarfs: &'a [u8],
    string_table: &[u8],
) -> (r: Option<Info<'a>>)
    requires
        information.payload@.len() + 8 <= usize::MAX,
    ensures
        r is Some <==> boot_info_ok(information.payload@, string_table@),
        r matches Some(info) ==> {
            let p = information.payload@;
            let cl = boot_command_line(p)->0;
            let avail = available_entries(boot_memory_entries(p)->0);
            let n = needed_sections(boot_sections(p)->0, string_table@);
            &&& info.tarfs == Some(tarfs)
            &&& forall|k: int| 0 <= k < cl.len() ==> info.command_line@[k] == cl[k]
            &&& forall|k: int| cl.len() <= k < 128 ==> info.command_line@[k] == 0
            &&& forall|k: int|
                0 <= k < avail.len() ==> (#[trigger] info.available_memory_regions@[k] matches Some(
                    reg,
                ) && region_of(reg, avail[k]))
            &&& forall|k: int|
                avail.len() <= k < 16 ==> #[trigger] info.available_memory_regions@[k] is None
            &&& info.kernel_memory_region matches Some(reg) && reg[0].0 == lowest_start(n) as u64
                as usize && reg[1].0 == highest_end(n) as u64 as usize
        },
{
    let ghost p = information.payload@;
    // The command line.
    let cl_tag = match information.command_line() {
        Some(t) => t,
        None => return None,
    };
    let text = match cl_tag.string() {
        Some(t) => t,
        None => return None,
    };
    if text.as_bytes().len() > 128 {
        return None;
    }
    let command_line = command_line_array(text);
    // The free memory.
    let memory_map = match information.memory_map() {
        Some(m) => m,
        None => return None,
    };
    proof {
        let off = find_tag(p, 0, TagType::MemoryMap)->0;
        let body = tag_payload(p, off);
        assert forall|k: int| 0 <= k < memory_map.entries@.len() implies #[trigger] memory_map.entries@[k]
            == entry_value(body, 8 + 24 * k) by {
            lemma_entry_value(memory_map.entries@[k], body, 8 + 24 * k);
        }
        assert(memory_map.entries@ =~= boot_memory_entries(p)->0);
    }
    let available = match available_regions(&memory_map.entries) {
        Some(a) => a,
        None => return None,
    };
    // The kernel image.
    let container = match information.get_tag::<ElfSectionsTag>() {
        Some(c) => c,
        None => return None,
    };
    if container.payload.len() < 12 {
        return None;
    }
    let tag = ElfSectionsTag::from_container(&container);
    if tag.number > 0 && tag.entry_size != 40 && tag.entry_size != 64 {
        return None;
    }
    let number = tag.number as u64;
    let entry_size = tag.entry_size as u64;
    assert(number * entry_size <= 0xffff_ffff * 0xffff_ffff) by (nonlinear_arith)
        requires
            number <= 0xffff_ffff,
            entry_size <= 0xffff_ffff,
    ;
    let total = number * entry_size;
    if total > tag.entry_bytes.len() as u64 || total > 0xffff_ffff {
        return None;
    }
    let sections = tag.entries();
    proof {
        let off = find_tag(p, 0, TagType::ElfSymbols)->0;
        let body = tag_payload(p, off);
        assert(tag.entry_bytes@ == body.subrange(12, body.len() as int));
        assert forall|k: int| 0 <= k < sections@.len() implies #[trigger] sections@[k]
            == section_entry_value(
            class_of_entry_size(tag.entry_size),
            Endianness::Little,
            table_entry_bytes(tag.entry_bytes@, k, tag.entry_size as int),
        ) by {
            lemma_section_entry_value(
                sections@[k],
                class_of_entry_size(tag.entry_size),
                Endianness::Little,
                table_entry_bytes(tag.entry_bytes@, k, tag.entry_size as int),
            );
        }
        assert(sections@ =~= boot_sections(p)->0);
    }
    let region = match kernel_region(&sections, string_table) {
        Some(r) => r,
        None => return None,
    };
    Some(
        Info {
            tarfs: Some(tarfs),
            command_line,
            kernel_memory_region: Some(region),
            available_memory_regions: available,
        },
    )
}

// ---------------------------------------------------------------------------
// The initial program
// ---------------------------------------------------------------------------
/// The segment is copied to memory before the initial program runs: it is
/// loadable and has a virtual address.
pub open spec fn is_loaded(e: ProgramHeaderEntry) -> bool {
    &&& e.segment_type == SegmentType::Loadable
    &&& e.vaddr > 0
}

/// The segments copied to memory, in order.
pub open spec fn loaded_segments(es: Seq<ProgramHeaderEntry>) -> Seq<ProgramHeaderEntry>
    decreases es.len(),
{
    if es.len() == 0 {
        Seq::empty()
    } else if is_loaded(es.last()) {
        loaded_segments(es.drop_last()).push(es.last())
    } else {
        loaded_segments(es.drop_last())
    }
}

/// The segments of the initial program that are copied to memory.
pub fn loadable_segments(entries: &Vec<ProgramHeaderEntry>) -> (r: Vec<ProgramHeaderEntry>)
    ensures
        r@ == loaded_segments(entries@),
{
    let mut out: Vec<ProgramHeaderEntry> = Vec::new();
    let mut i: usize = 0;
    while i < entries.len()
        invariant
            i <= entries@.len(),
            out@ == loaded_segments(entries@.take(i as int)),
        decreases entries@.len() - i,
    {
        let e = entries[i];
        proof {
            assert(entries@.take(i + 1).drop_last() =~= entries@.take(i as int));
            assert(entries@.take(i + 1).last() == e);
        }
        if matches!(e.segment_type, SegmentType::Loadable) && e.vaddr > 0 {
            out.push(e);
        }
        i = i + 1;
    }
    proof {
        assert(entries@.take(entries@.len() as int) =~= entries@);
    }
    out
}

/// The path of a file of the initial file system, without the NUL bytes
/// that pad it.
pub open spec fn path_bytes(f: File) -> Seq<u8> {
    trim_nul(f.header_record.path@)
}

/// The path can be read and cut after its first byte: it is UTF-8, not
/// empty, and its first character is one byte long.
pub open spec fn path_ok(f: File) -> bool {
    &&& valid_utf8(f.header_record.path@)
    &&& path_bytes(f).len() > 0
    &&& (path_bytes(f).len() > 1 ==> !is_continuation_byte(path_bytes(f)[1]))
}

/// The file is the initial program named by `command`: its path is a dot
/// followed by the command.
pub open spec fn is_initial(f: File, command: Seq<u8>) -> bool {
    &&& path_bytes(f)[0] == 0x2e
    &&& path_bytes(f).subrange(1, path_bytes(f).len() as int) == command
}

/// The index of the first file from `i` on that is the initial program, or
/// `None` when a file whose path cannot be read comes first or none is.
pub open spec fn first_initial(files: Seq<File>, command: Seq<u8>, i: int) -> Option<int>
    decreases files.len() - i,
{
    if i < 0 || i >= files.len() {
        None
    } else if !path_ok(files[i]) {
        None
    } else if is_initial(files[i], command) {
        Some(i)
    } else {
        first_initial(files, command, i + 1)
    }
}

/// Finds the initial program among the files: the first whose path is a
/// dot followed by the command line, NUL bytes trimmed. `None` when the
/// command line is not UTF-8, when no file matches, or when a file whose
/// path cannot be read comes before the match.
pub fn find_initial_file(files: &Vec<File>, command_line: &[u8]) -> (r: Option<usize>)
    ensures
        r is Some <==> (valid_utf8(command_line@) && first_initial(
            files@,
            trim_nul(command_line@),
            0,
        ) is Some),
        r matches Some(i) ==> i == first_initial(files@, trim_nul(command_line@), 0)->0,
{
    if str_from_utf8(command_line).is_none() {
        return None;
    }
    let command = trim_nul_bytes(command_line);
    let mut i: usize = 0;
    while i < files.len()
        invariant
            i <= files@.len(),
            command@ == trim_nul(command_line@),
            valid_utf8(command_line@),
            first_initial(files@, command@, 0) == first_initial(files@, command@, i as int),
        decreases files@.len() - i,
    {
        let f = &files[i];
        let raw = f.header_record.path.as_slice();
        if str_from_utf8(raw).is_none() {
            return None;
        }
        let path = trim_nul_bytes(raw);
        let n = path.len();
        if n == 0 {
            return None;
        }
        if n > 1 && path[1] >= 0x80 && path[1] <= 0xbf {
            return None;
        }
        if path[0] == 0x2e && bytes_equal(vstd::slice::slice_subrange(path, 1, n), command) {
            return Some(i);
        }
        i = i + 1;
    }
    None
}

/// Law: the entries kept as free memory are exactly the entries of the map
/// whose type number is 1 (available RAM): each kept entry is one of the
/// map's with that type, and each entry of the map with that type is kept.
pub proof fn lemma_available_entries_exact(es: Seq<MemoryMapTagEntry>)
    ensures
        forall|i: int|
            0 <= i < available_entries(es).len() ==> (#[trigger] available_entries(
                es,
            )[i]).memory_area_type.0 == 1 && es.contains(available_entries(es)[i]),
        forall|k: int|
            0 <= k < es.len() && (#[trigger] es[k]).memory_area_type.0 == 1
                ==> available_entries(es).contains(es[k]),
        available_entries(es).len() <= es.len(),
    decreases es.len(),
{
    if es.len() > 0 {
        let init = es.drop_last();
        lemma_available_entries_exact(init);
        let a0 = available_entries(init);
        let a = available_entries(es);
        assert forall|i: int| 0 <= i < a.len() implies (#[trigger] a[i]).memory_area_type.0 == 1
            && es.contains(a[i]) by {
            if i < a0.len() {
                assert(a[i] == a0[i]);
                let k = choose|k: int| 0 <= k < init.len() && init[k] == a0[i];
                assert(es[k] == init[k]);
            } else {
                assert(a[i] == es.last());
                assert(es[es.len() - 1] == es.last());
            }
        }
        assert forall|k: int|
            0 <= k < es.len() && (#[trigger] es[k]).memory_area_type.0 == 1 implies a.contains(
            es[k],
        ) by {
            if k < es.len() - 1 {
                assert(init[k] == es[k]);
                assert(a0.contains(es[k]));
                let i = choose|i: int| 0 <= i < a0.len() && a0[i] == es[k];
                assert(a[i] == a0[i]);
            } else {
                assert(a[a.len() - 1] == es.last());
            }
        }
    }
}

/// Law: the sections kept as part of the kernel's memory are exactly those
/// of the list that are allocated at run time (flag 0x2, `SHF_ALLOC`) and
/// not named `.loader`.
pub proof fn lemma_needed_sections_exact(ss: Seq<SectionHeaderEntry>, table: Seq<u8>)
    ensures
        forall|i: int|
            0 <= i < needed_sections(ss, table).len() ==> {
                let s = #[trigger] needed_sections(ss, table)[i];
                &&& s.flags & 2 != 0
                &&& !name_is(table, s.name_offset as int, seq![0x2eu8, 0x6cu8, 0x6fu8, 0x61u8, 0x64u8, 0x65u8, 0x72u8])
                &&& ss.contains(s)
            },
        forall|k: int|
            0 <= k < ss.len() && (#[trigger] ss[k]).flags & 2 != 0 && !name_is(
                table,
                ss[k].name_offset as int,
                seq![0x2eu8, 0x6cu8, 0x6fu8, 0x61u8, 0x64u8, 0x65u8, 0x72u8],
            ) ==> needed_sections(ss, table).contains(ss[k]),
    decreases ss.len(),
{
    if ss.len() > 0 {
        let init = ss.drop_last();
        lemma_needed_sections_exact(init, table);
        let a0 = needed_sections(init, table);
        let a = needed_sections(ss, table);
        assert forall|i: int| 0 <= i < a.len() implies {
            let s = #[trigger] a[i];
            &&& s.flags & 2 != 0
            &&& !name_is(table, s.name_offset as int, seq![0x2eu8, 0x6cu8, 0x6fu8, 0x61u8, 0x64u8, 0x65u8, 0x72u8])
            &&& ss.contains(s)
        } by {
            if i < a0.len() {
                assert(a[i] == a0[i]);
                let k = choose|k: int| 0 <= k < init.len() && init[k] == a0[i];
                assert(ss[k] == init[k]);
            } else {
                assert(a[i] == ss.last());
                assert(ss[ss.len() - 1] == ss.last());
            }
        }
        assert forall|k: int|
            0 <= k < ss.len() && (#[trigger] ss[k]).flags & 2 != 0 && !name_is(
                table,
                ss[k].name_offset as int,
                seq![0x2eu8, 0x6cu8, 0x6fu8, 0x61u8, 0x64u8, 0x65u8, 0x72u8],
            ) implies a.contains(ss[k]) by {
            if k < ss.len() - 1 {
                assert(init[k] == ss[k]);
                assert(a0.contains(ss[k]));
                let i = choose|i: int| 0 <= i < a0.len() && a0[i] == ss[k];
                assert(a[i] == a0[i]);
            } else {
                assert(a[a.len() - 1] == ss.last());
            }
        }
    }
}

/// Law: the lowest start of a non-empty list of sections is the start of
/// one of them and no section starts below it; the highest end is the end
/// of one of them and no section ends above it.
pub proof fn lemma_section_bounds(ss: Seq<SectionHeaderEntry>)
    requires
        ss.len() > 0,
    ensures
        forall|i: int|
            0 <= i < ss.len() ==> lowest_start(ss) <= (#[trigger] ss[i]).addr && ss[i].addr
                + ss[i].size <= highest_end(ss),
        exists|i: int| 0 <= i < ss.len() && lowest_start(ss) == (#[trigger] ss[i]).addr,
        exists|j: int| 0 <= j < ss.len() && highest_end(ss) == (#[trigger] ss[j]).addr + ss[j].size,
    decreases ss.len(),
{
    if ss.len() == 1 {
        assert(lowest_start(ss) == ss[0].addr);
        assert(highest_end(ss) == ss[0].addr + ss[0].size);
    } else {
        let init = ss.drop_last();
        lemma_section_bounds(init);
        let n = ss.len() - 1;
        assert(ss[n] == ss.last());
        assert forall|i: int| 0 <= i < ss.len() implies lowest_start(ss) <= (#[trigger] ss[i]).addr
            && ss[i].addr + ss[i].size <= highest_end(ss) by {
            if i < n {
                assert(init[i] == ss[i]);
            }
        }
        let i0 = choose|i: int| 0 <= i < init.len() && lowest_start(init) == (#[trigger] init[i]).addr;
        let j0 = choose|j: int|
            0 <= j < init.len() && highest_end(init) == (#[trigger] init[j]).addr + init[j].size;
        assert(init[i0] == ss[i0]);
        assert(init[j0] == ss[j0]);
        if lowest_start(init) <= ss.last().addr {
            assert(lowest_start(ss) == ss[i0].addr);
        } else {
            assert(lowest_start(ss) == ss[n].addr);
        }
        if highest_end(init) >= ss.last().addr + ss.last().size {
            assert(highest_end(ss) == ss[j0].addr + ss[j0].size);
        } else {
            assert(highest_end(ss) == ss[n].addr + ss[n].size);
        }
    }
}

} // verus!
