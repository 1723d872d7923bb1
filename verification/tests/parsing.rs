use kernel::boot::{
    available_regions, command_line_array, find_initial_file, is_multiboot2, kernel_region,
    loadable_segments, prepare_bootstrap_info, string_table_section, Info,
};
use kernel::elf::{
    Architecture, Elf, Endianness, FileType, Header, SectionHeaderEntry, SectionType, SegmentType,
};
use kernel::multiboot::memory_map::{
    MemoryMapTagEntry, MemoryMapTagEntryType, MemoryMapTagEntryTypeId,
};
use kernel::multiboot::tags::{BootLoaderNameTag, ElfSectionsTag, ModuleTag};
use kernel::multiboot::{BootInformation, TagContainer, TagHeader, TagType, MULTIBOOT2_MAGIC};
use kernel::tar::Archive;
use kernel::text::{bytes_equal, trim_nul_bytes};

fn put_u16(v: &mut Vec<u8>, x: u16) {
    v.extend_from_slice(&x.to_le_bytes());
}

fn put_u32(v: &mut Vec<u8>, x: u32) {
    v.extend_from_slice(&x.to_le_bytes());
}

fn put_u64(v: &mut Vec<u8>, x: u64) {
    v.extend_from_slice(&x.to_le_bytes());
}

/// A 64-bit little-endian executable with one loadable segment and one
/// note segment.
fn elf64() -> Vec<u8> {
    let mut v = vec![0x7f, b'E', b'L', b'F', 2, 1, 1, 0, 0, 0, 0, 0, 0, 0, 0, 0];
    put_u16(&mut v, 2);
    put_u16(&mut v, 0x3e);
    put_u32(&mut v, 1);
    put_u64(&mut v, 0x401000);
    put_u64(&mut v, 64);
    put_u64(&mut v, 0);
    put_u32(&mut v, 0);
    put_u16(&mut v, 64);
    put_u16(&mut v, 56);
    put_u16(&mut v, 2);
    put_u16(&mut v, 64);
    put_u16(&mut v, 0);
    put_u16(&mut v, 0);
    assert_eq!(v.len(), 64);
    for (kind, vaddr) in [(1u32, 0x400000u64), (4u32, 0x500000u64)] {
        put_u32(&mut v, kind);
        put_u32(&mut v, 5);
        put_u64(&mut v, 0);
        put_u64(&mut v, vaddr);
        put_u64(&mut v, vaddr);
        put_u64(&mut v, 0x100);
        put_u64(&mut v, 0x200);
        put_u64(&mut v, 0x1000);
    }
    v
}

#[test]
fn elf_header_fields() {
    let bytes = elf64();
    let h = Header::from_bytes(&bytes).unwrap();
    assert_eq!(h.class, Architecture::Bits64);
    assert_eq!(h.endianness, Endianness::Little);
    assert_eq!(h.file_type, FileType::Executable);
    assert_eq!(h.isa, 0x3e);
    assert_eq!(h.entry, 0x401000);
    assert_eq!(h.phoff, 64);
    assert_eq!(h.ph_entry_size, 56);
    assert_eq!(h.ph_entry_num, 2);
}

#[test]
fn elf_header_without_magic_is_refused() {
    let mut bytes = elf64();
    bytes[1] = b'X';
    assert!(Header::from_bytes(&bytes).is_err());
    assert_eq!(Header::from_bytes(&[0u8; 64]).err(), Some("invalid magic number"));
}

#[test]
fn elf_program_header_entries() {
    let bytes = elf64();
    let elf = Elf(&bytes);
    let entries = elf.program_header().entries();
    assert_eq!(entries.len(), 2);
    assert_eq!(entries[0].segment_type, SegmentType::Loadable);
    assert_eq!(entries[0].vaddr, 0x400000);
    assert_eq!(entries[0].file_size, 0x100);
    assert_eq!(entries[0].mem_size, 0x200);
    assert_eq!(entries[1].segment_type, SegmentType::Auxiliary);
}

#[test]
fn only_loadable_segments_with_an_address_are_loaded() {
    let bytes = elf64();
    let elf = Elf(&bytes);
    let mut entries = elf.program_header().entries();
    let mut zero = entries[0];
    zero.vaddr = 0;
    entries.push(zero);
    let loaded = loadable_segments(&entries);
    assert_eq!(loaded.len(), 1);
    assert_eq!(loaded[0].vaddr, 0x400000);
}

fn section(name_offset: u32, flags: u64, addr: u64, size: u64) -> SectionHeaderEntry {
    SectionHeaderEntry {
        name_offset,
        section_type: SectionType::ProgramData,
        flags,
        addr,
        offset: 0,
        size,
        link: 0,
        info: 0,
        align: 0,
        entry_size: 0,
    }
}

/// Section names: "" at 0, ".text" at 1, ".loader" at 7.
fn string_table() -> Vec<u8> {
    b"\0.text\0.loader\0".to_vec()
}

#[test]
fn kernel_region_skips_loader_and_unallocated_sections() {
    let table = string_table();
    let sections = vec![
        section(7, 2, 0x1000, 0x100),
        section(1, 2, 0x200000, 0x3000),
        section(1, 0, 0x10, 0x10),
        section(1, 6, 0x300000, 0x800),
    ];
    let region = kernel_region(&sections, &table).unwrap();
    assert_eq!(region[0].0, 0x200000);
    assert_eq!(region[1].0, 0x300800);
}

#[test]
fn kernel_region_without_sections_is_none() {
    let table = string_table();
    let sections = vec![section(7, 2, 0x1000, 0x100), section(1, 0, 0x10, 0x10)];
    assert!(kernel_region(&sections, &table).is_none());
}

#[test]
fn kernel_region_end_overflow_is_none() {
    let table = string_table();
    let sections = vec![section(1, 2, u64::MAX, 2)];
    assert!(kernel_region(&sections, &table).is_none());
}

fn mm_entry(base: u64, length: u64, kind: u32) -> MemoryMapTagEntry {
    MemoryMapTagEntry {
        base_addr: base,
        length,
        memory_area_type: MemoryMapTagEntryTypeId(kind),
        reserved: 0,
    }
}

#[test]
fn available_regions_keep_free_memory_in_order() {
    let entries = vec![
        mm_entry(0, 0x9fc00, 1),
        mm_entry(0x9fc00, 0x400, 2),
        mm_entry(0x100000, 0x7ee0000, 1),
    ];
    let regions = available_regions(&entries).unwrap();
    assert_eq!(regions[0], Some([kernel::paging::PhysicalAddress(0), kernel::paging::PhysicalAddress(0x9fc00)]));
    assert_eq!(
        regions[1],
        Some([kernel::paging::PhysicalAddress(0x100000), kernel::paging::PhysicalAddress(0x7fe0000)])
    );
    for k in 2..16 {
        assert!(regions[k].is_none());
    }
}

#[test]
fn available_regions_more_than_sixteen_is_none() {
    let entries: Vec<MemoryMapTagEntry> = (0..17).map(|i| mm_entry(i * 0x1000, 0x1000, 1)).collect();
    assert!(available_regions(&entries).is_none());
}

#[test]
fn memory_type_ids_convert_both_ways() {
    assert_eq!(
        MemoryMapTagEntryType::from_id(&MemoryMapTagEntryTypeId(1)),
        MemoryMapTagEntryType::Available
    );
    assert_eq!(
        MemoryMapTagEntryType::from_id(&MemoryMapTagEntryTypeId(9)),
        MemoryMapTagEntryType::Custom(9)
    );
    assert_eq!(MemoryMapTagEntryTypeId::from_type(&MemoryMapTagEntryType::Defective).0, 5);
    assert!(MemoryMapTagEntryTypeId(1).is_type(&MemoryMapTagEntryType::Custom(1)));
    assert!(MemoryMapTagEntryType::Available.is_id(&MemoryMapTagEntryTypeId(1)));
    assert!(!MemoryMapTagEntryType::Reserved.is_id(&MemoryMapTagEntryTypeId(1)));
}

fn tag(v: &mut Vec<u8>, kind: u32, body: &[u8]) {
    put_u32(v, kind);
    put_u32(v, 8 + body.len() as u32);
    v.extend_from_slice(body);
    while v.len() % 8 != 0 {
        v.push(0);
    }
}

/// Boot information with a command line, a boot loader name, a module,
/// a memory map, the kernel's section headers and the end tag.
fn boot_information() -> Vec<u8> {
    boot_information_with(true)
}

fn boot_information_with(elf_sections: bool) -> Vec<u8> {
    let mut p = Vec::new();
    tag(&mut p, 1, b"init\0");
    tag(&mut p, 2, b"\0GRUB 2.12\0\0");
    let mut module = Vec::new();
    put_u32(&mut module, 0x10000);
    put_u32(&mut module, 0x12000);
    module.extend_from_slice(b"tarfs\0");
    tag(&mut p, 3, &module);
    let mut mm = Vec::new();
    put_u32(&mut mm, 24);
    put_u32(&mut mm, 0);
    for (base, len, kind) in [(0u64, 0x9fc00u64, 1u32), (0x9fc00, 0x400, 2), (0x100000, 0x1000000, 1)] {
        put_u64(&mut mm, base);
        put_u64(&mut mm, len);
        put_u32(&mut mm, kind);
        put_u32(&mut mm, 0);
    }
    tag(&mut p, 6, &mm);
    let mut elf = Vec::new();
    put_u32(&mut elf, 3);
    put_u32(&mut elf, 64);
    put_u32(&mut elf, 2);
    for (name, flags, addr, size) in [(1u32, 6u64, 0x100000u64, 0x5000u64), (7, 2, 0x200000, 0x100), (0, 0, 0, 0x20)] {
        put_u32(&mut elf, name);
        put_u32(&mut elf, if size == 0x20 { 3 } else { 1 });
        put_u64(&mut elf, flags);
        put_u64(&mut elf, addr);
        put_u64(&mut elf, 0);
        put_u64(&mut elf, size);
        put_u32(&mut elf, 0);
        put_u32(&mut elf, 0);
        put_u64(&mut elf, 0);
        put_u64(&mut elf, 0);
    }
    if elf_sections {
        tag(&mut p, 9, &elf);
    }
    tag(&mut p, 0, b"");
    let mut all = Vec::new();
    put_u32(&mut all, 8 + p.len() as u32);
    put_u32(&mut all, 0);
    all.extend_from_slice(&p);
    all
}

#[test]
fn boot_information_tags_in_order() {
    let bytes = boot_information();
    let info = BootInformation::from_bytes(&bytes).unwrap();
    assert_eq!(info.header.length as usize, bytes.len());
    assert!(info.tags_well_formed());
    let tags = info.get_tags();
    let kinds: Vec<TagType> = tags.iter().map(|t| t.header.tag_type).collect();
    assert_eq!(
        kinds,
        vec![
            TagType::CommandLine,
            TagType::BootLoaderName,
            TagType::Modules,
            TagType::MemoryMap,
            TagType::ElfSymbols,
            TagType::End
        ]
    );
}

#[test]
fn get_tag_finds_the_first_listed_tag_of_its_kind() {
    let bytes = boot_information();
    let info = BootInformation::from_bytes(&bytes).unwrap();
    assert!(info.tags_well_formed());
    let tags = info.get_tags();
    let listed = tags.iter().find(|t| t.header.tag_type == TagType::ElfSymbols).unwrap();
    let found = info.get_tag::<ElfSectionsTag>().unwrap();
    assert_eq!(found.payload, listed.payload);
    assert_eq!(found.header.size, listed.header.size);
}

#[test]
fn boot_information_too_short_is_none() {
    let bytes = boot_information();
    assert!(BootInformation::from_bytes(&bytes[..6]).is_none());
    assert!(BootInformation::from_bytes(&bytes[..bytes.len() - 8]).is_none());
}

#[test]
fn malformed_tag_chain_is_reported() {
    let mut bytes = boot_information();
    // The boot loader name tag claims to run past the end.
    bytes[8 + 16 + 4] = 0xff;
    bytes[8 + 16 + 5] = 0xff;
    let info = BootInformation::from_bytes(&bytes).unwrap();
    assert!(!info.tags_well_formed());
    // The command line tag comes before the broken one and is still found.
    assert_eq!(info.command_line().unwrap().string(), Some("init"));
}

#[test]
fn tag_header_of_unknown_kind_is_none() {
    let bytes = [99u8, 0, 0, 0, 8, 0, 0, 0];
    assert!(TagHeader::from_bytes(&bytes).is_none());
    let end = [0u8, 0, 0, 0, 8, 0, 0, 0];
    let h = TagHeader::from_bytes(&end).unwrap();
    assert_eq!(h.tag_type, TagType::End);
    assert_eq!(h.size, 8);
}

#[test]
fn command_line_and_boot_loader_name_strings() {
    let bytes = boot_information();
    let info = BootInformation::from_bytes(&bytes).unwrap();
    assert_eq!(info.command_line().unwrap().string(), Some("init"));
    assert_eq!(info.boot_loader_name().unwrap().string(), Some("GRUB 2.12"));
}

#[test]
fn module_tag_fields() {
    let bytes = boot_information();
    let info = BootInformation::from_bytes(&bytes).unwrap();
    let c: TagContainer = info.get_tag::<ModuleTag>().unwrap();
    let m = ModuleTag::from_container(&c);
    assert_eq!(m.start, 0x10000);
    assert_eq!(m.end, 0x12000);
    assert_eq!(m.string(), Some("tarfs"));
}

#[test]
fn empty_string_tag_has_no_text() {
    let t = BootLoaderNameTag { header: TagHeader { tag_type: TagType::BootLoaderName, size: 8 }, string: &[] };
    assert_eq!(t.string(), None);
    let bad = [0xffu8, 0];
    let t = BootLoaderNameTag { header: TagHeader { tag_type: TagType::BootLoaderName, size: 10 }, string: &bad };
    assert_eq!(t.string(), None);
}

#[test]
fn memory_map_entries() {
    let bytes = boot_information();
    let info = BootInformation::from_bytes(&bytes).unwrap();
    let mm = info.memory_map().unwrap();
    assert_eq!(mm.entry_size, 24);
    assert_eq!(mm.entries.len(), 3);
    assert_eq!(mm.entries[2].base_addr, 0x100000);
    assert_eq!(mm.entries[2].length, 0x1000000);
    assert_eq!(mm.entries[1].memory_area_type, MemoryMapTagEntryTypeId(2));
}

#[test]
fn elf_sections_and_string_table() {
    let bytes = boot_information();
    let info = BootInformation::from_bytes(&bytes).unwrap();
    let c = info.get_tag::<ElfSectionsTag>().unwrap();
    let tag = ElfSectionsTag::from_container(&c);
    assert_eq!(tag.number, 3);
    assert_eq!(tag.shndx, 2);
    let entries = tag.entries();
    assert_eq!(entries.len(), 3);
    assert_eq!(entries[0].addr, 0x100000);
    let names = string_table_section(&tag).unwrap();
    assert_eq!(names.section_type, SectionType::StringTable);
    assert_eq!(names.size, 0x20);
}

#[test]
fn prepare_bootstrap_info_collects_everything() {
    let bytes = boot_information();
    let info = BootInformation::from_bytes(&bytes).unwrap();
    let tarfs = [1u8, 2, 3];
    let table = string_table();
    let boot: Info = prepare_bootstrap_info(&info, &tarfs, &table).unwrap();
    assert_eq!(boot.tarfs, Some(&tarfs[..]));
    assert_eq!(&boot.command_line[..5], b"init\0");
    assert!(boot.command_line[4..].iter().all(|b| *b == 0));
    let kr = boot.kernel_memory_region.unwrap();
    assert_eq!(kr[0].0, 0x100000);
    assert_eq!(kr[1].0, 0x105000);
    assert_eq!(boot.available_memory_regions[1].unwrap()[1].0, 0x1100000);
    assert!(boot.available_memory_regions[2].is_none());
}

#[test]
fn prepare_bootstrap_info_without_sections_is_none() {
    let bytes = boot_information_with(false);
    let info = BootInformation::from_bytes(&bytes).unwrap();
    assert!(prepare_bootstrap_info(&info, &[], &string_table()).is_none());
    let bytes = boot_information();
    let info = BootInformation::from_bytes(&bytes).unwrap();
    assert!(prepare_bootstrap_info(&info, &[], &string_table()).is_some());
}

#[test]
fn empty_info_and_command_line_array() {
    let info = Info::empty();
    assert!(info.tarfs.is_none());
    assert!(info.command_line.iter().all(|b| *b == 0));
    assert!(info.available_memory_regions.iter().all(|r| r.is_none()));
    let a = command_line_array("bootstrap");
    assert_eq!(&a[..9], b"bootstrap");
    assert!(a[9..].iter().all(|b| *b == 0));
}

#[test]
fn multiboot2_magic_is_recognized() {
    assert!(is_multiboot2(MULTIBOOT2_MAGIC));
    assert!(is_multiboot2(0x36D76289));
    assert!(!is_multiboot2(0x2BADB002));
}

/// A tar archive holding `./init` (5 bytes) and `./echo` (0 bytes).
fn archive() -> Vec<u8> {
    let mut a = Vec::new();
    for (name, data) in [("./init", &b"hello"[..]), ("./echo", &b""[..])] {
        let mut h = vec![0u8; 512];
        h[..name.len()].copy_from_slice(name.as_bytes());
        let size = format!("{:011o}\0", data.len());
        h[124..136].copy_from_slice(size.as_bytes());
        a.extend_from_slice(&h);
        // Every file takes `size / 512 + 1` data records.
        let mut d = data.to_vec();
        d.resize((data.len() / 512 + 1) * 512, 0);
        a.extend_from_slice(&d);
    }
    a.extend_from_slice(&[0u8; 1024]);
    a
}

#[test]
fn tar_files_paths_and_sizes() {
    let bytes = archive();
    let files = Archive(&bytes).files();
    assert_eq!(files.len(), 2);
    assert_eq!(files[0].header_record.path(), "./init");
    assert_eq!(files[0].header_record.size(), 5);
    assert_eq!(&files[0].bytes[..5], b"hello");
    assert_eq!(files[1].header_record.path(), "./echo");
    assert_eq!(files[1].header_record.size(), 0);
}

#[test]
fn initial_file_is_found_by_command_line() {
    let bytes = archive();
    let files = Archive(&bytes).files();
    // The path after its leading dot is compared: `./echo` is `/echo`.
    let mut cl = [0u8; 128];
    cl[..5].copy_from_slice(b"/echo");
    assert_eq!(find_initial_file(&files, &cl), Some(1));
    let mut cl = [0u8; 128];
    cl[..4].copy_from_slice(b"echo");
    assert_eq!(find_initial_file(&files, &cl), None);
    let mut cl = [0u8; 128];
    cl[..5].copy_from_slice(b"/init");
    assert_eq!(find_initial_file(&files, &cl), Some(0));
    let mut cl = [0u8; 128];
    cl[..4].copy_from_slice(b"none");
    assert_eq!(find_initial_file(&files, &cl), None);
    let mut bad = [0u8; 128];
    bad[0] = 0xff;
    assert_eq!(find_initial_file(&files, &bad), None);
}

#[test]
fn nul_trimming_and_byte_equality() {
    assert_eq!(trim_nul_bytes(b"\0\0ab\0c\0\0"), b"ab\0c");
    assert_eq!(trim_nul_bytes(b"\0\0"), b"");
    assert!(bytes_equal(b"abc", b"abc"));
    assert!(!bytes_equal(b"abc", b"abd"));
    assert!(!bytes_equal(b"abc", b"ab"));
}
