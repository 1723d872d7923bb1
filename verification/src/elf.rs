//! Parsing of ELF file headers, program headers and section headers.
use vstd::prelude::*;

verus! {

// ---------------------------------------------------------------------------
// Unsigned integers stored in byte sequences
// ---------------------------------------------------------------------------
/// Value of a little-endian byte sequence.
pub open spec fn le_value(s: Seq<u8>) -> nat
    decreases s.len(),
{
    if s.len() == 0 {
        0
    } else {
        s[0] as nat + 256 * le_value(s.drop_first())
    }
}

/// Value of a big-endian byte sequence.
pub open spec fn be_value(s: Seq<u8>) -> nat
    decreases s.len(),
{
    if s.len() == 0 {
        0
    } else {
        256 * be_value(s.drop_last()) + s.last() as nat
    }
}

/// 256 to the power `n`.
pub open spec fn byte_pow(n: nat) -> nat
    decreases n,
{
    if n == 0 {
        1
    } else {
        256 * byte_pow((n - 1) as nat)
    }
}

/// Value of the `n` bytes of `bytes` that start at `pos`, in byte order `e`.
pub open spec fn field_value(bytes: Seq<u8>, pos: int, n: int, e: Endianness) -> nat {
    let s = bytes.subrange(pos, pos + n);
    match e {
        Endianness::Little => le_value(s),
        Endianness::Big => be_value(s),
    }
}

proof fn lemma_byte_pow_mono(a: nat, b: nat)
    requires
        a <= b,
    ensures
        byte_pow(a) <= byte_pow(b),
    decreases b,
{
    if a < b {
        lemma_byte_pow_mono(a, (b - 1) as nat);
    }
}

pub(crate) proof fn lemma_byte_pow_8()
    ensures
        byte_pow(2) == 0x1_0000,
        byte_pow(4) == 0x1_0000_0000,
        byte_pow(7) == 0x100_0000_0000_0000,
        byte_pow(8) == 0x1_0000_0000_0000_0000,
{
    reveal_with_fuel(byte_pow, 9);
}

/// Reads `n <= 8` bytes at `pos` as an unsigned integer in byte order `e`.
pub(crate) fn read_uint(bytes: &[u8], pos: usize, n: usize, e: Endianness) -> (r: u64)
    requires
        n <= 8,
        pos + n <= bytes@.len(),
    ensures
        r == field_value(bytes@, pos as int, n as int, e),
        (r as nat) < byte_pow(n as nat),
{
    proof {
        lemma_byte_pow_8();
    }
    let len = bytes.len();
    let mut v: u64 = 0;
    match e {
        Endianness::Little => {
            let mut i: usize = n;
            assert(bytes@.subrange(pos + n, pos + n) =~= Seq::<u8>::empty());
            while i > 0
                invariant
                    n <= 8,
                    pos + n <= bytes@.len(),
                    len == bytes@.len(),
                    i <= n,
                    v == le_value(bytes@.subrange(pos + i, pos + n)),
                    (v as nat) < byte_pow((n - i) as nat),
                    byte_pow(7) == 0x100_0000_0000_0000,
                decreases i,
            {
                let ghost old_s = bytes@.subrange(pos + i, pos + n);
                proof {
                    lemma_byte_pow_mono((n - i) as nat, 7);
                    assert(bytes@.subrange(pos + i - 1, pos + n).drop_first() =~= old_s);
                }
                v = v * 256 + bytes[pos + i - 1] as u64;
                i = i - 1;
            }
            assert(bytes@.subrange(pos as int, pos + n) =~= bytes@.subrange(pos + 0, pos + n));
        },
        Endianness::Big => {
            let mut i: usize = 0;
            assert(bytes@.subrange(pos as int, pos as int) =~= Seq::<u8>::empty());
            while i < n
                invariant
                    n <= 8,
                    pos + n <= bytes@.len(),
                    len == bytes@.len(),
                    i <= n,
                    v == be_value(bytes@.subrange(pos as int, pos + i)),
                    (v as nat) < byte_pow(i as nat),
                    byte_pow(7) == 0x100_0000_0000_0000,
                decreases n - i,
            {
                let ghost old_s = bytes@.subrange(pos as int, pos + i);
                proof {
                    lemma_byte_pow_mono(i as nat, 7);
                    assert(bytes@.subrange(pos as int, pos + i + 1).drop_last() =~= old_s);
                }
                v = v * 256 + bytes[pos + i] as u64;
                i = i + 1;
            }
        },
    }
    v
}

// ---------------------------------------------------------------------------
// Enumerations
// ---------------------------------------------------------------------------
/// Word size of the machine an ELF file is built for.
#[derive(Debug, Clone, Copy, PartialEq, Eq)]
pub enum Architecture {
    Bits32,
    Bits64,
}

/// Byte order of the multi-byte fields of an ELF file.
#[derive(Debug, Clone, Copy, PartialEq, Eq)]
pub enum Endianness {
    Little,
    Big,
}

/// Kind of an ELF file.
#[derive(Debug, Clone, Copy, PartialEq, Eq)]
pub enum FileType {
    NoType,
    Relocatable,
    Executable,
    Dynamic,
    Core,
}

/// Kind of a segment described by a program header entry.
#[derive(Debug, Clone, Copy, PartialEq, Eq)]
pub enum SegmentType {
    Null,
    Loadable,
    DynamicLinking,
    Interpreter,
    Auxiliary,
    Reserved,
    ProgramHeader,
    ThreadLocalStorage,
    OtherReserved(u32),
}

/// Kind of a section described by a section header entry.
#[derive(Debug, Clone, Copy, PartialEq, Eq)]
pub enum SectionType {
    Null,
    ProgramData,
    SymbolTable,
    StringTable,
    RelocationEntriesWithAddends,
    SymbolHashTable,
    DynamicLinking,
    Notes,
    BSS,
    RelocationEntriesWithNoAddends,
    Reserved,
    DynamicLinkingSymbolTable,
    Constructors,
    Destructors,
    PreConstructors,
    SectionGroup,
    ExtendedSectionIndices,
    NumberDefinedTypes,
    OtherReserved(u32),
}

pub open spec fn architecture_of(value: u8) -> Architecture {
    if value == 1 {
        Architecture::Bits32
    } else {
        Architecture::Bits64
    }
}

pub open spec fn endianness_of(value: u8) -> Endianness {
    if value == 1 {
        Endianness::Little
    } else {
        Endianness::Big
    }
}

pub open spec fn file_type_of(value: u16) -> FileType {
    if value == 0 {
        FileType::NoType
    } else if value == 1 {
        FileType::Relocatable
    } else if value == 2 {
        FileType::Executable
    } else if value == 3 {
        FileType::Dynamic
    } else {
        FileType::Core
    }
}

pub open spec fn segment_type_of(value: u32) -> SegmentType {
    if value == 0 {
        SegmentType::Null
    } else if value == 1 {
        SegmentType::Loadable
    } else if value == 2 {
        SegmentType::DynamicLinking
    } else if value == 3 {
        SegmentType::Interpreter
    } else if value == 4 {
        SegmentType::Auxiliary
    } else if value == 5 {
        SegmentType::Reserved
    } else if value == 6 {
        SegmentType::ProgramHeader
    } else if value == 7 {
        SegmentType::ThreadLocalStorage
    } else {
        SegmentType::OtherReserved(value)
    }
}

pub open spec fn section_type_of(value: u32) -> SectionType {
    if value == 0 {
        SectionType::Null
    } else if value == 1 {
        SectionType::ProgramData
    } else if value == 2 {
        SectionType::SymbolTable
    } else if value == 3 {
        SectionType::StringTable
    } else if value == 4 {
        SectionType::RelocationEntriesWithAddends
    } else if value == 5 {
        SectionType::SymbolHashTable
    } else if value == 6 {
        SectionType::DynamicLinking
    } else if value == 7 {
        SectionType::Notes
    } else if value == 8 {
        SectionType::BSS
    } else if value == 9 {
        SectionType::RelocationEntriesWithNoAddends
    } else if value == 10 {
        SectionType::Reserved
    } else if value == 11 {
        SectionType::DynamicLinkingSymbolTable
    } else if value == 14 {
        SectionType::Constructors
    } else if value == 15 {
        SectionType::Destructors
    } else if value == 16 {
        SectionType::PreConstructors
    } else if value == 17 {
        SectionType::SectionGroup
    } else if value == 18 {
        SectionType::ExtendedSectionIndices
    } else if value == 19 {
        SectionType::NumberDefinedTypes
    } else {
        SectionType::OtherReserved(value)
    }
}

impl Architecture {
    /// The `EI_CLASS` byte: 1 for 32-bit, 2 for 64-bit.
    pub fn from_u8(value: u8) -> (r: Self)
        requires
            value == 1 || value == 2,
        ensures
            r == architecture_of(value),
    {
        if value == 1 {
            Architecture::Bits32
        } else {
            Architecture::Bits64
        }
    }
}

impl Endianness {
    /// The `EI_DATA` byte: 1 for little-endian, 2 for big-endian.
    pub fn from_u8(value: u8) -> (r: Self)
        requires
            value == 1 || value == 2,
        ensures
            r == endianness_of(value),
    {
        if value == 1 {
            Endianness::Little
        } else {
            Endianness::Big
        }
    }
}

impl FileType {
    /// The `e_type` field; values above 4 are not accepted.
    pub fn from_u16(value: u16) -> (r: Self)
        requires
            value <= 4,
        ensures
            r == file_type_of(value),
    {
        match value {
            0 => FileType::NoType,
            1 => FileType::Relocatable,
            2 => FileType::Executable,
            3 => FileType::Dynamic,
            _ => FileType::Core,
        }
    }
}

impl SegmentType {
    /// The `p_type` field; unknown values are kept as `OtherReserved`.
    pub fn from_u32(value: u32) -> (r: Self)
        ensures
            r == segment_type_of(value),
    {
        match value {
            0 => SegmentType::Null,
            1 => SegmentType::Loadable,
            2 => SegmentType::DynamicLinking,
            3 => SegmentType::Interpreter,
            4 => SegmentType::Auxiliary,
            5 => SegmentType::Reserved,
            6 => SegmentType::ProgramHeader,
            7 => SegmentType::ThreadLocalStorage,
            val => SegmentType::OtherReserved(val),
        }
    }
}

impl SectionType {
    /// The `sh_type` field; unknown values are kept as `OtherReserved`.
    pub fn from_u32(value: u32) -> (r: Self)
        ensures
            r == section_type_of(value),
    {
        match value {
            0 => SectionType::Null,
            1 => SectionType::ProgramData,
            2 => SectionType::SymbolTable,
            3 => SectionType::StringTable,
            4 => SectionType::RelocationEntriesWithAddends,
            5 => SectionType::SymbolHashTable,
            6 => SectionType::DynamicLinking,
            7 => SectionType::Notes,
            8 => SectionType::BSS,
            9 => SectionType::RelocationEntriesWithNoAddends,
            10 => SectionType::Reserved,
            11 => SectionType::DynamicLinkingSymbolTable,
            14 => SectionType::Constructors,
            15 => SectionType::Destructors,
            16 => SectionType::PreConstructors,
            17 => SectionType::SectionGroup,
            18 => SectionType::ExtendedSectionIndices,
            19 => SectionType::NumberDefinedTypes,
            val => SectionType::OtherReserved(val),
        }
    }
}

/// Size in bytes of an address field.
pub open spec fn address_size(class: Architecture) -> int {
    match class {
        Architecture::Bits32 => 4,
        Architecture::Bits64 => 8,
    }
}

fn exec_address_size(class: Architecture) -> (r: usize)
    ensures
        r == address_size(class),
{
    match class {
        Architecture::Bits32 => 4,
        Architecture::Bits64 => 8,
    }
}


// ---------------------------------------------------------------------------
// File header
// ---------------------------------------------------------------------------
/// The four bytes every ELF file starts with.
pub open spec fn elf_magic() -> Seq<u8> {
    seq![0x7Fu8, 0x45u8, 0x4Cu8, 0x46u8]
}

pub open spec fn has_magic(bytes: Seq<u8>) -> bool {
    bytes.len() >= 4 && bytes.subrange(0, 4) == elf_magic()
}

/// Offset of the `e_flags` field, right after entry, phoff and shoff.
pub open spec fn flags_offset(class: Architecture) -> int {
    24 + 3 * address_size(class)
}

/// Number of bytes of the file header (`e_ehsize` must equal it).
pub open spec fn header_end(class: Architecture) -> int {
    flags_offset(class) + 16
}

pub open spec fn header_class(bytes: Seq<u8>) -> Architecture {
    architecture_of(bytes[4])
}

pub open spec fn header_endianness(bytes: Seq<u8>) -> Endianness {
    endianness_of(bytes[5])
}

/// Value of an `n`-byte header field at `pos`, in the byte order of the header.
pub open spec fn header_field(bytes: Seq<u8>, pos: int, n: int) -> nat {
    field_value(bytes, pos, n, header_endianness(bytes))
}

/// A file header that parses without failing: known class, byte order and
/// file type, enough bytes, and a header size equal to the bytes read.
pub open spec fn header_parsable(bytes: Seq<u8>) -> bool {
    &&& bytes.len() >= 6
    &&& (bytes[4] == 1 || bytes[4] == 2)
    &&& (bytes[5] == 1 || bytes[5] == 2)
    &&& bytes.len() >= header_end(header_class(bytes))
    &&& header_field(bytes, 16, 2) <= 4
    &&& header_field(bytes, flags_offset(header_class(bytes)) + 4, 2) == header_end(
        header_class(bytes),
    )
}

/// The ELF file header.
#[derive(Debug)]
pub struct Header {
    pub magic: [u8; 4],
    pub class: Architecture,
    pub endianness: Endianness,
    pub ei_version: u8,
    pub abi: u8,
    pub abi_version: u8,
    pub _padding: [u8; 7],
    pub file_type: FileType,
    pub isa: u16,
    pub version: u32,
    pub entry: u64,
    pub phoff: u64,
    pub shoff: u64,
    pub flags: u32,
    pub header_size: u16,
    pub ph_entry_size: u16,
    pub ph_entry_num: u16,
    pub sh_entry_size: u16,
    pub sh_entry_num: u16,
    pub shstrndx: u16,
}

/// `h` holds the fields of the file header at the start of `bytes`.
pub open spec fn header_of(h: Header, bytes: Seq<u8>) -> bool {
    let class = header_class(bytes);
    let a = address_size(class);
    let f = flags_offset(class);
    &&& h.magic@ == bytes.subrange(0, 4)
    &&& h.class == class
    &&& h.endianness == header_endianness(bytes)
    &&& h.ei_version == bytes[6]
    &&& h.abi == bytes[7]
    &&& h.abi_version == bytes[8]
    &&& h._padding@ == Seq::new(7, |i: int| 0u8)
    &&& h.file_type == file_type_of(header_field(bytes, 16, 2) as u16)
    &&& h.isa == header_field(bytes, 18, 2)
    &&& h.version == header_field(bytes, 20, 4)
    &&& h.entry == header_field(bytes, 24, a)
    &&& h.phoff == header_field(bytes, 24 + a, a)
    &&& h.shoff == header_field(bytes, 24 + 2 * a, a)
    &&& h.flags == header_field(bytes, f, 4)
    &&& h.header_size == header_field(bytes, f + 4, 2)
    &&& h.ph_entry_size == header_field(bytes, f + 6, 2)
    &&& h.ph_entry_num == header_field(bytes, f + 8, 2)
    &&& h.sh_entry_size == header_field(bytes, f + 10, 2)
    &&& h.sh_entry_num == header_field(bytes, f + 12, 2)
    &&& h.shstrndx == header_field(bytes, f + 14, 2)
}

impl Header {
    /// Parses the file header at the start of `bytes`; fails when the magic
    /// number is not there.
    pub fn from_bytes(bytes: &[u8]) -> (r: Result<Self, &'static str>)
        requires
            bytes@.len() >= 4,
            has_magic(bytes@) ==> header_parsable(bytes@),
        ensures
            r is Err <==> !has_magic(bytes@),
            r matches Err(m) ==> m@ == "invalid magic number"@,
            r matches Ok(h) ==> header_of(h, bytes@),
    {
        proof {
            lemma_byte_pow_8();
        }
        let magic: [u8; 4] = [bytes[0], bytes[1], bytes[2], bytes[3]];
        if magic[0] != 0x7F || magic[1] != 0x45 || magic[2] != 0x4C || magic[3] != 0x46 {
            assert(bytes@.subrange(0, 4)[0] == bytes@[0]);
            assert(bytes@.subrange(0, 4)[1] == bytes@[1]);
            assert(bytes@.subrange(0, 4)[2] == bytes@[2]);
            assert(bytes@.subrange(0, 4)[3] == bytes@[3]);
            return Err("invalid magic number");
        }
        assert(magic@ =~= bytes@.subrange(0, 4));
        assert(bytes@.subrange(0, 4) =~= elf_magic());
        let class = Architecture::from_u8(bytes[4]);
        let endianness = Endianness::from_u8(bytes[5]);
        let a = exec_address_size(class);
        let ei_version = bytes[6];
        let abi = bytes[7];
        let abi_version = bytes[8];
        let file_type = FileType::from_u16(read_uint(bytes, 16, 2, endianness) as u16);
        let isa = read_uint(bytes, 18, 2, endianness) as u16;
        let version = read_uint(bytes, 20, 4, endianness) as u32;
        let entry = read_uint(bytes, 24, a, endianness);
        let phoff = read_uint(bytes, 24 + a, a, endianness);
        let shoff = read_uint(bytes, 24 + 2 * a, a, endianness);
        let f = 24 + 3 * a;
        let flags = read_uint(bytes, f, 4, endianness) as u32;
        let header_size = read_uint(bytes, f + 4, 2, endianness) as u16;
        let ph_entry_size = read_uint(bytes, f + 6, 2, endianness) as u16;
        let ph_entry_num = read_uint(bytes, f + 8, 2, endianness) as u16;
        let sh_entry_size = read_uint(bytes, f + 10, 2, endianness) as u16;
        let sh_entry_num = read_uint(bytes, f + 12, 2, endianness) as u16;
        let shstrndx = read_uint(bytes, f + 14, 2, endianness) as u16;
        let padding: [u8; 7] = [0u8; 7];
        assert(padding@ =~= Seq::new(7, |i: int| 0u8));
        Ok(Header {
            magic,
            class,
            endianness,
            ei_version,
            abi,
            abi_version,
            _padding: padding,
            file_type,
            isa,
            version,
            entry,
            phoff,
            shoff,
            flags,
            header_size,
            ph_entry_size,
            ph_entry_num,
            sh_entry_size,
            sh_entry_num,
            shstrndx,
        })
    }
}


// ---------------------------------------------------------------------------
// Program header
// ---------------------------------------------------------------------------
/// Number of bytes that a program header entry occupies for `class`.
pub open spec fn program_entry_len(class: Architecture) -> int {
    8 + 6 * address_size(class)
}

/// One entry of the program header: a segment of the file.
#[derive(Debug, Clone, Copy)]
pub struct ProgramHeaderEntry {
    pub segment_type: SegmentType,
    pub flags: u32,
    pub offset: u64,
    pub vaddr: u64,
    pub paddr: u64,
    pub file_size: u64,
    pub mem_size: u64,
    pub align: u64,
}

/// `p` holds the program header entry at the start of `bytes`. In 32-bit
/// files the flags come after the sizes, in 64-bit files after the type.
pub open spec fn program_entry_of(
    p: ProgramHeaderEntry,
    class: Architecture,
    e: Endianness,
    bytes: Seq<u8>,
) -> bool {
    let a = address_size(class);
    let base = match class {
        Architecture::Bits32 => 4,
        Architecture::Bits64 => 8,
    };
    let flags_at = match class {
        Architecture::Bits32 => 4 + 5 * a,
        Architecture::Bits64 => 4,
    };
    &&& p.segment_type == segment_type_of(field_value(bytes, 0, 4, e) as u32)
    &&& p.flags == field_value(bytes, flags_at, 4, e)
    &&& p.offset == field_value(bytes, base, a, e)
    &&& p.vaddr == field_value(bytes, base + a, a, e)
    &&& p.paddr == field_value(bytes, base + 2 * a, a, e)
    &&& p.file_size == field_value(bytes, base + 3 * a, a, e)
    &&& p.mem_size == field_value(bytes, base + 4 * a, a, e)
    &&& p.align == field_value(bytes, 8 + 5 * a, a, e)
}

impl ProgramHeaderEntry {
    fn from_bytes(class: Architecture, endianness: Endianness, bytes: &[u8]) -> (r: Self)
        requires
            bytes@.len() >= program_entry_len(class),
        ensures
            program_entry_of(r, class, endianness, bytes@),
    {
        proof {
            lemma_byte_pow_8();
        }
        let a = exec_address_size(class);
        let segment_type = SegmentType::from_u32(read_uint(bytes, 0, 4, endianness) as u32);
        match class {
            Architecture::Bits32 => {
                let offset = read_uint(bytes, 4, a, endianness);
                let vaddr = read_uint(bytes, 4 + a, a, endianness);
                let paddr = read_uint(bytes, 4 + 2 * a, a, endianness);
                let file_size = read_uint(bytes, 4 + 3 * a, a, endianness);
                let mem_size = read_uint(bytes, 4 + 4 * a, a, endianness);
                let flags = read_uint(bytes, 4 + 5 * a, 4, endianness) as u32;
                let align = read_uint(bytes, 8 + 5 * a, a, endianness);
                ProgramHeaderEntry {
                    segment_type,
                    flags,
                    offset,
                    vaddr,
                    paddr,
                    file_size,
                    mem_size,
                    align,
                }
            },
            Architecture::Bits64 => {
                let flags = read_uint(bytes, 4, 4, endianness) as u32;
                let offset = read_uint(bytes, 8, a, endianness);
                let vaddr = read_uint(bytes, 8 + a, a, endianness);
                let paddr = read_uint(bytes, 8 + 2 * a, a, endianness);
                let file_size = read_uint(bytes, 8 + 3 * a, a, endianness);
                let mem_size = read_uint(bytes, 8 + 4 * a, a, endianness);
                let align = read_uint(bytes, 8 + 5 * a, a, endianness);
                ProgramHeaderEntry {
                    segment_type,
                    flags,
                    offset,
                    vaddr,
                    paddr,
                    file_size,
                    mem_size,
                    align,
                }
            },
        }
    }
}

/// The program header table: `entry_num` entries of `entry_size` bytes.
pub struct ProgramHeader<'a> {
    pub class: Architecture,
    pub endianness: Endianness,
    pub entry_size: u16,
    pub entry_num: u16,
    pub bytes: &'a [u8],
}

/// The bytes of entry `i` of a table of `size`-byte entries.
pub open spec fn table_entry_bytes(bytes: Seq<u8>, i: int, size: int) -> Seq<u8> {
    bytes.subrange(i * size, (i + 1) * size)
}

pub(crate) proof fn lemma_entry_range(i: int, n: int, size: int)
    requires
        0 <= i < n,
        0 <= size,
    ensures
        0 <= i * size,
        (i + 1) * size <= n * size,
        i * size + size == (i + 1) * size,
{
    assert(0 <= i * size) by (nonlinear_arith)
        requires
            0 <= i,
            0 <= size,
    ;
    assert((i + 1) * size <= n * size) by (nonlinear_arith)
        requires
            i + 1 <= n,
            0 <= size,
    ;
    assert(i * size + size == (i + 1) * size) by (nonlinear_arith);
}

impl<'a> ProgramHeader<'a> {
    /// All entries of the table, in order.
    pub fn entries(&self) -> (r: Vec<ProgramHeaderEntry>)
        requires
            self.bytes@.len() >= self.entry_num * self.entry_size,
            self.entry_num > 0 ==> self.entry_size >= program_entry_len(self.class),
        ensures
            r@.len() == self.entry_num,
            forall|i: int|
                0 <= i < self.entry_num ==> program_entry_of(
                    #[trigger] r@[i],
                    self.class,
                    self.endianness,
                    table_entry_bytes(self.bytes@, i, self.entry_size as int),
                ),
    {
        let mut ret: Vec<ProgramHeaderEntry> = Vec::new();
        let mut count: usize = 0;
        let size = self.entry_size as usize;
        let blen = self.bytes.len();
        while count < self.entry_num as usize
            invariant
                count <= self.entry_num,
                blen == self.bytes@.len(),
                size == self.entry_size,
                ret@.len() == count,
                self.bytes@.len() >= self.entry_num * self.entry_size,
                self.entry_num > 0 ==> self.entry_size >= program_entry_len(self.class),
                forall|i: int|
                    0 <= i < count ==> program_entry_of(
                        #[trigger] ret@[i],
                        self.class,
                        self.endianness,
                        table_entry_bytes(self.bytes@, i, self.entry_size as int),
                    ),
            decreases self.entry_num - count,
        {
            proof {
                lemma_entry_range(count as int, self.entry_num as int, size as int);
            }
            let slice = vstd::slice::slice_subrange(self.bytes, count * size, (count + 1) * size);
            let entry = ProgramHeaderEntry::from_bytes(self.class, self.endianness, slice);
            ret.push(entry);
            count = count + 1;
        }
        ret
    }
}

// ---------------------------------------------------------------------------
// Section header
// ---------------------------------------------------------------------------
/// Number of bytes that a section header entry occupies for `class`.
pub open spec fn section_entry_len(class: Architecture) -> int {
    16 + 6 * address_size(class)
}

/// One entry of the section header: a section of the file.
#[derive(Debug, Clone, Copy)]
pub struct SectionHeaderEntry {
    pub name_offset: u32,
    pub section_type: SectionType,
    pub flags: u64,
    pub addr: u64,
    pub offset: u64,
    pub size: u64,
    pub link: u32,
    pub info: u32,
    pub align: u64,
    pub entry_size: u64,
}

/// `s` holds the section header entry at the start of `bytes`.
pub open spec fn section_entry_of(
    s: SectionHeaderEntry,
    class: Architecture,
    e: Endianness,
    bytes: Seq<u8>,
) -> bool {
    let a = address_size(class);
    &&& s.name_offset == field_value(bytes, 0, 4, e)
    &&& s.section_type == section_type_of(field_value(bytes, 4, 4, e) as u32)
    &&& s.flags == field_value(bytes, 8, a, e)
    &&& s.addr == field_value(bytes, 8 + a, a, e)
    &&& s.offset == field_value(bytes, 8 + 2 * a, a, e)
    &&& s.size == field_value(bytes, 8 + 3 * a, a, e)
    &&& s.link == field_value(bytes, 8 + 4 * a, 4, e)
    &&& s.info == field_value(bytes, 12 + 4 * a, 4, e)
    &&& s.align == field_value(bytes, 16 + 4 * a, a, e)
    &&& s.entry_size == field_value(bytes, 16 + 5 * a, a, e)
}

/// The section header entry at the start of `bytes`.
pub open spec fn section_entry_value(class: Architecture, e: Endianness, bytes: Seq<u8>) -> SectionHeaderEntry {
    let a = address_size(class);
    SectionHeaderEntry {
        name_offset: field_value(bytes, 0, 4, e) as u32,
        section_type: section_type_of(field_value(bytes, 4, 4, e) as u32),
        flags: field_value(bytes, 8, a, e) as u64,
        addr: field_value(bytes, 8 + a, a, e) as u64,
        offset: field_value(bytes, 8 + 2 * a, a, e) as u64,
        size: field_value(bytes, 8 + 3 * a, a, e) as u64,
        link: field_value(bytes, 8 + 4 * a, 4, e) as u32,
        info: field_value(bytes, 12 + 4 * a, 4, e) as u32,
        align: field_value(bytes, 16 + 4 * a, a, e) as u64,
        entry_size: field_value(bytes, 16 + 5 * a, a, e) as u64,
    }
}

/// An entry read from `bytes` is the entry that `bytes` hold.
pub proof fn lemma_section_entry_value(
    s: SectionHeaderEntry,
    class: Architecture,
    e: Endianness,
    bytes: Seq<u8>,
)
    requires
        section_entry_of(s, class, e, bytes),
    ensures
        s == section_entry_value(class, e, bytes),
{
}

impl SectionHeaderEntry {
    /// Parses one section header entry from the start of `bytes`.
    pub fn from_bytes(class: Architecture, endianness: Endianness, bytes: &[u8]) -> (r: Self)
        requires
            bytes@.len() >= section_entry_len(class),
        ensures
            section_entry_of(r, class, endianness, bytes@),
    {
        proof {
            lemma_byte_pow_8();
        }
        let a = exec_address_size(class);
        let name_offset = read_uint(bytes, 0, 4, endianness) as u32;
        let section_type = SectionType::from_u32(read_uint(bytes, 4, 4, endianness) as u32);
        let flags = read_uint(bytes, 8, a, endianness);
        let addr = read_uint(bytes, 8 + a, a, endianness);
        let offset = read_uint(bytes, 8 + 2 * a, a, endianness);
        let size = read_uint(bytes, 8 + 3 * a, a, endianness);
        let link = read_uint(bytes, 8 + 4 * a, 4, endianness) as u32;
        let info = read_uint(bytes, 12 + 4 * a, 4, endianness) as u32;
        let align = read_uint(bytes, 16 + 4 * a, a, endianness);
        let entry_size = read_uint(bytes, 16 + 5 * a, a, endianness);
        SectionHeaderEntry {
            name_offset,
            section_type,
            flags,
            addr,
            offset,
            size,
            link,
            info,
            align,
            entry_size,
        }
    }
}

/// The section header table: `entry_num` entries of `entry_size` bytes.
pub struct SectionHeader<'a> {
    pub class: Architecture,
    pub endianness: Endianness,
    pub entry_size: u16,
    pub entry_num: u16,
    pub bytes: &'a [u8],
}

impl<'a> SectionHeader<'a> {
    /// All entries of the table, in order.
    pub fn entries(&self) -> (r: Vec<SectionHeaderEntry>)
        requires
            self.bytes@.len() >= self.entry_num * self.entry_size,
            self.entry_num > 0 ==> self.entry_size >= section_entry_len(self.class),
        ensures
            r@.len() == self.entry_num,
            forall|i: int|
                0 <= i < self.entry_num ==> section_entry_of(
                    #[trigger] r@[i],
                    self.class,
                    self.endianness,
                    table_entry_bytes(self.bytes@, i, self.entry_size as int),
                ),
    {
        let mut ret: Vec<SectionHeaderEntry> = Vec::new();
        let mut count: usize = 0;
        let size = self.entry_size as usize;
        let blen = self.bytes.len();
        while count < self.entry_num as usize
            invariant
                count <= self.entry_num,
                blen == self.bytes@.len(),
                size == self.entry_size,
                ret@.len() == count,
                self.bytes@.len() >= self.entry_num * self.entry_size,
                self.entry_num > 0 ==> self.entry_size >= section_entry_len(self.class),
                forall|i: int|
                    0 <= i < count ==> section_entry_of(
                        #[trigger] ret@[i],
                        self.class,
                        self.endianness,
                        table_entry_bytes(self.bytes@, i, self.entry_size as int),
                    ),
            decreases self.entry_num - count,
        {
            proof {
                lemma_entry_range(count as int, self.entry_num as int, size as int);
            }
            let slice = vstd::slice::slice_subrange(self.bytes, count * size, (count + 1) * size);
            let entry = SectionHeaderEntry::from_bytes(self.class, self.endianness, slice);
            ret.push(entry);
            count = count + 1;
        }
        ret
    }
}

// ---------------------------------------------------------------------------
// Whole file
// ---------------------------------------------------------------------------
/// An ELF file held in memory.
pub struct Elf<'a>(pub &'a [u8]);

/// A file with a valid header whose table at `off` with `num` entries of
/// `size` bytes lies inside the file.
pub open spec fn table_in_file(bytes: Seq<u8>, off: int, num: int, size: int) -> bool {
    off + num * size <= bytes.len()
}

impl<'a> Elf<'a> {
    /// The parsed file header.
    pub fn header(&self) -> (r: Header)
        requires
            has_magic(self.0@),
            header_parsable(self.0@),
        ensures
            header_of(r, self.0@),
    {
        match Header::from_bytes(self.0) {
            Ok(h) => h,
            Err(_) => vstd::pervasive::unreached(),
        }
    }

    /// The program header table that the file header points to.
    pub fn program_header(&self) -> (r: ProgramHeader<'_>)
        requires
            has_magic(self.0@),
            header_parsable(self.0@),
            table_in_file(
                self.0@,
                header_field(self.0@, 24 + address_size(header_class(self.0@)), address_size(header_class(self.0@))) as int,
                header_field(self.0@, flags_offset(header_class(self.0@)) + 8, 2) as int,
                header_field(self.0@, flags_offset(header_class(self.0@)) + 6, 2) as int,
            ),
        ensures
            r.class == header_class(self.0@),
            r.endianness == header_endianness(self.0@),
            r.entry_size == header_field(self.0@, flags_offset(header_class(self.0@)) + 6, 2),
            r.entry_num == header_field(self.0@, flags_offset(header_class(self.0@)) + 8, 2),
            r.bytes@ == self.0@.subrange(
                header_field(self.0@, 24 + address_size(header_class(self.0@)), address_size(header_class(self.0@))) as int,
                header_field(self.0@, 24 + address_size(header_class(self.0@)), address_size(header_class(self.0@))) + r.entry_num * r.entry_size,
            ),
    {
        let header = self.header();
        let start = header.phoff;
        let flen = self.0.len();
        assert(0 <= header.ph_entry_num as u64 * header.ph_entry_size as u64 <= 0xffff * 0xffff)
            by (nonlinear_arith)
            requires
                header.ph_entry_num <= 0xffff,
                header.ph_entry_size <= 0xffff,
        ;
        let len = header.ph_entry_num as u64 * header.ph_entry_size as u64;
        let end = start + len;
        let bytes = vstd::slice::slice_subrange(self.0, start as usize, end as usize);
        ProgramHeader {
            class: header.class,
            endianness: header.endianness,
            entry_size: header.ph_entry_size,
            entry_num: header.ph_entry_num,
            bytes,
        }
    }

    /// The section header table that the file header points to.
    pub fn section_header(&self) -> (r: SectionHeader<'_>)
        requires
            has_magic(self.0@),
            header_parsable(self.0@),
            table_in_file(
                self.0@,
                header_field(self.0@, 24 + 2 * address_size(header_class(self.0@)), address_size(header_class(self.0@))) as int,
                header_field(self.0@, flags_offset(header_class(self.0@)) + 12, 2) as int,
                header_field(self.0@, flags_offset(header_class(self.0@)) + 10, 2) as int,
            ),
        ensures
            r.class == header_class(self.0@),
            r.endianness == header_endianness(self.0@),
            r.entry_size == header_field(self.0@, flags_offset(header_class(self.0@)) + 10, 2),
            r.entry_num == header_field(self.0@, flags_offset(header_class(self.0@)) + 12, 2),
            r.bytes@ == self.0@.subrange(
                header_field(self.0@, 24 + 2 * address_size(header_class(self.0@)), address_size(header_class(self.0@))) as int,
                header_field(self.0@, 24 + 2 * address_size(header_class(self.0@)), address_size(header_class(self.0@))) + r.entry_num * r.entry_size,
            ),
    {
        let header = self.header();
        let start = header.shoff;
        let flen = self.0.len();
        assert(0 <= header.sh_entry_num as u64 * header.sh_entry_size as u64 <= 0xffff * 0xffff)
            by (nonlinear_arith)
            requires
                header.sh_entry_num <= 0xffff,
                header.sh_entry_size <= 0xffff,
        ;
        let len = header.sh_entry_num as u64 * header.sh_entry_size as u64;
        let end = start + len;
        let bytes = vstd::slice::slice_subrange(self.0, start as usize, end as usize);
        SectionHeader {
            class: header.class,
            endianness: header.endianness,
            entry_size: header.sh_entry_size,
            entry_num: header.sh_entry_num,
            bytes,
        }
    }
}

// ---------------------------------------------------------------------------
// Laws: the ELF numbering and layout
// ---------------------------------------------------------------------------
/// Law: the identification bytes carry their ELF meanings: `EI_CLASS` 1 is
/// a 32-bit and 2 a 64-bit file, `EI_DATA` 1 is little-endian and 2
/// big-endian.
pub proof fn lemma_ident_numbers(value: u8)
    requires
        value == 1 || value == 2,
    ensures
        (architecture_of(value) == Architecture::Bits32) <==> value == 1,
        (architecture_of(value) == Architecture::Bits64) <==> value == 2,
        (endianness_of(value) == Endianness::Little) <==> value == 1,
        (endianness_of(value) == Endianness::Big) <==> value == 2,
{
}

/// Law: `e_type` values carry their ELF meanings: 0 none, 1 relocatable,
/// 2 executable, 3 shared object, 4 core.
pub proof fn lemma_file_type_numbers(value: u16)
    requires
        value <= 4,
    ensures
        (file_type_of(value) == FileType::NoType) <==> value == 0,
        (file_type_of(value) == FileType::Relocatable) <==> value == 1,
        (file_type_of(value) == FileType::Executable) <==> value == 2,
        (file_type_of(value) == FileType::Dynamic) <==> value == 3,
        (file_type_of(value) == FileType::Core) <==> value == 4,
{
}

/// Law: `p_type` values carry their ELF meanings: 0 `PT_NULL`, 1 `PT_LOAD`,
/// 2 `PT_DYNAMIC`, 3 `PT_INTERP`, 4 `PT_NOTE`, 5 `PT_SHLIB`, 6 `PT_PHDR`,
/// 7 `PT_TLS`; every other value is kept as it is.
pub proof fn lemma_segment_type_numbers(value: u32)
    ensures
        (segment_type_of(value) == SegmentType::Null) <==> value == 0,
        (segment_type_of(value) == SegmentType::Loadable) <==> value == 1,
        (segment_type_of(value) == SegmentType::DynamicLinking) <==> value == 2,
        (segment_type_of(value) == SegmentType::Interpreter) <==> value == 3,
        (segment_type_of(value) == SegmentType::Auxiliary) <==> value == 4,
        (segment_type_of(value) == SegmentType::Reserved) <==> value == 5,
        (segment_type_of(value) == SegmentType::ProgramHeader) <==> value == 6,
        (segment_type_of(value) == SegmentType::ThreadLocalStorage) <==> value == 7,
        (segment_type_of(value) == SegmentType::OtherReserved(value)) <==> value > 7,
        segment_type_of(value) matches SegmentType::OtherReserved(v) ==> v == value,
{
}

/// Law: `sh_type` values carry their ELF meanings: 0 `SHT_NULL`, 1
/// `SHT_PROGBITS`, 2 `SHT_SYMTAB`, 3 `SHT_STRTAB`, 4 `SHT_RELA`, 5
/// `SHT_HASH`, 6 `SHT_DYNAMIC`, 7 `SHT_NOTE`, 8 `SHT_NOBITS`, 9 `SHT_REL`,
/// 10 `SHT_SHLIB`, 11 `SHT_DYNSYM`, 14 `SHT_INIT_ARRAY`, 15
/// `SHT_FINI_ARRAY`, 16 `SHT_PREINIT_ARRAY`, 17 `SHT_GROUP`, 18
/// `SHT_SYMTAB_SHNDX`, 19 `SHT_NUM`; every other value is kept as it is.
pub proof fn lemma_section_type_numbers(value: u32)
    ensures
        (section_type_of(value) == SectionType::Null) <==> value == 0,
        (section_type_of(value) == SectionType::ProgramData) <==> value == 1,
        (section_type_of(value) == SectionType::SymbolTable) <==> value == 2,
        (section_type_of(value) == SectionType::StringTable) <==> value == 3,
        (section_type_of(value) == SectionType::RelocationEntriesWithAddends) <==> value == 4,
        (section_type_of(value) == SectionType::SymbolHashTable) <==> value == 5,
        (section_type_of(value) == SectionType::DynamicLinking) <==> value == 6,
        (section_type_of(value) == SectionType::Notes) <==> value == 7,
        (section_type_of(value) == SectionType::BSS) <==> value == 8,
        (section_type_of(value) == SectionType::RelocationEntriesWithNoAddends) <==> value == 9,
        (section_type_of(value) == SectionType::Reserved) <==> value == 10,
        (section_type_of(value) == SectionType::DynamicLinkingSymbolTable) <==> value == 11,
        (section_type_of(value) == SectionType::Constructors) <==> value == 14,
        (section_type_of(value) == SectionType::Destructors) <==> value == 15,
        (section_type_of(value) == SectionType::PreConstructors) <==> value == 16,
        (section_type_of(value) == SectionType::SectionGroup) <==> value == 17,
        (section_type_of(value) == SectionType::ExtendedSectionIndices) <==> value == 18,
        (section_type_of(value) == SectionType::NumberDefinedTypes) <==> value == 19,
        (section_type_of(value) == SectionType::OtherReserved(value)) <==> (value == 12 || value
            == 13 || value > 19),
        section_type_of(value) matches SectionType::OtherReserved(v) ==> v == value,
{
}

/// Law: a two- or four-byte field is read in the byte order of the file:
/// least significant byte first in a little-endian file, last in a
/// big-endian one.
pub proof fn lemma_field_byte_order(bytes: Seq<u8>, pos: int)
    requires
        0 <= pos,
        pos + 4 <= bytes.len(),
    ensures
        field_value(bytes, pos, 2, Endianness::Little) == bytes[pos] + 256 * bytes[pos + 1],
        field_value(bytes, pos, 2, Endianness::Big) == 256 * bytes[pos] + bytes[pos + 1],
        field_value(bytes, pos, 4, Endianness::Little) == bytes[pos] + 256 * bytes[pos + 1]
            + 65536 * bytes[pos + 2] + 16777216 * bytes[pos + 3],
        field_value(bytes, pos, 4, Endianness::Big) == 16777216 * bytes[pos] + 65536 * bytes[pos
            + 1] + 256 * bytes[pos + 2] + bytes[pos + 3],
{
    let s2 = bytes.subrange(pos, pos + 2);
    let s4 = bytes.subrange(pos, pos + 4);
    let a1 = s2.drop_first();
    assert(a1 =~= seq![bytes[pos + 1]]);
    assert(a1.drop_first() =~= Seq::<u8>::empty());
    assert(le_value(a1.drop_first()) == 0);
    assert(a1[0] == bytes[pos + 1]);
    assert(le_value(a1) == bytes[pos + 1]);
    assert(le_value(s2) == bytes[pos] + 256 * le_value(a1));
    let c1 = s2.drop_last();
    assert(c1 =~= seq![bytes[pos]]);
    assert(c1.drop_last() =~= Seq::<u8>::empty());
    assert(be_value(c1.drop_last()) == 0);
    assert(c1.last() == bytes[pos]);
    assert(be_value(c1) == bytes[pos]);
    assert(be_value(s2) == 256 * be_value(c1) + bytes[pos + 1]);
    let l3 = s4.drop_first();
    let l2 = l3.drop_first();
    let l1 = l2.drop_first();
    assert(l1 =~= seq![bytes[pos + 3]]);
    assert(l1.drop_first() =~= Seq::<u8>::empty());
    assert(le_value(l1) == bytes[pos + 3]);
    assert(le_value(l2) == bytes[pos + 2] + 256 * le_value(l1));
    assert(le_value(l3) == bytes[pos + 1] + 256 * le_value(l2));
    assert(le_value(s4) == bytes[pos] + 256 * le_value(l3));
    let b3 = s4.drop_last();
    let b2 = b3.drop_last();
    let b1 = b2.drop_last();
    assert(b1 =~= seq![bytes[pos]]);
    assert(b1.drop_last() =~= Seq::<u8>::empty());
    assert(be_value(b1) == bytes[pos]);
    assert(be_value(b2) == 256 * be_value(b1) + bytes[pos + 1]);
    assert(be_value(b3) == 256 * be_value(b2) + bytes[pos + 2]);
    assert(be_value(s4) == 256 * be_value(b3) + bytes[pos + 3]);
}

/// Law: the file header fields stand at their ELF offsets: `e_type` at 16,
/// `e_machine` at 18, `e_version` at 20, then in a 64-bit file `e_entry`,
/// `e_phoff` and `e_shoff` at 24, 32 and 40 (8 bytes each), `e_flags` at
/// 48, `e_ehsize` at 52, `e_phentsize` at 54, `e_phnum` at 56,
/// `e_shentsize` at 58, `e_shnum` at 60 and `e_shstrndx` at 62; in a 32-bit
/// file the addresses take 4 bytes at 24, 28 and 32 and the rest follows
/// from 36 on.
pub proof fn lemma_header_layout(h: Header, bytes: Seq<u8>)
    requires
        header_of(h, bytes),
    ensures
        h.file_type == file_type_of(header_field(bytes, 16, 2) as u16),
        h.isa == header_field(bytes, 18, 2),
        h.version == header_field(bytes, 20, 4),
        h.class == Architecture::Bits64 ==> {
            &&& h.entry == header_field(bytes, 24, 8)
            &&& h.phoff == header_field(bytes, 32, 8)
            &&& h.shoff == header_field(bytes, 40, 8)
            &&& h.flags == header_field(bytes, 48, 4)
            &&& h.header_size == header_field(bytes, 52, 2)
            &&& h.ph_entry_size == header_field(bytes, 54, 2)
            &&& h.ph_entry_num == header_field(bytes, 56, 2)
            &&& h.sh_entry_size == header_field(bytes, 58, 2)
            &&& h.sh_entry_num == header_field(bytes, 60, 2)
            &&& h.shstrndx == header_field(bytes, 62, 2)
        },
        h.class == Architecture::Bits32 ==> {
            &&& h.entry == header_field(bytes, 24, 4)
            &&& h.phoff == header_field(bytes, 28, 4)
            &&& h.shoff == header_field(bytes, 32, 4)
            &&& h.flags == header_field(bytes, 36, 4)
            &&& h.header_size == header_field(bytes, 40, 2)
            &&& h.ph_entry_size == header_field(bytes, 42, 2)
            &&& h.ph_entry_num == header_field(bytes, 44, 2)
            &&& h.sh_entry_size == header_field(bytes, 46, 2)
            &&& h.sh_entry_num == header_field(bytes, 48, 2)
            &&& h.shstrndx == header_field(bytes, 50, 2)
        },
        (h.class == Architecture::Bits32) <==> bytes[4] == 1,
        (h.endianness == Endianness::Little) <==> bytes[5] == 1,
{
}

/// Law: program header entry fields stand at their ELF offsets: in a 64-bit
/// file `p_type` at 0, `p_flags` at 4, then `p_offset`, `p_vaddr`,
/// `p_paddr`, `p_filesz`, `p_memsz` and `p_align` at 8, 16, 24, 32, 40 and
/// 48 (8 bytes each); in a 32-bit file `p_type` at 0, the five addresses and
/// sizes at 4, 8, 12, 16 and 20, `p_flags` at 24 and `p_align` at 28 (4
/// bytes each).
pub proof fn lemma_program_entry_layout(
    p: ProgramHeaderEntry,
    class: Architecture,
    e: Endianness,
    bytes: Seq<u8>,
)
    requires
        program_entry_of(p, class, e, bytes),
    ensures
        p.segment_type == segment_type_of(field_value(bytes, 0, 4, e) as u32),
        class == Architecture::Bits64 ==> {
            &&& p.flags == field_value(bytes, 4, 4, e)
            &&& p.offset == field_value(bytes, 8, 8, e)
            &&& p.vaddr == field_value(bytes, 16, 8, e)
            &&& p.paddr == field_value(bytes, 24, 8, e)
            &&& p.file_size == field_value(bytes, 32, 8, e)
            &&& p.mem_size == field_value(bytes, 40, 8, e)
            &&& p.align == field_value(bytes, 48, 8, e)
        },
        class == Architecture::Bits32 ==> {
            &&& p.offset == field_value(bytes, 4, 4, e)
            &&& p.vaddr == field_value(bytes, 8, 4, e)
            &&& p.paddr == field_value(bytes, 12, 4, e)
            &&& p.file_size == field_value(bytes, 16, 4, e)
            &&& p.mem_size == field_value(bytes, 20, 4, e)
            &&& p.flags == field_value(bytes, 24, 4, e)
            &&& p.align == field_value(bytes, 28, 4, e)
        },
{
}

/// Law: section header entry fields stand at their ELF offsets: `sh_name`
/// at 0 and `sh_type` at 4; in a 64-bit file `sh_flags`, `sh_addr`,
/// `sh_offset` and `sh_size` at 8, 16, 24 and 32 (8 bytes each), `sh_link`
/// at 40, `sh_info` at 44, `sh_addralign` at 48 and `sh_entsize` at 56; in
/// a 32-bit file every field takes 4 bytes, from 8 to 36.
pub proof fn lemma_section_entry_layout(
    s: SectionHeaderEntry,
    class: Architecture,
    e: Endianness,
    bytes: Seq<u8>,
)
    requires
        section_entry_of(s, class, e, bytes),
    ensures
        s.name_offset == field_value(bytes, 0, 4, e),
        s.section_type == section_type_of(field_value(bytes, 4, 4, e) as u32),
        class == Architecture::Bits64 ==> {
            &&& s.flags == field_value(bytes, 8, 8, e)
            &&& s.addr == field_value(bytes, 16, 8, e)
            &&& s.offset == field_value(bytes, 24, 8, e)
            &&& s.size == field_value(bytes, 32, 8, e)
            &&& s.link == field_value(bytes, 40, 4, e)
            &&& s.info == field_value(bytes, 44, 4, e)
            &&& s.align == field_value(bytes, 48, 8, e)
            &&& s.entry_size == field_value(bytes, 56, 8, e)
        },
        class == Architecture::Bits32 ==> {
            &&& s.flags == field_value(bytes, 8, 4, e)
            &&& s.addr == field_value(bytes, 12, 4, e)
            &&& s.offset == field_value(bytes, 16, 4, e)
            &&& s.size == field_value(bytes, 20, 4, e)
            &&& s.link == field_value(bytes, 24, 4, e)
            &&& s.info == field_value(bytes, 28, 4, e)
            &&& s.align == field_value(bytes, 32, 4, e)
            &&& s.entry_size == field_value(bytes, 36, 4, e)
        },
{
}

} // verus!
