//! The string tags of the boot information and the tag of the kernel's own
//! ELF section headers.
use vstd::prelude::*;
use vstd::string::*;
use vstd::utf8::valid_utf8;

use crate::elf::{section_entry_of, table_entry_bytes, Architecture, Endianness, SectionHeaderEntry};
use crate::multiboot::{read_u32, u32_at, Tag, TagContainer, TagHeader, TagType};
use crate::text::{lemma_trim_nul_valid, str_from_utf8, trim_nul, trim_nul_bytes};

verus! {

/// A string tag's bytes without the NUL byte that ends them.
pub open spec fn text_of(string: Seq<u8>) -> Seq<u8> {
    string.subrange(0, string.len() - 1)
}

/// The bytes of `string` before its final NUL byte, decoded; `None` when
/// `string` is empty or those bytes are not UTF-8.
fn text(string: &[u8]) -> (r: Option<&str>)
    ensures
        r is Some <==> (string@.len() > 0 && valid_utf8(text_of(string@))),
        r matches Some(s) ==> s.spec_bytes() == text_of(string@),
{
    let n = string.len();
    if n == 0 {
        return None;
    }
    str_from_utf8(vstd::slice::slice_subrange(string, 0, n - 1))
}

/// The same, with the NUL bytes at either end taken off.
fn trimmed_text(string: &[u8]) -> (r: Option<&str>)
    ensures
        r is Some <==> (string@.len() > 0 && valid_utf8(text_of(string@))),
        r matches Some(s) ==> s.spec_bytes() == trim_nul(text_of(string@)),
{
    let n = string.len();
    if n == 0 {
        return None;
    }
    let inner = vstd::slice::slice_subrange(string, 0, n - 1);
    proof {
        lemma_trim_nul_valid(inner@);
    }
    str_from_utf8(trim_nul_bytes(inner))
}

/// The command line the kernel was booted with.
pub struct CommandLineTag<'a> {
    pub header: TagHeader,
    pub string: &'a [u8],
}

impl<'a> Tag for CommandLineTag<'a> {
    open spec fn kind() -> TagType {
        TagType::CommandLine
    }

    open spec fn min_size() -> nat {
        8
    }

    fn tag_type() -> (t: TagType) {
        TagType::CommandLine
    }

    /// The bytes of the string.
    fn dst_len(header: &TagHeader) -> (n: usize)
        ensures
            n == header.size - 8,
    {
        header.size as usize - 8
    }
}

impl<'a> CommandLineTag<'a> {
    /// The command line tag that `c` holds: all its bytes are the string.
    pub fn from_container(c: &TagContainer<'a>) -> (r: Self)
        requires
            c.header.tag_type == TagType::CommandLine,
        ensures
            r.header == c.header,
            r.string@ == c.payload@,
    {
        CommandLineTag { header: c.header, string: c.payload }
    }

    /// The command line, without its final NUL byte; `None` when the string
    /// is empty or not UTF-8.
    pub fn string(&self) -> (r: Option<&'a str>)
        ensures
            r is Some <==> (self.string@.len() > 0 && valid_utf8(text_of(self.string@))),
            r matches Some(s) ==> s.spec_bytes() == text_of(self.string@),
    {
        text(self.string)
    }
}

/// The name of the boot loader.
pub struct BootLoaderNameTag<'a> {
    pub header: TagHeader,
    pub string: &'a [u8],
}

impl<'a> Tag for BootLoaderNameTag<'a> {
    open spec fn kind() -> TagType {
        TagType::BootLoaderName
    }

    open spec fn min_size() -> nat {
        8
    }

    fn tag_type() -> (t: TagType) {
        TagType::BootLoaderName
    }

    /// The bytes of the string.
    fn dst_len(header: &TagHeader) -> (n: usize)
        ensures
            n == header.size - 8,
    {
        header.size as usize - 8
    }
}

impl<'a> BootLoaderNameTag<'a> {
    /// The boot loader name tag that `c` holds: all its bytes are the string.
    pub fn from_container(c: &TagContainer<'a>) -> (r: Self)
        requires
            c.header.tag_type == TagType::BootLoaderName,
        ensures
            r.header == c.header,
            r.string@ == c.payload@,
    {
        BootLoaderNameTag { header: c.header, string: c.payload }
    }

    /// The name, without its final NUL byte and without NUL bytes at either
    /// end; `None` when the string is empty or not UTF-8.
    pub fn string(&self) -> (r: Option<&'a str>)
        ensures
            r is Some <==> (self.string@.len() > 0 && valid_utf8(text_of(self.string@))),
            r matches Some(s) ==> s.spec_bytes() == trim_nul(text_of(self.string@)),
    {
        trimmed_text(self.string)
    }
}

/// A module the boot loader loaded: where it lies in memory and its name.
pub struct ModuleTag<'a> {
    pub header: TagHeader,
    pub start: u32,
    pub end: u32,
    pub string: &'a [u8],
}

impl<'a> Tag for ModuleTag<'a> {
    open spec fn kind() -> TagType {
        TagType::Modules
    }

    open spec fn min_size() -> nat {
        16
    }

    fn tag_type() -> (t: TagType) {
        TagType::Modules
    }

    /// The bytes of the name.
    fn dst_len(header: &TagHeader) -> (n: usize)
        ensures
            n == header.size - 16,
    {
        header.size as usize - 16
    }
}

impl<'a> ModuleTag<'a> {
    /// The module tag that `c` holds: the start and end addresses, then the
    /// name.
    pub fn from_container(c: &TagContainer<'a>) -> (r: Self)
        requires
            c.header.tag_type == TagType::Modules,
            c.payload@.len() >= 8,
        ensures
            r.header == c.header,
            r.start == u32_at(c.payload@, 0),
            r.end == u32_at(c.payload@, 4),
            r.string@ == c.payload@.subrange(8, c.payload@.len() as int),
    {
        let p = c.payload;
        ModuleTag {
            header: c.header,
            start: read_u32(p, 0),
            end: read_u32(p, 4),
            string: vstd::slice::slice_subrange(p, 8, p.len()),
        }
    }

    /// The name, without its final NUL byte and without NUL bytes at either
    /// end; `None` when the string is empty or not UTF-8.
    pub fn string(&self) -> (r: Option<&'a str>)
        ensures
            r is Some <==> (self.string@.len() > 0 && valid_utf8(text_of(self.string@))),
            r matches Some(s) ==> s.spec_bytes() == trim_nul(text_of(self.string@)),
    {
        trimmed_text(self.string)
    }
}

/// The section headers of the kernel's own ELF image.
pub struct ElfSectionsTag<'a> {
    pub header: TagHeader,
    pub number: u32,
    pub entry_size: u32,
    pub shndx: u32,
    pub entry_bytes: &'a [u8],
}

impl<'a> Tag for ElfSectionsTag<'a> {
    open spec fn kind() -> TagType {
        TagType::ElfSymbols
    }

    open spec fn min_size() -> nat {
        20
    }

    fn tag_type() -> (t: TagType) {
        TagType::ElfSymbols
    }

    /// The bytes of the section headers.
    fn dst_len(header: &TagHeader) -> (n: usize)
        ensures
            n == header.size - 20,
    {
        header.size as usize - 20
    }
}

/// The word size whose section headers are `size` bytes long.
pub open spec fn class_of_entry_size(size: u32) -> Architecture {
    if size == 40 {
        Architecture::Bits32
    } else {
        Architecture::Bits64
    }
}

impl<'a> ElfSectionsTag<'a> {
    /// The ELF sections tag that `c` holds: the number of entries, their
    /// size, the index of the section names' table, then the entries.
    pub fn from_container(c: &TagContainer<'a>) -> (r: Self)
        requires
            c.header.tag_type == TagType::ElfSymbols,
            c.payload@.len() >= 12,
        ensures
            r.header == c.header,
            r.number == u32_at(c.payload@, 0),
            r.entry_size == u32_at(c.payload@, 4),
            r.shndx == u32_at(c.payload@, 8),
            r.entry_bytes@ == c.payload@.subrange(12, c.payload@.len() as int),
    {
        let p = c.payload;
        ElfSectionsTag {
            header: c.header,
            number: read_u32(p, 0),
            entry_size: read_u32(p, 4),
            shndx: read_u32(p, 8),
            entry_bytes: vstd::slice::slice_subrange(p, 12, p.len()),
        }
    }

    /// All section headers, in order, read little-endian as 32-bit entries
    /// when they are 40 bytes long and as 64-bit ones when 64.
    pub fn entries(&self) -> (r: Vec<SectionHeaderEntry>)
        requires
            self.number > 0 ==> (self.entry_size == 40 || self.entry_size == 64),
            self.number * self.entry_size <= self.entry_bytes@.len(),
            self.number * self.entry_size <= u32::MAX,
        ensures
            r@.len() == self.number,
            forall|k: int|
                0 <= k < self.number ==> section_entry_of(
                    #[trigger] r@[k],
                    class_of_entry_size(self.entry_size),
                    Endianness::Little,
                    table_entry_bytes(self.entry_bytes@, k, self.entry_size as int),
                ),
    {
        let mut ret: Vec<SectionHeaderEntry> = Vec::new();
        let mut count: u32 = 0;
        while count < self.number
            invariant
                count <= self.number,
                ret@.len() == count,
                self.number > 0 ==> (self.entry_size == 40 || self.entry_size == 64),
                self.number * self.entry_size <= self.entry_bytes@.len(),
                self.number * self.entry_size <= u32::MAX,
                forall|k: int|
                    0 <= k < count ==> section_entry_of(
                        #[trigger] ret@[k],
                        class_of_entry_size(self.entry_size),
                        Endianness::Little,
                        table_entry_bytes(self.entry_bytes@, k, self.entry_size as int),
                    ),
            decreases self.number - count,
        {
            let architecture = if self.entry_size == 40 {
                Architecture::Bits32
            } else {
                Architecture::Bits64
            };
            proof {
                crate::elf::lemma_entry_range(
                    count as int,
                    self.number as int,
                    self.entry_size as int,
                );
            }
            let start = (count * self.entry_size) as usize;
            let end = ((count + 1) * self.entry_size) as usize;
            let slice = vstd::slice::slice_subrange(self.entry_bytes, start, end);
            let entry = SectionHeaderEntry::from_bytes(architecture, Endianness::Little, slice);
            ret.push(entry);
            count = count + 1;
        }
        ret
    }
}

} // verus!
