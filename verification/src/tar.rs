//! Reading the files of a tar archive held in memory.
use vstd::prelude::*;
use vstd::string::*;
use vstd::utf8::valid_utf8;

use crate::text::{lemma_trim_nul_valid, str_from_utf8, trim_nul, trim_nul_bytes};

verus! {

/// Size of a tar record in bytes.
pub const RECORD_SIZE: usize = 512;

/// A tar archive held in memory.
pub struct Archive<'a>(pub &'a [u8]);

/// A file of an archive: its header record and the records that hold its data.
pub struct File<'a> {
    pub header_record: HeaderRecord,
    pub bytes: &'a [u8],
}

/// The 512-byte header record that precedes each file of an archive.
pub struct HeaderRecord {
    pub path: Vec<u8>,
    pub mode: Vec<u8>,
    pub uid: Vec<u8>,
    pub gid: Vec<u8>,
    pub size: Vec<u8>,
    pub modification_time: Vec<u8>,
    pub checksum: Vec<u8>,
    pub link_indicator: Vec<u8>,
    pub link_name: Vec<u8>,
    pub _padding: Vec<u8>,
}

/// `h` holds the fields of the header record `bytes` (512 bytes).
pub open spec fn record_of(h: HeaderRecord, bytes: Seq<u8>) -> bool {
    &&& h.path@ == bytes.subrange(0, 100)
    &&& h.mode@ == bytes.subrange(100, 108)
    &&& h.uid@ == bytes.subrange(108, 116)
    &&& h.gid@ == bytes.subrange(116, 124)
    &&& h.size@ == bytes.subrange(124, 136)
    &&& h.modification_time@ == bytes.subrange(136, 148)
    &&& h.checksum@ == bytes.subrange(148, 156)
    &&& h.link_indicator@ == bytes.subrange(156, 157)
    &&& h.link_name@ == bytes.subrange(157, 257)
    &&& h._padding@ == bytes.subrange(257, 512)
}

pub open spec fn is_octal_digit(b: u8) -> bool {
    0x30 <= b <= 0x37
}

/// The digits of an unsigned number literal: a leading `+` is allowed.
pub open spec fn octal_digits(s: Seq<u8>) -> Seq<u8> {
    if s.len() > 0 && s[0] == 0x2B {
        s.drop_first()
    } else {
        s
    }
}

/// Value of a sequence of octal digits.
pub open spec fn octal_value(s: Seq<u8>) -> nat
    decreases s.len(),
{
    if s.len() == 0 {
        0
    } else {
        octal_value(s.drop_last()) * 8 + (s.last() - 0x30) as nat
    }
}

/// 8 to the power `n`.
pub open spec fn octal_pow(n: nat) -> nat
    decreases n,
{
    if n == 0 {
        1
    } else {
        8 * octal_pow((n - 1) as nat)
    }
}

/// The size field of a header record reads as a number: its first eleven bytes
/// are an optional `+` and at least one octal digit, its last byte is ASCII,
/// and the number fits in a `usize`.
pub open spec fn size_field_ok(size: Seq<u8>) -> bool {
    let d = octal_digits(size.subrange(0, 11));
    &&& size.len() == 12
    &&& d.len() > 0
    &&& (forall|i: int| 0 <= i < d.len() ==> is_octal_digit(#[trigger] d[i]))
    &&& size[11] < 0x80
    &&& octal_value(d) <= usize::MAX
}

/// The file size that a valid size field gives.
pub open spec fn size_field_value(size: Seq<u8>) -> nat {
    octal_value(octal_digits(size.subrange(0, 11)))
}

impl HeaderRecord {
    fn from_bytes(bytes: &[u8]) -> (r: HeaderRecord)
        requires
            bytes@.len() == RECORD_SIZE,
        ensures
            record_of(r, bytes@),
    {
        HeaderRecord {
            path: vstd::slice::slice_to_vec(vstd::slice::slice_subrange(bytes, 0, 100)),
            mode: vstd::slice::slice_to_vec(vstd::slice::slice_subrange(bytes, 100, 108)),
            uid: vstd::slice::slice_to_vec(vstd::slice::slice_subrange(bytes, 108, 116)),
            gid: vstd::slice::slice_to_vec(vstd::slice::slice_subrange(bytes, 116, 124)),
            size: vstd::slice::slice_to_vec(vstd::slice::slice_subrange(bytes, 124, 136)),
            modification_time: vstd::slice::slice_to_vec(
                vstd::slice::slice_subrange(bytes, 136, 148),
            ),
            checksum: vstd::slice::slice_to_vec(vstd::slice::slice_subrange(bytes, 148, 156)),
            link_indicator: vstd::slice::slice_to_vec(
                vstd::slice::slice_subrange(bytes, 156, 157),
            ),
            link_name: vstd::slice::slice_to_vec(vstd::slice::slice_subrange(bytes, 157, 257)),
            _padding: vstd::slice::slice_to_vec(vstd::slice::slice_subrange(bytes, 257, 512)),
        }
    }

    /// The path of the file, without the NUL bytes that pad it.
    pub fn path(&self) -> (r: &str)
        requires
            valid_utf8(self.path@),
        ensures
            r.spec_bytes() == trim_nul(self.path@),
    {
        proof {
            lemma_trim_nul_valid(self.path@);
        }
        let trimmed = trim_nul_bytes(self.path.as_slice());
        match str_from_utf8(trimmed) {
            Some(s) => s,
            None => vstd::pervasive::unreached(),
        }
    }

    /// The size of the file in bytes, read from the octal size field.
    pub fn size(&self) -> (r: usize)
        requires
            size_field_ok(self.size@),
        ensures
            r == size_field_value(self.size@),
    {
        let field = vstd::slice::slice_subrange(self.size.as_slice(), 0, 11);
        let ghost d = octal_digits(field@);
        let mut i: usize = 0;
        if field[0] == 0x2B {
            i = 1;
        }
        assert(d =~= field@.subrange(i as int, 11));
        proof {
            reveal_with_fuel(octal_pow, 12);
        }
        let mut v: u64 = 0;
        let mut j: usize = i;
        assert(d.subrange(0, 0) =~= Seq::<u8>::empty());
        while j < 11
            invariant
                i <= j <= 11,
                field@.len() == 11,
                d =~= field@.subrange(i as int, 11),
                forall|k: int| 0 <= k < d.len() ==> is_octal_digit(#[trigger] d[k]),
                v == octal_value(d.subrange(0, j - i)),
                (v as nat) < octal_pow((j - i) as nat),
                octal_pow(11) == 0o1_0000_0000_000,
            decreases 11 - j,
        {
            proof {
                lemma_octal_pow_mono((j - i) as nat, 10);
                reveal_with_fuel(octal_pow, 12);
                assert(d.subrange(0, j - i + 1).drop_last() =~= d.subrange(0, j - i));
                assert(is_octal_digit(d[j - i]));
            }
            v = v * 8 + (field[j] - 0x30) as u64;
            j = j + 1;
        }
        assert(d.subrange(0, 11 - i) =~= d);
        v as usize
    }
}

proof fn lemma_octal_pow_mono(a: nat, b: nat)
    requires
        a <= b,
    ensures
        octal_pow(a) <= octal_pow(b),
    decreases b,
{
    if a < b {
        lemma_octal_pow_mono(a, (b - 1) as nat);
    }
}


/// The `i`-th record of `bytes`.
pub open spec fn record_at(bytes: Seq<u8>, i: int) -> Seq<u8> {
    bytes.subrange(i * 512, (i + 1) * 512)
}

/// The size field of the header record at record `i`.
pub open spec fn size_field_at(bytes: Seq<u8>, i: int) -> Seq<u8> {
    bytes.subrange(i * 512 + 124, i * 512 + 136)
}

/// Number of records after a header that belong to a file of `size` bytes.
pub open spec fn data_records(size: nat) -> nat {
    size / 512 + 1
}

/// Law: the records that follow a header hold the whole file: more bytes
/// than its size, and less than one record more.
pub proof fn lemma_data_records_cover(size: nat)
    ensures
        size < data_records(size) * 512 <= size + 512,
{
    vstd::arithmetic::div_mod::lemma_fundamental_div_mod(size as int, 512);
    vstd::arithmetic::div_mod::lemma_mod_bound(size as int, 512);
    assert(data_records(size) * 512 == (size / 512) * 512 + 512) by (nonlinear_arith);
}

/// Records `i` and `i + 1` are all zero: the end of the archive.
pub open spec fn end_marker_at(bytes: Seq<u8>, i: int) -> bool {
    forall|k: int| i * 512 <= k < (i + 2) * 512 ==> bytes[k] == 0
}

/// The record that follows the data of the file whose header is record `i`.
pub open spec fn next_header(bytes: Seq<u8>, i: nat) -> nat {
    i + 1 + data_records(size_field_value(size_field_at(bytes, i as int)))
}

/// Walking the archive from record `i` on reads only whole records, finds a
/// readable size in every header, and stops at the end marker or when the
/// record index reaches the archive's length in bytes.
pub open spec fn walk_ok(bytes: Seq<u8>, i: nat) -> bool
    decreases bytes.len() - i,
{
    if i >= bytes.len() {
        true
    } else if (i + 2) * 512 > bytes.len() {
        false
    } else if end_marker_at(bytes, i as int) {
        true
    } else if !size_field_ok(size_field_at(bytes, i as int)) {
        false
    } else if next_header(bytes, i) * 512 > bytes.len() {
        false
    } else {
        walk_ok(bytes, next_header(bytes, i))
    }
}

/// The records that hold the headers of the files, from record `i` on.
pub open spec fn header_positions(bytes: Seq<u8>, i: nat) -> Seq<nat>
    decreases bytes.len() - i,
{
    if i >= bytes.len() || (i + 2) * 512 > bytes.len() || end_marker_at(bytes, i as int)
        || !size_field_ok(size_field_at(bytes, i as int)) || next_header(bytes, i) * 512
        > bytes.len() {
        Seq::empty()
    } else {
        seq![i].add(header_positions(bytes, next_header(bytes, i)))
    }
}

/// `f` is the file whose header is record `i` of `bytes`.
pub open spec fn file_at(f: File, bytes: Seq<u8>, i: nat) -> bool {
    &&& record_of(f.header_record, record_at(bytes, i as int))
    &&& f.bytes@ == bytes.subrange(((i + 1) * 512) as int, (next_header(bytes, i) * 512) as int)
}

impl<'a> Archive<'a> {
    /// The files of the archive, in order, up to the end marker.
    pub fn files(&self) -> (r: Vec<File<'a>>)
        requires
            self.0@.len() % 512 == 0,
            walk_ok(self.0@, 0),
        ensures
            r@.len() == header_positions(self.0@, 0).len(),
            forall|k: int|
                0 <= k < r@.len() ==> file_at(
                    #[trigger] r@[k],
                    self.0@,
                    header_positions(self.0@, 0)[k],
                ),
    {
        let bytes = self.0;
        let len = bytes.len();
        let mut ret: Vec<File<'a>> = Vec::new();
        let mut pos: usize = 0;
        let ghost done: Seq<nat> = Seq::empty();
        assert(header_positions(bytes@, 0) =~= done + header_positions(bytes@, 0));
        while pos < len
            invariant
                bytes@ == self.0@,
                len == bytes@.len(),
                walk_ok(bytes@, pos as nat),
                header_positions(bytes@, 0) == done + header_positions(bytes@, pos as nat),
                ret@.len() == done.len(),
                forall|k: int| 0 <= k < ret@.len() ==> file_at(#[trigger] ret@[k], bytes@, done[k]),
            decreases len - pos,
        {
            let start = pos * RECORD_SIZE;
            let stop = (pos + 2) * RECORD_SIZE;
            let mut k: usize = start;
            let mut all_zero = true;
            while k < stop
                invariant
                    start == pos * 512,
                    stop == (pos + 2) * 512,
                    stop <= len == bytes@.len(),
                    start <= k <= stop,
                    all_zero <==> forall|m: int| start <= m < k ==> bytes@[m] == 0,
                decreases stop - k,
            {
                if bytes[k] != 0 {
                    all_zero = false;
                }
                k = k + 1;
            }
            if all_zero {
                assert(end_marker_at(bytes@, pos as int));
                assert(header_positions(bytes@, pos as nat) =~= Seq::empty());
                assert(header_positions(bytes@, 0) =~= done);
                return ret;
            }
            let record = vstd::slice::slice_subrange(bytes, start, start + RECORD_SIZE);
            let header_record = HeaderRecord::from_bytes(record);
            assert(header_record.size@ =~= size_field_at(bytes@, pos as int));
            let file_size = header_record.size();
            let n_file_records = file_size / RECORD_SIZE + 1;
            let data_start = (pos + 1) * RECORD_SIZE;
            let data_end = (pos + 1 + n_file_records) * RECORD_SIZE;
            let file_bytes = vstd::slice::slice_subrange(bytes, data_start, data_end);
            let file = File { header_record, bytes: file_bytes };
            proof {
                assert(header_positions(bytes@, pos as nat) =~= seq![pos as nat].add(
                    header_positions(bytes@, next_header(bytes@, pos as nat)),
                ));
                done = done.push(pos as nat);
            }
            ret.push(file);
            pos = pos + 1 + n_file_records;
            assert(header_positions(bytes@, 0) =~= done + header_positions(bytes@, pos as nat));
        }
        assert(header_positions(bytes@, pos as nat) =~= Seq::empty());
        assert(header_positions(bytes@, 0) =~= done);
        ret
    }
}

} // verus!
