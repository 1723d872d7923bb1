//! Byte strings: NUL trimming and UTF-8 decoding.
use vstd::prelude::*;
use vstd::string::*;
use vstd::utf8::{
    is_char_boundary_iff_not_is_continuation_byte, length_of_first_scalar, pop_first_scalar,
    valid_first_scalar, valid_utf8, valid_utf8_concat, valid_utf8_split,
};

verus! {

/// `s` without its leading NUL bytes.
pub open spec fn trim_leading_nul(s: Seq<u8>) -> Seq<u8>
    decreases s.len(),
{
    if s.len() > 0 && s[0] == 0 {
        trim_leading_nul(s.drop_first())
    } else {
        s
    }
}

/// `s` without its trailing NUL bytes.
pub open spec fn trim_trailing_nul(s: Seq<u8>) -> Seq<u8>
    decreases s.len(),
{
    if s.len() > 0 && s.last() == 0 {
        trim_trailing_nul(s.drop_last())
    } else {
        s
    }
}

/// `s` without the NUL bytes at either end.
pub open spec fn trim_nul(s: Seq<u8>) -> Seq<u8> {
    trim_trailing_nul(trim_leading_nul(s))
}

/// Returns `bytes` without the NUL bytes at either end.
pub fn trim_nul_bytes(bytes: &[u8]) -> (r: &[u8])
    ensures
        r@ == trim_nul(bytes@),
{
    let len = bytes.len();
    let mut start: usize = 0;
    assert(bytes@.subrange(0, len as int) =~= bytes@);
    while start < len && bytes[start] == 0
        invariant
            start <= len,
            len == bytes@.len(),
            trim_leading_nul(bytes@) == trim_leading_nul(bytes@.subrange(start as int, len as int)),
        decreases len - start,
    {
        assert(bytes@.subrange(start as int, len as int).drop_first() =~= bytes@.subrange(
            start + 1,
            len as int,
        ));
        start = start + 1;
    }
    assert(trim_leading_nul(bytes@.subrange(start as int, len as int)) == bytes@.subrange(
        start as int,
        len as int,
    ));
    let mut end: usize = len;
    while end > start && bytes[end - 1] == 0
        invariant
            start <= end <= len,
            len == bytes@.len(),
            trim_leading_nul(bytes@) == bytes@.subrange(start as int, len as int),
            trim_nul(bytes@) == trim_trailing_nul(bytes@.subrange(start as int, end as int)),
        decreases end - start,
    {
        assert(bytes@.subrange(start as int, end as int).drop_last() =~= bytes@.subrange(
            start as int,
            end - 1,
        ));
        end = end - 1;
    }
    vstd::slice::slice_subrange(bytes, start, end)
}

proof fn lemma_nul_first_scalar(s: Seq<u8>)
    requires
        s.len() > 0,
        s[0] == 0,
    ensures
        valid_first_scalar(s),
        length_of_first_scalar(s) == 1,
        pop_first_scalar(s) == s.drop_first(),
{
    let b = s[0];
    assert(b & 0x7f == 0) by (bit_vector)
        requires
            b == 0,
    ;
    assert(s.subrange(1, s.len() as int) =~= s.drop_first());
}

proof fn lemma_trim_leading_valid(s: Seq<u8>)
    ensures
        valid_utf8(s) <==> valid_utf8(trim_leading_nul(s)),
    decreases s.len(),
{
    if s.len() > 0 && s[0] == 0 {
        lemma_nul_first_scalar(s);
        lemma_trim_leading_valid(s.drop_first());
    }
}

proof fn lemma_trim_trailing_valid(s: Seq<u8>)
    ensures
        valid_utf8(s) <==> valid_utf8(trim_trailing_nul(s)),
    decreases s.len(),
{
    if s.len() > 0 && s.last() == 0 {
        let t = s.drop_last();
        let nul = seq![0u8];
        lemma_nul_first_scalar(nul);
        assert(pop_first_scalar(nul) =~= Seq::<u8>::empty());
        assert(valid_utf8(nul)) by {
            reveal_with_fuel(valid_utf8, 2);
        }
        assert(t + nul =~= s);
        if valid_utf8(t) {
            valid_utf8_concat(t, nul);
        }
        if valid_utf8(s) {
            is_char_boundary_iff_not_is_continuation_byte(s, s.len() - 1);
            valid_utf8_split(s, s.len() - 1);
            assert(s.subrange(0, s.len() - 1) =~= t);
        }
        lemma_trim_trailing_valid(t);
    }
}

/// Law: trimming the NUL bytes at either end of a byte string neither makes
/// valid UTF-8 invalid nor invalid UTF-8 valid.
pub proof fn lemma_trim_nul_valid(s: Seq<u8>)
    ensures
        valid_utf8(s) <==> valid_utf8(trim_nul(s)),
{
    lemma_trim_leading_valid(s);
    lemma_trim_trailing_valid(trim_leading_nul(s));
}

/// Whether the two byte strings are equal.
pub fn bytes_equal(a: &[u8], b: &[u8]) -> (r: bool)
    ensures
        r == (a@ == b@),
{
    if a.len() != b.len() {
        return false;
    }
    let mut i: usize = 0;
    while i < a.len()
        invariant
            a@.len() == b@.len(),
            i <= a@.len(),
            forall|k: int| 0 <= k < i ==> a@[k] == b@[k],
        decreases a@.len() - i,
    {
        if a[i] != b[i] {
            return false;
        }
        i = i + 1;
    }
    assert(a@ =~= b@);
    true
}

/// Decodes `bytes` as UTF-8 text, or gives `None` when they are not valid
/// UTF-8.
///
/// Calls `core::str::from_utf8`; its contract claims what the standard
/// library documents: it succeeds exactly on valid UTF-8 and the text holds
/// the same bytes.
#[verifier::external_body]
pub(crate) fn str_from_utf8(bytes: &[u8]) -> (r: Option<&str>)
    ensures
        r is Some <==> valid_utf8(bytes@),
        r matches Some(s) ==> s.spec_bytes() == bytes@,
{
    core::str::from_utf8(bytes).ok()
}

proof fn lemma_leading_cut(s: Seq<u8>) -> (a: int)
    ensures
        0 <= a <= s.len(),
        trim_leading_nul(s) == s.subrange(a, s.len() as int),
        forall|i: int| 0 <= i < a ==> s[i] == 0,
        a < s.len() ==> s[a] != 0,
    decreases s.len(),
{
    if s.len() > 0 && s[0] == 0 {
        let a1 = lemma_leading_cut(s.drop_first());
        assert(s.drop_first().subrange(a1, s.len() - 1) =~= s.subrange(a1 + 1, s.len() as int));
        assert forall|i: int| 0 <= i < a1 + 1 implies s[i] == 0 by {
            if i > 0 {
                assert(s[i] == s.drop_first()[i - 1]);
            }
        }
        a1 + 1
    } else {
        assert(s.subrange(0, s.len() as int) =~= s);
        0
    }
}

proof fn lemma_trailing_cut(s: Seq<u8>) -> (b: int)
    ensures
        0 <= b <= s.len(),
        trim_trailing_nul(s) == s.subrange(0, b),
        forall|i: int| b <= i < s.len() ==> s[i] == 0,
        b > 0 ==> s[b - 1] != 0,
    decreases s.len(),
{
    if s.len() > 0 && s.last() == 0 {
        let b1 = lemma_trailing_cut(s.drop_last());
        assert(s.drop_last().subrange(0, b1) =~= s.subrange(0, b1));
        assert forall|i: int| b1 <= i < s.len() implies s[i] == 0 by {
            if i < s.len() - 1 {
                assert(s[i] == s.drop_last()[i]);
            }
        }
        if b1 > 0 {
            assert(s[b1 - 1] == s.drop_last()[b1 - 1]);
        }
        b1
    } else {
        assert(s.subrange(0, s.len() as int) =~= s);
        s.len() as int
    }
}

/// Law: trimming keeps one contiguous run of `s`: it drops only NUL bytes,
/// all the NUL bytes at the start and at the end, and what is left neither
/// starts nor ends with a NUL byte.
pub proof fn lemma_trim_nul_cuts(s: Seq<u8>)
    ensures
        exists|a: int, b: int|
            0 <= a <= b <= s.len() && trim_nul(s) == s.subrange(a, b) && (forall|i: int|
                0 <= i < a ==> s[i] == 0) && (forall|i: int| b <= i < s.len() ==> s[i] == 0),
        trim_nul(s).len() > 0 ==> trim_nul(s)[0] != 0 && trim_nul(s).last() != 0,
{
    let a = lemma_leading_cut(s);
    let t = s.subrange(a, s.len() as int);
    let b = lemma_trailing_cut(t);
    assert(t.subrange(0, b) =~= s.subrange(a, a + b));
    assert forall|i: int| a + b <= i < s.len() implies s[i] == 0 by {
        assert(s[i] == t[i - a]);
    }
    if b > 0 {
        if b == 1 {
            assert(t[0] == t[b - 1]);
        }
        assert(t.subrange(0, b)[0] == s[a]);
        assert(t.subrange(0, b).last() == t[b - 1]);
    }
    assert(0 <= a <= a + b <= s.len() && trim_nul(s) == s.subrange(a, a + b));
}

} // verus!
