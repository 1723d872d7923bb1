//! Formatting into a fixed byte buffer.
use vstd::prelude::*;
use vstd::string::*;
use vstd::utf8::valid_utf8;

use crate::text::str_from_utf8;

verus! {

/// `after` is `before` once it was asked to write `s`: when earlier writes
/// overflowed, nothing changes; otherwise the bytes of `s` that fit follow
/// what was written, and all of `s` is counted.
pub open spec fn appended<'a>(before: WriteTo<'a>, after: WriteTo<'a>, s: Seq<u8>) -> bool {
    if before.written() > before.contents().len() {
        after.contents() == before.contents() && after.written() == before.written()
    } else {
        let w = before.written() as int;
        let n = vstd::math::min(s.len() as int, before.contents().len() - w);
        &&& after.contents() == before.contents().subrange(0, w) + s.subrange(0, n)
            + before.contents().subrange(w + n, before.contents().len() as int)
        &&& after.written() == before.written() + s.len()
    }
}

/// The strings of `strs` one after another.
pub open spec fn joined(strs: Seq<Seq<u8>>) -> Seq<u8>
    decreases strs.len(),
{
    if strs.len() == 0 {
        Seq::empty()
    } else {
        joined(strs.drop_last()) + strs.last()
    }
}

/// A writer that appends text to a byte buffer and counts every byte it was
/// asked to write, also those that did not fit.
pub struct WriteTo<'a> {
    buf: &'a mut [u8],
    len: usize,
}

impl<'a> WriteTo<'a> {
    /// The bytes of the buffer.
    pub closed spec fn contents(&self) -> Seq<u8> {
        self.buf@
    }

    /// The number of bytes written so far, also those that did not fit.
    pub closed spec fn written(&self) -> nat {
        self.len as nat
    }

    /// Constructs a new `WriteTo` instance wrapping the provided byte buffer.
    pub fn new(buf: &'a mut [u8]) -> (r: Self)
        ensures
            r.contents() == old(buf)@,
            r.written() == 0,
    {
        WriteTo { buf, len: 0 }
    }

    /// Converts the written portion of the buffer into a string slice, if possible.
    pub fn as_str(self) -> (r: Option<&'a str>)
        ensures
            r is Some <==> self.written() <= self.contents().len() && valid_utf8(
                self.contents().subrange(0, self.written() as int),
            ),
            r matches Some(s) ==> s.spec_bytes() == self.contents().subrange(
                0,
                self.written() as int,
            ),
    {
        if self.len <= self.buf.len() {
            let buf: &'a [u8] = self.buf;
            str_from_utf8(vstd::slice::slice_subrange(buf, 0, self.len))
        } else {
            None
        }
    }

    /// Get the number of bytes written to buffer, unless there where errors.
    pub fn len(&self) -> (r: Option<usize>)
        ensures
            r == if self.written() <= self.contents().len() {
                Some(self.written() as usize)
            } else {
                None::<usize>
            },
    {
        if self.len <= self.buf.len() {
            Some(self.len)
        } else {
            None
        }
    }

    /// Returns true if self has a length of zero bytes, unless there where errors.
    pub fn is_empty(&self) -> (r: Option<bool>)
        ensures
            r == if self.written() <= self.contents().len() {
                Some(self.written() == 0)
            } else {
                None::<bool>
            },
    {
        if self.len <= self.buf.len() {
            Some(self.len == 0)
        } else {
            None
        }
    }

    /// Appends the bytes of `s`; those that do not fit are cut off but still
    /// counted, and then the write fails. Fails without writing when earlier
    /// writes already overflowed the buffer.
    pub fn write_str(&mut self, s: &str) -> (r: Result<(), ()>)
        requires
            old(self).written() + s.spec_bytes().len() <= usize::MAX,
        ensures
            appended(*old(self), *final(self), s.spec_bytes()),
            r is Err <==> old(self).written() + s.spec_bytes().len() > old(self).contents().len(),
    {
        if self.len > self.buf.len() {
            return Err(());
        }
        let raw_s = s.as_bytes();
        let blen = self.buf.len();
        let rem = blen - self.len;
        let num = if raw_s.len() < rem {
            raw_s.len()
        } else {
            rem
        };
        let start = self.len;
        let ghost old_buf = self.buf@;
        let mut i: usize = 0;
        while i < num
            invariant
                start + num <= blen,
                blen == self.buf@.len(),
                self.len == start,
                start == old(self).written(),
                old_buf == old(self).contents(),
                old_buf.len() == blen,
                raw_s@ == s.spec_bytes(),
                start + raw_s@.len() <= usize::MAX,
                num == vstd::math::min(raw_s@.len() as int, blen - start),
                num <= raw_s@.len(),
                i <= num,
                forall|k: int|
                    0 <= k < blen ==> #[trigger] self.buf@[k] == if start <= k < start + i {
                        raw_s@[k - start]
                    } else {
                        old_buf[k]
                    },
            decreases num - i,
        {
            self.buf[start + i] = raw_s[i];
            i = i + 1;
        }
        self.len = self.len + raw_s.len();
        assert(self.buf@ =~= old_buf.subrange(0, start as int) + raw_s@.subrange(0, num as int)
            + old_buf.subrange(start + num, blen as int));
        if num < raw_s.len() {
            Err(())
        } else {
            Ok(())
        }
    }
}

proof fn lemma_appends_prefix<'a>(ws: Seq<WriteTo<'a>>, strs: Seq<Seq<u8>>, j: int)
    requires
        ws.len() == strs.len() + 1,
        ws[0].written() == 0,
        forall|i: int| 0 <= i < strs.len() ==> appended(ws[i], ws[i + 1], #[trigger] strs[i]),
        0 <= j <= strs.len(),
    ensures
        ws[j].contents().len() == ws[0].contents().len(),
        joined(strs.take(j)).len() <= ws[0].contents().len() ==> {
            &&& ws[j].written() == joined(strs.take(j)).len()
            &&& ws[j].contents().subrange(0, ws[j].written() as int) == joined(strs.take(j))
        },
        joined(strs.take(j)).len() > ws[0].contents().len() ==> ws[j].written() > ws[
            0
        ].contents().len(),
    decreases j,
{
    if j == 0 {
        assert(strs.take(0) =~= Seq::<Seq<u8>>::empty());
        assert(ws[0].contents().subrange(0, 0) =~= Seq::<u8>::empty());
    } else {
        lemma_appends_prefix(ws, strs, j - 1);
        let s = strs[j - 1];
        assert(appended(ws[j - 1], ws[j], s));
        assert(strs.take(j).drop_last() =~= strs.take(j - 1));
        let t = joined(strs.take(j - 1));
        assert(joined(strs.take(j)) == t + s);
        let b = ws[j - 1];
        let a = ws[j];
        if b.written() <= b.contents().len() {
            let w = b.written() as int;
            if w + s.len() <= b.contents().len() {
                assert(a.contents().subrange(0, w + s.len()) =~= t + s);
            }
        }
    }
}

/// Law: after writes of `strs`, one after another, into a new writer, the
/// written portion of the buffer is all of them joined when they fit, and
/// the count exceeds the buffer when they do not; so `as_str`, `len` and
/// `is_empty` report on the joined text, or `None` after an overflow.
/// `ws` holds the writer before and after each write.
pub proof fn lemma_writes_join<'a>(ws: Seq<WriteTo<'a>>, strs: Seq<Seq<u8>>)
    requires
        ws.len() == strs.len() + 1,
        ws[0].written() == 0,
        forall|i: int| 0 <= i < strs.len() ==> appended(ws[i], ws[i + 1], #[trigger] strs[i]),
    ensures
        ({
            let w = ws[strs.len() as int];
            let t = joined(strs);
            &&& w.contents().len() == ws[0].contents().len()
            &&& (w.written() <= w.contents().len() <==> t.len() <= w.contents().len())
            &&& t.len() <= w.contents().len() ==> w.written() == t.len() && w.contents().subrange(
                0,
                w.written() as int,
            ) == t
        }),
{
    lemma_appends_prefix(ws, strs, strs.len() as int);
    assert(strs.take(strs.len() as int) =~= strs);
}

} // verus!
