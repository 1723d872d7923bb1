//! Endpoints and messages as user programs see them.
use vstd::prelude::*;
use vstd::string::*;
use vstd::utf8::valid_utf8;

use crate::elf::{be_value, field_value, read_uint, Endianness};
use crate::syscall::cap::{Cap, CapType};
use crate::syscall::number::Syscall;
use crate::text::str_from_utf8;

verus! {

/// Capabilities of this kind name an endpoint that messages are sent to.
#[derive(Clone, Copy, Debug)]
pub struct Endpoint;

/// Capabilities of this kind name the endpoint to answer a received message on.
#[derive(Clone, Copy, Debug)]
pub struct ReplyEndpoint;

impl CapType for Endpoint {}

impl CapType for ReplyEndpoint {}

/// A message: four machine words.
#[derive(Clone, Copy, Debug, PartialEq, Eq)]
pub struct Message {
    pub data: [usize; 4],
}

/// Why an endpoint operation failed.
#[derive(Debug, Clone, Copy, PartialEq, Eq, Structural)]
pub enum IpcError {
    Empty,
    Full,
    InvalidEndpoint,
}

/// What a send found: nobody waiting to receive, or a receiver ready.
#[derive(Debug, Clone, Copy, PartialEq, Eq, Structural)]
pub enum IpcStatus {
    WouldBlock,
    Ready,
}

impl Cap<Endpoint> {
    /// The system call that creates an endpoint.
    pub fn create() -> (r: Syscall)
        ensures
            r == Syscall::CreateEndpoint,
    {
        Syscall::CreateEndpoint
    }

    /// The system call that sends `message` through this endpoint.
    pub fn send(self, message: Message) -> (r: Syscall)
        ensures
            r == (Syscall::Send { endpoint: self.handle, message }),
    {
        Syscall::Send { endpoint: self.handle, message }
    }

    /// The system call that receives a message from this endpoint.
    pub fn recv(self) -> (r: Syscall)
        ensures
            r == (Syscall::Recv { endpoint: self.handle }),
    {
        Syscall::Recv { endpoint: self.handle }
    }
}

impl Cap<ReplyEndpoint> {
    /// The system call that answers through this reply endpoint.
    pub fn reply(self, message: Message) -> (r: Syscall)
        ensures
            r == (Syscall::Reply { endpoint: self.handle, message }),
    {
        Syscall::Reply { endpoint: self.handle, message }
    }
}

/// Law: a user program reads back from the status word the status the
/// kernel wrote.
pub proof fn lemma_status_roundtrip(status: IpcStatus, word: usize)
    requires
        word == match status {
            IpcStatus::WouldBlock => 0usize,
            IpcStatus::Ready => 1usize,
        },
    ensures
        (if word == 0 {
            Some(IpcStatus::WouldBlock)
        } else if word == 1 {
            Some(IpcStatus::Ready)
        } else {
            None
        }) == Some(status),
{
}

/// What a successful receive returns: the reply endpoint in the first word,
/// the message in the next four.
pub fn received(words: [usize; 6]) -> (r: (Cap<ReplyEndpoint>, Message))
    ensures
        r.0.handle == words@[0],
        r.1.data@ == words@.subrange(1, 5),
{
    let m = Message { data: [words[1], words[2], words[3], words[4]] };
    assert(m.data@ =~= words@.subrange(1, 5));
    (Cap::new(words[0]), m)
}

impl IpcStatus {
    /// The status that the word `word` reports, if it reports one.
    pub fn from_word(word: usize) -> (r: Option<Self>)
        ensures
            r == if word == 0 {
                Some(IpcStatus::WouldBlock)
            } else if word == 1 {
                Some(IpcStatus::Ready)
            } else {
                None
            },
    {
        if word == 0 {
            Some(IpcStatus::WouldBlock)
        } else if word == 1 {
            Some(IpcStatus::Ready)
        } else {
            None
        }
    }

    /// The word that reports the status: 0 for `WouldBlock`, 1 for `Ready`.
    pub fn value(self) -> (r: usize)
        ensures
            r == match self {
                IpcStatus::WouldBlock => 0usize,
                IpcStatus::Ready => 1usize,
            },
    {
        match self {
            IpcStatus::WouldBlock => 0,
            IpcStatus::Ready => 1,
        }
    }
}

/// The eight big-endian bytes of `w`.
pub open spec fn word_bytes(w: u64) -> Seq<u8> {
    Seq::new(8, |k: int| ((w >> (8 * (7 - k)) as u64) & 0xff) as u8)
}

/// The 32 bytes of a message: each word in big-endian order, first word first.
pub open spec fn message_bytes(m: Message) -> Seq<u8> {
    Seq::new(32, |j: int| word_bytes(m.data@[j / 8] as u64)[j % 8])
}

/// `s` followed by zeros up to 8 bytes.
pub open spec fn pad8(s: Seq<u8>) -> Seq<u8> {
    Seq::new(8, |k: int| if k < s.len() { s[k] } else { 0u8 })
}

/// Word `i` of the message built from the text bytes `b`: the `i`-th chunk
/// of 8 bytes, zero-padded at its end, read big-endian; 0 past the text.
pub open spec fn text_word(b: Seq<u8>, i: int) -> u64 {
    if 8 * i < b.len() {
        be_value(pad8(b.subrange(8 * i, vstd::math::min(8 * i + 8, b.len() as int)))) as u64
    } else {
        0
    }
}

proof fn lemma_word_bytes_value(w: u64)
    ensures
        be_value(word_bytes(w)) == w,
{
    let s = word_bytes(w);
    reveal_with_fuel(be_value, 9);
    let b0 = s[0] as u64;
    let b1 = s[1] as u64;
    let b2 = s[2] as u64;
    let b3 = s[3] as u64;
    let b4 = s[4] as u64;
    let b5 = s[5] as u64;
    let b6 = s[6] as u64;
    let b7 = s[7] as u64;
    assert(b0 == (w >> 56u64) & 0xff && b1 == (w >> 48u64) & 0xff && b2 == (w >> 40u64) & 0xff
        && b3 == (w >> 32u64) & 0xff && b4 == (w >> 24u64) & 0xff && b5 == (w >> 16u64) & 0xff
        && b6 == (w >> 8u64) & 0xff && b7 == (w >> 0u64) & 0xff) by (bit_vector)
        requires
            b0 == (((w >> 56u64) & 0xff) as u8) as u64,
            b1 == (((w >> 48u64) & 0xff) as u8) as u64,
            b2 == (((w >> 40u64) & 0xff) as u8) as u64,
            b3 == (((w >> 32u64) & 0xff) as u8) as u64,
            b4 == (((w >> 24u64) & 0xff) as u8) as u64,
            b5 == (((w >> 16u64) & 0xff) as u8) as u64,
            b6 == (((w >> 8u64) & 0xff) as u8) as u64,
            b7 == (((w >> 0u64) & 0xff) as u8) as u64,
    ;
    assert(w == b0 * 0x100_0000_0000_0000 + b1 * 0x1_0000_0000_0000 + b2 * 0x100_0000_0000 + b3
        * 0x1_0000_0000 + b4 * 0x100_0000 + b5 * 0x1_0000 + b6 * 0x100 + b7) by (bit_vector)
        requires
            b0 == (w >> 56u64) & 0xff,
            b1 == (w >> 48u64) & 0xff,
            b2 == (w >> 40u64) & 0xff,
            b3 == (w >> 32u64) & 0xff,
            b4 == (w >> 24u64) & 0xff,
            b5 == (w >> 16u64) & 0xff,
            b6 == (w >> 8u64) & 0xff,
            b7 == (w >> 0u64) & 0xff,
    ;
    let s1 = s.drop_last();
    let s2 = s1.drop_last();
    let s3 = s2.drop_last();
    let s4 = s3.drop_last();
    let s5 = s4.drop_last();
    let s6 = s5.drop_last();
    let s7 = s6.drop_last();
    let s8 = s7.drop_last();
    assert(s8 =~= Seq::<u8>::empty());
    assert(be_value(s7) == b0);
    assert(be_value(s6) == 256 * b0 + b1);
    assert(be_value(s5) == 256 * (256 * b0 + b1) + b2);
    assert(be_value(s4) == 256 * (256 * (256 * b0 + b1) + b2) + b3);
    assert(be_value(s3) == 256 * (256 * (256 * (256 * b0 + b1) + b2) + b3) + b4);
    assert(be_value(s2) == 256 * (256 * (256 * (256 * (256 * b0 + b1) + b2) + b3) + b4) + b5);
    assert(be_value(s1) == 256 * (256 * (256 * (256 * (256 * (256 * b0 + b1) + b2) + b3) + b4)
        + b5) + b6);
}

proof fn lemma_chunk_index(i: int, k: int)
    requires
        0 <= i,
        0 <= k < 8,
    ensures
        (8 * i + k) / 8 == i,
        (8 * i + k) % 8 == k,
{
    vstd::arithmetic::div_mod::lemma_fundamental_div_mod_converse(8 * i + k, 8, i, k);
}

fn write_word_bytes(w: usize, buf: &mut [u8; 32], at: usize)
    requires
        at <= 24,
    ensures
        final(buf)@ == old(buf)@.subrange(0, at as int) + word_bytes(w as u64) + old(
            buf,
        )@.subrange(at + 8, 32),
{
    let v = w as u64;
    let mut k: usize = 0;
    let ghost old_buf = buf@;
    while k < 8
        invariant
            at <= 24,
            k <= 8,
            v == w as u64,
            buf@.len() == 32,
            forall|j: int|
                0 <= j < 32 ==> #[trigger] buf@[j] == if at <= j < at + k {
                    word_bytes(v)[j - at]
                } else {
                    old_buf[j]
                },
        decreases 8 - k,
    {
        let shift = (8 * (7 - k)) as u64;
        buf[at + k] = ((v >> shift) & 0xff) as u8;
        k = k + 1;
    }
    assert(buf@ =~= old_buf.subrange(0, at as int) + word_bytes(v) + old_buf.subrange(at + 8, 32));
}

impl Message {
    /// The message holding the words `value`.
    pub fn from_words(value: [usize; 4]) -> (r: Self)
        ensures
            r.data == value,
    {
        Message { data: value }
    }

    /// The four words of the message.
    pub fn into_words(self) -> (r: [usize; 4])
        ensures
            r == self.data,
    {
        self.data
    }

    /// The message whose words are the four 8-byte chunks of `value`, read
    /// big-endian.
    pub fn from_bytes(value: [u8; 32]) -> (r: Self)
        ensures
            forall|i: int|
                0 <= i < 4 ==> #[trigger] r.data@[i] == field_value(
                    value@,
                    8 * i,
                    8,
                    Endianness::Big,
                ) as u64 as usize,
    {
        let bytes = value.as_slice();
        let w0 = read_uint(bytes, 0, 8, Endianness::Big);
        let w1 = read_uint(bytes, 8, 8, Endianness::Big);
        let w2 = read_uint(bytes, 16, 8, Endianness::Big);
        let w3 = read_uint(bytes, 24, 8, Endianness::Big);
        let data: [usize; 4] = [
            #[verifier::truncate] (w0 as usize),
            #[verifier::truncate] (w1 as usize),
            #[verifier::truncate] (w2 as usize),
            #[verifier::truncate] (w3 as usize),
        ];
        let r = Message { data };
        assert(r.data@[0] == data@[0]);
        r
    }

    /// The message built from the bytes of `value`: each chunk of 8 bytes,
    /// zero-padded at its end, read big-endian; text past 32 bytes is
    /// dropped and missing words are 0.
    pub fn from_str(value: &str) -> (r: Self)
        ensures
            forall|i: int|
                0 <= i < 4 ==> #[trigger] r.data@[i] == text_word(value.spec_bytes(), i) as usize,
    {
        let bytes = value.as_bytes();
        let len = bytes.len();
        let mut data: [usize; 4] = [0usize; 4];
        assert(forall|k: int| 0 <= k < 4 ==> #[trigger] data@[k] == 0);
        let mut i: usize = 0;
        while i < 4
            invariant
                i <= 4,
                len == bytes@.len(),
                bytes@ == value.spec_bytes(),
                data@.len() == 4,
                forall|k: int| 0 <= k < i ==> #[trigger] data@[k] == text_word(bytes@, k) as usize,
                forall|k: int| i <= k < 4 ==> #[trigger] data@[k] == 0,
            decreases 4 - i,
        {
            if 8 * i < len {
                let mut buf: [u8; 8] = [0u8; 8];
                let mut k: usize = 0;
                let end = if 8 * i + 8 < len {
                    8 * i + 8
                } else {
                    len
                };
                let ghost chunk = bytes@.subrange(8 * i as int, end as int);
                while k < 8
                    invariant
                        i < 4,
                        8 * i < len,
                        end == vstd::math::min(8 * i + 8, len as int),
                        len == bytes@.len(),
                        chunk == bytes@.subrange(8 * i as int, end as int),
                        k <= 8,
                        buf@.len() == 8,
                        forall|m: int|
                            0 <= m < 8 ==> #[trigger] buf@[m] == if m < k {
                                pad8(chunk)[m]
                            } else {
                                0u8
                            },
                    decreases 8 - k,
                {
                    if 8 * i + k < len {
                        buf[k] = bytes[8 * i + k];
                    }
                    k = k + 1;
                }
                assert(buf@ =~= pad8(chunk));
                let w = read_uint(buf.as_slice(), 0, 8, Endianness::Big);
                assert(buf@.subrange(0, 8) =~= buf@);
                assert(w == text_word(bytes@, i as int));
                data[i] = #[verifier::truncate] (w as usize);
            }
            i = i + 1;
        }
        Message { data }
    }

    /// Fills `bytes_buf` with the message's bytes (each word big-endian) and
    /// returns them as text, which they must be.
    pub fn to_string<'a>(self, bytes_buf: &'a mut [u8; 32]) -> (r: &'a str)
        requires
            valid_utf8(message_bytes(self)),
        ensures
            final(bytes_buf)@ == message_bytes(self),
            r.spec_bytes() == message_bytes(self),
    {
        write_word_bytes(self.data[0], bytes_buf, 0);
        write_word_bytes(self.data[1], bytes_buf, 8);
        write_word_bytes(self.data[2], bytes_buf, 16);
        write_word_bytes(self.data[3], bytes_buf, 24);
        assert(bytes_buf@ =~= message_bytes(self));
        match str_from_utf8(bytes_buf.as_slice()) {
            Some(s) => s,
            None => vstd::pervasive::unreached(),
        }
    }
}

/// Law: on a machine with 64-bit words, the message read back from the bytes
/// of a message holds the same words.
pub proof fn lemma_message_bytes_roundtrip(m: Message, back: Message)
    requires
        usize::MAX == u64::MAX,
        forall|i: int|
            0 <= i < 4 ==> #[trigger] back.data@[i] == field_value(
                message_bytes(m),
                8 * i,
                8,
                Endianness::Big,
            ) as u64 as usize,
    ensures
        back.data@ == m.data@,
{
    assert forall|i: int| 0 <= i < 4 implies #[trigger] back.data@[i] == m.data@[i] by {
        let w = m.data@[i] as u64;
        assert forall|k: int| 0 <= k < 8 implies #[trigger] message_bytes(m).subrange(
            8 * i,
            8 * i + 8,
        )[k] == word_bytes(w)[k] by {
            lemma_chunk_index(i, k);
        }
        assert(message_bytes(m).subrange(8 * i, 8 * i + 8) =~= word_bytes(w));
        lemma_word_bytes_value(w);
    }
    assert(back.data@ =~= m.data@);
}

} // verus!
