//! The kernel log: fixed-size text entries kept in a ring of slots.
use vstd::prelude::*;
use vstd::string::*;
use vstd::utf8::valid_utf8;

use crate::text::str_from_utf8;

verus! {

/// Number of slots of the kernel's log buffer.
pub const RING_BUFFER_LENGTH: usize = 1024;

/// Size in bytes of one log entry.
pub const RING_BUFFER_ENTRY_SIZE: usize = 128;

/// An entry of `RING_BUFFER_ENTRY_SIZE` bytes.
pub type EntryBytes = [u8; 128];

/// `msg` padded with zero bytes to a whole entry.
pub open spec fn padded_entry(msg: Seq<u8>) -> Seq<u8> {
    Seq::new(128, |i: int| if i < msg.len() { msg[i] } else { 0u8 })
}

/// An entry being filled with text; text that does not fit is cut off.
pub struct RingBufferEntryWrapper {
    entry: EntryBytes,
    offset: usize,
}

impl RingBufferEntryWrapper {
    /// The bytes of the entry.
    pub closed spec fn bytes(&self) -> Seq<u8> {
        self.entry@
    }

    /// How many bytes have been written so far.
    pub closed spec fn written(&self) -> nat {
        self.offset as nat
    }

    pub closed spec fn wf(&self) -> bool {
        self.offset <= 128
    }

    /// Wraps `buf`, to be filled from its start.
    pub fn new(buf: EntryBytes) -> (r: Self)
        ensures
            r.wf(),
            r.bytes() == buf@,
            r.written() == 0,
    {
        RingBufferEntryWrapper { entry: buf, offset: 0 }
    }

    /// The whole entry as text.
    pub fn as_str(&self) -> (r: &str)
        requires
            valid_utf8(self.bytes()),
        ensures
            r.spec_bytes() == self.bytes(),
    {
        match str_from_utf8(self.entry.as_slice()) {
            Some(s) => s,
            None => vstd::pervasive::unreached(),
        }
    }

    /// Appends the bytes of `s` after what was written, cutting off what does
    /// not fit; never fails.
    pub fn write_str(&mut self, s: &str) -> (r: Result<(), ()>)
        requires
            old(self).wf(),
        ensures
            final(self).wf(),
            r is Ok,
            ({
                let n = vstd::math::min(
                    s.spec_bytes().len() as int,
                    128 - old(self).written(),
                );
                &&& final(self).written() == old(self).written() + n
                &&& final(self).bytes() == old(self).bytes().subrange(
                    0,
                    old(self).written() as int,
                ) + s.spec_bytes().subrange(0, n) + old(self).bytes().subrange(
                    old(self).written() + n,
                    128,
                )
            }),
    {
        let bytes = s.as_bytes();
        let remaining = RING_BUFFER_ENTRY_SIZE - self.offset;
        let n = if bytes.len() < remaining {
            bytes.len()
        } else {
            remaining
        };
        let start = self.offset;
        let ghost old_entry = self.entry@;
        let mut i: usize = 0;
        while i < n
            invariant
                start + n <= 128,
                n <= bytes@.len(),
                i <= n,
                self.entry@.len() == 128,
                forall|k: int|
                    0 <= k < 128 ==> #[trigger] self.entry@[k] == if start <= k < start + i {
                        bytes@[k - start]
                    } else {
                        old_entry[k]
                    },
            decreases n - i,
        {
            self.entry[start + i] = bytes[i];
            i = i + 1;
        }
        self.offset = start + n;
        assert(self.entry@ =~= old_entry.subrange(0, start as int) + bytes@.subrange(0, n as int)
            + old_entry.subrange(start + n, 128));
        Ok(())
    }
}

/// `after` is `before` once `msg`, padded to an entry, was written behind the
/// last entry.
pub open spec fn entry_written<const LENGTH: usize>(
    before: RingBuffer<LENGTH>,
    after: RingBuffer<LENGTH>,
    msg: Seq<u8>,
) -> bool {
    &&& after.wf()
    &&& after.slots() == before.slots()
    &&& after.first() == before.first()
    &&& after.count() == before.count() + 1
    &&& after.slot_contents() == before.slot_contents().update(
        before.write_slot(),
        padded_entry(msg),
    )
}

/// `after` is `before` once its first entry was read out as `out` and its
/// slot zeroed.
pub open spec fn entry_read<const LENGTH: usize>(
    before: RingBuffer<LENGTH>,
    after: RingBuffer<LENGTH>,
    out: Seq<u8>,
) -> bool {
    &&& after.wf()
    &&& after.slots() == before.slots()
    &&& out == before.slot_contents()[before.first() as int]
    &&& after.first() == before.first() + 1
    &&& after.count() == before.count() - 1
    &&& after.slot_contents() == before.slot_contents().update(
        before.first() as int,
        Seq::new(128, |j: int| 0u8),
    )
}

/// A ring of `LENGTH` log entries; entries are written behind the last one and
/// read from the first one.
pub struct RingBuffer<const LENGTH: usize> {
    start: usize,
    length: usize,
    size: usize,
    entries: Vec<EntryBytes>,
}

impl<const LENGTH: usize> RingBuffer<LENGTH> {
    /// Slot of the first entry to read.
    pub closed spec fn first(&self) -> nat {
        self.start as nat
    }

    /// Number of entries written and not read yet.
    pub closed spec fn count(&self) -> nat {
        self.length as nat
    }

    /// Number of slots.
    pub closed spec fn slots(&self) -> nat {
        self.size as nat
    }

    /// Contents of the slots.
    pub closed spec fn slot_contents(&self) -> Seq<Seq<u8>> {
        self.entries@.map_values(|e: EntryBytes| e@)
    }

    /// Slot that the next write takes.
    pub open spec fn write_slot(&self) -> int {
        (self.first() + self.count()) as int % (self.slots() as int)
    }

    /// The entries waiting to be read, first one first.
    pub open spec fn pending(&self) -> Seq<Seq<u8>> {
        Seq::new(
            self.count(),
            |i: int| self.slot_contents()[(self.first() + i) % (self.slots() as int)],
        )
    }

    pub closed spec fn wf(&self) -> bool {
        &&& self.size == LENGTH
        &&& self.entries@.len() == LENGTH
    }

    /// An empty ring with all slots zeroed.
    pub fn new() -> (r: Self)
        ensures
            r.wf(),
            r.first() == 0,
            r.count() == 0,
            r.slots() == LENGTH,
            r.slot_contents() == Seq::new(LENGTH as nat, |i: int| Seq::new(128, |j: int| 0u8)),
    {
        let mut entries: Vec<EntryBytes> = Vec::new();
        let mut i: usize = 0;
        while i < LENGTH
            invariant
                i <= LENGTH,
                entries@.len() == i,
                forall|k: int| 0 <= k < i ==> (#[trigger] entries@[k])@ == Seq::new(128, |j: int| 0u8),
            decreases LENGTH - i,
        {
            let zero: EntryBytes = [0u8; 128];
            assert(zero@ =~= Seq::new(128, |j: int| 0u8));
            entries.push(zero);
            i = i + 1;
        }
        let r = RingBuffer { start: 0, length: 0, size: LENGTH, entries };
        assert(r.slot_contents() =~= Seq::new(LENGTH as nat, |i: int| Seq::new(128, |j: int| 0u8)));
        r
    }

    /// Whether no entry waits to be read.
    pub fn is_empty(&self) -> (r: bool)
        ensures
            r == (self.count() == 0),
    {
        self.length == 0
    }

    /// Whether as many entries wait as there are slots.
    pub fn is_full(&self) -> (r: bool)
        ensures
            r == (self.count() >= self.slots()),
    {
        self.length >= self.size
    }

    /// Moves the first entry into `buffer` and zeroes its slot; fails when
    /// the ring is empty. The read position is not wrapped around: a read
    /// from the slot past the last one is not allowed.
    pub fn read_str(&mut self, buffer: &mut EntryBytes) -> (r: Result<(), ()>)
        requires
            old(self).wf(),
            old(self).count() > 0 ==> old(self).first() < old(self).slots(),
        ensures
            final(self).wf(),
            final(self).slots() == old(self).slots(),
            r is Err <==> old(self).count() == 0,
            r is Err ==> *final(self) == *old(self) && *final(buffer) == *old(buffer),
            r is Ok ==> entry_read(*old(self), *final(self), final(buffer)@),
    {
        if self.is_empty() {
            return Err(());
        }
        let entry = self.entries[self.start];
        *buffer = entry;
        let zero: EntryBytes = [0u8; 128];
        assert(zero@ =~= Seq::new(128, |j: int| 0u8));
        let s = self.start;
        self.entries.set(s, zero);
        self.start = self.start + 1;
        self.length = self.length - 1;
        proof {
            assert(self.slot_contents() =~= old(self).slot_contents().update(
                old(self).first() as int,
                Seq::new(128, |j: int| 0u8),
            ));
        }
        Ok(())
    }

    /// Writes `msg`, padded with zeros, into the slot behind the last entry;
    /// fails when `msg` is longer than an entry. A full ring is not checked:
    /// the write then takes the slot of an entry not read yet. A message
    /// that fits needs a ring with slots.
    pub fn write_str(&mut self, msg: &str) -> (r: Result<(), ()>)
        requires
            old(self).wf(),
            msg.spec_bytes().len() <= 128 ==> old(self).slots() > 0,
            msg.spec_bytes().len() <= 128 ==> old(self).first() + old(self).count() < usize::MAX,
        ensures
            final(self).wf(),
            final(self).slots() == old(self).slots(),
            r is Err <==> msg.spec_bytes().len() > 128,
            r is Err ==> *final(self) == *old(self),
            r is Ok ==> entry_written(*old(self), *final(self), msg.spec_bytes()),
    {
        let bytes = msg.as_bytes();
        if bytes.len() > RING_BUFFER_ENTRY_SIZE {
            return Err(());
        }
        let mut entry: EntryBytes = [0u8; 128];
        let mut i: usize = 0;
        while i < bytes.len()
            invariant
                bytes@.len() <= 128,
                i <= bytes@.len(),
                entry@.len() == 128,
                forall|k: int|
                    0 <= k < 128 ==> #[trigger] entry@[k] == if k < i {
                        bytes@[k]
                    } else {
                        0u8
                    },
            decreases bytes@.len() - i,
        {
            entry[i] = bytes[i];
            i = i + 1;
        }
        assert(entry@ =~= padded_entry(bytes@));
        let index = (self.start + self.length) % self.size;
        self.entries.set(index, entry);
        self.length = self.length + 1;
        proof {
            assert(self.slot_contents() =~= old(self).slot_contents().update(
                old(self).write_slot(),
                padded_entry(msg.spec_bytes()),
            ));
        }
        Ok(())
    }

    /// Reads all pending entries, first one first, leaving the ring empty;
    /// the caller writes them out.
    pub fn dump(&mut self) -> (r: Vec<EntryBytes>)
        requires
            old(self).wf(),
            old(self).first() + old(self).count() <= old(self).slots(),
        ensures
            final(self).wf(),
            final(self).count() == 0,
            r@.len() == old(self).count(),
            forall|i: int|
                0 <= i < r@.len() ==> (#[trigger] r@[i])@ == old(self).slot_contents()[old(
                    self,
                ).first() + i],
    {
        let mut ret: Vec<EntryBytes> = Vec::new();
        let ghost first0 = self.first();
        let ghost slots0 = self.slot_contents();
        let ghost count0 = self.count();
        while !self.is_empty()
            invariant
                self.wf(),
                self.first() + self.count() <= self.slots(),
                self.first() == first0 + ret@.len(),
                self.count() + ret@.len() == count0,
                self.slot_contents().len() == slots0.len(),
                forall|k: int|
                    self.first() <= k < self.slots() ==> #[trigger] self.slot_contents()[k]
                        == slots0[k],
                forall|i: int|
                    0 <= i < ret@.len() ==> (#[trigger] ret@[i])@ == slots0[first0 + i],
            decreases self.count(),
        {
            let mut buffer: EntryBytes = [0u8; 128];
            let _ = self.read_str(&mut buffer);
            ret.push(buffer);
        }
        ret
    }
}

proof fn lemma_mod_distinct(x: int, y: int, m: int)
    requires
        0 < m,
        0 <= x < y < x + m,
    ensures
        x % m != y % m,
{
    vstd::arithmetic::div_mod::lemma_fundamental_div_mod(x, m);
    vstd::arithmetic::div_mod::lemma_fundamental_div_mod(y, m);
    vstd::arithmetic::div_mod::lemma_mod_bound(x, m);
    vstd::arithmetic::div_mod::lemma_mod_bound(y, m);
    if x % m == y % m {
        let d = y / m - x / m;
        assert(y - x == m * d) by (nonlinear_arith)
            requires
                x == m * (x / m) + x % m,
                y == m * (y / m) + y % m,
                x % m == y % m,
                d == y / m - x / m,
        ;
        assert(false) by (nonlinear_arith)
            requires
                y - x == m * d,
                0 < y - x < m,
                0 < m,
        ;
    }
}

/// Law: a write to a ring that is not full appends the padded message to
/// the entries waiting to be read.
pub proof fn lemma_write_appends<const LENGTH: usize>(
    before: RingBuffer<LENGTH>,
    after: RingBuffer<LENGTH>,
    msg: Seq<u8>,
)
    requires
        before.wf(),
        before.slots() > 0,
        before.count() < before.slots(),
        after.first() == before.first(),
        after.count() == before.count() + 1,
        after.slots() == before.slots(),
        after.slot_contents() == before.slot_contents().update(
            before.write_slot(),
            padded_entry(msg),
        ),
    ensures
        after.pending() == before.pending().push(padded_entry(msg)),
{
    let m = before.slots() as int;
    let f = before.first() as int;
    let c = before.count() as int;
    assert(before.slot_contents().len() == m);
    vstd::arithmetic::div_mod::lemma_mod_bound(f + c, m);
    assert forall|i: int| 0 <= i < c implies #[trigger] after.pending()[i] == before.pending()[i] by {
        lemma_mod_distinct(f + i, f + c, m);
        vstd::arithmetic::div_mod::lemma_mod_bound(f + i, m);
    }
    assert(after.pending() =~= before.pending().push(padded_entry(msg)));
}

/// Law: a read from a ring that is not empty gives back the entry that has
/// waited longest and removes it from those waiting.
pub proof fn lemma_read_pops<const LENGTH: usize>(
    before: RingBuffer<LENGTH>,
    after: RingBuffer<LENGTH>,
    out: Seq<u8>,
)
    requires
        before.wf(),
        0 < before.count() <= before.slots(),
        before.first() < before.slots(),
        out == before.slot_contents()[before.first() as int],
        after.first() == before.first() + 1,
        after.count() == before.count() - 1,
        after.slots() == before.slots(),
        after.slot_contents() == before.slot_contents().update(
            before.first() as int,
            Seq::new(128, |j: int| 0u8),
        ),
    ensures
        out == before.pending()[0],
        after.pending() == before.pending().drop_first(),
{
    let m = before.slots() as int;
    let f = before.first() as int;
    let c = before.count() as int;
    assert(before.slot_contents().len() == m);
    vstd::arithmetic::div_mod::lemma_small_mod(f as nat, m as nat);
    assert forall|i: int| 0 <= i < c - 1 implies #[trigger] after.pending()[i] == before.pending()[i + 1] by {
        lemma_mod_distinct(f, f + 1 + i, m);
        vstd::arithmetic::div_mod::lemma_mod_bound(f + 1 + i, m);
    }
    assert(after.pending() =~= before.pending().drop_first());
}

/// The entries that `msgs` give once each is padded to a whole entry.
pub open spec fn padded_entries(msgs: Seq<Seq<u8>>) -> Seq<Seq<u8>> {
    msgs.map_values(|m: Seq<u8>| padded_entry(m))
}

proof fn lemma_writes_queue<const LENGTH: usize>(
    rings: Seq<RingBuffer<LENGTH>>,
    msgs: Seq<Seq<u8>>,
    j: int,
)
    requires
        rings.len() == msgs.len() + 1,
        rings[0].wf(),
        rings[0].count() == 0,
        msgs.len() <= rings[0].slots(),
        forall|i: int|
            0 <= i < msgs.len() ==> entry_written(rings[i], rings[i + 1], #[trigger] msgs[i]),
        0 <= j <= msgs.len(),
    ensures
        rings[j].wf(),
        rings[j].slots() == rings[0].slots(),
        rings[j].first() == rings[0].first(),
        rings[j].count() == j,
        rings[j].pending() == padded_entries(msgs.take(j)),
    decreases j,
{
    if j == 0 {
        assert(rings[0].pending() =~= padded_entries(msgs.take(0)));
    } else {
        lemma_writes_queue(rings, msgs, j - 1);
        assert(entry_written(rings[j - 1], rings[j], msgs[j - 1]));
        lemma_write_appends(rings[j - 1], rings[j], msgs[j - 1]);
        assert(padded_entries(msgs.take(j)) =~= padded_entries(msgs.take(j - 1)).push(
            padded_entry(msgs[j - 1]),
        ));
    }
}

proof fn lemma_reads_queue<const LENGTH: usize>(
    rings: Seq<RingBuffer<LENGTH>>,
    outs: Seq<Seq<u8>>,
    queued: Seq<Seq<u8>>,
    j: int,
)
    requires
        rings.len() == outs.len() + 1,
        rings[0].wf(),
        rings[0].count() == outs.len(),
        rings[0].first() + outs.len() <= rings[0].slots(),
        rings[0].pending() == queued,
        forall|i: int| 0 <= i < outs.len() ==> entry_read(rings[i], rings[i + 1], #[trigger] outs[i]),
        0 <= j <= outs.len(),
    ensures
        rings[j].wf(),
        rings[j].slots() == rings[0].slots(),
        rings[j].first() == rings[0].first() + j,
        rings[j].count() == outs.len() - j,
        rings[j].pending() == queued.skip(j),
        forall|i: int| 0 <= i < j ==> #[trigger] outs[i] == queued[i],
    decreases j,
{
    if j == 0 {
        assert(queued.skip(0) =~= queued);
    } else {
        lemma_reads_queue(rings, outs, queued, j - 1);
        assert(entry_read(rings[j - 1], rings[j], outs[j - 1]));
        lemma_read_pops(rings[j - 1], rings[j], outs[j - 1]);
        assert(queued.skip(j) =~= queued.skip(j - 1).drop_first());
    }
}

/// Law: on a ring that holds no entry, `k` writes of `msgs` (no more than
/// there are slots, from a first slot that leaves room for all of them, as
/// on a new ring) followed by `k` reads give back the messages in the order
/// they were written, each padded to an entry, and leave the ring empty.
/// `rings` holds the ring before and after each write, then after each
/// read; `outs` what the reads gave.
pub proof fn lemma_first_in_first_out<const LENGTH: usize>(
    rings: Seq<RingBuffer<LENGTH>>,
    msgs: Seq<Seq<u8>>,
    outs: Seq<Seq<u8>>,
)
    requires
        rings.len() == 2 * msgs.len() + 1,
        outs.len() == msgs.len(),
        rings[0].wf(),
        rings[0].count() == 0,
        rings[0].first() + msgs.len() <= rings[0].slots(),
        forall|i: int|
            0 <= i < msgs.len() ==> entry_written(rings[i], rings[i + 1], #[trigger] msgs[i]),
        forall|i: int|
            0 <= i < msgs.len() ==> entry_read(
                rings[msgs.len() + i],
                rings[msgs.len() + i + 1],
                #[trigger] outs[i],
            ),
    ensures
        forall|i: int| 0 <= i < msgs.len() ==> #[trigger] outs[i] == padded_entry(msgs[i]),
        rings[2 * msgs.len() as int].count() == 0,
{
    let k = msgs.len() as int;
    let writes = rings.take(k + 1);
    assert forall|i: int| 0 <= i < k implies entry_written(
        writes[i],
        writes[i + 1],
        #[trigger] msgs[i],
    ) by {
        assert(entry_written(rings[i], rings[i + 1], msgs[i]));
    }
    lemma_writes_queue(writes, msgs, k);
    assert(msgs.take(k) =~= msgs);
    let reads = rings.skip(k);
    assert forall|i: int| 0 <= i < k implies entry_read(reads[i], reads[i + 1], #[trigger] outs[i]) by {
        assert(entry_read(rings[k + i], rings[k + i + 1], outs[i]));
    }
    assert(reads[0] == writes[k]);
    lemma_reads_queue(reads, outs, padded_entries(msgs), k);
    assert(reads[k] == rings[2 * k]);
}

} // verus!
