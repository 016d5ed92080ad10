//! A seekable byte stream held in memory: the place that a GGUF file is written to.

use crate::le;
use vstd::prelude::*;

verus! {

/// What a sink holds, and where the next byte goes.
#[verifier::ext_equal]
pub struct SinkState {
    pub bytes: Seq<u8>,
    pub pos: nat,
}

/// `bytes` with `data` written over it from `pos` on, and extended where `data` runs past its
/// end.
pub open spec fn overwrite(bytes: Seq<u8>, pos: nat, data: Seq<u8>) -> Seq<u8> {
    let end = pos + data.len();
    bytes.take(pos as int) + data + (if end < bytes.len() {
        bytes.skip(end as int)
    } else {
        Seq::empty()
    })
}

impl SinkState {
    /// The state after `data` has been written at the current position.
    pub open spec fn after_write(self, data: Seq<u8>) -> SinkState {
        SinkState {
            bytes: overwrite(self.bytes, self.pos, data),
            pos: self.pos + data.len(),
        }
    }

    /// The position lies within the bytes or at their end.
    pub open spec fn wf(self) -> bool {
        self.pos <= self.bytes.len()
    }
}

/// Writing nothing changes nothing.
pub proof fn lemma_write_empty(s: SinkState)
    requires
        s.wf(),
    ensures
        s.after_write(Seq::empty()) == s,
{
    assert(s.after_write(Seq::empty()) =~= s);
}

/// Two writes, one after the other, are one write of both.
pub proof fn lemma_write_write(s: SinkState, a: Seq<u8>, b: Seq<u8>)
    requires
        s.wf(),
    ensures
        s.after_write(a).wf(),
        s.after_write(a).after_write(b) == s.after_write(a + b),
{
    assert(s.after_write(a).after_write(b).bytes =~= s.after_write(a + b).bytes);
}

/// A write replaces the bytes from the position on by what is written, leaves all others alone,
/// makes the bytes longer only where what is written runs past their end, and moves the position
/// behind what was written.
pub proof fn law_write_replaces(s: SinkState, data: Seq<u8>)
    requires
        s.pos <= s.bytes.len(),
    ensures
        s.wf(),
        s.after_write(data).pos == s.pos + data.len(),
        s.after_write(data).bytes.len() == if s.pos + data.len() > s.bytes.len() {
            s.pos + data.len()
        } else {
            s.bytes.len()
        },
        forall|k: int|
            0 <= k < s.after_write(data).bytes.len() ==> #[trigger] s.after_write(data).bytes[k]
                == if s.pos <= k < s.pos + data.len() {
                data[k - s.pos]
            } else {
                s.bytes[k]
            },
{
}

/// A growable byte buffer with a position, which behaves as a file open for writing does:
/// a write replaces the bytes from the position on, extends the buffer at its end, and moves
/// the position behind what was written.
#[derive(Debug)]
pub struct ByteSink {
    bytes: Vec<u8>,
    pos: usize,
}

impl View for ByteSink {
    type V = SinkState;

    closed spec fn view(&self) -> SinkState {
        SinkState { bytes: self.bytes@, pos: self.pos as nat }
    }
}

impl ByteSink {
    /// The position lies within the bytes or at their end.
    pub open spec fn wf(&self) -> bool {
        self@.wf()
    }

    /// An empty sink.
    pub fn new() -> (r: ByteSink)
        ensures
            r.wf(),
            r@ == (SinkState { bytes: Seq::empty(), pos: 0 }),
    {
        ByteSink { bytes: Vec::new(), pos: 0 }
    }

    /// Writes all of `data` at the current position.
    pub fn write_all(&mut self, data: &[u8])
        requires
            old(self).wf(),
        ensures
            final(self).wf(),
            final(self)@ == old(self)@.after_write(data@),
    {
        let ghost start = self@;
        let mut i: usize = 0;
        proof {
            assert(data@.take(0) =~= Seq::empty());
            lemma_write_empty(start);
        }
        while i < data.len()
            invariant
                i <= data@.len(),
                start.wf(),
                self.wf(),
                self@ == start.after_write(data@.take(i as int)),
            decreases data@.len() - i,
        {
            let ghost before = self@;
            let b: u8 = data[i];
            if self.pos < self.bytes.len() {
                self.bytes.set(self.pos, b);
            } else {
                self.bytes.push(b);
            }
            let len: usize = self.bytes.len();
            assert(self.pos < len);
            self.pos = self.pos + 1;
            i = i + 1;
            proof {
                assert(self@ =~= before.after_write(seq![b]));
                lemma_write_write(start, data@.take(i - 1), seq![b]);
                assert(data@.take(i - 1) + seq![b] =~= data@.take(i as int));
            }
        }
        assert(data@.take(i as int) =~= data@);
    }

    /// The current position, counted from the start.
    pub fn stream_position(&self) -> (r: u64)
        ensures
            r == self@.pos,
    {
        self.pos as u64
    }

    /// Moves the position to `pos`, counted from the start.
    pub fn seek_start(&mut self, pos: u64)
        requires
            pos <= old(self)@.bytes.len(),
        ensures
            final(self).wf(),
            final(self)@ == (SinkState { bytes: old(self)@.bytes, pos: pos as nat }),
    {
        assert(pos <= self.bytes.len());
        self.pos = pos as usize;
    }

    /// The bytes that the sink holds.
    pub fn as_bytes(&self) -> (r: &[u8])
        ensures
            r@ == self@.bytes,
    {
        self.bytes.as_slice()
    }

    /// Gives up the sink for its bytes.
    pub fn into_inner(self) -> (r: Vec<u8>)
        ensures
            r@ == self@.bytes,
    {
        self.bytes
    }

    /// Writes a byte.
    pub fn write_u8(&mut self, v: u8)
        requires
            old(self).wf(),
        ensures
            final(self).wf(),
            final(self)@ == old(self)@.after_write(le::le_bytes(v as nat, 1)),
    {
        let mut b: Vec<u8> = Vec::new();
        le::put_u8(&mut b, v);
        assert(b@ =~= le::le_bytes(v as nat, 1));
        self.write_all(b.as_slice());
    }

    /// Writes a byte in two's complement.
    pub fn write_i8(&mut self, v: i8)
        requires
            old(self).wf(),
        ensures
            final(self).wf(),
            final(self)@ == old(self)@.after_write(le::le_bytes(le::twos_complement(v as int, 1), 1)),
    {
        let mut b: Vec<u8> = Vec::new();
        le::put_i8(&mut b, v);
        assert(b@ =~= le::le_bytes(le::twos_complement(v as int, 1), 1));
        self.write_all(b.as_slice());
    }

    /// Writes two bytes, the low one first.
    pub fn write_u16(&mut self, v: u16)
        requires
            old(self).wf(),
        ensures
            final(self).wf(),
            final(self)@ == old(self)@.after_write(le::le_bytes(v as nat, 2)),
    {
        let mut b: Vec<u8> = Vec::new();
        le::put_u16(&mut b, v);
        assert(b@ =~= le::le_bytes(v as nat, 2));
        self.write_all(b.as_slice());
    }

    /// Writes two bytes in two's complement, the low one first.
    pub fn write_i16(&mut self, v: i16)
        requires
            old(self).wf(),
        ensures
            final(self).wf(),
            final(self)@ == old(self)@.after_write(le::le_bytes(le::twos_complement(v as int, 2), 2)),
    {
        let mut b: Vec<u8> = Vec::new();
        le::put_i16(&mut b, v);
        assert(b@ =~= le::le_bytes(le::twos_complement(v as int, 2), 2));
        self.write_all(b.as_slice());
    }

    /// Writes four bytes, the low one first.
    pub fn write_u32(&mut self, v: u32)
        requires
            old(self).wf(),
        ensures
            final(self).wf(),
            final(self)@ == old(self)@.after_write(le::le_bytes(v as nat, 4)),
    {
        let mut b: Vec<u8> = Vec::new();
        le::put_u32(&mut b, v);
        assert(b@ =~= le::le_bytes(v as nat, 4));
        self.write_all(b.as_slice());
    }

    /// Writes four bytes in two's complement, the low one first.
    pub fn write_i32(&mut self, v: i32)
        requires
            old(self).wf(),
        ensures
            final(self).wf(),
            final(self)@ == old(self)@.after_write(le::le_bytes(le::twos_complement(v as int, 4), 4)),
    {
        let mut b: Vec<u8> = Vec::new();
        le::put_i32(&mut b, v);
        assert(b@ =~= le::le_bytes(le::twos_complement(v as int, 4), 4));
        self.write_all(b.as_slice());
    }

    /// Writes eight bytes, the low one first.
    pub fn write_u64(&mut self, v: u64)
        requires
            old(self).wf(),
        ensures
            final(self).wf(),
            final(self)@ == old(self)@.after_write(le::le_bytes(v as nat, 8)),
    {
        let mut b: Vec<u8> = Vec::new();
        le::put_u64(&mut b, v);
        assert(b@ =~= le::le_bytes(v as nat, 8));
        self.write_all(b.as_slice());
    }

    /// Writes eight bytes in two's complement, the low one first.
    pub fn write_i64(&mut self, v: i64)
        requires
            old(self).wf(),
        ensures
            final(self).wf(),
            final(self)@ == old(self)@.after_write(le::le_bytes(le::twos_complement(v as int, 8), 8)),
    {
        let mut b: Vec<u8> = Vec::new();
        le::put_i64(&mut b, v);
        assert(b@ =~= le::le_bytes(le::twos_complement(v as int, 8), 8));
        self.write_all(b.as_slice());
    }
}

} // verus!
