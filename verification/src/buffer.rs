//! Big-endian primitive codec: a reader that tracks a position into a
//! borrowed byte slice, and a writer that appends to a growable buffer.
//! All integer-width arithmetic of the wire format is concentrated here.

use vstd::prelude::*;
use vstd::arithmetic::div_mod::lemma_fundamental_div_mod;
use crate::errors::DtlsError;

verus! {

// ---------------------------------------------------------------------------
// Big-endian interpretation of bytes, as mathematical integers.
// ---------------------------------------------------------------------------

/// The big-endian value of the 2 bytes of `s` starting at `i`.
pub open spec fn be2(s: Seq<u8>, i: int) -> int {
    s[i] * 0x100 + s[i + 1]
}

/// The big-endian value of the 3 bytes of `s` starting at `i`.
pub open spec fn be3(s: Seq<u8>, i: int) -> int {
    be2(s, i) * 0x100 + s[i + 2]
}

/// The big-endian value of the 4 bytes of `s` starting at `i`.
pub open spec fn be4(s: Seq<u8>, i: int) -> int {
    be3(s, i) * 0x100 + s[i + 3]
}

/// The big-endian value of the 6 bytes of `s` starting at `i`,
/// split as a 16-bit high part followed by a 32-bit low part.
pub open spec fn be6(s: Seq<u8>, i: int) -> int {
    be2(s, i) * 0x100000000 + be4(s, i + 2)
}

// ---------------------------------------------------------------------------
// Big-endian encodings of integers, as byte sequences.
// ---------------------------------------------------------------------------

/// The 2-byte big-endian encoding of `v`.
pub open spec fn u16_be(v: int) -> Seq<u8>
    recommends 0 <= v < 0x10000,
{
    seq![(v / 0x100) as u8, (v % 0x100) as u8]
}

/// The 3-byte big-endian encoding of `v`.
pub open spec fn u24_be(v: int) -> Seq<u8>
    recommends 0 <= v < 0x1000000,
{
    u16_be(v / 0x100).push((v % 0x100) as u8)
}

/// The 4-byte big-endian encoding of `v`.
pub open spec fn u32_be(v: int) -> Seq<u8>
    recommends 0 <= v < 0x100000000,
{
    u24_be(v / 0x100).push((v % 0x100) as u8)
}

/// The 6-byte big-endian encoding of `v`: 16 high bits, then 32 low bits.
pub open spec fn u48_be(v: int) -> Seq<u8>
    recommends 0 <= v < 0x1000000000000,
{
    u16_be(v / 0x100000000) + u32_be(v % 0x100000000)
}

// ---------------------------------------------------------------------------
// Each encoding decodes back to the value it came from.
// ---------------------------------------------------------------------------

/// Reading back the 2-byte big-endian encoding of `v` yields `v`.
pub proof fn lemma_u16_be_round_trip(v: int)
    requires
        0 <= v < 0x10000,
    ensures
        u16_be(v).len() == 2,
        be2(u16_be(v), 0) == v,
{
    lemma_fundamental_div_mod(v, 0x100);
}

/// Reading back the 3-byte big-endian encoding of `v` yields `v`.
pub proof fn lemma_u24_be_round_trip(v: int)
    requires
        0 <= v < 0x1000000,
    ensures
        u24_be(v).len() == 3,
        be3(u24_be(v), 0) == v,
{
    lemma_u16_be_round_trip(v / 0x100);
    lemma_fundamental_div_mod(v, 0x100);
}

/// Reading back the 4-byte big-endian encoding of `v` yields `v`.
pub proof fn lemma_u32_be_round_trip(v: int)
    requires
        0 <= v < 0x100000000,
    ensures
        u32_be(v).len() == 4,
        be4(u32_be(v), 0) == v,
{
    lemma_u24_be_round_trip(v / 0x100);
    lemma_fundamental_div_mod(v, 0x100);
}

/// Reading back the 6-byte big-endian encoding of `v` yields `v`.
/// In particular a 48-bit record sequence number that crosses the 32-bit
/// boundary survives encoding and decoding unchanged.
pub proof fn lemma_u48_be_round_trip(v: int)
    requires
        0 <= v < 0x1000000000000,
    ensures
        u48_be(v).len() == 6,
        be6(u48_be(v), 0) == v,
{
    let hi = v / 0x100000000;
    let lo = v % 0x100000000;
    lemma_u16_be_round_trip(hi);
    lemma_u32_be_round_trip(lo);
    lemma_fundamental_div_mod(v, 0x100000000);
    assert(be2(u48_be(v), 0) == be2(u16_be(hi), 0));
    assert(be4(u48_be(v), 2) == be4(u32_be(lo), 0));
}

// ---------------------------------------------------------------------------
// Re-encoding the value read from bytes yields those bytes again.
// ---------------------------------------------------------------------------

/// Encoding the 2-byte value read at `i` reproduces the two bytes.
pub proof fn lemma_u16_be_of_be2(s: Seq<u8>, i: int)
    requires
        0 <= i,
        i + 2 <= s.len(),
    ensures
        u16_be(be2(s, i)) =~= seq![s[i], s[i + 1]],
{
}

/// Encoding the 3-byte value read at `i` reproduces the three bytes.
pub proof fn lemma_u24_be_of_be3(s: Seq<u8>, i: int)
    requires
        0 <= i,
        i + 3 <= s.len(),
    ensures
        u24_be(be3(s, i)) =~= seq![s[i], s[i + 1], s[i + 2]],
{
    assert(be3(s, i) / 0x100 == be2(s, i));
    assert(be3(s, i) % 0x100 == s[i + 2]);
    lemma_u16_be_of_be2(s, i);
}

/// Encoding the 4-byte value read at `i` reproduces the four bytes.
pub proof fn lemma_u32_be_of_be4(s: Seq<u8>, i: int)
    requires
        0 <= i,
        i + 4 <= s.len(),
    ensures
        u32_be(be4(s, i)) =~= seq![s[i], s[i + 1], s[i + 2], s[i + 3]],
{
    assert(be4(s, i) / 0x100 == be3(s, i));
    assert(be4(s, i) % 0x100 == s[i + 3]);
    lemma_u24_be_of_be3(s, i);
}

// ---------------------------------------------------------------------------
// Reader
// ---------------------------------------------------------------------------

/// A cursor over a borrowed byte slice. Every read of `n` bytes fails with
/// an out-of-range error when fewer than `n` bytes remain; the position
/// advances exactly by the bytes consumed, and only on success.
pub struct BufReader<'a> {
    buf: &'a [u8],
    pos: usize,
}

impl<'a> BufReader<'a> {
    /// The whole underlying byte sequence.
    pub closed spec fn bytes(&self) -> Seq<u8> {
        self.buf@
    }

    /// The current read position.
    pub closed spec fn cur(&self) -> int {
        self.pos as int
    }

    /// The position never runs past the end of the buffer.
    pub open spec fn wf(&self) -> bool {
        0 <= self.cur() <= self.bytes().len()
    }

    /// How many bytes remain to be read.
    pub open spec fn remaining(&self) -> int {
        self.bytes().len() - self.cur()
    }

    pub fn new(buf: &'a [u8]) -> (r: Self)
        ensures
            r.bytes() == buf@,
            r.cur() == 0,
            r.wf(),
    {
        Self { buf, pos: 0 }
    }

    /// How many bytes remain, as a machine integer.
    pub fn remaining_count(&self) -> (r: usize)
        requires
            self.wf(),
        ensures
            r == self.remaining(),
    {
        self.buf.len() - self.pos
    }

    pub fn read_u8(&mut self) -> (r: Result<u8, DtlsError>)
        requires
            old(self).wf(),
        ensures
            final(self).wf(),
            final(self).bytes() == old(self).bytes(),
            match r {
                Ok(b) => {
                    &&& old(self).remaining() >= 1
                    &&& b == old(self).bytes()[old(self).cur()]
                    &&& final(self).cur() == old(self).cur() + 1
                },
                Err(e) => {
                    &&& e == DtlsError::OutOfRange
                    &&& old(self).remaining() < 1
                    &&& final(self).cur() == old(self).cur()
                },
            },
    {
        if self.pos < self.buf.len() {
            let b = self.buf[self.pos];
            self.pos = self.pos + 1;
            Ok(b)
        } else {
            Err(DtlsError::OutOfRange)
        }
    }

    pub fn read_u16(&mut self) -> (r: Result<u16, DtlsError>)
        requires
            old(self).wf(),
        ensures
            final(self).wf(),
            final(self).bytes() == old(self).bytes(),
            match r {
                Ok(b) => {
                    &&& old(self).remaining() >= 2
                    &&& b == be2(old(self).bytes(), old(self).cur())
                    &&& final(self).cur() == old(self).cur() + 2
                },
                Err(e) => {
                    &&& e == DtlsError::OutOfRange
                    &&& old(self).remaining() < 2
                    &&& final(self).cur() == old(self).cur()
                },
            },
    {
        if self.buf.len() - self.pos >= 2 {
            let b0 = self.buf[self.pos];
            let b1 = self.buf[self.pos + 1];
            self.pos = self.pos + 2;
            Ok((b0 as u16) * 0x100 + (b1 as u16))
        } else {
            Err(DtlsError::OutOfRange)
        }
    }

    pub fn read_u24(&mut self) -> (r: Result<u32, DtlsError>)
        requires
            old(self).wf(),
        ensures
            final(self).wf(),
            final(self).bytes() == old(self).bytes(),
            match r {
                Ok(b) => {
                    &&& old(self).remaining() >= 3
                    &&& b == be3(old(self).bytes(), old(self).cur())
                    &&& b < 0x1000000
                    &&& final(self).cur() == old(self).cur() + 3
                },
                Err(e) => {
                    &&& e == DtlsError::OutOfRange
                    &&& old(self).remaining() < 3
                    &&& final(self).cur() == old(self).cur()
                },
            },
    {
        if self.buf.len() - self.pos >= 3 {
            let b0 = self.buf[self.pos];
            let b1 = self.buf[self.pos + 1];
            let b2 = self.buf[self.pos + 2];
            self.pos = self.pos + 3;
            Ok(((b0 as u32) * 0x100 + (b1 as u32)) * 0x100 + (b2 as u32))
        } else {
            Err(DtlsError::OutOfRange)
        }
    }

    pub fn read_u32(&mut self) -> (r: Result<u32, DtlsError>)
        requires
            old(self).wf(),
        ensures
            final(self).wf(),
            final(self).bytes() == old(self).bytes(),
            match r {
                Ok(b) => {
                    &&& old(self).remaining() >= 4
                    &&& b == be4(old(self).bytes(), old(self).cur())
                    &&& final(self).cur() == old(self).cur() + 4
                },
                Err(e) => {
                    &&& e == DtlsError::OutOfRange
                    &&& old(self).remaining() < 4
                    &&& final(self).cur() == old(self).cur()
                },
            },
    {
        if self.buf.len() - self.pos >= 4 {
            let b0 = self.buf[self.pos];
            let b1 = self.buf[self.pos + 1];
            let b2 = self.buf[self.pos + 2];
            let b3 = self.buf[self.pos + 3];
            self.pos = self.pos + 4;
            Ok((((b0 as u32) * 0x100 + (b1 as u32)) * 0x100 + (b2 as u32)) * 0x100 + (b3 as u32))
        } else {
            Err(DtlsError::OutOfRange)
        }
    }

    pub fn read_u48(&mut self) -> (r: Result<u64, DtlsError>)
        requires
            old(self).wf(),
        ensures
            final(self).wf(),
            final(self).bytes() == old(self).bytes(),
            match r {
                Ok(b) => {
                    &&& old(self).remaining() >= 6
                    &&& b == be6(old(self).bytes(), old(self).cur())
                    &&& b < 0x1000000000000
                    &&& final(self).cur() == old(self).cur() + 6
                },
                Err(e) => {
                    &&& e == DtlsError::OutOfRange
                    &&& old(self).remaining() < 6
                    &&& final(self).cur() == old(self).cur()
                },
            },
    {
        if self.buf.len() - self.pos >= 6 {
            let b0 = self.buf[self.pos];
            let b1 = self.buf[self.pos + 1];
            let b2 = self.buf[self.pos + 2];
            let b3 = self.buf[self.pos + 3];
            let b4 = self.buf[self.pos + 4];
            let b5 = self.buf[self.pos + 5];
            self.pos = self.pos + 6;
            let hi = (b0 as u64) * 0x100 + (b1 as u64);
            let lo = (((b2 as u64) * 0x100 + (b3 as u64)) * 0x100 + (b4 as u64)) * 0x100
                + (b5 as u64);
            Ok(hi * 0x100000000 + lo)
        } else {
            Err(DtlsError::OutOfRange)
        }
    }

    /// Read exactly `n` bytes, or fail without moving when fewer remain.
    pub fn read_exact(&mut self, n: usize) -> (r: Result<Vec<u8>, DtlsError>)
        requires
            old(self).wf(),
        ensures
            final(self).wf(),
            final(self).bytes() == old(self).bytes(),
            match r {
                Ok(v) => {
                    &&& old(self).remaining() >= n
                    &&& v@ == old(self).bytes().subrange(old(self).cur(), old(self).cur() + n)
                    &&& final(self).cur() == old(self).cur() + n
                },
                Err(e) => {
                    &&& e == DtlsError::OutOfRange
                    &&& old(self).remaining() < n
                    &&& final(self).cur() == old(self).cur()
                },
            },
    {
        let len = self.buf.len();
        if len - self.pos >= n {
            let mut v: Vec<u8> = Vec::new();
            let mut k: usize = 0;
            while k < n
                invariant
                    self.wf(),
                    k <= n,
                    self.bytes().len() == len,
                    self.remaining() >= n,
                    v@ == self.bytes().subrange(self.cur(), self.cur() + k),
                decreases n - k,
            {
                v.push(self.buf[self.pos + k]);
                k = k + 1;
                assert(v@ =~= self.bytes().subrange(self.cur(), self.cur() + k));
            }
            self.pos = self.pos + n;
            Ok(v)
        } else {
            Err(DtlsError::OutOfRange)
        }
    }
}

// ---------------------------------------------------------------------------
// Writer
// ---------------------------------------------------------------------------

/// Appends big-endian encodings to a growable byte buffer.
pub struct BufWriter {
    buf: Vec<u8>,
}

impl View for BufWriter {
    type V = Seq<u8>;

    closed spec fn view(&self) -> Seq<u8> {
        self.buf@
    }
}

impl BufWriter {
    pub fn new() -> (r: Self)
        ensures
            r@ == Seq::<u8>::empty(),
    {
        Self { buf: Vec::new() }
    }

    pub fn write_u8(&mut self, value: u8)
        ensures
            final(self)@ == old(self)@.push(value),
    {
        self.buf.push(value);
    }

    pub fn write_u16(&mut self, value: u16)
        ensures
            final(self)@ == old(self)@ + u16_be(value as int),
    {
        self.buf.push((value / 0x100) as u8);
        self.buf.push((value % 0x100) as u8);
        assert(self@ =~= old(self)@ + u16_be(value as int));
    }

    pub fn write_u24(&mut self, value: u32)
        requires
            value < 0x1000000,
        ensures
            final(self)@ == old(self)@ + u24_be(value as int),
    {
        self.buf.push((value / 0x10000) as u8);
        self.buf.push(((value / 0x100) % 0x100) as u8);
        self.buf.push((value % 0x100) as u8);
        proof {
            lemma_fundamental_div_mod(value as int, 0x100);
            assert((value as int / 0x100) / 0x100 == value as int / 0x10000) by (nonlinear_arith);
            assert(self@ =~= old(self)@ + u24_be(value as int));
        }
    }

    pub fn write_u32(&mut self, value: u32)
        ensures
            final(self)@ == old(self)@ + u32_be(value as int),
    {
        self.buf.push((value / 0x1000000) as u8);
        self.buf.push(((value / 0x10000) % 0x100) as u8);
        self.buf.push(((value / 0x100) % 0x100) as u8);
        self.buf.push((value % 0x100) as u8);
        proof {
            let v = value as int;
            assert((v / 0x100) / 0x100 == v / 0x10000) by (nonlinear_arith);
            assert((v / 0x100) / 0x10000 == v / 0x1000000) by (nonlinear_arith);
            assert((v / 0x10000) / 0x100 == v / 0x1000000) by (nonlinear_arith);
            assert(self@ =~= old(self)@ + u32_be(value as int));
        }
    }

    pub fn write_u48(&mut self, value: u64)
        requires
            value < 0x1000000000000,
        ensures
            final(self)@ == old(self)@ + u48_be(value as int),
    {
        let hi = (value / 0x100000000) as u16;
        let lo = (value % 0x100000000) as u32;
        self.write_u16(hi);
        self.write_u32(lo);
        assert(self@ =~= old(self)@ + u48_be(value as int));
    }

    pub fn write_bytes(&mut self, bytes: &[u8])
        ensures
            final(self)@ == old(self)@ + bytes@,
    {
        let n = bytes.len();
        let mut k: usize = 0;
        while k < n
            invariant
                n == bytes@.len(),
                k <= n,
                self@ == old(self)@ + bytes@.subrange(0, k as int),
            decreases n - k,
        {
            self.buf.push(bytes[k]);
            k = k + 1;
            assert(self@ =~= old(self)@ + bytes@.subrange(0, k as int));
        }
        assert(self@ =~= old(self)@ + bytes@);
    }

    /// Hand out the accumulated bytes.
    pub fn buf(self) -> (r: Vec<u8>)
        ensures
            r@ == self@,
    {
        self.buf
    }

    /// Borrow the accumulated bytes.
    pub fn buf_ref(&self) -> (r: &Vec<u8>)
        ensures
            r@ == self@,
    {
        &self.buf
    }
}

/// Copy a byte slice into a fresh vector.
pub fn copy_bytes(src: &[u8]) -> (r: Vec<u8>)
    ensures
        r@ == src@,
{
    let mut w = BufWriter::new();
    w.write_bytes(src);
    let out = w.buf();
    proof {
        assert(out@ =~= src@);
    }
    out
}

} // verus!
