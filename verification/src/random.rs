//! The 32-byte Random of ClientHello and ServerHello: a 4-byte Unix time
//! and 28 random bytes.

use vstd::prelude::*;
use crate::buffer::{be4, u32_be, BufReader, BufWriter};
use crate::buffer::lemma_u32_be_round_trip;
use crate::crypto::{random_bytes, unix_time_now};
use crate::errors::DtlsError;

verus! {

/// A Random carries exactly 28 random bytes after its timestamp.
pub const RANDOM_BYTES_LENGTH: usize = 28;

/// A Random occupies exactly 32 bytes on the wire: 4 + 28.
pub const RANDOM_LENGTH: usize = 32;

/// The mathematical value of a Random.
#[verifier::ext_equal]
pub struct RandomView {
    pub gmt_unix_time: u32,
    pub random_bytes: Seq<u8>,
}

impl RandomView {
    pub open spec fn wf(&self) -> bool {
        self.random_bytes.len() == RANDOM_BYTES_LENGTH
    }
}

/// The 32-byte wire form of a Random.
pub open spec fn enc_random(r: RandomView) -> Seq<u8>
    recommends r.wf(),
{
    u32_be(r.gmt_unix_time as int) + r.random_bytes
}

/// Decode a Random from `s` at position `i`.
pub open spec fn dec_random(s: Seq<u8>, i: int) -> Result<(RandomView, int), DtlsError>
    recommends 0 <= i <= s.len(),
{
    if s.len() - i < 32 {
        Err(DtlsError::OutOfRange)
    } else {
        Ok(
            (
                RandomView {
                    gmt_unix_time: be4(s, i) as u32,
                    random_bytes: s.subrange(i + 4, i + 32),
                },
                i + 32,
            ),
        )
    }
}

/// The Random structure of the hello messages.
#[derive(Debug, Clone)]
pub struct Random {
    pub gmt_unix_time: u32,
    pub random_bytes: Vec<u8>,
}

impl View for Random {
    type V = RandomView;

    open spec fn view(&self) -> RandomView {
        RandomView { gmt_unix_time: self.gmt_unix_time, random_bytes: self.random_bytes@ }
    }
}

impl Random {
    pub open spec fn wf(&self) -> bool {
        self@.wf()
    }

    /// A fresh Random: the clock now, and 28 random bytes.
    pub fn new() -> (r: Self)
        ensures
            r.wf(),
    {
        Self { gmt_unix_time: unix_time_now(), random_bytes: random_bytes(RANDOM_BYTES_LENGTH) }
    }

    /// Assemble a Random from its parts; the byte count must be exact.
    pub fn from_parts(gmt_unix_time: u32, random_bytes: Vec<u8>) -> (r: Result<Self, DtlsError>)
        ensures
            match r {
                Ok(v) => {
                    &&& random_bytes@.len() == RANDOM_BYTES_LENGTH
                    &&& v@ == (RandomView { gmt_unix_time, random_bytes: random_bytes@ })
                    &&& v.wf()
                },
                Err(e) => {
                    &&& random_bytes@.len() != RANDOM_BYTES_LENGTH
                    &&& e == DtlsError::OutOfRange
                },
            },
    {
        if random_bytes.len() != RANDOM_BYTES_LENGTH {
            Err(DtlsError::OutOfRange)
        } else {
            Ok(Self { gmt_unix_time, random_bytes })
        }
    }

    pub fn decode(reader: &mut BufReader) -> (r: Result<Self, DtlsError>)
        requires
            old(reader).wf(),
        ensures
            final(reader).wf(),
            final(reader).bytes() == old(reader).bytes(),
            match r {
                Ok(v) => {
                    &&& dec_random(old(reader).bytes(), old(reader).cur())
                        == Ok::<(RandomView, int), DtlsError>((v@, final(reader).cur()))
                    &&& v.wf()
                },
                Err(e) => dec_random(old(reader).bytes(), old(reader).cur()) == Err::<
                    (RandomView, int),
                    DtlsError,
                >(e),
            },
    {
        let gmt_unix_time = reader.read_u32()?;
        let random_bytes = reader.read_exact(RANDOM_BYTES_LENGTH)?;
        Ok(Self { gmt_unix_time, random_bytes })
    }

    pub fn encode(&self, writer: &mut BufWriter)
        requires
            self.wf(),
        ensures
            final(writer)@ == old(writer)@ + enc_random(self@),
    {
        writer.write_u32(self.gmt_unix_time);
        writer.write_bytes(self.random_bytes.as_slice());
        assert(writer@ =~= old(writer)@ + enc_random(self@));
    }

    /// The 32 wire bytes of this Random.
    pub fn to_bytes(&self) -> (r: Vec<u8>)
        requires
            self.wf(),
        ensures
            r@ == enc_random(self@),
    {
        let mut writer = BufWriter::new();
        self.encode(&mut writer);
        let out = writer.buf();
        proof {
            assert(out@ =~= enc_random(self@));
        }
        out
    }
}

/// Decoding the encoding of a well-formed Random yields it back,
/// consuming exactly its 32 bytes.
pub proof fn lemma_random_round_trip(r: RandomView)
    requires
        r.wf(),
    ensures
        enc_random(r).len() == 32,
        dec_random(enc_random(r), 0) == Ok::<(RandomView, int), DtlsError>((r, 32)),
{
    let s = enc_random(r);
    lemma_u32_be_round_trip(r.gmt_unix_time as int);
    assert(be4(s, 0) == be4(u32_be(r.gmt_unix_time as int), 0));
    assert(s.subrange(4, 32) =~= r.random_bytes);
    assert(dec_random(s, 0) == Ok::<(RandomView, int), DtlsError>((r, 32)));
}

} // verus!
