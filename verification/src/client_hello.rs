//! ClientHello: version, random, session id, cookie, the offered cipher
//! suites and compression methods, and an opaque extensions block that is
//! tolerated and carried through unchanged.

use vstd::prelude::*;
use crate::buffer::{be2, u16_be, BufReader, BufWriter};
use crate::buffer::lemma_u16_be_of_be2;
use crate::buffer::lemma_u32_be_of_be4;
use crate::errors::DtlsError;
use crate::random::{dec_random, enc_random, Random, RandomView};
use crate::record_header::{is_version_word, version_of, DtlsVersion};

verus! {

/// Session ids and cookies in a ClientHello never exceed 32 bytes.
pub const MAX_OPAQUE_FIELD_LENGTH: usize = 32;

/// The mathematical value of a ClientHello.
#[verifier::ext_equal]
pub struct ClientHelloView {
    pub version: DtlsVersion,
    pub random: RandomView,
    pub session_id: Seq<u8>,
    pub cookie: Seq<u8>,
    pub cipher_suite_ids: Seq<u16>,
    pub compression_method_ids: Seq<u8>,
    pub extensions: Seq<u8>,
}

impl ClientHelloView {
    pub open spec fn wf(&self) -> bool {
        &&& self.version.wf()
        &&& self.random.wf()
        &&& self.session_id.len() <= MAX_OPAQUE_FIELD_LENGTH
        &&& self.cookie.len() <= MAX_OPAQUE_FIELD_LENGTH
        &&& 2 * self.cipher_suite_ids.len() <= 0xffff
        &&& self.compression_method_ids.len() <= 255
    }
}

/// The suite words, two big-endian bytes each.
pub open spec fn enc_suites(ids: Seq<u16>) -> Seq<u8> {
    Seq::new(
        2 * ids.len(),
        |k: int|
            if k % 2 == 0 {
                (ids[k / 2] / 0x100) as u8
            } else {
                (ids[k / 2] % 0x100) as u8
            },
    )
}

/// The wire form of a ClientHello.
pub open spec fn enc_client_hello(v: ClientHelloView) -> Seq<u8>
    recommends v.wf(),
{
    u16_be(v.version.spec_to_u16() as int) + enc_random(v.random) + seq![v.session_id.len() as u8]
        + v.session_id + seq![v.cookie.len() as u8] + v.cookie + u16_be(
        2 * v.cipher_suite_ids.len() as int,
    ) + enc_suites(v.cipher_suite_ids) + seq![v.compression_method_ids.len() as u8]
        + v.compression_method_ids + v.extensions
}

/// Decode a ClientHello from `s` at position `i`. Everything after the
/// compression methods is the extensions block, taken opaquely, so a
/// successful decode always consumes the rest of `s`.
pub open spec fn dec_client_hello(s: Seq<u8>, i: int) -> Result<(ClientHelloView, int), DtlsError>
    recommends 0 <= i <= s.len(),
{
    if s.len() - i < 2 {
        Err(DtlsError::OutOfRange)
    } else if !is_version_word(be2(s, i)) {
        Err(DtlsError::UnknownVersion)
    } else {
        match dec_random(s, i + 2) {
            Err(e) => Err(e),
            Ok((random, j)) => if s.len() - j < 1 {
                Err(DtlsError::OutOfRange)
            } else if s.len() - (j + 1) < s[j] {
                Err(DtlsError::OutOfRange)
            } else if s[j] > MAX_OPAQUE_FIELD_LENGTH {
                Err(DtlsError::LengthMismatch)
            } else {
                let j1 = j + 1 + s[j];
                if s.len() - j1 < 1 {
                    Err(DtlsError::OutOfRange)
                } else if s.len() - (j1 + 1) < s[j1] {
                    Err(DtlsError::OutOfRange)
                } else if s[j1] > MAX_OPAQUE_FIELD_LENGTH {
                    Err(DtlsError::LengthMismatch)
                } else {
                    let j2 = j1 + 1 + s[j1];
                    if s.len() - j2 < 2 {
                        Err(DtlsError::OutOfRange)
                    } else if be2(s, j2) % 2 != 0 {
                        Err(DtlsError::LengthMismatch)
                    } else if s.len() - (j2 + 2) < be2(s, j2) {
                        Err(DtlsError::OutOfRange)
                    } else {
                        let j3 = j2 + 2 + be2(s, j2);
                        if s.len() - j3 < 1 {
                            Err(DtlsError::OutOfRange)
                        } else if s.len() - (j3 + 1) < s[j3] {
                            Err(DtlsError::OutOfRange)
                        } else {
                            let j4 = j3 + 1 + s[j3];
                            Ok(
                                (
                                    ClientHelloView {
                                        version: version_of(be2(s, i)),
                                        random,
                                        session_id: s.subrange(j + 1, j1),
                                        cookie: s.subrange(j1 + 1, j2),
                                        cipher_suite_ids: Seq::new(
                                            (be2(s, j2) / 2) as nat,
                                            |k: int| be2(s, j2 + 2 + 2 * k) as u16,
                                        ),
                                        compression_method_ids: s.subrange(j3 + 1, j4),
                                        extensions: s.subrange(j4, s.len() as int),
                                    },
                                    s.len() as int,
                                ),
                            )
                        }
                    }
                }
            },
        }
    }
}

/// A peer's hello message.
#[derive(Debug, Clone)]
pub struct ClientHello {
    pub version: DtlsVersion,
    pub random: Random,
    pub session_id: Vec<u8>,
    pub cookie: Vec<u8>,
    pub cipher_suite_ids: Vec<u16>,
    pub compression_method_ids: Vec<u8>,
    pub extensions: Vec<u8>,
}

impl View for ClientHello {
    type V = ClientHelloView;

    open spec fn view(&self) -> ClientHelloView {
        ClientHelloView {
            version: self.version,
            random: self.random@,
            session_id: self.session_id@,
            cookie: self.cookie@,
            cipher_suite_ids: self.cipher_suite_ids@,
            compression_method_ids: self.compression_method_ids@,
            extensions: self.extensions@,
        }
    }
}

impl ClientHello {
    pub open spec fn wf(&self) -> bool {
        self@.wf()
    }

    #[verifier::loop_isolation(false)]
    pub fn decode(reader: &mut BufReader) -> (r: Result<Self, DtlsError>)
        requires
            old(reader).wf(),
        ensures
            final(reader).wf(),
            final(reader).bytes() == old(reader).bytes(),
            match r {
                Ok(v) => {
                    &&& dec_client_hello(old(reader).bytes(), old(reader).cur())
                        == Ok::<(ClientHelloView, int), DtlsError>((v@, final(reader).cur()))
                    &&& v.wf()
                },
                Err(e) => dec_client_hello(old(reader).bytes(), old(reader).cur()) == Err::<
                    (ClientHelloView, int),
                    DtlsError,
                >(e),
            },
    {
        let ghost s = old(reader).bytes();
        let ghost i = old(reader).cur();
        let version_word = reader.read_u16()?;
        let version = DtlsVersion::try_from_u16(version_word)?;
        let random = Random::decode(reader)?;
        let session_id_length = reader.read_u8()?;
        let session_id = reader.read_exact(session_id_length as usize)?;
        if session_id_length as usize > MAX_OPAQUE_FIELD_LENGTH {
            return Err(DtlsError::LengthMismatch);
        }
        let cookie_length = reader.read_u8()?;
        let cookie = reader.read_exact(cookie_length as usize)?;
        if cookie_length as usize > MAX_OPAQUE_FIELD_LENGTH {
            return Err(DtlsError::LengthMismatch);
        }
        let ghost j2 = reader.cur();
        let suites_byte_len = reader.read_u16()?;
        if suites_byte_len % 2 != 0 {
            return Err(DtlsError::LengthMismatch);
        }
        let suite_count = (suites_byte_len / 2) as usize;
        if reader.remaining_count() < suites_byte_len as usize {
            return Err(DtlsError::OutOfRange);
        }
        let mut cipher_suite_ids: Vec<u16> = Vec::new();
        let mut k: usize = 0;
        while k < suite_count
            invariant
                reader.wf(),
                reader.bytes() == s,
                k <= suite_count,
                reader.cur() == j2 + 2 + 2 * k,
                cipher_suite_ids@.len() == k,
                forall|t: int|
                    0 <= t < k ==> cipher_suite_ids@[t] == be2(s, j2 + 2 + 2 * t) as u16,
            decreases suite_count - k,
        {
            let word = reader.read_u16()?;
            cipher_suite_ids.push(word);
            k = k + 1;
        }
        let compression_count = reader.read_u8()?;
        let ghost j3 = reader.cur() - 1;
        let compression_method_ids = reader.read_exact(compression_count as usize)?;
        let rest = reader.remaining_count();
        let extensions = reader.read_exact(rest)?;
        let r = Self {
            version,
            random,
            session_id,
            cookie,
            cipher_suite_ids,
            compression_method_ids,
            extensions,
        };
        proof {
            assert(r@.cipher_suite_ids =~= Seq::new(
                (be2(s, j2) / 2) as nat,
                |k: int| be2(s, j2 + 2 + 2 * k) as u16,
            ));
            assert(r@.extensions =~= s.subrange(
                j3 + 1 + s[j3],
                s.len() as int,
            ));
        }
        Ok(r)
    }

    pub fn encode(&self, writer: &mut BufWriter)
        requires
            self.wf(),
        ensures
            final(writer)@ == old(writer)@ + enc_client_hello(self@),
    {
        self.version.encode(writer);
        self.random.encode(writer);
        writer.write_u8(self.session_id.len() as u8);
        writer.write_bytes(self.session_id.as_slice());
        writer.write_u8(self.cookie.len() as u8);
        writer.write_bytes(self.cookie.as_slice());
        writer.write_u16((2 * self.cipher_suite_ids.len()) as u16);
        let ghost mid = writer@;
        let n = self.cipher_suite_ids.len();
        let mut k: usize = 0;
        while k < n
            invariant
                k <= n,
                n == self.cipher_suite_ids@.len(),
                writer@ == mid + enc_suites(self.cipher_suite_ids@.take(k as int)),
            decreases n - k,
        {
            writer.write_u16(self.cipher_suite_ids[k]);
            k = k + 1;
            assert(writer@ =~= mid + enc_suites(self.cipher_suite_ids@.take(k as int)));
        }
        proof {
            assert(enc_suites(self.cipher_suite_ids@.take(n as int)) =~= enc_suites(
                self.cipher_suite_ids@,
            ));
        }
        writer.write_u8(self.compression_method_ids.len() as u8);
        writer.write_bytes(self.compression_method_ids.as_slice());
        writer.write_bytes(self.extensions.as_slice());
        assert(writer@ =~= old(writer)@ + enc_client_hello(self@));
    }
}

/// Re-encoding a decoded ClientHello whose extensions block is empty
/// reproduces the input bytes exactly.
pub proof fn lemma_client_hello_encode_decode(s: Seq<u8>, v: ClientHelloView, n: int)
    requires
        dec_client_hello(s, 0) == Ok::<(ClientHelloView, int), DtlsError>((v, n)),
        v.extensions.len() == 0,
    ensures
        n == s.len(),
        enc_client_hello(v) == s,
{
    let j = 34;
    let sid = s[j] as int;
    let j1 = j + 1 + sid;
    let ck = s[j1] as int;
    let j2 = j1 + 1 + ck;
    let sl = be2(s, j2);
    let j3 = j2 + 2 + sl;
    let nc = s[j3] as int;
    let j4 = j3 + 1 + nc;
    lemma_u16_be_of_be2(s, 0);
    assert(v.version.spec_to_u16() == be2(s, 0));
    lemma_u32_be_of_be4(s, 2);
    assert(enc_random(v.random) =~= s.subrange(2, 34)) by {
        assert(v.random.random_bytes == s.subrange(6, 34));
        assert(v.random.gmt_unix_time == crate::buffer::be4(s, 2));
    }
    assert(v.session_id.len() == sid);
    assert(v.cookie.len() == ck);
    assert(2 * v.cipher_suite_ids.len() == sl);
    assert(v.compression_method_ids.len() == nc);
    assert(v.extensions.len() == 0);
    assert(n == s.len());
    assert(j4 == s.len());
    lemma_u16_be_of_be2(s, j2);
    assert(enc_suites(v.cipher_suite_ids) =~= s.subrange(j2 + 2, j3)) by {
        assert forall|k: int| 0 <= k < sl implies enc_suites(v.cipher_suite_ids)[k] == s[j2 + 2
            + k] by {
            let t = k / 2;
            assert(v.cipher_suite_ids[t] == be2(s, j2 + 2 + 2 * t) as u16);
            if k % 2 == 0 {
                assert(k == 2 * t);
                assert(be2(s, j2 + 2 + 2 * t) / 0x100 == s[j2 + 2 + 2 * t]);
            } else {
                assert(k == 2 * t + 1);
                assert(be2(s, j2 + 2 + 2 * t) % 0x100 == s[j2 + 2 + 2 * t + 1]);
            }
        }
    }
    assert(enc_client_hello(v) =~= s) by {
        assert(u16_be(v.version.spec_to_u16() as int) =~= seq![s[0], s[1]]);
        assert(v.session_id == s.subrange(j + 1, j1));
        assert(v.cookie == s.subrange(j1 + 1, j2));
        assert(u16_be(2 * v.cipher_suite_ids.len() as int) =~= seq![s[j2], s[j2 + 1]]);
        assert(v.compression_method_ids == s.subrange(j3 + 1, j4));
    }
}

} // verus!
