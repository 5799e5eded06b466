//! ServerHello: the server's choice of version, random, cipher suite and
//! compression method. Resumption is disabled, so its session id is empty
//! and no extensions are sent.

use vstd::prelude::*;
use crate::buffer::{be2, u16_be, BufReader, BufWriter};
use crate::buffer::lemma_u16_be_round_trip;
use crate::common::{CipherSuiteId, CompressionMethodId};
use crate::errors::DtlsError;
use crate::handshake::{HandshakeMessage, HandshakeType};
use crate::random::{dec_random, enc_random, lemma_random_round_trip, Random, RandomView};
use crate::record_header::{is_version_word, version_of, DtlsVersion};

verus! {

/// A session id never exceeds 32 bytes.
pub const MAX_SESSION_ID_LENGTH: usize = 32;

/// The mathematical value of a ServerHello.
#[verifier::ext_equal]
pub struct ServerHelloView {
    pub version: DtlsVersion,
    pub random: RandomView,
    pub session_id: Seq<u8>,
    pub cipher_suite_id: CipherSuiteId,
    pub compression_method_id: CompressionMethodId,
}

impl ServerHelloView {
    pub open spec fn wf(&self) -> bool {
        self.version.wf() && self.random.wf() && self.session_id.len() <= MAX_SESSION_ID_LENGTH
    }
}

/// The wire form of a ServerHello: version, random, session id with its
/// u8 length, chosen cipher suite, chosen compression method.
pub open spec fn enc_server_hello(v: ServerHelloView) -> Seq<u8>
    recommends v.wf(),
{
    u16_be(v.version.spec_to_u16() as int) + enc_random(v.random) + seq![v.session_id.len() as u8]
        + v.session_id + u16_be(v.cipher_suite_id.spec_to_u16() as int) + seq![
        v.compression_method_id.spec_to_u8(),
    ]
}

/// Decode a ServerHello from `s` at position `i`.
pub open spec fn dec_server_hello(s: Seq<u8>, i: int) -> Result<(ServerHelloView, int), DtlsError>
    recommends 0 <= i <= s.len(),
{
    if s.len() - i < 2 {
        Err(DtlsError::OutOfRange)
    } else if !is_version_word(be2(s, i)) {
        Err(DtlsError::UnknownVersion)
    } else {
        match dec_random(s, i + 2) {
            Err(e) => Err(e),
            Ok((random, j)) => if s.len() - j < 1 {
                Err(DtlsError::OutOfRange)
            } else if s.len() - (j + 1) < s[j] {
                Err(DtlsError::OutOfRange)
            } else if s[j] > MAX_SESSION_ID_LENGTH {
                Err(DtlsError::LengthMismatch)
            } else {
                let k = j + 1 + s[j];
                if s.len() - k < 3 {
                    Err(DtlsError::OutOfRange)
                } else {
                    Ok(
                        (
                            ServerHelloView {
                                version: version_of(be2(s, i)),
                                random,
                                session_id: s.subrange(j + 1, k),
                                cipher_suite_id: CipherSuiteId::spec_from_u16(be2(s, k) as u16),
                                compression_method_id: CompressionMethodId::spec_from_u8(s[k + 2]),
                            },
                            k + 3,
                        ),
                    )
                }
            },
        }
    }
}

/// The server's hello message.
#[derive(Debug, Clone)]
pub struct ServerHello {
    pub version: DtlsVersion,
    pub random: Random,
    pub session_id: Vec<u8>,
    pub cipher_suite_id: CipherSuiteId,
    pub compression_method_id: CompressionMethodId,
}

impl View for ServerHello {
    type V = ServerHelloView;

    open spec fn view(&self) -> ServerHelloView {
        ServerHelloView {
            version: self.version,
            random: self.random@,
            session_id: self.session_id@,
            cipher_suite_id: self.cipher_suite_id,
            compression_method_id: self.compression_method_id,
        }
    }
}

impl ServerHello {
    pub open spec fn wf(&self) -> bool {
        self@.wf()
    }

    /// The hello this engine always sends: empty session id, the AES-128-GCM
    /// ECDHE_ECDSA suite, null compression.
    pub fn new(version: DtlsVersion, random: Random) -> (r: Self)
        requires
            version.wf(),
            random.wf(),
        ensures
            r.wf(),
            r@ == (ServerHelloView {
                version,
                random: random@,
                session_id: Seq::<u8>::empty(),
                cipher_suite_id: CipherSuiteId::TlsEcdheEcdsaWithAes128GcmSha256,
                compression_method_id: CompressionMethodId::Null,
            }),
    {
        Self {
            version,
            random,
            session_id: Vec::new(),
            cipher_suite_id: CipherSuiteId::TlsEcdheEcdsaWithAes128GcmSha256,
            compression_method_id: CompressionMethodId::Null,
        }
    }

    pub fn decode(reader: &mut BufReader) -> (r: Result<Self, DtlsError>)
        requires
            old(reader).wf(),
        ensures
            final(reader).wf(),
            final(reader).bytes() == old(reader).bytes(),
            match r {
                Ok(v) => {
                    &&& dec_server_hello(old(reader).bytes(), old(reader).cur())
                        == Ok::<(ServerHelloView, int), DtlsError>((v@, final(reader).cur()))
                    &&& v.wf()
                },
                Err(e) => dec_server_hello(old(reader).bytes(), old(reader).cur()) == Err::<
                    (ServerHelloView, int),
                    DtlsError,
                >(e),
            },
    {
        let version_word = reader.read_u16()?;
        let version = DtlsVersion::try_from_u16(version_word)?;
        let random = Random::decode(reader)?;
        let session_id_length = reader.read_u8()?;
        let session_id = reader.read_exact(session_id_length as usize)?;
        if session_id_length as usize > MAX_SESSION_ID_LENGTH {
            return Err(DtlsError::LengthMismatch);
        }
        let suite_word = reader.read_u16()?;
        let compression_byte = reader.read_u8()?;
        Ok(
            Self {
                version,
                random,
                session_id,
                cipher_suite_id: CipherSuiteId::from_u16(suite_word),
                compression_method_id: CompressionMethodId::from_u8(compression_byte),
            },
        )
    }

    pub fn encode(&self, writer: &mut BufWriter)
        requires
            self.wf(),
        ensures
            final(writer)@ == old(writer)@ + enc_server_hello(self@),
    {
        self.version.encode(writer);
        self.random.encode(writer);
        writer.write_u8(self.session_id.len() as u8);
        writer.write_bytes(self.session_id.as_slice());
        writer.write_u16(self.cipher_suite_id.to_u16());
        writer.write_u8(self.compression_method_id.to_u8());
        assert(writer@ =~= old(writer)@ + enc_server_hello(self@));
    }
}

impl HandshakeMessage for ServerHello {
    open spec fn wf(&self) -> bool {
        self@.wf()
    }

    open spec fn spec_type(&self) -> HandshakeType {
        HandshakeType::ServerHello
    }

    open spec fn spec_enc(&self) -> Seq<u8> {
        enc_server_hello(self@)
    }

    fn get_handshake_type(&self) -> (t: HandshakeType) {
        HandshakeType::ServerHello
    }

    fn encode(&self, writer: &mut BufWriter) {
        ServerHello::encode(self, writer)
    }
}

/// Decoding the encoding of a well-formed ServerHello yields it back,
/// consuming exactly its bytes.
pub proof fn lemma_server_hello_round_trip(v: ServerHelloView)
    requires
        v.wf(),
    ensures
        enc_server_hello(v).len() == 38 + v.session_id.len(),
        dec_server_hello(enc_server_hello(v), 0) == Ok::<(ServerHelloView, int), DtlsError>(
            (v, 38 + v.session_id.len() as int),
        ),
{
    let s = enc_server_hello(v);
    let n = v.session_id.len() as int;
    lemma_u16_be_round_trip(v.version.spec_to_u16() as int);
    lemma_random_round_trip(v.random);
    lemma_u16_be_round_trip(v.cipher_suite_id.spec_to_u16() as int);
    assert(be2(s, 0) == be2(u16_be(v.version.spec_to_u16() as int), 0));
    assert(s.subrange(2, 34) =~= enc_random(v.random));
    assert(dec_random(s, 2) == Ok::<(RandomView, int), DtlsError>((v.random, 34))) by {
        assert(dec_random(s, 2) == Ok::<(RandomView, int), DtlsError>(
            (
                RandomView {
                    gmt_unix_time: crate::buffer::be4(s, 2) as u32,
                    random_bytes: s.subrange(6, 34),
                },
                34,
            ),
        ));
        assert(s.subrange(6, 34) =~= v.random.random_bytes);
        assert(crate::buffer::be4(s, 2) == crate::buffer::be4(enc_random(v.random), 0));
    }
    assert(s[34] == n as u8);
    assert(s.subrange(35, 35 + n) =~= v.session_id);
    assert(be2(s, 35 + n) == be2(u16_be(v.cipher_suite_id.spec_to_u16() as int), 0));
    assert(s[35 + n + 2] == v.compression_method_id.spec_to_u8());
}

} // verus!
