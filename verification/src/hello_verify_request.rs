//! HelloVerifyRequest: the cookie challenge the server answers a first
//! ClientHello with. Its cookie is exactly 20 bytes; decoding rejects any
//! other length.

use vstd::prelude::*;
use crate::buffer::{be2, u16_be, BufReader, BufWriter};
use crate::buffer::lemma_u16_be_round_trip;
use crate::common::{Cookie, COOKIE_LENGTH};
use crate::errors::DtlsError;
use crate::handshake::{HandshakeMessage, HandshakeType};
use crate::record_header::{is_version_word, version_of, DtlsVersion};

verus! {

/// The mathematical value of a HelloVerifyRequest.
#[verifier::ext_equal]
pub struct HelloVerifyRequestView {
    pub version: DtlsVersion,
    pub cookie: Seq<u8>,
}

impl HelloVerifyRequestView {
    pub open spec fn wf(&self) -> bool {
        self.version.wf() && self.cookie.len() == COOKIE_LENGTH
    }
}

/// The wire form of a HelloVerifyRequest: version, cookie length, cookie.
pub open spec fn enc_hello_verify_request(v: HelloVerifyRequestView) -> Seq<u8>
    recommends v.wf(),
{
    u16_be(v.version.spec_to_u16() as int) + seq![v.cookie.len() as u8] + v.cookie
}

/// Decode a HelloVerifyRequest from `s` at position `i`.
pub open spec fn dec_hello_verify_request(s: Seq<u8>, i: int) -> Result<
    (HelloVerifyRequestView, int),
    DtlsError,
>
    recommends 0 <= i <= s.len(),
{
    if s.len() - i < 2 {
        Err(DtlsError::OutOfRange)
    } else if !is_version_word(be2(s, i)) {
        Err(DtlsError::UnknownVersion)
    } else if s.len() - i < 3 {
        Err(DtlsError::OutOfRange)
    } else if s.len() - i < 3 + s[i + 2] {
        Err(DtlsError::OutOfRange)
    } else if s[i + 2] != COOKIE_LENGTH {
        Err(DtlsError::BadCookieLength)
    } else {
        Ok(
            (
                HelloVerifyRequestView {
                    version: version_of(be2(s, i)),
                    cookie: s.subrange(i + 3, i + 3 + s[i + 2]),
                },
                i + 3 + s[i + 2],
            ),
        )
    }
}

/// The server's cookie challenge.
#[derive(Debug, Clone)]
pub struct HelloVerifyRequest {
    pub version: DtlsVersion,
    pub cookie: Cookie,
}

impl View for HelloVerifyRequest {
    type V = HelloVerifyRequestView;

    open spec fn view(&self) -> HelloVerifyRequestView {
        HelloVerifyRequestView { version: self.version, cookie: self.cookie.0@ }
    }
}

impl HelloVerifyRequest {
    pub open spec fn wf(&self) -> bool {
        self@.wf()
    }

    /// A challenge for `version` with a fresh random 20-byte cookie.
    pub fn new(version: DtlsVersion) -> (r: Self)
        requires
            version.wf(),
        ensures
            r.wf(),
            r@.version == version,
    {
        Self { version, cookie: Cookie::new() }
    }

    /// A challenge carrying an already-issued cookie.
    pub fn with_cookie(version: DtlsVersion, cookie: Cookie) -> (r: Self)
        requires
            version.wf(),
            cookie.wf(),
        ensures
            r.wf(),
            r@ == (HelloVerifyRequestView { version, cookie: cookie.0@ }),
    {
        Self { version, cookie }
    }

    pub fn decode(reader: &mut BufReader) -> (r: Result<Self, DtlsError>)
        requires
            old(reader).wf(),
        ensures
            final(reader).wf(),
            final(reader).bytes() == old(reader).bytes(),
            match r {
                Ok(v) => {
                    &&& dec_hello_verify_request(old(reader).bytes(), old(reader).cur())
                        == Ok::<(HelloVerifyRequestView, int), DtlsError>((v@, final(reader).cur()))
                    &&& v.wf()
                },
                Err(e) => dec_hello_verify_request(old(reader).bytes(), old(reader).cur()) == Err::<
                    (HelloVerifyRequestView, int),
                    DtlsError,
                >(e),
            },
    {
        let version_word = reader.read_u16()?;
        let version = DtlsVersion::try_from_u16(version_word)?;
        let cookie_length = reader.read_u8()?;
        let cookie_buf = reader.read_exact(cookie_length as usize)?;
        let cookie = Cookie::from_bytes(cookie_buf)?;
        Ok(Self { version, cookie })
    }

    pub fn encode(&self, writer: &mut BufWriter)
        requires
            self.wf(),
        ensures
            final(writer)@ == old(writer)@ + enc_hello_verify_request(self@),
    {
        self.version.encode(writer);
        writer.write_u8(self.cookie.0.len() as u8);
        writer.write_bytes(self.cookie.0.as_slice());
        assert(writer@ =~= old(writer)@ + enc_hello_verify_request(self@));
    }
}

impl HandshakeMessage for HelloVerifyRequest {
    open spec fn wf(&self) -> bool {
        self@.wf()
    }

    open spec fn spec_type(&self) -> HandshakeType {
        HandshakeType::HelloVerifyRequest
    }

    open spec fn spec_enc(&self) -> Seq<u8> {
        enc_hello_verify_request(self@)
    }

    fn get_handshake_type(&self) -> (t: HandshakeType) {
        HandshakeType::HelloVerifyRequest
    }

    fn encode(&self, writer: &mut BufWriter) {
        HelloVerifyRequest::encode(self, writer)
    }
}

/// Decoding the encoding of a well-formed HelloVerifyRequest yields it
/// back, consuming exactly its 23 bytes.
pub proof fn lemma_hello_verify_request_round_trip(v: HelloVerifyRequestView)
    requires
        v.wf(),
    ensures
        enc_hello_verify_request(v).len() == 23,
        dec_hello_verify_request(enc_hello_verify_request(v), 0) == Ok::<
            (HelloVerifyRequestView, int),
            DtlsError,
        >((v, 23)),
{
    let s = enc_hello_verify_request(v);
    lemma_u16_be_round_trip(v.version.spec_to_u16() as int);
    assert(be2(s, 0) == be2(u16_be(v.version.spec_to_u16() as int), 0));
    assert(s[2] == 20);
    assert(s.subrange(3, 23) =~= v.cookie);
}

} // verus!
