//! The per-peer handshake state machine: flight progression, sequence and
//! epoch counters, the cookie challenge, and the assembly of the server's
//! flight of five records.

use vstd::prelude::*;
use crate::buffer::{copy_bytes, BufWriter};
use crate::certificate::{enc_cert_entry, enc_cert_list, enc_certificate, Certificate};
use crate::common::{bytes_eq, CipherSuiteId, Cookie, COOKIE_LENGTH};
use crate::errors::DtlsError;
use crate::crypto::random_bytes;
use crate::handshake::{
    enc_handshake_header, HandshakeHeader, HandshakeMessage, HandshakeType, MAX_U24,
};
use crate::hello_verify_request::{enc_hello_verify_request, HelloVerifyRequest,
    HelloVerifyRequestView};
use crate::client_hello::ClientHello;
use crate::random::Random;
use crate::record_header::{
    enc_record_header, ContentType, DtlsVersion, RecordHeader, MAX_SEQUENCE_NUMBER,
};
use crate::server_hello::{enc_server_hello, ServerHello, ServerHelloView};
use crate::server_hello_done::{enc_server_hello_done, ServerHelloDone};
use crate::server_key_exchange::{is_ske_body, ServerKeyExchange};
use crate::certificate_request::{enc_certificate_request, CertificateRequest};

verus! {

/// The largest certificate this engine will place in a record.
pub const MAX_CERT_DER_LENGTH: usize = 16384;

/// The X25519 ephemeral public key carried in ServerKeyExchange is 32 bytes.
pub const EPHEMERAL_KEY_LENGTH: usize = 32;

// ---------------------------------------------------------------------------
// Flight state
// ---------------------------------------------------------------------------

/// The cookie a peer must echo, held while the peer is between the
/// challenge and its second ClientHello.
#[derive(Debug, Clone)]
pub struct Flight2Context {
    cookie: Vec<u8>,
}

impl Flight2Context {
    /// The issued cookie.
    pub closed spec fn spec_cookie(&self) -> Seq<u8> {
        self.cookie@
    }

    pub open spec fn wf(&self) -> bool {
        self.spec_cookie().len() == COOKIE_LENGTH
    }

    /// A context holding a fresh random 20-byte cookie.
    pub fn new() -> (r: Self)
        ensures
            r.wf(),
    {
        Self { cookie: random_bytes(COOKIE_LENGTH) }
    }

    /// A context holding an already-issued cookie.
    pub fn with_cookie(cookie: Vec<u8>) -> (r: Self)
        requires
            cookie@.len() == COOKIE_LENGTH,
        ensures
            r.wf(),
            r.spec_cookie() == cookie@,
    {
        Self { cookie }
    }

    /// A copy of the issued cookie.
    pub fn cookie(&self) -> (r: Vec<u8>)
        ensures
            r@ == self.spec_cookie(),
    {
        copy_bytes(self.cookie.as_slice())
    }

    /// Whether `echoed` equals the issued cookie, compared without an
    /// early exit on the first differing byte.
    pub fn matches(&self, echoed: &[u8]) -> (r: bool)
        ensures
            r == (echoed@ == self.spec_cookie()),
    {
        bytes_eq(echoed, self.cookie.as_slice())
    }
}

/// Where a peer stands in the handshake.
#[derive(Debug, Clone)]
pub enum HandshakeFlightContext {
    /// Nothing issued yet.
    Flight0,
    /// A cookie has been issued and awaits its echo.
    Flight2(Flight2Context),
    /// The server flight has been sent; client authentication is awaited.
    Flight4,
    /// A fatal error ended the handshake.
    Failed,
}

impl HandshakeFlightContext {
    pub open spec fn wf(&self) -> bool {
        match self {
            HandshakeFlightContext::Flight2(ctx) => ctx.wf(),
            _ => true,
        }
    }

    pub open spec fn is_flight0(&self) -> bool {
        match self {
            HandshakeFlightContext::Flight0 => true,
            _ => false,
        }
    }

    pub open spec fn is_flight2(&self) -> bool {
        match self {
            HandshakeFlightContext::Flight2(_) => true,
            _ => false,
        }
    }

    pub open spec fn is_flight4(&self) -> bool {
        match self {
            HandshakeFlightContext::Flight4 => true,
            _ => false,
        }
    }

    /// The issued cookie, where one is held.
    pub open spec fn flight2_cookie(&self) -> Seq<u8>
        recommends self.is_flight2(),
    {
        match self {
            HandshakeFlightContext::Flight2(ctx) => ctx.spec_cookie(),
            _ => Seq::empty(),
        }
    }
}

// ---------------------------------------------------------------------------
// Peer session
// ---------------------------------------------------------------------------

/// Everything the engine keeps about one peer: flight state, counters,
/// the hello randoms, the running handshake transcript, and what the peer
/// has sent of its own flight.
#[derive(Debug)]
pub struct PeerSession {
    pub peer: u64,
    pub flight: HandshakeFlightContext,
    pub message_seq: u16,
    pub record_seq: u64,
    pub epoch: u16,
    pub client_random: Option<Random>,
    pub server_random: Option<Random>,
    pub transcript: Vec<u8>,
    pub chosen_suite: Option<CipherSuiteId>,
    pub peer_public_key: Option<Vec<u8>>,
    pub peer_cert_chain: Option<Vec<Vec<u8>>>,
}

impl PeerSession {
    pub open spec fn wf(&self) -> bool {
        &&& self.flight.wf()
        &&& self.record_seq <= MAX_SEQUENCE_NUMBER
        &&& match self.client_random {
            Some(r) => r.wf(),
            None => true,
        }
        &&& match self.server_random {
            Some(r) => r.wf(),
            None => true,
        }
    }

    /// A fresh session for `peer`, created on its first well-formed
    /// ClientHello: Flight0, both counters zero, epoch zero.
    pub fn new(peer: u64) -> (r: Self)
        ensures
            r.wf(),
            r.peer == peer,
            r.flight.is_flight0(),
            r.message_seq == 0,
            r.record_seq == 0,
            r.epoch == 0,
            r.client_random is None,
            r.server_random is None,
            r.transcript@ == Seq::<u8>::empty(),
            r.chosen_suite is None,
            r.peer_public_key is None,
            r.peer_cert_chain is None,
    {
        Self {
            peer,
            flight: HandshakeFlightContext::Flight0,
            message_seq: 0,
            record_seq: 0,
            epoch: 0,
            client_random: None,
            server_random: None,
            transcript: Vec::new(),
            chosen_suite: None,
            peer_public_key: None,
            peer_cert_chain: None,
        }
    }

    /// Enter the next epoch: the record sequence number restarts at zero.
    pub fn increment_epoch(&mut self)
        requires
            old(self).wf(),
            old(self).epoch < 0xffff,
        ensures
            final(self).wf(),
            final(self).epoch == old(self).epoch + 1,
            final(self).record_seq == 0,
            final(self).flight == old(self).flight,
            final(self).message_seq == old(self).message_seq,
            final(self).peer == old(self).peer,
            final(self).transcript == old(self).transcript,
    {
        self.epoch = self.epoch + 1;
        self.record_seq = 0;
    }
}

// ---------------------------------------------------------------------------
// Record framing
// ---------------------------------------------------------------------------

/// The bytes of one handshake message: its 12-byte header, unfragmented,
/// then its body.
pub open spec fn handshake_message_bytes(t: HandshakeType, msg_seq: u16, body: Seq<u8>) -> Seq<u8>
    recommends body.len() <= MAX_U24,
{
    enc_handshake_header(
        HandshakeHeader {
            handshake_type: t,
            length: body.len() as u32,
            message_seq: msg_seq,
            fragment_offset: 0,
            fragment_length: body.len() as u32,
        },
    ) + body
}

/// The bytes of one record in epoch `epoch` with sequence number
/// `rec_seq`, framing a handshake message as its payload.
pub open spec fn handshake_record_bytes(
    epoch: u16,
    rec_seq: u64,
    t: HandshakeType,
    msg_seq: u16,
    body: Seq<u8>,
) -> Seq<u8>
    recommends
        body.len() + 12 <= 0xffff,
        rec_seq <= MAX_SEQUENCE_NUMBER,
{
    enc_record_header(
        RecordHeader {
            content_type: ContentType::Handshake,
            version: DtlsVersion { major: 1, minor: 2 },
            epoch,
            sequence_number: rec_seq,
            length: (body.len() + 12) as u16,
        },
    ) + handshake_message_bytes(t, msg_seq, body)
}

/// The datagram of a HelloVerifyRequest carrying `cookie`, always sent
/// with message_seq 0.
pub open spec fn hvr_datagram(epoch: u16, rec_seq: u64, cookie: Seq<u8>) -> Seq<u8>
    recommends
        cookie.len() == COOKIE_LENGTH,
        rec_seq <= MAX_SEQUENCE_NUMBER,
{
    handshake_record_bytes(
        epoch,
        rec_seq,
        HandshakeType::HelloVerifyRequest,
        0,
        enc_hello_verify_request(
            HelloVerifyRequestView { version: DtlsVersion { major: 1, minor: 2 }, cookie },
        ),
    )
}

/// Whether `d` is a HelloVerifyRequest datagram for these counters,
/// whatever 20-byte cookie it carries.
pub open spec fn is_hvr_datagram(d: Seq<u8>, epoch: u16, rec_seq: u64) -> bool {
    exists|c: Seq<u8>| #[trigger] c.len() == COOKIE_LENGTH && d == hvr_datagram(epoch, rec_seq, c)
}

/// Whether `d` is a ServerKeyExchange record for these counters, whatever
/// ephemeral key and signature it carries.
pub open spec fn is_ske_record(d: Seq<u8>, epoch: u16, rec_seq: u64, msg_seq: u16) -> bool {
    exists|body: Seq<u8>, pk: Seq<u8>|
        #[trigger] is_ske_body(body, pk) && body.len() + 12 <= 0xffff && d
            == handshake_record_bytes(epoch, rec_seq, HandshakeType::ServerKeyExchange, msg_seq, body)
}

/// Frame one handshake message as a record: encode the body, wrap it in a
/// handshake header carrying the session's next message_seq, wrap that in
/// a record header carrying the session's next record sequence number, and
/// advance both counters. The sent message, header included, is appended
/// to the session transcript.
pub fn encode_handshake_message_record<M: HandshakeMessage>(
    session: &mut PeerSession,
    writer: &mut BufWriter,
    message: &M,
)
    requires
        old(session).wf(),
        message.wf(),
        message.spec_enc().len() + 12 <= 0xffff,
        old(session).record_seq < MAX_SEQUENCE_NUMBER,
        old(session).message_seq < 0xffff,
    ensures
        final(session).wf(),
        final(writer)@ == old(writer)@ + handshake_record_bytes(
            old(session).epoch,
            old(session).record_seq,
            message.spec_type(),
            old(session).message_seq,
            message.spec_enc(),
        ),
        final(session).message_seq == old(session).message_seq + 1,
        final(session).record_seq == old(session).record_seq + 1,
        final(session).transcript@ == old(session).transcript@ + handshake_message_bytes(
            message.spec_type(),
            old(session).message_seq,
            message.spec_enc(),
        ),
        final(session).peer == old(session).peer,
        final(session).flight == old(session).flight,
        final(session).epoch == old(session).epoch,
        final(session).client_random == old(session).client_random,
        final(session).server_random == old(session).server_random,
        final(session).chosen_suite == old(session).chosen_suite,
        final(session).peer_public_key == old(session).peer_public_key,
        final(session).peer_cert_chain == old(session).peer_cert_chain,
{
    let mut payload_writer = BufWriter::new();
    message.encode(&mut payload_writer);
    let payload = payload_writer.buf();
    let mut handshake_writer = BufWriter::new();
    let handshake_header = HandshakeHeader::new(
        message.get_handshake_type(),
        payload.len() as u32,
        session.message_seq,
        0,
        payload.len() as u32,
    );
    handshake_header.encode(&mut handshake_writer);
    handshake_writer.write_bytes(payload.as_slice());
    let mut handshake_message = handshake_writer.buf();
    let record_header = RecordHeader::new(
        ContentType::Handshake,
        DtlsVersion::new(1, 2),
        session.epoch,
        session.record_seq,
        handshake_message.len() as u16,
    );
    record_header.encode(writer);
    writer.write_bytes(handshake_message.as_slice());
    session.message_seq = session.message_seq + 1;
    session.record_seq = session.record_seq + 1;
    session.transcript.append(&mut handshake_message);
    proof {
        assert(writer@ =~= old(writer)@ + handshake_record_bytes(
            old(session).epoch,
            old(session).record_seq,
            message.spec_type(),
            old(session).message_seq,
            message.spec_enc(),
        ));
        assert(session.transcript@ =~= old(session).transcript@ + handshake_message_bytes(
            message.spec_type(),
            old(session).message_seq,
            message.spec_enc(),
        ));
    }
}

// ---------------------------------------------------------------------------
// The cookie challenge
// ---------------------------------------------------------------------------

/// Issue a fresh cookie challenge: append the received message to the
/// transcript, then emit one HelloVerifyRequest record carrying a fresh
/// random 20-byte cookie, with message_seq 0. The caller decides whether
/// the cookie is kept. The flight state is left untouched.
pub fn send_hello_verify_request(session: &mut PeerSession, raw_message: &[u8]) -> (r: (
    Vec<Vec<u8>>,
    Cookie,
))
    requires
        old(session).wf(),
        old(session).record_seq < MAX_SEQUENCE_NUMBER,
    ensures
        final(session).wf(),
        r.1.wf(),
        r.0@.len() == 1,
        r.0@[0]@ == hvr_datagram(old(session).epoch, old(session).record_seq, r.1.0@),
        final(session).message_seq == 1,
        final(session).record_seq == old(session).record_seq + 1,
        final(session).epoch == old(session).epoch,
        final(session).peer == old(session).peer,
        final(session).flight == old(session).flight,
        final(session).client_random == old(session).client_random,
        final(session).server_random == old(session).server_random,
        final(session).chosen_suite == old(session).chosen_suite,
        final(session).peer_public_key == old(session).peer_public_key,
        final(session).peer_cert_chain == old(session).peer_cert_chain,
        final(session).transcript@ == old(session).transcript@ + raw_message@
            + handshake_message_bytes(
            HandshakeType::HelloVerifyRequest,
            0,
            enc_hello_verify_request(
                HelloVerifyRequestView {
                    version: DtlsVersion { major: 1, minor: 2 },
                    cookie: r.1.0@,
                },
            ),
        ),
{
    let mut raw = copy_bytes(raw_message);
    session.transcript.append(&mut raw);
    let cookie = Cookie::new();
    let cookie_copy = Cookie(copy_bytes(cookie.0.as_slice()));
    let hello_verify_request = HelloVerifyRequest::with_cookie(DtlsVersion::new(1, 2), cookie_copy);
    proof {
        crate::hello_verify_request::lemma_hello_verify_request_round_trip(
            hello_verify_request@,
        );
    }
    session.message_seq = 0;
    let mut writer = BufWriter::new();
    encode_handshake_message_record(session, &mut writer, &hello_verify_request);
    let mut out: Vec<Vec<u8>> = Vec::new();
    out.push(writer.buf());
    proof {
        assert(session.transcript@ =~= old(session).transcript@ + raw_message@
            + handshake_message_bytes(
            HandshakeType::HelloVerifyRequest,
            0,
            enc_hello_verify_request(
                HelloVerifyRequestView {
                    version: DtlsVersion { major: 1, minor: 2 },
                    cookie: cookie.0@,
                },
            ),
        ));
    }
    (out, cookie)
}

// ---------------------------------------------------------------------------
// The server flight
// ---------------------------------------------------------------------------

/// What sending the server's flight of five records means: the session
/// advanced to Flight4 with both randoms and the chosen suite stored, its
/// counters advanced by five, and the five outbound records carry
/// ServerHello, Certificate, ServerKeyExchange, CertificateRequest and
/// ServerHelloDone, in that order, with consecutive record sequence
/// numbers and message sequence numbers.
pub open spec fn server_flight_sent(
    old_s: PeerSession,
    new_s: PeerSession,
    cert_der: Seq<u8>,
    outs: Seq<Seq<u8>>,
) -> bool {
    &&& outs.len() == 5
    &&& new_s.flight.is_flight4()
    &&& new_s.message_seq == old_s.message_seq + 5
    &&& new_s.record_seq == old_s.record_seq + 5
    &&& new_s.epoch == old_s.epoch
    &&& new_s.peer == old_s.peer
    &&& new_s.chosen_suite == Some(CipherSuiteId::TlsEcdheEcdsaWithAes128GcmSha256)
    &&& new_s.server_random is Some
    &&& match new_s.server_random {
        Some(sr) => outs[0] == handshake_record_bytes(
            old_s.epoch,
            old_s.record_seq,
            HandshakeType::ServerHello,
            old_s.message_seq,
            enc_server_hello(
                ServerHelloView {
                    version: DtlsVersion { major: 1, minor: 2 },
                    random: sr@,
                    session_id: Seq::empty(),
                    cipher_suite_id: CipherSuiteId::TlsEcdheEcdsaWithAes128GcmSha256,
                    compression_method_id: crate::common::CompressionMethodId::Null,
                },
            ),
        ),
        None => false,
    }
    &&& outs[1] == handshake_record_bytes(
        old_s.epoch,
        (old_s.record_seq + 1) as u64,
        HandshakeType::Certificate,
        (old_s.message_seq + 1) as u16,
        enc_certificate(
            crate::certificate::CertificateView { certificates: seq![cert_der] },
        ),
    )
    &&& is_ske_record(
        outs[2],
        old_s.epoch,
        (old_s.record_seq + 2) as u64,
        (old_s.message_seq + 2) as u16,
    )
    &&& outs[3] == handshake_record_bytes(
        old_s.epoch,
        (old_s.record_seq + 3) as u64,
        HandshakeType::CertificateRequest,
        (old_s.message_seq + 3) as u16,
        enc_certificate_request(
            crate::certificate_request::CertificateRequestView {
                certificate_types: seq![crate::common::CertificateType::Ecdsa],
                supported_algo_pairs: seq![
                    crate::common::AlgoPair {
                        hash: crate::common::HashAlgorithm::Sha256,
                        signature: crate::common::SignatureAlgorithm::Ecdsa,
                    },
                ],
                certificate_authorities: Seq::empty(),
            },
        ),
    )
    &&& outs[4] == handshake_record_bytes(
        old_s.epoch,
        (old_s.record_seq + 4) as u64,
        HandshakeType::ServerHelloDone,
        (old_s.message_seq + 4) as u16,
        Seq::empty(),
    )
}

/// Answer a cookie-validated ClientHello with the full server flight:
/// ServerHello, Certificate, ServerKeyExchange, CertificateRequest,
/// ServerHelloDone, as five back-to-back records. Fails without touching
/// the session when no offered cipher suite is acceptable or when signing
/// fails.
#[verifier::rlimit(80)]
pub fn handle_flight2(
    session: &mut PeerSession,
    client_hello: &ClientHello,
    raw_message: &[u8],
    cert_der: &Vec<u8>,
    signing_key: &rcgen::KeyPair,
) -> (r: Result<Vec<Vec<u8>>, DtlsError>)
    requires
        old(session).wf(),
        client_hello.wf(),
        cert_der@.len() <= MAX_CERT_DER_LENGTH,
        old(session).record_seq + 5 <= MAX_SEQUENCE_NUMBER,
        old(session).message_seq + 5 <= 0xffff,
    ensures
        final(session).wf(),
        match r {
            Ok(out) => {
                &&& client_hello@.cipher_suite_ids.contains(0xc02b)
                &&& server_flight_sent(
                    *old(session),
                    *final(session),
                    cert_der@,
                    out@.map_values(|d: Vec<u8>| d@),
                )
                &&& match final(session).client_random {
                    Some(cr) => cr@ == client_hello@.random,
                    None => false,
                }
                &&& final(session).transcript@.len() >= old(session).transcript@.len()
                    + raw_message@.len()
                &&& final(session).transcript@.subrange(
                    0,
                    old(session).transcript@.len() + raw_message@.len() as int,
                ) == old(session).transcript@ + raw_message@
            },
            Err(e) => {
                &&& *final(session) == *old(session)
                &&& (e == DtlsError::NoCipherSuite || e == DtlsError::SigningFailure)
                &&& (e == DtlsError::NoCipherSuite <==> !client_hello@.cipher_suite_ids.contains(
                    0xc02b,
                ))
            },
        },
{
    let mut has_suite = false;
    let n = client_hello.cipher_suite_ids.len();
    let mut k: usize = 0;
    while k < n
        invariant
            k <= n,
            n == client_hello@.cipher_suite_ids.len(),
            has_suite == client_hello@.cipher_suite_ids.take(k as int).contains(0xc02b),
        decreases n - k,
    {
        let ghost pre = client_hello@.cipher_suite_ids.take(k as int);
        if client_hello.cipher_suite_ids[k] == 0xc02b {
            has_suite = true;
        }
        k = k + 1;
        proof {
            let cur = client_hello@.cipher_suite_ids.take(k as int);
            assert(cur.drop_last() =~= pre);
            assert(cur.last() == client_hello@.cipher_suite_ids[k - 1]);
            if has_suite {
                if pre.contains(0xc02b) || client_hello@.cipher_suite_ids[k - 1] == 0xc02b {
                    assert(cur.contains(0xc02b)) by {
                        if pre.contains(0xc02b) {
                            let w = choose|t: int| 0 <= t < pre.len() && pre[t] == 0xc02b;
                            assert(cur[w] == 0xc02b);
                        } else {
                            assert(cur[k - 1] == 0xc02b);
                        }
                    }
                }
            } else {
                assert(!cur.contains(0xc02b)) by {
                    assert(forall|t: int| 0 <= t < cur.len() ==> cur[t] == pre[t] || t == k - 1);
                }
            }
        }
    }
    proof {
        assert(client_hello@.cipher_suite_ids.take(n as int) =~= client_hello@.cipher_suite_ids);
    }
    if !has_suite {
        return Err(DtlsError::NoCipherSuite);
    }
    let server_random = Random::new();
    let server_random_copy = Random {
        gmt_unix_time: server_random.gmt_unix_time,
        random_bytes: copy_bytes(server_random.random_bytes.as_slice()),
    };
    let ephemeral = random_bytes(EPHEMERAL_KEY_LENGTH);
    let server_key_exchange = match ServerKeyExchange::new(
        ephemeral,
        signing_key,
        &client_hello.random,
        &server_random,
    ) {
        Ok(v) => v,
        Err(e) => {
            return Err(e);
        },
    };
    let mut raw = copy_bytes(raw_message);
    session.transcript.append(&mut raw);
    let client_random_copy = Random {
        gmt_unix_time: client_hello.random.gmt_unix_time,
        random_bytes: copy_bytes(client_hello.random.random_bytes.as_slice()),
    };
    session.client_random = Some(client_random_copy);
    session.server_random = Some(server_random_copy);
    session.chosen_suite = Some(CipherSuiteId::TlsEcdheEcdsaWithAes128GcmSha256);
    let mut out: Vec<Vec<u8>> = Vec::new();
    let server_hello = ServerHello::new(DtlsVersion::new(1, 2), server_random);
    {
        proof {
            crate::server_hello::lemma_server_hello_round_trip(server_hello@);
        }
        let mut w = BufWriter::new();
        encode_handshake_message_record(session, &mut w, &server_hello);
        out.push(w.buf());
    }
    let mut chain: Vec<Vec<u8>> = Vec::new();
    chain.push(copy_bytes(cert_der.as_slice()));
    let certificate = Certificate::new(chain);
    {
        proof {
            let cs = seq![cert_der@];
            assert(cs.drop_first() =~~= Seq::<Seq<u8>>::empty());
            assert(enc_cert_list(cs) == enc_cert_entry(cert_der@) + enc_cert_list(
                cs.drop_first(),
            ));
            assert(enc_cert_list(cs).len() == 3 + cert_der@.len());
            assert(certificate@.certificates =~~= cs);
        }
        let mut w = BufWriter::new();
        encode_handshake_message_record(session, &mut w, &certificate);
        out.push(w.buf());
    }
    {
        proof {
            assert(server_key_exchange.spec_enc().len() == 40
                + server_key_exchange@.signature.len());
        }
        let mut w = BufWriter::new();
        encode_handshake_message_record(session, &mut w, &server_key_exchange);
        out.push(w.buf());
        proof {
            let body = server_key_exchange.spec_enc();
            let sig = server_key_exchange@.signature;
            assert(sig.len() <= 0xffff && body == crate::server_key_exchange::enc_server_key_exchange(
                crate::server_key_exchange::ServerKeyExchangeView {
                    curve_type: crate::common::ECCurveType::NamedCurve,
                    curve: crate::common::ECCurve::X25519,
                    public_key: server_key_exchange@.public_key,
                    algo_pair: crate::common::AlgoPair {
                        hash: crate::common::HashAlgorithm::Sha256,
                        signature: crate::common::SignatureAlgorithm::Ecdsa,
                    },
                    signature: sig,
                },
            ));
            assert(is_ske_body(body, server_key_exchange@.public_key));
        }
    }
    let certificate_request = CertificateRequest::new();
    {
        proof {
            crate::certificate_request::lemma_certificate_request_round_trip(
                certificate_request@,
            );
        }
        let mut w = BufWriter::new();
        encode_handshake_message_record(session, &mut w, &certificate_request);
        out.push(w.buf());
    }
    let server_hello_done = ServerHelloDone::new();
    {
        let mut w = BufWriter::new();
        encode_handshake_message_record(session, &mut w, &server_hello_done);
        out.push(w.buf());
    }
    session.flight = HandshakeFlightContext::Flight4;
    proof {
        assert(enc_server_hello_done(server_hello_done) =~= Seq::<u8>::empty());
        assert(session.transcript@.subrange(
            0,
            old(session).transcript@.len() + raw_message@.len() as int,
        ) =~= old(session).transcript@ + raw_message@);
        assert(is_ske_record(
            out@.map_values(|d: Vec<u8>| d@)[2],
            old(session).epoch,
            (old(session).record_seq + 2) as u64,
            (old(session).message_seq + 2) as u16,
        ));
    }
    Ok(out)
}

// ---------------------------------------------------------------------------
// ClientHello dispatch over the flights
// ---------------------------------------------------------------------------

/// Drive the session by one ClientHello. In Flight0 the peer is always
/// challenged; an empty cookie stores the challenge and enters Flight2, a
/// non-empty one leaves the session in Flight0. In Flight2 the echoed
/// cookie decides: a match sends the server flight, a mismatch issues a
/// fresh challenge and stays in Flight2. Later flights refuse the message.
pub fn handle_client_hello(
    session: &mut PeerSession,
    client_hello: &ClientHello,
    raw_message: &[u8],
    cert_der: &Vec<u8>,
    signing_key: &rcgen::KeyPair,
) -> (r: Result<Vec<Vec<u8>>, DtlsError>)
    requires
        old(session).wf(),
        client_hello.wf(),
        cert_der@.len() <= MAX_CERT_DER_LENGTH,
        old(session).record_seq + 5 <= MAX_SEQUENCE_NUMBER,
        old(session).message_seq + 5 <= 0xffff,
    ensures
        final(session).wf(),
        final(session).peer == old(session).peer,
        old(session).flight.is_flight0() ==> r is Ok,
        old(session).flight.is_flight2() && client_hello@.cookie != old(
            session,
        ).flight.flight2_cookie() ==> r is Ok,
        match r {
            Ok(out) => {
                &&& (old(session).flight.is_flight0() && client_hello@.cookie.len() == 0 ==> {
                    &&& out@.len() == 1
                    &&& final(session).flight.is_flight2()
                    &&& final(session).flight.flight2_cookie().len() == COOKIE_LENGTH
                    &&& out@[0]@ == hvr_datagram(
                        old(session).epoch,
                        old(session).record_seq,
                        final(session).flight.flight2_cookie(),
                    )
                    &&& final(session).record_seq == old(session).record_seq + 1
                    &&& final(session).message_seq == 1
                })
                &&& (old(session).flight.is_flight0() && client_hello@.cookie.len() != 0 ==> {
                    &&& out@.len() == 1
                    &&& final(session).flight.is_flight0()
                    &&& is_hvr_datagram(out@[0]@, old(session).epoch, old(session).record_seq)
                    &&& final(session).record_seq == old(session).record_seq + 1
                })
                &&& (old(session).flight.is_flight2() && client_hello@.cookie != old(
                    session,
                ).flight.flight2_cookie() ==> {
                    &&& out@.len() == 1
                    &&& final(session).flight.is_flight2()
                    &&& final(session).flight.flight2_cookie().len() == COOKIE_LENGTH
                    &&& out@[0]@ == hvr_datagram(
                        old(session).epoch,
                        old(session).record_seq,
                        final(session).flight.flight2_cookie(),
                    )
                    &&& !final(session).flight.is_flight4()
                    &&& final(session).record_seq == old(session).record_seq + 1
                })
                &&& (old(session).flight.is_flight2() && client_hello@.cookie == old(
                    session,
                ).flight.flight2_cookie() ==> {
                    &&& client_hello@.cipher_suite_ids.contains(0xc02b)
                    &&& server_flight_sent(
                        *old(session),
                        *final(session),
                        cert_der@,
                        out@.map_values(|d: Vec<u8>| d@),
                    )
                })
            },
            Err(e) => {
                &&& *final(session) == *old(session)
                &&& (old(session).flight.is_flight4() || old(session).flight is Failed ==> e
                    == DtlsError::UnexpectedMessage)
                &&& (old(session).flight.is_flight2() && client_hello@.cookie == old(
                    session,
                ).flight.flight2_cookie() && !client_hello@.cipher_suite_ids.contains(0xc02b)
                    ==> e == DtlsError::NoCipherSuite)
            },
        },
{
    if matches!(session.flight, HandshakeFlightContext::Flight0) {
        let (out, cookie) = send_hello_verify_request(session, raw_message);
        if client_hello.cookie.len() == 0 {
            session.flight = HandshakeFlightContext::Flight2(
                Flight2Context::with_cookie(cookie.0),
            );
        } else {
            proof {
                assert(cookie.0@.len() == COOKIE_LENGTH);
            }
        }
        return Ok(out);
    }
    let cookie_matched: Option<bool> = match &session.flight {
        HandshakeFlightContext::Flight2(ctx) => Some(
            ctx.matches(client_hello.cookie.as_slice()),
        ),
        _ => None,
    };
    match cookie_matched {
        None => Err(DtlsError::UnexpectedMessage),
        Some(false) => {
            let (out, cookie) = send_hello_verify_request(session, raw_message);
            session.flight = HandshakeFlightContext::Flight2(
                Flight2Context::with_cookie(cookie.0),
            );
            Ok(out)
        },
        Some(true) => handle_flight2(session, client_hello, raw_message, cert_der, signing_key),
    }
}

// ---------------------------------------------------------------------------
// The peer's own flight
// ---------------------------------------------------------------------------

/// Record the peer's certificate chain, expected only in Flight4. The
/// received message joins the transcript.
pub fn handle_client_certificate(
    session: &mut PeerSession,
    client_certificate: &Certificate,
    raw_message: &[u8],
) -> (r: Result<(), DtlsError>)
    requires
        old(session).wf(),
    ensures
        final(session).wf(),
        match r {
            Ok(_) => {
                &&& old(session).flight.is_flight4()
                &&& match final(session).peer_cert_chain {
                    Some(chain) => chain.deep_view() == client_certificate@.certificates,
                    None => false,
                }
                &&& final(session).transcript@ == old(session).transcript@ + raw_message@
                &&& final(session).flight == old(session).flight
                &&& final(session).peer == old(session).peer
                &&& final(session).message_seq == old(session).message_seq
                &&& final(session).record_seq == old(session).record_seq
                &&& final(session).peer_public_key == old(session).peer_public_key
            },
            Err(e) => {
                &&& e == DtlsError::UnexpectedMessage
                &&& !old(session).flight.is_flight4()
                &&& *final(session) == *old(session)
            },
        },
{
    if !matches!(session.flight, HandshakeFlightContext::Flight4) {
        return Err(DtlsError::UnexpectedMessage);
    }
    let mut raw = copy_bytes(raw_message);
    session.transcript.append(&mut raw);
    let n = client_certificate.certificates.len();
    let mut chain: Vec<Vec<u8>> = Vec::new();
    let mut k: usize = 0;
    while k < n
        invariant
            k <= n,
            n == client_certificate.certificates@.len(),
            chain@.len() == k,
            forall|i: int| 0 <= i < k ==> (#[trigger] chain@[i])@ == client_certificate.certificates@[i]@,
        decreases n - k,
    {
        chain.push(copy_bytes(client_certificate.certificates[k].as_slice()));
        k = k + 1;
    }
    proof {
        let dv = client_certificate.certificates.deep_view();
        assert forall|i: int| 0 <= i < n as int implies chain.deep_view()[i] == dv[i] by {
            assert(chain.deep_view()[i] == chain@[i].deep_view());
            assert(chain@[i].deep_view() =~= chain@[i]@);
            assert(dv[i] == client_certificate.certificates@[i].deep_view());
            assert(client_certificate.certificates@[i].deep_view()
                =~= client_certificate.certificates@[i]@);
        }
        assert(chain.deep_view() =~= dv);
    }
    session.peer_cert_chain = Some(chain);
    Ok(())
}

/// Record the peer's ephemeral public key, expected only in Flight4. The
/// received message joins the transcript.
pub fn handle_client_key_exchange(
    session: &mut PeerSession,
    client_key_exchange: &crate::client_key_exchange::ClientKeyExchange,
    raw_message: &[u8],
) -> (r: Result<(), DtlsError>)
    requires
        old(session).wf(),
    ensures
        final(session).wf(),
        match r {
            Ok(_) => {
                &&& old(session).flight.is_flight4()
                &&& match final(session).peer_public_key {
                    Some(pk) => pk@ == client_key_exchange@.public_key,
                    None => false,
                }
                &&& final(session).transcript@ == old(session).transcript@ + raw_message@
                &&& final(session).flight == old(session).flight
                &&& final(session).peer == old(session).peer
                &&& final(session).message_seq == old(session).message_seq
                &&& final(session).record_seq == old(session).record_seq
                &&& final(session).peer_cert_chain == old(session).peer_cert_chain
            },
            Err(e) => {
                &&& e == DtlsError::UnexpectedMessage
                &&& !old(session).flight.is_flight4()
                &&& *final(session) == *old(session)
            },
        },
{
    if !matches!(session.flight, HandshakeFlightContext::Flight4) {
        return Err(DtlsError::UnexpectedMessage);
    }
    let mut raw = copy_bytes(raw_message);
    session.transcript.append(&mut raw);
    session.peer_public_key = Some(copy_bytes(client_key_exchange.public_key.as_slice()));
    Ok(())
}

} // verus!
