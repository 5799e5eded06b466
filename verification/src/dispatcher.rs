//! The dispatcher: owns the certificate material and the table of peer
//! sessions, takes one datagram at a time, routes it by content type, and
//! returns the records to send back. Malformed datagrams are dropped
//! without a reply, so crafted input can never be amplified.

use vstd::prelude::*;
use crate::buffer::BufReader;
use crate::certificate::{dec_certificate, Certificate, CertificateView};
use crate::client_hello::{dec_client_hello, ClientHello, ClientHelloView};
use crate::client_key_exchange::{dec_client_key_exchange, ClientKeyExchange,
    ClientKeyExchangeView};
use crate::crypto::{ascii_to_string, generate_certificate, hex_colon, hex_colon_bytes,
    lemma_hex_colon_props, sha256, sha256_of};
use crate::common::COOKIE_LENGTH;
use crate::errors::DtlsError;
use crate::handshake::{dec_handshake_header, HandshakeHeader, HandshakeType};
use crate::machine::{
    handle_client_certificate, handle_client_hello, handle_client_key_exchange, hvr_datagram,
    is_hvr_datagram, server_flight_sent, PeerSession, MAX_CERT_DER_LENGTH,
};
use crate::record_header::{dec_record, parse_record, ContentType, MAX_SEQUENCE_NUMBER};

verus! {

/// What the dispatcher did with one datagram, for the operator's log.
#[derive(Clone, Copy, Debug, PartialEq, Eq, Structural)]
pub enum DispatchEvent {
    /// The datagram was empty.
    EmptyDatagram,
    /// A ChangeCipherSpec record; its handling is outside this engine.
    ChangeCipherSpec,
    /// An Alert record; its handling is outside this engine.
    Alert,
    /// An ApplicationData record; rejected while still in epoch 0.
    ApplicationData,
    /// The first byte names no known content type.
    UnknownContentType(u8),
    /// A handshake message was taken and answered as the flight demanded.
    HandshakeProcessed,
    /// A handshake datagram was dropped silently for this reason.
    HandshakeDropped(DtlsError),
}

/// No two sessions belong to the same peer.
pub open spec fn unique_peers(ss: Seq<PeerSession>) -> bool {
    forall|i: int, j: int|
        0 <= i < j < ss.len() ==> (#[trigger] ss[i]).peer != (#[trigger] ss[j]).peer
}

/// Whether some session belongs to `peer`.
pub open spec fn has_session(ss: Seq<PeerSession>, peer: u64) -> bool {
    exists|i: int| 0 <= i < ss.len() && #[trigger] ss[i].peer == peer
}

/// The index of the session that belongs to `peer`.
pub open spec fn session_index(ss: Seq<PeerSession>, peer: u64) -> int
    recommends has_session(ss, peer),
{
    choose|i: int| 0 <= i < ss.len() && #[trigger] ss[i].peer == peer
}

/// With unique peers, the session index of `peer` is the one that holds it.
proof fn lemma_session_index_unique(ss: Seq<PeerSession>, peer: u64, i: int)
    requires
        unique_peers(ss),
        0 <= i < ss.len(),
        ss[i].peer == peer,
    ensures
        has_session(ss, peer),
        session_index(ss, peer) == i,
{
    assert(has_session(ss, peer));
    let w = session_index(ss, peer);
    assert(0 <= w < ss.len() && ss[w].peer == peer);
    if w < i {
        assert(ss[w].peer != ss[i].peer);
    } else if i < w {
        assert(ss[i].peer != ss[w].peer);
    }
}

/// The handshake message a datagram frames: its type and the record
/// payload (the 12-byte handshake header followed by the body), when the
/// datagram parses as exactly one unfragmented handshake record.
pub open spec fn parsed_handshake_message(data: Seq<u8>) -> Option<(HandshakeType, Seq<u8>)> {
    match dec_record(data) {
        Err(_) => None,
        Ok((h, payload)) => if h.content_type != ContentType::Handshake {
            None
        } else {
            match dec_handshake_header(payload, 0) {
                Err(_) => None,
                Ok((hh, _)) => if payload.len() - 12 != hh.length {
                    None
                } else {
                    Some((hh.handshake_type, payload))
                },
            }
        },
    }
}

/// The ClientHello a datagram carries, when it carries one.
pub open spec fn parsed_client_hello(data: Seq<u8>) -> Option<ClientHelloView> {
    match parsed_handshake_message(data) {
        Some((HandshakeType::ClientHello, payload)) => match dec_client_hello(payload, 12) {
            Err(_) => None,
            Ok((chv, _)) => Some(chv),
        },
        _ => None,
    }
}

/// The client Certificate a datagram carries, when it carries one.
pub open spec fn parsed_client_certificate(data: Seq<u8>) -> Option<CertificateView> {
    match parsed_handshake_message(data) {
        Some((HandshakeType::Certificate, payload)) => match dec_certificate(payload, 12) {
            Err(_) => None,
            Ok((cv, _)) => Some(cv),
        },
        _ => None,
    }
}

/// The ClientKeyExchange a datagram carries, when it carries one.
pub open spec fn parsed_client_key_exchange(data: Seq<u8>) -> Option<ClientKeyExchangeView> {
    match parsed_handshake_message(data) {
        Some((HandshakeType::ClientKeyExchange, payload)) => match dec_client_key_exchange(
            payload,
            12,
        ) {
            Err(_) => None,
            Ok((kv, _)) => Some(kv),
        },
        _ => None,
    }
}

/// Mutable access to one element of a vector.
fn vec_index_mut<T>(v: &mut Vec<T>, i: usize) -> (element: &mut T)
    requires
        0 <= i < old(v)@.len(),
    ensures
        *element == old(v)@[i as int],
        final(v)@ == old(v)@.update(i as int, *final(element)),
{
    &mut v[i]
}

/// The handshake engine: certificate material shared by every peer, and
/// one session per peer address.
pub struct DtlsServer {
    pub cert_der: Vec<u8>,
    pub signing_key: rcgen::KeyPair,
    pub fingerprint: Vec<u8>,
    pub sessions: Vec<PeerSession>,
}

impl DtlsServer {
    /// The certificate fits a record, the fingerprint is its SHA-256
    /// digest, and each peer owns at most one session.
    pub open spec fn wf(&self) -> bool {
        &&& self.cert_der@.len() <= MAX_CERT_DER_LENGTH
        &&& self.fingerprint@ == sha256_of(self.cert_der@)
        &&& self.fingerprint@.len() == 32
        &&& unique_peers(self.sessions@)
        &&& forall|i: int| 0 <= i < self.sessions@.len() ==> (#[trigger] self.sessions@[i]).wf()
    }

    /// Create the engine with a fresh self-signed certificate. Fails only
    /// when the certificate provider fails or hands back a certificate too
    /// large to frame.
    pub fn new() -> (r: Result<Self, DtlsError>)
        ensures
            match r {
                Ok(s) => s.wf() && s.sessions@.len() == 0,
                Err(e) => e == DtlsError::SigningFailure || e == DtlsError::BadPublicKey,
            },
    {
        let (cert_der, signing_key) = match generate_certificate() {
            Ok(v) => v,
            Err(_) => {
                return Err(DtlsError::SigningFailure);
            },
        };
        if cert_der.len() > MAX_CERT_DER_LENGTH {
            return Err(DtlsError::BadPublicKey);
        }
        let fingerprint = sha256(cert_der.as_slice());
        Ok(Self { cert_der, signing_key, fingerprint, sessions: Vec::new() })
    }

    /// The certificate's SHA-256 fingerprint: upper-case hex, bytes
    /// separated by colons, 95 characters for the 32 digest bytes.
    pub fn get_fingerprint(&self) -> (r: String)
        requires
            self.wf(),
        ensures
            r@.len() == 95,
            forall|i: int|
                0 <= i < 95 ==> #[trigger] r@[i] as int == hex_colon(
                    sha256_of(self.cert_der@),
                )[i] as int,
    {
        let hex = hex_colon_bytes(self.fingerprint.as_slice());
        proof {
            lemma_hex_colon_props(self.fingerprint@);
        }
        ascii_to_string(hex)
    }

    /// The session index of `peer`, where one exists.
    fn find_session(&self, peer: u64) -> (r: Option<usize>)
        ensures
            match r {
                Some(i) => 0 <= i < self.sessions@.len() && self.sessions@[i as int].peer == peer,
                None => !has_session(self.sessions@, peer),
            },
    {
        let n = self.sessions.len();
        let mut k: usize = 0;
        while k < n
            invariant
                k <= n,
                n == self.sessions@.len(),
                forall|j: int| 0 <= j < k ==> (#[trigger] self.sessions@[j]).peer != peer,
            decreases n - k,
        {
            if self.sessions[k].peer == peer {
                return Some(k);
            }
            k = k + 1;
        }
        None
    }

    /// Route one datagram by its first byte. Only handshake traffic can
    /// produce a reply; everything else is logged and dropped, so a
    /// datagram that has not proven reachability is never amplified.
    pub fn handle_message(&mut self, peer: u64, data: &[u8]) -> (r: (Vec<Vec<u8>>, DispatchEvent))
        requires
            old(self).wf(),
        ensures
            final(self).wf(),
            final(self).cert_der == old(self).cert_der,
            final(self).fingerprint == old(self).fingerprint,
            data@.len() == 0 ==> r.1 == DispatchEvent::EmptyDatagram && r.0@.len() == 0
                && final(self).sessions == old(self).sessions,
            data@.len() > 0 && data@[0] != 22 ==> r.0@.len() == 0
                && final(self).sessions == old(self).sessions,
            data@.len() > 0 ==> {
                &&& (data@[0] == 20 ==> r.1 == DispatchEvent::ChangeCipherSpec)
                &&& (data@[0] == 21 ==> r.1 == DispatchEvent::Alert)
                &&& (data@[0] == 23 ==> r.1 == DispatchEvent::ApplicationData)
                &&& (!(data@[0] == 20 || data@[0] == 21 || data@[0] == 22 || data@[0] == 23)
                    ==> r.1 == DispatchEvent::UnknownContentType(data@[0]))
            },
            data@.len() > 0 && data@[0] == 22 ==> final(self).handshake_outcome(
                *old(self),
                peer,
                data@,
                r.0@.map_values(|d: Vec<u8>| d@),
                r.1,
            ),
    {
        if data.len() == 0 {
            return (Vec::new(), DispatchEvent::EmptyDatagram);
        }
        let content_type = data[0];
        match content_type {
            20 => (Vec::new(), DispatchEvent::ChangeCipherSpec),
            21 => (Vec::new(), DispatchEvent::Alert),
            22 => self.handle_handshake(peer, data),
            23 => (Vec::new(), DispatchEvent::ApplicationData),
            _ => (Vec::new(), DispatchEvent::UnknownContentType(content_type)),
        }
    }

    /// What handling a handshake datagram guarantees: drops are silent and
    /// change nothing; a first ClientHello from an unknown peer creates its
    /// session and is answered with exactly one cookie challenge; other
    /// peers' sessions are never touched.
    pub open spec fn handshake_outcome(
        self,
        old_self: DtlsServer,
        peer: u64,
        data: Seq<u8>,
        outs: Seq<Seq<u8>>,
        ev: DispatchEvent,
    ) -> bool {
        &&& (ev is HandshakeDropped ==> outs.len() == 0 && self.sessions@ == old_self.sessions@)
        &&& (ev is HandshakeProcessed || ev is HandshakeDropped)
        &&& (parsed_client_hello(data) is None && !(ev is HandshakeDropped) ==> outs.len() == 0)
        &&& forall|j: int|
            0 <= j < old_self.sessions@.len() && (#[trigger] old_self.sessions@[j]).peer != peer
                ==> j < self.sessions@.len() && self.sessions@[j] == old_self.sessions@[j]
        &&& match parsed_client_hello(data) {
            Some(chv) => {
                &&& (!has_session(old_self.sessions@, peer) && ev is HandshakeProcessed ==> {
                    &&& self.sessions@.len() == old_self.sessions@.len() + 1
                    &&& self.sessions@.last().peer == peer
                    &&& outs.len() == 1
                    &&& is_hvr_datagram(outs[0], 0, 0)
                    &&& (chv.cookie.len() == 0 ==> self.sessions@.last().flight.is_flight2()
                        && outs[0] == hvr_datagram(
                        0,
                        0,
                        self.sessions@.last().flight.flight2_cookie(),
                    ))
                    &&& (chv.cookie.len() != 0 ==> self.sessions@.last().flight.is_flight0())
                })
                &&& (!has_session(old_self.sessions@, peer) ==> ev is HandshakeProcessed)
                &&& (has_session(old_self.sessions@, peer) && ev is HandshakeProcessed ==> {
                    let i = session_index(old_self.sessions@, peer);
                    let old_s = old_self.sessions@[i];
                    let new_s = self.sessions@[i];
                    &&& self.sessions@.len() == old_self.sessions@.len()
                    &&& new_s.peer == peer
                    &&& (old_s.flight.is_flight2() && chv.cookie == old_s.flight.flight2_cookie()
                        ==> server_flight_sent(old_s, new_s, old_self.cert_der@, outs))
                    &&& (old_s.flight.is_flight2() && chv.cookie != old_s.flight.flight2_cookie()
                        ==> outs.len() == 1 && new_s.flight.is_flight2()
                        && !new_s.flight.is_flight4() && outs[0] == hvr_datagram(
                        old_s.epoch,
                        old_s.record_seq,
                        new_s.flight.flight2_cookie(),
                    ))
                })
            },
            None => true,
        }
        &&& (ev is HandshakeProcessed ==> parsed_client_hello(data) is Some
            || parsed_client_certificate(data) is Some || parsed_client_key_exchange(data)
            is Some)
        &&& match parsed_client_certificate(data) {
            Some(cv) => {
                &&& (!has_session(old_self.sessions@, peer) ==> ev is HandshakeDropped)
                &&& (has_session(old_self.sessions@, peer) && ev is HandshakeProcessed ==> {
                    let i = session_index(old_self.sessions@, peer);
                    &&& old_self.sessions@[i].flight.is_flight4()
                    &&& outs.len() == 0
                    &&& match self.sessions@[i].peer_cert_chain {
                        Some(chain) => chain.deep_view() == cv.certificates,
                        None => false,
                    }
                })
            },
            None => true,
        }
        &&& match parsed_client_key_exchange(data) {
            Some(kv) => {
                &&& (!has_session(old_self.sessions@, peer) ==> ev is HandshakeDropped)
                &&& (has_session(old_self.sessions@, peer) && ev is HandshakeProcessed ==> {
                    let i = session_index(old_self.sessions@, peer);
                    &&& old_self.sessions@[i].flight.is_flight4()
                    &&& outs.len() == 0
                    &&& match self.sessions@[i].peer_public_key {
                        Some(pk) => pk@ == kv.public_key,
                        None => false,
                    }
                })
            },
            None => true,
        }
    }

    /// Parse a handshake datagram and drive the owning session. Every
    /// parse failure drops the datagram without reply; a ClientHello from
    /// an unknown peer first creates its session.
    fn handle_handshake(&mut self, peer: u64, data: &[u8]) -> (r: (Vec<Vec<u8>>, DispatchEvent))
        requires
            old(self).wf(),
            data@.len() > 0,
            data@[0] == 22,
        ensures
            final(self).wf(),
            final(self).cert_der == old(self).cert_der,
            final(self).fingerprint == old(self).fingerprint,
            final(self).handshake_outcome(
                *old(self),
                peer,
                data@,
                r.0@.map_values(|d: Vec<u8>| d@),
                r.1,
            ),
    {
        let (record_header, payload) = match parse_record(data) {
            Ok(v) => v,
            Err(e) => {
                return (Vec::new(), DispatchEvent::HandshakeDropped(e));
            },
        };
        let mut reader = BufReader::new(payload.as_slice());
        let handshake_header = match HandshakeHeader::decode(&mut reader) {
            Ok(v) => v,
            Err(e) => {
                return (Vec::new(), DispatchEvent::HandshakeDropped(e));
            },
        };
        if payload.len() - 12 != handshake_header.length as usize {
            return (Vec::new(), DispatchEvent::HandshakeDropped(DtlsError::LengthMismatch));
        }
        match handshake_header.handshake_type {
            HandshakeType::ClientHello => {
                let client_hello = match ClientHello::decode(&mut reader) {
                    Ok(v) => v,
                    Err(e) => {
                        return (Vec::new(), DispatchEvent::HandshakeDropped(e));
                    },
                };
                let ghost old_sessions = self.sessions@;
                let idx: usize;
                let ghost created: bool;
                match self.find_session(peer) {
                    Some(i) => {
                        if self.sessions[i].record_seq > MAX_SEQUENCE_NUMBER - 5
                            || self.sessions[i].message_seq > 0xffff - 5 {
                            return (
                                Vec::new(),
                                DispatchEvent::HandshakeDropped(DtlsError::UnexpectedMessage),
                            );
                        }
                        idx = i;
                        proof {
                            created = false;
                        }
                    },
                    None => {
                        self.sessions.push(PeerSession::new(peer));
                        idx = self.sessions.len() - 1;
                        proof {
                            created = true;
                        }
                    },
                }
                proof {
                    if !created {
                        lemma_session_index_unique(old_sessions, peer, idx as int);
                    } else {
                        assert(!has_session(old_sessions, peer));
                    }
                }
                let session = vec_index_mut(&mut self.sessions, idx);
                let ghost session_before = *session;
                let outcome = handle_client_hello(
                    session,
                    &client_hello,
                    payload.as_slice(),
                    &self.cert_der,
                    &self.signing_key,
                );
                match outcome {
                    Ok(out) => {
                        proof {
                            let outs = out@.map_values(|d: Vec<u8>| d@);
                            assert(forall|q: int|
                                0 <= q < out@.len() ==> #[trigger] outs[q] == out@[q]@);
                            if created {
                                assert(self.sessions@.last() == self.sessions@[idx as int]);
                                if client_hello@.cookie.len() == 0 {
                                    let c = self.sessions@.last().flight.flight2_cookie();
                                    assert(c.len() == COOKIE_LENGTH);
                                    assert(outs[0] == hvr_datagram(0, 0, c));
                                    assert(is_hvr_datagram(outs[0], 0, 0));
                                }
                            }
                        }
                        (out, DispatchEvent::HandshakeProcessed)
                    },
                    Err(e) => {
                        proof {
                            assert(!created);
                            assert(self.sessions@ =~= old_sessions);
                        }
                        (Vec::new(), DispatchEvent::HandshakeDropped(e))
                    },
                }
            },
            HandshakeType::Certificate => {
                let client_certificate = match Certificate::decode(&mut reader) {
                    Ok(v) => v,
                    Err(e) => {
                        return (Vec::new(), DispatchEvent::HandshakeDropped(e));
                    },
                };
                let idx = match self.find_session(peer) {
                    Some(i) => i,
                    None => {
                        return (
                            Vec::new(),
                            DispatchEvent::HandshakeDropped(DtlsError::UnexpectedMessage),
                        );
                    },
                };
                let session = vec_index_mut(&mut self.sessions, idx);
                match handle_client_certificate(session, &client_certificate, payload.as_slice()) {
                    Ok(_) => (Vec::new(), DispatchEvent::HandshakeProcessed),
                    Err(e) => {
                        proof {
                            assert(self.sessions@ =~= old(self).sessions@);
                        }
                        (Vec::new(), DispatchEvent::HandshakeDropped(e))
                    },
                }
            },
            HandshakeType::ClientKeyExchange => {
                let client_key_exchange = match ClientKeyExchange::decode(&mut reader) {
                    Ok(v) => v,
                    Err(e) => {
                        return (Vec::new(), DispatchEvent::HandshakeDropped(e));
                    },
                };
                let idx = match self.find_session(peer) {
                    Some(i) => i,
                    None => {
                        return (
                            Vec::new(),
                            DispatchEvent::HandshakeDropped(DtlsError::UnexpectedMessage),
                        );
                    },
                };
                let session = vec_index_mut(&mut self.sessions, idx);
                match handle_client_key_exchange(
                    session,
                    &client_key_exchange,
                    payload.as_slice(),
                ) {
                    Ok(_) => (Vec::new(), DispatchEvent::HandshakeProcessed),
                    Err(e) => {
                        proof {
                            assert(self.sessions@ =~= old(self).sessions@);
                        }
                        (Vec::new(), DispatchEvent::HandshakeDropped(e))
                    },
                }
            },
            _ => (Vec::new(), DispatchEvent::HandshakeDropped(DtlsError::UnexpectedMessage)),
        }
    }
}

} // verus!
