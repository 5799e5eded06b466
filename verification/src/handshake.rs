//! The 12-byte handshake header, the handshake message types, and the
//! interface every outbound handshake message offers to the record framer.
//! Fragmented handshake messages are not supported: decoding insists on
//! fragment_offset = 0 and fragment_length = length.

use vstd::prelude::*;
use crate::buffer::{be2, be3, u16_be, u24_be, BufReader, BufWriter};
use crate::buffer::{lemma_u16_be_round_trip, lemma_u24_be_round_trip};
use crate::errors::DtlsError;

verus! {

/// A handshake header occupies exactly 12 bytes: 1 + 3 + 2 + 3 + 3.
pub const HANDSHAKE_HEADER_LENGTH: usize = 12;

/// The largest value a 24-bit length field can hold.
pub const MAX_U24: u32 = 0xFF_FFFF;

// ---------------------------------------------------------------------------
// Handshake type
// ---------------------------------------------------------------------------

/// The handshake message types of TLS 1.2 / DTLS 1.2.
#[derive(Clone, Copy, Debug, PartialEq, Eq, Structural)]
pub enum HandshakeType {
    HelloRequest,
    ClientHello,
    ServerHello,
    HelloVerifyRequest,
    Certificate,
    ServerKeyExchange,
    CertificateRequest,
    ServerHelloDone,
    CertificateVerify,
    ClientKeyExchange,
    Finished,
}

/// Whether `v` is a known handshake type byte.
pub open spec fn is_handshake_type_byte(v: u8) -> bool {
    v == 0 || v == 1 || v == 2 || v == 3 || v == 11 || v == 12 || v == 13 || v == 14 || v == 15
        || v == 16 || v == 20
}

/// The handshake type a known byte names.
pub open spec fn handshake_type_of(v: u8) -> HandshakeType
    recommends is_handshake_type_byte(v),
{
    if v == 0 {
        HandshakeType::HelloRequest
    } else if v == 1 {
        HandshakeType::ClientHello
    } else if v == 2 {
        HandshakeType::ServerHello
    } else if v == 3 {
        HandshakeType::HelloVerifyRequest
    } else if v == 11 {
        HandshakeType::Certificate
    } else if v == 12 {
        HandshakeType::ServerKeyExchange
    } else if v == 13 {
        HandshakeType::CertificateRequest
    } else if v == 14 {
        HandshakeType::ServerHelloDone
    } else if v == 15 {
        HandshakeType::CertificateVerify
    } else if v == 16 {
        HandshakeType::ClientKeyExchange
    } else {
        HandshakeType::Finished
    }
}

impl HandshakeType {
    pub open spec fn spec_to_u8(self) -> u8 {
        match self {
            HandshakeType::HelloRequest => 0,
            HandshakeType::ClientHello => 1,
            HandshakeType::ServerHello => 2,
            HandshakeType::HelloVerifyRequest => 3,
            HandshakeType::Certificate => 11,
            HandshakeType::ServerKeyExchange => 12,
            HandshakeType::CertificateRequest => 13,
            HandshakeType::ServerHelloDone => 14,
            HandshakeType::CertificateVerify => 15,
            HandshakeType::ClientKeyExchange => 16,
            HandshakeType::Finished => 20,
        }
    }

    pub fn to_u8(self) -> (r: u8)
        ensures
            r == self.spec_to_u8(),
    {
        match self {
            HandshakeType::HelloRequest => 0,
            HandshakeType::ClientHello => 1,
            HandshakeType::ServerHello => 2,
            HandshakeType::HelloVerifyRequest => 3,
            HandshakeType::Certificate => 11,
            HandshakeType::ServerKeyExchange => 12,
            HandshakeType::CertificateRequest => 13,
            HandshakeType::ServerHelloDone => 14,
            HandshakeType::CertificateVerify => 15,
            HandshakeType::ClientKeyExchange => 16,
            HandshakeType::Finished => 20,
        }
    }

    /// Recognize a handshake type byte; any other value is an error.
    pub fn try_from_u8(value: u8) -> (r: Result<HandshakeType, DtlsError>)
        ensures
            match r {
                Ok(t) => is_handshake_type_byte(value) && t == handshake_type_of(value),
                Err(e) => !is_handshake_type_byte(value) && e == DtlsError::UnknownHandshakeType,
            },
    {
        match value {
            0 => Ok(HandshakeType::HelloRequest),
            1 => Ok(HandshakeType::ClientHello),
            2 => Ok(HandshakeType::ServerHello),
            3 => Ok(HandshakeType::HelloVerifyRequest),
            11 => Ok(HandshakeType::Certificate),
            12 => Ok(HandshakeType::ServerKeyExchange),
            13 => Ok(HandshakeType::CertificateRequest),
            14 => Ok(HandshakeType::ServerHelloDone),
            15 => Ok(HandshakeType::CertificateVerify),
            16 => Ok(HandshakeType::ClientKeyExchange),
            20 => Ok(HandshakeType::Finished),
            _ => Err(DtlsError::UnknownHandshakeType),
        }
    }
}

// ---------------------------------------------------------------------------
// Handshake header
// ---------------------------------------------------------------------------

/// The header of one handshake message. For this engine the message is
/// never fragmented: fragment_offset is 0 and fragment_length equals
/// length.
#[derive(Clone, Copy, Debug, PartialEq, Eq, Structural)]
pub struct HandshakeHeader {
    pub handshake_type: HandshakeType,
    pub length: u32,
    pub message_seq: u16,
    pub fragment_offset: u32,
    pub fragment_length: u32,
}

/// The 12-byte wire form of a handshake header.
pub open spec fn enc_handshake_header(h: HandshakeHeader) -> Seq<u8>
    recommends h.wf(),
{
    seq![h.handshake_type.spec_to_u8()] + u24_be(h.length as int) + u16_be(h.message_seq as int)
        + u24_be(h.fragment_offset as int) + u24_be(h.fragment_length as int)
}

/// Decode a handshake header from `s` at position `i`, rejecting unknown
/// types and fragmented messages.
pub open spec fn dec_handshake_header(s: Seq<u8>, i: int) -> Result<
    (HandshakeHeader, int),
    DtlsError,
>
    recommends 0 <= i <= s.len(),
{
    if s.len() - i < 1 {
        Err(DtlsError::OutOfRange)
    } else if !is_handshake_type_byte(s[i]) {
        Err(DtlsError::UnknownHandshakeType)
    } else if s.len() - i < 12 {
        Err(DtlsError::OutOfRange)
    } else if be3(s, i + 6) != 0 || be3(s, i + 9) != be3(s, i + 1) {
        Err(DtlsError::FragmentedHandshake)
    } else {
        Ok(
            (
                HandshakeHeader {
                    handshake_type: handshake_type_of(s[i]),
                    length: be3(s, i + 1) as u32,
                    message_seq: be2(s, i + 4) as u16,
                    fragment_offset: be3(s, i + 6) as u32,
                    fragment_length: be3(s, i + 9) as u32,
                },
                i + 12,
            ),
        )
    }
}

impl HandshakeHeader {
    /// Lengths fit 24 bits and the message is unfragmented.
    pub open spec fn wf(&self) -> bool {
        self.length <= MAX_U24 && self.fragment_offset == 0 && self.fragment_length == self.length
    }

    pub fn new(
        handshake_type: HandshakeType,
        length: u32,
        message_seq: u16,
        fragment_offset: u32,
        fragment_length: u32,
    ) -> (r: Self)
        ensures
            r == (HandshakeHeader {
                handshake_type,
                length,
                message_seq,
                fragment_offset,
                fragment_length,
            }),
    {
        Self { handshake_type, length, message_seq, fragment_offset, fragment_length }
    }

    pub fn decode(reader: &mut BufReader) -> (r: Result<Self, DtlsError>)
        requires
            old(reader).wf(),
        ensures
            final(reader).wf(),
            final(reader).bytes() == old(reader).bytes(),
            match r {
                Ok(h) => {
                    &&& dec_handshake_header(old(reader).bytes(), old(reader).cur())
                        == Ok::<(HandshakeHeader, int), DtlsError>((h, final(reader).cur()))
                    &&& h.wf()
                },
                Err(e) => dec_handshake_header(old(reader).bytes(), old(reader).cur()) == Err::<
                    (HandshakeHeader, int),
                    DtlsError,
                >(e),
            },
    {
        let type_byte = reader.read_u8()?;
        let handshake_type = HandshakeType::try_from_u8(type_byte)?;
        let length = reader.read_u24()?;
        let message_seq = reader.read_u16()?;
        let fragment_offset = reader.read_u24()?;
        let fragment_length = reader.read_u24()?;
        if fragment_offset != 0 || fragment_length != length {
            return Err(DtlsError::FragmentedHandshake);
        }
        Ok(Self { handshake_type, length, message_seq, fragment_offset, fragment_length })
    }

    pub fn encode(&self, writer: &mut BufWriter)
        requires
            self.wf(),
        ensures
            final(writer)@ == old(writer)@ + enc_handshake_header(*self),
    {
        writer.write_u8(self.handshake_type.to_u8());
        writer.write_u24(self.length);
        writer.write_u16(self.message_seq);
        writer.write_u24(self.fragment_offset);
        writer.write_u24(self.fragment_length);
        assert(writer@ =~= old(writer)@ + enc_handshake_header(*self));
    }
}

/// Decoding the encoding of a well-formed handshake header yields the
/// header back, consuming exactly its 12 bytes.
pub proof fn lemma_handshake_header_round_trip(h: HandshakeHeader)
    requires
        h.wf(),
    ensures
        enc_handshake_header(h).len() == 12,
        dec_handshake_header(enc_handshake_header(h), 0) == Ok::<(HandshakeHeader, int), DtlsError>(
            (h, 12),
        ),
{
    let s = enc_handshake_header(h);
    lemma_u24_be_round_trip(h.length as int);
    lemma_u16_be_round_trip(h.message_seq as int);
    lemma_u24_be_round_trip(h.fragment_offset as int);
    lemma_u24_be_round_trip(h.fragment_length as int);
    assert(s[0] == h.handshake_type.spec_to_u8());
    assert(be3(s, 1) == be3(u24_be(h.length as int), 0));
    assert(be2(s, 4) == be2(u16_be(h.message_seq as int), 0));
    assert(be3(s, 6) == be3(u24_be(h.fragment_offset as int), 0));
    assert(be3(s, 9) == be3(u24_be(h.fragment_length as int), 0));
}

// ---------------------------------------------------------------------------
// The shape every outbound handshake message shares
// ---------------------------------------------------------------------------

/// An outbound handshake message: it knows its handshake type and writes
/// its body, whose exact bytes its specification states.
pub trait HandshakeMessage {
    /// The value is fit to serialize.
    spec fn wf(&self) -> bool;

    /// The handshake type of this message.
    spec fn spec_type(&self) -> HandshakeType;

    /// The exact body bytes this message encodes to.
    spec fn spec_enc(&self) -> Seq<u8>;

    fn get_handshake_type(&self) -> (t: HandshakeType)
        ensures
            t == self.spec_type(),
    ;

    fn encode(&self, writer: &mut BufWriter)
        requires
            self.wf(),
        ensures
            final(writer)@ == old(writer)@ + self.spec_enc(),
    ;
}

} // verus!
