//! The 13-byte DTLS record header: content type, protocol version, epoch,
//! 48-bit sequence number and payload length, with its exact wire codec.

use vstd::prelude::*;
use crate::buffer::{be2, be6, u16_be, u48_be, BufReader, BufWriter};
use crate::buffer::{lemma_u16_be_round_trip, lemma_u48_be_round_trip};
use crate::errors::DtlsError;

verus! {

/// A record header occupies exactly 13 bytes: 1 + 2 + 2 + 6 + 2.
pub const RECORD_HEADER_LENGTH: usize = 13;

/// The largest value a 48-bit sequence number can hold.
pub const MAX_SEQUENCE_NUMBER: u64 = 0xFFFF_FFFF_FFFF;

// ---------------------------------------------------------------------------
// Content type
// ---------------------------------------------------------------------------

/// The record-layer content types of DTLS.
#[derive(Clone, Copy, Debug, PartialEq, Eq, Structural)]
pub enum ContentType {
    ChangeCipherSpec,
    Alert,
    Handshake,
    ApplicationData,
}

/// Whether `v` is a known content type byte.
pub open spec fn is_content_type_byte(v: u8) -> bool {
    v == 20 || v == 21 || v == 22 || v == 23
}

/// The content type a known byte names.
pub open spec fn content_type_of(v: u8) -> ContentType
    recommends is_content_type_byte(v),
{
    if v == 20 {
        ContentType::ChangeCipherSpec
    } else if v == 21 {
        ContentType::Alert
    } else if v == 22 {
        ContentType::Handshake
    } else {
        ContentType::ApplicationData
    }
}

impl ContentType {
    pub open spec fn spec_to_u8(self) -> u8 {
        match self {
            ContentType::ChangeCipherSpec => 20,
            ContentType::Alert => 21,
            ContentType::Handshake => 22,
            ContentType::ApplicationData => 23,
        }
    }

    pub fn to_u8(self) -> (r: u8)
        ensures
            r == self.spec_to_u8(),
    {
        match self {
            ContentType::ChangeCipherSpec => 20,
            ContentType::Alert => 21,
            ContentType::Handshake => 22,
            ContentType::ApplicationData => 23,
        }
    }

    /// Recognize a content type byte; any other value is an error.
    pub fn try_from_u8(value: u8) -> (r: Result<ContentType, DtlsError>)
        ensures
            match r {
                Ok(t) => is_content_type_byte(value) && t == content_type_of(value),
                Err(e) => !is_content_type_byte(value) && e == DtlsError::UnknownContentType,
            },
    {
        match value {
            20 => Ok(ContentType::ChangeCipherSpec),
            21 => Ok(ContentType::Alert),
            22 => Ok(ContentType::Handshake),
            23 => Ok(ContentType::ApplicationData),
            _ => Err(DtlsError::UnknownContentType),
        }
    }
}

// ---------------------------------------------------------------------------
// Protocol version
// ---------------------------------------------------------------------------

/// A DTLS protocol version as (major, minor). Only 1.0 and 1.2 are
/// recognized; on the wire they are 0xFEFF and 0xFEFD.
#[derive(Clone, Copy, Debug, PartialEq, Eq, Structural)]
pub struct DtlsVersion {
    pub major: u8,
    pub minor: u8,
}

/// Whether `v` is a recognized version word.
pub open spec fn is_version_word(v: int) -> bool {
    v == 0xfeff || v == 0xfefd
}

/// The version a recognized word names.
pub open spec fn version_of(v: int) -> DtlsVersion
    recommends is_version_word(v),
{
    if v == 0xfeff {
        DtlsVersion { major: 1, minor: 0 }
    } else {
        DtlsVersion { major: 1, minor: 2 }
    }
}

impl DtlsVersion {
    /// Only DTLS 1.0 and 1.2 exist for this engine.
    pub open spec fn wf(&self) -> bool {
        self.major == 1 && (self.minor == 0 || self.minor == 2)
    }

    /// The wire word of this version.
    pub open spec fn spec_to_u16(self) -> u16
        recommends self.wf(),
    {
        if self.minor == 0 {
            0xfeff
        } else {
            0xfefd
        }
    }

    pub fn new(major: u8, minor: u8) -> (r: Self)
        ensures
            r == (DtlsVersion { major, minor }),
    {
        Self { major, minor }
    }

    /// Recognize a version word; any other value is an error.
    pub fn try_from_u16(value: u16) -> (r: Result<Self, DtlsError>)
        ensures
            match r {
                Ok(v) => is_version_word(value as int) && v == version_of(value as int),
                Err(e) => !is_version_word(value as int) && e == DtlsError::UnknownVersion,
            },
    {
        if value == 0xfeff {
            Ok(DtlsVersion { major: 1, minor: 0 })
        } else if value == 0xfefd {
            Ok(DtlsVersion { major: 1, minor: 2 })
        } else {
            Err(DtlsError::UnknownVersion)
        }
    }

    pub fn encode(&self, writer: &mut BufWriter)
        requires
            self.wf(),
        ensures
            final(writer)@ == old(writer)@ + u16_be(self.spec_to_u16() as int),
    {
        if self.minor == 0 {
            writer.write_u16(0xfeff);
        } else {
            writer.write_u16(0xfefd);
        }
    }
}

// ---------------------------------------------------------------------------
// Record header
// ---------------------------------------------------------------------------

/// The header of one DTLS record. `length` states the byte count of the
/// payload that follows the header.
#[derive(Clone, Copy, Debug, PartialEq, Eq, Structural)]
pub struct RecordHeader {
    pub content_type: ContentType,
    pub version: DtlsVersion,
    pub epoch: u16,
    pub sequence_number: u64,
    pub length: u16,
}

/// The 13-byte wire form of a record header.
pub open spec fn enc_record_header(h: RecordHeader) -> Seq<u8>
    recommends h.wf(),
{
    seq![h.content_type.spec_to_u8()] + u16_be(h.version.spec_to_u16() as int) + u16_be(
        h.epoch as int,
    ) + u48_be(h.sequence_number as int) + u16_be(h.length as int)
}

/// Decode a record header from `s` at position `i`: the header value and
/// the position just past it, or the error the bytes force.
pub open spec fn dec_record_header(s: Seq<u8>, i: int) -> Result<(RecordHeader, int), DtlsError>
    recommends 0 <= i <= s.len(),
{
    if s.len() - i < 1 {
        Err(DtlsError::OutOfRange)
    } else if !is_content_type_byte(s[i]) {
        Err(DtlsError::UnknownContentType)
    } else if s.len() - i < 3 {
        Err(DtlsError::OutOfRange)
    } else if !is_version_word(be2(s, i + 1)) {
        Err(DtlsError::UnknownVersion)
    } else if s.len() - i < 13 {
        Err(DtlsError::OutOfRange)
    } else {
        Ok(
            (
                RecordHeader {
                    content_type: content_type_of(s[i]),
                    version: version_of(be2(s, i + 1)),
                    epoch: be2(s, i + 3) as u16,
                    sequence_number: be6(s, i + 5) as u64,
                    length: be2(s, i + 11) as u16,
                },
                i + 13,
            ),
        )
    }
}

impl RecordHeader {
    /// The version is recognized and the sequence number fits in 48 bits.
    pub open spec fn wf(&self) -> bool {
        self.version.wf() && self.sequence_number <= MAX_SEQUENCE_NUMBER
    }

    pub fn new(
        content_type: ContentType,
        version: DtlsVersion,
        epoch: u16,
        sequence_number: u64,
        length: u16,
    ) -> (r: Self)
        ensures
            r == (RecordHeader { content_type, version, epoch, sequence_number, length }),
    {
        Self { content_type, version, epoch, sequence_number, length }
    }

    pub fn decode(reader: &mut BufReader) -> (r: Result<Self, DtlsError>)
        requires
            old(reader).wf(),
        ensures
            final(reader).wf(),
            final(reader).bytes() == old(reader).bytes(),
            match r {
                Ok(h) => {
                    &&& dec_record_header(old(reader).bytes(), old(reader).cur())
                        == Ok::<(RecordHeader, int), DtlsError>((h, final(reader).cur()))
                    &&& h.wf()
                },
                Err(e) => dec_record_header(old(reader).bytes(), old(reader).cur()) == Err::<
                    (RecordHeader, int),
                    DtlsError,
                >(e),
            },
    {
        let content_type_byte = reader.read_u8()?;
        let content_type = ContentType::try_from_u8(content_type_byte)?;
        let version_word = reader.read_u16()?;
        let version = DtlsVersion::try_from_u16(version_word)?;
        let epoch = reader.read_u16()?;
        let sequence_number = reader.read_u48()?;
        let length = reader.read_u16()?;
        Ok(Self { content_type, version, epoch, sequence_number, length })
    }

    pub fn encode(&self, writer: &mut BufWriter)
        requires
            self.wf(),
        ensures
            final(writer)@ == old(writer)@ + enc_record_header(*self),
    {
        writer.write_u8(self.content_type.to_u8());
        self.version.encode(writer);
        writer.write_u16(self.epoch);
        writer.write_u48(self.sequence_number);
        writer.write_u16(self.length);
        assert(writer@ =~= old(writer)@ + enc_record_header(*self));
    }
}

/// Decoding the encoding of a well-formed record header yields the header
/// back, consuming exactly its 13 bytes.
pub proof fn lemma_record_header_round_trip(h: RecordHeader)
    requires
        h.wf(),
    ensures
        enc_record_header(h).len() == 13,
        dec_record_header(enc_record_header(h), 0) == Ok::<(RecordHeader, int), DtlsError>((h, 13)),
{
    let s = enc_record_header(h);
    lemma_u16_be_round_trip(h.version.spec_to_u16() as int);
    lemma_u16_be_round_trip(h.epoch as int);
    lemma_u48_be_round_trip(h.sequence_number as int);
    lemma_u16_be_round_trip(h.length as int);
    assert(s[0] == h.content_type.spec_to_u8());
    assert(be2(s, 1) == be2(u16_be(h.version.spec_to_u16() as int), 0));
    assert(be2(s, 3) == be2(u16_be(h.epoch as int), 0));
    assert(be6(s, 5) == be6(u48_be(h.sequence_number as int), 0));
    assert(be2(s, 11) == be2(u16_be(h.length as int), 0));
}

// ---------------------------------------------------------------------------
// Record framing
// ---------------------------------------------------------------------------

/// Parse one datagram as a record: the header and the payload it frames.
/// The payload must have exactly the length the header states.
pub open spec fn dec_record(s: Seq<u8>) -> Result<(RecordHeader, Seq<u8>), DtlsError> {
    match dec_record_header(s, 0) {
        Err(e) => Err(e),
        Ok((h, j)) => if s.len() - j == h.length {
            Ok((h, s.subrange(j, s.len() as int)))
        } else {
            Err(DtlsError::LengthMismatch)
        },
    }
}

/// Split a datagram into its record header and payload, rejecting any
/// datagram whose payload length disagrees with the header.
pub fn parse_record(data: &[u8]) -> (r: Result<(RecordHeader, Vec<u8>), DtlsError>)
    ensures
        match r {
            Ok((h, p)) => dec_record(data@) == Ok::<(RecordHeader, Seq<u8>), DtlsError>((h, p@)) && h.wf(),
            Err(e) => dec_record(data@) == Err::<(RecordHeader, Seq<u8>), DtlsError>(e),
        },
{
    let mut reader = BufReader::new(data);
    let header = match RecordHeader::decode(&mut reader) {
        Ok(h) => h,
        Err(e) => {
            return Err(e);
        },
    };
    let rest = data.len() - 13;
    if rest != header.length as usize {
        return Err(DtlsError::LengthMismatch);
    }
    let payload = reader.read_exact(rest)?;
    Ok((header, payload))
}

} // verus!
