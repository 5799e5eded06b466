//! Error kinds of the handshake engine: codec errors on malformed input,
//! protocol errors during negotiation, and crypto failures.

use vstd::prelude::*;

verus! {

/// Why an inbound record or handshake message was refused, or why an
/// outbound message could not be built.
#[derive(Clone, Copy, Debug, PartialEq, Eq, Structural)]
pub enum DtlsError {
    /// A read ran past the end of the buffer.
    OutOfRange,
    /// The record's content type byte names no known content type.
    UnknownContentType,
    /// The version field is neither DTLS 1.0 nor DTLS 1.2.
    UnknownVersion,
    /// The handshake type byte names no known handshake type.
    UnknownHandshakeType,
    /// A length field disagrees with the bytes that follow it.
    LengthMismatch,
    /// A handshake message is fragmented, which this engine does not support.
    FragmentedHandshake,
    /// A certificate type or signature algorithm byte names no known value.
    UnknownAlgorithm,
    /// A HelloVerifyRequest cookie is not exactly 20 bytes.
    BadCookieLength,
    /// The ClientHello offers no cipher suite that the engine accepts.
    NoCipherSuite,
    /// A handshake message arrived that the current flight does not expect.
    UnexpectedMessage,
    /// Producing the ServerKeyExchange signature failed.
    SigningFailure,
    /// A public key or certificate is too large to serialize.
    BadPublicKey,
}

impl DtlsError {
    /// A short operator-facing description of the error.
    pub fn describe(&self) -> (r: &'static str)
    {
        match self {
            DtlsError::OutOfRange => "out of index",
            DtlsError::UnknownContentType => "invalid content type",
            DtlsError::UnknownVersion => "invalid dtls version",
            DtlsError::UnknownHandshakeType => "invalid handshake type",
            DtlsError::LengthMismatch => "length mismatch",
            DtlsError::FragmentedHandshake => "fragmented handshake not supported",
            DtlsError::UnknownAlgorithm => "invalid algorithm",
            DtlsError::BadCookieLength => "invalid cookie; expected 20 bytes",
            DtlsError::NoCipherSuite => "no acceptable cipher suite",
            DtlsError::UnexpectedMessage => "unexpected handshake type for current state",
            DtlsError::SigningFailure => "signing failure",
            DtlsError::BadPublicKey => "malformed public key",
        }
    }
}

} // verus!
