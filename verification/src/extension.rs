//! The extension codes a ClientHello may carry. Extension bodies are
//! tolerated and ignored by this engine; the codes are kept for logging
//! and for future negotiation work.

use vstd::prelude::*;
use crate::errors::DtlsError;

verus! {

/// The extension codes this engine recognizes by number.
#[derive(Clone, Copy, Debug, PartialEq, Eq, Structural)]
pub enum ExtensionValue {
    ServerName,
    SupportedEllipticCurves,
    SupportedPointFormats,
    SupportedSignatureAlgorithms,
    UseSrtp,
    Alpn,
    UseExtendedMasterSecret,
    RenegotiationInfo,
}

/// Whether `v` is a recognized extension code.
pub open spec fn is_extension_word(v: u16) -> bool {
    v == 0 || v == 10 || v == 11 || v == 13 || v == 14 || v == 16 || v == 23 || v == 65281
}

/// The extension a recognized code names.
pub open spec fn extension_of(v: u16) -> ExtensionValue
    recommends is_extension_word(v),
{
    if v == 0 {
        ExtensionValue::ServerName
    } else if v == 10 {
        ExtensionValue::SupportedEllipticCurves
    } else if v == 11 {
        ExtensionValue::SupportedPointFormats
    } else if v == 13 {
        ExtensionValue::SupportedSignatureAlgorithms
    } else if v == 14 {
        ExtensionValue::UseSrtp
    } else if v == 16 {
        ExtensionValue::Alpn
    } else if v == 23 {
        ExtensionValue::UseExtendedMasterSecret
    } else {
        ExtensionValue::RenegotiationInfo
    }
}

impl ExtensionValue {
    /// Recognize an extension code; any other value is an error.
    pub fn try_from_u16(value: u16) -> (r: Result<ExtensionValue, DtlsError>)
        ensures
            match r {
                Ok(v) => is_extension_word(value) && v == extension_of(value),
                Err(e) => !is_extension_word(value) && e == DtlsError::UnknownHandshakeType,
            },
    {
        match value {
            0 => Ok(ExtensionValue::ServerName),
            10 => Ok(ExtensionValue::SupportedEllipticCurves),
            11 => Ok(ExtensionValue::SupportedPointFormats),
            13 => Ok(ExtensionValue::SupportedSignatureAlgorithms),
            14 => Ok(ExtensionValue::UseSrtp),
            16 => Ok(ExtensionValue::Alpn),
            23 => Ok(ExtensionValue::UseExtendedMasterSecret),
            65281 => Ok(ExtensionValue::RenegotiationInfo),
            _ => Err(DtlsError::UnknownHandshakeType),
        }
    }
}

} // verus!
