//! Shared protocol values: cipher suites, compression methods, curve and
//! signature identifiers, the hash/signature algorithm pair, and the
//! 20-byte handshake cookie.

use vstd::prelude::*;
use crate::buffer::{u16_be, BufWriter};
use crate::crypto::random_bytes;
use crate::errors::DtlsError;

verus! {

/// The cookie issued in HelloVerifyRequest is exactly 20 bytes.
pub const COOKIE_LENGTH: usize = 20;

// ---------------------------------------------------------------------------
// Cipher suites
// ---------------------------------------------------------------------------

/// The only suite this engine negotiates is
/// TLS_ECDHE_ECDSA_WITH_AES_128_GCM_SHA256 (0xC02B); everything else is
/// carried as Unsupported and rejected during negotiation.
#[derive(Clone, Copy, Debug, PartialEq, Eq, Structural)]
pub enum CipherSuiteId {
    TlsEcdheEcdsaWithAes128GcmSha256,
    Unsupported,
}

impl CipherSuiteId {
    pub open spec fn spec_from_u16(value: u16) -> CipherSuiteId {
        if value == 0xc02b {
            CipherSuiteId::TlsEcdheEcdsaWithAes128GcmSha256
        } else {
            CipherSuiteId::Unsupported
        }
    }

    pub fn from_u16(value: u16) -> (r: CipherSuiteId)
        ensures
            r == CipherSuiteId::spec_from_u16(value),
    {
        if value == 0xc02b {
            CipherSuiteId::TlsEcdheEcdsaWithAes128GcmSha256
        } else {
            CipherSuiteId::Unsupported
        }
    }

    pub open spec fn spec_to_u16(self) -> u16 {
        match self {
            CipherSuiteId::TlsEcdheEcdsaWithAes128GcmSha256 => 0xc02b,
            CipherSuiteId::Unsupported => 0,
        }
    }

    pub fn to_u16(self) -> (r: u16)
        ensures
            r == self.spec_to_u16(),
    {
        match self {
            CipherSuiteId::TlsEcdheEcdsaWithAes128GcmSha256 => 0xc02b,
            CipherSuiteId::Unsupported => 0,
        }
    }
}

// ---------------------------------------------------------------------------
// Compression methods
// ---------------------------------------------------------------------------

/// Only the null compression method (0) is accepted.
#[derive(Clone, Copy, Debug, PartialEq, Eq, Structural)]
pub enum CompressionMethodId {
    Null,
    Unsupported,
}

impl CompressionMethodId {
    pub open spec fn spec_from_u8(value: u8) -> CompressionMethodId {
        if value == 0 {
            CompressionMethodId::Null
        } else {
            CompressionMethodId::Unsupported
        }
    }

    pub fn from_u8(value: u8) -> (r: CompressionMethodId)
        ensures
            r == CompressionMethodId::spec_from_u8(value),
    {
        if value == 0 {
            CompressionMethodId::Null
        } else {
            CompressionMethodId::Unsupported
        }
    }

    pub open spec fn spec_to_u8(self) -> u8 {
        match self {
            CompressionMethodId::Null => 0,
            CompressionMethodId::Unsupported => 255,
        }
    }

    pub fn to_u8(self) -> (r: u8)
        ensures
            r == self.spec_to_u8(),
    {
        match self {
            CompressionMethodId::Null => 0,
            CompressionMethodId::Unsupported => 255,
        }
    }
}

// ---------------------------------------------------------------------------
// Elliptic-curve and signature identifiers
// ---------------------------------------------------------------------------

/// Curve type field of ServerKeyExchange; only named curves (3) are used.
#[derive(Clone, Copy, Debug, PartialEq, Eq, Structural)]
pub enum ECCurveType {
    NamedCurve,
}

impl ECCurveType {
    pub open spec fn spec_to_u8(self) -> u8 {
        3
    }

    pub fn to_u8(self) -> (r: u8)
        ensures
            r == self.spec_to_u8(),
    {
        3
    }
}

/// The named curve sent in ServerKeyExchange; this engine uses X25519 (0x001D).
#[derive(Clone, Copy, Debug, PartialEq, Eq, Structural)]
pub enum ECCurve {
    Unsupported,
    X25519,
}

impl ECCurve {
    pub open spec fn spec_to_u16(self) -> u16 {
        match self {
            ECCurve::Unsupported => 0,
            ECCurve::X25519 => 0x001d,
        }
    }

    pub fn to_u16(self) -> (r: u16)
        ensures
            r == self.spec_to_u16(),
    {
        match self {
            ECCurve::Unsupported => 0,
            ECCurve::X25519 => 0x001d,
        }
    }
}

/// Hash algorithm of the signature pair; only SHA-256 (4) is used.
#[derive(Clone, Copy, Debug, PartialEq, Eq, Structural)]
pub enum HashAlgorithm {
    Sha256,
}

impl HashAlgorithm {
    pub open spec fn spec_to_u8(self) -> u8 {
        4
    }

    pub fn to_u8(self) -> (r: u8)
        ensures
            r == self.spec_to_u8(),
    {
        4
    }
}

/// Signature algorithm of the signature pair; only ECDSA (3) is used.
#[derive(Clone, Copy, Debug, PartialEq, Eq, Structural)]
pub enum SignatureAlgorithm {
    Ecdsa,
}

impl SignatureAlgorithm {
    pub open spec fn spec_to_u8(self) -> u8 {
        3
    }

    pub fn to_u8(self) -> (r: u8)
        ensures
            r == self.spec_to_u8(),
    {
        3
    }
}

/// Client certificate type requested in CertificateRequest; ECDSA (64).
#[derive(Clone, Copy, Debug, PartialEq, Eq, Structural)]
pub enum CertificateType {
    Ecdsa,
}

impl CertificateType {
    pub open spec fn spec_to_u8(self) -> u8 {
        64
    }

    pub fn to_u8(self) -> (r: u8)
        ensures
            r == self.spec_to_u8(),
    {
        64
    }
}

// ---------------------------------------------------------------------------
// Algorithm pair
// ---------------------------------------------------------------------------

/// A hash algorithm and a signature algorithm, serialized one byte each,
/// hash first.
#[derive(Clone, Copy, Debug, PartialEq, Eq, Structural)]
pub struct AlgoPair {
    pub hash: HashAlgorithm,
    pub signature: SignatureAlgorithm,
}

/// The 2-byte wire form of an algorithm pair.
pub open spec fn enc_algo_pair(a: AlgoPair) -> Seq<u8> {
    seq![a.hash.spec_to_u8(), a.signature.spec_to_u8()]
}

impl AlgoPair {
    pub fn encode(&self, writer: &mut BufWriter)
        ensures
            final(writer)@ == old(writer)@ + enc_algo_pair(*self),
    {
        writer.write_u8(self.hash.to_u8());
        writer.write_u8(self.signature.to_u8());
        assert(writer@ =~= old(writer)@ + enc_algo_pair(*self));
    }
}

// ---------------------------------------------------------------------------
// Cookie
// ---------------------------------------------------------------------------

/// The opaque 20-byte token a peer must echo to prove reachability.
#[derive(Debug, Clone)]
pub struct Cookie(pub Vec<u8>);

impl Cookie {
    /// A cookie always holds exactly 20 bytes.
    pub open spec fn wf(&self) -> bool {
        self.0@.len() == COOKIE_LENGTH
    }

    /// Draw a fresh random 20-byte cookie.
    pub fn new() -> (r: Self)
        ensures
            r.wf(),
    {
        Cookie(random_bytes(COOKIE_LENGTH))
    }

    /// Accept exactly 20 bytes as a cookie; reject any other length.
    pub fn from_bytes(value: Vec<u8>) -> (r: Result<Self, DtlsError>)
        ensures
            match r {
                Ok(c) => value@.len() == COOKIE_LENGTH && c.0@ == value@,
                Err(e) => value@.len() != COOKIE_LENGTH && e == DtlsError::BadCookieLength,
            },
    {
        if value.len() != COOKIE_LENGTH {
            Err(DtlsError::BadCookieLength)
        } else {
            Ok(Cookie(value))
        }
    }
}

// ---------------------------------------------------------------------------
// Constant-time byte comparison
// ---------------------------------------------------------------------------

/// Compare two byte strings without an early exit on the first differing
/// byte: the whole prefix of the common length is always scanned.
pub fn bytes_eq(a: &[u8], b: &[u8]) -> (r: bool)
    ensures
        r == (a@ == b@),
{
    if a.len() != b.len() {
        return false;
    }
    let n = a.len();
    let mut diff: u8 = 0;
    let mut k: usize = 0;
    while k < n
        invariant
            k <= n,
            n == a@.len(),
            n == b@.len(),
            (diff == 0) <==> (forall|j: int| 0 <= j < k ==> a@[j] == b@[j]),
        decreases n - k,
    {
        let x = a[k] ^ b[k];
        proof {
            let av = a@[k as int];
            let bv = b@[k as int];
            assert(((av ^ bv) == 0) == (av == bv)) by (bit_vector);
            assert(forall|d: u8, y: u8| ((d | y) == 0) == (d == 0 && y == 0)) by (bit_vector);
        }
        diff = diff | x;
        k = k + 1;
    }
    if diff == 0 {
        proof {
            assert(a@ =~= b@);
        }
        true
    } else {
        false
    }
}

} // verus!
