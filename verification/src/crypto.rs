//! Crypto adapter: the certificate provider, ECDSA signing, SHA-256 and
//! randomness, each behind a small trusted interface, plus the verified
//! rendering of certificate fingerprints.

use vstd::prelude::*;
use sha2::Digest;

verus! {

/// The SHA-256 digest of a byte sequence: a function of the input alone,
/// named here and never written out.
pub uninterp spec fn sha256_of(data: Seq<u8>) -> Seq<u8>;

/// Relies on sha2::Sha256::digest: returns the 32-byte SHA-256 digest of
/// the input, which depends on the input bytes alone.
#[verifier::external_body]
pub(crate) fn sha256(data: &[u8]) -> (r: Vec<u8>)
    ensures
        r@ == sha256_of(data@),
        r@.len() == 32,
{
    sha2::Sha256::digest(data).to_vec()
}

/// Relies on rand::fill: a buffer of `n` bytes drawn from the thread-local
/// generator. Nothing is promised of the contents.
#[verifier::external_body]
pub(crate) fn random_bytes(n: usize) -> (r: Vec<u8>)
    ensures
        r@.len() == n as int,
{
    let mut buf = vec![0u8; n];
    rand::fill(buf.as_mut_slice());
    buf
}

/// Relies on std::time::SystemTime::now, reduced to whole seconds since the
/// Unix epoch; 0 when the clock reads earlier than the epoch.
#[verifier::external_body]
pub(crate) fn unix_time_now() -> (r: u32)
{
    match std::time::SystemTime::now().duration_since(std::time::SystemTime::UNIX_EPOCH) {
        Ok(d) => d.as_secs() as u32,
        Err(_) => 0,
    }
}

#[verifier::external_type_specification]
#[verifier::external_body]
pub struct ExKeyPair(rcgen::KeyPair);

#[verifier::external_type_specification]
#[verifier::external_body]
pub struct ExRcgenError(rcgen::Error);

/// Relies on rcgen::generate_simple_self_signed: a fresh self-signed
/// certificate as DER bytes, together with its ECDSA P-256 signing key.
/// The certificate is freshly generated, so nothing is promised of it.
#[verifier::external_body]
pub(crate) fn generate_certificate() -> (r: Result<(Vec<u8>, rcgen::KeyPair), rcgen::Error>)
{
    match rcgen::generate_simple_self_signed(vec!["localhost".to_string()]) {
        Ok(ck) => Ok((ck.cert.der().to_vec(), ck.signing_key)),
        Err(e) => Err(e),
    }
}

/// Relies on rcgen's SigningKey impl for KeyPair: an ECDSA signature over
/// `msg`. The signature is randomized, so nothing is promised of it.
pub assume_specification[ <rcgen::KeyPair as rcgen::SigningKey>::sign ](
    key: &rcgen::KeyPair,
    msg: &[u8],
) -> (r: Result<Vec<u8>, rcgen::Error>);

/// Relies on String::from_utf8: ASCII bytes decode to the string whose
/// characters have the same code points.
#[verifier::external_body]
pub(crate) fn ascii_to_string(bytes: Vec<u8>) -> (r: String)
    requires
        forall|i: int| 0 <= i < bytes@.len() ==> bytes@[i] < 128,
    ensures
        r@.len() == bytes@.len(),
        forall|i: int| 0 <= i < r@.len() ==> r@[i] as int == bytes@[i] as int,
{
    String::from_utf8(bytes).unwrap_or_default()
}

// ---------------------------------------------------------------------------
// Fingerprint rendering: upper-case hex, colon-separated.
// ---------------------------------------------------------------------------

/// The ASCII byte of the upper-case hex digit for `v` in 0..16.
pub open spec fn hex_digit(v: int) -> u8
    recommends 0 <= v < 16,
{
    if v < 10 {
        (0x30 + v) as u8
    } else {
        (0x41 + (v - 10)) as u8
    }
}

/// The two hex digits of one byte.
pub open spec fn hex_pair(b: u8) -> Seq<u8> {
    seq![hex_digit(b as int / 16), hex_digit(b as int % 16)]
}

/// Upper-case hex rendering of `s`, bytes separated by ':'.
pub open spec fn hex_colon(s: Seq<u8>) -> Seq<u8>
    decreases s.len(),
{
    if s.len() == 0 {
        Seq::empty()
    } else if s.len() == 1 {
        hex_pair(s[0])
    } else {
        hex_colon(s.drop_last()) + seq![0x3au8] + hex_pair(s.last())
    }
}

/// The rendering of `n` bytes takes `3n - 1` characters and is pure ASCII.
pub proof fn lemma_hex_colon_props(s: Seq<u8>)
    ensures
        s.len() == 0 ==> hex_colon(s).len() == 0,
        s.len() > 0 ==> hex_colon(s).len() == 3 * s.len() - 1,
        forall|j: int| 0 <= j < hex_colon(s).len() ==> #[trigger] hex_colon(s)[j] < 128,
    decreases s.len(),
{
    if s.len() > 1 {
        lemma_hex_colon_props(s.drop_last());
    }
}

/// Render bytes as upper-case hex, colon-separated ASCII.
pub fn hex_colon_bytes(s: &[u8]) -> (r: Vec<u8>)
    ensures
        r@ == hex_colon(s@),
{
    let n = s.len();
    let mut out: Vec<u8> = Vec::new();
    let mut k: usize = 0;
    while k < n
        invariant
            k <= n,
            n == s@.len(),
            out@ == hex_colon(s@.take(k as int)),
        decreases n - k,
    {
        if k > 0 {
            out.push(0x3a);
        }
        let b = s[k];
        let hi = b / 16;
        let lo = b % 16;
        out.push(if hi < 10 { 0x30 + hi } else { 0x41 + (hi - 10) });
        out.push(if lo < 10 { 0x30 + lo } else { 0x41 + (lo - 10) });
        k = k + 1;
        proof {
            let t = s@.take(k as int);
            assert(t.drop_last() =~= s@.take(k as int - 1));
            assert(t.last() == s@[k as int - 1]);
            assert(out@ =~= hex_colon(t));
        }
    }
    proof {
        assert(s@.take(n as int) =~= s@);
    }
    out
}

} // verus!
