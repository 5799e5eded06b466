use dtls::common::{bytes_eq, CipherSuiteId, CompressionMethodId, Cookie};
use dtls::errors::DtlsError;
use dtls::extension::ExtensionValue;
use dtls::machine::{Flight2Context, PeerSession};

#[test]
fn test_cipher_suite_id_mapping() {
    assert_eq!(
        CipherSuiteId::from_u16(0xc02b),
        CipherSuiteId::TlsEcdheEcdsaWithAes128GcmSha256
    );
    assert_eq!(CipherSuiteId::from_u16(0x1301), CipherSuiteId::Unsupported);
    assert_eq!(
        CipherSuiteId::TlsEcdheEcdsaWithAes128GcmSha256.to_u16(),
        0xc02b
    );
}

#[test]
fn test_compression_method_id_mapping() {
    assert_eq!(CompressionMethodId::from_u8(0), CompressionMethodId::Null);
    assert_eq!(CompressionMethodId::from_u8(1), CompressionMethodId::Unsupported);
    assert_eq!(CompressionMethodId::Null.to_u8(), 0);
}

#[test]
fn test_extension_value_mapping() {
    assert_eq!(
        ExtensionValue::try_from_u16(14).unwrap(),
        ExtensionValue::UseSrtp
    );
    assert_eq!(
        ExtensionValue::try_from_u16(65281).unwrap(),
        ExtensionValue::RenegotiationInfo
    );
    assert!(ExtensionValue::try_from_u16(5).is_err());
}

#[test]
fn test_cookie_generation() {
    let cookie = Cookie::new();
    assert_eq!(cookie.0.len(), 20);
}

#[test]
fn test_flight2_context_cookie() {
    let context = Flight2Context::new();
    let cookie = context.cookie();
    assert_eq!(cookie.len(), 20);
    assert!(context.matches(cookie.as_slice()));
    let mut other = cookie.clone();
    other[19] = other[19].wrapping_add(1);
    assert!(!context.matches(other.as_slice()));
}

#[test]
fn test_bytes_eq_comparison() {
    assert!(bytes_eq(&[1, 2, 3], &[1, 2, 3]));
    assert!(!bytes_eq(&[1, 2, 3], &[1, 2, 4]));
    assert!(!bytes_eq(&[1, 2, 3], &[1, 2]));
    assert!(bytes_eq(&[], &[]));
}

#[test]
fn test_increment_epoch_resets_sequence() {
    let mut session = PeerSession::new(3);
    session.record_seq = 41;
    session.increment_epoch();
    assert_eq!(session.epoch, 1);
    assert_eq!(session.record_seq, 0);
}

#[test]
fn test_error_descriptions() {
    assert_eq!(DtlsError::OutOfRange.describe(), "out of index");
    assert_eq!(DtlsError::UnknownContentType.describe(), "invalid content type");
    assert_eq!(
        DtlsError::NoCipherSuite.describe(),
        "no acceptable cipher suite"
    );
}
