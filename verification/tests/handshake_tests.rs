use dtls::buffer::{BufReader, BufWriter};
use dtls::certificate::Certificate;
use dtls::certificate_request::CertificateRequest;
use dtls::client_hello::ClientHello;
use dtls::client_key_exchange::ClientKeyExchange;
use dtls::common::{Cookie, CipherSuiteId, CompressionMethodId};
use dtls::errors::DtlsError;
use dtls::handshake::{HandshakeHeader, HandshakeType};
use dtls::hello_verify_request::HelloVerifyRequest;
use dtls::random::Random;
use dtls::record_header::{parse_record, ContentType, DtlsVersion, RecordHeader};
use dtls::server_hello::ServerHello;

#[test]
fn test_record_header_round_trip() {
    let header = RecordHeader::new(
        ContentType::Handshake,
        DtlsVersion::new(1, 2),
        7,
        0x1_0000_0002,
        512,
    );
    let mut writer = BufWriter::new();
    header.encode(&mut writer);
    let bytes = writer.buf();
    assert_eq!(bytes.len(), 13);
    let mut reader = BufReader::new(bytes.as_slice());
    let decoded = RecordHeader::decode(&mut reader).unwrap();
    assert_eq!(decoded, header);
}

#[test]
fn test_record_header_rejects_unknown_content_type() {
    let bytes = [99u8, 0xfe, 0xfd, 0, 0, 0, 0, 0, 0, 0, 0, 0, 0];
    let mut reader = BufReader::new(&bytes);
    assert_eq!(RecordHeader::decode(&mut reader), Err(DtlsError::UnknownContentType));
}

#[test]
fn test_record_header_rejects_unknown_version() {
    let bytes = [22u8, 0x03, 0x03, 0, 0, 0, 0, 0, 0, 0, 0, 0, 0];
    let mut reader = BufReader::new(&bytes);
    assert_eq!(RecordHeader::decode(&mut reader), Err(DtlsError::UnknownVersion));
}

#[test]
fn test_record_length_mismatch_rejected() {
    // header says 5 payload bytes but only 3 follow
    let header = RecordHeader::new(ContentType::Handshake, DtlsVersion::new(1, 2), 0, 0, 5);
    let mut writer = BufWriter::new();
    header.encode(&mut writer);
    writer.write_bytes(&[1, 2, 3]);
    let datagram = writer.buf();
    assert_eq!(
        parse_record(datagram.as_slice()).unwrap_err(),
        DtlsError::LengthMismatch
    );
}

#[test]
fn test_record_framing_round_trip() {
    let header = RecordHeader::new(ContentType::Handshake, DtlsVersion::new(1, 2), 0, 9, 3);
    let mut writer = BufWriter::new();
    header.encode(&mut writer);
    writer.write_bytes(&[1, 2, 3]);
    let datagram = writer.buf();
    let (decoded, payload) = parse_record(datagram.as_slice()).unwrap();
    assert_eq!(decoded, header);
    assert_eq!(payload, vec![1, 2, 3]);
}

#[test]
fn test_handshake_header_round_trip() {
    let header = HandshakeHeader::new(HandshakeType::ClientHello, 77, 3, 0, 77);
    let mut writer = BufWriter::new();
    header.encode(&mut writer);
    let bytes = writer.buf();
    assert_eq!(bytes.len(), 12);
    let mut reader = BufReader::new(bytes.as_slice());
    let decoded = HandshakeHeader::decode(&mut reader).unwrap();
    assert_eq!(decoded, header);
}

#[test]
fn test_fragmented_handshake_rejected() {
    // fragment_length 10 != length 20
    let header = HandshakeHeader::new(HandshakeType::ClientHello, 20, 0, 0, 10);
    let mut writer = BufWriter::new();
    header.encode(&mut writer);
    let bytes = writer.buf();
    let mut reader = BufReader::new(bytes.as_slice());
    assert_eq!(
        HandshakeHeader::decode(&mut reader),
        Err(DtlsError::FragmentedHandshake)
    );
}

#[test]
fn test_unknown_handshake_type_rejected() {
    assert_eq!(HandshakeType::try_from_u8(9), Err(DtlsError::UnknownHandshakeType));
    assert_eq!(HandshakeType::try_from_u8(1).unwrap(), HandshakeType::ClientHello);
}

#[test]
fn test_random_from_parts_length_check() {
    assert!(Random::from_parts(0, vec![1u8; 28]).is_ok());
    assert!(Random::from_parts(0, vec![1u8; 27]).is_err());
}

#[test]
fn test_random_round_trip() {
    let random = Random::new();
    let bytes = random.to_bytes();
    assert_eq!(bytes.len(), 32);
    let mut reader = BufReader::new(bytes.as_slice());
    let decoded = Random::decode(&mut reader).unwrap();
    assert_eq!(decoded.gmt_unix_time, random.gmt_unix_time);
    assert_eq!(decoded.random_bytes, random.random_bytes);
}

#[test]
fn test_hello_verify_request_round_trip() {
    let request = HelloVerifyRequest::new(DtlsVersion::new(1, 2));
    let mut writer = BufWriter::new();
    request.encode(&mut writer);
    let bytes = writer.buf();
    assert_eq!(bytes.len(), 23);
    let mut reader = BufReader::new(bytes.as_slice());
    let decoded = HelloVerifyRequest::decode(&mut reader).unwrap();
    assert_eq!(decoded.cookie.0, request.cookie.0);
    assert_eq!(decoded.version, request.version);
}

#[test]
fn test_hello_verify_request_cookie_length_rejected() {
    // a 19-byte cookie is refused
    let mut writer = BufWriter::new();
    DtlsVersion::new(1, 2).encode(&mut writer);
    writer.write_u8(19);
    writer.write_bytes(&[0xAB; 19]);
    let bytes = writer.buf();
    let mut reader = BufReader::new(bytes.as_slice());
    assert!(matches!(
        HelloVerifyRequest::decode(&mut reader),
        Err(DtlsError::BadCookieLength)
    ));
}

#[test]
fn test_cookie_from_bytes_length_check() {
    assert!(Cookie::from_bytes(vec![7u8; 20]).is_ok());
    assert_eq!(
        Cookie::from_bytes(vec![7u8; 21]).unwrap_err(),
        DtlsError::BadCookieLength
    );
}

#[test]
fn test_server_hello_round_trip() {
    let hello = ServerHello::new(DtlsVersion::new(1, 2), Random::new());
    let mut writer = BufWriter::new();
    hello.encode(&mut writer);
    let bytes = writer.buf();
    assert_eq!(bytes.len(), 38);
    let mut reader = BufReader::new(bytes.as_slice());
    let decoded = ServerHello::decode(&mut reader).unwrap();
    assert_eq!(decoded.version, hello.version);
    assert_eq!(decoded.session_id, hello.session_id);
    assert_eq!(decoded.cipher_suite_id, CipherSuiteId::TlsEcdheEcdsaWithAes128GcmSha256);
    assert_eq!(decoded.compression_method_id, CompressionMethodId::Null);
    assert_eq!(decoded.random.random_bytes, hello.random.random_bytes);
}

#[test]
fn test_certificate_round_trip() {
    let chain = vec![vec![1u8, 2, 3, 4], vec![5u8, 6]];
    let certificate = Certificate::new(chain.clone());
    let mut writer = BufWriter::new();
    certificate.encode(&mut writer);
    let bytes = writer.buf();
    let mut reader = BufReader::new(bytes.as_slice());
    let decoded = Certificate::decode(&mut reader).unwrap();
    assert_eq!(decoded.certificates, chain);
}

#[test]
fn test_certificate_decode_rejects_truncated_entry() {
    let mut writer = BufWriter::new();
    writer.write_u24(4);
    writer.write_u24(9);
    writer.write_u8(1);
    let bytes = writer.buf();
    let mut reader = BufReader::new(bytes.as_slice());
    assert!(matches!(Certificate::decode(&mut reader), Err(DtlsError::LengthMismatch)));
}

#[test]
fn test_certificate_request_round_trip() {
    let request = CertificateRequest::new();
    let mut writer = BufWriter::new();
    request.encode(&mut writer);
    let bytes = writer.buf();
    assert_eq!(bytes, vec![1, 64, 0, 2, 4, 3, 0, 0]);
    let mut reader = BufReader::new(bytes.as_slice());
    let decoded = CertificateRequest::decode(&mut reader).unwrap();
    assert_eq!(decoded.certificate_types, request.certificate_types);
    assert_eq!(decoded.supported_algo_pairs.len(), 1);
    assert!(decoded.certificate_authorities.is_empty());
}

#[test]
fn test_certificate_request_rejects_unknown_type() {
    // certificate type 1 (RSA) is not accepted by this engine
    let bytes = [1u8, 1, 0, 2, 4, 3, 0, 0];
    let mut reader = BufReader::new(&bytes);
    assert!(matches!(
        CertificateRequest::decode(&mut reader),
        Err(DtlsError::UnknownAlgorithm)
    ));
}

#[test]
fn test_client_key_exchange_round_trip() {
    let exchange = ClientKeyExchange { public_key: vec![9u8; 32] };
    let mut writer = BufWriter::new();
    exchange.encode(&mut writer);
    let bytes = writer.buf();
    assert_eq!(bytes.len(), 33);
    let mut reader = BufReader::new(bytes.as_slice());
    let decoded = ClientKeyExchange::decode(&mut reader).unwrap();
    assert_eq!(decoded.public_key, exchange.public_key);
}

#[test]
fn test_client_hello_reencode_exact() {
    // encode(decode(bytes)) == bytes when the extensions block is empty
    let hello = ClientHello {
        version: DtlsVersion::new(1, 2),
        random: Random::from_parts(0x5eed0123, vec![7u8; 28]).unwrap(),
        session_id: vec![0xAA, 0xBB],
        cookie: vec![0x11; 20],
        cipher_suite_ids: vec![0xc02b, 0x1301],
        compression_method_ids: vec![0],
        extensions: Vec::new(),
    };
    let mut writer = BufWriter::new();
    hello.encode(&mut writer);
    let bytes = writer.buf();
    let mut reader = BufReader::new(bytes.as_slice());
    let decoded = ClientHello::decode(&mut reader).unwrap();
    let mut rewriter = BufWriter::new();
    decoded.encode(&mut rewriter);
    assert_eq!(rewriter.buf(), bytes);
}

#[test]
fn test_client_hello_decode_truncated() {
    // random cut short
    let mut writer = BufWriter::new();
    writer.write_u16(0xfefd);
    writer.write_bytes(&[0u8; 10]);
    let bytes = writer.buf();
    let mut reader = BufReader::new(bytes.as_slice());
    assert!(matches!(ClientHello::decode(&mut reader), Err(DtlsError::OutOfRange)));
}
