use dtls::buffer::{BufReader, BufWriter};
use dtls::certificate::Certificate;
use dtls::client_hello::ClientHello;
use dtls::client_key_exchange::ClientKeyExchange;
use dtls::dispatcher::{DispatchEvent, DtlsServer};
use dtls::errors::DtlsError;
use dtls::handshake::{HandshakeHeader, HandshakeType};
use dtls::hello_verify_request::HelloVerifyRequest;
use dtls::machine::HandshakeFlightContext;
use dtls::random::Random;
use dtls::record_header::{parse_record, ContentType, DtlsVersion, RecordHeader};

fn handshake_datagram(handshake_type: HandshakeType, body: Vec<u8>) -> Vec<u8> {
    let mut handshake_writer = BufWriter::new();
    let header = HandshakeHeader::new(
        handshake_type,
        body.len() as u32,
        0,
        0,
        body.len() as u32,
    );
    header.encode(&mut handshake_writer);
    handshake_writer.write_bytes(body.as_slice());
    let message = handshake_writer.buf();
    let mut record_writer = BufWriter::new();
    let record_header = RecordHeader::new(
        ContentType::Handshake,
        DtlsVersion::new(1, 2),
        0,
        0,
        message.len() as u16,
    );
    record_header.encode(&mut record_writer);
    record_writer.write_bytes(message.as_slice());
    record_writer.buf()
}

fn client_hello_datagram(cookie: Vec<u8>, cipher_suite_ids: Vec<u16>) -> Vec<u8> {
    let hello = ClientHello {
        version: DtlsVersion::new(1, 2),
        random: Random::new(),
        session_id: Vec::new(),
        cookie,
        cipher_suite_ids,
        compression_method_ids: vec![0],
        extensions: Vec::new(),
    };
    let mut body_writer = BufWriter::new();
    hello.encode(&mut body_writer);
    handshake_datagram(HandshakeType::ClientHello, body_writer.buf())
}

fn extract_cookie(record: &[u8]) -> Vec<u8> {
    let (header, payload) = parse_record(record).unwrap();
    assert_eq!(header.content_type, ContentType::Handshake);
    let mut reader = BufReader::new(payload.as_slice());
    let handshake_header = HandshakeHeader::decode(&mut reader).unwrap();
    assert_eq!(handshake_header.handshake_type, HandshakeType::HelloVerifyRequest);
    assert_eq!(handshake_header.message_seq, 0);
    let request = HelloVerifyRequest::decode(&mut reader).unwrap();
    request.cookie.0
}

fn record_fields(record: &[u8]) -> (u8, u64, u16) {
    // handshake type byte, record sequence number, message_seq
    let (header, payload) = parse_record(record).unwrap();
    let mut reader = BufReader::new(payload.as_slice());
    let handshake_header = HandshakeHeader::decode(&mut reader).unwrap();
    (
        record[13],
        header.sequence_number,
        handshake_header.message_seq,
    )
}

#[test]
fn test_server_creation() {
    let server = DtlsServer::new();
    assert!(server.is_ok());
}

#[test]
fn test_fingerprint_format() {
    let server = DtlsServer::new().unwrap();
    let fingerprint = server.get_fingerprint();

    // SHA-256 fingerprint should be 64 hex chars + 31 colons = 95 chars
    assert_eq!(fingerprint.len(), 95);

    // Should contain colons
    assert!(fingerprint.contains(':'));

    // Should be all uppercase hex with colons
    assert!(
        fingerprint
            .chars()
            .all(|c| c.is_ascii_hexdigit() || c == ':')
    );
}

#[test]
fn test_fingerprint_uniqueness() {
    let server1 = DtlsServer::new().unwrap();
    let server2 = DtlsServer::new().unwrap();

    // Each server should have a unique certificate and fingerprint
    assert_ne!(server1.get_fingerprint(), server2.get_fingerprint());
}

#[test]
fn test_handle_empty_message() {
    let mut server = DtlsServer::new().unwrap();
    let (out, event) = server.handle_message(1, &[]);
    assert!(out.is_empty());
    assert_eq!(event, DispatchEvent::EmptyDatagram);
}

#[test]
fn test_handle_change_cipher_spec() {
    let mut server = DtlsServer::new().unwrap();
    let message = vec![20, 0, 0, 0, 0, 0, 0, 0, 0, 0, 0, 0, 1];
    let (out, event) = server.handle_message(1, message.as_slice());
    assert!(out.is_empty());
    assert_eq!(event, DispatchEvent::ChangeCipherSpec);
}

#[test]
fn test_handle_alert() {
    let mut server = DtlsServer::new().unwrap();
    let message = vec![21, 0, 0, 0, 0, 0, 0, 0, 0, 0, 0, 0, 2];
    let (out, event) = server.handle_message(1, message.as_slice());
    assert!(out.is_empty());
    assert_eq!(event, DispatchEvent::Alert);
}

#[test]
fn test_handle_handshake_short_message() {
    let mut server = DtlsServer::new().unwrap();
    let message = vec![22, 0, 0, 0, 0];
    let (out, event) = server.handle_message(1, message.as_slice());
    assert!(out.is_empty());
    assert!(matches!(event, DispatchEvent::HandshakeDropped(_)));
}

#[test]
fn test_handle_client_hello() {
    let mut server = DtlsServer::new().unwrap();
    // truncated ClientHello body: the record length disagrees with the payload
    let message = vec![
        22, // content type: handshake
        254, 253, // version: DTLS 1.2
        0, 0, // epoch
        0, 0, 0, 0, 0, 0, // sequence number
        0, 10, // length
        1,  // handshake type: ClientHello
        0, 0, 0, // handshake length
    ];
    let (out, event) = server.handle_message(1, message.as_slice());
    assert!(out.is_empty());
    assert!(matches!(event, DispatchEvent::HandshakeDropped(_)));
    assert!(server.sessions.is_empty());
}

#[test]
fn test_handle_application_data() {
    let mut server = DtlsServer::new().unwrap();
    let message = vec![23, 0, 0, 0, 0, 0, 0, 0, 0, 0, 0, 0, 5];
    let (out, event) = server.handle_message(1, message.as_slice());
    assert!(out.is_empty());
    assert_eq!(event, DispatchEvent::ApplicationData);
}

#[test]
fn test_handle_unknown_content_type() {
    let mut server = DtlsServer::new().unwrap();
    let message = vec![99, 0, 0, 0, 0, 0, 0, 0, 0, 0, 0, 0, 1];
    let (out, event) = server.handle_message(1, message.as_slice());
    assert!(out.is_empty());
    assert_eq!(event, DispatchEvent::UnknownContentType(99));
}

#[test]
fn test_certificate_generation() {
    let server1 = DtlsServer::new().unwrap();
    let server2 = DtlsServer::new().unwrap();

    // Each server should have a certificate
    assert_eq!(server1.fingerprint.len(), 32); // SHA-256 is 32 bytes
    assert_eq!(server2.fingerprint.len(), 32);

    // Fingerprints should be different
    assert_ne!(server1.fingerprint, server2.fingerprint);
}

#[test]
fn test_multiple_servers() {
    let server1 = DtlsServer::new();
    let server2 = DtlsServer::new();
    let server3 = DtlsServer::new();

    assert!(server1.is_ok());
    assert!(server2.is_ok());
    assert!(server3.is_ok());
}

#[test]
fn test_handshake_types() {
    let mut server = DtlsServer::new().unwrap();
    let handshake_types = vec![
        1,  // ClientHello
        11, // Certificate
        12, // ServerKeyExchange
        13, // CertificateRequest
        14, // ServerHelloDone
        15, // CertificateVerify
        16, // ClientKeyExchange
        20, // Finished
    ];
    for handshake_type in handshake_types {
        let message = vec![
            22, // content type: handshake
            254,
            253, // version
            0,
            0, // epoch
            0,
            0,
            0,
            0,
            0,
            0, // sequence
            0,
            10,             // length
            handshake_type, // handshake type
            0,
            0,
            0, // handshake length
        ];
        let (out, _event) = server.handle_message(1, message.as_slice());
        assert!(out.is_empty(), "Failed for handshake type {}", handshake_type);
    }
}

#[test]
fn test_first_client_hello_yields_hvr() {
    let mut server = DtlsServer::new().unwrap();
    let datagram = client_hello_datagram(Vec::new(), vec![0xc02b]);
    let (out, event) = server.handle_message(7, datagram.as_slice());
    assert_eq!(event, DispatchEvent::HandshakeProcessed);
    assert_eq!(out.len(), 1);
    let cookie = extract_cookie(out[0].as_slice());
    assert_eq!(cookie.len(), 20);
    assert_eq!(server.sessions.len(), 1);
    assert_eq!(server.sessions[0].peer, 7);
    assert!(matches!(server.sessions[0].flight, HandshakeFlightContext::Flight2(_)));
}

#[test]
fn test_cookie_echo_yields_server_flight() {
    let mut server = DtlsServer::new().unwrap();
    let first = client_hello_datagram(Vec::new(), vec![0xc02b]);
    let (out, _) = server.handle_message(7, first.as_slice());
    let cookie = extract_cookie(out[0].as_slice());

    let second = client_hello_datagram(cookie, vec![0xc02b]);
    let (flight, event) = server.handle_message(7, second.as_slice());
    assert_eq!(event, DispatchEvent::HandshakeProcessed);
    assert_eq!(flight.len(), 5);

    // ServerHello, Certificate, ServerKeyExchange, CertificateRequest,
    // ServerHelloDone, with consecutive record and message sequence numbers;
    // 0 was the HelloVerifyRequest
    let expected_types = [2u8, 11, 12, 13, 14];
    for (i, record) in flight.iter().enumerate() {
        let (handshake_type, record_seq, message_seq) = record_fields(record.as_slice());
        assert_eq!(handshake_type, expected_types[i]);
        assert_eq!(record_seq, 1 + i as u64);
        assert_eq!(message_seq, 1 + i as u16);
    }
    assert!(matches!(server.sessions[0].flight, HandshakeFlightContext::Flight4));

    // the ServerKeyExchange body states named-curve X25519 with a 32-byte key
    let (_, ske_payload) = parse_record(flight[2].as_slice()).unwrap();
    assert_eq!(ske_payload[12], 3); // curve_type: named curve
    assert_eq!(ske_payload[13], 0x00);
    assert_eq!(ske_payload[14], 0x1d); // X25519
    assert_eq!(ske_payload[15], 32); // ephemeral key length
}

#[test]
fn test_wrong_cookie_yields_fresh_challenge() {
    let mut server = DtlsServer::new().unwrap();
    let first = client_hello_datagram(Vec::new(), vec![0xc02b]);
    let (out, _) = server.handle_message(7, first.as_slice());
    let mut cookie = extract_cookie(out[0].as_slice());
    cookie[0] = cookie[0].wrapping_add(1);

    let second = client_hello_datagram(cookie, vec![0xc02b]);
    let (replies, event) = server.handle_message(7, second.as_slice());
    assert_eq!(event, DispatchEvent::HandshakeProcessed);
    assert_eq!(replies.len(), 1);
    let fresh = extract_cookie(replies[0].as_slice());
    assert_eq!(fresh.len(), 20);
    // the session did not advance
    assert!(matches!(server.sessions[0].flight, HandshakeFlightContext::Flight2(_)));
}

#[test]
fn test_non_handshake_unknown_peer_dropped() {
    let mut server = DtlsServer::new().unwrap();
    // a well-formed ApplicationData record from an unknown peer
    let header = RecordHeader::new(ContentType::ApplicationData, DtlsVersion::new(1, 2), 0, 0, 2);
    let mut writer = BufWriter::new();
    header.encode(&mut writer);
    writer.write_bytes(&[1, 2]);
    let datagram = writer.buf();
    let (out, event) = server.handle_message(9, datagram.as_slice());
    assert!(out.is_empty());
    assert_eq!(event, DispatchEvent::ApplicationData);
    assert!(server.sessions.is_empty());
}

#[test]
fn test_no_acceptable_cipher_suite_dropped() {
    let mut server = DtlsServer::new().unwrap();
    let first = client_hello_datagram(Vec::new(), vec![0x1301]);
    let (out, _) = server.handle_message(7, first.as_slice());
    let cookie = extract_cookie(out[0].as_slice());

    let second = client_hello_datagram(cookie, vec![0x1301]);
    let (replies, event) = server.handle_message(7, second.as_slice());
    assert!(replies.is_empty());
    assert_eq!(event, DispatchEvent::HandshakeDropped(DtlsError::NoCipherSuite));
    assert!(matches!(server.sessions[0].flight, HandshakeFlightContext::Flight2(_)));
}

#[test]
fn test_two_peers_handshake_concurrently() {
    let mut server = DtlsServer::new().unwrap();
    let hello_a = client_hello_datagram(Vec::new(), vec![0xc02b]);
    let hello_b = client_hello_datagram(Vec::new(), vec![0xc02b]);
    let (out_a, _) = server.handle_message(1, hello_a.as_slice());
    let (out_b, _) = server.handle_message(2, hello_b.as_slice());
    let cookie_a = extract_cookie(out_a[0].as_slice());
    let cookie_b = extract_cookie(out_b[0].as_slice());

    // each peer has its own cookie and session
    assert_ne!(cookie_a, cookie_b);
    assert_eq!(server.sessions.len(), 2);

    let (flight_a, _) =
        server.handle_message(1, client_hello_datagram(cookie_a, vec![0xc02b]).as_slice());
    let (flight_b, _) =
        server.handle_message(2, client_hello_datagram(cookie_b, vec![0xc02b]).as_slice());
    assert_eq!(flight_a.len(), 5);
    assert_eq!(flight_b.len(), 5);

    // each peer got its own server Random inside ServerHello
    let (_, hello_payload_a) = parse_record(flight_a[0].as_slice()).unwrap();
    let (_, hello_payload_b) = parse_record(flight_b[0].as_slice()).unwrap();
    assert_ne!(hello_payload_a, hello_payload_b);

    // both sessions advanced independently with their own counters
    assert!(matches!(server.sessions[0].flight, HandshakeFlightContext::Flight4));
    assert!(matches!(server.sessions[1].flight, HandshakeFlightContext::Flight4));
    assert_eq!(server.sessions[0].message_seq, 6);
    assert_eq!(server.sessions[1].message_seq, 6);

    // the fingerprint of the shared certificate is the same for both
    assert_eq!(server.get_fingerprint(), server.get_fingerprint());
}

#[test]
fn test_client_flight_after_handshake() {
    let mut server = DtlsServer::new().unwrap();
    let first = client_hello_datagram(Vec::new(), vec![0xc02b]);
    let (out, _) = server.handle_message(7, first.as_slice());
    let cookie = extract_cookie(out[0].as_slice());
    let second = client_hello_datagram(cookie, vec![0xc02b]);
    server.handle_message(7, second.as_slice());

    // the peer sends its certificate
    let chain = vec![vec![0xDEu8, 0xAD, 0xBE, 0xEF]];
    let certificate = Certificate::new(chain.clone());
    let mut body = BufWriter::new();
    certificate.encode(&mut body);
    let cert_datagram = handshake_datagram(HandshakeType::Certificate, body.buf());
    let (out, event) = server.handle_message(7, cert_datagram.as_slice());
    assert!(out.is_empty());
    assert_eq!(event, DispatchEvent::HandshakeProcessed);
    assert_eq!(server.sessions[0].peer_cert_chain, Some(chain));

    // then its ephemeral key
    let exchange = ClientKeyExchange { public_key: vec![5u8; 32] };
    let mut body = BufWriter::new();
    exchange.encode(&mut body);
    let cke_datagram = handshake_datagram(HandshakeType::ClientKeyExchange, body.buf());
    let (out, event) = server.handle_message(7, cke_datagram.as_slice());
    assert!(out.is_empty());
    assert_eq!(event, DispatchEvent::HandshakeProcessed);
    assert_eq!(server.sessions[0].peer_public_key, Some(vec![5u8; 32]));
}

#[test]
fn test_client_flight_before_handshake_dropped() {
    let mut server = DtlsServer::new().unwrap();
    let exchange = ClientKeyExchange { public_key: vec![5u8; 32] };
    let mut body = BufWriter::new();
    exchange.encode(&mut body);
    let datagram = handshake_datagram(HandshakeType::ClientKeyExchange, body.buf());
    let (out, event) = server.handle_message(7, datagram.as_slice());
    assert!(out.is_empty());
    assert_eq!(
        event,
        DispatchEvent::HandshakeDropped(DtlsError::UnexpectedMessage)
    );
}
