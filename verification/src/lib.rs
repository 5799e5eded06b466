//! Server side of a DTLS 1.2 handshake: the record and handshake wire codec,
//! a per-peer handshake state machine with a stateless cookie challenge, and
//! the assembly of the server's ECDHE_ECDSA key-exchange flight.

pub mod buffer;
pub mod certificate;
pub mod certificate_request;
pub mod client_hello;
pub mod client_key_exchange;
pub mod common;
pub mod crypto;
pub mod dispatcher;
pub mod errors;
pub mod extension;
pub mod handshake;
pub mod hello_verify_request;
pub mod machine;
pub mod random;
pub mod record_header;
pub mod server_hello;
pub mod server_key_exchange;
pub mod server_hello_done;
