//! ServerKeyExchange: the signed ServerECDHParams blob. The server states
//! its curve and ephemeral public key, and signs them together with both
//! hello randoms under its certificate key, ECDSA over SHA-256.

use vstd::prelude::*;
use rcgen::SigningKey;
use crate::buffer::{u16_be, BufWriter};
use crate::common::{
    enc_algo_pair, AlgoPair, ECCurve, ECCurveType, HashAlgorithm, SignatureAlgorithm,
};
use crate::crypto::{sha256, sha256_of};
use crate::errors::DtlsError;
use crate::handshake::{HandshakeMessage, HandshakeType};
use crate::random::{enc_random, Random, RandomView};

verus! {

/// The mathematical value of a ServerKeyExchange.
#[verifier::ext_equal]
pub struct ServerKeyExchangeView {
    pub curve_type: ECCurveType,
    pub curve: ECCurve,
    pub public_key: Seq<u8>,
    pub algo_pair: AlgoPair,
    pub signature: Seq<u8>,
}

impl ServerKeyExchangeView {
    pub open spec fn wf(&self) -> bool {
        self.public_key.len() <= 255 && self.signature.len() <= 0xffff
    }
}

/// The serialized ServerECDHParams: curve type, named curve, and the
/// length-prefixed ephemeral public key.
pub open spec fn server_ecdh_params(curve: ECCurve, public_key: Seq<u8>) -> Seq<u8>
    recommends public_key.len() <= 255,
{
    seq![ECCurveType::NamedCurve.spec_to_u8()] + u16_be(curve.spec_to_u16() as int) + seq![
        public_key.len() as u8,
    ] + public_key
}

/// What the server signs: client random, server random, ServerECDHParams.
pub open spec fn signed_content(
    client_random: RandomView,
    server_random: RandomView,
    curve: ECCurve,
    public_key: Seq<u8>,
) -> Seq<u8> {
    enc_random(client_random) + enc_random(server_random) + server_ecdh_params(curve, public_key)
}

/// The wire form of a ServerKeyExchange: the ServerECDHParams, the
/// algorithm pair, and the u16 length-prefixed signature.
pub open spec fn enc_server_key_exchange(v: ServerKeyExchangeView) -> Seq<u8>
    recommends v.wf(),
{
    server_ecdh_params(v.curve, v.public_key) + enc_algo_pair(v.algo_pair) + u16_be(
        v.signature.len() as int,
    ) + v.signature
}

/// Whether `b` is a ServerKeyExchange body for this engine's parameters
/// (X25519, SHA-256/ECDSA) and the given public key, with some signature.
pub open spec fn is_ske_body(b: Seq<u8>, public_key: Seq<u8>) -> bool {
    exists|sig: Seq<u8>|
        #[trigger] sig.len() <= 0xffff && b == enc_server_key_exchange(
            ServerKeyExchangeView {
                curve_type: ECCurveType::NamedCurve,
                curve: ECCurve::X25519,
                public_key,
                algo_pair: AlgoPair {
                    hash: HashAlgorithm::Sha256,
                    signature: SignatureAlgorithm::Ecdsa,
                },
                signature: sig,
            },
        )
}

/// Serialize what the ServerKeyExchange signature covers.
pub fn build_signed_content(
    client_random: &Random,
    server_random: &Random,
    public_key: &Vec<u8>,
) -> (r: Vec<u8>)
    requires
        client_random.wf(),
        server_random.wf(),
        public_key@.len() <= 255,
    ensures
        r@ == signed_content(client_random@, server_random@, ECCurve::X25519, public_key@),
{
    let mut writer = BufWriter::new();
    client_random.encode(&mut writer);
    server_random.encode(&mut writer);
    writer.write_u8(ECCurveType::NamedCurve.to_u8());
    writer.write_u16(ECCurve::X25519.to_u16());
    writer.write_u8(public_key.len() as u8);
    writer.write_bytes(public_key.as_slice());
    let out = writer.buf();
    proof {
        assert(out@ =~= signed_content(
            client_random@,
            server_random@,
            ECCurve::X25519,
            public_key@,
        ));
    }
    out
}

/// The server's key-exchange message.
#[derive(Debug, Clone)]
pub struct ServerKeyExchange {
    pub curve_type: ECCurveType,
    pub curve: ECCurve,
    pub public_key: Vec<u8>,
    pub algo_pair: AlgoPair,
    pub signature: Vec<u8>,
}

impl View for ServerKeyExchange {
    type V = ServerKeyExchangeView;

    open spec fn view(&self) -> ServerKeyExchangeView {
        ServerKeyExchangeView {
            curve_type: self.curve_type,
            curve: self.curve,
            public_key: self.public_key@,
            algo_pair: self.algo_pair,
            signature: self.signature@,
        }
    }
}

impl ServerKeyExchange {
    pub open spec fn wf(&self) -> bool {
        self@.wf()
    }

    /// Assemble the message: hash the signed content with SHA-256, sign the
    /// digest with the certificate's ECDSA key, and frame the result. Fails
    /// only when the signer fails or its signature cannot be framed.
    pub fn new(
        public_key: Vec<u8>,
        signing_key: &rcgen::KeyPair,
        client_random: &Random,
        server_random: &Random,
    ) -> (r: Result<Self, DtlsError>)
        requires
            public_key@.len() <= 255,
            client_random.wf(),
            server_random.wf(),
        ensures
            match r {
                Ok(ske) => {
                    &&& ske.wf()
                    &&& ske@.signature.len() <= 0xfe00
                    &&& ske@.curve_type == ECCurveType::NamedCurve
                    &&& ske@.curve == ECCurve::X25519
                    &&& ske@.public_key == public_key@
                    &&& ske@.algo_pair == (AlgoPair {
                        hash: HashAlgorithm::Sha256,
                        signature: SignatureAlgorithm::Ecdsa,
                    })
                },
                Err(e) => e == DtlsError::SigningFailure,
            },
    {
        let content = build_signed_content(client_random, server_random, &public_key);
        let digest = sha256(content.as_slice());
        let signature = match signing_key.sign(digest.as_slice()) {
            Ok(sig) => sig,
            Err(_) => {
                return Err(DtlsError::SigningFailure);
            },
        };
        if signature.len() > 0xfe00 {
            return Err(DtlsError::SigningFailure);
        }
        Ok(
            Self {
                curve_type: ECCurveType::NamedCurve,
                curve: ECCurve::X25519,
                public_key,
                algo_pair: AlgoPair {
                    hash: HashAlgorithm::Sha256,
                    signature: SignatureAlgorithm::Ecdsa,
                },
                signature,
            },
        )
    }

    pub fn encode(&self, writer: &mut BufWriter)
        requires
            self.wf(),
        ensures
            final(writer)@ == old(writer)@ + enc_server_key_exchange(self@),
    {
        writer.write_u8(self.curve_type.to_u8());
        writer.write_u16(self.curve.to_u16());
        writer.write_u8(self.public_key.len() as u8);
        writer.write_bytes(self.public_key.as_slice());
        self.algo_pair.encode(writer);
        writer.write_u16(self.signature.len() as u16);
        writer.write_bytes(self.signature.as_slice());
        assert(writer@ =~= old(writer)@ + enc_server_key_exchange(self@));
    }
}

impl HandshakeMessage for ServerKeyExchange {
    open spec fn wf(&self) -> bool {
        self@.wf()
    }

    open spec fn spec_type(&self) -> HandshakeType {
        HandshakeType::ServerKeyExchange
    }

    open spec fn spec_enc(&self) -> Seq<u8> {
        enc_server_key_exchange(self@)
    }

    fn get_handshake_type(&self) -> (t: HandshakeType) {
        HandshakeType::ServerKeyExchange
    }

    fn encode(&self, writer: &mut BufWriter) {
        ServerKeyExchange::encode(self, writer)
    }
}

} // verus!
