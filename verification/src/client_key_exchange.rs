//! ClientKeyExchange: the peer's ephemeral public key, length-prefixed
//! with one byte.

use vstd::prelude::*;
use crate::buffer::{BufReader, BufWriter};
use crate::errors::DtlsError;
use crate::handshake::{HandshakeMessage, HandshakeType};

verus! {

/// The mathematical value of a ClientKeyExchange.
#[verifier::ext_equal]
pub struct ClientKeyExchangeView {
    pub public_key: Seq<u8>,
}

impl ClientKeyExchangeView {
    pub open spec fn wf(&self) -> bool {
        self.public_key.len() <= 255
    }
}

/// The wire form of a ClientKeyExchange: u8 key length, then the key.
pub open spec fn enc_client_key_exchange(v: ClientKeyExchangeView) -> Seq<u8>
    recommends v.wf(),
{
    seq![v.public_key.len() as u8] + v.public_key
}

/// Decode a ClientKeyExchange from `s` at position `i`.
pub open spec fn dec_client_key_exchange(s: Seq<u8>, i: int) -> Result<
    (ClientKeyExchangeView, int),
    DtlsError,
>
    recommends 0 <= i <= s.len(),
{
    if s.len() - i < 1 {
        Err(DtlsError::OutOfRange)
    } else if s.len() - (i + 1) < s[i] {
        Err(DtlsError::OutOfRange)
    } else {
        Ok(
            (
                ClientKeyExchangeView { public_key: s.subrange(i + 1, i + 1 + s[i]) },
                i + 1 + s[i],
            ),
        )
    }
}

/// The peer's ephemeral X25519 public key.
#[derive(Debug, Clone)]
pub struct ClientKeyExchange {
    pub public_key: Vec<u8>,
}

impl View for ClientKeyExchange {
    type V = ClientKeyExchangeView;

    open spec fn view(&self) -> ClientKeyExchangeView {
        ClientKeyExchangeView { public_key: self.public_key@ }
    }
}

impl ClientKeyExchange {
    pub open spec fn wf(&self) -> bool {
        self@.wf()
    }

    pub fn decode(reader: &mut BufReader) -> (r: Result<Self, DtlsError>)
        requires
            old(reader).wf(),
        ensures
            final(reader).wf(),
            final(reader).bytes() == old(reader).bytes(),
            match r {
                Ok(v) => {
                    &&& dec_client_key_exchange(old(reader).bytes(), old(reader).cur())
                        == Ok::<(ClientKeyExchangeView, int), DtlsError>((v@, final(reader).cur()))
                    &&& v.wf()
                },
                Err(e) => dec_client_key_exchange(old(reader).bytes(), old(reader).cur()) == Err::<
                    (ClientKeyExchangeView, int),
                    DtlsError,
                >(e),
            },
    {
        let len = reader.read_u8()?;
        let public_key = reader.read_exact(len as usize)?;
        Ok(Self { public_key })
    }

    pub fn encode(&self, writer: &mut BufWriter)
        requires
            self.wf(),
        ensures
            final(writer)@ == old(writer)@ + enc_client_key_exchange(self@),
    {
        writer.write_u8(self.public_key.len() as u8);
        writer.write_bytes(self.public_key.as_slice());
        assert(writer@ =~= old(writer)@ + enc_client_key_exchange(self@));
    }
}

impl HandshakeMessage for ClientKeyExchange {
    open spec fn wf(&self) -> bool {
        self@.wf()
    }

    open spec fn spec_type(&self) -> HandshakeType {
        HandshakeType::ClientKeyExchange
    }

    open spec fn spec_enc(&self) -> Seq<u8> {
        enc_client_key_exchange(self@)
    }

    fn get_handshake_type(&self) -> (t: HandshakeType) {
        HandshakeType::ClientKeyExchange
    }

    fn encode(&self, writer: &mut BufWriter) {
        ClientKeyExchange::encode(self, writer)
    }
}

/// Decoding the encoding of a well-formed ClientKeyExchange yields it
/// back, consuming exactly its bytes.
pub proof fn lemma_client_key_exchange_round_trip(v: ClientKeyExchangeView)
    requires
        v.wf(),
    ensures
        enc_client_key_exchange(v).len() == 1 + v.public_key.len(),
        dec_client_key_exchange(enc_client_key_exchange(v), 0) == Ok::<
            (ClientKeyExchangeView, int),
            DtlsError,
        >((v, 1 + v.public_key.len() as int)),
{
    let s = enc_client_key_exchange(v);
    assert(s[0] == v.public_key.len() as u8);
    assert(s.subrange(1, 1 + v.public_key.len() as int) =~= v.public_key);
}

} // verus!
