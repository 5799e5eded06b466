//! ServerHelloDone: the empty message that closes the server's flight.

use vstd::prelude::*;
use crate::buffer::BufWriter;
use crate::handshake::{HandshakeMessage, HandshakeType};

verus! {

/// The end-of-flight marker; its body is empty.
#[derive(Clone, Copy, Debug, PartialEq, Eq, Structural)]
pub struct ServerHelloDone {}

/// The wire form of ServerHelloDone: no bytes at all.
pub open spec fn enc_server_hello_done(v: ServerHelloDone) -> Seq<u8> {
    Seq::empty()
}

impl ServerHelloDone {
    pub fn new() -> (r: Self)
        ensures
            r == (ServerHelloDone {  }),
    {
        Self {  }
    }

    pub fn encode(&self, writer: &mut BufWriter)
        ensures
            final(writer)@ == old(writer)@ + enc_server_hello_done(*self),
    {
        assert(old(writer)@ + enc_server_hello_done(*self) =~= old(writer)@);
    }
}

impl HandshakeMessage for ServerHelloDone {
    open spec fn wf(&self) -> bool {
        true
    }

    open spec fn spec_type(&self) -> HandshakeType {
        HandshakeType::ServerHelloDone
    }

    open spec fn spec_enc(&self) -> Seq<u8> {
        enc_server_hello_done(*self)
    }

    fn get_handshake_type(&self) -> (t: HandshakeType) {
        HandshakeType::ServerHelloDone
    }

    fn encode(&self, writer: &mut BufWriter) {
        ServerHelloDone::encode(self, writer)
    }
}

} // verus!
