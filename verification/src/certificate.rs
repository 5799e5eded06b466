//! The Certificate message: an ordered list of DER certificates, each
//! preceded by its u24 length, the whole list preceded by its u24 length.

use vstd::prelude::*;
use crate::buffer::{be3, u24_be, BufReader, BufWriter};
use crate::buffer::lemma_u24_be_round_trip;
use crate::errors::DtlsError;
use crate::handshake::{HandshakeMessage, HandshakeType, MAX_U24};

verus! {

/// The mathematical value of a Certificate message.
#[verifier::ext_equal]
pub struct CertificateView {
    pub certificates: Seq<Seq<u8>>,
}

/// One list entry: the certificate's u24 length, then its bytes.
pub open spec fn enc_cert_entry(c: Seq<u8>) -> Seq<u8>
    recommends c.len() <= MAX_U24,
{
    u24_be(c.len() as int) + c
}

/// The concatenated entries of the certificate list.
pub open spec fn enc_cert_list(cs: Seq<Seq<u8>>) -> Seq<u8>
    decreases cs.len(),
{
    if cs.len() == 0 {
        Seq::empty()
    } else {
        enc_cert_entry(cs[0]) + enc_cert_list(cs.drop_first())
    }
}

impl CertificateView {
    /// Every certificate and the whole list fit their u24 length fields.
    pub open spec fn wf(&self) -> bool {
        &&& forall|k: int|
            0 <= k < self.certificates.len() ==> (#[trigger] self.certificates[k]).len() <= MAX_U24
        &&& enc_cert_list(self.certificates).len() <= MAX_U24
    }
}

/// The wire form of a Certificate message: u24 total length, then the
/// entries.
pub open spec fn enc_certificate(v: CertificateView) -> Seq<u8>
    recommends v.wf(),
{
    u24_be(enc_cert_list(v.certificates).len() as int) + enc_cert_list(v.certificates)
}

/// Appending one certificate to the list appends its entry to the wire form.
pub proof fn lemma_enc_cert_list_snoc(cs: Seq<Seq<u8>>, c: Seq<u8>)
    ensures
        enc_cert_list(cs.push(c)) == enc_cert_list(cs) + enc_cert_entry(c),
    decreases cs.len(),
{
    if cs.len() == 0 {
        assert(cs.push(c)[0] == c);
        assert(cs.push(c).drop_first() =~~= Seq::<Seq<u8>>::empty());
        assert(enc_cert_list(cs.push(c)) == enc_cert_entry(c) + enc_cert_list(
            Seq::<Seq<u8>>::empty(),
        ));
        assert(enc_cert_list(cs.push(c)) =~= enc_cert_list(cs) + enc_cert_entry(c));
    } else {
        assert(cs.push(c)[0] == cs[0]);
        assert(cs.push(c).drop_first() =~~= cs.drop_first().push(c));
        lemma_enc_cert_list_snoc(cs.drop_first(), c);
        assert(enc_cert_list(cs.push(c)) == enc_cert_entry(cs[0]) + enc_cert_list(
            cs.drop_first().push(c),
        ));
        assert(enc_cert_list(cs.push(c)) =~= enc_cert_list(cs) + enc_cert_entry(c));
    }
}

/// Decode certificate entries from `s` until position `end` is exhausted;
/// any leftover or overrun fails the record.
pub open spec fn dec_cert_list(s: Seq<u8>, j: int, end: int) -> Result<Seq<Seq<u8>>, DtlsError>
    recommends 0 <= j <= end <= s.len(),
    decreases end - j,
    when j <= end

{
    if j == end {
        Ok(Seq::empty())
    } else if end - j < 3 {
        Err(DtlsError::LengthMismatch)
    } else if end - (j + 3) < be3(s, j) {
        Err(DtlsError::LengthMismatch)
    } else {
        match dec_cert_list(s, j + 3 + be3(s, j), end) {
            Err(e) => Err(e),
            Ok(rest) => Ok(seq![s.subrange(j + 3, j + 3 + be3(s, j))] + rest),
        }
    }
}

/// Decode a Certificate message from `s` at position `i`.
pub open spec fn dec_certificate(s: Seq<u8>, i: int) -> Result<(CertificateView, int), DtlsError>
    recommends 0 <= i <= s.len(),
{
    if s.len() - i < 3 {
        Err(DtlsError::OutOfRange)
    } else if s.len() - (i + 3) < be3(s, i) {
        Err(DtlsError::OutOfRange)
    } else {
        match dec_cert_list(s, i + 3, i + 3 + be3(s, i)) {
            Err(e) => Err(e),
            Ok(certs) => Ok((CertificateView { certificates: certs }, i + 3 + be3(s, i))),
        }
    }
}

/// A certificate chain, leaf first, each certificate in DER.
#[derive(Debug, Clone)]
pub struct Certificate {
    pub certificates: Vec<Vec<u8>>,
}

impl View for Certificate {
    type V = CertificateView;

    open spec fn view(&self) -> CertificateView {
        CertificateView { certificates: self.certificates.deep_view() }
    }
}

impl Certificate {
    pub open spec fn wf(&self) -> bool {
        self@.wf()
    }

    pub fn new(certificates: Vec<Vec<u8>>) -> (r: Self)
        ensures
            r@.certificates == certificates.deep_view(),
    {
        Self { certificates }
    }

    #[verifier::loop_isolation(false)]
    pub fn decode(reader: &mut BufReader) -> (r: Result<Self, DtlsError>)
        requires
            old(reader).wf(),
        ensures
            final(reader).wf(),
            final(reader).bytes() == old(reader).bytes(),
            match r {
                Ok(v) => {
                    &&& dec_certificate(old(reader).bytes(), old(reader).cur())
                        == Ok::<(CertificateView, int), DtlsError>((v@, final(reader).cur()))
                    &&& v.wf()
                },
                Err(e) => dec_certificate(old(reader).bytes(), old(reader).cur()) == Err::<
                    (CertificateView, int),
                    DtlsError,
                >(e),
            },
    {
        let ghost s = old(reader).bytes();
        let ghost i = old(reader).cur();
        let total = reader.read_u24()?;
        let remaining = reader.remaining_count();
        if remaining < total as usize {
            return Err(DtlsError::OutOfRange);
        }
        let ghost end = i + 3 + be3(s, i);
        let mut certificates: Vec<Vec<u8>> = Vec::new();
        let mut left: usize = total as usize;
        while left > 0
            invariant
                reader.wf(),
                reader.bytes() == s,
                i + 3 <= reader.cur() <= end <= s.len(),
                reader.cur() == end - left,
                total == be3(s, i),
                total < 0x1000000,
                forall|k: int|
                    0 <= k < certificates.deep_view().len() ==> (
                    #[trigger] certificates.deep_view()[k]).len() <= MAX_U24,
                enc_cert_list(certificates.deep_view()).len() == total - left,
                dec_cert_list(s, i + 3, end) == match dec_cert_list(s, reader.cur(), end) {
                    Ok(rest) => Ok::<Seq<Seq<u8>>, DtlsError>(certificates.deep_view() + rest),
                    Err(e) => Err::<Seq<Seq<u8>>, DtlsError>(e),
                },
            decreases left,
        {
            let ghost cur0 = reader.cur();
            let ghost certs0 = certificates.deep_view();
            if left < 3 {
                return Err(DtlsError::LengthMismatch);
            }
            let cert_len = reader.read_u24()?;
            if left - 3 < cert_len as usize {
                return Err(DtlsError::LengthMismatch);
            }
            let cert = reader.read_exact(cert_len as usize)?;
            proof {
                assert(cert@ =~= s.subrange(cur0 + 3, cur0 + 3 + be3(s, cur0)));
            }
            certificates.push(cert);
            left = left - 3 - cert_len as usize;
            proof {
                let c = s.subrange(cur0 + 3, cur0 + 3 + be3(s, cur0));
                assert(certificates.deep_view() =~~= certs0.push(c));
                lemma_enc_cert_list_snoc(certs0, c);
                assert(certificates.deep_view() =~~= certs0 + seq![
                    s.subrange(cur0 + 3, cur0 + 3 + be3(s, cur0)),
                ]);
                match dec_cert_list(s, reader.cur(), end) {
                    Ok(rest) => {
                        assert(dec_cert_list(s, cur0, end) == Ok::<Seq<Seq<u8>>, DtlsError>(
                            seq![s.subrange(cur0 + 3, cur0 + 3 + be3(s, cur0))] + rest,
                        ));
                        assert(certs0 + (seq![s.subrange(cur0 + 3, cur0 + 3 + be3(s, cur0))] + rest)
                            =~~= certificates.deep_view() + rest);
                    },
                    Err(_) => {},
                }
            }
        }
        proof {
            assert(certificates.deep_view() + Seq::<Seq<u8>>::empty() =~~= certificates.deep_view());
        }
        Ok(Self { certificates })
    }

    pub fn encode(&self, writer: &mut BufWriter)
        requires
            self.wf(),
        ensures
            final(writer)@ == old(writer)@ + enc_certificate(self@),
    {
        let ghost dv = self.certificates.deep_view();
        let mut certs_writer = BufWriter::new();
        let n = self.certificates.len();
        let mut k: usize = 0;
        while k < n
            invariant
                k <= n,
                n == self.certificates@.len(),
                dv == self.certificates.deep_view(),
                self@.wf(),
                certs_writer@ == enc_cert_list(dv.take(k as int)),
            decreases n - k,
        {
            let cert = &self.certificates[k];
            proof {
                assert(dv[k as int] == self.certificates@[k as int]@);
                assert(dv[k as int].len() <= MAX_U24);
            }
            certs_writer.write_u24(cert.len() as u32);
            certs_writer.write_bytes(cert.as_slice());
            k = k + 1;
            proof {
                assert(dv.take(k as int).drop_last() =~= dv.take(k as int - 1));
                assert(dv.take(k as int) =~= dv.take(k as int - 1).push(dv[k as int - 1]));
                lemma_enc_cert_list_snoc(dv.take(k as int - 1), dv[k as int - 1]);
                assert(certs_writer@ =~= enc_cert_list(dv.take(k as int)));
            }
        }
        proof {
            assert(dv.take(n as int) =~= dv);
        }
        let total = certs_writer.buf_ref().len();
        writer.write_u24(total as u32);
        writer.write_bytes(certs_writer.buf_ref().as_slice());
        assert(writer@ =~= old(writer)@ + enc_certificate(self@));
    }
}

impl HandshakeMessage for Certificate {
    open spec fn wf(&self) -> bool {
        self@.wf()
    }

    open spec fn spec_type(&self) -> HandshakeType {
        HandshakeType::Certificate
    }

    open spec fn spec_enc(&self) -> Seq<u8> {
        enc_certificate(self@)
    }

    fn get_handshake_type(&self) -> (t: HandshakeType) {
        HandshakeType::Certificate
    }

    fn encode(&self, writer: &mut BufWriter) {
        Certificate::encode(self, writer)
    }
}

/// Decoding entries laid down by `enc_cert_list` yields the list back.
proof fn lemma_dec_cert_list_round_trip(s: Seq<u8>, j: int, cs: Seq<Seq<u8>>)
    requires
        0 <= j,
        j + enc_cert_list(cs).len() <= s.len(),
        s.subrange(j, j + enc_cert_list(cs).len()) == enc_cert_list(cs),
        forall|k: int| 0 <= k < cs.len() ==> (#[trigger] cs[k]).len() <= MAX_U24,
    ensures
        dec_cert_list(s, j, j + enc_cert_list(cs).len()) == Ok::<Seq<Seq<u8>>, DtlsError>(cs),
    decreases cs.len(),
{
    let e = enc_cert_list(cs);
    let end = j + e.len();
    if cs.len() == 0 {
        assert(cs =~~= Seq::<Seq<u8>>::empty());
    }
    if cs.len() > 0 {
        let c = cs[0];
        let rest = enc_cert_list(cs.drop_first());
        lemma_u24_be_round_trip(c.len() as int);
        assert(forall|t: int| 0 <= t < e.len() ==> s[j + t] == #[trigger] e[t]) by {
            assert(forall|t: int|
                0 <= t < e.len() ==> s.subrange(j, j + e.len() as int)[t] == #[trigger] e[t]);
        }
        assert(s[j] == e[0]);
        assert(s[j + 1] == e[1]);
        assert(s[j + 2] == e[2]);
        assert(e[0] == u24_be(c.len() as int)[0]);
        assert(e[1] == u24_be(c.len() as int)[1]);
        assert(e[2] == u24_be(c.len() as int)[2]);
        assert(be3(s, j) == be3(u24_be(c.len() as int), 0));
        assert forall|t: int| 0 <= t < c.len() implies s.subrange(
            j + 3,
            j + 3 + c.len() as int,
        )[t] == c[t] by {
            assert(s[j + (3 + t)] == e[3 + t]);
            assert(e[3 + t] == c[t]);
        }
        assert(s.subrange(j + 3, j + 3 + c.len() as int) =~= c);
        let j2 = j + 3 + c.len() as int;
        assert forall|t: int| 0 <= t < rest.len() implies s.subrange(
            j2,
            j2 + rest.len() as int,
        )[t] == rest[t] by {
            assert(s[j + (3 + c.len() + t)] == e[3 + c.len() + t]);
            assert(e[3 + c.len() + t] == rest[t]);
        }
        assert(s.subrange(j2, j2 + rest.len() as int) =~= rest);
        lemma_dec_cert_list_round_trip(s, j2, cs.drop_first());
        assert(seq![s.subrange(j + 3, j + 3 + be3(s, j))] + cs.drop_first() =~~= cs);
    }
}

/// Decoding the encoding of a well-formed Certificate message yields it
/// back, consuming exactly its bytes.
pub proof fn lemma_certificate_round_trip(v: CertificateView)
    requires
        v.wf(),
    ensures
        enc_certificate(v).len() == 3 + enc_cert_list(v.certificates).len(),
        dec_certificate(enc_certificate(v), 0) == Ok::<(CertificateView, int), DtlsError>(
            (v, enc_certificate(v).len() as int),
        ),
{
    let s = enc_certificate(v);
    let lst = enc_cert_list(v.certificates);
    lemma_u24_be_round_trip(lst.len() as int);
    assert(s[0] == u24_be(lst.len() as int)[0]);
    assert(s[1] == u24_be(lst.len() as int)[1]);
    assert(s[2] == u24_be(lst.len() as int)[2]);
    assert(be3(s, 0) == be3(u24_be(lst.len() as int), 0));
    assert(s.subrange(3, 3 + lst.len() as int) =~= lst);
    lemma_dec_cert_list_round_trip(s, 3, v.certificates);
}

} // verus!
