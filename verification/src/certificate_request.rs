//! CertificateRequest: the certificate types and signature algorithms the
//! server accepts from the client. The certificate-authority list is empty
//! in this engine.

use vstd::prelude::*;
use crate::buffer::{be2, u16_be, BufReader, BufWriter};
use crate::buffer::lemma_u16_be_round_trip;
use crate::common::{enc_algo_pair, AlgoPair, CertificateType, HashAlgorithm, SignatureAlgorithm};
use crate::errors::DtlsError;
use crate::handshake::{HandshakeMessage, HandshakeType};

verus! {

/// The mathematical value of a CertificateRequest.
#[verifier::ext_equal]
pub struct CertificateRequestView {
    pub certificate_types: Seq<CertificateType>,
    pub supported_algo_pairs: Seq<AlgoPair>,
    pub certificate_authorities: Seq<Seq<u8>>,
}

impl CertificateRequestView {
    pub open spec fn wf(&self) -> bool {
        &&& self.certificate_types.len() <= 255
        &&& 2 * self.supported_algo_pairs.len() <= 0xffff
        &&& self.certificate_authorities.len() == 0
    }
}

/// The type bytes of the certificate-type list.
pub open spec fn enc_cert_types(ts: Seq<CertificateType>) -> Seq<u8> {
    Seq::new(ts.len(), |k: int| ts[k].spec_to_u8())
}

/// The byte pairs of the algorithm list, hash byte then signature byte.
pub open spec fn enc_algo_pairs(ps: Seq<AlgoPair>) -> Seq<u8> {
    Seq::new(
        2 * ps.len(),
        |k: int|
            if k % 2 == 0 {
                ps[k / 2].hash.spec_to_u8()
            } else {
                ps[k / 2].signature.spec_to_u8()
            },
    )
}

/// The wire form of a CertificateRequest: u8 count of certificate types
/// and their bytes, u16 byte-length of the algorithm list and its pairs,
/// u16 byte-length of the certificate authorities (zero here).
pub open spec fn enc_certificate_request(v: CertificateRequestView) -> Seq<u8>
    recommends v.wf(),
{
    seq![v.certificate_types.len() as u8] + enc_cert_types(v.certificate_types) + u16_be(
        2 * v.supported_algo_pairs.len() as int,
    ) + enc_algo_pairs(v.supported_algo_pairs) + u16_be(0)
}

/// Decode a CertificateRequest from `s` at position `i`.
pub open spec fn dec_certificate_request(s: Seq<u8>, i: int) -> Result<
    (CertificateRequestView, int),
    DtlsError,
>
    recommends 0 <= i <= s.len(),
{
    if s.len() - i < 1 {
        Err(DtlsError::OutOfRange)
    } else if s.len() - (i + 1) < s[i] {
        Err(DtlsError::OutOfRange)
    } else if exists|k: int| 0 <= k < s[i] && #[trigger] s[i + 1 + k] != 64 {
        Err(DtlsError::UnknownAlgorithm)
    } else {
        let j = i + 1 + s[i];
        if s.len() - j < 2 {
            Err(DtlsError::OutOfRange)
        } else if be2(s, j) % 2 != 0 {
            Err(DtlsError::LengthMismatch)
        } else if s.len() - (j + 2) < be2(s, j) {
            Err(DtlsError::OutOfRange)
        } else if exists|k: int|
            0 <= k < be2(s, j) / 2 && (#[trigger] s[j + 2 + 2 * k] != 4 || s[j + 2 + 2 * k + 1]
                != 3) {
            Err(DtlsError::UnknownAlgorithm)
        } else {
            let j2 = j + 2 + be2(s, j);
            if s.len() - j2 < 2 {
                Err(DtlsError::OutOfRange)
            } else if be2(s, j2) != 0 {
                Err(DtlsError::LengthMismatch)
            } else {
                Ok(
                    (
                        CertificateRequestView {
                            certificate_types: Seq::new(
                                s[i] as nat,
                                |k: int| CertificateType::Ecdsa,
                            ),
                            supported_algo_pairs: Seq::new(
                                (be2(s, j) / 2) as nat,
                                |k: int|
                                    AlgoPair {
                                        hash: HashAlgorithm::Sha256,
                                        signature: SignatureAlgorithm::Ecdsa,
                                    },
                            ),
                            certificate_authorities: Seq::empty(),
                        },
                        j2 + 2,
                    ),
                )
            }
        }
    }
}

/// The server's request for a client certificate.
#[derive(Debug, Clone)]
pub struct CertificateRequest {
    pub certificate_types: Vec<CertificateType>,
    pub supported_algo_pairs: Vec<AlgoPair>,
    pub certificate_authorities: Vec<Vec<u8>>,
}

impl View for CertificateRequest {
    type V = CertificateRequestView;

    open spec fn view(&self) -> CertificateRequestView {
        CertificateRequestView {
            certificate_types: self.certificate_types@,
            supported_algo_pairs: self.supported_algo_pairs@,
            certificate_authorities: self.certificate_authorities.deep_view(),
        }
    }
}

impl CertificateRequest {
    pub open spec fn wf(&self) -> bool {
        self@.wf()
    }

    /// The request this engine always sends: an ECDSA certificate, signed
    /// with ECDSA over SHA-256, no named authorities.
    pub fn new() -> (r: Self)
        ensures
            r.wf(),
            r@ == (CertificateRequestView {
                certificate_types: seq![CertificateType::Ecdsa],
                supported_algo_pairs: seq![
                    AlgoPair { hash: HashAlgorithm::Sha256, signature: SignatureAlgorithm::Ecdsa },
                ],
                certificate_authorities: Seq::<Seq<u8>>::empty(),
            }),
    {
        let mut certificate_types: Vec<CertificateType> = Vec::new();
        certificate_types.push(CertificateType::Ecdsa);
        let mut supported_algo_pairs: Vec<AlgoPair> = Vec::new();
        supported_algo_pairs.push(
            AlgoPair { hash: HashAlgorithm::Sha256, signature: SignatureAlgorithm::Ecdsa },
        );
        let r = Self { certificate_types, supported_algo_pairs, certificate_authorities: Vec::new() };
        proof {
            assert(r@.certificate_types =~= seq![CertificateType::Ecdsa]);
            assert(r@.supported_algo_pairs =~= seq![
                AlgoPair { hash: HashAlgorithm::Sha256, signature: SignatureAlgorithm::Ecdsa },
            ]);
            assert(r@.certificate_authorities =~~= Seq::<Seq<u8>>::empty());
        }
        r
    }

    #[verifier::loop_isolation(false)]
    pub fn decode(reader: &mut BufReader) -> (r: Result<Self, DtlsError>)
        requires
            old(reader).wf(),
        ensures
            final(reader).wf(),
            final(reader).bytes() == old(reader).bytes(),
            match r {
                Ok(v) => {
                    &&& dec_certificate_request(old(reader).bytes(), old(reader).cur())
                        == Ok::<(CertificateRequestView, int), DtlsError>((v@, final(reader).cur()))
                    &&& v.wf()
                },
                Err(e) => dec_certificate_request(old(reader).bytes(), old(reader).cur()) == Err::<
                    (CertificateRequestView, int),
                    DtlsError,
                >(e),
            },
    {
        let ghost s = old(reader).bytes();
        let ghost i = old(reader).cur();
        let type_count = reader.read_u8()?;
        let type_bytes = reader.read_exact(type_count as usize)?;
        let mut certificate_types: Vec<CertificateType> = Vec::new();
        let mut k: usize = 0;
        while k < type_count as usize
            invariant
                k <= type_count as usize,
                certificate_types@ == Seq::new(k as nat, |t: int| CertificateType::Ecdsa),
                forall|t: int| 0 <= t < k ==> #[trigger] s[i + 1 + t] == 64,
            decreases type_count as usize - k,
        {
            proof {
                assert(type_bytes@[k as int] == s[i + 1 + k as int]);
            }
            if type_bytes[k] != 64 {
                return Err(DtlsError::UnknownAlgorithm);
            }
            certificate_types.push(CertificateType::Ecdsa);
            k = k + 1;
            assert(certificate_types@ =~= Seq::new(k as nat, |t: int| CertificateType::Ecdsa));
        }
        let algo_byte_len = reader.read_u16()?;
        if algo_byte_len % 2 != 0 {
            return Err(DtlsError::LengthMismatch);
        }
        let ghost j = i + 1 + s[i];
        let algo_bytes = reader.read_exact(algo_byte_len as usize)?;
        let pair_count = (algo_byte_len / 2) as usize;
        let mut supported_algo_pairs: Vec<AlgoPair> = Vec::new();
        let mut k2: usize = 0;
        while k2 < pair_count
            invariant
                k2 <= pair_count,
                supported_algo_pairs@ == Seq::new(
                    k2 as nat,
                    |t: int|
                        AlgoPair {
                            hash: HashAlgorithm::Sha256,
                            signature: SignatureAlgorithm::Ecdsa,
                        },
                ),
                forall|t: int| 0 <= t < k2 ==> #[trigger] s[j + 2 + 2 * t] == 4,
                forall|t: int| 0 <= t < k2 ==> #[trigger] s[j + 2 + 2 * t + 1] == 3,
            decreases pair_count - k2,
        {
            let hb = algo_bytes[2 * k2];
            let sb = algo_bytes[2 * k2 + 1];
            proof {
                assert(algo_bytes@[2 * k2 as int] == s[j + 2 + 2 * (k2 as int)]);
                assert(algo_bytes@[2 * k2 as int + 1] == s[j + 2 + 2 * (k2 as int) + 1]);
            }
            if hb != 4 || sb != 3 {
                return Err(DtlsError::UnknownAlgorithm);
            }
            supported_algo_pairs.push(
                AlgoPair { hash: HashAlgorithm::Sha256, signature: SignatureAlgorithm::Ecdsa },
            );
            k2 = k2 + 1;
            assert(supported_algo_pairs@ =~= Seq::new(
                k2 as nat,
                |t: int|
                    AlgoPair { hash: HashAlgorithm::Sha256, signature: SignatureAlgorithm::Ecdsa },
            ));
        }
        proof {
            assert(!(exists|k: int| 0 <= k < s[i] && #[trigger] s[i + 1 + k] != 64));
            assert(!(exists|k: int|
                0 <= k < be2(s, j) / 2 && (#[trigger] s[j + 2 + 2 * k] != 4 || s[j + 2 + 2 * k + 1]
                    != 3)));
        }
        let ca_byte_len = reader.read_u16()?;
        if ca_byte_len != 0 {
            return Err(DtlsError::LengthMismatch);
        }
        let r = Self { certificate_types, supported_algo_pairs, certificate_authorities: Vec::new() };
        proof {
            assert(r@.certificate_authorities =~~= Seq::<Seq<u8>>::empty());
        }
        Ok(r)
    }

    pub fn encode(&self, writer: &mut BufWriter)
        requires
            self.wf(),
        ensures
            final(writer)@ == old(writer)@ + enc_certificate_request(self@),
    {
        writer.write_u8(self.certificate_types.len() as u8);
        let n = self.certificate_types.len();
        let mut k: usize = 0;
        while k < n
            invariant
                k <= n,
                n == self.certificate_types@.len(),
                writer@ == old(writer)@ + seq![n as u8] + enc_cert_types(
                    self.certificate_types@.take(k as int),
                ),
            decreases n - k,
        {
            writer.write_u8(self.certificate_types[k].to_u8());
            k = k + 1;
            assert(writer@ =~= old(writer)@ + seq![n as u8] + enc_cert_types(
                self.certificate_types@.take(k as int),
            ));
        }
        proof {
            assert(enc_cert_types(self.certificate_types@.take(n as int)) =~= enc_cert_types(
                self.certificate_types@,
            ));
        }
        writer.write_u16((2 * self.supported_algo_pairs.len()) as u16);
        let ghost mid = writer@;
        let m = self.supported_algo_pairs.len();
        let mut k2: usize = 0;
        while k2 < m
            invariant
                k2 <= m,
                m == self.supported_algo_pairs@.len(),
                writer@ == mid + enc_algo_pairs(self.supported_algo_pairs@.take(k2 as int)),
            decreases m - k2,
        {
            let pair = self.supported_algo_pairs[k2];
            pair.encode(writer);
            k2 = k2 + 1;
            assert(writer@ =~= mid + enc_algo_pairs(self.supported_algo_pairs@.take(k2 as int)));
        }
        proof {
            assert(enc_algo_pairs(self.supported_algo_pairs@.take(m as int)) =~= enc_algo_pairs(
                self.supported_algo_pairs@,
            ));
        }
        writer.write_u16(self.certificate_authorities.len() as u16);
        assert(writer@ =~= old(writer)@ + enc_certificate_request(self@));
    }
}

impl HandshakeMessage for CertificateRequest {
    open spec fn wf(&self) -> bool {
        self@.wf()
    }

    open spec fn spec_type(&self) -> HandshakeType {
        HandshakeType::CertificateRequest
    }

    open spec fn spec_enc(&self) -> Seq<u8> {
        enc_certificate_request(self@)
    }

    fn get_handshake_type(&self) -> (t: HandshakeType) {
        HandshakeType::CertificateRequest
    }

    fn encode(&self, writer: &mut BufWriter) {
        CertificateRequest::encode(self, writer)
    }
}

/// Decoding the encoding of a well-formed CertificateRequest yields it
/// back, consuming exactly its bytes.
pub proof fn lemma_certificate_request_round_trip(v: CertificateRequestView)
    requires
        v.wf(),
    ensures
        enc_certificate_request(v).len() == 5 + v.certificate_types.len() + 2
            * v.supported_algo_pairs.len(),
        dec_certificate_request(enc_certificate_request(v), 0) == Ok::<
            (CertificateRequestView, int),
            DtlsError,
        >(
            (
                v,
                5 + v.certificate_types.len() as int + 2 * v.supported_algo_pairs.len() as int,
            ),
        ),
{
    let s = enc_certificate_request(v);
    let tn = v.certificate_types.len() as int;
    let pn = v.supported_algo_pairs.len() as int;
    let j = 1 + tn;
    lemma_u16_be_round_trip(2 * pn);
    lemma_u16_be_round_trip(0);
    assert(s[0] == tn as u8);
    assert(forall|k: int| 0 <= k < tn ==> #[trigger] s[1 + k] == 64) by {
        assert(forall|k: int|
            0 <= k < tn ==> #[trigger] enc_cert_types(v.certificate_types)[k] == 64);
    }
    assert(s[j] == u16_be(2 * pn)[0]);
    assert(s[j + 1] == u16_be(2 * pn)[1]);
    assert(be2(s, j) == be2(u16_be(2 * pn), 0));
    assert(be2(s, j) == 2 * pn);
    assert(forall|k: int|
        0 <= k < pn ==> #[trigger] s[j + 2 + 2 * k] == 4 && s[j + 2 + 2 * k + 1] == 3) by {
        assert(forall|k: int|
            0 <= k < pn ==> #[trigger] enc_algo_pairs(v.supported_algo_pairs)[2 * k] == 4);
        assert(forall|k: int|
            0 <= k < pn ==> #[trigger] enc_algo_pairs(v.supported_algo_pairs)[2 * k + 1] == 3);
        assert(forall|k: int|
            0 <= k < pn ==> #[trigger] s[j + 2 + 2 * k] == enc_algo_pairs(
                v.supported_algo_pairs,
            )[2 * k] && s[j + 2 + 2 * k + 1] == enc_algo_pairs(v.supported_algo_pairs)[2 * k + 1]);
    }
    let j2 = j + 2 + 2 * pn;
    assert(s[j2] == u16_be(0)[0]);
    assert(s[j2 + 1] == u16_be(0)[1]);
    assert(be2(s, j2) == 0);
    assert(Seq::new(s[0] as nat, |k: int| CertificateType::Ecdsa) =~= v.certificate_types);
    assert(Seq::new(
        (be2(s, j) / 2) as nat,
        |k: int| AlgoPair { hash: HashAlgorithm::Sha256, signature: SignatureAlgorithm::Ecdsa },
    ) =~= v.supported_algo_pairs);
    assert(v.certificate_authorities =~~= Seq::<Seq<u8>>::empty());
}

} // verus!
