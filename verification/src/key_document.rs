//! Public keys as SPKI documents: DER, PEM, and the hexadecimal text form
//! of the DER document used by human-readable serialization.

use vstd::prelude::*;

use crate::curve::{AlgorithmParameters, ProjectiveArithmetic};
use crate::document::{
    algorithm_oid, decode_spki, decode_spki_pem, encode_spki, encode_spki_pem, hex_decode,
    hex_upper, lemma_algorithm_oid_valid, lemma_hex_roundtrip, lemma_spki_layout_len,
    parameters_view, spec_algorithm_oid, spec_hex_decode, spec_hex_upper, spec_spki_layout,
    spec_spki_pem, spki_fields, spki_pem_der, LineEnding, Parameters, SpkiError,
    SubjectPublicKeyInfo,
};
use crate::error::Error;
use crate::order::{compare_bytes, lemma_compare_equal, ByteOrder};
use crate::public_key::{lemma_sec1_roundtrip, spec_sec1_key_point, PublicKey};

verus! {

/// Are the two byte strings equal?
pub fn bytes_equal(a: &[u8], b: &[u8]) -> (r: bool)
    ensures
        r == (a@ == b@),
{
    proof {
        lemma_compare_equal(a@, b@);
    }
    match compare_bytes(a, b) {
        ByteOrder::Equal => true,
        _ => false,
    }
}

/// The key point that the fields of an SPKI document denote: present
/// exactly when the algorithm is `id-ecPublicKey`, the parameters are the
/// curve's OID, and the key bits are a SEC1 encoding of a point other than
/// the identity.
pub open spec fn spec_spki_key_point<C: ProjectiveArithmetic + AlgorithmParameters>(
    algorithm_oid: Seq<u8>,
    parameters: Option<Option<Seq<u8>>>,
    subject_public_key: Seq<u8>,
) -> Option<C::AffinePoint> {
    if algorithm_oid == spec_algorithm_oid() && parameters == Some(Some(C::spec_oid())) {
        spec_sec1_key_point::<C>(subject_public_key)
    } else {
        None
    }
}

/// The key point that an SPKI DER document denotes.
pub open spec fn spec_der_key_point<C: ProjectiveArithmetic + AlgorithmParameters>(
    der: Seq<u8>,
) -> Option<C::AffinePoint> {
    match spki_fields(der) {
        Some((a, p, k)) => spec_spki_key_point::<C>(a, p, k),
        None => None,
    }
}

/// What reading a key from the fields of an SPKI document gives, checked
/// in order: the algorithm must be `id-ecPublicKey` (else `OidUnknown` with
/// that OID), the parameters present (else `AlgorithmParametersMissing`),
/// an OID (else `ParametersNotOid`) and the curve's OID (else `OidUnknown`
/// with the curve's OID), and the key bits the SEC1 encoding of a point
/// other than the identity (else `InvalidKey`).
pub open spec fn spec_spki_outcome<C: ProjectiveArithmetic + AlgorithmParameters>(
    algorithm_oid: Seq<u8>,
    parameters: Option<Option<Seq<u8>>>,
    subject_public_key: Seq<u8>,
    r: Result<PublicKey<C>, SpkiError>,
) -> bool {
    if algorithm_oid != spec_algorithm_oid() {
        (r matches Err(SpkiError::OidUnknown { oid }) && oid@ == spec_algorithm_oid())
    } else {
        match parameters {
            None => (r matches Err(SpkiError::AlgorithmParametersMissing)),
            Some(None) => (r matches Err(SpkiError::ParametersNotOid)),
            Some(Some(q)) => if q != C::spec_oid() {
                (r matches Err(SpkiError::OidUnknown { oid }) && oid@ == C::spec_oid())
            } else {
                match spec_sec1_key_point::<C>(subject_public_key) {
                    Some(p) => (r matches Ok(pk) && pk@ == p),
                    None => (r matches Err(SpkiError::InvalidKey)),
                }
            },
        }
    }
}

/// What reading a key from the SPKI DER document `der` gives: `Malformed`
/// where `spki` decodes no document, else the outcome of its fields.
pub open spec fn spec_der_outcome<C: ProjectiveArithmetic + AlgorithmParameters>(
    der: Seq<u8>,
    r: Result<PublicKey<C>, SpkiError>,
) -> bool {
    match spki_fields(der) {
        Some((a, p, k)) => spec_spki_outcome::<C>(a, p, k, r),
        None => (r matches Err(SpkiError::Malformed)),
    }
}

/// The DER layout of the SPKI document of the key point `p`: algorithm
/// `id-ecPublicKey`, parameters the curve's OID, key bits the uncompressed
/// SEC1 encoding.
pub open spec fn spec_key_der<C: ProjectiveArithmetic + AlgorithmParameters>(
    p: C::AffinePoint,
) -> Seq<u8> {
    spec_spki_layout(spec_algorithm_oid(), C::spec_oid(), C::spec_encode(p, false))
}

/// Where the algorithm is `id-ecPublicKey` and the parameters are the
/// curve's OID, the fields of an SPKI document give exactly the key that
/// their key bits give as a SEC1 encoding, compressed or uncompressed:
/// that key where there is one, else `InvalidKey`.
pub proof fn lemma_spki_key_is_sec1_key<C: ProjectiveArithmetic + AlgorithmParameters>(
    subject_public_key: Seq<u8>,
    r: Result<PublicKey<C>, SpkiError>,
)
    ensures
        spec_spki_key_point::<C>(
            spec_algorithm_oid(),
            Some(Some(C::spec_oid())),
            subject_public_key,
        ) == spec_sec1_key_point::<C>(subject_public_key),
        spec_spki_outcome::<C>(
            spec_algorithm_oid(),
            Some(Some(C::spec_oid())),
            subject_public_key,
            r,
        ) <==> match spec_sec1_key_point::<C>(subject_public_key) {
            Some(p) => (r matches Ok(pk) && pk@ == p),
            None => (r matches Err(SpkiError::InvalidKey)),
        },
{
}

/// A DER document whose `spki` fields are `id-ecPublicKey`, the curve's
/// OID and the key bits `subject_public_key` gives exactly the key that
/// the key bits give as a SEC1 encoding, compressed or uncompressed: that
/// key where there is one, else `InvalidKey`.
pub proof fn lemma_der_key_is_sec1_key<C: ProjectiveArithmetic + AlgorithmParameters>(
    der: Seq<u8>,
    subject_public_key: Seq<u8>,
    r: Result<PublicKey<C>, SpkiError>,
)
    requires
        spki_fields(der) == Some(
            (spec_algorithm_oid(), Some(Some(C::spec_oid())), subject_public_key),
        ),
    ensures
        spec_der_key_point::<C>(der) == spec_sec1_key_point::<C>(subject_public_key),
        spec_der_outcome::<C>(der, r) <==> match spec_sec1_key_point::<C>(subject_public_key) {
            Some(p) => (r matches Ok(pk) && pk@ == p),
            None => (r matches Err(SpkiError::InvalidKey)),
        },
{
    lemma_spki_key_is_sec1_key::<C>(subject_public_key, r);
}

impl<C: ProjectiveArithmetic + AlgorithmParameters> PublicKey<C> {
    /// Read a public key from the fields of an SPKI document: the algorithm
    /// must be `id-ecPublicKey` with the curve's OID as parameters, and the
    /// key bits a SEC1 encoding of a point other than the identity.
    pub fn try_from_spki(spki: &SubjectPublicKeyInfo) -> (r: Result<Self, SpkiError>)
        ensures
            spec_spki_outcome::<C>(
                spki.algorithm_oid@,
                parameters_view(spki.parameters),
                spki.subject_public_key@,
                r,
            ),
            r is Ok <==> spec_spki_key_point::<C>(
                spki.algorithm_oid@,
                parameters_view(spki.parameters),
                spki.subject_public_key@,
            ) is Some,
            r matches Ok(pk) ==> spec_spki_key_point::<C>(
                spki.algorithm_oid@,
                parameters_view(spki.parameters),
                spki.subject_public_key@,
            ) == Some(pk@),
    {
        let expected_algorithm = algorithm_oid();
        if !bytes_equal(spki.algorithm_oid.as_slice(), expected_algorithm.as_slice()) {
            return Err(SpkiError::OidUnknown { oid: expected_algorithm });
        }
        let expected_parameters = C::oid();
        match &spki.parameters {
            Parameters::Oid(p) => {
                if !bytes_equal(p.as_slice(), expected_parameters.as_slice()) {
                    return Err(SpkiError::OidUnknown { oid: expected_parameters });
                }
            },
            Parameters::Absent => {
                return Err(SpkiError::AlgorithmParametersMissing);
            },
            Parameters::Other => {
                return Err(SpkiError::ParametersNotOid);
            },
        }
        match Self::from_sec1_bytes(spki.subject_public_key.as_slice()) {
            Ok(pk) => Ok(pk),
            Err(_) => Err(SpkiError::InvalidKey),
        }
    }

    /// Decode a public key from an ASN.1 DER SPKI document.
    pub fn from_public_key_der(bytes: &[u8]) -> (r: Result<Self, SpkiError>)
        ensures
            spec_der_outcome::<C>(bytes@, r),
            r is Ok <==> spec_der_key_point::<C>(bytes@) is Some,
            r matches Ok(pk) ==> spec_der_key_point::<C>(bytes@) == Some(pk@),
    {
        match decode_spki(bytes) {
            Some(spki) => Self::try_from_spki(&spki),
            None => Err(SpkiError::Malformed),
        }
    }

    /// Encode this public key as an ASN.1 DER SPKI document: algorithm
    /// `id-ecPublicKey`, the curve's OID as parameters, and the
    /// uncompressed SEC1 encoding as key bits. It always succeeds, and
    /// reading the document back gives this key.
    pub fn to_public_key_der(&self) -> (r: Result<Vec<u8>, Error>)
        ensures
            r matches Ok(v) && v@ == spec_key_der::<C>(self@),
            r matches Ok(v) && spec_der_key_point::<C>(v@) == Some(self@),
    {
        proof {
            use_type_invariant(self);
            lemma_sec1_roundtrip(*self);
            lemma_algorithm_oid_valid();
            C::lemma_oid_valid();
            C::lemma_field_size_bounds();
            C::lemma_encoding_shape(self@, false);
        }
        let point = self.to_encoded_point(false);
        let algorithm = algorithm_oid();
        let parameters = C::oid();
        match encode_spki(algorithm.as_slice(), parameters.as_slice(), point.as_bytes()) {
            Some(der) => Ok(der),
            None => Err(Error),
        }
    }

    /// Decode a public key from a PEM SPKI document (`PUBLIC KEY` label).
    pub fn from_public_key_pem(s: &str) -> (r: Result<Self, SpkiError>)
        ensures
            match spki_pem_der(s@) {
                Some(d) => spec_der_outcome::<C>(d, r),
                None => (r matches Err(SpkiError::Malformed)),
            },
            match spki_pem_der(s@) {
                Some(d) => (r is Ok <==> spec_der_key_point::<C>(d) is Some) && (r matches Ok(pk)
                    ==> spec_der_key_point::<C>(d) == Some(pk@)),
                None => r is Err,
            },
    {
        match decode_spki_pem(s) {
            Some(der) => Self::from_public_key_der(der.as_slice()),
            None => Err(SpkiError::Malformed),
        }
    }

    /// Encode this public key as a PEM SPKI document with the given line
    /// ending. It always succeeds, and reading the text back gives this key.
    pub fn to_public_key_pem(&self, line_ending: LineEnding) -> (r: Result<String, Error>)
        ensures
            r matches Ok(t) && t@ == spec_spki_pem(spec_key_der::<C>(self@), line_ending),
            r matches Ok(t) && (spki_pem_der(t@) matches Some(d) && spec_der_key_point::<C>(d)
                == Some(self@)),
    {
        let der = match self.to_public_key_der() {
            Ok(d) => d,
            Err(e) => return Err(e),
        };
        proof {
            C::lemma_oid_valid();
            C::lemma_field_size_bounds();
            C::lemma_encoding_shape(self@, false);
            lemma_spki_layout_len(spec_algorithm_oid(), C::spec_oid(), C::spec_encode(self@, false));
        }
        match encode_spki_pem(der.as_slice(), line_ending) {
            Some(s) => Ok(s),
            None => Err(Error),
        }
    }

    /// The human-readable serialized form of this key: its DER SPKI
    /// document as upper-case hexadecimal text. It always succeeds, and
    /// reading the text back gives this key.
    pub fn to_public_key_hex(&self) -> (r: Result<String, Error>)
        ensures
            r matches Ok(t) && t@ == spec_hex_upper(spec_key_der::<C>(self@)),
            r matches Ok(t) && (spec_hex_decode(t@) matches Some(d) && spec_der_key_point::<C>(d)
                == Some(self@)),
    {
        let der = match self.to_public_key_der() {
            Ok(d) => d,
            Err(e) => return Err(e),
        };
        proof {
            C::lemma_oid_valid();
            C::lemma_field_size_bounds();
            C::lemma_encoding_shape(self@, false);
            lemma_spki_layout_len(spec_algorithm_oid(), C::spec_oid(), C::spec_encode(self@, false));
            lemma_hex_roundtrip(der@);
        }
        Ok(hex_upper(der.as_slice()))
    }

    /// Read a key from its human-readable serialized form: hexadecimal text
    /// (of either case) of its DER SPKI document.
    pub fn from_public_key_hex(s: &str) -> (r: Result<Self, SpkiError>)
        ensures
            match spec_hex_decode(s@) {
                Some(d) => spec_der_outcome::<C>(d, r),
                None => (r matches Err(SpkiError::Malformed)),
            },
            match spec_hex_decode(s@) {
                Some(d) => (r is Ok <==> spec_der_key_point::<C>(d) is Some) && (r matches Ok(pk)
                    ==> spec_der_key_point::<C>(d) == Some(pk@)),
                None => r is Err,
            },
    {
        match hex_decode(s) {
            Some(der) => Self::from_public_key_der(der.as_slice()),
            None => Err(SpkiError::Malformed),
        }
    }
}

impl<C: ProjectiveArithmetic + AlgorithmParameters> core::str::FromStr for PublicKey<C> {
    type Err = Error;

    /// Parse a PEM SPKI document (see `from_public_key_pem`).
    fn from_str(s: &str) -> (r: Result<Self, Error>)
        ensures
            match spki_pem_der(s@) {
                Some(d) => (r is Ok <==> spec_der_key_point::<C>(d) is Some) && (r matches Ok(pk)
                    ==> spec_der_key_point::<C>(d) == Some(pk@)),
                None => r is Err,
            },
    {
        match Self::from_public_key_pem(s) {
            Ok(pk) => Ok(pk),
            Err(_) => Err(Error),
        }
    }
}

} // verus!
