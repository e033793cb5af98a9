//! JSON Web Keys (RFC 7517) for elliptic curve public keys: the curve's
//! `crv` name and the coordinates in unpadded URL-safe Base64, computed by
//! `base64ct`. The JSON text itself is read and written by serde outside
//! this crate.

use vstd::prelude::*;

use crate::base64url::{
    base64url_decode, base64url_encode, lemma_base64url_roundtrip, spec_base64url,
    spec_base64url_decode,
};
use crate::curve::{JwkParameters, ProjectiveArithmetic};
use crate::error::Error;
use crate::public_key::{lemma_sec1_roundtrip, spec_sec1_key_point, PublicKey};
use crate::sec1::{spec_affine_encoding, Coordinates, EncodedPoint};

verus! {

/// JSON Web Key of an elliptic curve key.
#[derive(Clone, Debug, PartialEq, Eq)]
pub struct JwkEcKey {
    /// The curve's name (`crv`).
    pub crv: String,
    /// The x-coordinate, unpadded URL-safe Base64.
    pub x: String,
    /// The y-coordinate, unpadded URL-safe Base64.
    pub y: String,
    /// The private scalar, unpadded URL-safe Base64, where present.
    pub d: Option<String>,
}

/// Is `kty` the JWK key type of elliptic curve keys, `EC`?
pub fn is_ec_key_type(kty: &str) -> (b: bool)
    ensures
        b == (kty@ == "EC"@),
{
    let expected: String = "EC".to_owned();
    let given: String = kty.to_owned();
    given == expected
}

/// `bytes` followed by zeros up to `n` bytes: how a decoded coordinate
/// shorter than a field element fills one.
pub open spec fn spec_pad(bytes: Seq<u8>, n: nat) -> Seq<u8> {
    bytes + Seq::new((n - bytes.len()) as nat, |i: int| 0u8)
}

/// A coordinate decoded from Base64 into a field element of `n` bytes:
/// `None` where the text does not decode or is longer than `n` bytes.
pub open spec fn spec_field_element(s: Seq<char>, n: nat) -> Option<Seq<u8>> {
    match spec_base64url_decode(s) {
        Some(b) => if b.len() <= n {
            Some(spec_pad(b, n))
        } else {
            None
        },
        None => None,
    }
}

/// The uncompressed SEC1 encoding that a JWK with name `crv` and
/// coordinates `x`, `y` denotes for the curve `C`: `None` where the name is
/// not the curve's or a coordinate does not decode into a field element.
pub open spec fn spec_jwk_sec1<C: JwkParameters>(crv: Seq<char>, x: Seq<char>, y: Seq<char>) -> Option<
    Seq<u8>,
> {
    if crv != C::spec_crv() {
        None
    } else {
        match (
            spec_field_element(x, C::spec_field_size()),
            spec_field_element(y, C::spec_field_size()),
        ) {
            (Some(xb), Some(yb)) => Some(spec_affine_encoding(xb, yb, false)),
            _ => None,
        }
    }
}

/// The key point that a JWK denotes for the curve `C`.
pub open spec fn spec_jwk_key_point<C: ProjectiveArithmetic + JwkParameters>(jwk: JwkEcKey) -> Option<
    C::AffinePoint,
> {
    match spec_jwk_sec1::<C>(jwk.crv@, jwk.x@, jwk.y@) {
        Some(e) => spec_sec1_key_point::<C>(e),
        None => None,
    }
}

/// The key that a JWK gives depends on its `crv`, `x` and `y` members
/// alone: the private member `d` is ignored.
pub proof fn lemma_jwk_ignores_private_member<C: ProjectiveArithmetic + JwkParameters>(
    a: JwkEcKey,
    b: JwkEcKey,
)
    requires
        a.crv@ == b.crv@,
        a.x@ == b.x@,
        a.y@ == b.y@,
    ensures
        spec_jwk_key_point::<C>(a) == spec_jwk_key_point::<C>(b),
{
}

/// Decode a Base64 coordinate into a field element of `n` bytes.
fn decode_field_element(s: &str, n: usize) -> (r: Option<Vec<u8>>)
    ensures
        match r {
            Some(v) => spec_field_element(s@, n as nat) == Some(v@),
            None => spec_field_element(s@, n as nat) is None,
        },
{
    let mut bytes = match base64url_decode(s) {
        Some(b) => b,
        None => return None,
    };
    if bytes.len() > n {
        return None;
    }
    let ghost decoded = bytes@;
    while bytes.len() < n
        invariant
            decoded.len() <= bytes@.len() <= n,
            bytes@ == decoded + Seq::new((bytes@.len() - decoded.len()) as nat, |i: int| 0u8),
        decreases n - bytes@.len(),
    {
        bytes.push(0u8);
        assert(bytes@ =~= decoded + Seq::new((bytes@.len() - decoded.len()) as nat, |i: int| 0u8));
    }
    Some(bytes)
}

impl JwkEcKey {
    /// The curve's name (`crv`).
    pub fn crv(&self) -> (crv: &str)
        ensures
            crv@ == self.crv@,
    {
        self.crv.as_str()
    }

    /// The uncompressed SEC1 point that this JWK denotes for the curve `C`.
    pub fn to_encoded_point<C: JwkParameters>(&self) -> (r: Result<EncodedPoint<C>, Error>)
        ensures
            match spec_jwk_sec1::<C>(self.crv@, self.x@, self.y@) {
                Some(e) => r matches Ok(p) && p@ == e,
                None => r is Err,
            },
    {
        let expected = C::crv().to_owned();
        if self.crv != expected {
            return Err(Error);
        }
        let n = C::field_size();
        let x = match decode_field_element(self.x.as_str(), n) {
            Some(v) => v,
            None => return Err(Error),
        };
        let y = match decode_field_element(self.y.as_str(), n) {
            Some(v) => v,
            None => return Err(Error),
        };
        Ok(EncodedPoint::from_affine_coordinates(x.as_slice(), y.as_slice(), false))
    }

    /// The JWK of an uncompressed SEC1 point of the curve `C`: `None` for the
    /// identity and for compressed points.
    pub fn from_encoded_point<C: JwkParameters>(point: &EncodedPoint<C>) -> (r: Option<Self>)
        ensures
            r is Some <==> point@[0] == 4,
            r matches Some(jwk) ==> {
                &&& jwk.crv@ == C::spec_crv()
                &&& jwk.x@ == spec_base64url(
                    point@.subrange(1, 1 + C::spec_field_size() as int),
                )
                &&& jwk.y@ == spec_base64url(
                    point@.subrange(
                        1 + C::spec_field_size() as int,
                        1 + 2 * C::spec_field_size() as int,
                    ),
                )
                &&& jwk.d is None
            },
    {
        proof {
            use_type_invariant(point);
            C::lemma_field_size_bounds();
        }
        match point.coordinates() {
            Coordinates::Uncompressed { x, y } => {
                let crv = C::crv().to_owned();
                let xs = base64url_encode(x.as_slice());
                let ys = base64url_encode(y.as_slice());
                Some(JwkEcKey { crv, x: xs, y: ys, d: None })
            },
            _ => None,
        }
    }

    /// The public key of the curve `C` that this JWK denotes.
    pub fn to_public_key<C: ProjectiveArithmetic + JwkParameters>(&self) -> (r: Result<
        PublicKey<C>,
        Error,
    >)
        ensures
            r is Ok <==> spec_jwk_key_point::<C>(*self) is Some,
            r matches Ok(pk) ==> spec_jwk_key_point::<C>(*self) == Some(pk@),
    {
        let point = match self.to_encoded_point::<C>() {
            Ok(p) => p,
            Err(e) => return Err(e),
        };
        PublicKey::from_sec1_bytes(point.as_bytes())
    }
}

impl<C: ProjectiveArithmetic + JwkParameters> PublicKey<C> {
    /// Parse a JSON Web Key into a public key.
    pub fn from_jwk(jwk: &JwkEcKey) -> (r: Result<Self, Error>)
        ensures
            r is Ok <==> spec_jwk_key_point::<C>(*jwk) is Some,
            r matches Ok(pk) ==> spec_jwk_key_point::<C>(*jwk) == Some(pk@),
    {
        jwk.to_public_key::<C>()
    }

    /// Serialize this public key as a JSON Web Key: the curve's name and
    /// the coordinates of the uncompressed SEC1 encoding. Parsing it back
    /// gives this key.
    pub fn to_jwk(&self) -> (jwk: JwkEcKey)
        ensures
            jwk.crv@ == C::spec_crv(),
            jwk.x@ == spec_base64url(
                C::spec_encode(self@, false).subrange(1, 1 + C::spec_field_size() as int),
            ),
            jwk.y@ == spec_base64url(
                C::spec_encode(self@, false).subrange(
                    1 + C::spec_field_size() as int,
                    1 + 2 * C::spec_field_size() as int,
                ),
            ),
            jwk.d is None,
            spec_jwk_key_point::<C>(jwk) == Some(self@),
    {
        proof {
            use_type_invariant(self);
            C::lemma_encoding_shape(self@, false);
            lemma_sec1_roundtrip(*self);
        }
        let point = self.to_encoded_point(false);
        let n = C::field_size();
        match JwkEcKey::from_encoded_point::<C>(&point) {
            Some(jwk) => {
                proof {
                    let e = point@;
                    let x = e.subrange(1, 1 + n as int);
                    let y = e.subrange(1 + n as int, 1 + 2 * n as int);
                    lemma_base64url_roundtrip(x);
                    lemma_base64url_roundtrip(y);
                    assert(spec_pad(x, n as nat) =~= x);
                    assert(spec_pad(y, n as nat) =~= y);
                    assert(spec_affine_encoding(x, y, false) =~= e);
                }
                jwk
            },
            None => {
                // The uncompressed encoding of a key always starts with 0x04.
                proof {
                    assert(false);
                }
                JwkEcKey { crv: C::crv().to_owned(), x: String::new(), y: String::new(), d: None }
            },
        }
    }
}

} // verus!
