//! The traits through which a concrete elliptic curve plugs into this crate.

use vstd::prelude::*;

use crate::document::spec_valid_oid;
use crate::sec1::{is_valid_encoding, EncodedPoint};

verus! {

/// Largest size, in bytes, of a serialized field element that a curve may
/// declare (large enough for every standard curve).
pub const MAX_FIELD_SIZE: usize = 512;

/// An elliptic curve: what the encodings need to know about it.
pub trait Curve: Sized {
    /// Size in bytes of a serialized field element (and of a coordinate).
    spec fn spec_field_size() -> nat;

    /// Size in bytes of a serialized field element.
    fn field_size() -> (n: usize)
        ensures
            n == Self::spec_field_size(),
            1 <= n <= MAX_FIELD_SIZE,
    ;

    /// The field size is positive and at most `MAX_FIELD_SIZE`.
    proof fn lemma_field_size_bounds()
        ensures
            1 <= Self::spec_field_size() <= MAX_FIELD_SIZE,
    ;
}

/// Group arithmetic of a curve of prime order: affine and projective
/// points, scalars, multiplication of the generator, and the SEC1 encoding
/// of affine points.
///
/// Implementors prove, with the proof functions below, the facts about
/// their curve that public keys rely on.
pub trait ProjectiveArithmetic: Curve {
    /// A point in affine coordinates.
    type AffinePoint: Copy + core::fmt::Debug + PartialEq + Eq;
    /// A point in projective coordinates.
    type ProjectivePoint: Copy + core::fmt::Debug;
    /// An element of the scalar field.
    type Scalar: Copy + core::fmt::Debug;

    /// The projective form of an affine point.
    spec fn spec_to_projective(p: Self::AffinePoint) -> Self::ProjectivePoint;

    /// The affine form of a projective point.
    spec fn spec_to_affine(p: Self::ProjectivePoint) -> Self::AffinePoint;

    /// Is this projective point the identity of the group?
    spec fn spec_is_identity(p: Self::ProjectivePoint) -> bool;

    /// Is this scalar zero?
    spec fn spec_is_zero(s: Self::Scalar) -> bool;

    /// The generator of the group multiplied by `s`.
    spec fn spec_mul_generator(s: Self::Scalar) -> Self::ProjectivePoint;

    /// The SEC1 encoding of an affine point.
    spec fn spec_encode(p: Self::AffinePoint, compress: bool) -> Seq<u8>;

    /// The affine point that a SEC1 encoding denotes, where it denotes one.
    spec fn spec_decode(bytes: Seq<u8>) -> Option<Self::AffinePoint>;

    /// Convert an affine point to projective coordinates.
    fn to_projective(p: &Self::AffinePoint) -> (r: Self::ProjectivePoint)
        ensures
            r == Self::spec_to_projective(*p),
    ;

    /// Convert a projective point to affine coordinates.
    fn to_affine(p: &Self::ProjectivePoint) -> (r: Self::AffinePoint)
        ensures
            r == Self::spec_to_affine(*p),
    ;

    /// Is this projective point the identity of the group?
    fn is_identity(p: &Self::ProjectivePoint) -> (b: bool)
        ensures
            b == Self::spec_is_identity(*p),
    ;

    /// Is this scalar zero?
    fn is_zero(s: &Self::Scalar) -> (b: bool)
        ensures
            b == Self::spec_is_zero(*s),
    ;

    /// Multiply the generator of the group by `s`.
    fn mul_generator(s: &Self::Scalar) -> (r: Self::ProjectivePoint)
        ensures
            r == Self::spec_mul_generator(*s),
    ;

    /// SEC1-encode an affine point.
    fn to_encoded_point(p: &Self::AffinePoint, compress: bool) -> (e: EncodedPoint<Self>)
        ensures
            e@ == Self::spec_encode(*p, compress),
    ;

    /// Decode the affine point that a SEC1 encoding denotes.
    fn from_encoded_point(e: &EncodedPoint<Self>) -> (r: Option<Self::AffinePoint>)
        ensures
            r == Self::spec_decode(e@),
    ;

    /// Converting an affine point to projective coordinates and back gives
    /// the point.
    proof fn lemma_affine_projective_roundtrip(p: Self::AffinePoint)
        ensures
            Self::spec_to_affine(Self::spec_to_projective(p)) == p,
    ;

    /// The group has prime order: a non-zero multiple of the generator is
    /// never the identity.
    proof fn lemma_generator_multiple_not_identity(s: Self::Scalar)
        requires
            !Self::spec_is_zero(s),
        ensures
            !Self::spec_is_identity(
                Self::spec_to_projective(Self::spec_to_affine(Self::spec_mul_generator(s))),
            ),
    ;

    /// Encodings are well formed; the identity encodes as `0x00`, and every
    /// other point as a compressed (`0x02`/`0x03`) or uncompressed (`0x04`)
    /// point, as asked.
    proof fn lemma_encoding_shape(p: Self::AffinePoint, compress: bool)
        ensures
            is_valid_encoding(Self::spec_encode(p, compress), Self::spec_field_size()),
            (Self::spec_encode(p, compress)[0] == 0) == Self::spec_is_identity(
                Self::spec_to_projective(p),
            ),
            !Self::spec_is_identity(Self::spec_to_projective(p)) ==> (if compress {
                Self::spec_encode(p, compress)[0] == 2 || Self::spec_encode(p, compress)[0] == 3
            } else {
                Self::spec_encode(p, compress)[0] == 4
            }),
    ;

    /// Decoding an uncompressed encoding gives the point back.
    proof fn lemma_decode_uncompressed(p: Self::AffinePoint)
        ensures
            Self::spec_decode(Self::spec_encode(p, false)) == Some(p),
    ;
}

/// Curves identified in SPKI documents by an object identifier.
pub trait AlgorithmParameters: Curve {
    /// The curve's object identifier, as the DER bytes of its value.
    spec fn spec_oid() -> Seq<u8>;

    /// The curve's object identifier, as the DER bytes of its value.
    fn oid() -> (oid: Vec<u8>)
        ensures
            oid@ == Self::spec_oid(),
    ;

    /// The curve's OID is one that `const-oid` accepts.
    proof fn lemma_oid_valid()
        ensures
            spec_valid_oid(Self::spec_oid()),
    ;
}

/// Curves that have a JSON Web Key `crv` name.
pub trait JwkParameters: Curve {
    /// The curve's `crv` name.
    spec fn spec_crv() -> Seq<char>;

    /// The curve's `crv` name.
    fn crv() -> (crv: &'static str)
        ensures
            crv@ == Self::spec_crv(),
    ;
}

/// Curves with a preferred point format (compressed or not).
pub trait PointCompression: Curve {
    /// Should points of this curve be compressed by default?
    spec fn spec_compress_points() -> bool;

    /// Should points of this curve be compressed by default?
    fn compress_points() -> (b: bool)
        ensures
            b == Self::spec_compress_points(),
    ;
}

/// A scalar that is not zero.
pub struct NonZeroScalar<C: ProjectiveArithmetic> {
    scalar: C::Scalar,
}

impl<C: ProjectiveArithmetic> View for NonZeroScalar<C> {
    type V = C::Scalar;

    closed spec fn view(&self) -> C::Scalar {
        self.scalar
    }
}

impl<C: ProjectiveArithmetic> NonZeroScalar<C> {
    /// The scalar is never zero.
    #[verifier::type_invariant]
    pub open spec fn wf(self) -> bool {
        !C::spec_is_zero(self@)
    }

    /// Wrap a scalar, unless it is zero.
    pub fn new(scalar: C::Scalar) -> (r: Option<Self>)
        ensures
            r is Some <==> !C::spec_is_zero(scalar),
            r matches Some(s) ==> s@ == scalar,
    {
        if C::is_zero(&scalar) {
            None
        } else {
            Some(NonZeroScalar { scalar })
        }
    }

    /// Borrow the scalar.
    pub fn as_ref(&self) -> (s: &C::Scalar)
        ensures
            *s == self@,
            !C::spec_is_zero(*s),
    {
        proof {
            use_type_invariant(self);
        }
        &self.scalar
    }
}

} // verus!
