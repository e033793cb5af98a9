//! Elliptic curve public keys.

use vstd::prelude::*;

use crate::curve::{NonZeroScalar, PointCompression, ProjectiveArithmetic};
use crate::error::Error;
use crate::order::{
    compare_bytes, lemma_compare_antisymmetric, lemma_compare_equal, lemma_compare_first_difference,
    lemma_compare_transitive, spec_compare_bytes, ByteOrder,
};
use crate::sec1::{is_valid_encoding, EncodedPoint};

verus! {

/// Is the affine point `p` the identity of the group of `C`? (Decided, as
/// the keys decide it, on its projective form.)
pub open spec fn is_identity_point<C: ProjectiveArithmetic>(p: C::AffinePoint) -> bool {
    C::spec_is_identity(C::spec_to_projective(p))
}

/// The point of the public key that the SEC1 encoding `bytes` denotes:
/// present exactly when `bytes` is a well-formed encoding that decodes to a
/// point of `C` other than the identity.
pub open spec fn spec_sec1_key_point<C: ProjectiveArithmetic>(bytes: Seq<u8>) -> Option<
    C::AffinePoint,
> {
    if is_valid_encoding(bytes, C::spec_field_size()) {
        match C::spec_decode(bytes) {
            Some(p) => if is_identity_point::<C>(p) {
                None
            } else {
                Some(p)
            },
            None => None,
        }
    } else {
        None
    }
}

/// Order of two key points: lexicographic order of their uncompressed
/// SEC1 encodings.
pub open spec fn spec_key_order<C: ProjectiveArithmetic>(
    a: C::AffinePoint,
    b: C::AffinePoint,
) -> ByteOrder {
    spec_compare_bytes(C::spec_encode(a, false), C::spec_encode(b, false))
}

/// The standard ordering that a byte-string comparison stands for.
pub open spec fn std_ordering_of(o: ByteOrder) -> core::cmp::Ordering {
    match o {
        ByteOrder::Less => core::cmp::Ordering::Less,
        ByteOrder::Equal => core::cmp::Ordering::Equal,
        ByteOrder::Greater => core::cmp::Ordering::Greater,
    }
}

/// Elliptic curve public key: an affine point of the curve `C` that is
/// never the identity.
#[derive(Debug, PartialEq, Eq)]
pub struct PublicKey<C: ProjectiveArithmetic> {
    point: C::AffinePoint,
}

impl<C: ProjectiveArithmetic> Clone for PublicKey<C> {
    /// A copy of the key.
    fn clone(&self) -> (r: Self)
        ensures
            r == *self,
    {
        proof {
            use_type_invariant(self);
        }
        PublicKey { point: self.point }
    }
}

impl<C: ProjectiveArithmetic> AsRef<C::AffinePoint> for PublicKey<C> {
    /// Borrow the inner affine point.
    fn as_ref(&self) -> (p: &C::AffinePoint)
        ensures
            *p == self@,
    {
        self.as_affine()
    }
}

impl<C: ProjectiveArithmetic> Copy for PublicKey<C> {

}

impl<C: ProjectiveArithmetic> View for PublicKey<C> {
    type V = C::AffinePoint;

    closed spec fn view(&self) -> C::AffinePoint {
        self.point
    }
}

impl<C: ProjectiveArithmetic> PublicKey<C> {
    /// A public key never holds the identity point.
    #[verifier::type_invariant]
    pub open spec fn wf(self) -> bool {
        !is_identity_point::<C>(self@)
    }

    /// Convert an affine point into a public key: fails exactly when the
    /// point is the identity.
    pub fn from_affine(point: C::AffinePoint) -> (r: Result<Self, Error>)
        ensures
            r is Ok <==> !is_identity_point::<C>(point),
            r matches Ok(pk) ==> pk@ == point,
    {
        let projective = C::to_projective(&point);
        if C::is_identity(&projective) {
            Err(Error)
        } else {
            Ok(PublicKey { point })
        }
    }

    /// Compute the public key of a secret scalar: the generator multiplied
    /// by it, in affine form. A non-zero scalar never gives the identity.
    pub fn from_secret_scalar(scalar: &NonZeroScalar<C>) -> (pk: Self)
        ensures
            pk@ == C::spec_to_affine(C::spec_mul_generator(scalar@)),
    {
        let s = scalar.as_ref();
        let projective = C::mul_generator(s);
        let point = C::to_affine(&projective);
        proof {
            C::lemma_generator_multiple_not_identity(*s);
        }
        PublicKey { point }
    }

    /// Initialize a public key from a SEC1 encoded point: fails when the
    /// point does not decode or is the identity.
    pub fn from_encoded_point(encoded_point: &EncodedPoint<C>) -> (r: Option<Self>)
        ensures
            r matches Some(pk) ==> C::spec_decode(encoded_point@) == Some(pk@),
            r is Some <==> (C::spec_decode(encoded_point@) matches Some(p)
                && !is_identity_point::<C>(p)),
    {
        match C::from_encoded_point(encoded_point) {
            Some(point) => {
                let projective = C::to_projective(&point);
                if C::is_identity(&projective) {
                    None
                } else {
                    Some(PublicKey { point })
                }
            },
            None => None,
        }
    }

    /// Decode a public key (compressed or uncompressed) from the SEC1
    /// `Elliptic-Curve-Point-to-Octet-String` encoding.
    pub fn from_sec1_bytes(bytes: &[u8]) -> (r: Result<Self, Error>)
        ensures
            r is Ok <==> spec_sec1_key_point::<C>(bytes@) is Some,
            r matches Ok(pk) ==> spec_sec1_key_point::<C>(bytes@) == Some(pk@),
    {
        let point = match EncodedPoint::<C>::from_bytes(bytes) {
            Ok(p) => p,
            Err(_) => return Err(Error),
        };
        match Self::from_encoded_point(&point) {
            Some(pk) => Ok(pk),
            None => Err(Error),
        }
    }

    /// Borrow the inner affine point.
    pub fn as_affine(&self) -> (p: &C::AffinePoint)
        ensures
            *p == self@,
    {
        &self.point
    }

    /// Convert this public key to a projective point.
    pub fn to_projective(&self) -> (p: C::ProjectivePoint)
        ensures
            p == C::spec_to_projective(self@),
            C::spec_to_affine(p) == self@,
            !C::spec_is_identity(p),
    {
        proof {
            use_type_invariant(self);
            C::lemma_affine_projective_roundtrip(self@);
        }
        C::to_projective(&self.point)
    }

    /// Serialize this public key as a SEC1 encoded point, compressed or not.
    pub fn to_encoded_point(&self, compress: bool) -> (e: EncodedPoint<C>)
        ensures
            e@ == C::spec_encode(self@, compress),
    {
        C::to_encoded_point(&self.point, compress)
    }

    /// Order public keys by their uncompressed SEC1 encodings.
    pub fn cmp(&self, other: &Self) -> (r: core::cmp::Ordering)
        ensures
            r == std_ordering_of(spec_key_order::<C>(self@, other@)),
    {
        let a = self.to_encoded_point(false);
        let b = other.to_encoded_point(false);
        match compare_bytes(a.as_bytes(), b.as_bytes()) {
            ByteOrder::Less => core::cmp::Ordering::Less,
            ByteOrder::Equal => core::cmp::Ordering::Equal,
            ByteOrder::Greater => core::cmp::Ordering::Greater,
        }
    }

    /// Order public keys by their uncompressed SEC1 encodings; always
    /// comparable.
    pub fn partial_cmp(&self, other: &Self) -> (r: Option<core::cmp::Ordering>)
        ensures
            r == Some(std_ordering_of(spec_key_order::<C>(self@, other@))),
    {
        Some(self.cmp(other))
    }
}

impl<'a, C: ProjectiveArithmetic + PointCompression> From<&'a PublicKey<C>> for EncodedPoint<C> {
    /// The SEC1 encoding of a key in the curve's preferred format.
    fn from(public_key: &'a PublicKey<C>) -> (e: EncodedPoint<C>)
        ensures
            e@ == C::spec_encode(public_key@, C::spec_compress_points()),
    {
        public_key.to_encoded_point(C::compress_points())
    }
}

impl<C: ProjectiveArithmetic + PointCompression> From<PublicKey<C>> for EncodedPoint<C> {
    /// The SEC1 encoding of a key in the curve's preferred format.
    fn from(public_key: PublicKey<C>) -> (e: EncodedPoint<C>)
        ensures
            e@ == C::spec_encode(public_key@, C::spec_compress_points()),
    {
        EncodedPoint::from(&public_key)
    }
}

impl<C: ProjectiveArithmetic + PointCompression> vstd::std_specs::convert::FromSpecImpl<PublicKey<C>> for EncodedPoint<C> {
    open spec fn obeys_from_spec() -> bool {
        false
    }

    /// An encoded point holding the key's encoding in the curve's preferred
    /// format (see the impl for `&PublicKey`).
    open spec fn from_spec(v: PublicKey<C>) -> EncodedPoint<C> {
        choose|e: EncodedPoint<C>| e@ == C::spec_encode(v@, C::spec_compress_points())
    }
}

impl<'a, C: ProjectiveArithmetic + PointCompression> vstd::std_specs::convert::FromSpecImpl<&'a PublicKey<C>> for EncodedPoint<C> {
    open spec fn obeys_from_spec() -> bool {
        false
    }

    /// An encoded point holding the key's encoding in the curve's preferred
    /// format. (Verus knows no extensionality for `Vec`, so two encoded
    /// points with the same bytes cannot be shown equal; `from` states the
    /// encoding in its own `ensures`, and `obeys_from_spec` is false.)
    open spec fn from_spec(v: &'a PublicKey<C>) -> EncodedPoint<C> {
        choose|e: EncodedPoint<C>| e@ == C::spec_encode(v@, C::spec_compress_points())
    }
}

/// A public key survives its uncompressed SEC1 encoding: decoding the
/// encoding gives the same key back.
pub proof fn lemma_sec1_roundtrip<C: ProjectiveArithmetic>(pk: PublicKey<C>)
    requires
        pk.wf(),
    ensures
        spec_sec1_key_point::<C>(C::spec_encode(pk@, false)) == Some(pk@),
{
    C::lemma_encoding_shape(pk@, false);
    C::lemma_decode_uncompressed(pk@);
}

/// A SEC1 encoding gives a key exactly when it is well formed, compressed
/// (`0x02`/`0x03` and one coordinate) or uncompressed (`0x04` and two),
/// and the curve decodes it to a point other than the identity; the key
/// then holds that point, whatever the tag.
pub proof fn lemma_sec1_key_point_decodes<C: ProjectiveArithmetic>(bytes: Seq<u8>)
    ensures
        spec_sec1_key_point::<C>(bytes) is Some <==> {
            &&& bytes.len() > 0
            &&& ((bytes[0] == 2 || bytes[0] == 3) && bytes.len() == C::spec_field_size() + 1)
                || (bytes[0] == 4 && bytes.len() == 2 * C::spec_field_size() + 1)
                || (bytes[0] == 0 && bytes.len() == 1)
            &&& C::spec_decode(bytes) matches Some(p) && !is_identity_point::<C>(p)
        },
        spec_sec1_key_point::<C>(bytes) matches Some(p) ==> C::spec_decode(bytes) == Some(p),
{
}

/// Every point other than the identity is read back from its own
/// encoding, compressed or not, wherever the curve decodes that encoding
/// to the point.
pub proof fn lemma_sec1_encoding_read_back<C: ProjectiveArithmetic>(
    p: C::AffinePoint,
    compress: bool,
)
    requires
        !is_identity_point::<C>(p),
        C::spec_decode(C::spec_encode(p, compress)) == Some(p),
    ensures
        spec_sec1_key_point::<C>(C::spec_encode(p, compress)) == Some(p),
{
    C::lemma_encoding_shape(p, compress);
    lemma_sec1_key_point_decodes::<C>(C::spec_encode(p, compress));
}

/// Keys are ordered by their uncompressed encodings as unsigned bytes:
/// where the encodings agree before index `i` and the byte at `i` of the
/// first is below that of the second, the first key comes first.
pub proof fn lemma_key_order_first_difference<C: ProjectiveArithmetic>(
    a: C::AffinePoint,
    b: C::AffinePoint,
    i: int,
)
    requires
        0 <= i < C::spec_encode(a, false).len(),
        i < C::spec_encode(b, false).len(),
        C::spec_encode(a, false).subrange(0, i) == C::spec_encode(b, false).subrange(0, i),
        C::spec_encode(a, false)[i] < C::spec_encode(b, false)[i],
    ensures
        spec_key_order::<C>(a, b) == ByteOrder::Less,
        std_ordering_of(spec_key_order::<C>(a, b)) == core::cmp::Ordering::Less,
{
    lemma_compare_first_difference(C::spec_encode(a, false), C::spec_encode(b, false), i);
}

/// Keys compare equal exactly when they hold the same point.
pub proof fn lemma_order_equal<C: ProjectiveArithmetic>(a: C::AffinePoint, b: C::AffinePoint)
    ensures
        (spec_key_order::<C>(a, b) == ByteOrder::Equal) == (a == b),
{
    lemma_compare_equal(C::spec_encode(a, false), C::spec_encode(b, false));
    C::lemma_decode_uncompressed(a);
    C::lemma_decode_uncompressed(b);
}

/// Swapping two keys swaps `Less` and `Greater`.
pub proof fn lemma_order_antisymmetric<C: ProjectiveArithmetic>(
    a: C::AffinePoint,
    b: C::AffinePoint,
)
    ensures
        (spec_key_order::<C>(a, b) == ByteOrder::Less) == (spec_key_order::<C>(b, a)
            == ByteOrder::Greater),
{
    lemma_compare_antisymmetric(C::spec_encode(a, false), C::spec_encode(b, false));
}

/// The order of keys is transitive.
pub proof fn lemma_order_transitive<C: ProjectiveArithmetic>(
    a: C::AffinePoint,
    b: C::AffinePoint,
    c: C::AffinePoint,
)
    requires
        spec_key_order::<C>(a, b) == ByteOrder::Less,
        spec_key_order::<C>(b, c) == ByteOrder::Less,
    ensures
        spec_key_order::<C>(a, c) == ByteOrder::Less,
{
    lemma_compare_transitive(
        C::spec_encode(a, false),
        C::spec_encode(b, false),
        C::spec_encode(c, false),
    );
}

} // verus!
