//! A mock curve for tests: 32-byte field elements, the object identifier
//! and JWK name of P-256, and no field arithmetic.
//!
//! A point is either the identity or a pair of small coordinates (each
//! fitting one byte, stored big-endian in a 32-byte field element). The
//! generator multiplied by a scalar `s` is the point `(s, MOCK_Y)`, with a
//! fixed pseudo y-coordinate, so that a non-zero scalar never gives the
//! identity. Without field arithmetic a compressed point cannot be
//! decompressed: compressed encodings do not decode.

use vstd::prelude::*;

use crate::curve::{AlgorithmParameters, Curve, JwkParameters, PointCompression, ProjectiveArithmetic};
use crate::document::oid_arcs_valid;
use crate::sec1::{lemma_affine_encoding_valid, spec_affine_encoding, EncodedPoint};

verus! {

/// The pseudo y-coordinate of every multiple of the generator.
pub const MOCK_Y: u8 = 0x5a;

/// The mock curve.
#[derive(Clone, Copy, Debug, PartialEq, Eq)]
pub struct MockCurve;

/// A point of the mock curve.
#[derive(Clone, Copy, Debug, PartialEq, Eq, Structural)]
pub enum MockPoint {
    /// The identity of the group.
    Identity,
    /// The point (x, y).
    Affine { x: u8, y: u8 },
}

/// A scalar of the mock curve.
#[derive(Clone, Copy, Debug, PartialEq, Eq, Structural)]
pub struct MockScalar(pub u8);

/// A coordinate as a 32-byte big-endian field element.
pub open spec fn spec_coordinate(v: u8) -> Seq<u8> {
    Seq::new(31, |i: int| 0u8).push(v)
}

/// `s` is a 32-byte field element small enough to be a mock coordinate.
pub open spec fn is_small_coordinate(s: Seq<u8>) -> bool {
    s.len() == 32 && forall|i: int| 0 <= i < 31 ==> s[i] == 0
}

fn coordinate_bytes(v: u8) -> (out: Vec<u8>)
    ensures
        out@ == spec_coordinate(v),
{
    let mut out: Vec<u8> = Vec::new();
    let mut i: usize = 0;
    while i < 31
        invariant
            i <= 31,
            out@ == Seq::new(i as nat, |k: int| 0u8),
        decreases 31 - i,
    {
        out.push(0u8);
        i = i + 1;
        assert(out@ =~= Seq::new(i as nat, |k: int| 0u8));
    }
    out.push(v);
    assert(out@ =~= spec_coordinate(v));
    out
}

/// Are `bytes[start..start + 31]` all zero?
fn zeros_at(bytes: &[u8], start: usize) -> (b: bool)
    requires
        start + 31 <= bytes@.len(),
    ensures
        b == forall|i: int| start <= i < start + 31 ==> bytes@[i] == 0,
{
    let n = bytes.len();
    assert(start + 31 <= n);
    let end = start + 31;
    let mut i: usize = start;
    while i < end
        invariant
            end == start + 31,
            start <= i <= start + 31,
            start + 31 <= bytes@.len(),
            forall|k: int| start <= k < i ==> bytes@[k] == 0,
        decreases end - i,
    {
        if bytes[i] != 0 {
            return false;
        }
        i = i + 1;
    }
    true
}

impl Curve for MockCurve {
    open spec fn spec_field_size() -> nat {
        32
    }

    fn field_size() -> (n: usize) {
        32
    }

    proof fn lemma_field_size_bounds() {
    }
}

impl ProjectiveArithmetic for MockCurve {
    type AffinePoint = MockPoint;

    type ProjectivePoint = MockPoint;

    type Scalar = MockScalar;

    open spec fn spec_to_projective(p: MockPoint) -> MockPoint {
        p
    }

    open spec fn spec_to_affine(p: MockPoint) -> MockPoint {
        p
    }

    open spec fn spec_is_identity(p: MockPoint) -> bool {
        p is Identity
    }

    open spec fn spec_is_zero(s: MockScalar) -> bool {
        s.0 == 0
    }

    open spec fn spec_mul_generator(s: MockScalar) -> MockPoint {
        if s.0 == 0 {
            MockPoint::Identity
        } else {
            MockPoint::Affine { x: s.0, y: MOCK_Y }
        }
    }

    open spec fn spec_encode(p: MockPoint, compress: bool) -> Seq<u8> {
        match p {
            MockPoint::Identity => seq![0u8],
            MockPoint::Affine { x, y } => spec_affine_encoding(
                spec_coordinate(x),
                spec_coordinate(y),
                compress,
            ),
        }
    }

    open spec fn spec_decode(bytes: Seq<u8>) -> Option<MockPoint> {
        if bytes.len() == 1 && bytes[0] == 0 {
            Some(MockPoint::Identity)
        } else if bytes.len() == 65 && bytes[0] == 4 && is_small_coordinate(bytes.subrange(1, 33))
            && is_small_coordinate(bytes.subrange(33, 65)) {
            Some(MockPoint::Affine { x: bytes[32], y: bytes[64] })
        } else {
            None
        }
    }

    fn to_projective(p: &MockPoint) -> (r: MockPoint) {
        *p
    }

    fn to_affine(p: &MockPoint) -> (r: MockPoint) {
        *p
    }

    fn is_identity(p: &MockPoint) -> (b: bool) {
        match p {
            MockPoint::Identity => true,
            MockPoint::Affine { .. } => false,
        }
    }

    fn is_zero(s: &MockScalar) -> (b: bool) {
        s.0 == 0
    }

    fn mul_generator(s: &MockScalar) -> (r: MockPoint) {
        if s.0 == 0 {
            MockPoint::Identity
        } else {
            MockPoint::Affine { x: s.0, y: MOCK_Y }
        }
    }

    fn to_encoded_point(p: &MockPoint, compress: bool) -> (e: EncodedPoint<MockCurve>) {
        match p {
            MockPoint::Identity => EncodedPoint::identity(),
            MockPoint::Affine { x, y } => {
                let xs = coordinate_bytes(*x);
                let ys = coordinate_bytes(*y);
                EncodedPoint::from_affine_coordinates(xs.as_slice(), ys.as_slice(), compress)
            },
        }
    }

    fn from_encoded_point(e: &EncodedPoint<MockCurve>) -> (r: Option<MockPoint>) {
        proof {
            use_type_invariant(e);
        }
        let bytes = e.as_bytes();
        if e.is_identity() {
            Some(MockPoint::Identity)
        } else if bytes[0] == 4 {
            let x_small = zeros_at(bytes, 1);
            let y_small = zeros_at(bytes, 33);
            proof {
                let s = bytes@;
                assert(s.len() == 65);
                if !x_small {
                    let k = choose|k: int| 1 <= k < 32 && s[k] != 0;
                    assert(s.subrange(1, 33)[k - 1] != 0);
                }
                if !y_small {
                    let k = choose|k: int| 33 <= k < 64 && s[k] != 0;
                    assert(s.subrange(33, 65)[k - 33] != 0);
                }
                assert(is_small_coordinate(s.subrange(1, 33)) == x_small);
                assert(is_small_coordinate(s.subrange(33, 65)) == y_small);
            }
            if x_small && y_small {
                Some(MockPoint::Affine { x: bytes[32], y: bytes[64] })
            } else {
                None
            }
        } else {
            None
        }
    }

    proof fn lemma_affine_projective_roundtrip(p: MockPoint) {
    }

    proof fn lemma_generator_multiple_not_identity(s: MockScalar) {
    }

    proof fn lemma_encoding_shape(p: MockPoint, compress: bool) {
        match p {
            MockPoint::Identity => {},
            MockPoint::Affine { x, y } => {
                lemma_affine_encoding_valid(spec_coordinate(x), spec_coordinate(y), compress, 32);
            },
        }
    }

    proof fn lemma_decode_uncompressed(p: MockPoint) {
        match p {
            MockPoint::Identity => {},
            MockPoint::Affine { x, y } => {
                let e = Self::spec_encode(p, false);
                let cx = spec_coordinate(x);
                let cy = spec_coordinate(y);
                assert(e =~= seq![4u8] + cx + cy);
                assert(e.subrange(1, 33) =~= cx);
                assert(e.subrange(33, 65) =~= cy);
            },
        }
    }
}

impl AlgorithmParameters for MockCurve {
    /// 1.2.840.10045.3.1.7 (prime256v1).
    open spec fn spec_oid() -> Seq<u8> {
        seq![0x2au8, 0x86u8, 0x48u8, 0xceu8, 0x3du8, 0x03u8, 0x01u8, 0x07u8]
    }

    fn oid() -> (oid: Vec<u8>) {
        let oid: Vec<u8> = vec![0x2au8, 0x86u8, 0x48u8, 0xceu8, 0x3du8, 0x03u8, 0x01u8, 0x07u8];
        assert(oid@ =~= Self::spec_oid());
        oid
    }

    proof fn lemma_oid_valid() {
        let s = Self::spec_oid().subrange(1, 8);
        assert(s =~= seq![0x86u8, 0x48u8, 0xceu8, 0x3du8, 0x03u8, 0x01u8, 0x07u8]);
        reveal_with_fuel(oid_arcs_valid, 8);
        let s1 = s.drop_first();
        let s2 = s1.drop_first();
        let s3 = s2.drop_first();
        let s4 = s3.drop_first();
        let s5 = s4.drop_first();
        let s6 = s5.drop_first();
        assert(s1 =~= seq![0x48u8, 0xceu8, 0x3du8, 0x03u8, 0x01u8, 0x07u8]);
        assert(s2 =~= seq![0xceu8, 0x3du8, 0x03u8, 0x01u8, 0x07u8]);
        assert(s3 =~= seq![0x3du8, 0x03u8, 0x01u8, 0x07u8]);
        assert(s4 =~= seq![0x03u8, 0x01u8, 0x07u8]);
        assert(s5 =~= seq![0x01u8, 0x07u8]);
        assert(s6 =~= seq![0x07u8]);
        assert(s6.drop_first() =~= Seq::<u8>::empty());
    }
}

impl JwkParameters for MockCurve {
    open spec fn spec_crv() -> Seq<char> {
        "P-256"@
    }

    fn crv() -> (crv: &'static str) {
        "P-256"
    }
}

impl PointCompression for MockCurve {
    open spec fn spec_compress_points() -> bool {
        false
    }

    fn compress_points() -> (b: bool) {
        false
    }
}

} // verus!
