use elliptic_curve::curve::{NonZeroScalar, ProjectiveArithmetic};
use elliptic_curve::dev::{MockCurve, MockPoint, MockScalar, MOCK_Y};
use elliptic_curve::error::Error;
use elliptic_curve::public_key::PublicKey;
use elliptic_curve::sec1::EncodedPoint;
use std::cmp::Ordering;

type Key = PublicKey<MockCurve>;

fn point(x: u8, y: u8) -> MockPoint {
    MockPoint::Affine { x, y }
}

fn uncompressed(x: u8, y: u8) -> Vec<u8> {
    let mut v = vec![4u8];
    v.extend(std::iter::repeat(0u8).take(31));
    v.push(x);
    v.extend(std::iter::repeat(0u8).take(31));
    v.push(y);
    v
}

#[test]
fn from_encoded_point_rejects_identity() {
    let identity = EncodedPoint::<MockCurve>::identity();
    assert!(bool::from(Key::from_encoded_point(&identity).is_none()));
}

#[test]
fn from_encoded_point_accepts_other_points() {
    let e = EncodedPoint::<MockCurve>::from_bytes(&uncompressed(1, 2)).unwrap();
    let pk = Key::from_encoded_point(&e).unwrap();
    assert_eq!(*pk.as_affine(), point(1, 2));
}

#[test]
fn from_affine_rejects_identity() {
    assert_eq!(Key::from_affine(MockPoint::Identity), Err(Error));
}

#[test]
fn from_affine_accepts_other_points() {
    let pk = Key::from_affine(point(7, 9)).unwrap();
    assert_eq!(*pk.as_affine(), point(7, 9));
    assert_eq!(*pk.as_ref(), point(7, 9));
    assert_eq!(pk.to_projective(), point(7, 9));
}

#[test]
fn to_projective_returns_to_the_key_point() {
    let pk = Key::from_affine(point(7, 9)).unwrap();
    let projective = pk.to_projective();
    assert_eq!(MockCurve::to_affine(&projective), *pk.as_affine());
    assert!(!MockCurve::is_identity(&projective));
}

#[test]
fn from_secret_scalar_multiplies_generator() {
    let s = NonZeroScalar::<MockCurve>::new(MockScalar(3)).unwrap();
    assert_eq!(*s.as_ref(), MockScalar(3));
    let pk = Key::from_secret_scalar(&s);
    assert_eq!(*pk.as_affine(), point(3, MOCK_Y));
}

#[test]
fn non_zero_scalar_rejects_zero() {
    assert!(NonZeroScalar::<MockCurve>::new(MockScalar(0)).is_none());
}

#[test]
fn from_sec1_bytes_uncompressed() {
    let pk = Key::from_sec1_bytes(&uncompressed(0x11, 0x22)).unwrap();
    assert_eq!(*pk.as_affine(), point(0x11, 0x22));
}

#[test]
fn from_sec1_bytes_rejects_identity() {
    assert_eq!(Key::from_sec1_bytes(&[0u8]), Err(Error));
}

#[test]
fn from_sec1_bytes_rejects_malformed() {
    assert_eq!(Key::from_sec1_bytes(&[]), Err(Error));
    let mut bad_tag = uncompressed(1, 2);
    bad_tag[0] = 5;
    assert_eq!(Key::from_sec1_bytes(&bad_tag), Err(Error));
    let mut short = uncompressed(1, 2);
    short.pop();
    assert_eq!(Key::from_sec1_bytes(&short), Err(Error));
}

#[test]
fn from_sec1_bytes_rejects_points_off_the_mock_curve() {
    let mut big = uncompressed(1, 2);
    big[1] = 1;
    assert_eq!(Key::from_sec1_bytes(&big), Err(Error));
}

#[test]
fn from_sec1_bytes_compressed_does_not_decode_on_mock() {
    let pk = Key::from_affine(point(5, 6)).unwrap();
    let compressed = pk.to_encoded_point(true);
    assert_eq!(compressed.as_bytes()[0], 2);
    assert_eq!(Key::from_sec1_bytes(compressed.as_bytes()), Err(Error));
}

#[test]
fn sec1_roundtrip() {
    let pk = Key::from_affine(point(0xab, 0xcd)).unwrap();
    let e = pk.to_encoded_point(false);
    assert_eq!(e.as_bytes(), &uncompressed(0xab, 0xcd)[..]);
    assert_eq!(Key::from_sec1_bytes(e.as_bytes()), Ok(pk));
}

#[test]
fn encoded_point_from_key_uses_curve_preference() {
    let pk = Key::from_affine(point(3, 4)).unwrap();
    assert_eq!(EncodedPoint::from(&pk).as_bytes(), &uncompressed(3, 4)[..]);
    assert_eq!(EncodedPoint::from(pk).as_bytes(), &uncompressed(3, 4)[..]);
}

#[test]
fn copies_are_equal() {
    let pk = Key::from_affine(point(1, 1)).unwrap();
    let copy = pk;
    #[allow(clippy::clone_on_copy)]
    let cloned = pk.clone();
    assert_eq!(copy, pk);
    assert_eq!(cloned, pk);
}

#[test]
fn ordering_follows_uncompressed_encoding() {
    let a = Key::from_affine(point(1, 9)).unwrap();
    let b = Key::from_affine(point(2, 0)).unwrap();
    let c = Key::from_affine(point(2, 1)).unwrap();
    assert_eq!(a.cmp(&b), Ordering::Less);
    assert_eq!(b.cmp(&a), Ordering::Greater);
    assert_eq!(b.cmp(&c), Ordering::Less);
    assert_eq!(a.cmp(&c), Ordering::Less);
    assert_eq!(c.cmp(&c), Ordering::Equal);
    assert_eq!(a.partial_cmp(&b), Some(Ordering::Less));
    assert_eq!(a.partial_cmp(&a), Some(Ordering::Equal));
}
