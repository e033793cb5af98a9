use elliptic_curve::dev::MockCurve;
use elliptic_curve::sec1::{Coordinates, EncodedPoint, Tag};

type Point = EncodedPoint<MockCurve>;

fn field(last: u8) -> Vec<u8> {
    let mut v = vec![0u8; 31];
    v.push(last);
    v
}

#[test]
fn identity_is_single_zero_byte() {
    let e = Point::identity();
    assert_eq!(e.as_bytes(), &[0u8]);
    assert!(e.is_identity());
    assert_eq!(e.tag(), Tag::Identity);
    assert_eq!(e.coordinates(), Coordinates::Identity);
    assert_eq!(e.len(), 1);
}

#[test]
fn from_affine_coordinates_uncompressed() {
    let e = Point::from_affine_coordinates(&field(1), &field(2), false);
    assert_eq!(e.len(), 65);
    assert_eq!(e.tag(), Tag::Uncompressed);
    assert!(!e.is_compressed());
    assert_eq!(
        e.coordinates(),
        Coordinates::Uncompressed { x: field(1), y: field(2) }
    );
}

#[test]
fn from_affine_coordinates_compressed_parity() {
    let even = Point::from_affine_coordinates(&field(1), &field(2), true);
    assert_eq!(even.as_bytes()[0], 2);
    assert_eq!(even.tag(), Tag::CompressedEvenY);
    assert_eq!(even.len(), 33);
    let odd = Point::from_affine_coordinates(&field(1), &field(3), true);
    assert_eq!(odd.as_bytes()[0], 3);
    assert!(odd.is_compressed());
    assert_eq!(
        odd.coordinates(),
        Coordinates::Compressed { x: field(1), y_is_odd: true }
    );
}

#[test]
fn from_bytes_checks_tag_and_length() {
    assert!(Point::from_bytes(&[]).is_err());
    assert!(Point::from_bytes(&[0]).is_ok());
    assert!(Point::from_bytes(&[0, 0]).is_err());
    assert!(Point::from_bytes(&[1]).is_err());
    let mut compressed = vec![2u8];
    compressed.extend(field(9));
    assert!(Point::from_bytes(&compressed).is_ok());
    compressed[0] = 4;
    assert!(Point::from_bytes(&compressed).is_err());
    compressed.extend(field(8));
    let e = Point::from_bytes(&compressed).unwrap();
    assert_eq!(e.as_bytes(), &compressed[..]);
    compressed[0] = 6;
    assert!(Point::from_bytes(&compressed).is_err());
}

#[test]
fn tags_map_to_bytes() {
    assert_eq!(Tag::from_u8(0), Ok(Tag::Identity));
    assert_eq!(Tag::from_u8(2), Ok(Tag::CompressedEvenY));
    assert_eq!(Tag::from_u8(3), Ok(Tag::CompressedOddY));
    assert_eq!(Tag::from_u8(4), Ok(Tag::Uncompressed));
    assert!(Tag::from_u8(1).is_err());
    assert!(Tag::from_u8(5).is_err());
    assert_eq!(Tag::Uncompressed.to_u8(), 4);
    assert!(Tag::CompressedOddY.is_compressed());
    assert!(!Tag::Identity.is_compressed());
}
