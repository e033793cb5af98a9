use elliptic_curve::dev::{MockCurve, MockPoint};
use elliptic_curve::error::Error;
use elliptic_curve::jwk::{is_ec_key_type, JwkEcKey};
use elliptic_curve::public_key::PublicKey;
use elliptic_curve::sec1::EncodedPoint;

type Key = PublicKey<MockCurve>;

fn key(x: u8, y: u8) -> Key {
    Key::from_affine(MockPoint::Affine { x, y }).unwrap()
}

fn jwk(crv: &str, x: &str, y: &str) -> JwkEcKey {
    JwkEcKey { crv: crv.to_string(), x: x.to_string(), y: y.to_string(), d: None }
}

#[test]
fn to_jwk_encodes_coordinates() {
    let j = key(0x07, 0x5a).to_jwk();
    assert_eq!(j.crv(), "P-256");
    assert_eq!(j.x, format!("{}AAc", "A".repeat(40)));
    assert_eq!(j.y, format!("{}AFo", "A".repeat(40)));
    assert_eq!(j.d, None);
}

#[test]
fn jwk_roundtrip() {
    let pk = key(0x10, 0xfe);
    assert_eq!(Key::from_jwk(&pk.to_jwk()), Ok(pk));
}

#[test]
fn from_jwk_rejects_other_curve() {
    let mut j = key(1, 2).to_jwk();
    j.crv = "P-384".to_string();
    assert_eq!(Key::from_jwk(&j), Err(Error));
}

#[test]
fn from_jwk_rejects_bad_base64() {
    let j = key(1, 2).to_jwk();
    let bad = jwk("P-256", "!!", &j.y);
    assert_eq!(Key::from_jwk(&bad), Err(Error));
    let non_canonical = jwk("P-256", &format!("{}AAd", "A".repeat(40)), &j.y);
    assert_eq!(Key::from_jwk(&non_canonical), Err(Error));
}

#[test]
fn from_jwk_rejects_oversized_coordinate() {
    let j = key(1, 2).to_jwk();
    let long = jwk("P-256", &"A".repeat(46), &j.y);
    assert_eq!(Key::from_jwk(&long), Err(Error));
}

#[test]
fn short_coordinates_are_zero_padded() {
    let j = jwk("P-256", "", "");
    let point = j.to_encoded_point::<MockCurve>().unwrap();
    assert_eq!(point.as_bytes(), &[vec![4u8], vec![0u8; 64]].concat()[..]);
    assert_eq!(Key::from_jwk(&j), Ok(key(0, 0)));
}

#[test]
fn from_encoded_point_needs_uncompressed() {
    let pk = key(3, 4);
    assert!(JwkEcKey::from_encoded_point::<MockCurve>(&pk.to_encoded_point(true)).is_none());
    assert!(JwkEcKey::from_encoded_point::<MockCurve>(&EncodedPoint::identity()).is_none());
    let j = JwkEcKey::from_encoded_point::<MockCurve>(&pk.to_encoded_point(false)).unwrap();
    assert_eq!(j.to_public_key::<MockCurve>(), Ok(pk));
}

#[test]
fn key_type_must_be_ec() {
    assert!(is_ec_key_type("EC"));
    assert!(!is_ec_key_type("ec"));
    assert!(!is_ec_key_type("RSA"));
    assert!(!is_ec_key_type(""));
    assert!(!is_ec_key_type("EC "));
}
