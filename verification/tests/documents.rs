use elliptic_curve::dev::{MockCurve, MockPoint};
use elliptic_curve::document::{LineEnding, Parameters, SpkiError, SubjectPublicKeyInfo};
use elliptic_curve::error::Error;
use elliptic_curve::public_key::PublicKey;
use std::str::FromStr;

type Key = PublicKey<MockCurve>;

const EC_PUBLIC_KEY_OID: [u8; 7] = [0x2a, 0x86, 0x48, 0xce, 0x3d, 0x02, 0x01];
const P256_OID: [u8; 8] = [0x2a, 0x86, 0x48, 0xce, 0x3d, 0x03, 0x01, 0x07];

fn key(x: u8, y: u8) -> Key {
    Key::from_affine(MockPoint::Affine { x, y }).unwrap()
}

fn sec1(x: u8, y: u8) -> Vec<u8> {
    let mut v = vec![4u8];
    v.extend(std::iter::repeat(0u8).take(31));
    v.push(x);
    v.extend(std::iter::repeat(0u8).take(31));
    v.push(y);
    v
}

fn expected_der(x: u8, y: u8) -> Vec<u8> {
    let mut v = vec![0x30, 0x59, 0x30, 0x13, 0x06, 0x07];
    v.extend(EC_PUBLIC_KEY_OID);
    v.extend([0x06, 0x08]);
    v.extend(P256_OID);
    v.extend([0x03, 0x42, 0x00]);
    v.extend(sec1(x, y));
    v
}

#[test]
fn to_public_key_der_is_spki() {
    let der = key(1, 2).to_public_key_der().unwrap();
    assert_eq!(der, expected_der(1, 2));
}

#[test]
fn der_roundtrip() {
    let pk = key(0x30, 0x40);
    let der = pk.to_public_key_der().unwrap();
    assert_eq!(Key::from_public_key_der(&der), Ok(pk));
}

#[test]
fn from_public_key_der_rejects_garbage() {
    assert_eq!(Key::from_public_key_der(&[]), Err(SpkiError::Malformed));
    assert_eq!(Key::from_public_key_der(&[0x30, 0x00]), Err(SpkiError::Malformed));
    let mut der = expected_der(1, 2);
    der.pop();
    assert_eq!(Key::from_public_key_der(&der), Err(SpkiError::Malformed));
}

#[test]
fn from_public_key_der_rejects_other_curve() {
    let mut der = expected_der(1, 2);
    der[22] = 0x08;
    assert_eq!(
        Key::from_public_key_der(&der),
        Err(SpkiError::OidUnknown { oid: P256_OID.to_vec() })
    );
}

#[test]
fn from_public_key_der_rejects_other_algorithm() {
    let mut der = expected_der(1, 2);
    der[12] = 0x02;
    assert_eq!(
        Key::from_public_key_der(&der),
        Err(SpkiError::OidUnknown { oid: EC_PUBLIC_KEY_OID.to_vec() })
    );
}

#[test]
fn from_public_key_der_rejects_bad_key_bits() {
    let mut der = expected_der(1, 2);
    der[27] = 0x05;
    assert_eq!(Key::from_public_key_der(&der), Err(SpkiError::InvalidKey));
}

#[test]
fn from_public_key_der_rejects_missing_parameters() {
    let mut der = vec![0x30, 0x4f, 0x30, 0x09, 0x06, 0x07];
    der.extend(EC_PUBLIC_KEY_OID);
    der.extend([0x03, 0x42, 0x00]);
    der.extend(sec1(1, 2));
    assert_eq!(Key::from_public_key_der(&der), Err(SpkiError::AlgorithmParametersMissing));
}

#[test]
fn from_public_key_der_rejects_parameters_that_are_no_oid() {
    let mut der = vec![0x30, 0x51, 0x30, 0x0b, 0x06, 0x07];
    der.extend(EC_PUBLIC_KEY_OID);
    der.extend([0x05, 0x00]);
    der.extend([0x03, 0x42, 0x00]);
    der.extend(sec1(1, 2));
    assert_eq!(Key::from_public_key_der(&der), Err(SpkiError::ParametersNotOid));
}

fn good() -> SubjectPublicKeyInfo {
    SubjectPublicKeyInfo {
        algorithm_oid: EC_PUBLIC_KEY_OID.to_vec(),
        parameters: Parameters::Oid(P256_OID.to_vec()),
        subject_public_key: sec1(5, 6),
    }
}

#[test]
fn try_from_spki_checks_oids() {
    assert_eq!(Key::try_from_spki(&good()), Ok(key(5, 6)));
    let no_params = SubjectPublicKeyInfo { parameters: Parameters::Absent, ..good() };
    assert_eq!(Key::try_from_spki(&no_params), Err(SpkiError::AlgorithmParametersMissing));
    let other_params = SubjectPublicKeyInfo { parameters: Parameters::Other, ..good() };
    assert_eq!(Key::try_from_spki(&other_params), Err(SpkiError::ParametersNotOid));
    let wrong_alg = SubjectPublicKeyInfo { algorithm_oid: P256_OID.to_vec(), ..good() };
    assert_eq!(
        Key::try_from_spki(&wrong_alg),
        Err(SpkiError::OidUnknown { oid: EC_PUBLIC_KEY_OID.to_vec() })
    );
    let wrong_curve = SubjectPublicKeyInfo {
        parameters: Parameters::Oid(EC_PUBLIC_KEY_OID.to_vec()),
        ..good()
    };
    assert_eq!(
        Key::try_from_spki(&wrong_curve),
        Err(SpkiError::OidUnknown { oid: P256_OID.to_vec() })
    );
    let identity = SubjectPublicKeyInfo { subject_public_key: vec![0], ..good() };
    assert_eq!(Key::try_from_spki(&identity), Err(SpkiError::InvalidKey));
}

/// Standard Base64 with padding, written out for comparison.
fn base64_std(bytes: &[u8]) -> String {
    let alphabet = b"ABCDEFGHIJKLMNOPQRSTUVWXYZabcdefghijklmnopqrstuvwxyz0123456789+/";
    let mut out = String::new();
    for chunk in bytes.chunks(3) {
        let b0 = chunk[0] as usize;
        let b1 = if chunk.len() > 1 { chunk[1] as usize } else { 0 };
        let b2 = if chunk.len() > 2 { chunk[2] as usize } else { 0 };
        out.push(alphabet[b0 >> 2] as char);
        out.push(alphabet[((b0 & 3) << 4) | (b1 >> 4)] as char);
        if chunk.len() > 1 {
            out.push(alphabet[((b1 & 15) << 2) | (b2 >> 6)] as char);
        } else {
            out.push('=');
        }
        if chunk.len() > 2 {
            out.push(alphabet[b2 & 63] as char);
        } else {
            out.push('=');
        }
    }
    out
}

fn expected_pem(der: &[u8], eol: &str) -> String {
    let mut text = format!("-----BEGIN PUBLIC KEY-----{}", eol);
    for chunk in der.chunks(48) {
        text.push_str(&base64_std(chunk));
        text.push_str(eol);
    }
    text.push_str(&format!("-----END PUBLIC KEY-----{}", eol));
    text
}

#[test]
fn pem_text_is_exact() {
    let pk = key(0x11, 0x22);
    let der = expected_der(0x11, 0x22);
    assert_eq!(pk.to_public_key_pem(LineEnding::LF).unwrap(), expected_pem(&der, "\n"));
    assert_eq!(pk.to_public_key_pem(LineEnding::CRLF).unwrap(), expected_pem(&der, "\r\n"));
    assert_eq!(pk.to_public_key_pem(LineEnding::CR).unwrap(), expected_pem(&der, "\r"));
}

#[test]
fn pem_roundtrip() {
    let pk = key(9, 8);
    let pem = pk.to_public_key_pem(LineEnding::LF).unwrap();
    assert!(pem.starts_with("-----BEGIN PUBLIC KEY-----\n"));
    assert!(pem.trim_end().ends_with("-----END PUBLIC KEY-----"));
    assert_eq!(Key::from_public_key_pem(&pem), Ok(pk));
    assert_eq!(Key::from_str(&pem), Ok(pk));
}

#[test]
fn pem_line_endings() {
    let pk = key(9, 8);
    let crlf = pk.to_public_key_pem(LineEnding::CRLF).unwrap();
    assert!(crlf.starts_with("-----BEGIN PUBLIC KEY-----\r\n"));
    assert_eq!(Key::from_public_key_pem(&crlf), Ok(pk));
}

#[test]
fn from_public_key_pem_rejects_other_labels() {
    let pem = key(9, 8).to_public_key_pem(LineEnding::LF).unwrap();
    let other = pem.replace("PUBLIC KEY", "PRIVATE KEY");
    assert_eq!(Key::from_public_key_pem(&other), Err(SpkiError::Malformed));
    assert_eq!(Key::from_public_key_pem("not pem"), Err(SpkiError::Malformed));
    assert_eq!(Key::from_str("not pem"), Err(Error));
}

#[test]
fn hex_form_is_upper_case_der() {
    let pk = key(0xab, 0x0c);
    let hex = pk.to_public_key_hex().unwrap();
    let expected: String = expected_der(0xab, 0x0c)
        .iter()
        .map(|b| format!("{:02X}", b))
        .collect();
    assert_eq!(hex, expected);
}

#[test]
fn hex_form_roundtrip_either_case() {
    let pk = key(0xab, 0x0c);
    let hex = pk.to_public_key_hex().unwrap();
    assert_eq!(Key::from_public_key_hex(&hex), Ok(pk));
    assert_eq!(Key::from_public_key_hex(&hex.to_lowercase()), Ok(pk));
}

#[test]
fn from_public_key_hex_rejects_bad_text() {
    let hex = key(1, 2).to_public_key_hex().unwrap();
    assert_eq!(Key::from_public_key_hex(&hex[1..]), Err(SpkiError::Malformed));
    let bad = format!("G{}", &hex[1..]);
    assert_eq!(Key::from_public_key_hex(&bad), Err(SpkiError::Malformed));
    assert_eq!(Key::from_public_key_hex(""), Err(SpkiError::Malformed));
}
