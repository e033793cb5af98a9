//! Elliptic curve public keys: a key type that never holds the identity
//! point, together with its SEC1, SPKI (DER/PEM), hexadecimal and JWK
//! encodings.

pub mod base64url;
pub mod curve;
pub mod dev;
pub mod document;
pub mod error;
pub mod jwk;
pub mod key_document;
pub mod order;
pub mod public_key;
pub mod sec1;
