# elliptic-curve public keys, verified

A Verus library for elliptic curve public keys. A `PublicKey<C>` wraps an
affine point of a curve `C` and is never the identity point; the library
reads and writes keys as SEC1 points, as X.509 `SubjectPublicKeyInfo`
documents (DER, PEM, and the hexadecimal text of the DER document that
human-readable serialization uses), and as JSON Web Keys.

Layout:

- `src/curve.rs` — the traits a curve implements (`Curve`,
  `ProjectiveArithmetic`, `AlgorithmParameters`, `JwkParameters`,
  `PointCompression`), with the facts about the curve that keys rely on,
  and `NonZeroScalar`.
- `src/sec1.rs` — the SEC1 point encoding, checked on bytes.
- `src/public_key.rs` — `PublicKey`, its constructors, SEC1 conversions and
  ordering, with the laws that tie them together.
- `src/order.rs` — lexicographic byte order and its laws.
- `src/document.rs`, `src/key_document.rs` — SPKI documents (through the
  `pkcs8`, `spki` and `der` crates) and hexadecimal text (through
  `base16ct`).
- `src/base64url.rs`, `src/jwk.rs` — unpadded URL-safe Base64 (through
  `base64ct`) and JSON Web Keys.
- `src/dev.rs` — a mock curve for tests.
- `app/lib.rs` — serde, `serde_json`, `Display` and `pkcs8` trait
  implementations around the library.
