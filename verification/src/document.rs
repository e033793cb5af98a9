//! Public key documents: X.509 `SubjectPublicKeyInfo` (SPKI) in ASN.1 DER
//! and PEM, computed by the `pkcs8`/`spki`/`der` crates, and the
//! hexadecimal text form of DER documents, computed by `base16ct`.

use vstd::prelude::*;

use pkcs8::der::asn1::ObjectIdentifier;
use pkcs8::der::Decodable;
use pkcs8::{AlgorithmIdentifier, EncodePublicKey, PublicKeyDocument, SubjectPublicKeyInfo as Spki};

verus! {

/// Line endings of PEM text.
#[derive(Clone, Copy, Debug, PartialEq, Eq, Structural)]
pub enum LineEnding {
    /// `\r`
    CR,
    /// `\n`
    LF,
    /// `\r\n`
    CRLF,
}

/// The `id-ecPublicKey` object identifier (1.2.840.10045.2.1) that names
/// elliptic curve public keys in SPKI documents, as the DER bytes of its value.
pub open spec fn spec_algorithm_oid() -> Seq<u8> {
    seq![0x2au8, 0x86u8, 0x48u8, 0xceu8, 0x3du8, 0x02u8, 0x01u8]
}

/// The `id-ecPublicKey` object identifier, as the DER bytes of its value.
pub fn algorithm_oid() -> (oid: Vec<u8>)
    ensures
        oid@ == spec_algorithm_oid(),
{
    let oid: Vec<u8> = vec![0x2au8, 0x86u8, 0x48u8, 0xceu8, 0x3du8, 0x02u8, 0x01u8];
    assert(oid@ =~= spec_algorithm_oid());
    oid
}

/// The `parameters` of a decoded `AlgorithmIdentifier`.
pub enum Parameters {
    /// No parameters.
    Absent,
    /// An object identifier (DER bytes of its value).
    Oid(Vec<u8>),
    /// Some other ASN.1 value.
    Other,
}

/// View of decoded parameters: `None` when absent, `Some(None)` when they
/// are no OID, `Some(Some(oid))` for an OID.
pub open spec fn parameters_view(p: Parameters) -> Option<Option<Seq<u8>>> {
    match p {
        Parameters::Absent => None,
        Parameters::Oid(o) => Some(Some(o@)),
        Parameters::Other => Some(None),
    }
}

/// The fields of a `SubjectPublicKeyInfo` that key decoding reads.
pub struct SubjectPublicKeyInfo {
    /// The algorithm OID (DER bytes of its value).
    pub algorithm_oid: Vec<u8>,
    /// The algorithm parameters.
    pub parameters: Parameters,
    /// The public key bits.
    pub subject_public_key: Vec<u8>,
}

/// Why a document does not give a public key.
#[derive(Clone, Debug, PartialEq, Eq)]
pub enum SpkiError {
    /// The text or bytes are no SPKI document.
    Malformed,
    /// An OID is not the expected one; `oid` is the expected OID.
    OidUnknown { oid: Vec<u8> },
    /// The algorithm parameters are missing.
    AlgorithmParametersMissing,
    /// The algorithm parameters are not an object identifier.
    ParametersNotOid,
    /// The public key bits are not the SEC1 encoding of a key of the curve.
    InvalidKey,
}

/// View of an optional byte vector.
pub open spec fn opt_bytes(v: Option<Vec<u8>>) -> Option<Seq<u8>> {
    match v {
        Some(b) => Some(b@),
        None => None,
    }
}

/// The arcs after the first byte of an OID are well formed: each arc is one
/// to five bytes, all but its last with the high bit set, its last without;
/// the fifth byte of an arc is below 16 (the arc fits 32 bits). `k` counts
/// the bytes already read of the current arc.
pub open spec fn oid_arcs_valid(s: Seq<u8>, k: nat) -> bool
    decreases s.len(),
{
    if s.len() == 0 {
        k == 0
    } else if k == 4 && s[0] >= 16 {
        false
    } else if s[0] < 0x80 {
        oid_arcs_valid(s.drop_first(), 0)
    } else {
        oid_arcs_valid(s.drop_first(), k + 1)
    }
}

/// `bytes` is the DER value of an object identifier that `const-oid`'s
/// `ObjectIdentifier::from_bytes` accepts: 2 to 39 bytes, a first byte
/// that encodes root arcs (below 120), and well-formed arcs after it.
pub open spec fn spec_valid_oid(bytes: Seq<u8>) -> bool {
    &&& 2 <= bytes.len() <= 39
    &&& bytes[0] < 120
    &&& oid_arcs_valid(bytes.subrange(1, bytes.len() as int), 0)
}

/// The `id-ecPublicKey` OID is valid.
pub proof fn lemma_algorithm_oid_valid()
    ensures
        spec_valid_oid(spec_algorithm_oid()),
{
    let s = spec_algorithm_oid().subrange(1, 7);
    assert(s =~= seq![0x86u8, 0x48u8, 0xceu8, 0x3du8, 0x02u8, 0x01u8]);
    reveal_with_fuel(oid_arcs_valid, 7);
    assert(s.drop_first() =~= seq![0x48u8, 0xceu8, 0x3du8, 0x02u8, 0x01u8]);
    assert(s.drop_first().drop_first() =~= seq![0xceu8, 0x3du8, 0x02u8, 0x01u8]);
    assert(s.drop_first().drop_first().drop_first() =~= seq![0x3du8, 0x02u8, 0x01u8]);
    assert(s.drop_first().drop_first().drop_first().drop_first() =~= seq![0x02u8, 0x01u8]);
    assert(s.drop_first().drop_first().drop_first().drop_first().drop_first() =~= seq![0x01u8]);
}

/// DER length octets of a content of `n` bytes: one byte below 0x80, else
/// 0x81 to 0x84 followed by the big-endian length.
#[verifier::opaque]
pub open spec fn spec_der_length(n: nat) -> Seq<u8> {
    if n < 0x80 {
        seq![n as u8]
    } else if n < 0x100 {
        seq![0x81u8, n as u8]
    } else if n < 0x10000 {
        seq![0x82u8, (n / 0x100) as u8, (n % 0x100) as u8]
    } else if n < 0x1000000 {
        seq![0x83u8, (n / 0x10000) as u8, (n / 0x100 % 0x100) as u8, (n % 0x100) as u8]
    } else {
        seq![
            0x84u8,
            (n / 0x1000000) as u8,
            (n / 0x10000 % 0x100) as u8,
            (n / 0x100 % 0x100) as u8,
            (n % 0x100) as u8,
        ]
    }
}

/// DER tag-length-value.
pub open spec fn spec_tlv(tag: u8, content: Seq<u8>) -> Seq<u8> {
    seq![tag] + spec_der_length(content.len()) + content
}

/// A DER TLV adds at most six bytes to its content.
pub proof fn lemma_tlv_len(tag: u8, content: Seq<u8>)
    ensures
        spec_tlv(tag, content).len() <= content.len() + 6,
{
    lemma_der_length_len(content.len());
}

/// DER length octets are one to five bytes.
pub proof fn lemma_der_length_len(n: nat)
    ensures
        1 <= spec_der_length(n).len() <= 5,
{
    reveal(spec_der_length);
}

/// DER layout of a `SubjectPublicKeyInfo`:
/// `SEQUENCE { SEQUENCE { OID algorithm, OID parameters }, BIT STRING key }`,
/// the bit string having no unused bits.
pub open spec fn spec_spki_layout(
    algorithm_oid: Seq<u8>,
    parameters_oid: Seq<u8>,
    subject_public_key: Seq<u8>,
) -> Seq<u8> {
    spec_tlv(
        0x30,
        spec_tlv(0x30, spec_tlv(0x06, algorithm_oid) + spec_tlv(0x06, parameters_oid))
            + spec_tlv(0x03, seq![0u8] + subject_public_key),
    )
}

/// The layout of an SPKI document is at most 31 bytes longer than its parts.
pub proof fn lemma_spki_layout_len(a: Seq<u8>, p: Seq<u8>, k: Seq<u8>)
    ensures
        spec_spki_layout(a, p, k).len() <= a.len() + p.len() + k.len() + 31,
{
    let ta = spec_tlv(0x06, a);
    let tp = spec_tlv(0x06, p);
    let alg = spec_tlv(0x30, ta + tp);
    let bits = seq![0u8] + k;
    let key = spec_tlv(0x03, bits);
    lemma_tlv_len(0x06, a);
    lemma_tlv_len(0x06, p);
    lemma_tlv_len(0x30, ta + tp);
    lemma_tlv_len(0x03, bits);
    lemma_tlv_len(0x30, alg + key);
    assert(spec_spki_layout(a, p, k) == spec_tlv(0x30, alg + key));
}

/// The DER encoding that the `spki` crate gives the `SubjectPublicKeyInfo`
/// with algorithm `algorithm_oid`, parameters the OID `parameters_oid`, and
/// public key `subject_public_key`; `None` where it refuses them.
pub uninterp spec fn spki_der(
    algorithm_oid: Seq<u8>,
    parameters_oid: Seq<u8>,
    subject_public_key: Seq<u8>,
) -> Option<Seq<u8>>;

/// What the `spki` crate decodes from the DER bytes `der`: the algorithm
/// OID, the parameters (see `parameters_view`), and the public key; `None`
/// where `der` is no `SubjectPublicKeyInfo` it accepts.
pub uninterp spec fn spki_fields(der: Seq<u8>) -> Option<(Seq<u8>, Option<Option<Seq<u8>>>, Seq<u8>)>;

/// The DER bytes of the SPKI document that `pkcs8` reads from the PEM text
/// `pem`; `None` where it refuses the text.
pub uninterp spec fn spki_pem_der(pem: Seq<char>) -> Option<Seq<u8>>;

/// Encode a `SubjectPublicKeyInfo` as a DER document with
/// `ObjectIdentifier::from_bytes` and `PublicKeyDocument::try_from`
/// (crates `der` and `spki`). It succeeds when both OIDs are valid and the
/// key is at most 0xFFFF bytes; its bytes then have the DER layout of the
/// structure, and `PublicKeyDocument::try_from`, which decodes what it
/// encoded, reads the same fields back. What else it refuses (a length
/// beyond `der`'s limit) is only named.
#[verifier::external_body]
pub(crate) fn encode_spki(
    algorithm_oid: &[u8],
    parameters_oid: &[u8],
    subject_public_key: &[u8],
) -> (der: Option<Vec<u8>>)
    ensures
        opt_bytes(der) == spki_der(algorithm_oid@, parameters_oid@, subject_public_key@),
        spec_valid_oid(algorithm_oid@) && spec_valid_oid(parameters_oid@)
            && subject_public_key@.len() <= 0xFFFF ==> der is Some,
        der matches Some(d) ==> d@ == spec_spki_layout(
            algorithm_oid@,
            parameters_oid@,
            subject_public_key@,
        ),
        der matches Some(d) ==> spki_fields(d@) == Some(
            (algorithm_oid@, Some(Some(parameters_oid@)), subject_public_key@),
        ),
{
    let oid = ObjectIdentifier::from_bytes(algorithm_oid).ok()?;
    let parameters = ObjectIdentifier::from_bytes(parameters_oid).ok()?;
    let algorithm = AlgorithmIdentifier { oid, parameters: Some((&parameters).into()) };
    let spki = Spki { algorithm, subject_public_key };
    PublicKeyDocument::try_from(spki).ok().map(|doc| doc.as_ref().to_vec())
}

/// Decode a `SubjectPublicKeyInfo` from DER with `SubjectPublicKeyInfo::from_der`
/// (crate `spki`), reading its algorithm OID, its parameters (converted
/// to an OID with `ObjectIdentifier::try_from` where they are present) and
/// its public key. The contract only names the result.
#[verifier::external_body]
pub(crate) fn decode_spki(der: &[u8]) -> (r: Option<SubjectPublicKeyInfo>)
    ensures
        match r {
            Some(s) => spki_fields(der@) == Some(
                (s.algorithm_oid@, parameters_view(s.parameters), s.subject_public_key@),
            ),
            None => spki_fields(der@) is None,
        },
{
    let spki = Spki::from_der(der).ok()?;
    let parameters = match spki.algorithm.parameters {
        None => Parameters::Absent,
        Some(any) => match ObjectIdentifier::try_from(any) {
            Ok(oid) => Parameters::Oid(oid.as_bytes().to_vec()),
            Err(_) => Parameters::Other,
        },
    };
    Some(SubjectPublicKeyInfo {
        algorithm_oid: spki.algorithm.oid.as_bytes().to_vec(),
        parameters,
        subject_public_key: spki.subject_public_key.to_vec(),
    })
}

/// The characters of a line ending.
pub open spec fn spec_line_ending(le: LineEnding) -> Seq<char> {
    match le {
        LineEnding::CR => seq!['\r'],
        LineEnding::LF => seq!['\n'],
        LineEnding::CRLF => seq!['\r', '\n'],
    }
}

/// The character of a 6-bit value in the standard Base64 alphabet
/// `A-Z a-z 0-9 + /`.
pub open spec fn b64_std_char(v: int) -> char {
    if v < 26 {
        (v + 65) as char
    } else if v < 52 {
        (v + 71) as char
    } else if v < 62 {
        (v - 4) as char
    } else if v == 62 {
        '+'
    } else {
        '/'
    }
}

/// Standard Base64 with `=` padding: each group of three bytes gives four
/// characters; a final group of one or two bytes gives two or three
/// characters (the missing bits taken as zero) and `==` or `=`.
pub open spec fn spec_base64_padded(bytes: Seq<u8>) -> Seq<char>
    decreases bytes.len(),
{
    if bytes.len() == 0 {
        seq![]
    } else if bytes.len() == 1 {
        seq![
            b64_std_char(bytes[0] as int / 4),
            b64_std_char((bytes[0] as int % 4) * 16),
            '=',
            '=',
        ]
    } else if bytes.len() == 2 {
        seq![
            b64_std_char(bytes[0] as int / 4),
            b64_std_char((bytes[0] as int % 4) * 16 + bytes[1] as int / 16),
            b64_std_char((bytes[1] as int % 16) * 4),
            '=',
        ]
    } else {
        seq![
            b64_std_char(bytes[0] as int / 4),
            b64_std_char((bytes[0] as int % 4) * 16 + bytes[1] as int / 16),
            b64_std_char((bytes[1] as int % 16) * 4 + bytes[2] as int / 64),
            b64_std_char(bytes[2] as int % 64),
        ] + spec_base64_padded(bytes.subrange(3, bytes.len() as int))
    }
}

/// PEM body: the Base64 of each 48-byte chunk on a line of its own.
pub open spec fn spec_pem_lines(der: Seq<u8>, le: LineEnding) -> Seq<char>
    decreases der.len(),
{
    if der.len() == 0 {
        seq![]
    } else if der.len() <= 48 {
        spec_base64_padded(der) + spec_line_ending(le)
    } else {
        spec_base64_padded(der.subrange(0, 48)) + spec_line_ending(le) + spec_pem_lines(
            der.subrange(48, der.len() as int),
            le,
        )
    }
}

/// PEM text of an SPKI document: `-----BEGIN PUBLIC KEY-----`, the Base64
/// lines of the DER bytes, `-----END PUBLIC KEY-----`, each line ended by
/// `le` (RFC 7468, strict).
pub open spec fn spec_spki_pem(der: Seq<u8>, le: LineEnding) -> Seq<char> {
    "-----BEGIN PUBLIC KEY-----"@ + spec_line_ending(le) + spec_pem_lines(der, le)
        + "-----END PUBLIC KEY-----"@ + spec_line_ending(le)
}

/// Encode an SPKI DER document as PEM with `PublicKeyDocument::try_from`
/// and `EncodePublicKey::to_public_key_pem` (crates `spki`, `der`,
/// `pem-rfc7468`): it succeeds exactly on the documents that `spki`
/// decodes, writes the PEM text of the document, and `pkcs8` reads the
/// document back from that text.
#[verifier::external_body]
pub(crate) fn encode_spki_pem(der: &[u8], line_ending: LineEnding) -> (pem: Option<String>)
    requires
        der@.len() <= usize::MAX / 4,
    ensures
        pem is Some <==> spki_fields(der@) is Some,
        pem matches Some(s) ==> s@ == spec_spki_pem(der@, line_ending),
        pem matches Some(s) ==> spki_pem_der(s@) == Some(der@),
{
    let le = match line_ending {
        LineEnding::CR => pkcs8::LineEnding::CR,
        LineEnding::LF => pkcs8::LineEnding::LF,
        LineEnding::CRLF => pkcs8::LineEnding::CRLF,
    };
    PublicKeyDocument::try_from(der).ok()?.to_public_key_pem(le).ok()
}

/// Read the DER bytes of an SPKI document from PEM text with
/// `DecodePublicKey::from_public_key_pem` for `PublicKeyDocument` (crate
/// `spki`). The contract only names the result.
#[verifier::external_body]
pub(crate) fn decode_spki_pem(pem: &str) -> (der: Option<Vec<u8>>)
    ensures
        opt_bytes(der) == spki_pem_der(pem@),
{
    <PublicKeyDocument as pkcs8::DecodePublicKey>::from_public_key_pem(pem).ok().map(
        |doc| doc.as_ref().to_vec(),
    )
}

/// Upper-case hexadecimal digit of a nibble.
pub open spec fn hex_digit_upper(v: int) -> char {
    if v < 10 {
        (v + 48) as char
    } else {
        (v + 55) as char
    }
}

/// Upper-case hexadecimal text of `bytes`: two digits per byte, the high
/// nibble first.
pub open spec fn spec_hex_upper(bytes: Seq<u8>) -> Seq<char>
    decreases bytes.len(),
{
    if bytes.len() == 0 {
        seq![]
    } else {
        seq![hex_digit_upper(bytes[0] as int / 16), hex_digit_upper(bytes[0] as int % 16)] + spec_hex_upper(
            bytes.drop_first(),
        )
    }
}

/// Value of a hexadecimal digit of either case.
pub open spec fn hex_value(c: char) -> Option<int> {
    if '0' <= c && c <= '9' {
        Some(c as int - 48)
    } else if 'A' <= c && c <= 'F' {
        Some(c as int - 55)
    } else if 'a' <= c && c <= 'f' {
        Some(c as int - 87)
    } else {
        None
    }
}

/// Bytes of hexadecimal text whose digits may be of either case: `None`
/// where the length is odd or a character is no hexadecimal digit.
pub open spec fn spec_hex_decode(s: Seq<char>) -> Option<Seq<u8>>
    decreases s.len(),
{
    if s.len() == 0 {
        Some(seq![])
    } else if s.len() == 1 {
        None
    } else {
        match (hex_value(s[0]), hex_value(s[1]), spec_hex_decode(s.subrange(2, s.len() as int))) {
            (Some(hi), Some(lo), Some(rest)) => Some(seq![(hi * 16 + lo) as u8] + rest),
            _ => None,
        }
    }
}

/// A nibble's upper-case digit reads back as the nibble.
pub proof fn lemma_hex_digit_roundtrip(v: int)
    requires
        0 <= v < 16,
    ensures
        hex_value(hex_digit_upper(v)) == Some(v),
{
    let c = hex_digit_upper(v);
    if v < 10 {
        assert(c as int == v + 48);
    } else {
        assert(c as int == v + 55);
    }
}

/// Hexadecimal text reads back as the bytes it was made of.
pub proof fn lemma_hex_roundtrip(bytes: Seq<u8>)
    ensures
        spec_hex_decode(spec_hex_upper(bytes)) == Some(bytes),
    decreases bytes.len(),
{
    if bytes.len() > 0 {
        let b = bytes[0];
        let hi = b as int / 16;
        let lo = b as int % 16;
        lemma_hex_digit_roundtrip(hi);
        lemma_hex_digit_roundtrip(lo);
        lemma_hex_roundtrip(bytes.drop_first());
        let s = spec_hex_upper(bytes);
        let rest = spec_hex_upper(bytes.drop_first());
        assert(s =~= seq![hex_digit_upper(hi), hex_digit_upper(lo)] + rest);
        assert(s.subrange(2, s.len() as int) =~= rest);
        assert((hi * 16 + lo) as u8 == b);
        assert(seq![b] + bytes.drop_first() =~= bytes);
    }
}

/// Upper-case hexadecimal text of `bytes` (`base16ct::upper::encode_string`).
#[verifier::external_body]
pub(crate) fn hex_upper(bytes: &[u8]) -> (s: String)
    requires
        bytes@.len() <= usize::MAX / 2,
    ensures
        s@ == spec_hex_upper(bytes@),
{
    base16ct::upper::encode_string(bytes)
}

/// Bytes of hexadecimal text of either case (`base16ct::mixed::decode_vec`):
/// fails on odd length and on any character that is no hexadecimal digit.
#[verifier::external_body]
pub(crate) fn hex_decode(s: &str) -> (r: Option<Vec<u8>>)
    ensures
        opt_bytes(r) == spec_hex_decode(s@),
{
    base16ct::mixed::decode_vec(s).ok()
}

} // verus!
