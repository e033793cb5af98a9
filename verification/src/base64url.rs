//! Unpadded URL-safe Base64 (RFC 4648, section 5, without `=` padding), in
//! which JSON Web Keys carry coordinates. The encoding and decoding are
//! done by `base64ct`; this module states what they compute.

use vstd::prelude::*;

use base64ct::{Base64UrlUnpadded, Encoding};

verus! {

/// The character of a 6-bit value in the URL-safe alphabet
/// `A-Z a-z 0-9 - _`.
pub open spec fn b64_char(v: int) -> char {
    if v < 26 {
        (v + 65) as char
    } else if v < 52 {
        (v + 71) as char
    } else if v < 62 {
        (v - 4) as char
    } else if v == 62 {
        '-'
    } else {
        '_'
    }
}

/// Unpadded URL-safe Base64 text of `bytes`: each group of three bytes
/// gives four characters; a final group of one or two bytes gives two or
/// three characters, the missing bits taken as zero.
pub open spec fn spec_base64url(bytes: Seq<u8>) -> Seq<char>
    decreases bytes.len(),
{
    if bytes.len() == 0 {
        seq![]
    } else if bytes.len() == 1 {
        seq![b64_char((bytes[0] as int) / 4), b64_char(((bytes[0] as int) % 4) * 16)]
    } else if bytes.len() == 2 {
        seq![
            b64_char((bytes[0] as int) / 4),
            b64_char(((bytes[0] as int) % 4) * 16 + (bytes[1] as int) / 16),
            b64_char(((bytes[1] as int) % 16) * 4),
        ]
    } else {
        seq![
            b64_char((bytes[0] as int) / 4),
            b64_char(((bytes[0] as int) % 4) * 16 + (bytes[1] as int) / 16),
            b64_char(((bytes[1] as int) % 16) * 4 + (bytes[2] as int) / 64),
            b64_char((bytes[2] as int) % 64),
        ] + spec_base64url(bytes.subrange(3, bytes.len() as int))
    }
}

/// The bytes whose unpadded URL-safe Base64 text is `s`, where there are
/// any (there is at most one such byte string).
pub open spec fn spec_base64url_decode(s: Seq<char>) -> Option<Seq<u8>> {
    if exists|b: Seq<u8>| spec_base64url(b) == s {
        Some(choose|b: Seq<u8>| spec_base64url(b) == s)
    } else {
        None
    }
}

/// Different 6-bit values have different characters.
pub proof fn lemma_b64_char_injective(v: int, w: int)
    requires
        0 <= v < 64,
        0 <= w < 64,
        b64_char(v) == b64_char(w),
    ensures
        v == w,
{
    let cv = b64_char(v) as int;
    let cw = b64_char(w) as int;
    assert(v < 26 ==> cv == v + 65);
    assert(26 <= v < 52 ==> cv == v + 71);
    assert(52 <= v < 62 ==> cv == v - 4);
    assert(w < 26 ==> cw == w + 65);
    assert(26 <= w < 52 ==> cw == w + 71);
    assert(52 <= w < 62 ==> cw == w - 4);
}

/// Length of the text of `n` bytes.
pub open spec fn spec_base64url_len(n: nat) -> nat {
    4 * (n / 3) + if n % 3 == 0 {
        0nat
    } else {
        n % 3 + 1
    }
}

/// The text of `bytes` has the length `spec_base64url_len` gives.
pub proof fn lemma_base64url_len(bytes: Seq<u8>)
    ensures
        spec_base64url(bytes).len() == spec_base64url_len(bytes.len()),
    decreases bytes.len(),
{
    if bytes.len() >= 3 {
        lemma_base64url_len(bytes.subrange(3, bytes.len() as int));
    }
}

/// Different byte strings have different texts.
pub proof fn lemma_base64url_injective(a: Seq<u8>, b: Seq<u8>)
    requires
        spec_base64url(a) == spec_base64url(b),
    ensures
        a == b,
    decreases a.len(),
{
    lemma_base64url_len(a);
    lemma_base64url_len(b);
    let s = spec_base64url(a);
    assert(a.len() == b.len()) by {
        let n = a.len();
        let m = b.len();
        assert(spec_base64url_len(n) == spec_base64url_len(m));
        assert(n == 3 * (n / 3) + n % 3);
        assert(m == 3 * (m / 3) + m % 3);
    }
    if a.len() == 0 {
        assert(a =~= b);
    } else if a.len() == 1 {
        assert(s[0] == b64_char((a[0] as int) / 4) && s[0] == b64_char((b[0] as int) / 4));
        assert(s[1] == b64_char(((a[0] as int) % 4) * 16) && s[1] == b64_char(((b[0] as int) % 4) * 16));
        lemma_b64_char_injective((a[0] as int) / 4, (b[0] as int) / 4);
        lemma_b64_char_injective(((a[0] as int) % 4) * 16, ((b[0] as int) % 4) * 16);
        assert(a[0] == b[0]);
        assert(a =~= b);
    } else if a.len() == 2 {
        assert(s[0] == b64_char((a[0] as int) / 4) && s[0] == b64_char((b[0] as int) / 4));
        assert(s[1] == b64_char(((a[0] as int) % 4) * 16 + (a[1] as int) / 16));
        assert(s[1] == b64_char(((b[0] as int) % 4) * 16 + (b[1] as int) / 16));
        assert(s[2] == b64_char(((a[1] as int) % 16) * 4) && s[2] == b64_char(((b[1] as int) % 16) * 4));
        lemma_b64_char_injective((a[0] as int) / 4, (b[0] as int) / 4);
        lemma_b64_char_injective(((a[0] as int) % 4) * 16 + (a[1] as int) / 16, ((b[0] as int) % 4) * 16 + (b[1] as int) / 16);
        lemma_b64_char_injective(((a[1] as int) % 16) * 4, ((b[1] as int) % 16) * 4);
        assert(a[0] == b[0]);
        assert(a[1] == b[1]);
        assert(a =~= b);
    } else {
        let ra = a.subrange(3, a.len() as int);
        let rb = b.subrange(3, b.len() as int);
        assert(s[0] == b64_char((a[0] as int) / 4) && s[0] == b64_char((b[0] as int) / 4));
        assert(s[1] == b64_char(((a[0] as int) % 4) * 16 + (a[1] as int) / 16));
        assert(s[1] == b64_char(((b[0] as int) % 4) * 16 + (b[1] as int) / 16));
        assert(s[2] == b64_char(((a[1] as int) % 16) * 4 + (a[2] as int) / 64));
        assert(s[2] == b64_char(((b[1] as int) % 16) * 4 + (b[2] as int) / 64));
        assert(s[3] == b64_char((a[2] as int) % 64) && s[3] == b64_char((b[2] as int) % 64));
        lemma_b64_char_injective((a[0] as int) / 4, (b[0] as int) / 4);
        lemma_b64_char_injective(((a[0] as int) % 4) * 16 + (a[1] as int) / 16, ((b[0] as int) % 4) * 16 + (b[1] as int) / 16);
        lemma_b64_char_injective(((a[1] as int) % 16) * 4 + (a[2] as int) / 64, ((b[1] as int) % 16) * 4 + (b[2] as int) / 64);
        lemma_b64_char_injective((a[2] as int) % 64, (b[2] as int) % 64);
        assert(a[0] == b[0]);
        assert(a[1] == b[1]);
        assert(a[2] == b[2]);
        assert(s.subrange(4, s.len() as int) =~= spec_base64url(ra));
        assert(s.subrange(4, s.len() as int) =~= spec_base64url(rb));
        lemma_base64url_injective(ra, rb);
        assert forall|i: int| 0 <= i < a.len() implies a[i] == b[i] by {
            if i >= 3 {
                assert(a[i] == ra[i - 3]);
                assert(b[i] == rb[i - 3]);
            }
        }
        assert(a =~= b);
    }
}

/// Decoding the text of `bytes` gives `bytes` back.
pub proof fn lemma_base64url_roundtrip(bytes: Seq<u8>)
    ensures
        spec_base64url_decode(spec_base64url(bytes)) == Some(bytes),
{
    let s = spec_base64url(bytes);
    assert(exists|b: Seq<u8>| spec_base64url(b) == s);
    let c = choose|b: Seq<u8>| spec_base64url(b) == s;
    lemma_base64url_injective(c, bytes);
}

/// Unpadded URL-safe Base64 text of `bytes`
/// (`Base64UrlUnpadded::encode_string`, which panics only on inputs longer
/// than `usize::MAX / 4` bytes).
#[verifier::external_body]
pub(crate) fn base64url_encode(bytes: &[u8]) -> (s: String)
    requires
        bytes@.len() <= usize::MAX / 4,
    ensures
        s@ == spec_base64url(bytes@),
{
    Base64UrlUnpadded::encode_string(bytes)
}

/// Bytes of unpadded URL-safe Base64 text (`Base64UrlUnpadded::decode_vec`):
/// the decoder accepts a text exactly when it is the encoding of some bytes
/// (it rejects characters outside the alphabet, impossible lengths and
/// non-zero leftover bits, by checking that the last block encodes back to
/// the input).
#[verifier::external_body]
pub(crate) fn base64url_decode(s: &str) -> (r: Option<Vec<u8>>)
    ensures
        match r {
            Some(b) => spec_base64url_decode(s@) == Some(b@),
            None => spec_base64url_decode(s@) is None,
        },
{
    Base64UrlUnpadded::decode_vec(s).ok()
}

} // verus!
