//! SEC1 `Elliptic-Curve-Point-to-Octet-String` encoding of curve points
//! (SEC 1: Elliptic Curve Cryptography, version 2.0, sections 2.3.3 and 2.3.4).
//!
//! An encoded point is one of:
//! - the identity: the single byte `0x00`;
//! - a compressed point: `0x02` (even y) or `0x03` (odd y), then x;
//! - an uncompressed point: `0x04`, then x, then y;
//!
//! where each coordinate is a big-endian field element of the curve's size.

use core::marker::PhantomData;
use vstd::prelude::*;

use crate::curve::{Curve, MAX_FIELD_SIZE};
use crate::error::Error;

verus! {

/// Length of a SEC1 encoding whose first byte is `tag`, for field elements
/// of `field_size` bytes; `None` where `tag` is no SEC1 tag.
pub open spec fn spec_encoded_len(tag: u8, field_size: nat) -> Option<nat> {
    if tag == 0 {
        Some(1)
    } else if tag == 2 || tag == 3 {
        Some(1 + field_size)
    } else if tag == 4 {
        Some(1 + 2 * field_size)
    } else {
        None
    }
}

/// `bytes` is a well-formed SEC1 encoding for field elements of `field_size` bytes.
pub open spec fn is_valid_encoding(bytes: Seq<u8>, field_size: nat) -> bool {
    &&& bytes.len() > 0
    &&& spec_encoded_len(bytes[0], field_size) == Some(bytes.len())
}

/// The tag of a compressed point whose y-coordinate is `y` (big-endian):
/// `0x03` when y is odd, `0x02` when it is even.
pub open spec fn spec_compressed_tag(y: Seq<u8>) -> u8 {
    if y.last() % 2 == 1 {
        3
    } else {
        2
    }
}

/// SEC1 encoding of the affine point (x, y).
pub open spec fn spec_affine_encoding(x: Seq<u8>, y: Seq<u8>, compress: bool) -> Seq<u8> {
    if compress {
        seq![spec_compressed_tag(y)] + x
    } else {
        seq![4u8] + x + y
    }
}

/// The unsigned integer that the big-endian bytes `s` stand for.
pub open spec fn spec_be_value(s: Seq<u8>) -> nat
    decreases s.len(),
{
    if s.len() == 0 {
        0
    } else {
        spec_be_value(s.drop_last()) * 256 + s.last() as nat
    }
}

/// A compressed encoding is the tag `0x02` where the integer y is even,
/// `0x03` where it is odd, followed by x; an uncompressed one is `0x04`,
/// x and y.
pub proof fn lemma_affine_encoding_layout(x: Seq<u8>, y: Seq<u8>)
    requires
        y.len() > 0,
    ensures
        spec_affine_encoding(x, y, true)[0] == 2 + spec_be_value(y) % 2,
        spec_affine_encoding(x, y, true).drop_first() == x,
        spec_affine_encoding(x, y, false)[0] == 4,
        spec_affine_encoding(x, y, false).drop_first() == x + y,
{
    let q = spec_be_value(y.drop_last());
    let l = y.last() as nat;
    assert((q * 256 + l) % 2 == l % 2) by (nonlinear_arith);
    assert(spec_affine_encoding(x, y, true).drop_first() =~= x);
    assert(spec_affine_encoding(x, y, false).drop_first() =~= x + y);
}

/// The encoding of the affine point (x, y) is well formed.
pub proof fn lemma_affine_encoding_valid(x: Seq<u8>, y: Seq<u8>, compress: bool, field_size: nat)
    requires
        x.len() == field_size,
        y.len() == field_size,
    ensures
        is_valid_encoding(spec_affine_encoding(x, y, compress), field_size),
{
}

/// The tag byte that starts a SEC1 encoding.
#[derive(Clone, Copy, Debug, PartialEq, Eq, Structural)]
pub enum Tag {
    /// The identity point: `0x00`.
    Identity,
    /// A compressed point with even y: `0x02`.
    CompressedEvenY,
    /// A compressed point with odd y: `0x03`.
    CompressedOddY,
    /// An uncompressed point: `0x04`.
    Uncompressed,
}

impl Tag {
    /// The byte of this tag.
    pub open spec fn spec_byte(self) -> u8 {
        match self {
            Tag::Identity => 0,
            Tag::CompressedEvenY => 2,
            Tag::CompressedOddY => 3,
            Tag::Uncompressed => 4,
        }
    }

    /// Parse a tag byte: fails on any byte other than `0x00`, `0x02`, `0x03`, `0x04`.
    pub fn from_u8(byte: u8) -> (r: Result<Tag, Error>)
        ensures
            r is Ok <==> (byte == 0 || byte == 2 || byte == 3 || byte == 4),
            r matches Ok(t) ==> t.spec_byte() == byte,
    {
        if byte == 0 {
            Ok(Tag::Identity)
        } else if byte == 2 {
            Ok(Tag::CompressedEvenY)
        } else if byte == 3 {
            Ok(Tag::CompressedOddY)
        } else if byte == 4 {
            Ok(Tag::Uncompressed)
        } else {
            Err(Error)
        }
    }

    /// The byte of this tag.
    pub fn to_u8(self) -> (b: u8)
        ensures
            b == self.spec_byte(),
    {
        match self {
            Tag::Identity => 0,
            Tag::CompressedEvenY => 2,
            Tag::CompressedOddY => 3,
            Tag::Uncompressed => 4,
        }
    }

    /// Is this the tag of a compressed point?
    pub fn is_compressed(self) -> (b: bool)
        ensures
            b == (self.spec_byte() == 2 || self.spec_byte() == 3),
    {
        match self {
            Tag::CompressedEvenY | Tag::CompressedOddY => true,
            _ => false,
        }
    }
}

/// The coordinates that a SEC1 encoding carries.
#[derive(Clone, Debug, PartialEq, Eq)]
pub enum Coordinates {
    /// The identity point has no coordinates.
    Identity,
    /// A compressed point: x and the parity of y.
    Compressed { x: Vec<u8>, y_is_odd: bool },
    /// An uncompressed point: x and y.
    Uncompressed { x: Vec<u8>, y: Vec<u8> },
}

/// A SEC1-encoded point of the curve `C`: always a well-formed encoding
/// for the curve's field size.
pub struct EncodedPoint<C: Curve> {
    bytes: Vec<u8>,
    curve: PhantomData<C>,
}

impl<C: Curve> View for EncodedPoint<C> {
    type V = Seq<u8>;

    closed spec fn view(&self) -> Seq<u8> {
        self.bytes@
    }
}

/// Copy `src[start..end]` into a new vector.
pub(crate) fn copy_range(src: &[u8], start: usize, end: usize) -> (out: Vec<u8>)
    requires
        start <= end <= src@.len(),
    ensures
        out@ == src@.subrange(start as int, end as int),
{
    let mut out: Vec<u8> = Vec::new();
    let mut i: usize = start;
    while i < end
        invariant
            start <= i <= end,
            end <= src@.len(),
            out@ == src@.subrange(start as int, i as int),
        decreases end - i,
    {
        out.push(src[i]);
        i = i + 1;
    }
    out
}

impl<C: Curve> EncodedPoint<C> {
    /// Every encoded point is well formed for the curve's field size.
    #[verifier::type_invariant]
    pub open spec fn wf(self) -> bool {
        is_valid_encoding(self@, C::spec_field_size())
    }

    /// Decode a SEC1 encoding: succeeds exactly on well-formed encodings
    /// and keeps the bytes unchanged.
    pub fn from_bytes(input: &[u8]) -> (r: Result<Self, Error>)
        ensures
            r is Ok <==> is_valid_encoding(input@, C::spec_field_size()),
            r matches Ok(e) ==> e@ == input@,
    {
        let n = C::field_size();
        if input.len() == 0 {
            return Err(Error);
        }
        let tag = match Tag::from_u8(input[0]) {
            Ok(t) => t,
            Err(e) => return Err(e),
        };
        let expected: usize = match tag {
            Tag::Identity => 1,
            Tag::CompressedEvenY | Tag::CompressedOddY => 1 + n,
            Tag::Uncompressed => 1 + 2 * n,
        };
        if input.len() != expected {
            return Err(Error);
        }
        let bytes = copy_range(input, 0, input.len());
        assert(bytes@ =~= input@);
        Ok(EncodedPoint { bytes, curve: PhantomData })
    }

    /// The encoding of the identity point: the single byte `0x00`.
    pub fn identity() -> (e: Self)
        ensures
            e@ == seq![0u8],
    {
        let mut bytes: Vec<u8> = Vec::new();
        bytes.push(0u8);
        assert(bytes@ =~= seq![0u8]);
        EncodedPoint { bytes, curve: PhantomData }
    }

    /// Encode the affine point (x, y), compressed or not.
    pub fn from_affine_coordinates(x: &[u8], y: &[u8], compress: bool) -> (e: Self)
        requires
            x@.len() == C::spec_field_size(),
            y@.len() == C::spec_field_size(),
        ensures
            e@ == spec_affine_encoding(x@, y@, compress),
    {
        let n = C::field_size();
        let mut bytes: Vec<u8> = Vec::new();
        if compress {
            let last = y[n - 1];
            let tag: u8 = if last % 2 == 1 {
                3
            } else {
                2
            };
            bytes.push(tag);
        } else {
            bytes.push(4u8);
        }
        let ghost head = bytes@;
        let mut i: usize = 0;
        while i < n
            invariant
                n == x@.len(),
                i <= n,
                bytes@ == head + x@.subrange(0, i as int),
            decreases n - i,
        {
            bytes.push(x[i]);
            i = i + 1;
        }
        assert(x@.subrange(0, n as int) =~= x@);
        if !compress {
            let ghost mid = bytes@;
            let mut j: usize = 0;
            while j < n
                invariant
                    n == y@.len(),
                    j <= n,
                    bytes@ == mid + y@.subrange(0, j as int),
                decreases n - j,
            {
                bytes.push(y[j]);
                j = j + 1;
            }
            assert(y@.subrange(0, n as int) =~= y@);
        }
        proof {
            lemma_affine_encoding_valid(x@, y@, compress, C::spec_field_size());
        }
        assert(bytes@ =~= spec_affine_encoding(x@, y@, compress));
        EncodedPoint { bytes, curve: PhantomData }
    }

    /// The encoded bytes.
    pub fn as_bytes(&self) -> (b: &[u8])
        ensures
            b@ == self@,
    {
        self.bytes.as_slice()
    }

    /// Length of the encoding in bytes.
    pub fn len(&self) -> (n: usize)
        ensures
            n == self@.len(),
    {
        self.bytes.len()
    }

    /// The tag that starts the encoding.
    pub fn tag(&self) -> (t: Tag)
        ensures
            t.spec_byte() == self@[0],
    {
        proof {
            use_type_invariant(self);
        }
        match Tag::from_u8(self.bytes[0]) {
            Ok(t) => t,
            Err(_) => Tag::Identity,
        }
    }

    /// Is this the encoding of the identity point?
    pub fn is_identity(&self) -> (b: bool)
        ensures
            b == (self@[0] == 0),
    {
        proof {
            use_type_invariant(self);
        }
        self.bytes[0] == 0
    }

    /// Is this a compressed encoding?
    pub fn is_compressed(&self) -> (b: bool)
        ensures
            b == (self@[0] == 2 || self@[0] == 3),
    {
        proof {
            use_type_invariant(self);
        }
        self.bytes[0] == 2 || self.bytes[0] == 3
    }

    /// The coordinates carried by the encoding.
    pub fn coordinates(&self) -> (c: Coordinates)
        ensures
            self@[0] == 0 ==> c == Coordinates::Identity,
            (self@[0] == 2 || self@[0] == 3) ==> (c matches Coordinates::Compressed { x, y_is_odd }
                && x@ == self@.subrange(1, 1 + C::spec_field_size() as int)
                && y_is_odd == (self@[0] == 3)),
            self@[0] == 4 ==> (c matches Coordinates::Uncompressed { x, y }
                && x@ == self@.subrange(1, 1 + C::spec_field_size() as int)
                && y@ == self@.subrange(
                1 + C::spec_field_size() as int,
                1 + 2 * C::spec_field_size() as int,
            )),
    {
        proof {
            use_type_invariant(self);
        }
        let n = C::field_size();
        let tag = self.bytes[0];
        if tag == 0 {
            Coordinates::Identity
        } else if tag == 4 {
            let x = copy_range(self.bytes.as_slice(), 1, 1 + n);
            let y = copy_range(self.bytes.as_slice(), 1 + n, 1 + 2 * n);
            Coordinates::Uncompressed { x, y }
        } else {
            let x = copy_range(self.bytes.as_slice(), 1, 1 + n);
            Coordinates::Compressed { x, y_is_odd: tag == 3 }
        }
    }
}

} // verus!
