//! Lexicographic order on byte strings, by which public keys are ordered.

use vstd::prelude::*;

verus! {

/// Outcome of comparing two byte strings.
#[derive(Clone, Copy, Debug, PartialEq, Eq, Structural)]
pub enum ByteOrder {
    Less,
    Equal,
    Greater,
}

/// Lexicographic comparison of `a` with `b`: the first differing byte
/// decides, and a proper prefix comes first.
pub open spec fn spec_compare_bytes(a: Seq<u8>, b: Seq<u8>) -> ByteOrder
    decreases a.len(),
{
    if a.len() == 0 {
        if b.len() == 0 {
            ByteOrder::Equal
        } else {
            ByteOrder::Less
        }
    } else if b.len() == 0 {
        ByteOrder::Greater
    } else if a[0] < b[0] {
        ByteOrder::Less
    } else if a[0] > b[0] {
        ByteOrder::Greater
    } else {
        spec_compare_bytes(a.drop_first(), b.drop_first())
    }
}

/// Two byte strings compare equal exactly when they are equal.
pub proof fn lemma_compare_equal(a: Seq<u8>, b: Seq<u8>)
    ensures
        (spec_compare_bytes(a, b) == ByteOrder::Equal) == (a == b),
    decreases a.len(),
{
    if a.len() != 0 && b.len() != 0 && a[0] == b[0] {
        lemma_compare_equal(a.drop_first(), b.drop_first());
        if a.drop_first() == b.drop_first() {
            assert(a =~= seq![a[0]] + a.drop_first());
            assert(b =~= seq![b[0]] + b.drop_first());
        }
    } else if a.len() == 0 && b.len() == 0 {
        assert(a =~= b);
    }
}

/// Swapping the operands swaps `Less` and `Greater`.
pub proof fn lemma_compare_antisymmetric(a: Seq<u8>, b: Seq<u8>)
    ensures
        (spec_compare_bytes(a, b) == ByteOrder::Less) == (spec_compare_bytes(b, a)
            == ByteOrder::Greater),
    decreases a.len(),
{
    if a.len() != 0 && b.len() != 0 && a[0] == b[0] {
        lemma_compare_antisymmetric(a.drop_first(), b.drop_first());
    }
}

/// `Less` is transitive.
pub proof fn lemma_compare_transitive(a: Seq<u8>, b: Seq<u8>, c: Seq<u8>)
    requires
        spec_compare_bytes(a, b) == ByteOrder::Less,
        spec_compare_bytes(b, c) == ByteOrder::Less,
    ensures
        spec_compare_bytes(a, c) == ByteOrder::Less,
    decreases a.len(),
{
    if a.len() != 0 && b.len() != 0 && c.len() != 0 && a[0] == b[0] && b[0] == c[0] {
        lemma_compare_transitive(a.drop_first(), b.drop_first(), c.drop_first());
    }
}

/// Bytes compare as unsigned integers (0 to 255), the first difference
/// deciding: where `a` and `b` agree before index `i` and `a[i] < b[i]`,
/// `a` comes first.
pub proof fn lemma_compare_first_difference(a: Seq<u8>, b: Seq<u8>, i: int)
    requires
        0 <= i < a.len(),
        i < b.len(),
        a.subrange(0, i) == b.subrange(0, i),
        a[i] < b[i],
    ensures
        spec_compare_bytes(a, b) == ByteOrder::Less,
    decreases i,
{
    if i > 0 {
        assert(a[0] == a.subrange(0, i)[0]);
        assert(b[0] == b.subrange(0, i)[0]);
        assert(a.drop_first().subrange(0, i - 1) =~= a.subrange(0, i).drop_first());
        assert(b.drop_first().subrange(0, i - 1) =~= b.subrange(0, i).drop_first());
        lemma_compare_first_difference(a.drop_first(), b.drop_first(), i - 1);
    }
}

/// A proper prefix comes first.
pub proof fn lemma_compare_prefix(a: Seq<u8>, b: Seq<u8>)
    requires
        a.len() < b.len(),
        a == b.subrange(0, a.len() as int),
    ensures
        spec_compare_bytes(a, b) == ByteOrder::Less,
    decreases a.len(),
{
    if a.len() > 0 {
        assert(a[0] == b[0]);
        assert(a.drop_first() =~= b.drop_first().subrange(0, a.len() - 1));
        lemma_compare_prefix(a.drop_first(), b.drop_first());
    }
}

/// Compare two byte strings lexicographically.
pub fn compare_bytes(a: &[u8], b: &[u8]) -> (r: ByteOrder)
    ensures
        r == spec_compare_bytes(a@, b@),
{
    let mut i: usize = 0;
    assert(a@.subrange(0, a@.len() as int) =~= a@);
    assert(b@.subrange(0, b@.len() as int) =~= b@);
    while i < a.len() && i < b.len()
        invariant
            i <= a@.len(),
            i <= b@.len(),
            spec_compare_bytes(a@, b@) == spec_compare_bytes(
                a@.subrange(i as int, a@.len() as int),
                b@.subrange(i as int, b@.len() as int),
            ),
        decreases a@.len() - i,
    {
        let x = a[i];
        let y = b[i];
        let ghost ra = a@.subrange(i as int, a@.len() as int);
        let ghost rb = b@.subrange(i as int, b@.len() as int);
        assert(ra[0] == x && rb[0] == y);
        if x < y {
            return ByteOrder::Less;
        } else if x > y {
            return ByteOrder::Greater;
        }
        assert(ra.drop_first() =~= a@.subrange(i + 1, a@.len() as int));
        assert(rb.drop_first() =~= b@.subrange(i + 1, b@.len() as int));
        i = i + 1;
    }
    let ghost ra = a@.subrange(i as int, a@.len() as int);
    let ghost rb = b@.subrange(i as int, b@.len() as int);
    if i < a.len() {
        assert(rb.len() == 0);
        ByteOrder::Greater
    } else if i < b.len() {
        assert(ra.len() == 0);
        ByteOrder::Less
    } else {
        assert(ra.len() == 0 && rb.len() == 0);
        ByteOrder::Equal
    }
}

} // verus!
