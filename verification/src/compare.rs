//! Byte-lexicographic order.

use vstd::prelude::*;

verus! {

/// The order of `left` against `right`, byte by byte: `-1` where `left` comes
/// first, `1` where it comes last, `0` where the two are the same bytes. A
/// proper prefix comes before what it is a prefix of.
pub open spec fn lex_compare(left: Seq<u8>, right: Seq<u8>) -> int
    decreases left.len(),
{
    if left.len() == 0 {
        if right.len() == 0 {
            0
        } else {
            -1
        }
    } else if right.len() == 0 {
        1
    } else if left[0] < right[0] {
        -1
    } else if left[0] > right[0] {
        1
    } else {
        lex_compare(left.drop_first(), right.drop_first())
    }
}

/// Orders `left` against `right` byte by byte.
pub fn compare(left: &[u8], right: &[u8]) -> (order: i32)
    ensures
        order == lex_compare(left@, right@),
{
    let mut i: usize = 0;
    proof {
        assert(left@.skip(0) =~= left@);
        assert(right@.skip(0) =~= right@);
    }
    while i < left.len() && i < right.len()
        invariant
            i <= left.len(),
            i <= right.len(),
            lex_compare(left@, right@) == lex_compare(left@.skip(i as int), right@.skip(i as int)),
        decreases left.len() - i,
    {
        proof {
            assert(left@.skip(i as int).drop_first() =~= left@.skip(i + 1));
            assert(right@.skip(i as int).drop_first() =~= right@.skip(i + 1));
        }
        if left[i] < right[i] {
            return -1;
        }
        if left[i] > right[i] {
            return 1;
        }
        i += 1;
    }
    if i < right.len() {
        -1
    } else if i < left.len() {
        1
    } else {
        0
    }
}

/// Tells whether `left` and `right` hold the same bytes.
pub fn equal(left: &[u8], right: &[u8]) -> (same: bool)
    ensures
        same == (left@ == right@),
{
    if left.len() != right.len() {
        return false;
    }
    let mut i: usize = 0;
    while i < left.len()
        invariant
            i <= left.len(),
            left.len() == right.len(),
            forall|k: int| 0 <= k < i ==> left@[k] == right@[k],
        decreases left.len() - i,
    {
        if left[i] != right[i] {
            return false;
        }
        i += 1;
    }
    assert(left@ =~= right@);
    true
}

/// The order has three outcomes.
pub proof fn lemma_compare_is_sign(left: Seq<u8>, right: Seq<u8>)
    ensures
        lex_compare(left, right) == -1 || lex_compare(left, right) == 0 || lex_compare(
            left,
            right,
        ) == 1,
    decreases left.len(),
{
    if left.len() > 0 && right.len() > 0 && left[0] == right[0] {
        lemma_compare_is_sign(left.drop_first(), right.drop_first());
    }
}

/// Two byte sequences compare as equal exactly when they are the same.
pub proof fn lemma_compare_zero_iff_equal(left: Seq<u8>, right: Seq<u8>)
    ensures
        lex_compare(left, right) == 0 <==> left == right,
    decreases left.len(),
{
    if left.len() > 0 && right.len() > 0 && left[0] == right[0] {
        lemma_compare_zero_iff_equal(left.drop_first(), right.drop_first());
        if left.drop_first() == right.drop_first() {
            assert(left =~= seq![left[0]] + left.drop_first());
            assert(right =~= seq![right[0]] + right.drop_first());
        }
    } else if left.len() == 0 && right.len() == 0 {
        assert(left =~= right);
    }
}

/// Swapping the two sides swaps the outcome.
pub proof fn lemma_compare_antisymmetric(left: Seq<u8>, right: Seq<u8>)
    ensures
        lex_compare(left, right) == -lex_compare(right, left),
    decreases left.len(),
{
    if left.len() > 0 && right.len() > 0 && left[0] == right[0] {
        lemma_compare_antisymmetric(left.drop_first(), right.drop_first());
    }
}

/// The order is transitive.
pub proof fn lemma_compare_transitive(first: Seq<u8>, second: Seq<u8>, third: Seq<u8>)
    requires
        lex_compare(first, second) <= 0,
        lex_compare(second, third) <= 0,
    ensures
        lex_compare(first, third) <= 0,
    decreases first.len(),
{
    if first.len() > 0 && second.len() > 0 && third.len() > 0 {
        if first[0] == second[0] && second[0] == third[0] {
            lemma_compare_transitive(
                first.drop_first(),
                second.drop_first(),
                third.drop_first(),
            );
        }
    }
}

/// Byte-lexicographic comparison is a total order over byte sequences, and
/// equality of bytes is its zero.
pub proof fn lemma_compare_total_order(first: Seq<u8>, second: Seq<u8>, third: Seq<u8>)
    ensures
        lex_compare(first, first) == 0,
        lex_compare(first, second) == 0 <==> first == second,
        lex_compare(first, second) == -lex_compare(second, first),
        lex_compare(first, second) <= 0 || lex_compare(second, first) <= 0,
        lex_compare(first, second) <= 0 && lex_compare(second, third) <= 0 ==> lex_compare(
            first,
            third,
        ) <= 0,
{
    lemma_compare_zero_iff_equal(first, first);
    lemma_compare_zero_iff_equal(first, second);
    lemma_compare_antisymmetric(first, second);
    if lex_compare(first, second) <= 0 && lex_compare(second, third) <= 0 {
        lemma_compare_transitive(first, second, third);
    }
}

} // verus!
