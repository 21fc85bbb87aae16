//! Lexicographic order on sequences of code points.
use vstd::prelude::*;

use std::cmp::Ordering;

verus! {

/// Compares `a` and `b` code point by code point; a proper prefix comes
/// first.
pub open spec fn lex_cmp(a: Seq<char>, b: Seq<char>) -> Ordering
    decreases a.len(),
{
    if a.len() == 0 {
        if b.len() == 0 {
            Ordering::Equal
        } else {
            Ordering::Less
        }
    } else if b.len() == 0 {
        Ordering::Greater
    } else if a[0] < b[0] {
        Ordering::Less
    } else if a[0] > b[0] {
        Ordering::Greater
    } else {
        lex_cmp(a.drop_first(), b.drop_first())
    }
}

/// `a` comes before `b` in dictionary order: either `a` is a proper prefix
/// of `b`, or at the first position where they differ `a` holds the smaller
/// code point.
pub open spec fn seq_less(a: Seq<char>, b: Seq<char>) -> bool {
    ||| (a.len() < b.len() && a == b.take(a.len() as int))
    ||| exists|i: int|
        0 <= i < a.len() && i < b.len() && a.take(i) == b.take(i) && #[trigger] a[i] < b[i]
}

/// `a` is not after `b`.
pub open spec fn lex_le(a: Seq<char>, b: Seq<char>) -> bool {
    lex_cmp(a, b) != Ordering::Greater
}

/// The comparison answers `Equal` exactly on equal sequences.
pub proof fn lemma_lex_cmp_equal(a: Seq<char>, b: Seq<char>)
    ensures
        (lex_cmp(a, b) == Ordering::Equal) <==> a == b,
    decreases a.len(),
{
    if a.len() == 0 && b.len() == 0 {
        assert(a =~= b);
    }
    if a.len() > 0 && b.len() > 0 && a[0] == b[0] {
        lemma_lex_cmp_equal(a.drop_first(), b.drop_first());
        if a.drop_first() == b.drop_first() {
            assert(a =~= seq![a[0]] + a.drop_first());
            assert(b =~= seq![b[0]] + b.drop_first());
        }
    }
}

/// Swapping the arguments swaps `Less` and `Greater`.
pub proof fn lemma_lex_cmp_flip(a: Seq<char>, b: Seq<char>)
    ensures
        (lex_cmp(a, b) == Ordering::Less) <==> (lex_cmp(b, a) == Ordering::Greater),
    decreases a.len(),
{
    if a.len() > 0 && b.len() > 0 && a[0] == b[0] {
        lemma_lex_cmp_flip(a.drop_first(), b.drop_first());
    }
}

/// The order is transitive, and strictly so where either step is strict.
pub proof fn lemma_lex_cmp_trans(a: Seq<char>, b: Seq<char>, c: Seq<char>)
    requires
        lex_le(a, b),
        lex_le(b, c),
    ensures
        lex_le(a, c),
        (lex_cmp(a, b) == Ordering::Less || lex_cmp(b, c) == Ordering::Less) ==> lex_cmp(a, c)
            == Ordering::Less,
    decreases a.len(),
{
    if a.len() > 0 && b.len() > 0 && c.len() > 0 && a[0] == b[0] && b[0] == c[0] {
        lemma_lex_cmp_trans(a.drop_first(), b.drop_first(), c.drop_first());
    }
}

/// The comparison answers `Less` exactly when `a` comes before `b` in
/// dictionary order.
pub proof fn lemma_lex_cmp_less(a: Seq<char>, b: Seq<char>)
    ensures
        (lex_cmp(a, b) == Ordering::Less) <==> seq_less(a, b),
    decreases a.len(),
{
    if a.len() == 0 {
        if b.len() > 0 {
            assert(a =~= b.take(0));
        }
    } else if b.len() == 0 {
    } else if a[0] < b[0] {
        assert(a.take(0) =~= b.take(0));
        assert(seq_less(a, b));
    } else if a[0] > b[0] {
        if seq_less(a, b) {
            if a.len() < b.len() && a == b.take(a.len() as int) {
                assert(a[0] == b.take(a.len() as int)[0]);
            } else {
                let i = choose|i: int|
                    0 <= i < a.len() && i < b.len() && a.take(i) == b.take(i) && #[trigger] a[i]
                        < b[i];
                if i > 0 {
                    assert(a.take(i)[0] == b.take(i)[0]);
                }
            }
        }
    } else {
        let (x, y) = (a.drop_first(), b.drop_first());
        lemma_lex_cmp_less(x, y);
        if seq_less(x, y) {
            if x.len() < y.len() && x == y.take(x.len() as int) {
                assert(a =~= seq![a[0]] + x);
                assert(b.take(a.len() as int) =~= seq![b[0]] + y.take(x.len() as int));
            } else {
                let j = choose|j: int|
                    0 <= j < x.len() && j < y.len() && x.take(j) == y.take(j) && #[trigger] x[j]
                        < y[j];
                assert(a.take(j + 1) =~= seq![a[0]] + x.take(j));
                assert(b.take(j + 1) =~= seq![b[0]] + y.take(j));
                assert(a[j + 1] < b[j + 1]);
            }
        }
        if seq_less(a, b) {
            if a.len() < b.len() && a == b.take(a.len() as int) {
                assert(x =~= y.take(x.len() as int));
            } else {
                let i = choose|i: int|
                    0 <= i < a.len() && i < b.len() && a.take(i) == b.take(i) && #[trigger] a[i]
                        < b[i];
                if i == 0 {
                } else {
                    assert(x.take(i - 1) =~= a.take(i).drop_first());
                    assert(y.take(i - 1) =~= b.take(i).drop_first());
                    assert(x[i - 1] < y[i - 1]);
                }
            }
        }
    }
}

} // verus!
