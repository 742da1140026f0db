//! Laws that relate the list operations to one another, stated over the
//! spec functions that the operations' contracts use.
use crate::list::{
    compare_spec, equals_spec, get_spec, hashes_spec, slice_spec, splice_ok, splice_spec, List, K,
};
use crate::terms::{well_behaved, TermOps};
use vstd::prelude::*;

verus! {

/// Indexing a concatenation reads the first list below its length and the
/// second list, shifted by that length, above it.
pub proof fn law_concat_get(a: &List, b: &List, i: int)
    requires
        0 <= i < a@.len() + b@.len(),
    ensures
        i < a@.len() ==> get_spec(a@ + b@, i) == get_spec(a@, i),
        a@.len() <= i ==> get_spec(a@ + b@, i) == get_spec(b@, i - a@.len()),
{
}

/// After an update the position holds the new element, and every other
/// non-negative index reads what it read before.
pub proof fn law_update_get(l: &List, i: int, e: K, j: int)
    requires
        0 <= i < l@.len(),
        0 <= j,
        j != i,
    ensures
        get_spec(l@.update(i, e), i) == Some(e),
        get_spec(l@.update(i, e), j) == get_spec(l@, j),
{
}

/// Splicing a list's own slice back in at the place it was cut from gives
/// the list back.
pub proof fn law_splice_own_slice(l: &List, i: int, n: int)
    requires
        0 <= i,
        0 <= n,
        i + n <= l@.len(),
    ensures
        i + (l@.len() - i - n) <= l@.len(),
        slice_spec(l@, i, l@.len() - i - n).len() == n,
        splice_ok(l@.len() as int, i, n),
        splice_spec(l@, i, slice_spec(l@, i, l@.len() - i - n)) == l@,
{
    let source = slice_spec(l@, i, l@.len() - i - n);
    if n > 0 {
        assert(l@.subrange(0, i) + source + l@.subrange(i + n, l@.len() as int) =~= l@);
    }
}

/// Equality of lists is reflexive, symmetric and transitive when equality
/// of terms is.
pub proof fn law_equals_equivalence<T: TermOps>(ops: &T, a: &List, b: &List, c: &List)
    requires
        well_behaved(ops),
    ensures
        equals_spec(ops, a@, a@),
        equals_spec(ops, a@, b@) ==> equals_spec(ops, b@, a@),
        equals_spec(ops, a@, b@) && equals_spec(ops, b@, c@) ==> equals_spec(ops, a@, c@),
{
    assert forall|j: int| 0 <= j < a@.len() implies ops.term_eq(#[trigger] a@[j], a@[j]) by {}
    if equals_spec(ops, a@, b@) {
        assert forall|j: int| 0 <= j < b@.len() implies ops.term_eq(#[trigger] b@[j], a@[j]) by {
            assert(ops.term_eq(a@[j], b@[j]));
        }
    }
    if equals_spec(ops, a@, b@) && equals_spec(ops, b@, c@) {
        assert forall|j: int| 0 <= j < a@.len() implies ops.term_eq(#[trigger] a@[j], c@[j]) by {
            assert(ops.term_eq(a@[j], b@[j]));
            assert(ops.term_eq(b@[j], c@[j]));
        }
    }
}

/// The order says "equal" exactly when the lists are equal.
pub proof fn law_compare_equal<T: TermOps>(ops: &T, a: &List, b: &List)
    requires
        well_behaved(ops),
    ensures
        (compare_spec(ops, a@, b@) == 0) == equals_spec(ops, a@, b@),
{
    lemma_compare_zero(ops, a@, b@);
}

proof fn lemma_compare_zero<T: TermOps>(ops: &T, a: Seq<K>, b: Seq<K>)
    requires
        well_behaved(ops),
    ensures
        (compare_spec(ops, a, b) == 0) == equals_spec(ops, a, b),
    decreases a.len(),
{
    if a.len() > 0 && b.len() > 0 {
        let (ta, tb) = (a.drop_first(), b.drop_first());
        lemma_compare_zero(ops, ta, tb);
        if ops.term_cmp(a[0], b[0]) == 0 {
            assert(ops.term_eq(a[0], b[0]));
            if equals_spec(ops, ta, tb) {
                assert forall|j: int| 0 <= j < a.len() implies ops.term_eq(
                    #[trigger] a[j],
                    b[j],
                ) by {
                    if j > 0 {
                        assert(ops.term_eq(ta[j - 1], tb[j - 1]));
                    }
                }
            }
            if equals_spec(ops, a, b) {
                assert forall|j: int| 0 <= j < ta.len() implies ops.term_eq(
                    #[trigger] ta[j],
                    tb[j],
                ) by {
                    assert(ops.term_eq(a[j + 1], b[j + 1]));
                }
            }
        } else {
            assert(!ops.term_eq(a[0], b[0]));
        }
    } else if a.len() != b.len() {
        assert(!equals_spec(ops, a, b));
    }
}

/// Equal lists give the same element hashes in the same order, so they fold
/// to the same hash from the same accumulator.
pub proof fn law_equal_lists_hash_alike<T: TermOps>(ops: &T, a: &List, b: &List)
    requires
        well_behaved(ops),
        equals_spec(ops, a@, b@),
    ensures
        hashes_spec(ops, a@) == hashes_spec(ops, b@),
{
    assert forall|j: int| 0 <= j < a@.len() implies #[trigger] hashes_spec(ops, a@)[j]
        == hashes_spec(ops, b@)[j] by {
        assert(ops.term_eq(a@[j], b@[j]));
    }
    assert(hashes_spec(ops, a@) =~= hashes_spec(ops, b@));
}

/// Trimming nothing keeps the list; trimming its whole length from the
/// front leaves the empty list.
pub proof fn law_slice_bounds(l: &List)
    ensures
        slice_spec(l@, 0, 0) == l@,
        slice_spec(l@, l@.len() as int, 0) == Seq::<K>::empty(),
{
    assert(l@.subrange(0, l@.len() as int) =~= l@);
    assert(l@.subrange(l@.len() as int, l@.len() as int) =~= Seq::<K>::empty());
}

} // verus!
