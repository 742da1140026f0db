//! The services that the engine gives for its terms: equality, order and
//! hash. The list operations that compare or hash elements go through them.
use crate::list::K;
use vstd::prelude::*;

verus! {

/// Equality, order and hash of terms, as the engine defines them. Each
/// spec function names what the method of the same service returns.
pub trait TermOps {
    /// Whether two terms are equal.
    spec fn term_eq(&self, a: K, b: K) -> bool;

    /// The order of two terms: `-1`, `0` or `1`.
    spec fn term_cmp(&self, a: K, b: K) -> i64;

    /// The hash of a term.
    spec fn term_hash(&self, a: K) -> u64;

    fn eq(&self, a: K, b: K) -> (r: bool)
        ensures
            r == self.term_eq(a, b),
    ;

    fn cmp(&self, a: K, b: K) -> (r: i64)
        ensures
            r == self.term_cmp(a, b),
    ;

    fn hash(&self, a: K) -> (r: u64)
        ensures
            r == self.term_hash(a),
    ;
}

/// Term services that behave as the list laws need: equality is an
/// equivalence, the order says "equal" exactly for equal terms and is
/// otherwise `-1` or `1`, and equal terms hash alike.
pub open spec fn well_behaved<T: TermOps>(ops: &T) -> bool {
    &&& forall|a: K| #[trigger] ops.term_eq(a, a)
    &&& forall|a: K, b: K| #[trigger] ops.term_eq(a, b) ==> ops.term_eq(b, a)
    &&& forall|a: K, b: K, c: K|
        #[trigger] ops.term_eq(a, b) && #[trigger] ops.term_eq(b, c) ==> ops.term_eq(a, c)
    &&& forall|a: K, b: K| (#[trigger] ops.term_cmp(a, b) == 0) == ops.term_eq(a, b)
    &&& forall|a: K, b: K|
        #![trigger ops.term_cmp(a, b)]
        ops.term_cmp(a, b) == -1 || ops.term_cmp(a, b) == 0 || ops.term_cmp(a, b) == 1
    &&& forall|a: K, b: K| #[trigger] ops.term_eq(a, b) ==> ops.term_hash(a) == ops.term_hash(b)
}

/// Terms that are equal exactly when their handles are, for an engine whose
/// terms are shared so that each value has one handle: ordered by handle,
/// hashed as the handle.
pub struct HandleTerms;

impl TermOps for HandleTerms {
    open spec fn term_eq(&self, a: K, b: K) -> bool {
        a == b
    }

    open spec fn term_cmp(&self, a: K, b: K) -> i64 {
        if a < b {
            -1i64
        } else if a == b {
            0i64
        } else {
            1i64
        }
    }

    open spec fn term_hash(&self, a: K) -> u64 {
        a
    }

    fn eq(&self, a: K, b: K) -> (r: bool) {
        a == b
    }

    fn cmp(&self, a: K, b: K) -> (r: i64) {
        if a < b {
            -1
        } else if a == b {
            0
        } else {
            1
        }
    }

    fn hash(&self, a: K) -> (r: u64) {
        a
    }
}

/// Handle identity is well behaved.
pub proof fn lemma_handle_terms_well_behaved(ops: &HandleTerms)
    ensures
        well_behaved(ops),
{
}

} // verus!
