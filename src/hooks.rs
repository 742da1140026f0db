//! The entry points that generated code calls for the List sort. Each one
//! resolves its integer arguments to machine words, checks bounds, and hands
//! over to the sequence core. A bound that fails gives `IndexOutOfRange`.
#![allow(non_snake_case)]

use crate::bigint::Int;
use crate::list::{
    compare_spec, contains_spec, equals_spec, get_spec, hashes_spec, slice_spec, splice_ok,
    splice_spec, List, K,
};
use crate::terms::TermOps;
use vstd::prelude::*;

verus! {

/// An index, a trim count or a splice bound that does not fit its machine
/// word or falls outside the list.
#[derive(Clone, Copy, Debug, PartialEq, Eq, Structural)]
pub struct IndexOutOfRange;

impl IndexOutOfRange {
    /// The diagnostic that goes with the error.
    pub fn message(&self) -> (r: &'static str)
        ensures
            r@ == "Index out of range"@,
    {
        "Index out of range"
    }
}

/// The element that an arbitrary-precision index designates: it must fit a
/// signed machine word, and a negative one counts from the end.
pub open spec fn index_get_spec(s: Seq<K>, i: int) -> Option<K> {
    if isize::MIN <= i <= isize::MAX {
        get_spec(s, i)
    } else {
        None
    }
}

/// The index as an unsigned machine word, with whether it fits one; `0`
/// when it does not.
pub fn get_long(i: &Int) -> (r: (bool, usize))
    ensures
        r.0 == (0 <= i@ <= usize::MAX),
        r.0 ==> r.1 as int == i@,
        !r.0 ==> r.1 == 0,
{
    if !i.fits_ulong() {
        return (false, 0);
    }
    (true, i.get_ui())
}

/// The index as a signed machine word, with whether it fits one; `0` when
/// it does not.
pub fn get_slong(i: &Int) -> (r: (bool, isize))
    ensures
        r.0 == (isize::MIN <= i@ <= isize::MAX),
        r.0 ==> r.1 as int == i@,
        !r.0 ==> r.1 == 0,
{
    if !i.fits_slong() {
        return (false, 0);
    }
    (true, i.get_si())
}

/// The number of bytes that a list value takes.
pub fn size_list() -> (r: usize)
    ensures
        r as int == vstd::layout::size_of::<List>(),
{
    core::mem::size_of::<List>()
}

/// The empty list.
pub fn hook_LIST_unit() -> (r: List)
    ensures
        r@ == Seq::<K>::empty(),
{
    List::new()
}

/// The order of two lists: `-1`, `0` or `1`.
pub fn hook_LIST_cmp<T: TermOps>(a: &List, b: &List, ops: &T) -> (r: i64)
    ensures
        r as int == compare_spec(ops, a@, b@),
{
    a.compare(ops, b)
}

/// The list of the one element `value`.
pub fn hook_LIST_element(value: K) -> (r: List)
    ensures
        r@ == seq![value],
{
    List::singleton(value)
}

/// The elements of `l1` followed by those of `l2`.
pub fn hook_LIST_concat(l1: &List, l2: &List) -> (r: List)
    ensures
        r@ == l1@ + l2@,
{
    l1.concat(l2)
}

/// Whether some element of `list` equals `value` as a term.
pub fn hook_LIST_in<T: TermOps>(value: K, list: &List, ops: &T) -> (r: bool)
    ensures
        r == contains_spec(ops, list@, value),
{
    list.contains(ops, value)
}

/// Whether `index` is a position of `list`. An index that is negative or
/// too large for a machine word is no position.
pub fn hook_LIST_in_keys(index: &Int, list: &List) -> (r: bool)
    ensures
        r == (0 <= index@ < list@.len()),
{
    proof {
        use_type_invariant(list);
    }
    let (status, index_long) = get_long(index);
    status && index_long < list.len()
}

/// The element at `index`, a negative index counting from the end.
pub fn hook_LIST_get(list: &List, index: &Int) -> (r: Result<K, IndexOutOfRange>)
    ensures
        r is Ok == index_get_spec(list@, index@) is Some,
        r matches Ok(k) ==> index_get_spec(list@, index@) == Some(k),
{
    let (status, index_long) = get_slong(index);
    if !status {
        return Err(IndexOutOfRange);
    }
    hook_LIST_get_long(list, index_long)
}

/// The element at `index`, a negative index counting from the end.
pub fn hook_LIST_get_long(list: &List, index: isize) -> (r: Result<K, IndexOutOfRange>)
    ensures
        r is Ok == get_spec(list@, index as int) is Some,
        r matches Ok(k) ==> get_spec(list@, index as int) == Some(k),
{
    match list.get(index) {
        Some(k) => Ok(k),
        None => Err(IndexOutOfRange),
    }
}

/// The element at `index`, as `hook_LIST_get`.
pub fn hook_LIST_lookup(list: &List, index: &Int) -> (r: Result<K, IndexOutOfRange>)
    ensures
        r is Ok == index_get_spec(list@, index@) is Some,
        r matches Ok(k) ==> index_get_spec(list@, index@) == Some(k),
{
    hook_LIST_get(list, index)
}

/// `list` without `from_front` elements at the front and `from_back` at the
/// back. Both must be non-negative and together at most the length.
pub fn hook_LIST_range(list: &List, from_front: &Int, from_back: &Int) -> (r: Result<
    List,
    IndexOutOfRange,
>)
    ensures
        r is Ok == (0 <= from_front@ && 0 <= from_back@ && from_front@ + from_back@
            <= list@.len()),
        r matches Ok(l) ==> l@ == slice_spec(list@, from_front@, from_back@),
{
    proof {
        use_type_invariant(list);
    }
    let (status, front_long) = get_long(from_front);
    if !status {
        return Err(IndexOutOfRange);
    }
    let (status, back_long) = get_long(from_back);
    if !status {
        return Err(IndexOutOfRange);
    }
    hook_LIST_range_long(list, front_long, back_long)
}

/// `list` without `from_front` elements at the front and `from_back` at the
/// back, which together must be at most the length.
pub fn hook_LIST_range_long(list: &List, from_front: usize, from_back: usize) -> (r: Result<
    List,
    IndexOutOfRange,
>)
    ensures
        r is Ok == (from_front + from_back <= list@.len()),
        r matches Ok(l) ==> l@ == slice_spec(list@, from_front as int, from_back as int),
{
    match list.slice(from_front, from_back) {
        Some(l) => Ok(l),
        None => Err(IndexOutOfRange),
    }
}

/// The length of `l` as an arbitrary-precision integer.
pub fn hook_LIST_size(l: &List) -> (r: Int)
    ensures
        r@ == l@.len(),
{
    Int::from_usize(hook_LIST_size_long(l))
}

/// The length of `l`.
pub fn hook_LIST_size_long(l: &List) -> (r: usize)
    ensures
        r == l@.len(),
{
    l.len()
}

/// The list of `len` copies of `value`; `len` must fit an unsigned machine
/// word.
pub fn hook_LIST_make(len: &Int, value: K) -> (r: Result<List, IndexOutOfRange>)
    ensures
        r is Ok == (0 <= len@ <= usize::MAX),
        r matches Ok(l) ==> l@ == Seq::new(len@ as nat, |_j: int| value),
{
    let (status, len_long) = get_long(len);
    if !status {
        return Err(IndexOutOfRange);
    }
    Ok(List::replicate(len_long, value))
}

/// `list` with the element at `index` replaced by `value`; `index` must be
/// a position of the list.
pub fn hook_LIST_update(list: &List, index: &Int, value: K) -> (r: Result<List, IndexOutOfRange>)
    ensures
        r is Ok == (0 <= index@ < list@.len()),
        r matches Ok(l) ==> l@ == list@.update(index@, value),
{
    proof {
        use_type_invariant(list);
    }
    let (status, index_long) = get_long(index);
    if !status {
        return Err(IndexOutOfRange);
    }
    match list.update(index_long, value) {
        Some(l) => Ok(l),
        None => Err(IndexOutOfRange),
    }
}

/// `l2` written over `l1` from `index` on. `index` must fit an unsigned
/// machine word, and `l2` must be empty or end inside `l1`.
pub fn hook_LIST_updateAll(l1: &List, index: &Int, l2: &List) -> (r: Result<List, IndexOutOfRange>)
    ensures
        r is Ok == (0 <= index@ <= usize::MAX && splice_ok(l1@.len() as int, index@, l2@.len() as int)),
        r matches Ok(l) ==> l@ == splice_spec(l1@, index@, l2@),
{
    let (status, index_long) = get_long(index);
    if !status {
        return Err(IndexOutOfRange);
    }
    match l1.update_all(index_long, l2) {
        Some(l) => Ok(l),
        None => Err(IndexOutOfRange),
    }
}

/// Whether the two lists have equal terms at each position.
pub fn hook_LIST_eq<T: TermOps>(l1: &List, l2: &List, ops: &T) -> (r: bool)
    ensures
        r == equals_spec(ops, l1@, l2@),
{
    l1.equals(ops, l2)
}

/// The hash of each element of `l`, in order: what the caller folds into its
/// hash accumulator, one after the other.
pub fn list_hash<T: TermOps>(l: &List, ops: &T) -> (r: Vec<u64>)
    ensures
        r@ == hashes_spec(ops, l@),
{
    l.element_hashes(ops)
}

} // verus!
