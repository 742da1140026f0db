//! The persistent sequence: an immutable vector shared by reference count.
//! Cloning a list shares its storage; every operation that derives a list
//! builds a new one and leaves its arguments as they were.
use std::rc::Rc;
use crate::terms::TermOps;
use vstd::prelude::*;

verus! {

/// A term value held in a list: an opaque handle of the engine. Terms are
/// compared, ordered and hashed through the engine's `TermOps`.
pub type K = u64;

/// The element at `i`, a negative `i` counting from the end (`-1` is the
/// last element); `None` when that position is outside the list.
pub open spec fn get_spec(s: Seq<K>, i: int) -> Option<K> {
    let pos = if i < 0 {
        s.len() + i
    } else {
        i
    };
    if 0 <= pos < s.len() {
        Some(s[pos])
    } else {
        None
    }
}

/// `s` without `front` elements at the front and `back` at the back.
pub open spec fn slice_spec(s: Seq<K>, front: int, back: int) -> Seq<K> {
    s.subrange(front, s.len() - back)
}

/// Whether `source` can be spliced into a list of `len` elements at `i`: it is
/// empty, or its last element lands inside the list.
pub open spec fn splice_ok(len: int, i: int, source_len: int) -> bool {
    source_len == 0 || i + source_len - 1 < len
}

/// `target` with `source` written over it from position `i` on: the first
/// `i` elements of `target`, then `source`, then `target` from
/// `i + source.len()` on. An empty `source` leaves `target` as it is.
pub open spec fn splice_spec(target: Seq<K>, i: int, source: Seq<K>) -> Seq<K> {
    if source.len() == 0 {
        target
    } else {
        target.subrange(0, i) + source + target.subrange(i + source.len(), target.len() as int)
    }
}

/// Whether some element of `s` equals `e` as a term.
pub open spec fn contains_spec<T: TermOps>(ops: &T, s: Seq<K>, e: K) -> bool {
    exists|j: int| 0 <= j < s.len() && ops.term_eq(#[trigger] s[j], e)
}

/// Whether `a` and `b` have the same length and equal terms at each position.
pub open spec fn equals_spec<T: TermOps>(ops: &T, a: Seq<K>, b: Seq<K>) -> bool {
    &&& a.len() == b.len()
    &&& forall|j: int| 0 <= j < a.len() ==> ops.term_eq(#[trigger] a[j], b[j])
}

/// Lexicographic order under the term order: the first position where the
/// terms differ decides; a proper prefix comes first.
pub open spec fn compare_spec<T: TermOps>(ops: &T, a: Seq<K>, b: Seq<K>) -> int
    decreases a.len(),
{
    if a.len() == 0 {
        if b.len() == 0 {
            0
        } else {
            -1
        }
    } else if b.len() == 0 {
        1
    } else if ops.term_cmp(a[0], b[0]) != 0 {
        ops.term_cmp(a[0], b[0]) as int
    } else {
        compare_spec(ops, a.drop_first(), b.drop_first())
    }
}

/// The hash of each element, in order.
pub open spec fn hashes_spec<T: TermOps>(ops: &T, s: Seq<K>) -> Seq<u64> {
    s.map_values(|k: K| ops.term_hash(k))
}

/// Relies on Rc::clone: the new pointer shares the allocation, so it holds
/// the same vector.
#[verifier::external_body]
fn share(items: &Rc<Vec<K>>) -> (r: Rc<Vec<K>>)
    ensures
        r@ == items@,
{
    Rc::clone(items)
}

/// Appends `s[lo..hi]` to `v`.
fn push_range(v: &mut Vec<K>, s: &Vec<K>, lo: usize, hi: usize)
    requires
        lo <= hi <= s@.len(),
    ensures
        final(v)@ == old(v)@ + s@.subrange(lo as int, hi as int),
{
    let mut i: usize = lo;
    while i < hi
        invariant
            lo <= i <= hi <= s@.len(),
            v@ == old(v)@ + s@.subrange(lo as int, i as int),
        decreases hi - i,
    {
        v.push(s[i]);
        i += 1;
        assert(v@ == old(v)@ + s@.subrange(lo as int, i as int));
    }
}

/// An immutable sequence of terms. Clones share storage.
pub struct List {
    items: Rc<Vec<K>>,
}

impl View for List {
    type V = Seq<K>;

    closed spec fn view(&self) -> Seq<K> {
        self.items@
    }
}

impl Clone for List {
    fn clone(&self) -> (r: List)
        ensures
            r@ == self@,
    {
        proof {
            use_type_invariant(self);
        }
        List { items: share(&self.items) }
    }
}

impl List {
    /// A list never holds more elements than a machine word can count.
    #[verifier::type_invariant]
    pub open spec fn len_fits(self) -> bool {
        self@.len() <= usize::MAX
    }

    /// The empty list.
    pub fn new() -> (r: List)
        ensures
            r@ == Seq::<K>::empty(),
    {
        List::from_vec(Vec::new())
    }

    /// The list of one element.
    pub fn singleton(e: K) -> (r: List)
        ensures
            r@ == seq![e],
    {
        let mut v: Vec<K> = Vec::new();
        v.push(e);
        List::from_vec(v)
    }

    /// The list of the elements of `v`, in order.
    pub fn from_vec(v: Vec<K>) -> (r: List)
        ensures
            r@ == v@,
    {
        // Reading the length establishes that it fits a machine word.
        let _n: usize = v.len();
        List { items: Rc::new(v) }
    }

    /// The elements, in order, in a vector of their own.
    pub fn to_vec(&self) -> (r: Vec<K>)
        ensures
            r@ == self@,
    {
        let mut v: Vec<K> = Vec::new();
        push_range(&mut v, &self.items, 0, self.items.len());
        assert(self@.subrange(0, self@.len() as int) == self@);
        v
    }

    /// The number of elements.
    pub fn len(&self) -> (r: usize)
        ensures
            r == self@.len(),
    {
        self.items.len()
    }

    /// The element at position `i`.
    pub fn at(&self, i: usize) -> (r: K)
        requires
            i < self@.len(),
        ensures
            r == self@[i as int],
    {
        self.items[i]
    }

    /// The elements of `self` followed by those of `other`.
    pub fn concat(&self, other: &List) -> (r: List)
        ensures
            r@ == self@ + other@,
    {
        let mut v: Vec<K> = Vec::new();
        push_range(&mut v, &self.items, 0, self.items.len());
        push_range(&mut v, &other.items, 0, other.items.len());
        assert(self@.subrange(0, self@.len() as int) == self@);
        assert(other@.subrange(0, other@.len() as int) == other@);
        List::from_vec(v)
    }

    /// Whether some element equals `e` as a term.
    pub fn contains<T: TermOps>(&self, ops: &T, e: K) -> (r: bool)
        ensures
            r == contains_spec(ops, self@, e),
    {
        let mut i: usize = 0;
        while i < self.items.len()
            invariant
                i <= self@.len(),
                forall|j: int| 0 <= j < i ==> !ops.term_eq(#[trigger] self@[j], e),
            decreases self@.len() - i,
        {
            if ops.eq(self.items[i], e) {
                assert(ops.term_eq(self@[i as int], e));
                return true;
            }
            i += 1;
        }
        false
    }

    /// The element at `i`, a negative `i` counting from the end; `None` when
    /// that position is outside the list.
    pub fn get(&self, i: isize) -> (r: Option<K>)
        ensures
            r == get_spec(self@, i as int),
    {
        let len = self.items.len();
        if i >= 0 {
            let p = i as usize;
            if p < len {
                Some(self.items[p])
            } else {
                None
            }
        } else {
            let back = if i == isize::MIN {
                (isize::MAX as usize) + 1
            } else {
                (-i) as usize
            };
            if back <= len {
                Some(self.items[len - back])
            } else {
                None
            }
        }
    }

    /// The list of `n` copies of `e`.
    pub fn replicate(n: usize, e: K) -> (r: List)
        ensures
            r@ == Seq::new(n as nat, |_j: int| e),
    {
        let mut v: Vec<K> = Vec::new();
        let mut i: usize = 0;
        while i < n
            invariant
                i <= n,
                v@ == Seq::new(i as nat, |_j: int| e),
            decreases n - i,
        {
            v.push(e);
            i += 1;
            assert(v@ == Seq::new(i as nat, |_j: int| e));
        }
        List::from_vec(v)
    }

    /// The list without `front` elements at the front and `back` at the
    /// back; `None` when that is more than it holds.
    pub fn slice(&self, front: usize, back: usize) -> (r: Option<List>)
        ensures
            r.is_some() == (front + back <= self@.len()),
            r matches Some(l) ==> l@ == slice_spec(self@, front as int, back as int),
    {
        let len = self.items.len();
        if front > len || back > len - front {
            return None;
        }
        let mut v: Vec<K> = Vec::new();
        push_range(&mut v, &self.items, front, len - back);
        Some(List::from_vec(v))
    }

    /// The list with the element at `i` replaced by `e`; `None` when `i` is
    /// not a position of the list.
    pub fn update(&self, i: usize, e: K) -> (r: Option<List>)
        ensures
            r.is_some() == (i < self@.len()),
            r matches Some(l) ==> l@ == self@.update(i as int, e),
    {
        if i >= self.items.len() {
            return None;
        }
        let mut v = self.to_vec();
        v.set(i, e);
        Some(List::from_vec(v))
    }

    /// `source` written over the list from position `i` on; `None` unless
    /// `source` is empty or ends inside the list.
    pub fn update_all(&self, i: usize, source: &List) -> (r: Option<List>)
        ensures
            r.is_some() == splice_ok(self@.len() as int, i as int, source@.len() as int),
            r matches Some(l) ==> l@ == splice_spec(self@, i as int, source@),
    {
        let len = self.items.len();
        let n = source.items.len();
        if n == 0 {
            return Some(self.clone());
        }
        if i >= len || n - 1 >= len - i {
            return None;
        }
        let mut v: Vec<K> = Vec::new();
        push_range(&mut v, &self.items, 0, i);
        push_range(&mut v, &source.items, 0, n);
        push_range(&mut v, &self.items, i + n, len);
        assert(source@.subrange(0, n as int) == source@);
        Some(List::from_vec(v))
    }

    /// Whether the two lists have the same length and equal terms at each
    /// position.
    pub fn equals<T: TermOps>(&self, ops: &T, other: &List) -> (r: bool)
        ensures
            r == equals_spec(ops, self@, other@),
    {
        if self.items.len() != other.items.len() {
            return false;
        }
        let mut i: usize = 0;
        while i < self.items.len()
            invariant
                i <= self@.len(),
                self@.len() == other@.len(),
                forall|j: int| 0 <= j < i ==> ops.term_eq(#[trigger] self@[j], other@[j]),
            decreases self@.len() - i,
        {
            if !ops.eq(self.items[i], other.items[i]) {
                return false;
            }
            i += 1;
        }
        true
    }

    /// The order of the two lists: the first position where the terms differ
    /// decides, and a proper prefix comes first.
    pub fn compare<T: TermOps>(&self, ops: &T, other: &List) -> (r: i64)
        ensures
            r as int == compare_spec(ops, self@, other@),
    {
        let mut i: usize = 0;
        assert(self@.skip(0) == self@);
        assert(other@.skip(0) == other@);
        while i < self.items.len() && i < other.items.len()
            invariant
                i <= self@.len(),
                i <= other@.len(),
                compare_spec(ops, self@, other@) == compare_spec(
                    ops,
                    self@.skip(i as int),
                    other@.skip(i as int),
                ),
            decreases self@.len() - i,
        {
            let c = ops.cmp(self.items[i], other.items[i]);
            if c != 0 {
                return c;
            }
            proof {
                assert(self@.skip(i as int).drop_first() == self@.skip(i + 1));
                assert(other@.skip(i as int).drop_first() == other@.skip(i + 1));
            }
            i += 1;
        }
        if i < self.items.len() {
            1
        } else if i < other.items.len() {
            -1
        } else {
            0
        }
    }

    /// The hash of each element, in order, for the caller to feed into its
    /// accumulator.
    pub fn element_hashes<T: TermOps>(&self, ops: &T) -> (r: Vec<u64>)
        ensures
            r@ == hashes_spec(ops, self@),
    {
        let mut out: Vec<u64> = Vec::new();
        let mut i: usize = 0;
        while i < self.items.len()
            invariant
                i <= self@.len(),
                out@ == hashes_spec(ops, self@.take(i as int)),
            decreases self@.len() - i,
        {
            out.push(ops.hash(self.items[i]));
            i += 1;
            assert(out@ == hashes_spec(ops, self@.take(i as int)));
        }
        assert(self@.take(self@.len() as int) == self@);
        out
    }
}

} // verus!
