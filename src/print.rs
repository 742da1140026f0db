//! The printed form of a list in the sort's applicative notation, a
//! left-nested chain of concats. The empty list prints as `unit()`; a list
//! of one element `x` as `element(x)`; a longer one as `concat(init,element(y))`
//! with `y` its last element and `init` the elements before it printed the
//! same way: `concat(concat(element(a),element(b)),element(c))`.
//! The library lays out the steps; the caller writes the three symbol names
//! and prints each element with the engine's term printer.
use crate::list::{List, K};
use vstd::prelude::*;

verus! {

/// One step of printing a list.
#[derive(Clone, Copy, Debug, PartialEq, Eq, Structural)]
pub enum PrintStep {
    /// The unit symbol followed by `()`.
    Unit,
    /// The concat symbol followed by `(`.
    OpenConcat,
    /// The element symbol followed by `(`.
    OpenElement,
    /// An element, printed by the engine.
    Value(K),
    /// `)`.
    Close,
    /// `,`.
    Comma,
}

/// The steps that print one element in its wrapper: `element(x)`.
pub open spec fn leaf_steps(x: K) -> Seq<PrintStep> {
    seq![PrintStep::OpenElement, PrintStep::Value(x), PrintStep::Close]
}

/// The steps that print a non-empty list.
pub open spec fn nested_steps(s: Seq<K>) -> Seq<PrintStep>
    decreases s.len(),
{
    if s.len() <= 1 {
        leaf_steps(s[0])
    } else {
        seq![PrintStep::OpenConcat] + nested_steps(s.drop_last()) + seq![PrintStep::Comma]
            + leaf_steps(s.last()) + seq![PrintStep::Close]
    }
}

/// The steps that print a list.
pub open spec fn print_steps_spec(s: Seq<K>) -> Seq<PrintStep> {
    if s.len() == 0 {
        seq![PrintStep::Unit]
    } else {
        nested_steps(s)
    }
}

spec fn openers(n: int) -> Seq<PrintStep> {
    Seq::new(n as nat, |_j: int| PrintStep::OpenConcat)
}

/// What follows each element `x` after the first, up to position `k`:
/// `,element(x))`.
spec fn tails(s: Seq<K>, k: int) -> Seq<PrintStep>
    decreases k,
{
    if k <= 1 {
        Seq::empty()
    } else {
        tails(s, k - 1) + seq![PrintStep::Comma] + leaf_steps(s[k - 1]) + seq![PrintStep::Close]
    }
}

proof fn lemma_tails_prefix(s: Seq<K>, t: Seq<K>, k: int)
    requires
        k <= s.len(),
        k <= t.len(),
        forall|i: int| 0 <= i < k ==> s[i] == t[i],
    ensures
        tails(s, k) == tails(t, k),
    decreases k,
{
    if k > 1 {
        lemma_tails_prefix(s, t, k - 1);
    }
}

/// The nested form equals one concat opening per element after the first,
/// then the first element, then each later element closing one concat.
proof fn lemma_nested_flat(s: Seq<K>)
    requires
        s.len() >= 1,
    ensures
        nested_steps(s) == openers(s.len() - 1) + leaf_steps(s[0]) + tails(s, s.len() as int),
    decreases s.len(),
{
    if s.len() == 1 {
        assert(openers(0) == Seq::<PrintStep>::empty());
        assert(nested_steps(s) == openers(s.len() - 1) + leaf_steps(s[0]) + tails(
            s,
            s.len() as int,
        ));
    } else {
        let t = s.drop_last();
        lemma_nested_flat(t);
        lemma_tails_prefix(s, t, t.len() as int);
        assert(seq![PrintStep::OpenConcat] + openers(t.len() - 1) == openers(s.len() - 1));
        assert(nested_steps(s) == openers(s.len() - 1) + leaf_steps(s[0]) + tails(
            s,
            s.len() as int,
        ));
    }
}

/// The steps that print `list`, in order.
pub fn print_steps(list: &List) -> (r: Vec<PrintStep>)
    ensures
        r@ == print_steps_spec(list@),
{
    let mut out: Vec<PrintStep> = Vec::new();
    let len = list.len();
    if len == 0 {
        out.push(PrintStep::Unit);
        return out;
    }
    let mut j: usize = 0;
    while j + 1 < len
        invariant
            len == list@.len(),
            len >= 1,
            j < len,
            out@ == openers(j as int),
        decreases len - j,
    {
        out.push(PrintStep::OpenConcat);
        j += 1;
        assert(out@ == openers(j as int));
    }
    out.push(PrintStep::OpenElement);
    out.push(PrintStep::Value(list.at(0)));
    out.push(PrintStep::Close);
    let ghost head = out@;
    let mut i: usize = 1;
    while i < len
        invariant
            len == list@.len(),
            1 <= i <= len,
            out@ == head + tails(list@, i as int),
        decreases len - i,
    {
        out.push(PrintStep::Comma);
        out.push(PrintStep::OpenElement);
        out.push(PrintStep::Value(list.at(i)));
        out.push(PrintStep::Close);
        out.push(PrintStep::Close);
        i += 1;
        assert(out@ == head + tails(list@, i as int));
    }
    proof {
        lemma_nested_flat(list@);
    }
    out
}

} // verus!
