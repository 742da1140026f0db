//! Arbitrary-precision integers as the list operations read them: a sign and a
//! magnitude in machine-word limbs, least significant first.
use vstd::prelude::*;

verus! {

/// One more than the largest machine word: the base of the limbs.
pub open spec fn limb_base() -> int {
    usize::MAX as int + 1
}

/// The magnitude that a sequence of limbs denotes, least significant first.
pub open spec fn limbs_value(s: Seq<usize>) -> int
    decreases s.len(),
{
    if s.len() == 0 {
        0
    } else {
        s[0] as int + limb_base() * limbs_value(s.drop_first())
    }
}

/// An integer of any size. Zero has no limbs and no sign; otherwise the most
/// significant limb is not zero.
pub struct Int {
    negative: bool,
    limbs: Vec<usize>,
}

impl View for Int {
    type V = int;

    closed spec fn view(&self) -> int {
        if self.negative {
            -limbs_value(self.limbs@)
        } else {
            limbs_value(self.limbs@)
        }
    }
}

proof fn lemma_limbs_value_nonneg(s: Seq<usize>)
    ensures
        limbs_value(s) >= 0,
    decreases s.len(),
{
    if s.len() > 0 {
        lemma_limbs_value_nonneg(s.drop_first());
        assert(limb_base() * limbs_value(s.drop_first()) >= 0) by (nonlinear_arith)
            requires
                limb_base() > 0,
                limbs_value(s.drop_first()) >= 0,
        ;
    }
}

/// Limbs whose most significant one is not zero denote at least one, and at
/// least the base when there are two or more of them.
proof fn lemma_limbs_value_normalized(s: Seq<usize>)
    requires
        s.len() > 0,
        s.last() != 0,
    ensures
        limbs_value(s) >= 1,
        s.len() >= 2 ==> limbs_value(s) >= limb_base(),
    decreases s.len(),
{
    let rest = s.drop_first();
    lemma_limbs_value_nonneg(rest);
    if s.len() == 1 {
        assert(limbs_value(rest) == 0);
    } else {
        assert(rest.last() == s.last());
        lemma_limbs_value_normalized(rest);
        assert(limb_base() * limbs_value(rest) >= limb_base()) by (nonlinear_arith)
            requires
                limb_base() > 0,
                limbs_value(rest) >= 1,
        ;
    }
}

proof fn lemma_single_limb(s: Seq<usize>)
    requires
        s.len() == 1,
    ensures
        limbs_value(s) == s[0] as int,
{
    assert(limbs_value(s.drop_first()) == 0);
}

impl Int {
    #[verifier::type_invariant]
    spec fn normalized(self) -> bool {
        &&& (self.limbs.len() == 0 ==> !self.negative)
        &&& (self.limbs.len() > 0 ==> self.limbs@.last() != 0)
    }

    /// The integer `0`.
    pub fn zero() -> (r: Int)
        ensures
            r@ == 0,
    {
        Int { negative: false, limbs: Vec::new() }
    }

    /// The integer with the value of a machine word.
    pub fn from_usize(u: usize) -> (r: Int)
        ensures
            r@ == u as int,
    {
        let mut limbs: Vec<usize> = Vec::new();
        if u != 0 {
            limbs.push(u);
            proof {
                lemma_single_limb(limbs@);
            }
        }
        Int { negative: false, limbs }
    }

    /// The integer with the value of a signed machine word.
    pub fn from_isize(i: isize) -> (r: Int)
        ensures
            r@ == i as int,
    {
        if i >= 0 {
            Int::from_usize(i as usize)
        } else {
            let magnitude: usize = if i == isize::MIN {
                (isize::MAX as usize) + 1
            } else {
                (-i) as usize
            };
            let mut limbs: Vec<usize> = Vec::new();
            limbs.push(magnitude);
            proof {
                lemma_single_limb(limbs@);
            }
            Int { negative: true, limbs }
        }
    }

    /// The integer with the given sign and magnitude, the magnitude in limbs
    /// least significant first. Zero limbs at the top are dropped, and zero is
    /// never negative.
    pub fn from_limbs(negative: bool, limbs: Vec<usize>) -> (r: Int)
        ensures
            r@ == if negative {
                -limbs_value(limbs@)
            } else {
                limbs_value(limbs@)
            },
    {
        let mut limbs = limbs;
        let ghost original = limbs@;
        while limbs.len() > 0 && limbs[limbs.len() - 1] == 0
            invariant
                limbs_value(limbs@) == limbs_value(original),
            decreases limbs.len(),
        {
            let ghost before = limbs@;
            limbs.pop();
            proof {
                lemma_drop_top_zero(before);
                assert(before.drop_last() == limbs@);
            }
        }
        let negative = negative && limbs.len() > 0;
        proof {
            if limbs.len() == 0 {
                assert(limbs_value(limbs@) == 0);
            }
        }
        Int { negative, limbs }
    }

    /// Whether the value fits an unsigned machine word.
    pub fn fits_ulong(&self) -> (r: bool)
        ensures
            r == (0 <= self@ <= usize::MAX),
    {
        proof {
            use_type_invariant(self);
            if self.limbs.len() > 0 {
                lemma_limbs_value_normalized(self.limbs@);
            }
            if self.limbs.len() == 1 {
                lemma_single_limb(self.limbs@);
            }
        }
        !self.negative && self.limbs.len() <= 1
    }

    /// Whether the value fits a signed machine word.
    pub fn fits_slong(&self) -> (r: bool)
        ensures
            r == (isize::MIN <= self@ <= isize::MAX),
    {
        proof {
            use_type_invariant(self);
            if self.limbs.len() > 0 {
                lemma_limbs_value_normalized(self.limbs@);
            }
            if self.limbs.len() == 1 {
                lemma_single_limb(self.limbs@);
            }
        }
        if self.limbs.len() == 0 {
            true
        } else if self.limbs.len() > 1 {
            false
        } else if self.negative {
            self.limbs[0] <= (isize::MAX as usize) + 1
        } else {
            self.limbs[0] <= isize::MAX as usize
        }
    }

    /// The value as an unsigned machine word.
    pub fn get_ui(&self) -> (r: usize)
        requires
            0 <= self@ <= usize::MAX,
        ensures
            r as int == self@,
    {
        proof {
            use_type_invariant(self);
            if self.limbs.len() > 0 {
                lemma_limbs_value_normalized(self.limbs@);
            }
            if self.limbs.len() == 1 {
                lemma_single_limb(self.limbs@);
            }
        }
        if self.limbs.len() == 0 {
            0
        } else {
            self.limbs[0]
        }
    }

    /// The value as a signed machine word.
    pub fn get_si(&self) -> (r: isize)
        requires
            isize::MIN <= self@ <= isize::MAX,
        ensures
            r as int == self@,
    {
        proof {
            use_type_invariant(self);
            if self.limbs.len() > 0 {
                lemma_limbs_value_normalized(self.limbs@);
            }
            if self.limbs.len() == 1 {
                lemma_single_limb(self.limbs@);
            }
        }
        if self.limbs.len() == 0 {
            0
        } else if !self.negative {
            self.limbs[0] as isize
        } else if self.limbs[0] == (isize::MAX as usize) + 1 {
            isize::MIN
        } else {
            -(self.limbs[0] as isize)
        }
    }

    /// The sign of the value minus `u`: `-1`, `0` or `1`.
    pub fn cmp_ui(&self, u: usize) -> (r: i32)
        ensures
            r == if self@ < u as int {
                -1i32
            } else if self@ == u as int {
                0i32
            } else {
                1i32
            },
    {
        proof {
            use_type_invariant(self);
            if self.limbs.len() > 0 {
                lemma_limbs_value_normalized(self.limbs@);
            }
            if self.limbs.len() == 1 {
                lemma_single_limb(self.limbs@);
            }
        }
        if self.negative {
            -1
        } else if self.limbs.len() > 1 {
            1
        } else {
            let m: usize = if self.limbs.len() == 0 {
                0
            } else {
                self.limbs[0]
            };
            if m < u {
                -1
            } else if m == u {
                0
            } else {
                1
            }
        }
    }
}

/// A zero limb at the top adds nothing to the magnitude.
proof fn lemma_drop_top_zero(s: Seq<usize>)
    requires
        s.len() > 0,
        s.last() == 0,
    ensures
        limbs_value(s.drop_last()) == limbs_value(s),
    decreases s.len(),
{
    if s.len() == 1 {
        assert(limbs_value(s.drop_last()) == 0);
        lemma_single_limb(s);
    } else {
        let rest = s.drop_first();
        lemma_drop_top_zero(rest);
        assert(rest.drop_last() == s.drop_last().drop_first());
    }
}

} // verus!
