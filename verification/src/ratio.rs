use vstd::prelude::*;

verus! {

/// An exact non-negative fraction `num / den`.
///
/// Two values are `==` when they are written the same way; `same_value`
/// compares what they stand for.
#[derive(Clone, Copy, Debug, PartialEq, Eq, Structural)]
pub struct Ratio {
    pub num: u64,
    pub den: u64,
}

/// The product of two fractions, cut off at one.
pub open spec fn unit_product(a: Ratio, b: Ratio) -> Ratio {
    if a.num * b.num >= a.den * b.den {
        Ratio { num: 1, den: 1 }
    } else {
        Ratio { num: (a.num * b.num) as u64, den: (a.den * b.den) as u64 }
    }
}

impl Ratio {
    /// A fraction is well formed when its denominator is not zero.
    pub open spec fn wf(&self) -> bool {
        self.den > 0
    }

    /// `self <= other` as fractions.
    pub open spec fn at_most(&self, other: Ratio) -> bool {
        self.num * other.den <= other.num * self.den
    }

    /// `self == other` as fractions.
    pub open spec fn same_value(&self, other: Ratio) -> bool {
        self.num * other.den == other.num * self.den
    }

    /// The fraction is exactly zero.
    pub open spec fn is_zero(&self) -> bool {
        self.num == 0
    }

    /// The fraction is exactly one.
    pub open spec fn is_one(&self) -> bool {
        self.num == self.den
    }

    /// The fraction lies in the closed interval from zero to one.
    pub open spec fn in_unit(&self) -> bool {
        self.num <= self.den
    }

    /// Both products of `self * factor` fit the machine word.
    pub open spec fn can_scale(&self, factor: Ratio) -> bool {
        &&& self.num * factor.num <= u64::MAX
        &&& self.den * factor.den <= u64::MAX
    }

    /// The fraction `num / den`, or nothing when `den` is zero.
    pub fn new(num: u64, den: u64) -> (result: Option<Ratio>)
        ensures
            den == 0 <==> result.is_none(),
            den != 0 ==> result == Some(Ratio { num, den }),
    {
        if den == 0 {
            None
        } else {
            Some(Ratio { num, den })
        }
    }

    /// The fraction zero.
    pub fn zero() -> (result: Ratio)
        ensures
            result == (Ratio { num: 0, den: 1 }),
    {
        Ratio { num: 0, den: 1 }
    }

    /// The fraction one.
    pub fn one() -> (result: Ratio)
        ensures
            result == (Ratio { num: 1, den: 1 }),
    {
        Ratio { num: 1, den: 1 }
    }

    /// Exactly half of the fraction.
    pub fn halved(self) -> (result: Ratio)
        requires
            self.wf(),
            self.den * 2 <= u64::MAX,
        ensures
            result.wf(),
            result.num == self.num,
            result.den == self.den * 2,
    {
        Ratio { num: self.num, den: self.den * 2 }
    }

    /// `self * factor`, cut off at one.
    pub fn scaled_clamped(self, factor: Ratio) -> (result: Ratio)
        requires
            self.wf(),
            factor.wf(),
            self.can_scale(factor),
        ensures
            result == unit_product(self, factor),
            result.wf(),
            result.in_unit(),
    {
        assert(self.den * factor.den > 0) by (nonlinear_arith)
            requires
                self.den > 0,
                factor.den > 0,
        ;
        let num: u64 = self.num * factor.num;
        let den: u64 = self.den * factor.den;
        if num >= den {
            Ratio { num: 1, den: 1 }
        } else {
            Ratio { num, den }
        }
    }
}

/// Halving is exact: twice the half is the whole, with nothing rounded away.
pub proof fn lemma_half_is_exact(whole: Ratio)
    requires
        whole.wf(),
        whole.den * 2 <= u64::MAX,
    ensures
        ({
            let half = Ratio { num: whole.num, den: (whole.den * 2) as u64 };
            &&& half.wf()
            &&& half.num * whole.den * 2 == whole.num * half.den
            &&& half.at_most(whole)
        }),
{
    let half = Ratio { num: whole.num, den: (whole.den * 2) as u64 };
    assert(half.num * whole.den * 2 == whole.num * (whole.den * 2)) by (nonlinear_arith)
        requires
            half.num == whole.num,
    ;
    assert(whole.num * (whole.den * 2) >= whole.num * whole.den) by (nonlinear_arith)
        requires
            whole.den > 0,
            whole.num >= 0,
    ;
}

} // verus!
