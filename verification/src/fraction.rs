//! Exact non-negative fractions, used for positions in beats, durations,
//! progress and accuracy.

use vstd::prelude::*;

verus! {

/// A non-negative fraction `numerator / denominator`.
#[derive(Clone, Copy, Debug, PartialEq, Eq, Structural)]
pub struct Fraction {
    pub numerator: u32,
    pub denominator: u32,
}

impl Fraction {
    /// A fraction is well formed when its denominator is not zero.
    pub open spec fn wf(self) -> bool {
        self.denominator > 0
    }

    /// `self <= other` as rational numbers.
    pub open spec fn le(self, other: Fraction) -> bool {
        self.numerator * other.denominator <= other.numerator * self.denominator
    }

    /// `self < other` as rational numbers.
    pub open spec fn lt(self, other: Fraction) -> bool {
        self.numerator * other.denominator < other.numerator * self.denominator
    }

    /// `self >= p / q` as rational numbers, for `q > 0`.
    pub open spec fn at_least(self, p: int, q: int) -> bool {
        self.numerator * q >= p * self.denominator
    }

    pub fn new(numerator: u32, denominator: u32) -> (r: Fraction)
        ensures
            r.numerator == numerator,
            r.denominator == denominator,
    {
        Fraction { numerator, denominator }
    }

    /// The whole number `n`, as `n / 1`.
    pub fn whole(n: u32) -> (r: Fraction)
        ensures
            r.numerator == n,
            r.denominator == 1,
            r.wf(),
    {
        Fraction { numerator: n, denominator: 1 }
    }

    /// Compares two fractions by cross-multiplication, which is exact.
    pub fn is_le(&self, other: &Fraction) -> (r: bool)
        ensures
            r == self.le(*other),
    {
        proof {
            lemma_product_fits(self.numerator, other.denominator);
            lemma_product_fits(other.numerator, self.denominator);
        }
        let left: u64 = self.numerator as u64 * other.denominator as u64;
        let right: u64 = other.numerator as u64 * self.denominator as u64;
        left <= right
    }

    /// Whether `self` is the smaller fraction.
    pub fn is_lt(&self, other: &Fraction) -> (r: bool)
        ensures
            r == self.lt(*other),
    {
        proof {
            lemma_product_fits(self.numerator, other.denominator);
            lemma_product_fits(other.numerator, self.denominator);
        }
        let left: u64 = self.numerator as u64 * other.denominator as u64;
        let right: u64 = other.numerator as u64 * self.denominator as u64;
        left < right
    }
}

/// The product of two 32-bit numbers fits in 64 bits.
pub proof fn lemma_product_fits(a: u32, b: u32)
    ensures
        0 <= a * b <= u64::MAX,
{
    assert(0 <= a * b <= 0xFFFF_FFFF * 0xFFFF_FFFF) by (nonlinear_arith)
        requires
            0 <= a <= 0xFFFF_FFFF,
            0 <= b <= 0xFFFF_FFFF,
    ;
}

/// The order of well-formed fractions is transitive.
pub proof fn lemma_le_transitive(a: Fraction, b: Fraction, c: Fraction)
    requires
        a.wf(),
        b.wf(),
        c.wf(),
        a.le(b),
        b.le(c),
    ensures
        a.le(c),
{
    let (an, ad) = (a.numerator as int, a.denominator as int);
    let (bn, bd) = (b.numerator as int, b.denominator as int);
    let (cn, cd) = (c.numerator as int, c.denominator as int);
    assert(an * cd <= cn * ad) by (nonlinear_arith)
        requires
            ad > 0,
            bd > 0,
            cd > 0,
            an >= 0,
            bn >= 0,
            cn >= 0,
            an * bd <= bn * ad,
            bn * cd <= cn * bd,
    {
        assert(an * bd * cd <= bn * ad * cd);
        assert(bn * cd * ad <= cn * bd * ad);
        assert(bn * ad * cd == bn * cd * ad);
        assert(an * cd * bd <= cn * ad * bd);
    }
}

} // verus!
