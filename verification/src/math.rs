//! Exact fractions for threshold and quorum rules.
//!
//! A percentage is a rational number; all comparisons the evaluator makes
//! are exact cross-multiplications carried out in 128-bit integers, so no
//! rounding ever enters a pass/fail decision.

use vstd::prelude::*;

verus! {

/// A non-negative rational number with a positive denominator.
///
/// The numerator and denominator are kept small enough that any product
/// with a 64-bit weight fits comfortably in 128 bits.
#[derive(Clone, Copy, Debug, PartialEq, Eq, Structural)]
pub struct Fraction {
    pub numerator: u32,
    pub denominator: u32,
}

impl Fraction {
    /// Whether the fraction is usable at all: the denominator is positive.
    pub open spec fn well_formed(self) -> bool {
        self.denominator > 0
    }

    /// Whether the fraction is a valid vote share: `0 < self <= 1`.
    pub open spec fn valid_share(self) -> bool {
        &&& 0 < self.numerator
        &&& self.numerator <= self.denominator
    }

    /// The fraction `p / 100`.
    pub fn percent(p: u32) -> (r: Fraction)
        ensures
            r.numerator == p,
            r.denominator == 100,
            r.well_formed(),
    {
        Fraction { numerator: p, denominator: 100 }
    }

    /// Whether `0 < self <= 1`, decided exactly.
    pub fn is_valid_share(&self) -> (r: bool)
        ensures
            r == self.valid_share(),
    {
        0 < self.numerator && self.numerator <= self.denominator
    }
}

/// A product of two bounded non-negative factors stays within the product
/// of the bounds.
pub proof fn lemma_mul_fits(a: int, b: int, abound: int, bbound: int)
    requires
        0 <= a <= abound,
        0 <= b <= bbound,
    ensures
        0 <= a * b <= abound * bbound,
{
    vstd::arithmetic::mul::lemma_mul_upper_bound(a, abound, b, bbound);
    vstd::arithmetic::mul::lemma_mul_nonnegative(a, b);
}

} // verus!
