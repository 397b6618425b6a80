//! Exact rationals for frame rates and time bases.

use vstd::prelude::*;

verus! {

/// A rational number kept as the pair it was given as, never reduced and
/// never turned into a float.
#[derive(Clone, Copy, Debug, PartialEq, Eq, Structural)]
pub struct Rational {
    pub num: i32,
    pub den: i32,
}

impl Rational {
    /// The rational `num / den`.
    pub fn new(num: i32, den: i32) -> (r: Rational)
        ensures
            r == (Rational { num, den }),
    {
        Rational { num, den }
    }

    /// The numerator.
    pub fn numerator(&self) -> (n: i32)
        ensures
            n == self.num,
    {
        self.num
    }

    /// The denominator.
    pub fn denominator(&self) -> (d: i32)
        ensures
            d == self.den,
    {
        self.den
    }

    /// The reciprocal: numerator and denominator swapped.
    pub open spec fn spec_inverse(self) -> Rational {
        Rational { num: self.den, den: self.num }
    }

    /// The reciprocal, which turns a frame rate into the duration of one
    /// frame. The pair is swapped as it is; a zero numerator becomes a zero
    /// denominator.
    pub fn inverse(&self) -> (r: Rational)
        ensures
            r == self.spec_inverse(),
    {
        Rational { num: self.den, den: self.num }
    }
}

} // verus!
