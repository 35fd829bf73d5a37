//! Raw scalar readings, before they are validated into a quantity.

use vstd::prelude::*;

verus! {

/// A raw reading in units of `10^-12`: a finite fixed-point number, an
/// infinity, or no number at all. A finite value whose magnitude is beyond
/// the `i64` range of counts is an infinity of the same sign.
#[derive(Clone, Copy, Debug, PartialEq, Eq, Structural)]
pub enum Scalar {
    /// Not a number.
    Nan,
    /// Positive or negative infinity.
    Infinite { negative: bool },
    /// A finite number, as a count of `10^-12`.
    Finite(i64),
}

impl Scalar {
    /// The reading multiplied by a positive whole factor; a product beyond
    /// the finite range is an infinity of the same sign.
    pub open spec fn spec_times(self, factor: int) -> Scalar {
        match self {
            Scalar::Finite(v) => if i64::MIN <= v * factor <= i64::MAX {
                Scalar::Finite((v * factor) as i64)
            } else {
                Scalar::Infinite { negative: v < 0 }
            },
            other => other,
        }
    }

    /// The reading divided by a positive whole divisor, rounded away from zero.
    pub open spec fn spec_over(self, divisor: int) -> Scalar {
        match self {
            Scalar::Finite(v) => Scalar::Finite(crate::fixed::spec_scale(v as int, 1, divisor) as i64),
            other => other,
        }
    }

    /// Whether the reading is not a number.
    pub fn is_nan(&self) -> (r: bool)
        ensures
            r == (*self == Scalar::Nan),
    {
        match self {
            Scalar::Nan => true,
            _ => false,
        }
    }

    /// Whether the reading is an infinity of either sign.
    pub fn is_infinite(&self) -> (r: bool)
        ensures
            r == (self is Infinite),
    {
        match self {
            Scalar::Infinite { .. } => true,
            _ => false,
        }
    }

    /// Whether the reading is a finite number.
    pub fn is_finite(&self) -> (r: bool)
        ensures
            r == (self is Finite),
    {
        match self {
            Scalar::Finite(_) => true,
            _ => false,
        }
    }

    /// Whether the reading is a number below zero, negative infinity included.
    pub fn is_sign_negative(&self) -> (r: bool)
        ensures
            r == match *self {
                Scalar::Nan => false,
                Scalar::Infinite { negative } => negative,
                Scalar::Finite(v) => v < 0,
            },
    {
        match self {
            Scalar::Nan => false,
            Scalar::Infinite { negative } => *negative,
            Scalar::Finite(v) => *v < 0,
        }
    }

    /// Whether the reading is a number at or above zero, positive infinity included.
    pub fn is_sign_positive(&self) -> (r: bool)
        ensures
            r == match *self {
                Scalar::Nan => false,
                Scalar::Infinite { negative } => !negative,
                Scalar::Finite(v) => v >= 0,
            },
    {
        match self {
            Scalar::Nan => false,
            Scalar::Infinite { negative } => !*negative,
            Scalar::Finite(v) => *v >= 0,
        }
    }

    /// Multiplies the reading by a positive whole factor.
    pub fn times(self, factor: u32) -> (r: Scalar)
        requires
            factor > 0,
        ensures
            r == self.spec_times(factor as int),
    {
        match self {
            Scalar::Finite(v) => {
                assert(-0x8000_0000_0000_0000 * 0x1_0000_0000 <= v * factor
                    <= 0x8000_0000_0000_0000 * 0x1_0000_0000) by (nonlinear_arith)
                    requires
                        -0x8000_0000_0000_0000 <= v < 0x8000_0000_0000_0000,
                        0 < factor < 0x1_0000_0000,
                ;
                let wide: i128 = (v as i128) * (factor as i128);
                if wide < i64::MIN as i128 || wide > i64::MAX as i128 {
                    Scalar::Infinite { negative: v < 0 }
                } else {
                    Scalar::Finite(wide as i64)
                }
            },
            other => other,
        }
    }

    /// Divides the reading by a positive whole divisor, rounding away from zero.
    pub fn over(self, divisor: u32) -> (r: Scalar)
        requires
            divisor > 0,
        ensures
            r == self.spec_over(divisor as int),
    {
        match self {
            Scalar::Finite(v) => {
                assert((v as i128) * 1 == v as int);
                let q: i128 = crate::fixed::scale(v as i128, 1, divisor as u64);
                proof {
                    crate::fixed::lemma_scale_shrinks(v as int, 1, divisor as int);
                }
                Scalar::Finite(q as i64)
            },
            other => other,
        }
    }
}

} // verus!
