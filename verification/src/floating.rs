//! Binary floating-point numbers, held by their bits and compared as numbers.

use vstd::prelude::*;

verus! {

/// A double-precision number in the IEEE 754 binary interchange format.
#[derive(Clone, Copy, PartialEq, Eq, Structural)]
pub struct Real {
    pub bits: u64,
}

/// The bits of zero.
pub const ZERO_BITS: u64 = 0;

/// The bits of one.
pub const ONE_BITS: u64 = 0x3FF0_0000_0000_0000;

/// The bits of the number nearest to nine tenths.
pub const NINE_TENTHS_BITS: u64 = 0x3FEC_CCCC_CCCC_CCCD;

/// The bits of positive infinity.
pub const INFINITY_BITS: u64 = 0x7FF0_0000_0000_0000;

/// The sign bit.
pub const SIGN_BIT: u64 = 0x8000_0000_0000_0000;

impl Real {
    /// The bits without the sign.
    pub open spec fn magnitude(self) -> int {
        if self.bits >= SIGN_BIT {
            self.bits - SIGN_BIT
        } else {
            self.bits as int
        }
    }

    /// The value is not a number.
    pub open spec fn is_nan(self) -> bool {
        self.magnitude() > INFINITY_BITS
    }

    /// An integer that orders numbers as their values do. The two zeros have
    /// one key.
    pub open spec fn key(self) -> int {
        if self.bits >= SIGN_BIT {
            -self.magnitude()
        } else {
            self.magnitude()
        }
    }

    /// `self` is less than `other` as a number. Nothing is less or greater than
    /// what is not a number.
    pub open spec fn lt(self, other: Real) -> bool {
        !self.is_nan() && !other.is_nan() && self.key() < other.key()
    }

    /// `self` is at most `other` as a number.
    pub open spec fn le(self, other: Real) -> bool {
        !self.is_nan() && !other.is_nan() && self.key() <= other.key()
    }

    fn size(self) -> (r: u64)
        ensures
            r == self.magnitude(),
    {
        if self.bits >= SIGN_BIT {
            self.bits - SIGN_BIT
        } else {
            self.bits
        }
    }

    /// Whether the value is not a number.
    pub fn nan(self) -> (r: bool)
        ensures
            r == self.is_nan(),
    {
        self.size() > INFINITY_BITS
    }

    /// The integer that orders numbers.
    pub fn sort_key(self) -> (r: i128)
        ensures
            r == self.key(),
    {
        let size: i128 = self.size() as i128;
        if self.bits >= SIGN_BIT {
            -size
        } else {
            size
        }
    }

    /// Whether `self` is less than `other`.
    pub fn less(self, other: Real) -> (r: bool)
        ensures
            r == self.lt(other),
    {
        !self.nan() && !other.nan() && self.sort_key() < other.sort_key()
    }

    /// Whether `self` is at most `other`.
    pub fn at_most(self, other: Real) -> (r: bool)
        ensures
            r == self.le(other),
    {
        !self.nan() && !other.nan() && self.sort_key() <= other.sort_key()
    }

    /// The value moved into the range from zero to one.
    pub open spec fn clamped(self) -> Real {
        if self.lt(Real { bits: ZERO_BITS }) {
            Real { bits: ZERO_BITS }
        } else if (Real { bits: ONE_BITS }).lt(self) {
            Real { bits: ONE_BITS }
        } else {
            self
        }
    }

    /// The value moved into the range from zero to one.
    pub fn clamp_unit(self) -> (r: Real)
        ensures
            r == self.clamped(),
            !self.is_nan() ==> 0 <= r.key() <= ONE_BITS,
    {
        let zero: Real = Real { bits: ZERO_BITS };
        let one: Real = Real { bits: ONE_BITS };
        if self.less(zero) {
            zero
        } else if one.less(self) {
            one
        } else {
            self
        }
    }

    /// The greater of the two values; the second where the first is not a
    /// number.
    pub open spec fn at_least(self, floor: Real) -> Real {
        if self.is_nan() || self.lt(floor) {
            floor
        } else {
            self
        }
    }

    /// The greater of the two values.
    pub fn raise_to(self, floor: Real) -> (r: Real)
        ensures
            r == self.at_least(floor),
    {
        if self.nan() || self.less(floor) {
            floor
        } else {
            self
        }
    }
}

/// Moving into the range from zero to one twice is moving once.
pub proof fn law_clamp_idempotent(x: Real)
    ensures
        x.clamped().clamped() == x.clamped(),
{
}

/// A number below zero becomes zero, one above one becomes one, and every other
/// value stays as it is.
pub proof fn law_clamp_moves_into_the_unit(x: Real)
    ensures
        ({
            let zero = Real { bits: 0 };
            let one = Real { bits: 0x3FF0_0000_0000_0000 };
            &&& x.lt(zero) ==> x.clamped() == zero
            &&& one.lt(x) ==> x.clamped() == one
            &&& !x.lt(zero) && !one.lt(x) ==> x.clamped() == x
        }),
{
}

/// Raising a value to a floor gives the floor where the value is below it or is not
/// a number, and otherwise the value.
pub proof fn law_raising_gives_the_greater(x: Real, floor: Real)
    ensures
        x.is_nan() || x.lt(floor) ==> x.at_least(floor) == floor,
        !x.is_nan() && !x.lt(floor) ==> x.at_least(floor) == x,
{
}

/// Numbers are ordered as their bits are: those without the sign bit by size, those
/// with it against it, and the two zeros as one. A value is not a number where its
/// size is above that of infinity.
pub proof fn law_order_of_numbers(x: Real, y: Real)
    ensures
        x.bits < 0x8000_0000_0000_0000 && y.bits < 0x8000_0000_0000_0000 ==> (x.key() < y.key()
            <==> x.bits < y.bits),
        x.bits >= 0x8000_0000_0000_0000 && y.bits >= 0x8000_0000_0000_0000 ==> (x.key() < y.key()
            <==> x.bits > y.bits),
        x.bits > 0x8000_0000_0000_0000 && y.bits < 0x8000_0000_0000_0000 ==> x.key() < y.key(),
        (Real { bits: 0 }).key() == (Real { bits: 0x8000_0000_0000_0000 }).key(),
        x.is_nan() <==> (x.bits > 0x7FF0_0000_0000_0000 && x.bits < 0x8000_0000_0000_0000) || x.bits
            > 0xFFF0_0000_0000_0000,
        x.lt(y) <==> !x.is_nan() && !y.is_nan() && x.key() < y.key(),
        x.le(y) <==> !x.is_nan() && !y.is_nan() && x.key() <= y.key(),
{
}

} // verus!
