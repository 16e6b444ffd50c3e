//! A 32-bit float as its bit pattern: enough to carry, compare and order it.
use vstd::prelude::*;

verus! {

/// A 32-bit IEEE 754 float, by its bits.
#[derive(Clone, Copy, Debug, PartialEq, Eq, Structural)]
pub struct F32 {
    pub bits: u32,
}

/// The float with the given bits.
pub open spec fn float(bits: u32) -> F32 {
    F32 { bits }
}

/// The bits of 1.0.
pub const ONE: u32 = 0x3f80_0000;

impl F32 {
    /// The bits without the sign.
    pub open spec fn magnitude(self) -> int {
        self.bits as int % 0x8000_0000
    }

    /// Whether this is not a number.
    pub open spec fn nan(self) -> bool {
        self.magnitude() > 0x7f80_0000
    }

    /// Whether this is neither an infinity nor not a number.
    pub open spec fn finite(self) -> bool {
        self.magnitude() < 0x7f80_0000
    }

    /// Where a number stands in the order of numbers: the floats of one sign are ordered as their
    /// bits are, and both zeros stand at the same place.
    pub open spec fn rank(self) -> int {
        if self.bits >= 0x8000_0000 {
            -self.magnitude()
        } else {
            self.magnitude()
        }
    }

    /// IEEE `==`: nothing equals what is not a number, and the two zeros are equal.
    pub open spec fn eq(self, other: F32) -> bool {
        !self.nan() && !other.nan() && self.rank() == other.rank()
    }

    /// IEEE `<`: false where either side is not a number.
    pub open spec fn lt(self, other: F32) -> bool {
        !self.nan() && !other.nan() && self.rank() < other.rank()
    }

    /// IEEE `<=`.
    pub open spec fn le(self, other: F32) -> bool {
        !self.nan() && !other.nan() && self.rank() <= other.rank()
    }

    /// Where a float stands in the total order: as by rank, but the negative zero below the positive
    /// one and the values that are not numbers beyond the infinities.
    pub open spec fn total_rank(self) -> int {
        if self.bits >= 0x8000_0000 {
            -self.magnitude() - 1
        } else {
            self.magnitude()
        }
    }

    /// The larger of two floats as `f32::max` has it: what is not a number gives way to the other.
    pub open spec fn larger(self, other: F32) -> F32 {
        if self.nan() || self.lt(other) {
            other
        } else {
            self
        }
    }

    /// The float kept between `lo` and `hi`; what is not a number stays as it is.
    pub open spec fn kept_between(self, lo: F32, hi: F32) -> F32 {
        if self.lt(lo) {
            lo
        } else if hi.lt(self) {
            hi
        } else {
            self
        }
    }

    fn mag(self) -> (r: u32)
        ensures
            r == self.magnitude(),
    {
        self.bits % 0x8000_0000
    }

    /// Whether this is not a number.
    pub fn is_nan(self) -> (r: bool)
        ensures
            r == self.nan(),
    {
        self.mag() > 0x7f80_0000
    }

    /// Whether this is neither an infinity nor not a number.
    pub fn is_finite(self) -> (r: bool)
        ensures
            r == self.finite(),
    {
        self.mag() < 0x7f80_0000
    }

    fn rank_of(self) -> (r: i64)
        ensures
            r == self.rank(),
    {
        if self.bits >= 0x8000_0000 {
            -(self.mag() as i64)
        } else {
            self.mag() as i64
        }
    }

    /// IEEE equality.
    pub fn equals(self, other: F32) -> (r: bool)
        ensures
            r == self.eq(other),
    {
        !self.is_nan() && !other.is_nan() && self.rank_of() == other.rank_of()
    }

    /// IEEE less-than.
    pub fn less(self, other: F32) -> (r: bool)
        ensures
            r == self.lt(other),
    {
        !self.is_nan() && !other.is_nan() && self.rank_of() < other.rank_of()
    }

    /// IEEE less-or-equal.
    pub fn less_or_equal(self, other: F32) -> (r: bool)
        ensures
            r == self.le(other),
    {
        !self.is_nan() && !other.is_nan() && self.rank_of() <= other.rank_of()
    }

    /// The larger of two floats.
    pub fn max(self, other: F32) -> (r: F32)
        ensures
            r == self.larger(other),
    {
        if self.is_nan() || self.less(other) {
            other
        } else {
            self
        }
    }

    /// The float kept between two bounds.
    pub fn clamp(self, lo: F32, hi: F32) -> (r: F32)
        ensures
            r == self.kept_between(lo, hi),
    {
        if self.less(lo) {
            lo
        } else if hi.less(self) {
            hi
        } else {
            self
        }
    }

    /// The place in the total order.
    pub fn total_rank_of(self) -> (r: i64)
        ensures
            r == self.total_rank(),
    {
        if self.bits >= 0x8000_0000 {
            -(self.mag() as i64) - 1
        } else {
            self.mag() as i64
        }
    }
}

/// Floats with the same place in the total order are the same bits.
pub proof fn total_rank_is_injective(a: F32, b: F32)
    requires
        a.total_rank() == b.total_rank(),
    ensures
        a == b,
{
}

/// A number equals itself; what is not a number does not.
pub proof fn eq_is_reflexive_on_numbers(a: F32)
    ensures
        a.eq(a) == !a.nan(),
{
}

} // verus!
