//! Numbers as the engine stores them: the bit pattern of an IEEE 754
//! binary64 value.
//!
//! Only what the pattern alone decides is told here — whether a value is
//! missing, finite or positive, and which of two values is greater. Sums,
//! products and quotients are the engine's.
use vstd::prelude::*;

verus! {

/// The pattern of positive infinity; a greater magnitude is not a number.
pub const INFINITE_BITS: u64 = 0x7ff0_0000_0000_0000;

/// The pattern of negative zero: the sign bit alone.
pub const SIGN_BIT: u64 = 0x8000_0000_0000_0000;

/// A value given by its bit pattern.
#[derive(Clone, Copy, Debug, PartialEq, Eq, Structural)]
pub struct Double {
    pub bits: u64,
}

impl Double {
    /// Whether the sign bit is set.
    pub open spec fn negative(self) -> bool {
        self.bits >= SIGN_BIT
    }

    /// The pattern without its sign bit: the greater the magnitude, the
    /// greater the absolute value.
    pub open spec fn magnitude(self) -> int {
        if self.negative() {
            self.bits - SIGN_BIT
        } else {
            self.bits as int
        }
    }

    /// Not a number: a missing value.
    pub open spec fn nan(self) -> bool {
        self.magnitude() > INFINITE_BITS
    }

    /// Neither infinite nor missing.
    pub open spec fn finite(self) -> bool {
        self.magnitude() < INFINITE_BITS
    }

    /// The place of a value in the order of the values; both zeros share
    /// theirs.
    pub open spec fn rank(self) -> int {
        if self.negative() {
            -self.magnitude()
        } else {
            self.magnitude()
        }
    }

    /// `self < other`, which is false when either is missing.
    pub open spec fn below(self, other: Double) -> bool {
        !self.nan() && !other.nan() && self.rank() < other.rank()
    }

    /// `self <= other`, which is false when either is missing.
    pub open spec fn at_most(self, other: Double) -> bool {
        !self.nan() && !other.nan() && self.rank() <= other.rank()
    }

    /// Finite and greater than zero.
    pub open spec fn usable(self) -> bool {
        self.finite() && self.rank() > 0
    }

    /// The greater of two values; a missing one gives way to the other.
    pub open spec fn greater(self, other: Double) -> Double {
        if self.nan() || self.below(other) {
            other
        } else {
            self
        }
    }

    /// A missing value.
    pub fn missing() -> (r: Double)
        ensures
            r.nan(),
            !r.finite(),
    {
        Double { bits: 0x7ff8_0000_0000_0000 }
    }

    /// Zero.
    pub fn zero() -> (r: Double)
        ensures
            r.bits == 0,
            r.finite(),
            r.rank() == 0,
            !r.negative(),
    {
        Double { bits: 0 }
    }

    /// Positive infinity.
    pub fn infinity() -> (r: Double)
        ensures
            r.bits == INFINITE_BITS,
            !r.nan(),
            !r.finite(),
            r.rank() == INFINITE_BITS,
    {
        Double { bits: INFINITE_BITS }
    }

    fn size(self) -> (r: u64)
        ensures
            r == self.magnitude(),
    {
        if self.bits >= SIGN_BIT {
            self.bits - SIGN_BIT
        } else {
            self.bits
        }
    }

    /// The place in the order of the values.
    pub fn order(self) -> (r: i64)
        ensures
            r == self.rank(),
    {
        let m: i64 = self.size() as i64;
        if self.bits >= SIGN_BIT {
            -m
        } else {
            m
        }
    }

    /// Whether the value is missing.
    pub fn is_nan(self) -> (r: bool)
        ensures
            r == self.nan(),
    {
        self.size() > INFINITE_BITS
    }

    /// Whether the value is neither infinite nor missing.
    pub fn is_finite(self) -> (r: bool)
        ensures
            r == self.finite(),
    {
        self.size() < INFINITE_BITS
    }

    /// Whether the value is finite and greater than zero.
    pub fn is_usable(self) -> (r: bool)
        ensures
            r == self.usable(),
    {
        self.is_finite() && self.order() > 0
    }

    /// Whether `self < other`.
    pub fn is_below(self, other: Double) -> (r: bool)
        ensures
            r == self.below(other),
    {
        !self.is_nan() && !other.is_nan() && self.order() < other.order()
    }

    /// Whether `self <= other`.
    pub fn is_at_most(self, other: Double) -> (r: bool)
        ensures
            r == self.at_most(other),
    {
        !self.is_nan() && !other.is_nan() && self.order() <= other.order()
    }

    /// The greater of two values; a missing one gives way to the other.
    pub fn greater_of(self, other: Double) -> (r: Double)
        ensures
            r == self.greater(other),
    {
        if self.is_nan() || self.is_below(other) {
            other
        } else {
            self
        }
    }
}

/// Of two values that are not missing one is below the other, or they stand
/// at the same place.
pub proof fn values_are_ordered(a: Double, b: Double)
    requires
        !a.nan(),
        !b.nan(),
    ensures
        a.below(b) || b.below(a) || a.rank() == b.rank(),
        !(a.below(b) && b.below(a)),
        a.at_most(b) <==> !b.below(a),
{
}

/// A comparison with a missing value never holds.
pub proof fn missing_compares_false(a: Double, b: Double)
    requires
        a.nan() || b.nan(),
    ensures
        !a.below(b),
        !b.below(a),
        !a.at_most(b),
        !b.at_most(a),
{
}

/// A number with how it is written.
#[derive(Debug)]
pub struct Figure {
    pub value: Double,
    pub text: String,
}

/// The greater of two values is one of them, and neither exceeds it; a
/// missing one is taken only when both are.
pub proof fn neither_exceeds_the_greater(a: Double, b: Double)
    ensures
        ({
            let g = a.greater(b);
            &&& g == a || g == b
            &&& !a.nan() ==> a.at_most(g) || g.nan()
            &&& !a.nan() && !b.nan() ==> a.at_most(g) && b.at_most(g)
            &&& a.nan() ==> g == b
            &&& !a.nan() && b.nan() ==> g == a
        }),
{
}

/// A value is missing, infinite or finite, and only one of these: what lies
/// strictly between both infinities is finite.
pub proof fn a_value_is_one_thing(a: Double)
    ensures
        a.nan() ==> !a.finite(),
        !a.nan() && !a.finite() ==> a.rank() == 0x7ff0_0000_0000_0000 || a.rank()
            == -0x7ff0_0000_0000_0000,
        a.finite() <==> !a.nan() && -0x7ff0_0000_0000_0000 < a.rank() < 0x7ff0_0000_0000_0000,
        a.usable() <==> a.finite() && a.rank() > 0,
        a.rank() == 0 <==> a.bits == 0 || a.bits == 0x8000_0000_0000_0000,
{
}

} // verus!
