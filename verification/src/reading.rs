//! Measured quantities. They are double-precision numbers that the library carries, orders and
//! finds again, but never computes with; it holds each as its bit pattern.
use vstd::prelude::*;

verus! {

/// The lowest pattern with the sign bit set.
pub const SIGN_BIT: u64 = 0x8000_0000_0000_0000;

/// The pattern of positive infinity; the greater magnitudes are no numbers.
pub const INFINITE: u64 = 0x7ff0_0000_0000_0000;

/// A double-precision number by its IEEE 754 bit pattern.
#[derive(Clone, Copy, Debug, PartialEq, Eq, Structural)]
pub struct Reading {
    pub bits: u64,
}

impl Reading {
    /// The pattern without the sign.
    pub open spec fn magnitude(self) -> int {
        if self.bits < SIGN_BIT {
            self.bits as int
        } else {
            self.bits - SIGN_BIT
        }
    }

    /// Whether the pattern stands for a number.
    pub open spec fn is_number(self) -> bool {
        self.magnitude() <= INFINITE
    }

    /// An integer by which the numbers are ordered; both zeros have rank 0.
    pub open spec fn rank(self) -> int {
        if self.bits < SIGN_BIT {
            self.magnitude()
        } else {
            -self.magnitude()
        }
    }

    /// An integer by which all patterns are totally ordered: negative before positive, then by
    /// magnitude, and negative zero right before positive zero.
    pub open spec fn total_rank(self) -> int {
        if self.bits < SIGN_BIT {
            self.magnitude()
        } else {
            -self.magnitude() - 1
        }
    }

    /// `self <= other` as numbers compare: false where either is no number.
    pub open spec fn at_most(self, other: Reading) -> bool {
        self.is_number() && other.is_number() && self.rank() <= other.rank()
    }

    /// `self == other` as numbers compare: false where either is no number.
    pub open spec fn same_number(self, other: Reading) -> bool {
        self.is_number() && other.is_number() && self.rank() == other.rank()
    }

    /// Whether the pattern stands for a number.
    pub fn is_a_number(self) -> (r: bool)
        ensures
            r == self.is_number(),
    {
        if self.bits < SIGN_BIT {
            self.bits <= INFINITE
        } else {
            self.bits - SIGN_BIT <= INFINITE
        }
    }

    /// Whether `self <= other`.
    pub fn le(self, other: Reading) -> (r: bool)
        ensures
            r == self.at_most(other),
    {
        if !self.is_a_number() || !other.is_a_number() {
            false
        } else if self.bits < SIGN_BIT {
            if other.bits < SIGN_BIT {
                self.bits <= other.bits
            } else {
                self.bits == 0 && other.bits == SIGN_BIT
            }
        } else if other.bits < SIGN_BIT {
            true
        } else {
            other.bits <= self.bits
        }
    }

    /// Whether `self == other`.
    pub fn same(self, other: Reading) -> (r: bool)
        ensures
            r == self.same_number(other),
    {
        self.le(other) && other.le(self)
    }

    /// Whether `self` comes before `other` in the total order.
    pub fn total_before(self, other: Reading) -> (r: bool)
        ensures
            r == (self.total_rank() < other.total_rank()),
    {
        if self.bits < SIGN_BIT {
            other.bits < SIGN_BIT && self.bits < other.bits
        } else if other.bits < SIGN_BIT {
            true
        } else {
            other.bits < self.bits
        }
    }

    /// The greater of two readings; one that is no number gives way to the other.
    pub open spec fn greater(self, other: Reading) -> Reading {
        if !self.is_number() || self.at_most(other) {
            other
        } else {
            self
        }
    }

    /// The lesser of two readings; one that is no number gives way to the other.
    pub open spec fn lesser(self, other: Reading) -> Reading {
        if !self.is_number() || other.at_most(self) {
            other
        } else {
            self
        }
    }

    /// The greater of two readings.
    pub fn max(self, other: Reading) -> (r: Reading)
        ensures
            r == self.greater(other),
    {
        if !self.is_a_number() || self.le(other) {
            other
        } else {
            self
        }
    }

    /// The lesser of two readings.
    pub fn min(self, other: Reading) -> (r: Reading)
        ensures
            r == self.lesser(other),
    {
        if !self.is_a_number() || other.le(self) {
            other
        } else {
            self
        }
    }
}

/// On numbers the comparison is a total order up to the two zeros: any two compare, and where
/// both directions hold they are the same number.
pub proof fn law_readings_are_ordered(a: Reading, b: Reading, c: Reading)
    requires
        a.is_number(),
        b.is_number(),
        c.is_number(),
    ensures
        a.at_most(b) || b.at_most(a),
        a.at_most(b) && b.at_most(c) ==> a.at_most(c),
        a.at_most(b) && b.at_most(a) ==> a.same_number(b),
{
}

} // verus!
