//! Double-precision numbers, held as their IEEE 754 bit patterns.
//!
//! The library stores, compares and checks numbers; it never computes with
//! them, so the bit pattern is all it needs.

use vstd::prelude::*;

verus! {

/// A double-precision number: the 64 bits of its IEEE 754 encoding, the sign in
/// the highest one.
#[derive(Clone, Copy, Debug, PartialEq, Eq, Structural)]
pub struct Double {
    pub bits: u64,
}

/// The sign bit.
pub const SIGN_BIT: u64 = 0x8000_0000_0000_0000;

/// The magnitude bits of infinity; a larger magnitude is no number.
pub const INFINITE_MAGNITUDE: u64 = 0x7ff0_0000_0000_0000;

impl Double {
    /// Whether the sign bit is set.
    pub open spec fn negative(self) -> bool {
        self.bits >= SIGN_BIT
    }

    /// The encoding without its sign bit; it grows with the absolute value.
    pub open spec fn magnitude(self) -> int {
        if self.negative() {
            self.bits - SIGN_BIT
        } else {
            self.bits as int
        }
    }

    /// Neither infinite nor undefined.
    pub open spec fn finite(self) -> bool {
        self.magnitude() < INFINITE_MAGNITUDE
    }

    /// Not a number.
    pub open spec fn nan(self) -> bool {
        self.magnitude() > INFINITE_MAGNITUDE
    }

    /// The place of a number among the numbers: equal for equal numbers (both
    /// zeros are equal), and growing with them.
    pub open spec fn rank(self) -> int {
        if self.negative() {
            -self.magnitude()
        } else {
            self.magnitude()
        }
    }

    /// The place of an encoding in IEEE 754's total order, which tells the zeros
    /// apart and puts undefined values at the ends.
    pub open spec fn total_rank(self) -> int {
        if self.negative() {
            -self.magnitude() - 1
        } else {
            self.magnitude()
        }
    }

    /// `self < other`.
    pub open spec fn below(self, other: Double) -> bool {
        !self.nan() && !other.nan() && self.rank() < other.rank()
    }

    /// `self == other` as numbers: no undefined value equals anything, and the
    /// two zeros are equal.
    pub open spec fn equals(self, other: Double) -> bool {
        !self.nan() && !other.nan() && self.rank() == other.rank()
    }

    fn magnitude_bits(self) -> (r: u64)
        ensures
            r == self.magnitude(),
    {
        if self.bits >= SIGN_BIT {
            self.bits - SIGN_BIT
        } else {
            self.bits
        }
    }

    /// Whether the number is neither infinite nor undefined.
    pub fn is_finite(self) -> (r: bool)
        ensures
            r == self.finite(),
    {
        self.magnitude_bits() < INFINITE_MAGNITUDE
    }

    /// Whether the value is no number.
    pub fn is_nan(self) -> (r: bool)
        ensures
            r == self.nan(),
    {
        self.magnitude_bits() > INFINITE_MAGNITUDE
    }

    fn rank_value(self) -> (r: i128)
        ensures
            r == self.rank(),
    {
        let m: i128 = self.magnitude_bits() as i128;
        if self.bits >= SIGN_BIT {
            -m
        } else {
            m
        }
    }

    fn total_rank_value(self) -> (r: i128)
        ensures
            r == self.total_rank(),
    {
        let m: i128 = self.magnitude_bits() as i128;
        if self.bits >= SIGN_BIT {
            -m - 1
        } else {
            m
        }
    }

    /// `self < other`.
    pub fn is_below(self, other: Double) -> (r: bool)
        ensures
            r == self.below(other),
    {
        !self.is_nan() && !other.is_nan() && self.rank_value() < other.rank_value()
    }

    /// Equality as numbers.
    pub fn is_equal_to(self, other: Double) -> (r: bool)
        ensures
            r == self.equals(other),
    {
        !self.is_nan() && !other.is_nan() && self.rank_value() == other.rank_value()
    }

    /// Whether `self` comes before `other` in the total order.
    pub fn is_before(self, other: Double) -> (r: bool)
        ensures
            r == (self.total_rank() < other.total_rank()),
    {
        self.total_rank_value() < other.total_rank_value()
    }

    /// The number where it is finite.
    pub fn if_finite(self) -> (r: Option<Double>)
        ensures
            r == finite_only(self),
    {
        if self.is_finite() {
            Some(self)
        } else {
            None
        }
    }
}

/// Zero.
#[verifier::allow_in_spec]
pub fn zero() -> Double
    returns
        (Double { bits: 0 }),
{
    Double { bits: 0 }
}

/// One.
#[verifier::allow_in_spec]
pub fn one() -> Double
    returns
        (Double { bits: 0x3ff0_0000_0000_0000 }),
{
    Double { bits: 0x3ff0_0000_0000_0000 }
}

/// Minus one.
#[verifier::allow_in_spec]
pub fn minus_one() -> Double
    returns
        (Double { bits: 0xbff0_0000_0000_0000 }),
{
    Double { bits: 0xbff0_0000_0000_0000 }
}

/// Positive infinity.
#[verifier::allow_in_spec]
pub fn infinity() -> Double
    returns
        (Double { bits: 0x7ff0_0000_0000_0000 }),
{
    Double { bits: 0x7ff0_0000_0000_0000 }
}

/// Negative infinity.
#[verifier::allow_in_spec]
pub fn neg_infinity() -> Double
    returns
        (Double { bits: 0xfff0_0000_0000_0000 }),
{
    Double { bits: 0xfff0_0000_0000_0000 }
}

/// The number nearest to one millionth.
#[verifier::allow_in_spec]
pub fn one_millionth() -> Double
    returns
        (Double { bits: 0x3eb0_c6f7_a0b5_ed8d }),
{
    Double { bits: 0x3eb0_c6f7_a0b5_ed8d }
}

/// A number where it is finite.
pub open spec fn finite_only(x: Double) -> Option<Double> {
    if x.finite() {
        Some(x)
    } else {
        None
    }
}

/// Whether every number of a sequence is finite.
pub open spec fn all_finite(v: Seq<Double>) -> bool {
    forall|i: int| 0 <= i < v.len() ==> (#[trigger] v[i]).finite()
}

/// Whether every number is finite.
pub fn are_all_finite(v: &Vec<Double>) -> (r: bool)
    ensures
        r == all_finite(v@),
{
    let mut i: usize = 0;
    while i < v.len()
        invariant
            i <= v@.len(),
            forall|j: int| 0 <= j < i ==> (#[trigger] v@[j]).finite(),
        decreases v@.len() - i,
    {
        if !v[i].is_finite() {
            assert(!v@[i as int].finite());
            return false;
        }
        i = i + 1;
    }
    true
}

/// The encodings of a total order differ where the numbers differ.
pub proof fn total_order_tells_encodings_apart(a: Double, b: Double)
    ensures
        a.total_rank() == b.total_rank() ==> a == b,
        a.below(b) ==> a.total_rank() < b.total_rank(),
{
}

/// How encodings are read: the highest bit is the sign; among numbers of one sign
/// the rest of the encoding grows with the absolute value; a negative number is
/// below a positive one, the two zeros are equal, and what lies above the encoding
/// of infinity is no number.
pub proof fn encodings_are_read(a: Double, b: Double)
    ensures
        a.bits < 0x8000_0000_0000_0000 ==> {
            &&& a.finite() <==> a.bits < 0x7ff0_0000_0000_0000
            &&& a.nan() <==> a.bits > 0x7ff0_0000_0000_0000
        },
        a.bits >= 0x8000_0000_0000_0000 ==> {
            &&& a.finite() <==> a.bits < 0xfff0_0000_0000_0000
            &&& a.nan() <==> a.bits > 0xfff0_0000_0000_0000
        },
        a.nan() || b.nan() ==> !a.below(b) && !a.equals(b),
        !a.nan() && !b.nan() ==> {
            &&& a.bits < 0x8000_0000_0000_0000 && b.bits < 0x8000_0000_0000_0000 ==> (a.below(b)
                <==> a.bits < b.bits)
            &&& a.bits >= 0x8000_0000_0000_0000 && b.bits >= 0x8000_0000_0000_0000 ==> (a.below(b)
                <==> b.bits < a.bits)
            &&& a.bits >= 0x8000_0000_0000_0000 && b.bits < 0x8000_0000_0000_0000 ==> (a.below(b)
                <==> a.bits > 0x8000_0000_0000_0000 || b.bits > 0)
            &&& a.bits < 0x8000_0000_0000_0000 && b.bits >= 0x8000_0000_0000_0000 ==> !a.below(b)
            &&& a.below(b) || b.below(a) || a.equals(b)
            &&& !(a.below(b) && b.below(a))
            &&& a.equals(b) ==> !a.below(b)
        },
        minus_one().below(zero()),
        zero().below(one()),
        a.finite() ==> a.below(infinity()) && neg_infinity().below(a),
        !infinity().finite() && !infinity().nan(),
        !neg_infinity().finite() && !neg_infinity().nan(),
        one_millionth().finite() && zero().below(one_millionth()) && one_millionth().below(one()),
        one() == (Double { bits: 0x3ff0_0000_0000_0000 }),
        zero() == (Double { bits: 0 }),
        all_finite(seq![a, b]) <==> a.finite() && b.finite(),
        finite_only(a) == if a.finite() {
            Some(a)
        } else {
            None
        },
{
    if all_finite(seq![a, b]) {
        assert(seq![a, b][0] == a && seq![a, b][1] == b);
    }
}

/// The total order goes by the encodings: negative before positive, and with the
/// absolute value growing away from zero.
pub proof fn total_order_goes_by_encodings(a: Double, b: Double)
    ensures
        a.bits < 0x8000_0000_0000_0000 && b.bits < 0x8000_0000_0000_0000 ==> (a.total_rank()
            < b.total_rank() <==> a.bits < b.bits),
        a.bits >= 0x8000_0000_0000_0000 && b.bits >= 0x8000_0000_0000_0000 ==> (a.total_rank()
            < b.total_rank() <==> b.bits < a.bits),
        a.bits >= 0x8000_0000_0000_0000 && b.bits < 0x8000_0000_0000_0000 ==> a.total_rank()
            < b.total_rank(),
{
}

}
