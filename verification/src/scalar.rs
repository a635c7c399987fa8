//! Doubles as bit patterns, and the order IEEE-754 gives them.

use vstd::prelude::*;

verus! {

/// The bit that holds the sign of a double.
pub const SIGN_BIT: u64 = 0x8000_0000_0000_0000;

/// The pattern of positive infinity: every pattern whose magnitude lies above
/// it is a NaN.
pub const INFINITY_BITS: u64 = 0x7FF0_0000_0000_0000;

/// The pattern of `1.0`.
pub const ONE_BITS: u64 = 0x3FF0_0000_0000_0000;

/// The pattern of `1.0e-8`, the threshold below which a component counts as
/// vanished.
pub const EPSILON_BITS: u64 = 0x3E45_798E_E230_8C3A;

/// The pattern without its sign bit.
pub open spec fn magnitude(bits: u64) -> int {
    if bits >= SIGN_BIT {
        bits - SIGN_BIT
    } else {
        bits as int
    }
}

/// Whether the pattern encodes a NaN.
pub open spec fn nan(bits: u64) -> bool {
    magnitude(bits) > INFINITY_BITS
}

/// The place of a pattern in the order of the numbers: the magnitude, negated
/// where the sign bit is set. For patterns that are no NaN, IEEE-754 orders the
/// encoded numbers as `rank` orders the patterns, and holds two numbers equal
/// exactly where their ranks are (so both zeros have rank 0).
pub open spec fn rank(bits: u64) -> int {
    if bits >= SIGN_BIT {
        -magnitude(bits)
    } else {
        magnitude(bits)
    }
}

/// A double, held as its bit pattern.
#[derive(Clone, Copy, Debug)]
pub struct Scalar {
    pub bits: u64,
}

impl View for Scalar {
    type V = u64;

    open spec fn view(&self) -> u64 {
        self.bits
    }
}

impl Scalar {
    /// Whether this is a NaN.
    pub open spec fn is_nan_spec(self) -> bool {
        nan(self@)
    }

    /// `self < other` as IEEE-754 has it: false where either side is a NaN.
    pub open spec fn lt_spec(self, other: Scalar) -> bool {
        !nan(self@) && !nan(other@) && rank(self@) < rank(other@)
    }

    /// `self <= other` as IEEE-754 has it: false where either side is a NaN.
    pub open spec fn le_spec(self, other: Scalar) -> bool {
        !nan(self@) && !nan(other@) && rank(self@) <= rank(other@)
    }

    /// `self == other` as IEEE-754 has it: false where either side is a NaN,
    /// true of the two zeros.
    pub open spec fn same_spec(self, other: Scalar) -> bool {
        !nan(self@) && !nan(other@) && rank(self@) == rank(other@)
    }

    /// `self < 0`: false of a NaN and of both zeros.
    pub open spec fn is_negative_spec(self) -> bool {
        !nan(self@) && rank(self@) < 0
    }

    /// `self > 0`: false of a NaN and of both zeros.
    pub open spec fn is_positive_spec(self) -> bool {
        !nan(self@) && rank(self@) > 0
    }

    /// `lo <= self <= hi` as IEEE-754 has it: false where any of the three is
    /// a NaN.
    pub open spec fn within_spec(self, lo: Scalar, hi: Scalar) -> bool {
        lo.le_spec(self) && self.le_spec(hi)
    }

    /// The scalar with the given bit pattern.
    pub fn from_bits(bits: u64) -> (s: Scalar)
        ensures
            s@ == bits,
    {
        Scalar { bits }
    }

    /// The bit pattern.
    pub fn to_bits(self) -> (bits: u64)
        ensures
            bits == self@,
    {
        self.bits
    }

    /// Positive zero.
    pub fn zero() -> (s: Scalar)
        ensures
            s@ == 0,
    {
        Scalar { bits: 0 }
    }

    /// The number one.
    pub fn one() -> (s: Scalar)
        ensures
            s@ == ONE_BITS,
    {
        Scalar { bits: ONE_BITS }
    }

    /// Whether this is a NaN.
    pub fn is_nan(self) -> (r: bool)
        ensures
            r == self.is_nan_spec(),
    {
        self.abs_bits() > INFINITY_BITS
    }

    fn abs_bits(self) -> (m: u64)
        ensures
            m == magnitude(self@),
            m < SIGN_BIT,
    {
        if self.bits >= SIGN_BIT {
            self.bits - SIGN_BIT
        } else {
            self.bits
        }
    }

    fn key(self) -> (k: i128)
        ensures
            k == rank(self@),
    {
        let m: u64 = self.abs_bits();
        if self.bits >= SIGN_BIT {
            -(m as i128)
        } else {
            m as i128
        }
    }

    /// `self < other`.
    pub fn lt(self, other: Scalar) -> (r: bool)
        ensures
            r == self.lt_spec(other),
    {
        !self.is_nan() && !other.is_nan() && self.key() < other.key()
    }

    /// `self <= other`.
    pub fn le(self, other: Scalar) -> (r: bool)
        ensures
            r == self.le_spec(other),
    {
        !self.is_nan() && !other.is_nan() && self.key() <= other.key()
    }

    /// `self > other`.
    pub fn gt(self, other: Scalar) -> (r: bool)
        ensures
            r == other.lt_spec(self),
    {
        other.lt(self)
    }

    /// `self < 0`.
    pub fn is_negative(self) -> (r: bool)
        ensures
            r == self.is_negative_spec(),
            r == self.lt_spec(Scalar { bits: 0 }),
    {
        self.lt(Scalar::zero())
    }

    /// `self > 0`.
    pub fn is_positive(self) -> (r: bool)
        ensures
            r == self.is_positive_spec(),
            r == (Scalar { bits: 0 }).lt_spec(self),
    {
        Scalar::zero().lt(self)
    }

    /// `lo <= self <= hi`.
    pub fn within(self, lo: Scalar, hi: Scalar) -> (r: bool)
        ensures
            r == self.within_spec(lo, hi),
    {
        lo.le(self) && self.le(hi)
    }

    /// `self == other` as numbers.
    pub fn same(self, other: Scalar) -> (r: bool)
        ensures
            r == self.same_spec(other),
    {
        !self.is_nan() && !other.is_nan() && self.key() == other.key()
    }

    /// The absolute value: the pattern with its sign bit cleared.
    pub fn abs(self) -> (s: Scalar)
        ensures
            s@ == magnitude(self@),
    {
        Scalar { bits: self.abs_bits() }
    }
}

/// `<` is a strict order: nothing is below itself, and what is below
/// something below a third is below the third.
pub proof fn lemma_lt_is_a_strict_order(a: Scalar, b: Scalar, c: Scalar)
    ensures
        !a.lt_spec(a),
        a.lt_spec(b) && b.lt_spec(c) ==> a.lt_spec(c),
        a.lt_spec(b) ==> !b.lt_spec(a),
{
}

/// Of two numbers exactly one of `a < b`, `a == b`, `b < a` holds; with a
/// NaN on either side none does.
pub proof fn lemma_order_is_total(a: Scalar, b: Scalar)
    ensures
        !a.is_nan_spec() && !b.is_nan_spec() ==> (a.lt_spec(b) || a.same_spec(b) || b.lt_spec(a)),
        !(a.lt_spec(b) && a.same_spec(b)),
        !(b.lt_spec(a) && a.same_spec(b)),
        a.is_nan_spec() || b.is_nan_spec() ==> !a.lt_spec(b) && !a.same_spec(b) && !b.lt_spec(a),
        a.le_spec(b) <==> a.lt_spec(b) || a.same_spec(b),
{
}

} // verus!
