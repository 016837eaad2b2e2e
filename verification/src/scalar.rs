//! Double-precision numbers as the renderer core sees them.
//!
//! Geometry is computed in IEEE-754 binary64. The core never rounds: it only
//! carries such numbers, orders them, tests their sign and flips it. All of
//! that is exact on the 64-bit pattern of a number, so a [`Scalar`] holds the
//! pattern, and callers move in and out with the `to_bits` / `from_bits`
//! conversions of their floating-point type.
use vstd::prelude::*;

verus! {

/// The bit of a pattern that carries the sign.
pub const SIGN_BIT: u64 = 0x8000_0000_0000_0000;

/// The magnitude of an infinity. Every larger magnitude is a NaN.
pub const INFINITY_BITS: u64 = 0x7ff0_0000_0000_0000;

/// An IEEE-754 binary64 number, held by its 64-bit pattern.
#[derive(Clone, Copy, Debug)]
pub struct Scalar {
    pub bits: u64,
}

impl Scalar {
    /// Whether the sign bit is set. True of `-0.0` and of half the NaNs too.
    pub open spec fn sign_negative(self) -> bool {
        self.bits >= SIGN_BIT
    }

    /// The pattern without its sign bit: exponent and fraction, read as one
    /// integer. Among numbers of one sign, a larger magnitude is a number
    /// further from zero.
    pub open spec fn magnitude(self) -> u64 {
        if self.bits >= SIGN_BIT {
            (self.bits - SIGN_BIT) as u64
        } else {
            self.bits
        }
    }

    /// Not a number: the exponent is all ones and the fraction is not zero.
    pub open spec fn nan(self) -> bool {
        self.magnitude() > INFINITY_BITS
    }

    /// Where a number stands on the number line, as an integer: the magnitude,
    /// counted downwards from zero for negative numbers. Both zeros have rank
    /// zero. Two numbers compare as their ranks do; a NaN compares with
    /// nothing, whatever its rank.
    pub open spec fn rank(self) -> int {
        if self.sign_negative() {
            -(self.magnitude() as int)
        } else {
            self.magnitude() as int
        }
    }

    /// `self < other` as IEEE-754 defines it.
    pub open spec fn less(self, other: Scalar) -> bool {
        !self.nan() && !other.nan() && self.rank() < other.rank()
    }

    /// `self <= other` as IEEE-754 defines it.
    pub open spec fn at_most(self, other: Scalar) -> bool {
        !self.nan() && !other.nan() && self.rank() <= other.rank()
    }

    /// `self == other` as IEEE-754 defines it: the zeros are equal to each
    /// other, and a NaN is equal to nothing.
    pub open spec fn same(self, other: Scalar) -> bool {
        !self.nan() && !other.nan() && self.rank() == other.rank()
    }

    /// The number with the opposite sign: the same pattern but for the sign
    /// bit.
    pub open spec fn negated(self) -> Scalar {
        Scalar { bits: self.bits ^ SIGN_BIT }
    }

    /// Positive zero, the pattern of all zeros.
    pub fn zero() -> (r: Scalar)
        ensures
            r.bits == 0,
    {
        Scalar { bits: 0 }
    }

    /// The number with the given pattern.
    pub fn from_bits(bits: u64) -> (r: Scalar)
        ensures
            r.bits == bits,
    {
        Scalar { bits }
    }

    /// The pattern of this number.
    pub fn to_bits(self) -> (bits: u64)
        ensures
            bits == self.bits,
    {
        self.bits
    }

    fn abs_bits(self) -> (m: u64)
        ensures
            m == self.magnitude(),
    {
        if self.bits >= SIGN_BIT {
            self.bits - SIGN_BIT
        } else {
            self.bits
        }
    }

    /// Whether this is a NaN.
    pub fn is_nan(self) -> (r: bool)
        ensures
            r == self.nan(),
    {
        self.abs_bits() > INFINITY_BITS
    }

    /// `self < other`. False when either is a NaN.
    pub fn lt(self, other: Scalar) -> (r: bool)
        ensures
            r == self.less(other),
    {
        if self.is_nan() || other.is_nan() {
            return false;
        }
        let a: u64 = self.abs_bits();
        let b: u64 = other.abs_bits();
        if self.bits >= SIGN_BIT {
            if other.bits >= SIGN_BIT {
                b < a
            } else {
                a != 0 || b != 0
            }
        } else {
            other.bits < SIGN_BIT && a < b
        }
    }

    /// `self <= other`. False when either is a NaN.
    pub fn le(self, other: Scalar) -> (r: bool)
        ensures
            r == self.at_most(other),
    {
        if self.is_nan() || other.is_nan() {
            return false;
        }
        let a: u64 = self.abs_bits();
        let b: u64 = other.abs_bits();
        if self.bits >= SIGN_BIT {
            other.bits < SIGN_BIT || b <= a
        } else if other.bits >= SIGN_BIT {
            a == 0 && b == 0
        } else {
            a <= b
        }
    }

    /// `-self`. Total: it turns a zero into the other zero, an infinity into
    /// the other infinity and a NaN into a NaN.
    pub fn neg(self) -> (r: Scalar)
        ensures
            r == self.negated(),
    {
        Scalar { bits: self.bits ^ SIGN_BIT }
    }
}

/// Flipping the sign bit keeps the magnitude and turns the sign around.
pub proof fn lemma_negated_parts(a: Scalar)
    ensures
        a.negated().magnitude() == a.magnitude(),
        a.negated().sign_negative() == !a.sign_negative(),
        a.negated().nan() == a.nan(),
        a.negated().rank() == -a.rank(),
{
    let b: u64 = a.bits;
    assert((b ^ 0x8000_0000_0000_0000) == (if b >= 0x8000_0000_0000_0000 {
        (b - 0x8000_0000_0000_0000) as u64
    } else {
        (b + 0x8000_0000_0000_0000) as u64
    })) by (bit_vector);
}

/// Negating twice gives the number back, bit for bit.
pub proof fn lemma_negated_twice(a: Scalar)
    ensures
        a.negated().negated() == a,
{
    let b: u64 = a.bits;
    assert((b ^ 0x8000_0000_0000_0000) ^ 0x8000_0000_0000_0000 == b) by (bit_vector);
}

/// Negation turns the order around.
pub proof fn lemma_negated_reverses_order(a: Scalar, b: Scalar)
    ensures
        a.less(b) == b.negated().less(a.negated()),
        a.at_most(b) == b.negated().at_most(a.negated()),
{
    lemma_negated_parts(a);
    lemma_negated_parts(b);
}

/// `<` is a strict order: nothing is below itself, and it is transitive.
pub proof fn lemma_less_is_strict_order(a: Scalar, b: Scalar, c: Scalar)
    ensures
        !a.less(a),
        a.less(b) ==> !b.less(a),
        a.less(b) && b.less(c) ==> a.less(c),
{
}

/// How `<`, `<=` and `==` go together. Among numbers that are not NaN the
/// order is total; a NaN stands in no relation to anything.
pub proof fn lemma_order_relations(a: Scalar, b: Scalar, c: Scalar)
    ensures
        a.at_most(b) == (a.less(b) || a.same(b)),
        a.same(b) == (a.at_most(b) && b.at_most(a)),
        a.at_most(b) && b.less(c) ==> a.less(c),
        a.less(b) && b.at_most(c) ==> a.less(c),
        a.at_most(b) && b.at_most(c) ==> a.at_most(c),
        !a.nan() && !b.nan() ==> (a.less(b) || a.same(b) || b.less(a)),
        a.nan() || b.nan() ==> !a.less(b) && !a.at_most(b) && !a.same(b),
{
}

} // verus!
