//! Double-precision numbers and vectors, held by their bit patterns.
//!
//! Validation reads sign, magnitude and finiteness of the parameters of an operation; it
//! never computes with them. So a number is kept here as the 64 bits of its binary
//! representation (sign bit, 11 exponent bits, 52 fraction bits), and its order is that of
//! the exact number that these bits stand for.

use vstd::prelude::*;

verus! {

/// Two to the power of 52: one more than the largest fraction.
pub const FRACTIONS: u64 = 0x10_0000_0000_0000;

/// Two to the power of 63: the weight of the sign bit.
pub const SIGN: u64 = 0x8000_0000_0000_0000;

/// The exponent field that marks infinities and not-a-numbers.
pub const SPECIAL: u64 = 0x7ff;

/// A double-precision number by its bits. Equality compares the bits: the two zeros
/// differ, and a not-a-number equals itself.
#[derive(Clone, Copy, Debug, PartialEq, Eq, Hash, Structural)]
pub struct Real {
    pub bits: u64,
}

/// The exact magnitude that `bits` stands for, sign bit aside, in multiples of the smallest
/// positive number (two to the power of -1074). An infinity gets the value that its bits
/// would have if its exponent were an ordinary one: more than every finite magnitude.
pub open spec fn magnitude(bits: u64) -> nat {
    let exponent = (bits % SIGN) / FRACTIONS;
    let fraction = bits % FRACTIONS;
    if exponent == 0 {
        fraction as nat
    } else {
        ((FRACTIONS + fraction) as nat) * vstd::arithmetic::power2::pow2((exponent - 1) as nat)
    }
}

impl Real {
    /// Neither infinite nor a not-a-number.
    pub open spec fn finite(self) -> bool {
        (self.bits % SIGN) / FRACTIONS != SPECIAL
    }

    /// Not a number.
    pub open spec fn not_a_number(self) -> bool {
        !self.finite() && self.bits % FRACTIONS != 0
    }

    /// The exact number, in multiples of two to the power of -1074. See [`magnitude`].
    pub open spec fn value(self) -> int {
        if self.bits < SIGN {
            magnitude(self.bits) as int
        } else {
            -(magnitude(self.bits) as int)
        }
    }

    /// The number whose representation is `bits`.
    pub fn from_bits(bits: u64) -> (number: Real)
        ensures
            number.bits == bits,
    {
        Real { bits }
    }

    /// The representation of the number.
    pub fn to_bits(self) -> (bits: u64)
        ensures
            bits == self.bits,
    {
        self.bits
    }

    /// Whether the number is neither infinite nor a not-a-number.
    pub fn is_finite(self) -> (finite: bool)
        ensures
            finite == self.finite(),
    {
        (self.bits % SIGN) / FRACTIONS != SPECIAL
    }

    /// Whether the number is a not-a-number.
    pub fn is_nan(self) -> (answer: bool)
        ensures
            answer == self.not_a_number(),
    {
        (self.bits % SIGN) / FRACTIONS == SPECIAL && self.bits % FRACTIONS != 0
    }

    /// Whether the number is one of the two zeros.
    pub fn is_zero(self) -> (zero: bool)
        ensures
            zero == (self.value() == 0),
    {
        proof {
            zero_magnitude(self.bits);
        }
        self.bits % SIGN == 0
    }

    /// Whether the number is above zero; a not-a-number is not.
    pub fn is_positive(self) -> (positive: bool)
        ensures
            positive == (!self.not_a_number() && self.value() > 0),
    {
        proof {
            zero_magnitude(self.bits);
        }
        !self.is_nan() && self.bits < SIGN && self.bits != 0
    }

    /// Whether the number is below `other`; a not-a-number is below nothing, and nothing is
    /// below one.
    pub fn is_below(self, other: Real) -> (below: bool)
        ensures
            below == (!self.not_a_number() && !other.not_a_number() && self.value()
                < other.value()),
    {
        proof {
            zero_magnitude(self.bits);
            zero_magnitude(other.bits);
            magnitudes_follow_bits(self.bits, other.bits);
            magnitudes_follow_bits(other.bits, self.bits);
        }
        if self.is_nan() || other.is_nan() {
            false
        } else if self.bits < SIGN {
            other.bits < SIGN && self.bits < other.bits
        } else if other.bits < SIGN {
            self.bits != SIGN || other.bits != 0
        } else {
            other.bits < self.bits
        }
    }

    /// Whether two finite numbers are the same number. (The two zeros are.)
    pub fn is_same(self, other: Real) -> (same: bool)
        ensures
            same == (self.value() == other.value()),
    {
        proof {
            zero_magnitude(self.bits);
            zero_magnitude(other.bits);
            magnitudes_follow_bits(self.bits, other.bits);
            magnitudes_follow_bits(other.bits, self.bits);
        }
        self.bits == other.bits || (self.bits % SIGN == 0 && other.bits % SIGN == 0)
    }

    /// The number without its sign.
    pub fn abs(self) -> (number: Real)
        ensures
            number.value() == magnitude(self.bits),
            number.finite() == self.finite(),
            number.not_a_number() == self.not_a_number(),
    {
        proof {
            let low = (self.bits % SIGN) as u64;
            assert(low % FRACTIONS == self.bits % FRACTIONS);
        }
        Real { bits: self.bits % SIGN }
    }
}

/// Only the two zeros have no magnitude.
proof fn zero_magnitude(bits: u64)
    ensures
        magnitude(bits) == 0 <==> bits % SIGN == 0,
{
    let exponent = (bits % SIGN) / FRACTIONS;
    let fraction = bits % FRACTIONS;
    if exponent != 0 {
        let scale = vstd::arithmetic::power2::pow2((exponent - 1) as nat);
        vstd::arithmetic::power2::lemma_pow2_pos((exponent - 1) as nat);
        assert((FRACTIONS + fraction) * scale > 0) by (nonlinear_arith)
            requires
                FRACTIONS + fraction > 0,
                scale > 0,
        ;
    }
}

/// Magnitudes are ordered as the bits below the sign bit: the order of the numbers can be
/// read off their representations.
pub proof fn magnitudes_follow_bits(lower: u64, upper: u64)
    ensures
        lower % SIGN < upper % SIGN ==> magnitude(lower) < magnitude(upper),
        lower % SIGN == upper % SIGN ==> magnitude(lower) == magnitude(upper),
{
    let low_exponent = (lower % SIGN) / FRACTIONS;
    let low_fraction = lower % FRACTIONS;
    let exponent = (upper % SIGN) / FRACTIONS;
    let fraction = upper % FRACTIONS;
    assert((lower % SIGN) % FRACTIONS == low_fraction);
    assert((upper % SIGN) % FRACTIONS == fraction);
    if lower % SIGN < upper % SIGN {
        assert(low_exponent <= exponent);
        if low_exponent == exponent {
            assert(low_fraction < fraction);
            if exponent != 0 {
                let scale = vstd::arithmetic::power2::pow2((exponent - 1) as nat);
                vstd::arithmetic::power2::lemma_pow2_pos((exponent - 1) as nat);
                assert((FRACTIONS + low_fraction) * scale < (FRACTIONS + fraction) * scale)
                    by (nonlinear_arith)
                    requires
                        low_fraction < fraction,
                        scale > 0,
                ;
            }
        } else {
            let scale = vstd::arithmetic::power2::pow2((exponent - 1) as nat);
            vstd::arithmetic::power2::lemma_pow2_pos((exponent - 1) as nat);
            assert((FRACTIONS + fraction) * scale >= FRACTIONS * scale) by (nonlinear_arith)
                requires
                    fraction >= 0,
                    scale > 0,
            ;
            if low_exponent == 0 {
                assert(FRACTIONS * scale >= FRACTIONS) by (nonlinear_arith)
                    requires
                        scale > 0,
                ;
            } else {
                let low_scale = vstd::arithmetic::power2::pow2((low_exponent - 1) as nat);
                vstd::arithmetic::power2::lemma_pow2_pos((low_exponent - 1) as nat);
                vstd::arithmetic::power2::lemma_pow2_unfold(low_exponent as nat);
                if low_exponent < exponent - 1 {
                    vstd::arithmetic::power2::lemma_pow2_strictly_increases(low_exponent as nat, (exponent - 1) as nat);
                }
                assert(2 * low_scale <= scale);
                assert((FRACTIONS + low_fraction) * low_scale < FRACTIONS * scale)
                    by (nonlinear_arith)
                    requires
                        low_fraction < FRACTIONS,
                        2 * low_scale <= scale,
                        low_scale > 0,
                ;
            }
        }
    }
}

/// A vector or a point in space.
#[derive(Clone, Copy, Debug, PartialEq, Eq, Hash, Structural)]
pub struct Vec3 {
    pub x: Real,
    pub y: Real,
    pub z: Real,
}

impl Vec3 {
    /// Every component is finite.
    pub open spec fn finite(self) -> bool {
        self.x.finite() && self.y.finite() && self.z.finite()
    }

    /// Every component is zero.
    pub open spec fn zero(self) -> bool {
        self.x.value() == 0 && self.y.value() == 0 && self.z.value() == 0
    }

    /// The vector with the given components.
    pub fn new(x: Real, y: Real, z: Real) -> (vector: Vec3)
        ensures
            vector == (Vec3 { x, y, z }),
    {
        Vec3 { x, y, z }
    }

    /// Whether every component is finite.
    pub fn is_finite(self) -> (finite: bool)
        ensures
            finite == self.finite(),
    {
        self.x.is_finite() && self.y.is_finite() && self.z.is_finite()
    }

    /// Whether every component is zero.
    pub fn is_zero(self) -> (zero: bool)
        ensures
            zero == self.zero(),
    {
        self.x.is_zero() && self.y.is_zero() && self.z.is_zero()
    }
}

} // verus!
