//! Single-precision readings, held as IEEE-754 bit patterns.
//!
//! A bit pattern is read as sign, biased exponent and fraction. Every value that
//! is not a NaN is given an integer `scaled()`: for a finite value this is the
//! value multiplied by 2^149, and the two infinities lie beyond every finite one.
//! Ordering two readings is ordering their scaled integers.

use vstd::arithmetic::mul::*;
use vstd::arithmetic::power2::*;
use vstd::prelude::*;

verus! {

/// Number of distinct fraction patterns, 2^23.
pub const FRACTION_SPAN: u32 = 0x0080_0000;

/// The sign bit; every magnitude pattern lies below it.
pub const SIGN_BIT: u32 = 0x8000_0000;

/// Magnitude pattern of infinity; larger magnitude patterns are NaNs.
pub const INFINITY_BITS: u32 = 0x7f80_0000;

/// A single-precision floating-point value, by its bit pattern.
#[derive(Clone, Copy, PartialEq, Eq, Structural, Debug)]
pub struct Single {
    pub bits: u32,
}

/// Scaled size of a magnitude pattern (a bit pattern with the sign bit cleared).
pub open spec fn magnitude_of(pattern: nat) -> nat {
    let exponent = pattern / (FRACTION_SPAN as nat);
    let fraction = pattern % (FRACTION_SPAN as nat);
    if exponent == 0 {
        fraction
    } else {
        (FRACTION_SPAN as nat + fraction) * pow2((exponent - 1) as nat)
    }
}

impl Single {
    /// Whether the sign bit is set.
    pub open spec fn is_negative(self) -> bool {
        self.bits >= SIGN_BIT
    }

    /// The bit pattern without its sign bit.
    pub open spec fn magnitude_bits(self) -> nat {
        if self.bits >= SIGN_BIT {
            (self.bits - SIGN_BIT) as nat
        } else {
            self.bits as nat
        }
    }

    /// The biased exponent, 0 to 255.
    pub open spec fn exponent(self) -> nat {
        self.magnitude_bits() / (FRACTION_SPAN as nat)
    }

    /// The 23 fraction bits.
    pub open spec fn fraction(self) -> nat {
        self.magnitude_bits() % (FRACTION_SPAN as nat)
    }

    /// Not a number: the exponent is all ones and the fraction is not zero.
    pub open spec fn is_nan(self) -> bool {
        self.exponent() == 255 && self.fraction() != 0
    }

    /// The absolute value times 2^149; infinity comes out above every finite value.
    pub open spec fn magnitude(self) -> nat {
        magnitude_of(self.magnitude_bits())
    }

    /// The value times 2^149, with its sign.
    pub open spec fn scaled(self) -> int {
        if self.is_negative() {
            -(self.magnitude() as int)
        } else {
            self.magnitude() as int
        }
    }

    /// `self > other` as IEEE-754 defines it: false when either side is a NaN,
    /// and the two zeros are equal.
    pub open spec fn greater_than(self, other: Single) -> bool {
        !self.is_nan() && !other.is_nan() && self.scaled() > other.scaled()
    }

    /// Wraps a bit pattern.
    pub fn from_bits(bits: u32) -> (r: Single)
        ensures
            r.bits == bits,
    {
        Single { bits }
    }

    /// The bit pattern.
    pub fn to_bits(self) -> (r: u32)
        ensures
            r == self.bits,
    {
        self.bits
    }

    /// Whether `self` is strictly greater than `other`.
    pub fn gt(self, other: Single) -> (r: bool)
        ensures
            r == self.greater_than(other),
    {
        let a: u32 = if self.bits >= SIGN_BIT { self.bits - SIGN_BIT } else { self.bits };
        let b: u32 = if other.bits >= SIGN_BIT { other.bits - SIGN_BIT } else { other.bits };
        proof {
            lemma_nan_patterns(a as nat);
            lemma_nan_patterns(b as nat);
            lemma_magnitude_zero(a as nat);
            lemma_magnitude_zero(b as nat);
            if a < b {
                lemma_magnitude_increases(a as nat, b as nat);
            }
            if b < a {
                lemma_magnitude_increases(b as nat, a as nat);
            }
        }
        if a > INFINITY_BITS || b > INFINITY_BITS {
            false
        } else if self.bits >= SIGN_BIT {
            other.bits >= SIGN_BIT && a < b
        } else if other.bits >= SIGN_BIT {
            a > 0 || b > 0
        } else {
            a > b
        }
    }
}

/// A magnitude pattern is a NaN exactly when it lies above that of infinity.
pub proof fn lemma_nan_patterns(pattern: nat)
    requires
        pattern < SIGN_BIT,
    ensures
        pattern / (FRACTION_SPAN as nat) <= 255,
        (pattern / (FRACTION_SPAN as nat) == 255 && pattern % (FRACTION_SPAN as nat) != 0)
            <==> pattern > INFINITY_BITS,
{
}

/// Only the all-zero magnitude pattern has scaled size zero.
pub proof fn lemma_magnitude_zero(pattern: nat)
    ensures
        magnitude_of(pattern) == 0 <==> pattern == 0,
{
    let exponent = pattern / (FRACTION_SPAN as nat);
    let fraction = pattern % (FRACTION_SPAN as nat);
    if exponent != 0 {
        lemma_pow2_pos((exponent - 1) as nat);
        lemma_mul_strictly_positive(
            (FRACTION_SPAN as nat + fraction) as int,
            pow2((exponent - 1) as nat) as int,
        );
    }
}

/// Scaled size grows strictly with the magnitude pattern.
pub proof fn lemma_magnitude_increases(low: nat, high: nat)
    requires
        low < high,
    ensures
        magnitude_of(low) < magnitude_of(high),
{
    let span = FRACTION_SPAN as nat;
    let low_exponent = low / span;
    let low_fraction = low % span;
    let high_exponent = high / span;
    let high_fraction = high % span;
    assert(low == low_exponent * span + low_fraction && low_fraction < span) by {
        vstd::arithmetic::div_mod::lemma_fundamental_div_mod(low as int, span as int);
    }
    assert(high == high_exponent * span + high_fraction && high_fraction < span) by {
        vstd::arithmetic::div_mod::lemma_fundamental_div_mod(high as int, span as int);
    }
    assert(low_exponent <= high_exponent) by {
        vstd::arithmetic::div_mod::lemma_div_is_ordered(low as int, high as int, span as int);
    }
    if low_exponent == high_exponent {
        if low_exponent != 0 {
            let scale = pow2((low_exponent - 1) as nat);
            lemma_pow2_pos((low_exponent - 1) as nat);
            lemma_mul_strict_inequality(
                (span + low_fraction) as int,
                (span + high_fraction) as int,
                scale as int,
            );
        }
    } else {
        // The higher pattern lies in a later binade.
        let high_scale = pow2((high_exponent - 1) as nat);
        lemma_pow2_pos((high_exponent - 1) as nat);
        assert(span * high_scale <= (span + high_fraction) * high_scale) by {
            lemma_mul_inequality(span as int, (span + high_fraction) as int, high_scale as int);
        }
        if low_exponent == 0 {
            assert(span * 1 <= span * high_scale) by {
                lemma_mul_left_inequality(span as int, 1, high_scale as int);
            }
        } else {
            let low_scale = pow2((low_exponent - 1) as nat);
            lemma_pow2_pos((low_exponent - 1) as nat);
            assert((span + low_fraction) * low_scale < (2 * span) * low_scale) by {
                lemma_mul_strict_inequality(
                    (span + low_fraction) as int,
                    (2 * span) as int,
                    low_scale as int,
                );
            }
            assert(pow2(low_exponent) == 2 * low_scale) by {
                lemma_pow2_unfold(low_exponent);
            }
            assert(pow2(low_exponent) <= high_scale) by {
                if low_exponent < high_exponent - 1 {
                    lemma_pow2_strictly_increases(low_exponent, (high_exponent - 1) as nat);
                }
            }
            assert((2 * span) * low_scale == span * pow2(low_exponent)) by {
                lemma_mul_is_associative(span as int, 2, low_scale as int);
                lemma_mul_is_commutative(span as int, 2);
            }
            assert(span * pow2(low_exponent) <= span * high_scale) by {
                lemma_mul_left_inequality(
                    span as int,
                    pow2(low_exponent) as int,
                    high_scale as int,
                );
            }
        }
    }
}

} // verus!
