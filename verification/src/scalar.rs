//! Binary32 scalars, carried by their bit pattern.
//!
//! A scalar is an IEEE 754 single-precision value: one sign bit, eight
//! exponent bits and twenty-three fraction bits. Every finite binary32 value
//! is a whole number of steps of 2^-149, so the specifications measure
//! magnitudes in such steps, as natural numbers.

use vstd::arithmetic::power2::{
    lemma2_to64,
    lemma_pow2_adds,
    lemma_pow2_pos,
    lemma_pow2_strictly_increases,
    pow2,
};
use vstd::prelude::*;

use crate::rounding::{
    channel_of,
    channel_scaled,
    lemma_channel_ends,
    lemma_channel_monotone,
    lemma_nearest_exact,
    lemma_nearest_small,
    nearest,
};

verus! {

/// The value 1.0, in steps of 2^-149.
pub open spec fn one_steps() -> nat {
    pow2(149)
}

/// The value 0.5, in steps of 2^-149.
pub open spec fn half_steps() -> nat {
    pow2(148)
}

/// A binary32 value, held as its 32 bits.
#[derive(Clone, Copy, Debug, PartialEq, Eq, Structural)]
pub struct Scalar {
    pub bits: u32,
}

impl Scalar {
    /// Whether the sign bit is set.
    pub open spec fn sign(self) -> bool {
        self.bits >= 0x8000_0000
    }

    /// The biased exponent field, 0 to 255.
    pub open spec fn exponent(self) -> nat {
        ((self.bits / 0x80_0000) % 0x100) as nat
    }

    /// The fraction field, below 2^23.
    pub open spec fn fraction(self) -> nat {
        (self.bits % 0x80_0000) as nat
    }

    /// Not a number: the exponent field is all ones and the fraction is not 0.
    pub open spec fn spec_is_nan(self) -> bool {
        self.exponent() == 255 && self.fraction() != 0
    }

    /// The absolute value in steps of 2^-149. It is exact for every finite
    /// scalar; for an infinity it is a number above every finite magnitude.
    pub open spec fn magnitude(self) -> nat {
        if self.exponent() == 0 {
            self.fraction()
        } else {
            (0x80_0000 + self.fraction()) * pow2((self.exponent() - 1) as nat)
        }
    }

    /// The comparison `self < 0.0`: false for both zeros and for a NaN.
    pub open spec fn spec_below_zero(self) -> bool {
        self.sign() && !self.spec_is_nan() && self.magnitude() > 0
    }

    /// The comparison `0.5 < self`: false for a NaN.
    pub open spec fn spec_above_half(self) -> bool {
        !self.sign() && !self.spec_is_nan() && self.magnitude() > half_steps()
    }

    /// The comparison `1.0 < self`: false for a NaN.
    pub open spec fn spec_above_one(self) -> bool {
        !self.sign() && !self.spec_is_nan() && self.magnitude() > one_steps()
    }

    /// Whether the scalar lies in 0.0..=1.0. Negative zero does, a NaN does
    /// not.
    pub open spec fn in_unit_range(self) -> bool {
        !self.spec_is_nan() && !self.spec_below_zero() && !self.spec_above_one()
    }

    /// The scalar with the given bit pattern.
    pub fn from_bits(bits: u32) -> (s: Scalar)
        ensures
            s.bits == bits,
    {
        Scalar { bits }
    }

    /// The bit pattern.
    pub fn to_bits(self) -> (bits: u32)
        ensures
            bits == self.bits,
    {
        self.bits
    }

    /// The channel that the scalar is scaled to: the scalar times 255 in
    /// binary32 arithmetic, cut toward zero and held to 0..=255. A NaN and
    /// every scalar with the sign bit set give 0.
    pub open spec fn spec_channel(self) -> u8 {
        if self.sign() || self.spec_is_nan() {
            0u8
        } else {
            channel_of(self.magnitude())
        }
    }

    /// Whether the scalar is a NaN.
    #[verifier::when_used_as_spec(spec_is_nan)]
    pub fn is_nan(self) -> (b: bool)
        ensures
            b == self.spec_is_nan(),
    {
        self.bits % 0x8000_0000 > 0x7F80_0000
    }

    /// Whether the scalar is less than 0.0.
    #[verifier::when_used_as_spec(spec_below_zero)]
    pub fn below_zero(self) -> (b: bool)
        ensures
            b == self.spec_below_zero(),
    {
        proof {
            lemma_comparisons_by_bits(self);
        }
        0x8000_0000 < self.bits && self.bits <= 0xFF80_0000
    }

    /// Whether the scalar is greater than 0.5.
    #[verifier::when_used_as_spec(spec_above_half)]
    pub fn above_half(self) -> (b: bool)
        ensures
            b == self.spec_above_half(),
    {
        proof {
            lemma_comparisons_by_bits(self);
        }
        0x3F00_0000 < self.bits && self.bits <= 0x7F80_0000
    }

    /// Whether the scalar is greater than 1.0.
    #[verifier::when_used_as_spec(spec_above_one)]
    pub fn above_one(self) -> (b: bool)
        ensures
            b == self.spec_above_one(),
    {
        proof {
            lemma_comparisons_by_bits(self);
        }
        0x3F80_0000 < self.bits && self.bits <= 0x7F80_0000
    }

    /// Scales the scalar to a channel. Nothing is rejected: a scalar below
    /// 0.0 gives 0, as a NaN does, and a scalar from 1.0 on gives 255.
    #[verifier::when_used_as_spec(spec_channel)]
    pub fn channel(self) -> (c: u8)
        ensures
            c == self.spec_channel(),
            self.sign() || self.spec_is_nan() ==> c == 0,
            !self.sign() && !self.spec_is_nan() && self.magnitude() >= one_steps() ==> c == 255,
    {
        proof {
            if !self.sign() && !self.spec_is_nan() && self.magnitude() >= one_steps() {
                lemma_channel_saturates(self);
            }
        }
        if self.bits >= 0x8000_0000 || self.is_nan() {
            0
        } else if self.bits >= 0x3F80_0000 {
            proof {
                lemma_half_and_one();
                lemma_order(Scalar { bits: 0x3F80_0000 }, self);
            }
            255
        } else {
            let e: u32 = self.bits / 0x80_0000;
            let m: u32 = self.bits % 0x80_0000;
            if e == 0 {
                proof {
                    lemma2_to64();
                    assert(m as nat * pow2(0) == m);
                }
                channel_scaled(m as u64, 149)
            } else {
                channel_scaled((0x80_0000 + m) as u64, 150 - e)
            }
        }
    }
}

/// The three comparisons, read off the bit pattern.
pub proof fn lemma_comparisons_by_bits(s: Scalar)
    ensures
        s.spec_below_zero() <==> 0x8000_0000 < s.bits <= 0xFF80_0000,
        s.spec_above_half() <==> 0x3F00_0000 < s.bits <= 0x7F80_0000,
        s.spec_above_one() <==> 0x3F80_0000 < s.bits <= 0x7F80_0000,
{
    lemma_half_and_one();
    if s.sign() {
        if s.exponent() != 0 {
            lemma_magnitude_bounds(s);
            lemma_pow2_pos(s.exponent() + 22);
        }
    } else {
        lemma_order(s, Scalar { bits: 0x3F00_0000 });
        lemma_order(s, Scalar { bits: 0x3F80_0000 });
    }
}

/// From 1.0 on, every scalar that is neither negative nor a NaN scales to
/// 255.
pub proof fn lemma_channel_saturates(s: Scalar)
    requires
        !s.sign(),
        !s.spec_is_nan(),
        s.magnitude() >= one_steps(),
    ensures
        s.spec_channel() == 255,
{
    lemma_channel_ends();
    lemma_channel_monotone(one_steps(), s.magnitude());
}

/// The magnitude of a finite scalar is a binary32 value: rounding keeps it.
pub proof fn lemma_magnitude_exact(s: Scalar)
    ensures
        nearest(s.magnitude()) == s.magnitude(),
{
    if s.exponent() == 0 {
        lemma_nearest_small(s.fraction());
    } else {
        lemma_nearest_exact(0x80_0000 + s.fraction(), (s.exponent() - 1) as nat);
    }
}

/// A scalar with a non-zero exponent field `e` has a magnitude from 2^(e+22)
/// up to, but not reaching, 2^(e+23).
pub proof fn lemma_magnitude_bounds(s: Scalar)
    requires
        s.exponent() != 0,
    ensures
        pow2(s.exponent() + 22) <= s.magnitude() < pow2(s.exponent() + 23),
{
    let low = (s.exponent() - 1) as nat;
    let p = pow2(low);
    let sig = 0x80_0000 + s.fraction();
    lemma2_to64();
    lemma_pow2_adds(23, low);
    lemma_pow2_adds(24, low);
    lemma_pow2_pos(low);
    assert(0x80_0000 * p <= sig * p < 0x100_0000 * p) by (nonlinear_arith)
        requires
            0x80_0000 <= sig < 0x100_0000,
            p > 0,
    ;
}

/// Among bit patterns with a clear sign bit, a smaller pattern is a smaller
/// magnitude: the order of non-negative scalars is the order of their bits.
pub proof fn lemma_order(a: Scalar, b: Scalar)
    requires
        !a.sign(),
        !b.sign(),
    ensures
        a.bits < b.bits <==> a.magnitude() < b.magnitude(),
        a.bits == b.bits <==> a.magnitude() == b.magnitude(),
{
    if a.bits < b.bits {
        lemma_order_strict(a, b);
    } else if b.bits < a.bits {
        lemma_order_strict(b, a);
    }
}

proof fn lemma_order_strict(a: Scalar, b: Scalar)
    requires
        !a.sign(),
        !b.sign(),
        a.bits < b.bits,
    ensures
        a.magnitude() < b.magnitude(),
{
    let (ea, eb) = (a.exponent(), b.exponent());
    assert(a.bits == ea * 0x80_0000 + a.fraction());
    assert(b.bits == eb * 0x80_0000 + b.fraction());
    if ea == eb {
        if ea != 0 {
            let p = pow2((ea - 1) as nat);
            lemma_pow2_pos((ea - 1) as nat);
            assert((0x80_0000 + a.fraction()) * p < (0x80_0000 + b.fraction()) * p)
                by (nonlinear_arith)
                requires
                    a.fraction() < b.fraction(),
                    p > 0,
            ;
        }
    } else {
        assert(ea < eb);
        lemma_magnitude_bounds(b);
        lemma2_to64();
        if ea == 0 {
            if 23 < eb + 22 {
                lemma_pow2_strictly_increases(23, eb + 22);
            }
        } else {
            lemma_magnitude_bounds(a);
            if ea + 23 < eb + 22 {
                lemma_pow2_strictly_increases(ea + 23, eb + 22);
            }
        }
    }
}

/// The bit patterns of 0.5 and of 1.0 have the magnitudes 2^148 and 2^149.
pub proof fn lemma_half_and_one()
    ensures
        (Scalar { bits: 0x3F00_0000 }).magnitude() == half_steps(),
        (Scalar { bits: 0x3F80_0000 }).magnitude() == one_steps(),
{
    lemma2_to64();
    lemma_pow2_adds(23, 125);
    lemma_pow2_adds(23, 126);
    assert((Scalar { bits: 0x3F00_0000 }).exponent() == 126);
    assert((Scalar { bits: 0x3F80_0000 }).exponent() == 127);
}

} // verus!
