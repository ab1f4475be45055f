//! The reference colormap: a two-segment, piecewise-linear map from a scalar
//! to a colour, red at 0.0 through green at 0.5 to blue at 1.0.

use vstd::arithmetic::power2::{lemma2_to64, lemma_pow2_adds, lemma_pow2_pos, lemma_pow2_unfold, pow2};
use vstd::prelude::*;

use crate::rgba::Rgba;
use crate::rounding::{
    channel_of,
    channel_scaled,
    lemma_channel_ends,
    lemma_nearest_below_one,
    lemma_nearest_double,
    lemma_nearest_exact,
    lemma_nearest_monotone,
    lemma_nearest_scale,
    lemma_pow2_ordered,
    nearest,
    nearest_u64,
    pow2_u64,
};
use crate::scalar::{
    half_steps,
    lemma_comparisons_by_bits,
    lemma_half_and_one,
    lemma_magnitude_exact,
    lemma_order,
    one_steps,
    Scalar,
};

verus! {

/// The colour of a scalar `f`, every operation rounded as binary32
/// arithmetic rounds it.
///
/// Outside 0.0..=1.0 the result is the zero colour, alpha included. From 0.5
/// (excluded) up to 1.0, blue is `2 * (f - 0.5)` and green is `1 - blue`.
/// Up to 0.5, green is `2 * f` and red is `1 - green`. Alpha is 1.0 in both
/// segments, and every intensity is scaled to its channel. A NaN compares
/// false with every bound, falls into the lower segment and has NaN for red
/// and green, which scale to 0.
pub open spec fn simple_colormap(f: Scalar) -> Rgba {
    if f.below_zero() || f.above_one() {
        Rgba(0, 0, 0, 0)
    } else if f.is_nan() {
        Rgba(0, 0, 0, 255)
    } else if f.above_half() {
        let f2 = nearest((f.magnitude() - half_steps()) as nat);
        let blue = nearest(2 * f2);
        let green = nearest((one_steps() - blue) as nat);
        Rgba(0, channel_of(green), channel_of(blue), 255)
    } else {
        let green = nearest(2 * f.magnitude());
        let red = nearest((one_steps() - green) as nat);
        Rgba(channel_of(red), channel_of(green), 0, 255)
    }
}

/// In the upper segment, with `t` the distance of the bit pattern from that
/// of 0.5, every intermediate value is exact: blue is `t` and green is
/// `2^23 - t`, both in units of 2^-23.
proof fn lemma_upper_segment(f: Scalar, t: nat)
    requires
        0x3F00_0000 < f.bits <= 0x3F80_0000,
        t == f.bits - 0x3F00_0000,
    ensures
        simple_colormap(f) == Rgba(
            0,
            channel_of((0x80_0000 - t) as nat * pow2(126)),
            channel_of(t * pow2(126)),
            255,
        ),
{
    let p = pow2(125);
    lemma_comparisons_by_bits(f);
    lemma2_to64();
    lemma_pow2_adds(23, 125);
    lemma_pow2_adds(23, 126);
    lemma_pow2_unfold(126);
    assert(f.magnitude() == (0x80_0000 + t) * p) by {
        if f.bits == 0x3F80_0000 {
            assert(f.exponent() == 127);
            assert(0x80_0000 * (2 * p) == (0x80_0000 + 0x80_0000) * p) by (nonlinear_arith);
        } else {
            assert(f.exponent() == 126);
            assert(f.fraction() == t);
        }
    }
    assert(f.magnitude() - half_steps() == t * p) by (nonlinear_arith)
        requires
            f.magnitude() == (0x80_0000 + t) * p,
            half_steps() == 0x80_0000 * p,
    ;
    lemma_nearest_exact(t, 125);
    assert(2 * (t * p) == t * pow2(126)) by (nonlinear_arith)
        requires
            pow2(126) == 2 * p,
    ;
    lemma_nearest_exact(t, 126);
    assert(one_steps() - t * pow2(126) == (0x80_0000 - t) as nat * pow2(126)) by (nonlinear_arith)
        requires
            one_steps() == 0x80_0000 * pow2(126),
            t <= 0x80_0000,
    ;
    lemma_nearest_exact((0x80_0000 - t) as nat, 126);
}

/// In the lower segment green is exactly twice the scalar.
proof fn lemma_lower_green(f: Scalar)
    ensures
        nearest(2 * f.magnitude()) == 2 * f.magnitude(),
{
    lemma_nearest_double(f.magnitude());
    lemma_magnitude_exact(f);
}

/// The reference colormap.
///
/// Outside 0.0..=1.0 the colour is the zero colour. Everywhere else, a NaN
/// included, it is opaque. 0.0 is red, 0.5 is green and 1.0 is blue.
pub fn float2rgba_simple(f: Scalar) -> (rgba: Rgba)
    ensures
        rgba == simple_colormap(f),
        f.below_zero() || f.above_one() ==> rgba == Rgba(0, 0, 0, 0),
        !f.below_zero() && !f.above_one() ==> rgba.3 == 255,
        f.bits == 0 ==> rgba == Rgba(255, 0, 0, 255),
        f.bits == 0x3F00_0000 ==> rgba == Rgba(0, 255, 0, 255),
        f.bits == 0x3F80_0000 ==> rgba == Rgba(0, 0, 255, 255),
{
    proof {
        lemma_reference_colours();
    }
    if f.below_zero() || f.above_one() {
        return Rgba::default();
    }
    if f.is_nan() {
        return Rgba(0, 0, 0, 255);
    }
    proof {
        lemma_comparisons_by_bits(f);
    }
    if f.above_half() {
        // From 0.5 to 1.0 the scalars lie 2^-24 apart, so `f - 0.5` is `t`
        // of these steps, and blue, its double, is `t` units of 2^-23.
        let t: u64 = (f.bits - 0x3F00_0000) as u64;
        proof {
            lemma_upper_segment(f, t as nat);
        }
        let blue: u8 = channel_scaled(t, 23);
        let green: u8 = channel_scaled(0x80_0000 - t, 23);
        Rgba(0, green, blue, 255)
    } else {
        // Green, the double of the scalar, is `x` units of 2^-k.
        let bits: u32 = f.bits % 0x8000_0000;
        let e: u32 = bits / 0x80_0000;
        let m: u32 = bits % 0x80_0000;
        let x: u64 = if e == 0 {
            2 * (m as u64)
        } else {
            (0x80_0000 + m) as u64
        };
        let k: u32 = if e == 0 {
            149
        } else {
            149 - e
        };
        let ghost up = pow2((149 - k) as nat);
        proof {
            lemma2_to64();
            lemma_lower_green(f);
            assert(f.exponent() == e && f.fraction() == m);
            if e != 0 {
                lemma_pow2_unfold(e as nat);
                assert(2 * (x as nat * pow2((e - 1) as nat)) == x as nat * (2 * pow2((e - 1) as nat)))
                    by (nonlinear_arith);
            }
            assert(2 * f.magnitude() == x as nat * up);
        }
        let green: u8 = channel_scaled(x, k);
        let red: u8 = if bits <= 0x3280_0000 {
            // Up to 2^-26 the scalar is too small to be seen from 1.0.
            proof {
                let low = Scalar { bits: 0x3280_0000 };
                let plain = Scalar { bits };
                assert(low.exponent() == 101 && low.fraction() == 0);
                lemma_pow2_adds(23, 100);
                assert(plain.magnitude() == f.magnitude());
                lemma_order(plain, low);
                lemma_pow2_unfold(124);
                lemma_nearest_below_one(2 * f.magnitude());
                lemma_channel_ends();
            }
            255
        } else {
            // Red is `2^k - x` units of 2^-k, rounded.
            let whole: u64 = pow2_u64(k);
            proof {
                let half = Scalar { bits: 0x3F00_0000 };
                let plain = Scalar { bits };
                assert(plain.magnitude() == f.magnitude());
                lemma_half_and_one();
                lemma_order(plain, half);
                lemma_pow2_unfold(149);
                lemma_pow2_adds(k as nat, e as nat);
                lemma_pow2_pos(e as nat);
                assert(x <= whole) by (nonlinear_arith)
                    requires
                        x * up <= whole * up,
                        up > 0,
                ;
                lemma_pow2_ordered(k as nat, 48);
                lemma_pow2_adds(24, 24);
            }
            let d: u64 = whole - x;
            let dn: u64 = nearest_u64(d);
            proof {
                assert(one_steps() - x as nat * up == d as nat * up) by (nonlinear_arith)
                    requires
                        one_steps() == whole * up,
                        d == whole - x,
                ;
                lemma_nearest_scale(d as nat, e as nat);
                lemma_nearest_monotone(d as nat, pow2(48));
                lemma_nearest_exact(1, 48);
                assert(1 * pow2(48) == pow2(48));
            }
            channel_scaled(dn, k)
        };
        Rgba(red, green, 0, 255)
    }
}

/// The colours at the ends and at the middle: 0.0 is red, 0.5 is green and
/// 1.0 is blue, each fully opaque.
pub proof fn lemma_reference_colours()
    ensures
        simple_colormap(Scalar { bits: 0 }) == Rgba(255, 0, 0, 255),
        simple_colormap(Scalar { bits: 0x3F00_0000 }) == Rgba(0, 255, 0, 255),
        simple_colormap(Scalar { bits: 0x3F80_0000 }) == Rgba(0, 0, 255, 255),
{
    let zero = Scalar { bits: 0 };
    let half = Scalar { bits: 0x3F00_0000 };
    let one = Scalar { bits: 0x3F80_0000 };
    lemma_comparisons_by_bits(zero);
    lemma_comparisons_by_bits(half);
    lemma_comparisons_by_bits(one);
    lemma_half_and_one();
    lemma_channel_ends();
    lemma2_to64();
    lemma_pow2_unfold(149);
    lemma_nearest_exact(0, 0);
    lemma_nearest_exact(1, 148);
    lemma_nearest_exact(1, 149);
    assert(1 * pow2(148) == pow2(148));
    assert(1 * pow2(149) == pow2(149));
    assert(0 * pow2(0) == 0);
    assert(zero.magnitude() == 0);
    assert(zero.exponent() == 0 && half.exponent() == 126 && one.exponent() == 127);
}

} // verus!
