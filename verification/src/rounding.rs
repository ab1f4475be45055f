//! Rounding to binary32 precision.
//!
//! Magnitudes are natural numbers of steps of 2^-149. A magnitude is a
//! binary32 value when it has at most 24 significant bits; `nearest` rounds
//! any magnitude to such a value, to the nearest one and on a tie to the one
//! with the even significand, as binary32 arithmetic does.

use vstd::arithmetic::div_mod::{
    lemma_basic_div,
    lemma_div_denominator,
    lemma_div_is_ordered,
    lemma_div_multiples_vanish_quotient,
    lemma_fundamental_div_mod,
    lemma_fundamental_div_mod_converse,
};
use vstd::arithmetic::power2::{
    lemma2_to64,
    lemma_pow2_adds,
    lemma_pow2_pos,
    lemma_pow2_strictly_increases,
    lemma_pow2_unfold,
    pow2,
};
use vstd::prelude::*;

verus! {

/// The number of low bits that `x` has beyond 24 significant ones.
pub open spec fn excess(x: nat) -> nat
    decreases x,
{
    if x < 0x100_0000 {
        0
    } else {
        1 + excess(x / 2)
    }
}

/// `x` rounded to a multiple of 2^s: to the nearer of the two multiples
/// around it, and midway between them to the one with the even quotient.
pub open spec fn round_at(x: nat, s: nat) -> nat {
    let p = pow2(s);
    let q = x / p;
    let r = x % p;
    if 2 * r > p || (2 * r == p && q % 2 == 1) {
        (q + 1) * p
    } else {
        q * p
    }
}

/// `x` rounded to 24 significant bits, ties to even.
pub open spec fn nearest(x: nat) -> nat {
    round_at(x, excess(x))
}

/// Powers of two do not decrease with the exponent.
pub proof fn lemma_pow2_ordered(a: nat, b: nat)
    requires
        a <= b,
    ensures
        pow2(a) <= pow2(b),
{
    if a < b {
        lemma_pow2_strictly_increases(a, b);
    }
}

/// A magnitude of at most 24 bits is its own rounding.
pub proof fn lemma_nearest_small(x: nat)
    requires
        x < 0x100_0000,
    ensures
        nearest(x) == x,
{
    lemma2_to64();
}

/// `excess(x)` is 0 below 2^24, and otherwise the `s` with
/// 2^(23+s) <= x < 2^(24+s).
pub proof fn lemma_excess_bounds(x: nat)
    ensures
        excess(x) == 0 ==> x < 0x100_0000,
        excess(x) >= 1 ==> pow2(23 + excess(x)) <= x < pow2(24 + excess(x)),
    decreases x,
{
    lemma2_to64();
    if x >= 0x100_0000 {
        let h = x / 2;
        let t = excess(h);
        lemma_excess_bounds(h);
        lemma_pow2_unfold(24 + t);
        lemma_pow2_unfold(25 + t);
    }
}

/// The converse of `lemma_excess_bounds`: the bounds determine `excess(x)`.
pub proof fn lemma_excess_is(x: nat, s: nat)
    requires
        x < pow2(24 + s),
        s >= 1 ==> pow2(23 + s) <= x,
    ensures
        excess(x) == s,
{
    let t = excess(x);
    lemma_excess_bounds(x);
    lemma2_to64();
    if t < s {
        lemma_pow2_ordered(24 + t, 23 + s);
    } else if t > s {
        lemma_pow2_ordered(24 + s, 23 + t);
    }
}

/// The quotient that `nearest` keeps has at most 24 bits, and exactly 24
/// when anything was cut off.
pub proof fn lemma_quotient_bounds(x: nat)
    ensures
        x / pow2(excess(x)) < 0x100_0000,
        excess(x) >= 1 ==> x / pow2(excess(x)) >= 0x80_0000,
{
    let s = excess(x);
    let p = pow2(s);
    let q = x / p;
    let r = x % p;
    lemma_excess_bounds(x);
    lemma2_to64();
    lemma_pow2_pos(s);
    lemma_pow2_adds(24, s);
    lemma_pow2_adds(23, s);
    lemma_fundamental_div_mod(x as int, p as int);
    assert(q < 0x100_0000) by (nonlinear_arith)
        requires
            x == p * q + r,
            0 <= r,
            p > 0,
            x < 0x100_0000 * p,
    ;
    if s >= 1 {
        assert(q >= 0x80_0000) by (nonlinear_arith)
            requires
                x == p * q + r,
                r < p,
                p > 0,
                x >= 0x80_0000 * p,
        ;
    }
}

/// Rounding at one more bit commutes with doubling.
pub proof fn lemma_round_at_double(x: nat, s: nat)
    ensures
        round_at(2 * x, s + 1) == 2 * round_at(x, s),
{
    let p = pow2(s);
    let q = x / p;
    let r = x % p;
    lemma_pow2_pos(s);
    lemma_pow2_unfold(s + 1);
    lemma_fundamental_div_mod(x as int, p as int);
    assert(2 * x == q * (2 * p) + 2 * r) by (nonlinear_arith)
        requires
            x == p * q + r,
    ;
    lemma_fundamental_div_mod_converse((2 * x) as int, (2 * p) as int, q as int, (2 * r) as int);
    assert((q + 1) * (2 * p) == 2 * ((q + 1) * p)) by (nonlinear_arith);
    assert(q * (2 * p) == 2 * (q * p)) by (nonlinear_arith);
}

/// Rounding commutes with doubling.
pub proof fn lemma_nearest_double(x: nat)
    ensures
        nearest(2 * x) == 2 * nearest(x),
{
    lemma2_to64();
    if 2 * x < 0x100_0000 {
        lemma_nearest_small(x);
        lemma_nearest_small(2 * x);
    } else if x < 0x100_0000 {
        lemma_nearest_small(x);
        assert((2 * x) / 2 == x);
        assert(excess(x) == 0);
        assert(excess(2 * x) == 1 + excess(x));
        lemma_round_at_double(x, 0);
    } else {
        assert((2 * x) / 2 == x);
        assert(excess(2 * x) == excess(x) + 1);
        lemma_round_at_double(x, excess(x));
    }
}

/// Rounding commutes with scaling by a power of two.
pub proof fn lemma_nearest_scale(x: nat, k: nat)
    ensures
        nearest(x * pow2(k)) == nearest(x) * pow2(k),
    decreases k,
{
    lemma2_to64();
    if k == 0 {
        assert(x * pow2(0) == x);
        assert(nearest(x) * pow2(0) == nearest(x));
    } else {
        let h = pow2((k - 1) as nat);
        lemma_pow2_unfold(k);
        lemma_nearest_scale(x, (k - 1) as nat);
        lemma_nearest_double(x * h);
        assert(x * (2 * h) == 2 * (x * h)) by (nonlinear_arith);
        assert(nearest(x) * (2 * h) == 2 * (nearest(x) * h)) by (nonlinear_arith);
    }
}

/// A magnitude of at most 24 significant bits, at any scale, is its own
/// rounding.
pub proof fn lemma_nearest_exact(x: nat, k: nat)
    requires
        x < 0x100_0000,
    ensures
        nearest(x * pow2(k)) == x * pow2(k),
{
    lemma_nearest_scale(x, k);
    lemma_nearest_small(x);
}

/// Rounding keeps the order of magnitudes.
pub proof fn lemma_nearest_monotone(x: nat, y: nat)
    requires
        x <= y,
    ensures
        nearest(x) <= nearest(y),
{
    let sx = excess(x);
    let sy = excess(y);
    let px = pow2(sx);
    let py = pow2(sy);
    let (qx, rx) = (x / px, x % px);
    let (qy, ry) = (y / py, y % py);
    lemma_excess_bounds(x);
    lemma_excess_bounds(y);
    lemma_quotient_bounds(x);
    lemma_quotient_bounds(y);
    lemma_pow2_pos(sx);
    lemma_pow2_pos(sy);
    lemma_fundamental_div_mod(x as int, px as int);
    lemma_fundamental_div_mod(y as int, py as int);
    lemma2_to64();
    if sx == sy {
        lemma_div_is_ordered(x as int, y as int, px as int);
        if qx == qy {
            assert((qx + 1) * px >= qx * px) by (nonlinear_arith)
                requires
                    px > 0,
            ;
        } else {
            assert(qx * px <= (qx + 1) * px && (qx + 1) * px <= qy * px && qy * px <= (qy + 1)
                * px) by (nonlinear_arith)
                requires
                    qx + 1 <= qy,
                    px > 0,
            ;
        }
    } else if sx < sy {
        lemma_pow2_adds(24, sx);
        lemma_pow2_adds(23, sy);
        lemma_pow2_ordered(24 + sx, 23 + sy);
        assert((qx + 1) * px <= 0x100_0000 * px && qx * px <= (qx + 1) * px) by (nonlinear_arith)
            requires
                qx < 0x100_0000,
                px > 0,
        ;
        assert(0x80_0000 * py <= qy * py && qy * py <= (qy + 1) * py) by (nonlinear_arith)
            requires
                qy >= 0x80_0000,
                py > 0,
        ;
    } else {
        lemma_pow2_ordered(24 + sy, 23 + sx);
    }
}

/// Just below 1.0 the binary32 values lie 2^-24 apart, so 1.0 less at most
/// 2^-25 rounds back to 1.0; at exactly 2^-25 the tie goes to 1.0, whose
/// significand is even.
pub proof fn lemma_nearest_below_one(g: nat)
    requires
        g <= pow2(124),
    ensures
        nearest((pow2(149) - g) as nat) == pow2(149),
{
    lemma2_to64();
    lemma_pow2_strictly_increases(124, 149);
    if g == 0 {
        lemma_nearest_exact(1, 149);
        assert(1 * pow2(149) == pow2(149));
    } else {
        let x = (pow2(149) - g) as nat;
        let p = pow2(125);
        lemma_pow2_unfold(125);
        lemma_pow2_unfold(149);
        lemma_pow2_adds(24, 125);
        lemma_pow2_adds(23, 125);
        lemma_pow2_pos(124);
        assert(pow2(148) == 0x80_0000 * p);
        assert(pow2(149) == 0x100_0000 * p);
        assert(pow2(148) <= x) by (nonlinear_arith)
            requires
                x == 0x100_0000 * p - g,
                g <= pow2(124),
                p == 2 * pow2(124),
                pow2(148) == 0x80_0000 * p,
        ;
        lemma_excess_is(x, 125);
        assert(x == 0xFF_FFFF * p + (p - g)) by (nonlinear_arith)
            requires
                x == 0x100_0000 * p - g,
        ;
        lemma_fundamental_div_mod_converse(x as int, p as int, 0xFF_FFFF, p - g);
        assert((0xFF_FFFF + 1) * p == 0x100_0000 * p);
    }
}

/// The channel of a magnitude: the magnitude times 255, rounded to binary32
/// precision, cut to its whole part and held to at most 255.
pub open spec fn channel_of(steps: nat) -> u8 {
    let whole = nearest(255 * steps) / pow2(149);
    if whole >= 255 {
        255u8
    } else {
        whole as u8
    }
}

/// For a magnitude of `x` units of 2^-k, the channel is the rounding of
/// `255 * x` divided by 2^k.
pub proof fn lemma_channel_scaled(x: nat, k: nat)
    requires
        k <= 149,
    ensures
        channel_of(x * pow2((149 - k) as nat)) == (if nearest(255 * x) / pow2(k) >= 255 {
            255u8
        } else {
            (nearest(255 * x) / pow2(k)) as u8
        }),
{
    let up = pow2((149 - k) as nat);
    let n = nearest(255 * x);
    lemma_pow2_pos(k);
    lemma_pow2_pos((149 - k) as nat);
    lemma_pow2_adds((149 - k) as nat, k);
    lemma_nearest_scale(255 * x, (149 - k) as nat);
    assert(255 * (x * up) == (255 * x) * up) by (nonlinear_arith);
    lemma_div_multiples_vanish_quotient(up as int, n as int, pow2(k) as int);
    assert(n * up == up * n) by (nonlinear_arith);
}

/// A larger magnitude has no smaller channel.
pub proof fn lemma_channel_monotone(a: nat, b: nat)
    requires
        a <= b,
    ensures
        channel_of(a) <= channel_of(b),
{
    lemma_nearest_monotone(255 * a, 255 * b);
    lemma_pow2_pos(149);
    lemma_div_is_ordered(nearest(255 * a) as int, nearest(255 * b) as int, pow2(149) as int);
}

/// The channel of 0.0 is 0 and the channel of 1.0 is 255.
pub proof fn lemma_channel_ends()
    ensures
        channel_of(0) == 0,
        channel_of(pow2(149)) == 255,
{
    lemma2_to64();
    lemma_pow2_pos(149);
    lemma_nearest_small(0);
    lemma_nearest_small(255);
    lemma_channel_scaled(1, 0);
    assert(1 * pow2(149) == pow2(149));
}

/// 2^k for an exponent below 64.
pub(crate) fn pow2_u64(k: u32) -> (p: u64)
    requires
        k < 64,
    ensures
        p == pow2(k as nat),
{
    let mut p: u64 = 1;
    let mut i: u32 = 0;
    proof {
        lemma2_to64();
    }
    while i < k
        invariant
            i <= k < 64,
            p == pow2(i as nat),
        decreases k - i,
    {
        proof {
            lemma2_to64();
            lemma_pow2_unfold((i + 1) as nat);
            lemma_pow2_ordered((i + 1) as nat, 63);
            lemma_pow2_adds(31, 32);
        }
        p = p * 2;
        i = i + 1;
    }
    p
}

/// `nearest` on a magnitude below 2^56.
pub(crate) fn nearest_u64(x: u64) -> (n: u64)
    requires
        x < 0x100_0000_0000_0000,
    ensures
        n == nearest(x as nat),
{
    let mut y: u64 = x;
    let mut p: u64 = 1;
    let ghost mut s: nat = 0;
    proof {
        lemma2_to64();
    }
    while y >= 0x100_0000
        invariant
            x < 0x100_0000_0000_0000,
            p == pow2(s),
            1 <= p <= 0x1_0000_0000,
            y == x / p,
            excess(x as nat) == s + excess(y as nat),
        decreases y,
    {
        proof {
            lemma_fundamental_div_mod(x as int, p as int);
            assert(p < 0x1_0000_0000) by (nonlinear_arith)
                requires
                    x == p * y + (x % p),
                    0 <= x % p,
                    y >= 0x100_0000,
                    x < 0x100_0000_0000_0000,
                    p >= 1,
            ;
            lemma2_to64();
            if s >= 32 {
                lemma_pow2_ordered(32, s);
            }
            lemma_pow2_ordered(s + 1, 32);
            lemma_div_denominator(x as int, p as int, 2);
            lemma_pow2_unfold(s + 1);
        }
        y = y / 2;
        p = p * 2;
        proof {
            s = s + 1;
        }
    }
    let q: u64 = y;
    proof {
        lemma_fundamental_div_mod(x as int, p as int);
        assert(q * p == p * q && (q + 1) * p <= 0x100_0000_0000_0000 && q * p <= (q + 1) * p)
            by (nonlinear_arith)
            requires
                q < 0x100_0000,
                1 <= p <= 0x1_0000_0000,
        ;
    }
    let r: u64 = x - q * p;
    if 2 * r > p || (2 * r == p && q % 2 == 1) {
        (q + 1) * p
    } else {
        q * p
    }
}

/// The channel of `x` units of 2^-k.
pub(crate) fn channel_scaled(x: u64, k: u32) -> (c: u8)
    requires
        x <= 0x1_0000_0000_0000,
        k <= 149,
    ensures
        c == channel_of(x as nat * pow2((149 - k) as nat)),
{
    let n: u64 = nearest_u64(255 * x);
    proof {
        lemma_channel_scaled(x as nat, k as nat);
    }
    if k >= 64 {
        proof {
            lemma2_to64();
            lemma_pow2_ordered(64, k as nat);
            lemma_basic_div(n as int, pow2(k as nat) as int);
        }
        0
    } else {
        let d: u64 = pow2_u64(k);
        proof {
            lemma_pow2_pos(k as nat);
        }
        let q: u64 = n / d;
        if q >= 255 {
            255
        } else {
            q as u8
        }
    }
}

} // verus!
