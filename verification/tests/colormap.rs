use float2rgba::colormap::float2rgba_simple;
use float2rgba::rgba::Rgba;
use float2rgba::scalar::Scalar;

fn scalar(f: f32) -> Scalar {
    Scalar::from_bits(f.to_bits())
}

/// The colormap in hardware arithmetic.
fn in_floats(f: f32) -> Rgba {
    let from_f = |r: f32, g: f32, b: f32, a: f32| {
        Rgba(
            (255.0 * r) as u8,
            (255.0 * g) as u8,
            (255.0 * b) as u8,
            (255.0 * a) as u8,
        )
    };
    let g05: f32 = 2.0 * f;
    let r05: f32 = 1.0 - g05;
    let low = from_f(r05, g05, 0.0, 1.0);
    let f51: f32 = f - 0.5;
    let b51: f32 = 2.0 * f51;
    let g51: f32 = 1.0 - b51;
    let high = from_f(0.0, g51, b51, 1.0);
    if f < 0.0 || 1.0 < f {
        Rgba(0, 0, 0, 0)
    } else if 0.5 < f {
        high
    } else {
        low
    }
}

fn agree(bits: u32) {
    let got = float2rgba_simple(Scalar::from_bits(bits));
    let want = in_floats(f32::from_bits(bits));
    assert_eq!(got, want, "bits {:#010x}", bits);
}

fn next(state: &mut u64) -> u32 {
    *state = state
        .wrapping_mul(6364136223846793005)
        .wrapping_add(1442695040888963407);
    (*state >> 32) as u32
}

#[test]
fn out_of_bound() {
    let f: f32 = -1.0;
    let rgba: Rgba = float2rgba_simple(scalar(f));
    assert_eq!(rgba.0, 0);
    assert_eq!(rgba.1, 0);
    assert_eq!(rgba.2, 0);
    assert_eq!(rgba.3, 0);
}

#[test]
fn red() {
    let f: f32 = 0.0;
    let rgba: Rgba = float2rgba_simple(scalar(f));
    assert_eq!(rgba.0, 255);
    assert_eq!(rgba.1, 0);
    assert_eq!(rgba.2, 0);
    assert_eq!(rgba.3, 255);
}

#[test]
fn green() {
    let f: f32 = 0.5;
    let rgba: Rgba = float2rgba_simple(scalar(f));
    assert_eq!(rgba.0, 0);
    assert_eq!(rgba.1, 255);
    assert_eq!(rgba.2, 0);
    assert_eq!(rgba.3, 255);
}

#[test]
fn blue() {
    let f: f32 = 1.0;
    let rgba: Rgba = float2rgba_simple(scalar(f));
    assert_eq!(rgba.0, 0);
    assert_eq!(rgba.1, 0);
    assert_eq!(rgba.2, 255);
    assert_eq!(rgba.3, 255);
}

#[test]
fn above_one_is_the_zero_colour() {
    assert_eq!(float2rgba_simple(scalar(1.5)), Rgba(0, 0, 0, 0));
    assert_eq!(float2rgba_simple(scalar(2.0)), Rgba(0, 0, 0, 0));
    assert_eq!(float2rgba_simple(scalar(f32::INFINITY)), Rgba(0, 0, 0, 0));
    assert_eq!(
        float2rgba_simple(scalar(f32::NEG_INFINITY)),
        Rgba(0, 0, 0, 0)
    );
    assert_eq!(
        float2rgba_simple(Scalar::from_bits(0x3F80_0001)),
        Rgba(0, 0, 0, 0)
    );
    assert_eq!(
        float2rgba_simple(Scalar::from_bits(0x8000_0001)),
        Rgba(0, 0, 0, 0)
    );
}

#[test]
fn table_of_eighths() {
    assert_eq!(float2rgba_simple(scalar(0.125)), Rgba(191, 63, 0, 255));
    assert_eq!(float2rgba_simple(scalar(0.25)), Rgba(127, 127, 0, 255));
    assert_eq!(float2rgba_simple(scalar(0.375)), Rgba(63, 191, 0, 255));
    assert_eq!(float2rgba_simple(scalar(0.625)), Rgba(0, 191, 63, 255));
    assert_eq!(float2rgba_simple(scalar(0.75)), Rgba(0, 127, 127, 255));
    assert_eq!(float2rgba_simple(scalar(0.875)), Rgba(0, 63, 191, 255));
}

#[test]
fn negative_zero_is_red() {
    assert_eq!(float2rgba_simple(scalar(-0.0)), Rgba(255, 0, 0, 255));
}

#[test]
fn nan_is_opaque_black() {
    assert_eq!(float2rgba_simple(scalar(f32::NAN)), Rgba(0, 0, 0, 255));
    assert_eq!(
        float2rgba_simple(Scalar::from_bits(0xFFC0_0000)),
        Rgba(0, 0, 0, 255)
    );
    assert_eq!(
        float2rgba_simple(Scalar::from_bits(0x7F80_0001)),
        Rgba(0, 0, 0, 255)
    );
}

#[test]
fn rounding_decides_a_channel() {
    // 1.0 - 2.0e-10 is nearer to 1.0 than to any other binary32 value, so
    // red is 255; cut from the exact difference it would be 254.
    assert_eq!(in_floats(1.0e-10), Rgba(255, 0, 0, 255));
    assert_eq!(float2rgba_simple(scalar(1.0e-10)), Rgba(255, 0, 0, 255));
    // At 2^-26 the difference lies midway and goes to 1.0, the even one;
    // one step further it goes down.
    assert_eq!(
        float2rgba_simple(Scalar::from_bits(0x3280_0000)),
        Rgba(255, 0, 0, 255)
    );
    assert_eq!(
        float2rgba_simple(Scalar::from_bits(0x3280_0001)),
        Rgba(254, 0, 0, 255)
    );
    assert_eq!(
        in_floats(f32::from_bits(0x3280_0001)),
        Rgba(254, 0, 0, 255)
    );
}

#[test]
fn unit_range_is_opaque() {
    let mut state: u64 = 7;
    for _ in 0..200_000 {
        let bits = next(&mut state) % 0x3F80_0001;
        let rgba = float2rgba_simple(Scalar::from_bits(bits));
        assert_eq!(rgba.3, 255);
    }
}

#[test]
fn agrees_with_floats_at_every_exponent() {
    let mut state: u64 = 1;
    for sign in 0..2u32 {
        for e in 0..256u32 {
            let base = sign << 31 | e << 23;
            for m in [0u32, 1, 2, 3, 0x40_0000, 0x7F_FFFE, 0x7F_FFFF] {
                agree(base | m);
            }
            for _ in 0..1500 {
                agree(base | (next(&mut state) & 0x7F_FFFF));
            }
        }
    }
}

#[test]
fn agrees_with_floats_around_the_bounds() {
    for centre in [
        0x0000_0000u32 + 0x1_0000,
        0x0080_0000,
        0x3280_0000,
        0x3300_0000,
        0x3B80_0000,
        0x3F00_0000,
        0x3F80_0000,
        0x7F80_0000,
        0x8000_0000 + 0x1_0000,
        0xFF80_0000,
    ] {
        for bits in centre - 0x1_0000..=centre + 0x1_0000 {
            agree(bits);
        }
    }
}

#[test]
fn agrees_with_floats_in_the_lower_segment() {
    let mut bits: u32 = 0x3200_0000;
    while bits <= 0x3F00_0000 {
        agree(bits);
        bits += 211;
    }
}

#[test]
fn agrees_with_floats_in_the_upper_segment() {
    let mut bits: u32 = 0x3F00_0000;
    while bits <= 0x3F80_0000 {
        agree(bits);
        bits += 7;
    }
}

#[test]
fn agrees_with_floats_on_random_patterns() {
    let mut state: u64 = 42;
    for _ in 0..1_000_000 {
        agree(next(&mut state));
    }
}

#[test]
fn from_f_saturates() {
    let zero = scalar(0.0);
    assert_eq!(
        Rgba::from_f(scalar(-1.0), scalar(2.0), scalar(f32::NAN), scalar(1.0)),
        Rgba(0, 255, 0, 255)
    );
    assert_eq!(
        Rgba::from_f(
            scalar(f32::INFINITY),
            scalar(f32::NEG_INFINITY),
            scalar(-0.0),
            zero
        ),
        Rgba(255, 0, 0, 0)
    );
    assert_eq!(
        Rgba::from_f(scalar(0.5), scalar(0.25), scalar(1.0e-40), scalar(0.999)),
        Rgba(127, 63, 0, 254)
    );
    assert_eq!(
        Rgba::from_f(scalar(1.0e30), scalar(1.0039216), scalar(0.003921569), zero),
        Rgba(255, 255, 1, 0)
    );
}

#[test]
fn from_f_agrees_with_the_cast() {
    let mut state: u64 = 99;
    for i in 0..1_000_000u32 {
        let bits = if i % 2 == 0 {
            next(&mut state)
        } else {
            0x3B00_0000 + next(&mut state) % 0x0500_0000
        };
        let want = (255.0 * f32::from_bits(bits)) as u8;
        let s = Scalar::from_bits(bits);
        assert_eq!(s.channel(), want, "bits {:#010x}", bits);
        assert_eq!(Rgba::from_f(s, s, s, s), Rgba(want, want, want, want));
    }
}

#[test]
fn comparisons_agree_with_floats() {
    let mut state: u64 = 5;
    for i in 0..400_000u32 {
        let bits = match i % 4 {
            0 => next(&mut state),
            1 => 0x3F00_0000 - 50 + next(&mut state) % 100,
            2 => 0x3F80_0000 - 50 + next(&mut state) % 100,
            _ => 0x7F80_0000 - 50 + (next(&mut state) % 100) + (next(&mut state) & 0x8000_0000),
        };
        let f = f32::from_bits(bits);
        let s = Scalar::from_bits(bits);
        assert_eq!(s.is_nan(), f.is_nan());
        assert_eq!(s.below_zero(), f < 0.0);
        assert_eq!(s.above_half(), 0.5 < f);
        assert_eq!(s.above_one(), 1.0 < f);
        assert_eq!(s.to_bits(), bits);
    }
}
