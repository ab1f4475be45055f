//! The four-channel colour value and its 32-bit packed form.

use vstd::prelude::*;

use crate::scalar::Scalar;

verus! {

/// A colour of four independent 8-bit channels: red, green, blue, alpha.
#[derive(Clone, Copy, Debug, PartialEq, Eq, Structural)]
pub struct Rgba(pub u8, pub u8, pub u8, pub u8);

impl Rgba {
    /// The colour of four intensities, each nominally from 0.0 to 1.0 and
    /// each scaled to its channel. Nothing is rejected: an intensity outside
    /// that range saturates.
    pub fn from_f(r: Scalar, g: Scalar, b: Scalar, a: Scalar) -> (rgba: Rgba)
        ensures
            rgba == Rgba(r.channel(), g.channel(), b.channel(), a.channel()),
    {
        Rgba(r.channel(), g.channel(), b.channel(), a.channel())
    }

    /// The packed value as a number: red is the most significant byte, then
    /// green, then blue, and alpha is the least significant byte.
    pub open spec fn packed(self) -> int {
        self.0 * 0x100_0000 + self.1 * 0x1_0000 + self.2 * 0x100 + self.3
    }
}

impl Default for Rgba {
    /// The zero colour: every channel 0, alpha included.
    fn default() -> (rgba: Rgba)
        ensures
            rgba == Rgba(0, 0, 0, 0),
    {
        Rgba(0, 0, 0, 0)
    }
}

/// Shifting the four bytes into place and joining them with `|` is the
/// positional sum of `Rgba::packed`.
pub proof fn lemma_packed_by_shifts(r: u8, g: u8, b: u8, a: u8)
    ensures
        ((r as u32) << 24 | (g as u32) << 16 | (b as u32) << 8 | (a as u32)) == Rgba(
            r,
            g,
            b,
            a,
        ).packed(),
{
    assert(((r as u32) << 24 | (g as u32) << 16 | (b as u32) << 8 | (a as u32)) == r * 0x100_0000
        + g * 0x1_0000 + b * 0x100 + a) by (bit_vector);
}

/// Unpacking by shifts recovers the channels: for every colour, the packed
/// value shifted right by 24, 16, 8 and 0 bits and cut to a byte gives back
/// red, green, blue and alpha.
pub proof fn lemma_unpack_recovers(rgba: Rgba)
    ensures
        0 <= rgba.packed() <= u32::MAX,
        ((rgba.packed() as u32) >> 24) as u8 == rgba.0,
        (((rgba.packed() as u32) >> 16) & 0xff) as u8 == rgba.1,
        (((rgba.packed() as u32) >> 8) & 0xff) as u8 == rgba.2,
        ((rgba.packed() as u32) & 0xff) as u8 == rgba.3,
{
    let (r, g, b, a) = (rgba.0, rgba.1, rgba.2, rgba.3);
    let p: u32 = (r as u32) << 24 | (g as u32) << 16 | (b as u32) << 8 | (a as u32);
    lemma_packed_by_shifts(r, g, b, a);
    assert(p == rgba.packed());
    assert((p >> 24) as u8 == r && ((p >> 16) & 0xff) as u8 == g && ((p >> 8) & 0xff) as u8 == b
        && (p & 0xff) as u8 == a) by (bit_vector)
        requires
            p == (r as u32) << 24 | (g as u32) << 16 | (b as u32) << 8 | (a as u32),
    ;
}

/// Packing loses nothing: two colours with the same packed value are the same
/// colour.
pub proof fn lemma_packed_injective(a: Rgba, b: Rgba)
    requires
        a.packed() == b.packed(),
    ensures
        a == b,
{
    lemma_unpack_recovers(a);
    lemma_unpack_recovers(b);
}

impl From<Rgba> for u32 {
    /// Packs the colour into one 32-bit value.
    fn from(rgba: Rgba) -> (packed: u32) {
        let r: u32 = rgba.0 as u32;
        let g: u32 = rgba.1 as u32;
        let b: u32 = rgba.2 as u32;
        let a: u32 = rgba.3 as u32;
        proof {
            lemma_packed_by_shifts(rgba.0, rgba.1, rgba.2, rgba.3);
        }
        r << 24 | g << 16 | b << 8 | a
    }
}

impl vstd::std_specs::convert::FromSpecImpl<Rgba> for u32 {
    open spec fn obeys_from_spec() -> bool {
        true
    }

    open spec fn from_spec(rgba: Rgba) -> u32 {
        rgba.packed() as u32
    }
}

} // verus!
