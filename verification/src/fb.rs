//! Pixels in framebuffer memory order, and the alpha blend.

use vstd::prelude::*;

verus! {

/// A single pixel; the fields stand in memory order: blue, green, red, alpha.
/// Pixels are ordered by their fields in that order.
#[derive(Debug, Clone, Copy, PartialEq, Eq, PartialOrd, Ord, Structural)]
pub struct Pixel {
    pub blue: u8,
    pub green: u8,
    pub red: u8,
    pub alpha: u8,
}

/// One colour channel of `src` blended over `dst`: the weighted sum is taken
/// in 16-bit arithmetic that wraps, divided by 255, and cut to its low byte.
pub open spec fn blend_channel(src: u8, src_alpha: u8, dst: u8, dst_alpha: u8) -> u8 {
    ((((src * src_alpha + dst * dst_alpha * (255 - src_alpha)) % 0x1_0000) / 255) % 0x100) as u8
}

/// The alpha of a source with alpha `src_alpha` blended over a destination
/// with alpha `dst_alpha`.
pub open spec fn blend_alpha(src_alpha: u8, dst_alpha: u8) -> u8 {
    (src_alpha + dst_alpha - (src_alpha * dst_alpha) / 255) as u8
}

/// The blended alpha never leaves the range of a byte.
pub proof fn lemma_blend_alpha_in_range(src_alpha: u8, dst_alpha: u8)
    ensures
        0 <= src_alpha + dst_alpha - (src_alpha * dst_alpha) / 255 <= 255,
{
    let a = src_alpha as int;
    let b = dst_alpha as int;
    assert(0 <= a * b <= 255 * 255) by (nonlinear_arith)
        requires
            0 <= a <= 255,
            0 <= b <= 255,
    ;
    assert((255 - a) * (255 - b) >= 0) by (nonlinear_arith)
        requires
            0 <= a <= 255,
            0 <= b <= 255,
    ;
    assert(a * b >= 255 * (a + b - 255)) by (nonlinear_arith)
        requires
            (255 - a) * (255 - b) >= 0,
    ;
    assert(a * b <= 255 * a) by (nonlinear_arith)
        requires
            0 <= a <= 255,
            0 <= b <= 255,
    ;
}

impl Pixel {
    /// Builds a pixel from red, green, blue and alpha, reordering the
    /// channels into memory order.
    pub fn from_rgba(r: u8, g: u8, b: u8, alpha: u8) -> (p: Self)
        ensures
            p.red == r,
            p.green == g,
            p.blue == b,
            p.alpha == alpha,
    {
        Self { blue: b, green: g, red: r, alpha }
    }

    /// The pixel whose four bytes, in memory order, are the little-endian
    /// bytes of `argb`.
    pub open spec fn spec_from_hex(argb: u32) -> Pixel {
        Pixel {
            blue: (argb % 0x100) as u8,
            green: (argb / 0x100 % 0x100) as u8,
            red: (argb / 0x1_0000 % 0x100) as u8,
            alpha: (argb / 0x100_0000) as u8,
        }
    }

    /// Builds a pixel from `(alpha << 24) | (red << 16) | (green << 8) | blue`.
    pub fn from_hex(argb: u32) -> (p: Self)
        ensures
            p == Self::spec_from_hex(argb),
            argb == p.alpha * 0x100_0000 + p.red * 0x1_0000 + p.green * 0x100 + p.blue,
    {
        assert(argb & 0xff == argb % 0x100) by (bit_vector);
        assert((argb >> 8) & 0xff == argb / 0x100 % 0x100) by (bit_vector);
        assert((argb >> 16) & 0xff == argb / 0x1_0000 % 0x100) by (bit_vector);
        assert(argb >> 24 == argb / 0x100_0000) by (bit_vector);
        Self {
            blue: (argb & 0xff) as u8,
            green: ((argb >> 8) & 0xff) as u8,
            red: ((argb >> 16) & 0xff) as u8,
            alpha: (argb >> 24) as u8,
        }
    }

    /// `self` blended over `other`, channel by channel.
    pub open spec fn spec_blend(self, other: Pixel) -> Pixel {
        Pixel {
            blue: blend_channel(self.blue, self.alpha, other.blue, other.alpha),
            green: blend_channel(self.green, self.alpha, other.green, other.alpha),
            red: blend_channel(self.red, self.alpha, other.red, other.alpha),
            alpha: blend_alpha(self.alpha, other.alpha),
        }
    }

    /// Alpha blends this pixel, the source, over `other`, the destination.
    pub fn blend(&self, other: &Self) -> (out: Self)
        ensures
            out == self.spec_blend(*other),
    {
        let src_alpha: u32 = self.alpha as u32;
        let target_alpha: u32 = other.alpha as u32;
        proof {
            lemma_blend_alpha_in_range(self.alpha, other.alpha);
        }
        let alpha: u32 = src_alpha + target_alpha - (src_alpha * target_alpha) / 255;
        Pixel {
            blue: blend_one(self.blue, self.alpha, other.blue, other.alpha),
            green: blend_one(self.green, self.alpha, other.green, other.alpha),
            red: blend_one(self.red, self.alpha, other.red, other.alpha),
            alpha: alpha as u8,
        }
    }
}

fn blend_one(src: u8, src_alpha: u8, dst: u8, dst_alpha: u8) -> (out: u8)
    ensures
        out == blend_channel(src, src_alpha, dst, dst_alpha),
{
    let s: u32 = src as u32;
    let sa: u32 = src_alpha as u32;
    let d: u32 = dst as u32;
    let da: u32 = dst_alpha as u32;
    assert(0 <= s * sa <= 255 * 255) by (nonlinear_arith)
        requires
            0 <= s <= 255,
            0 <= sa <= 255,
    ;
    assert(0 <= d * da <= 255 * 255) by (nonlinear_arith)
        requires
            0 <= d <= 255,
            0 <= da <= 255,
    ;
    let weighted: u32 = d * da;
    let rest: u32 = 255 - sa;
    assert(0 <= weighted * rest <= 255 * 255 * 255) by (nonlinear_arith)
        requires
            0 <= weighted <= 255 * 255,
            0 <= rest <= 255,
    ;
    assert(d * da * (255 - sa) == weighted * rest);
    let sum: u32 = s * sa + weighted * rest;
    (((sum % 0x1_0000) / 255) % 0x100) as u8
}

/// An opaque source replaces the destination: the blend is the source.
pub proof fn lemma_blend_opaque_source(src: Pixel, dst: Pixel)
    requires
        src.alpha == 255,
    ensures
        src.spec_blend(dst) == src,
{
    assert forall|c: u8, d: u8, da: u8| #[trigger] blend_channel(c, 255, d, da) == c by {
        assert(d * da * (255 - 255) == 0) by (nonlinear_arith);
    }
}

/// Under a fully transparent source the destination keeps its alpha, and a
/// destination whose own alpha is 1 keeps its colour as well.
pub proof fn lemma_blend_transparent_source(src: Pixel, dst: Pixel)
    requires
        src.alpha == 0,
    ensures
        src.spec_blend(dst).alpha == dst.alpha,
        dst.alpha == 1 ==> src.spec_blend(dst) == dst,
{
    assert(src.alpha * dst.alpha == 0) by (nonlinear_arith)
        requires
            src.alpha == 0,
    ;
    if dst.alpha == 1 {
        assert forall|s: u8, d: u8| #[trigger] blend_channel(s, 0, d, 1) == d by {
            assert(s * 0 == 0);
            assert(d * 1 * (255 - 0) == d * 255) by (nonlinear_arith);
        }
    }
}

} // verus!
