//! Pixels and the alpha-blend operator.
//!
//! A pixel has four 8-bit channels; alpha is a blend weight.  Layers are
//! composed with a source-over operator in integer arithmetic:
//! `out = (src * a + dst * (255 - a) + 127) / 255` per colour channel, where
//! `a` is the source alpha; the output alpha is the maximum of both alphas.

use vstd::prelude::*;

verus! {

/// One LED cell: red, green, blue and a blend weight.
#[derive(Clone, Copy, Debug, PartialEq, Eq, Structural)]
pub struct Pixel {
    pub r: u8,
    pub g: u8,
    pub b: u8,
    pub a: u8,
}

impl Pixel {
    /// The all-zero pixel a cleared canvas is filled with.
    pub fn black() -> (p: Pixel)
        ensures
            p == spec_black(),
    {
        Pixel { r: 0, g: 0, b: 0, a: 0 }
    }
}

/// The all-zero pixel.
pub open spec fn spec_black() -> Pixel {
    Pixel { r: 0, g: 0, b: 0, a: 0 }
}

/// One colour channel of the source-over blend, weighted by the source alpha.
pub open spec fn spec_blend_channel(s: u8, d: u8, a: u8) -> u8 {
    (((s as int) * (a as int) + (d as int) * (255 - a as int) + 127) / 255) as u8
}

/// Source-over blend of source pixel `s` onto destination pixel `d`.
pub open spec fn spec_blend(s: Pixel, d: Pixel) -> Pixel {
    Pixel {
        r: spec_blend_channel(s.r, d.r, s.a),
        g: spec_blend_channel(s.g, d.g, s.a),
        b: spec_blend_channel(s.b, d.b, s.a),
        a: if s.a >= d.a {
            s.a
        } else {
            d.a
        },
    }
}

/// The weighted sum of two channels never exceeds full scale, so the blended
/// channel fits in eight bits.
pub proof fn lemma_blend_channel_in_range(s: u8, d: u8, a: u8)
    ensures
        0 <= (s as int) * (a as int) + (d as int) * (255 - a as int) + 127 <= 65152,
        0 <= ((s as int) * (a as int) + (d as int) * (255 - a as int) + 127) / 255 <= 255,
{
    assert((s as int) * (a as int) + (d as int) * (255 - a as int) + 127 <= 65152) by (nonlinear_arith)
        requires
            s <= 255,
            d <= 255,
            a <= 255,
    ;
    assert(0 <= ((s as int) * (a as int) + (d as int) * (255 - a as int) + 127) / 255 <= 255)
        by (nonlinear_arith)
        requires
            0 <= (s as int) * (a as int) + (d as int) * (255 - a as int) + 127 <= 65152,
    ;
}

/// Blends one colour channel; exact against the specification.
pub fn blend_channel(s: u8, d: u8, a: u8) -> (r: u8)
    ensures
        r == spec_blend_channel(s, d, a),
{
    proof {
        lemma_blend_channel_in_range(s, d, a);
    }
    let num: u32 = (s as u32) * (a as u32) + (d as u32) * (255 - (a as u32)) + 127;
    (num / 255) as u8
}

/// Blends source pixel `s` onto destination pixel `d`.
pub fn blend_pixel(s: &Pixel, d: &Pixel) -> (r: Pixel)
    ensures
        r == spec_blend(*s, *d),
{
    Pixel {
        r: blend_channel(s.r, d.r, s.a),
        g: blend_channel(s.g, d.g, s.a),
        b: blend_channel(s.b, d.b, s.a),
        a: if s.a >= d.a {
            s.a
        } else {
            d.a
        },
    }
}

/// A fully opaque source pixel replaces the destination outright: blending a
/// layer whose alpha is 255 onto any canvas yields that layer exactly.
pub proof fn lemma_blend_opaque(s: Pixel, d: Pixel)
    requires
        s.a == 255,
    ensures
        spec_blend(s, d) == s,
{
    lemma_blend_opaque_channel(s.r, d.r);
    lemma_blend_opaque_channel(s.g, d.g);
    lemma_blend_opaque_channel(s.b, d.b);
}

proof fn lemma_blend_opaque_channel(s: u8, d: u8)
    ensures
        spec_blend_channel(s, d, 255) == s,
{
    assert(((s as int) * 255 + (d as int) * 0 + 127) / 255 == s as int) by (nonlinear_arith)
        requires
            s <= 255,
    ;
}

} // verus!
