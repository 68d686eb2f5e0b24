//! Source-over compositing of one straight-alpha pixel onto another.
//!
//! The arithmetic runs in premultiplied space and rounds to nearest at each
//! step, so that repeated blits stay within one unit of the exact value.

use vstd::prelude::*;
use crate::color::{Rgb, Rgba};

verus! {

/// `c * a / 255`, rounded to nearest: a channel weighted by an alpha.
pub open spec fn weighted(c: int, a: int) -> int {
    (c * a + 127) / 255
}

/// Alpha of the result of drawing a source of alpha `sa` over a destination
/// of alpha `da`.
pub open spec fn blended_alpha(sa: int, da: int) -> int {
    sa + weighted(da, 255 - sa)
}

/// One colour channel of the result, before the clamp to a byte:
/// the premultiplied sum, divided by the resulting alpha.
pub open spec fn blended_channel(sc: int, sa: int, dc: int, da: int) -> int {
    let out_a = blended_alpha(sa, da);
    let out_p = weighted(sc, sa) + weighted(weighted(dc, da), 255 - sa);
    (out_p * 255 + out_a / 2) / out_a
}

/// The smaller of a value and 255.
pub open spec fn clamp_byte(v: int) -> int {
    if v > 255 {
        255
    } else {
        v
    }
}

/// The pixel that results from drawing `src_rgb` with alpha `src_alpha` over
/// `dst`. A result without any coverage is transparent black.
pub open spec fn blended(dst: Rgba, src_rgb: Rgb, src_alpha: u8) -> Rgba {
    let sa = src_alpha as int;
    let da = dst.3 as int;
    if blended_alpha(sa, da) == 0 {
        (0u8, 0u8, 0u8, 0u8)
    } else {
        (
            clamp_byte(blended_channel(src_rgb.0 as int, sa, dst.0 as int, da)) as u8,
            clamp_byte(blended_channel(src_rgb.1 as int, sa, dst.1 as int, da)) as u8,
            clamp_byte(blended_channel(src_rgb.2 as int, sa, dst.2 as int, da)) as u8,
            clamp_byte(blended_alpha(sa, da)) as u8,
        )
    }
}

proof fn lemma_weighted_bounds(c: int, a: int)
    requires
        0 <= c <= 255,
        0 <= a <= 255,
    ensures
        0 <= weighted(c, a) <= a,
        0 <= weighted(c, a) <= c,
        0 <= c * a <= 65025,
        a == 255 ==> weighted(c, a) == c,
        a == 0 ==> weighted(c, a) == 0,
        c == 255 ==> weighted(c, a) == a,
{
    assert(0 <= c * a <= 255 * a) by (nonlinear_arith)
        requires
            0 <= c <= 255,
            0 <= a <= 255,
    ;
    assert(c * a <= c * 255) by (nonlinear_arith)
        requires
            0 <= c <= 255,
            0 <= a <= 255,
    ;
    assert(a == 255 ==> c * a == c * 255) by (nonlinear_arith);
    assert(a == 0 ==> c * a == 0) by (nonlinear_arith);
    assert(c == 255 ==> c * a == 255 * a) by (nonlinear_arith);
}

/// Lower and upper bounds of the blended alpha.
pub proof fn lemma_blended_alpha_bounds(sa: int, da: int)
    requires
        0 <= sa <= 255,
        0 <= da <= 255,
    ensures
        sa <= blended_alpha(sa, da) <= 255,
        blended_alpha(sa, da) == 0 <==> sa == 0 && da == 0,
        sa == 255 ==> blended_alpha(sa, da) == 255,
        sa == 0 ==> blended_alpha(sa, da) == da,
        da == 255 ==> blended_alpha(sa, da) == 255,
{
    lemma_weighted_bounds(da, 255 - sa);
    if sa == 0 {
        assert(weighted(da, 255) == da);
    }
}

/// No channel of a blended pixel exceeds 255 before the clamp: the clamp
/// is a safeguard that never changes a value.
pub proof fn lemma_blend_needs_no_clamp(sc: int, sa: int, dc: int, da: int)
    requires
        0 <= sc <= 255,
        0 <= sa <= 255,
        0 <= dc <= 255,
        0 <= da <= 255,
        blended_alpha(sa, da) > 0,
    ensures
        0 <= blended_channel(sc, sa, dc, da) <= 255,
        0 < blended_alpha(sa, da) <= 255,
{
    lemma_blended_alpha_bounds(sa, da);
    lemma_weighted_bounds(sc, sa);
    lemma_weighted_bounds(dc, da);
    lemma_weighted_bounds(da, 255 - sa);
    lemma_weighted_bounds(weighted(dc, da), 255 - sa);
    let out_a = blended_alpha(sa, da);
    let inner = weighted(dc, da);
    let t = 255 - sa;
    assert(inner * t <= da * t) by (nonlinear_arith)
        requires
            0 <= inner <= da,
            0 <= t,
    ;
    assert(weighted(inner, t) <= weighted(da, t));
    let out_p = weighted(sc, sa) + weighted(inner, t);
    assert(0 <= out_p <= out_a);
    assert(out_p * 255 <= out_a * 255);
    assert((out_p * 255 + out_a / 2) / out_a <= 255) by (nonlinear_arith)
        requires
            0 <= out_p * 255 <= out_a * 255,
            0 < out_a,
    ;
    assert(0 <= (out_p * 255 + out_a / 2) / out_a) by (nonlinear_arith)
        requires
            0 <= out_p * 255,
            0 < out_a,
    ;
}

/// Draws `src_rgb` with coverage `src_alpha` over the pixel `dst` and
/// returns the resulting pixel (Porter-Duff "over").
pub fn blend_over(dst: Rgba, src_rgb: Rgb, src_alpha: u8) -> (out: Rgba)
    ensures
        out == blended(dst, src_rgb, src_alpha),
{
    let sa: u32 = src_alpha as u32;
    let dr: u32 = dst.0 as u32;
    let dg: u32 = dst.1 as u32;
    let db: u32 = dst.2 as u32;
    let da: u32 = dst.3 as u32;
    proof {
        lemma_weighted_bounds(da as int, 255 - sa);
        lemma_weighted_bounds(src_rgb.0 as int, sa as int);
        lemma_weighted_bounds(src_rgb.1 as int, sa as int);
        lemma_weighted_bounds(src_rgb.2 as int, sa as int);
        lemma_weighted_bounds(dr as int, da as int);
        lemma_weighted_bounds(dg as int, da as int);
        lemma_weighted_bounds(db as int, da as int);
        lemma_weighted_bounds(weighted(dr as int, da as int), 255 - sa);
        lemma_weighted_bounds(weighted(dg as int, da as int), 255 - sa);
        lemma_weighted_bounds(weighted(db as int, da as int), 255 - sa);
    }
    let out_a: u32 = sa + (da * (255 - sa) + 127) / 255;
    if out_a == 0 {
        return (0, 0, 0, 0);
    }
    let src_r_p: u32 = (src_rgb.0 as u32 * sa + 127) / 255;
    let src_g_p: u32 = (src_rgb.1 as u32 * sa + 127) / 255;
    let src_b_p: u32 = (src_rgb.2 as u32 * sa + 127) / 255;

    let dst_r_p: u32 = (dr * da + 127) / 255;
    let dst_g_p: u32 = (dg * da + 127) / 255;
    let dst_b_p: u32 = (db * da + 127) / 255;

    let out_r_p: u32 = src_r_p + (dst_r_p * (255 - sa) + 127) / 255;
    let out_g_p: u32 = src_g_p + (dst_g_p * (255 - sa) + 127) / 255;
    let out_b_p: u32 = src_b_p + (dst_b_p * (255 - sa) + 127) / 255;

    let out_r: u32 = (out_r_p * 255 + out_a / 2) / out_a;
    let out_g: u32 = (out_g_p * 255 + out_a / 2) / out_a;
    let out_b: u32 = (out_b_p * 255 + out_a / 2) / out_a;

    (byte_of(out_r), byte_of(out_g), byte_of(out_b), byte_of(out_a))
}

/// Clamps to the range of a byte.
fn byte_of(v: u32) -> (b: u8)
    ensures
        b as int == clamp_byte(v as int),
{
    if v > 255 {
        255
    } else {
        v as u8
    }
}

/// A fully opaque source replaces the destination.
pub proof fn lemma_blend_opaque_source(dst: Rgba, src_rgb: Rgb)
    ensures
        blended(dst, src_rgb, 255) == (src_rgb.0, src_rgb.1, src_rgb.2, 255u8),
{
    let da = dst.3 as int;
    lemma_blended_alpha_bounds(255, da);
    lemma_weighted_bounds(src_rgb.0 as int, 255);
    lemma_weighted_bounds(src_rgb.1 as int, 255);
    lemma_weighted_bounds(src_rgb.2 as int, 255);
    lemma_weighted_bounds(dst.0 as int, da);
    lemma_weighted_bounds(dst.1 as int, da);
    lemma_weighted_bounds(dst.2 as int, da);
    lemma_weighted_bounds(weighted(dst.0 as int, da), 0);
    lemma_weighted_bounds(weighted(dst.1 as int, da), 0);
    lemma_weighted_bounds(weighted(dst.2 as int, da), 0);
}

/// A source without coverage leaves an opaque destination as it was.
pub proof fn lemma_blend_transparent_source(dst: Rgba, src_rgb: Rgb)
    requires
        dst.3 == 255,
    ensures
        blended(dst, src_rgb, 0) == dst,
{
    lemma_blended_alpha_bounds(0, 255);
    lemma_weighted_bounds(src_rgb.0 as int, 0);
    lemma_weighted_bounds(src_rgb.1 as int, 0);
    lemma_weighted_bounds(src_rgb.2 as int, 0);
    lemma_weighted_bounds(dst.0 as int, 255);
    lemma_weighted_bounds(dst.1 as int, 255);
    lemma_weighted_bounds(dst.2 as int, 255);
    lemma_weighted_bounds(weighted(dst.0 as int, 255), 255);
    lemma_weighted_bounds(weighted(dst.1 as int, 255), 255);
    lemma_weighted_bounds(weighted(dst.2 as int, 255), 255);
}

/// Drawing over an opaque destination keeps it opaque.
pub proof fn lemma_blend_keeps_opaque(dst: Rgba, src_rgb: Rgb, src_alpha: u8)
    requires
        dst.3 == 255,
    ensures
        blended(dst, src_rgb, src_alpha).3 == 255,
{
    lemma_blended_alpha_bounds(src_alpha as int, 255);
}

} // verus!
