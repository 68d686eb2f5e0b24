//! Sizing profiles: the pixel grid of the icon for one platform and scale.

use vstd::prelude::*;

verus! {

/// The visual grid of the icon. Lengths are whole pixels; the font size is
/// in thousandths of a pixel.
#[derive(Clone, Copy, Debug, PartialEq, Eq, Structural)]
pub struct Sizing {
    /// Width of a percent segment.
    pub segment_width: u32,
    /// Width of a network segment.
    pub segment_width_net: u32,
    /// Empty margin left of the first and right of the last segment.
    pub edge_padding: u32,
    /// Gap between two neighbouring segments.
    pub segment_gap: u32,
    /// Height of the icon; also the side of each icon glyph.
    pub icon_height: u32,
    /// Font size, in thousandths of a pixel.
    pub font_size: u32,
}

/// `value * factor / 1000`, rounded to nearest, halves upwards.
pub open spec fn scaled_value(value: int, factor: int) -> int {
    (value * factor + 500) / 1000
}

/// A length scaled by `factor` thousandths: rounded to the nearest pixel,
/// never less than one pixel, and no more than a `u32` can hold.
pub open spec fn scaled_length(value: int, factor: int) -> int {
    let r = scaled_value(value, factor);
    if r < 1 {
        1
    } else if r > u32::MAX {
        u32::MAX as int
    } else {
        r
    }
}

/// A font size scaled by `factor` thousandths: rounded to the nearest
/// thousandth of a pixel, and no more than a `u32` can hold.
pub open spec fn scaled_font_size(value: int, factor: int) -> int {
    let r = scaled_value(value, factor);
    if r > u32::MAX {
        u32::MAX as int
    } else {
        r
    }
}

fn scale_rounded(value: u32, factor: u32) -> (r: u64)
    ensures
        r == scaled_value(value as int, factor as int),
{
    assert(0 <= value * factor <= 0xffff_ffff * 0xffff_ffff) by (nonlinear_arith)
        requires
            0 <= value <= 0xffff_ffff,
            0 <= factor <= 0xffff_ffff,
    ;
    (value as u64 * factor as u64 + 500) / 1000
}

fn scale_length(value: u32, factor: u32) -> (r: u32)
    ensures
        r == scaled_length(value as int, factor as int),
{
    let r = scale_rounded(value, factor);
    if r < 1 {
        1
    } else if r > u32::MAX as u64 {
        u32::MAX
    } else {
        r as u32
    }
}

impl Sizing {
    /// The profile for a macOS menu bar at Retina resolution.
    pub fn macos() -> (s: Sizing)
        ensures
            s == (Sizing {
                segment_width: 180,
                segment_width_net: 240,
                edge_padding: 16,
                segment_gap: 48,
                icon_height: 64,
                font_size: 56_000,
            }),
    {
        Sizing {
            segment_width: 180,
            segment_width_net: 240,
            edge_padding: 16,
            segment_gap: 48,
            icon_height: 64,
            font_size: 56_000,
        }
    }

    /// The profile for a Linux panel at single resolution.
    pub fn linux() -> (s: Sizing)
        ensures
            s == (Sizing {
                segment_width: 58,
                segment_width_net: 75,
                edge_padding: 5,
                segment_gap: 18,
                icon_height: 22,
                font_size: 19_000,
            }),
    {
        Sizing {
            segment_width: 58,
            segment_width_net: 75,
            edge_padding: 5,
            segment_gap: 18,
            icon_height: 22,
            font_size: 19_000,
        }
    }

    /// The profile with every field multiplied by `scale` thousandths.
    pub open spec fn spec_scaled(self, scale: int) -> Sizing {
        Sizing {
            segment_width: scaled_length(self.segment_width as int, scale) as u32,
            segment_width_net: scaled_length(self.segment_width_net as int, scale) as u32,
            edge_padding: scaled_length(self.edge_padding as int, scale) as u32,
            segment_gap: scaled_length(self.segment_gap as int, scale) as u32,
            icon_height: scaled_length(self.icon_height as int, scale) as u32,
            font_size: scaled_font_size(self.font_size as int, scale) as u32,
        }
    }

    /// A new profile with every field multiplied by `scale`, a positive
    /// factor in thousandths. Lengths are rounded to the nearest pixel and
    /// are at least one pixel.
    pub fn scaled(self, scale: u32) -> (r: Sizing)
        requires
            scale > 0,
        ensures
            r == self.spec_scaled(scale as int),
    {
        let font = scale_rounded(self.font_size, scale);
        Sizing {
            segment_width: scale_length(self.segment_width, scale),
            segment_width_net: scale_length(self.segment_width_net, scale),
            edge_padding: scale_length(self.edge_padding, scale),
            segment_gap: scale_length(self.segment_gap, scale),
            icon_height: scale_length(self.icon_height, scale),
            font_size: if font > u32::MAX as u64 {
                u32::MAX
            } else {
                font as u32
            },
        }
    }
}

/// Seven tenths of a length, rounded down: the step from a double-resolution
/// grid to the single-resolution grid of a Linux panel.
pub fn scale_u32(val: u32) -> (r: u32)
    ensures
        r == val * 7 / 10,
{
    ((val as u64 * 7) / 10) as u32
}

/// Scaling is linear up to rounding: the scaled value is the whole number
/// nearest to the exact product, which it misses by half a unit at most.
pub proof fn lemma_scaled_value_nearest(value: int, factor: int)
    requires
        0 <= value,
        0 < factor,
    ensures
        -500 < 1000 * scaled_value(value, factor) - value * factor <= 500,
        0 <= scaled_value(value, factor),
{
    let p = value * factor;
    assert(0 <= p) by (nonlinear_arith)
        requires
            0 <= value,
            0 < factor,
            p == value * factor,
    ;
}

/// Scaling by one thousand thousandths changes no positive length, and
/// scaling never decreases with the factor.
pub proof fn lemma_scaled_length_properties(value: int, f1: int, f2: int)
    requires
        0 <= value <= u32::MAX,
        0 < f1 <= f2,
    ensures
        value >= 1 ==> scaled_length(value, 1000) == value,
        scaled_font_size(value, 1000) == value,
        scaled_length(value, f1) <= scaled_length(value, f2),
        1 <= scaled_length(value, f1) <= u32::MAX,
{
    assert(value * f1 <= value * f2) by (nonlinear_arith)
        requires
            0 <= value,
            0 < f1 <= f2,
    ;
}

} // verus!
