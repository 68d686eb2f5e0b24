//! Placement of the value text: where a run begins so that it ends at the
//! right edge of its segment, and the baseline that centres text vertically.
//!
//! Shaping and rasterizing glyphs is left to the caller, who measures a run,
//! asks here for its origin and baseline, and hands the coverage masks of the
//! glyphs to the renderer. Positions and advances are in thousandths of a
//! pixel.

use vstd::prelude::*;
use crate::compose::{masks_moved, GlyphMask, GlyphMaskView};
use crate::layout::{segments_view, Layout, SegmentView};

verus! {

/// The text whose glyphs are measured to find the vertical centre of the
/// font: the digits, the percent sign, the space and the unit letters.
pub const REFERENCE_TEXT: &'static str = "0123456789% KMGTP";

/// Horizontal origin of a run of text of width `text_width` that is aligned
/// to the right edge of a segment, in thousandths of a pixel.
pub open spec fn spec_text_origin(segment_start: int, segment_width: int, text_width: int) -> int {
    (segment_start + segment_width) * 1000 - text_width
}

/// Where a run of text of the measured width `text_width` must begin so
/// that it ends exactly at the right edge of its segment. All values but
/// the two whole-pixel segment bounds are in thousandths of a pixel. A run
/// no wider than the segment begins inside it.
pub fn text_origin(segment_start: u32, segment_width: u32, text_width: u32) -> (origin: i64)
    ensures
        origin == spec_text_origin(segment_start as int, segment_width as int, text_width as int),
        origin + text_width == (segment_start + segment_width) * 1000,
        text_width <= segment_width * 1000 ==> origin >= segment_start * 1000,
{
    (segment_start as i64 + segment_width as i64) * 1000 - text_width as i64
}

/// The whole pixels of a position in thousandths of a pixel, rounded down.
pub open spec fn whole_pixels(position: int) -> int {
    position / 1000
}

/// What a position holds beyond its whole pixels, in thousandths: 0 to 999.
pub open spec fn pixel_fraction(position: int) -> int {
    position % 1000
}

/// Splits a position in thousandths of a pixel into its whole pixels,
/// rounded down, and the thousandths beyond them.
pub fn split_position(position: i64) -> (r: (i64, u32))
    ensures
        r.0 == whole_pixels(position as int),
        r.1 == pixel_fraction(position as int),
        position == 1000 * r.0 + r.1,
        r.1 < 1000,
{
    if position >= 0 {
        (position / 1000, (position % 1000) as u32)
    } else {
        let n: i64 = -(position + 1);
        (-(n / 1000) - 1, (999 - n % 1000) as u32)
    }
}

/// The value text of one segment as its font shapes it: the measured width
/// of the run and the coverage masks of its glyphs.
///
/// The masks are those of the run laid out from the point that lies the
/// fractions of the text origin and of the baseline beyond the corner of a
/// pixel (see [`split_position`]); their positions count from that pixel.
/// The renderer moves them to the pixel of the origin on the baseline.
#[derive(Clone, Debug)]
pub struct TextRun {
    /// Sum of the advances of the glyphs, in thousandths of a pixel.
    pub width: u32,
    /// Coverage of each glyph that covers anything.
    pub glyphs: Vec<GlyphMask>,
}

/// A run of text as a mathematical value.
pub struct TextRunView {
    pub width: int,
    pub glyphs: Seq<GlyphMaskView>,
}

impl View for TextRun {
    type V = TextRunView;

    open spec fn view(&self) -> TextRunView {
        TextRunView { width: self.width as int, glyphs: self.glyphs@.map_values(|m: GlyphMask| m@) }
    }
}

/// The glyph masks of a run where they are drawn: moved to the pixel of
/// the origin that aligns the run to the right edge of its segment, and
/// to the pixel of the baseline.
pub open spec fn placed_text(run: TextRunView, segment: SegmentView, baseline: int) -> Seq<GlyphMaskView> {
    masks_moved(
        run.glyphs,
        whole_pixels(spec_text_origin(segment.start, segment.width, run.width)),
        whole_pixels(baseline),
    )
}

/// Horizontal origins of the values of all segments of a layout, given the
/// measured width of each value: every value ends at the right edge of its
/// own segment.
pub open spec fn spec_text_origins(segments: Seq<SegmentView>, widths: Seq<u32>) -> Seq<int> {
    Seq::new(segments.len(), |i: int| spec_text_origin(segments[i].start, segments[i].width, widths[i] as int))
}

/// Computes where the value of each segment of a layout must begin so that
/// it is aligned to the right edge of its segment. `widths` holds the
/// measured width of the value of each segment, in the order of the
/// segments and in thousandths of a pixel, as are the origins. Values are
/// never aligned to the left, centred or moved to fit.
pub fn text_origins(plan: &Layout, widths: &Vec<u32>) -> (r: Vec<i64>)
    requires
        widths@.len() == plan.segments@.len(),
    ensures
        r@.len() == widths@.len(),
        forall|i: int|
            0 <= i < r@.len() ==> r@[i] == spec_text_origin(
                plan.segments@[i].start as int,
                plan.segments@[i].width as int,
                widths@[i] as int,
            ),
        r@.map_values(|o: i64| o as int) == spec_text_origins(segments_view(plan.segments@), widths@),
{
    let mut origins: Vec<i64> = Vec::new();
    let mut i: usize = 0;
    while i < widths.len()
        invariant
            i <= widths@.len(),
            widths@.len() == plan.segments@.len(),
            origins@.len() == i,
            forall|k: int|
                0 <= k < i ==> origins@[k] == spec_text_origin(
                    plan.segments@[k].start as int,
                    plan.segments@[k].width as int,
                    widths@[k] as int,
                ),
        decreases widths@.len() - i,
    {
        let segment = &plan.segments[i];
        origins.push(text_origin(segment.start, segment.width, widths[i]));
        i += 1;
    }
    proof {
        assert(origins@.map_values(|o: i64| o as int) =~= spec_text_origins(
            segments_view(plan.segments@),
            widths@,
        ));
    }
    origins
}

/// Topmost row that the first `n` glyphs reach, or `i32::MAX` if there is
/// no glyph. A glyph is given by the top and the bottom of its bounding box.
pub open spec fn topmost(extents: Seq<(i32, i32)>, n: nat) -> int
    decreases n,
{
    if n == 0 {
        i32::MAX as int
    } else {
        let rest = topmost(extents, (n - 1) as nat);
        if extents[n - 1].0 < rest {
            extents[n - 1].0 as int
        } else {
            rest
        }
    }
}

/// Bottommost row that the first `n` glyphs reach, or `i32::MIN` if there
/// is no glyph.
pub open spec fn bottommost(extents: Seq<(i32, i32)>, n: nat) -> int
    decreases n,
{
    if n == 0 {
        i32::MIN as int
    } else {
        let rest = bottommost(extents, (n - 1) as nat);
        if extents[n - 1].1 > rest {
            extents[n - 1].1 as int
        } else {
            rest
        }
    }
}

/// Half of a value, rounded down.
pub open spec fn half(v: int) -> int {
    v / 2
}

/// The baseline, in thousandths of a pixel, at which text is drawn so that
/// the glyphs of the reference text are centred in the height of the icon:
/// half the height less the centre of the rows that the glyphs cover. A font
/// whose reference glyphs cover no rows gets half its ascent below the
/// middle instead.
pub open spec fn spec_font_baseline(extents: Seq<(i32, i32)>, icon_height: int, ascent: int) -> int {
    let top = topmost(extents, extents.len());
    let bottom = bottommost(extents, extents.len());
    if top < bottom {
        icon_height * 500 - (top + bottom) * 500
    } else {
        icon_height * 500 + half(ascent)
    }
}

/// Computes the baseline that centres text in an icon `icon_height` pixels
/// high. `extents` holds the top and the bottom row of the pixel bounding
/// box of each glyph of [`REFERENCE_TEXT`] that has one, laid out at the
/// origin; `ascent` is the ascent of the font in thousandths of a pixel.
pub fn calculate_font_baseline(extents: &Vec<(i32, i32)>, icon_height: u32, ascent: i32) -> (baseline: i64)
    ensures
        baseline == spec_font_baseline(extents@, icon_height as int, ascent as int),
{
    let mut min_y: i32 = i32::MAX;
    let mut max_y: i32 = i32::MIN;
    let mut i: usize = 0;
    while i < extents.len()
        invariant
            i <= extents@.len(),
            min_y == topmost(extents@, i as nat),
            max_y == bottommost(extents@, i as nat),
        decreases extents@.len() - i,
    {
        let (top, bottom) = extents[i];
        if top < min_y {
            min_y = top;
        }
        if bottom > max_y {
            max_y = bottom;
        }
        i += 1;
    }
    let middle: i64 = icon_height as i64 * 500;
    if min_y < max_y {
        middle - (min_y as i64 + max_y as i64) * 500
    } else {
        let a: i64 = ascent as i64;
        let half_ascent: i64 = if a >= 0 {
            a / 2
        } else {
            -((1 - a) / 2)
        };
        middle + half_ascent
    }
}

/// With the baseline of a measurable font, the rows that the reference
/// glyphs cover are centred in the icon: as far from the top as from the
/// bottom.
pub proof fn lemma_baseline_centres(extents: Seq<(i32, i32)>, icon_height: int, ascent: int)
    requires
        topmost(extents, extents.len()) < bottommost(extents, extents.len()),
    ensures
        ({
            let baseline = spec_font_baseline(extents, icon_height, ascent);
            let top = baseline + topmost(extents, extents.len()) * 1000;
            let bottom = baseline + bottommost(extents, extents.len()) * 1000;
            top - 0 == icon_height * 1000 - bottom
        }),
{
}

} // verus!
