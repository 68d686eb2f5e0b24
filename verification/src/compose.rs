//! Blitting of icon rasters and glyph coverage masks onto a canvas.
//!
//! Both kinds of source are drawn row by row from the top, each row from
//! the left, one coverage sample at a time; samples that fall off the canvas
//! are clipped.

use vstd::prelude::*;
use crate::canvas::{
    all_pixels, canvas_size, lemma_plotted_frame, lemma_plotted_pixels, pixel_at, plotted, within, Canvas,
};
use crate::color::Rgba;
use crate::color::Rgb;

verus! {

/// The coverage of one glyph: a `width` by `height` block of alpha values in
/// row-major order whose top-left sample belongs at pixel `(left, top)` of
/// the canvas. Samples that `coverage` is too short to hold do not exist.
#[derive(Clone, Debug)]
pub struct GlyphMask {
    pub left: i32,
    pub top: i32,
    pub width: u32,
    pub height: u32,
    pub coverage: Vec<u8>,
}

/// A glyph mask as a mathematical value.
pub struct GlyphMaskView {
    pub left: int,
    pub top: int,
    pub width: nat,
    pub height: nat,
    pub coverage: Seq<u8>,
}

impl View for GlyphMask {
    type V = GlyphMaskView;

    open spec fn view(&self) -> GlyphMaskView {
        GlyphMaskView {
            left: self.left as int,
            top: self.top as int,
            width: self.width as nat,
            height: self.height as nat,
            coverage: self.coverage@,
        }
    }
}

/// The masks of a run of glyphs as mathematical values.
pub open spec fn masks_view(masks: Seq<GlyphMask>) -> Seq<GlyphMaskView> {
    masks.map_values(|m: GlyphMask| m@)
}

/// A mask moved by `dx` columns to the right and `dy` rows down.
pub open spec fn moved(mask: GlyphMaskView, dx: int, dy: int) -> GlyphMaskView {
    GlyphMaskView {
        left: mask.left + dx,
        top: mask.top + dy,
        width: mask.width,
        height: mask.height,
        coverage: mask.coverage,
    }
}

/// The masks of a run, each moved by `dx` columns and `dy` rows.
pub open spec fn masks_moved(masks: Seq<GlyphMaskView>, dx: int, dy: int) -> Seq<GlyphMaskView> {
    masks.map_values(|m: GlyphMaskView| moved(m, dx, dy))
}

/// The image after the first `n` samples of row `row` of an icon raster have
/// been drawn. The icon is a square of side `size` in RGBA8 whose left edge
/// stands at column `start_x` and whose top edge is the top of the image.
pub open spec fn icon_row_drawn(
    data: Seq<u8>,
    width: int,
    height: int,
    icon: Seq<u8>,
    size: int,
    start_x: int,
    row: int,
    n: nat,
    blend: bool,
) -> Seq<u8>
    decreases n,
{
    if n == 0 {
        data
    } else {
        let before = icon_row_drawn(data, width, height, icon, size, start_x, row, (n - 1) as nat, blend);
        let k = row * size + (n - 1);
        if 4 * k + 3 < icon.len() {
            plotted(
                before,
                width,
                height,
                start_x + (n - 1),
                row,
                (icon[4 * k], icon[4 * k + 1], icon[4 * k + 2]),
                icon[4 * k + 3],
                blend,
            )
        } else {
            before
        }
    }
}

/// The image after the first `rows` rows of an icon raster have been drawn.
pub open spec fn icon_rows_drawn(
    data: Seq<u8>,
    width: int,
    height: int,
    icon: Seq<u8>,
    size: int,
    start_x: int,
    rows: nat,
    blend: bool,
) -> Seq<u8>
    decreases rows,
{
    if rows == 0 {
        data
    } else {
        icon_row_drawn(
            icon_rows_drawn(data, width, height, icon, size, start_x, (rows - 1) as nat, blend),
            width,
            height,
            icon,
            size,
            start_x,
            rows - 1,
            size as nat,
            blend,
        )
    }
}

/// The image after a whole icon raster of side `size` has been drawn with
/// its left edge at column `start_x`.
pub open spec fn icon_drawn(
    data: Seq<u8>,
    width: int,
    height: int,
    icon: Seq<u8>,
    size: int,
    start_x: int,
    blend: bool,
) -> Seq<u8> {
    icon_rows_drawn(data, width, height, icon, size, start_x, size as nat, blend)
}

/// The image after the first `n` samples of row `row` of a glyph mask have
/// been drawn in colour `rgb`.
pub open spec fn mask_row_drawn(
    data: Seq<u8>,
    width: int,
    height: int,
    mask: GlyphMaskView,
    rgb: Rgb,
    row: int,
    n: nat,
    blend: bool,
) -> Seq<u8>
    decreases n,
{
    if n == 0 {
        data
    } else {
        let before = mask_row_drawn(data, width, height, mask, rgb, row, (n - 1) as nat, blend);
        let k = row * mask.width + (n - 1);
        if k < mask.coverage.len() {
            plotted(
                before,
                width,
                height,
                mask.left + (n - 1),
                mask.top + row,
                rgb,
                mask.coverage[k],
                blend,
            )
        } else {
            before
        }
    }
}

/// The image after the first `rows` rows of a glyph mask have been drawn.
pub open spec fn mask_rows_drawn(
    data: Seq<u8>,
    width: int,
    height: int,
    mask: GlyphMaskView,
    rgb: Rgb,
    rows: nat,
    blend: bool,
) -> Seq<u8>
    decreases rows,
{
    if rows == 0 {
        data
    } else {
        mask_row_drawn(
            mask_rows_drawn(data, width, height, mask, rgb, (rows - 1) as nat, blend),
            width,
            height,
            mask,
            rgb,
            rows - 1,
            mask.width,
            blend,
        )
    }
}

/// The image after a whole glyph mask has been drawn.
pub open spec fn mask_drawn(
    data: Seq<u8>,
    width: int,
    height: int,
    mask: GlyphMaskView,
    rgb: Rgb,
    blend: bool,
) -> Seq<u8> {
    mask_rows_drawn(data, width, height, mask, rgb, mask.height, blend)
}

/// The image after the first `n` glyph masks of a run of text have been
/// drawn, in the order of the run.
pub open spec fn text_drawn_upto(
    data: Seq<u8>,
    width: int,
    height: int,
    masks: Seq<GlyphMaskView>,
    rgb: Rgb,
    n: nat,
    blend: bool,
) -> Seq<u8>
    decreases n,
{
    if n == 0 {
        data
    } else {
        mask_drawn(
            text_drawn_upto(data, width, height, masks, rgb, (n - 1) as nat, blend),
            width,
            height,
            masks[n - 1],
            rgb,
            blend,
        )
    }
}

/// The image after a whole run of text has been drawn.
pub open spec fn text_drawn(
    data: Seq<u8>,
    width: int,
    height: int,
    masks: Seq<GlyphMaskView>,
    rgb: Rgb,
    blend: bool,
) -> Seq<u8> {
    text_drawn_upto(data, width, height, masks, rgb, masks.len(), blend)
}

/// Whether `(x, y)` lies in the rectangle of the given corner and size.
pub open spec fn in_box(left: int, top: int, width: int, height: int, x: int, y: int) -> bool {
    left <= x < left + width && top <= y < top + height
}

/// Whether the rectangle of one of the masks holds `(x, y)`.
pub open spec fn text_covers(masks: Seq<GlyphMaskView>, x: int, y: int) -> bool {
    exists|k: int|
        0 <= k < masks.len() && in_box(
            (#[trigger] masks[k]).left,
            masks[k].top,
            masks[k].width as int,
            masks[k].height as int,
            x,
            y,
        )
}

proof fn lemma_icon_row_frame(
    data: Seq<u8>,
    width: int,
    height: int,
    icon: Seq<u8>,
    size: int,
    start_x: int,
    row: int,
    n: nat,
    blend: bool,
)
    requires
        data.len() == 4 * width * height,
    ensures
        icon_row_drawn(data, width, height, icon, size, start_x, row, n, blend).len() == data.len(),
        forall|x: int, y: int|
            within(width, height, x, y) && !in_box(start_x, row, n as int, 1, x, y) ==> #[trigger] pixel_at(
                icon_row_drawn(data, width, height, icon, size, start_x, row, n, blend),
                width,
                x,
                y,
            ) == pixel_at(data, width, x, y),
    decreases n,
{
    if n > 0 {
        let before = icon_row_drawn(data, width, height, icon, size, start_x, row, (n - 1) as nat, blend);
        lemma_icon_row_frame(data, width, height, icon, size, start_x, row, (n - 1) as nat, blend);
        let k = row * size + (n - 1);
        if 4 * k + 3 < icon.len() {
            lemma_plotted_frame(
                before,
                width,
                height,
                start_x + (n - 1),
                row,
                (icon[4 * k], icon[4 * k + 1], icon[4 * k + 2]),
                icon[4 * k + 3],
                blend,
            );
        }
    }
}

proof fn lemma_icon_rows_frame(
    data: Seq<u8>,
    width: int,
    height: int,
    icon: Seq<u8>,
    size: int,
    start_x: int,
    rows: nat,
    blend: bool,
)
    requires
        data.len() == 4 * width * height,
        0 <= size,
    ensures
        icon_rows_drawn(data, width, height, icon, size, start_x, rows, blend).len() == data.len(),
        forall|x: int, y: int|
            within(width, height, x, y) && !in_box(start_x, 0, size, rows as int, x, y) ==> #[trigger] pixel_at(
                icon_rows_drawn(data, width, height, icon, size, start_x, rows, blend),
                width,
                x,
                y,
            ) == pixel_at(data, width, x, y),
    decreases rows,
{
    if rows > 0 {
        let before = icon_rows_drawn(data, width, height, icon, size, start_x, (rows - 1) as nat, blend);
        lemma_icon_rows_frame(data, width, height, icon, size, start_x, (rows - 1) as nat, blend);
        lemma_icon_row_frame(before, width, height, icon, size, start_x, rows - 1, size as nat, blend);
    }
}

/// Drawing an icon keeps the size of the image and changes no pixel
/// outside the square of the icon.
pub proof fn lemma_icon_drawn_frame(
    data: Seq<u8>,
    width: int,
    height: int,
    icon: Seq<u8>,
    size: int,
    start_x: int,
    blend: bool,
)
    requires
        data.len() == 4 * width * height,
        0 <= size,
    ensures
        icon_drawn(data, width, height, icon, size, start_x, blend).len() == data.len(),
        forall|x: int, y: int|
            within(width, height, x, y) && !in_box(start_x, 0, size, size, x, y) ==> #[trigger] pixel_at(
                icon_drawn(data, width, height, icon, size, start_x, blend),
                width,
                x,
                y,
            ) == pixel_at(data, width, x, y),
{
    lemma_icon_rows_frame(data, width, height, icon, size, start_x, size as nat, blend);
}

proof fn lemma_mask_row_frame(
    data: Seq<u8>,
    width: int,
    height: int,
    mask: GlyphMaskView,
    rgb: Rgb,
    row: int,
    n: nat,
    blend: bool,
)
    requires
        data.len() == 4 * width * height,
    ensures
        mask_row_drawn(data, width, height, mask, rgb, row, n, blend).len() == data.len(),
        forall|x: int, y: int|
            within(width, height, x, y) && !in_box(mask.left, mask.top + row, n as int, 1, x, y)
                ==> #[trigger] pixel_at(
                mask_row_drawn(data, width, height, mask, rgb, row, n, blend),
                width,
                x,
                y,
            ) == pixel_at(data, width, x, y),
    decreases n,
{
    if n > 0 {
        let before = mask_row_drawn(data, width, height, mask, rgb, row, (n - 1) as nat, blend);
        lemma_mask_row_frame(data, width, height, mask, rgb, row, (n - 1) as nat, blend);
        let k = row * mask.width + (n - 1);
        if k < mask.coverage.len() {
            lemma_plotted_frame(
                before,
                width,
                height,
                mask.left + (n - 1),
                mask.top + row,
                rgb,
                mask.coverage[k],
                blend,
            );
        }
    }
}

proof fn lemma_mask_rows_frame(
    data: Seq<u8>,
    width: int,
    height: int,
    mask: GlyphMaskView,
    rgb: Rgb,
    rows: nat,
    blend: bool,
)
    requires
        data.len() == 4 * width * height,
    ensures
        mask_rows_drawn(data, width, height, mask, rgb, rows, blend).len() == data.len(),
        forall|x: int, y: int|
            within(width, height, x, y) && !in_box(mask.left, mask.top, mask.width as int, rows as int, x, y)
                ==> #[trigger] pixel_at(
                mask_rows_drawn(data, width, height, mask, rgb, rows, blend),
                width,
                x,
                y,
            ) == pixel_at(data, width, x, y),
    decreases rows,
{
    if rows > 0 {
        let before = mask_rows_drawn(data, width, height, mask, rgb, (rows - 1) as nat, blend);
        lemma_mask_rows_frame(data, width, height, mask, rgb, (rows - 1) as nat, blend);
        lemma_mask_row_frame(before, width, height, mask, rgb, rows - 1, mask.width, blend);
    }
}

/// Drawing a glyph mask keeps the size of the image and changes no pixel
/// outside the rectangle of the mask.
pub proof fn lemma_mask_drawn_frame(
    data: Seq<u8>,
    width: int,
    height: int,
    mask: GlyphMaskView,
    rgb: Rgb,
    blend: bool,
)
    requires
        data.len() == 4 * width * height,
    ensures
        mask_drawn(data, width, height, mask, rgb, blend).len() == data.len(),
        forall|x: int, y: int|
            within(width, height, x, y) && !in_box(
                mask.left,
                mask.top,
                mask.width as int,
                mask.height as int,
                x,
                y,
            ) ==> #[trigger] pixel_at(mask_drawn(data, width, height, mask, rgb, blend), width, x, y)
                == pixel_at(data, width, x, y),
{
    lemma_mask_rows_frame(data, width, height, mask, rgb, mask.height, blend);
}

proof fn lemma_text_upto_frame(
    data: Seq<u8>,
    width: int,
    height: int,
    masks: Seq<GlyphMaskView>,
    rgb: Rgb,
    n: nat,
    blend: bool,
)
    requires
        data.len() == 4 * width * height,
        n <= masks.len(),
    ensures
        text_drawn_upto(data, width, height, masks, rgb, n, blend).len() == data.len(),
        forall|x: int, y: int|
            within(width, height, x, y) && !text_covers(masks, x, y) ==> #[trigger] pixel_at(
                text_drawn_upto(data, width, height, masks, rgb, n, blend),
                width,
                x,
                y,
            ) == pixel_at(data, width, x, y),
    decreases n,
{
    if n > 0 {
        let before = text_drawn_upto(data, width, height, masks, rgb, (n - 1) as nat, blend);
        lemma_text_upto_frame(data, width, height, masks, rgb, (n - 1) as nat, blend);
        lemma_mask_drawn_frame(before, width, height, masks[n - 1], rgb, blend);
        assert forall|x: int, y: int|
            within(width, height, x, y) && !text_covers(masks, x, y) implies #[trigger] pixel_at(
            text_drawn_upto(data, width, height, masks, rgb, n, blend),
            width,
            x,
            y,
        ) == pixel_at(data, width, x, y) by {
            let m = masks[n - 1];
            assert(!in_box(m.left, m.top, m.width as int, m.height as int, x, y));
        }
    }
}

/// Drawing a run of text keeps the size of the image and changes no pixel
/// outside the rectangles of its glyph masks.
pub proof fn lemma_text_drawn_frame(
    data: Seq<u8>,
    width: int,
    height: int,
    masks: Seq<GlyphMaskView>,
    rgb: Rgb,
    blend: bool,
)
    requires
        data.len() == 4 * width * height,
    ensures
        text_drawn(data, width, height, masks, rgb, blend).len() == data.len(),
        forall|x: int, y: int|
            within(width, height, x, y) && !text_covers(masks, x, y) ==> #[trigger] pixel_at(
                text_drawn(data, width, height, masks, rgb, blend),
                width,
                x,
                y,
            ) == pixel_at(data, width, x, y),
{
    lemma_text_upto_frame(data, width, height, masks, rgb, masks.len(), blend);
}

/// Whether `px` is one of the pixels of an RGBA8 raster.
pub open spec fn is_raster_pixel(raster: Seq<u8>, px: Rgba) -> bool {
    exists|k: int|
        0 <= k && 4 * k + 3 < raster.len() && px == (
            #[trigger] raster[4 * k],
            raster[4 * k + 1],
            raster[4 * k + 2],
            raster[4 * k + 3],
        )
}

proof fn lemma_icon_row_pixels(
    data: Seq<u8>,
    width: int,
    height: int,
    icon: Seq<u8>,
    size: int,
    start_x: int,
    row: int,
    n: nat,
    allowed: spec_fn(Rgba) -> bool,
)
    requires
        data.len() == 4 * width * height,
        all_pixels(data, width, height, allowed),
        forall|px: Rgba| is_raster_pixel(icon, px) ==> #[trigger] allowed(px),
        0 <= row,
        0 <= size,
    ensures
        icon_row_drawn(data, width, height, icon, size, start_x, row, n, false).len() == data.len(),
        all_pixels(
            icon_row_drawn(data, width, height, icon, size, start_x, row, n, false),
            width,
            height,
            allowed,
        ),
    decreases n,
{
    if n > 0 {
        let before = icon_row_drawn(data, width, height, icon, size, start_x, row, (n - 1) as nat, false);
        lemma_icon_row_pixels(data, width, height, icon, size, start_x, row, (n - 1) as nat, allowed);
        let k = row * size + (n - 1);
        assert(0 <= row * size) by (nonlinear_arith)
            requires
                0 <= row,
                0 <= size,
        ;
        if 4 * k + 3 < icon.len() {
            let px = (icon[4 * k], icon[4 * k + 1], icon[4 * k + 2], icon[4 * k + 3]);
            assert(is_raster_pixel(icon, px));
            lemma_plotted_pixels(
                before,
                width,
                height,
                start_x + (n - 1),
                row,
                (icon[4 * k], icon[4 * k + 1], icon[4 * k + 2]),
                icon[4 * k + 3],
                allowed,
            );
        }
    }
}

proof fn lemma_icon_rows_pixels(
    data: Seq<u8>,
    width: int,
    height: int,
    icon: Seq<u8>,
    size: int,
    start_x: int,
    rows: nat,
    allowed: spec_fn(Rgba) -> bool,
)
    requires
        data.len() == 4 * width * height,
        all_pixels(data, width, height, allowed),
        forall|px: Rgba| is_raster_pixel(icon, px) ==> #[trigger] allowed(px),
        0 <= size,
    ensures
        icon_rows_drawn(data, width, height, icon, size, start_x, rows, false).len() == data.len(),
        all_pixels(icon_rows_drawn(data, width, height, icon, size, start_x, rows, false), width, height, allowed),
    decreases rows,
{
    if rows > 0 {
        let before = icon_rows_drawn(data, width, height, icon, size, start_x, (rows - 1) as nat, false);
        lemma_icon_rows_pixels(data, width, height, icon, size, start_x, (rows - 1) as nat, allowed);
        lemma_icon_row_pixels(before, width, height, icon, size, start_x, rows - 1, size as nat, allowed);
    }
}

/// An icon that replaces what is there brings only its own pixels: if
/// those and the pixels of the image are admitted, so are all pixels
/// afterwards.
pub proof fn lemma_icon_drawn_pixels(
    data: Seq<u8>,
    width: int,
    height: int,
    icon: Seq<u8>,
    size: int,
    start_x: int,
    allowed: spec_fn(Rgba) -> bool,
)
    requires
        data.len() == 4 * width * height,
        all_pixels(data, width, height, allowed),
        forall|px: Rgba| is_raster_pixel(icon, px) ==> #[trigger] allowed(px),
        0 <= size,
    ensures
        icon_drawn(data, width, height, icon, size, start_x, false).len() == data.len(),
        all_pixels(icon_drawn(data, width, height, icon, size, start_x, false), width, height, allowed),
{
    lemma_icon_rows_pixels(data, width, height, icon, size, start_x, size as nat, allowed);
}

proof fn lemma_mask_row_pixels(
    data: Seq<u8>,
    width: int,
    height: int,
    mask: GlyphMaskView,
    rgb: Rgb,
    row: int,
    n: nat,
    allowed: spec_fn(Rgba) -> bool,
)
    requires
        data.len() == 4 * width * height,
        all_pixels(data, width, height, allowed),
        forall|alpha: u8| #[trigger] allowed((rgb.0, rgb.1, rgb.2, alpha)),
    ensures
        mask_row_drawn(data, width, height, mask, rgb, row, n, false).len() == data.len(),
        all_pixels(mask_row_drawn(data, width, height, mask, rgb, row, n, false), width, height, allowed),
    decreases n,
{
    if n > 0 {
        let before = mask_row_drawn(data, width, height, mask, rgb, row, (n - 1) as nat, false);
        lemma_mask_row_pixels(data, width, height, mask, rgb, row, (n - 1) as nat, allowed);
        let k = row * mask.width + (n - 1);
        if k < mask.coverage.len() {
            assert(allowed((rgb.0, rgb.1, rgb.2, mask.coverage[k])));
            lemma_plotted_pixels(
                before,
                width,
                height,
                mask.left + (n - 1),
                mask.top + row,
                rgb,
                mask.coverage[k],
                allowed,
            );
        }
    }
}

proof fn lemma_mask_rows_pixels(
    data: Seq<u8>,
    width: int,
    height: int,
    mask: GlyphMaskView,
    rgb: Rgb,
    rows: nat,
    allowed: spec_fn(Rgba) -> bool,
)
    requires
        data.len() == 4 * width * height,
        all_pixels(data, width, height, allowed),
        forall|alpha: u8| #[trigger] allowed((rgb.0, rgb.1, rgb.2, alpha)),
    ensures
        mask_rows_drawn(data, width, height, mask, rgb, rows, false).len() == data.len(),
        all_pixels(mask_rows_drawn(data, width, height, mask, rgb, rows, false), width, height, allowed),
    decreases rows,
{
    if rows > 0 {
        let before = mask_rows_drawn(data, width, height, mask, rgb, (rows - 1) as nat, false);
        lemma_mask_rows_pixels(data, width, height, mask, rgb, (rows - 1) as nat, allowed);
        lemma_mask_row_pixels(before, width, height, mask, rgb, rows - 1, mask.width, allowed);
    }
}

proof fn lemma_text_upto_pixels(
    data: Seq<u8>,
    width: int,
    height: int,
    masks: Seq<GlyphMaskView>,
    rgb: Rgb,
    n: nat,
    allowed: spec_fn(Rgba) -> bool,
)
    requires
        data.len() == 4 * width * height,
        all_pixels(data, width, height, allowed),
        forall|alpha: u8| #[trigger] allowed((rgb.0, rgb.1, rgb.2, alpha)),
    ensures
        text_drawn_upto(data, width, height, masks, rgb, n, false).len() == data.len(),
        all_pixels(text_drawn_upto(data, width, height, masks, rgb, n, false), width, height, allowed),
    decreases n,
{
    if n > 0 {
        let before = text_drawn_upto(data, width, height, masks, rgb, (n - 1) as nat, false);
        lemma_text_upto_pixels(data, width, height, masks, rgb, (n - 1) as nat, allowed);
        lemma_mask_rows_pixels(before, width, height, masks[n - 1], rgb, masks[n - 1].height, allowed);
    }
}

/// Text that replaces what is there brings only pixels of its colour: if
/// those and the pixels of the image are admitted, so are all pixels
/// afterwards.
pub proof fn lemma_text_drawn_pixels(
    data: Seq<u8>,
    width: int,
    height: int,
    masks: Seq<GlyphMaskView>,
    rgb: Rgb,
    allowed: spec_fn(Rgba) -> bool,
)
    requires
        data.len() == 4 * width * height,
        all_pixels(data, width, height, allowed),
        forall|alpha: u8| #[trigger] allowed((rgb.0, rgb.1, rgb.2, alpha)),
    ensures
        text_drawn(data, width, height, masks, rgb, false).len() == data.len(),
        all_pixels(text_drawn(data, width, height, masks, rgb, false), width, height, allowed),
{
    lemma_text_upto_pixels(data, width, height, masks, rgb, masks.len(), allowed);
}

/// Draws a square icon raster of side `size` with its top-left corner at
/// `(start_x, 0)`. Pixels of the icon without coverage leave the canvas as
/// it is; pixels that `icon` is too short to hold are skipped.
pub fn draw_icon(canvas: &mut Canvas, icon: &Vec<u8>, size: u32, start_x: u32, blend: bool)
    requires
        old(canvas).wf(),
    ensures
        final(canvas).wf(),
        canvas_size(*final(canvas)) == canvas_size(*old(canvas)),
        final(canvas).bytes() == icon_drawn(
            old(canvas).bytes(),
            old(canvas).width(),
            old(canvas).height(),
            icon@,
            size as int,
            start_x as int,
            blend,
        ),
{
    let ghost orig = canvas.bytes();
    let ghost w = canvas.width();
    let ghost h = canvas.height();
    let ghost dims = canvas_size(*canvas);
    let len: usize = icon.len();
    let quads: usize = len / 4;
    let mut y: u32 = 0;
    while y < size
        invariant
            0 <= y <= size,
            canvas.wf(),
            canvas_size(*canvas) == dims,
            w == dims.0,
            h == dims.1,
            len == icon@.len(),
            quads == len / 4,
            canvas.bytes() == icon_rows_drawn(orig, w, h, icon@, size as int, start_x as int, y as nat, blend),
        decreases size - y,
    {
        let ghost row_start = canvas.bytes();
        let mut x: u32 = 0;
        while x < size
            invariant
                0 <= x <= size,
                0 <= y < size,
                canvas.wf(),
                canvas_size(*canvas) == dims,
                w == dims.0,
                h == dims.1,
                len == icon@.len(),
            quads == len / 4,
                canvas.bytes() == icon_row_drawn(
                    row_start,
                    w,
                    h,
                    icon@,
                    size as int,
                    start_x as int,
                    y as int,
                    x as nat,
                    blend,
                ),
            decreases size - x,
        {
            assert(0 <= y * size <= 0xffff_ffff * 0xffff_ffff) by (nonlinear_arith)
                requires
                    0 <= y <= 0xffff_ffff,
                    0 <= size <= 0xffff_ffff,
            ;
            let k: u64 = y as u64 * size as u64 + x as u64;
            if k < quads as u64 {
                let i: usize = (k * 4) as usize;
                canvas.plot(
                    start_x as i64 + x as i64,
                    y as i64,
                    (icon[i], icon[i + 1], icon[i + 2]),
                    icon[i + 3],
                    blend,
                );
            }
            x += 1;
        }
        y += 1;
    }
}

/// Draws the coverage of one glyph in colour `rgb`, moved by `dx` columns
/// to the right and `dy` rows down.
pub fn draw_mask(canvas: &mut Canvas, mask: &GlyphMask, dx: i64, dy: i64, rgb: Rgb, blend: bool)
    requires
        old(canvas).wf(),
    ensures
        final(canvas).wf(),
        canvas_size(*final(canvas)) == canvas_size(*old(canvas)),
        final(canvas).bytes() == mask_drawn(
            old(canvas).bytes(),
            old(canvas).width(),
            old(canvas).height(),
            moved(mask@, dx as int, dy as int),
            rgb,
            blend,
        ),
{
    let ghost orig = canvas.bytes();
    let ghost w = canvas.width();
    let ghost h = canvas.height();
    let ghost dims = canvas_size(*canvas);
    let ghost m = moved(mask@, dx as int, dy as int);
    let len: usize = mask.coverage.len();
    let mut gy: u32 = 0;
    while gy < mask.height
        invariant
            0 <= gy <= mask.height,
            canvas.wf(),
            canvas_size(*canvas) == dims,
            w == dims.0,
            h == dims.1,
            m == moved(mask@, dx as int, dy as int),
            len == mask.coverage@.len(),
            canvas.bytes() == mask_rows_drawn(orig, w, h, m, rgb, gy as nat, blend),
        decreases mask.height - gy,
    {
        let ghost row_start = canvas.bytes();
        let mut gx: u32 = 0;
        while gx < mask.width
            invariant
                0 <= gx <= mask.width,
                0 <= gy < mask.height,
                canvas.wf(),
                canvas_size(*canvas) == dims,
                w == dims.0,
                h == dims.1,
                m == moved(mask@, dx as int, dy as int),
                len == mask.coverage@.len(),
                canvas.bytes() == mask_row_drawn(row_start, w, h, m, rgb, gy as int, gx as nat, blend),
            decreases mask.width - gx,
        {
            assert(0 <= gy * mask.width <= 0xffff_ffff * 0xffff_ffff) by (nonlinear_arith)
                requires
                    0 <= gy <= 0xffff_ffff,
                    0 <= mask.width <= 0xffff_ffff,
            ;
            let k: u64 = gy as u64 * mask.width as u64 + gx as u64;
            if k < len as u64 {
                let x: i128 = mask.left as i128 + gx as i128 + dx as i128;
                let y: i128 = mask.top as i128 + gy as i128 + dy as i128;
                // A sample beyond the reach of a canvas coordinate is off the canvas.
                if 0 <= x && x <= u32::MAX as i128 && 0 <= y && y <= u32::MAX as i128 {
                    canvas.plot(x as i64, y as i64, rgb, mask.coverage[k as usize], blend);
                }
            }
            gx += 1;
        }
        gy += 1;
    }
}

/// Draws a run of text, glyph by glyph, in colour `rgb`, moved by `dx`
/// columns to the right and `dy` rows down.
pub fn draw_text(canvas: &mut Canvas, masks: &Vec<GlyphMask>, dx: i64, dy: i64, rgb: Rgb, blend: bool)
    requires
        old(canvas).wf(),
    ensures
        final(canvas).wf(),
        canvas_size(*final(canvas)) == canvas_size(*old(canvas)),
        final(canvas).bytes() == text_drawn(
            old(canvas).bytes(),
            old(canvas).width(),
            old(canvas).height(),
            masks_moved(masks_view(masks@), dx as int, dy as int),
            rgb,
            blend,
        ),
{
    let ghost orig = canvas.bytes();
    let ghost w = canvas.width();
    let ghost h = canvas.height();
    let ghost dims = canvas_size(*canvas);
    let ghost placed = masks_moved(masks_view(masks@), dx as int, dy as int);
    let mut i: usize = 0;
    while i < masks.len()
        invariant
            0 <= i <= masks@.len(),
            canvas.wf(),
            canvas_size(*canvas) == dims,
            w == dims.0,
            h == dims.1,
            placed == masks_moved(masks_view(masks@), dx as int, dy as int),
            canvas.bytes() == text_drawn_upto(orig, w, h, placed, rgb, i as nat, blend),
        decreases masks@.len() - i,
    {
        assert(placed[i as int] == moved(masks@[i as int]@, dx as int, dy as int));
        draw_mask(canvas, &masks[i], dx, dy, rgb, blend);
        i += 1;
    }
}

} // verus!
