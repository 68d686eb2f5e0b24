//! The tray renderer: owns the icon rasters and the baseline across frames
//! and draws a frame into a buffer that the caller keeps and reuses.

use std::collections::HashMap;
use vstd::prelude::*;
use vstd::string::*;
use crate::canvas::{
    all_pixels, canvas_size, lemma_pixel_offset_bounds, pixel_at, solid, within, Canvas,
};
use crate::color::{
    in_palette, lemma_segment_color_in_palette, segment_color, spec_segment_color, Rgb, Rgba,
};
use crate::compose::{
    draw_icon, draw_text, icon_drawn, in_box, is_raster_pixel, lemma_icon_drawn_frame,
    lemma_icon_drawn_pixels, lemma_text_drawn_frame, lemma_text_drawn_pixels, masks_moved, masks_view,
    text_covers, text_drawn, GlyphMaskView,
};
use crate::icons::{
    cache_keys, icon_index, palette_color, unpremultiplied, IconCache, CACHE_ENTRIES,
};
use crate::layout::{
    layout, layout_fits, lemma_segment_count, lemma_width_in_parts, segment_count, segments_view,
    spec_alert_active, spec_segments, spec_total_width, Segment, SegmentView, Snapshot, SnapshotView,
};
use crate::text::{
    calculate_font_baseline, placed_text, spec_font_baseline, split_position, text_origin, whole_pixels,
    TextRun, TextRunView,
};

pub use crate::color::{Background, ALERT_COLOR};
pub use crate::icons::{tinted_svg, unpremultiply};
pub use crate::layout::IconType;
pub use crate::percent::{cap_percent, ALERT_THRESHOLD};
pub use crate::sizing::Sizing;

verus! {

broadcast use vstd::std_specs::hash::group_hash_axioms;

/// The text runs of every segment as mathematical values.
pub open spec fn texts_view(texts: Seq<TextRun>) -> Seq<TextRunView> {
    texts.map_values(|t: TextRun| t@)
}

/// The glyph masks of the value of a segment where they are drawn: those of
/// run `i`, aligned to the right edge of the segment on the baseline. A
/// segment for which no run was supplied has no text.
pub open spec fn text_of(texts: Seq<TextRunView>, i: int, segment: SegmentView, baseline: int) -> Seq<
    GlyphMaskView,
> {
    if 0 <= i < texts.len() {
        placed_text(texts[i], segment, baseline)
    } else {
        Seq::empty()
    }
}

/// The canvas before any segment is drawn: the background colour
/// everywhere, or transparent black without a background.
pub open spec fn blank_frame(width: int, height: int, background: Option<Background>) -> Seq<u8> {
    match background {
        Some(bg) => solid(width, height, bg.rgba),
        None => solid(width, height, (0u8, 0u8, 0u8, 0u8)),
    }
}

/// The image after the first `n` segments have been drawn, each by its icon
/// at its left edge and then the glyphs of its value, aligned to its right
/// edge on the baseline, all in colour `rgb`.
pub open spec fn segments_drawn(
    data: Seq<u8>,
    width: int,
    height: int,
    segments: Seq<SegmentView>,
    cache: IconCache,
    baseline: int,
    texts: Seq<TextRunView>,
    rgb: Rgb,
    blend: bool,
    n: nat,
) -> Seq<u8>
    decreases n,
{
    if n == 0 {
        data
    } else {
        let before = segments_drawn(
            data,
            width,
            height,
            segments,
            cache,
            baseline,
            texts,
            rgb,
            blend,
            (n - 1) as nat,
        );
        let seg = segments[n - 1];
        text_drawn(
            icon_drawn(before, width, height, cache.raster(seg.icon, rgb), height, seg.start, blend),
            width,
            height,
            text_of(texts, n - 1, seg, baseline),
            rgb,
            blend,
        )
    }
}

/// The pixels of the frame for a snapshot: the segments of its layout drawn
/// from left to right on a blank canvas, every one in the colour of the
/// frame. Over a background the sources are composited; without one they
/// replace what is there.
pub open spec fn spec_frame(
    cache: IconCache,
    baseline: int,
    texts: Seq<TextRunView>,
    sizing: Sizing,
    s: SnapshotView,
    background: Option<Background>,
) -> Seq<u8> {
    let width = spec_total_width(s, sizing);
    let height = sizing.icon_height as int;
    let segments = spec_segments(s, sizing);
    segments_drawn(
        blank_frame(width, height, background),
        width,
        height,
        segments,
        cache,
        baseline,
        texts,
        spec_segment_color(spec_alert_active(s), s.use_light_icons),
        background is Some,
        segments.len(),
    )
}

/// Whether a frame can be drawn: the icon is no wider than a `u32` can say,
/// and the bytes of one row and those of the whole frame can each be
/// counted in a `usize`.
pub open spec fn frame_fits(s: SnapshotView, sizing: Sizing) -> bool {
    &&& layout_fits(s, sizing)
    &&& 4 * spec_total_width(s, sizing) <= usize::MAX
    &&& 4 * spec_total_width(s, sizing) * sizing.icon_height <= usize::MAX
}

/// The snapshot that the arguments of a render call describe.
pub open spec fn snapshot_of(
    cpu_usage: i64,
    mem_percent: i64,
    gpu_usage: i64,
    down_str: Seq<char>,
    up_str: Seq<char>,
    show_cpu: bool,
    show_mem: bool,
    show_gpu: bool,
    show_net: bool,
    show_alerts: bool,
    use_light_icons: bool,
) -> SnapshotView {
    SnapshotView {
        cpu_usage: cpu_usage as int,
        mem_percent: mem_percent as int,
        gpu_usage: gpu_usage as int,
        down_display: down_str,
        up_display: up_str,
        show_cpu,
        show_mem,
        show_gpu,
        show_net,
        show_alerts,
        use_light_icons,
    }
}

/// Renders the tray icon frame after frame. It keeps the icon rasters of
/// every icon height it has met and the baseline it computed last.
pub struct TrayRenderer {
    icon_caches: HashMap<u32, IconCache>,
    baseline_cache: Option<(u32, u32, i64)>,
}

impl TrayRenderer {
    /// Whether the renderer holds the rasters for icons of side `size`.
    pub closed spec fn has_icons(&self, size: u32) -> bool {
        self.icon_caches@.contains_key(size)
    }

    /// The rasters for icons of side `size`.
    pub closed spec fn icons(&self, size: u32) -> IconCache {
        self.icon_caches@[size]
    }

    /// The baseline computed last, with the icon height and the font size it
    /// was computed for.
    pub closed spec fn last_baseline(&self) -> Option<(u32, u32, i64)> {
        self.baseline_cache
    }

    /// The baseline that text is drawn on, in thousandths of a pixel: the
    /// one computed last.
    pub open spec fn current_baseline(&self) -> int {
        match self.last_baseline() {
            Some((_, _, b)) => b as int,
            None => 0,
        }
    }

    /// Whether the baseline computed last was computed for this profile.
    pub open spec fn cached_baseline_is(&self, sizing: Sizing) -> bool {
        match self.last_baseline() {
            Some((h, fs, _)) => h == sizing.icon_height && fs == sizing.font_size,
            None => false,
        }
    }

    /// Every cache that the renderer holds is complete.
    pub closed spec fn wf(&self) -> bool {
        forall|size: u32| #[trigger]
            self.icon_caches@.contains_key(size) ==> self.icon_caches@[size].complete()
                && self.icon_caches@[size].size() == size
    }

    /// A renderer that has drawn nothing yet.
    pub fn new() -> (r: TrayRenderer)
        ensures
            r.wf(),
            r.last_baseline() is None,
            forall|size: u32| !r.has_icons(size),
    {
        TrayRenderer { icon_caches: HashMap::new(), baseline_cache: None }
    }

    /// Whether the rasters for icons of side `size` still have to be made.
    pub fn needs_icons(&self, size: u32) -> (r: bool)
        ensures
            r == !self.has_icons(size),
    {
        !self.icon_caches.contains_key(&size)
    }

    /// Makes sure the renderer holds rasters for icons of side `size`. On the
    /// first request for a size the cache is built from `rasters`, the
    /// rasterizer's output for each key in the order of [`IconCache::keys`];
    /// later requests change nothing, as caches are never replaced.
    pub fn icon_cache_mut(&mut self, size: u32, rasters: Vec<Vec<u8>>)
        requires
            old(self).wf(),
            rasters@.len() == CACHE_ENTRIES,
        ensures
            final(self).wf(),
            final(self).has_icons(size),
            final(self).last_baseline() == old(self).last_baseline(),
            forall|other: u32|
                other != size ==> final(self).has_icons(other) == old(self).has_icons(other)
                    && final(self).icons(other) == old(self).icons(other),
            old(self).has_icons(size) ==> final(self).icons(size) == old(self).icons(size),
            !old(self).has_icons(size) ==> forall|k: int|
                0 <= k < CACHE_ENTRIES ==> final(self).icons(size).raster(
                    (#[trigger] cache_keys()[k]).0,
                    cache_keys()[k].1,
                ) == unpremultiplied(rasters@[k]@),
    {
        if !self.icon_caches.contains_key(&size) {
            let cache = IconCache::new(size, rasters);
            self.icon_caches.insert(size, cache);
        }
    }

    /// The cache for icons of side `size`.
    pub fn icon_cache(&self, size: u32) -> (r: &IconCache)
        requires
            self.wf(),
            self.has_icons(size),
        ensures
            *r == self.icons(size),
            r.complete(),
            r.size() == size,
    {
        match self.icon_caches.get(&size) {
            Some(cache) => cache,
            None => vstd::pervasive::unreached(),
        }
    }

    /// The baseline for a sizing profile if it is the one computed last.
    pub fn cached_baseline(&self, sizing: Sizing) -> (r: Option<i64>)
        ensures
            r == match self.last_baseline() {
                Some((h, fs, b)) => if h == sizing.icon_height && fs == sizing.font_size {
                    Some(b)
                } else {
                    None
                },
                None => None,
            },
    {
        match self.baseline_cache {
            Some((h, fs, b)) => {
                if h == sizing.icon_height && fs == sizing.font_size {
                    Some(b)
                } else {
                    None
                }
            },
            None => None,
        }
    }

    /// The baseline for a sizing profile, in thousandths of a pixel. It is
    /// the cached one if that was computed for the same icon height and font
    /// size; otherwise it is computed from the measurements of the font (see
    /// [`calculate_font_baseline`]) and takes the place of the cached one.
    pub fn baseline(&mut self, sizing: Sizing, extents: &Vec<(i32, i32)>, ascent: i32) -> (r: i64)
        ensures
            old(self).cached_baseline_is(sizing) ==> {
                &&& final(self).last_baseline() == old(self).last_baseline()
                &&& old(self).last_baseline() == Some((sizing.icon_height, sizing.font_size, r))
            },
            !old(self).cached_baseline_is(sizing) ==> {
                &&& r == spec_font_baseline(extents@, sizing.icon_height as int, ascent as int)
                &&& final(self).last_baseline() == Some((sizing.icon_height, sizing.font_size, r))
            },
            old(self).wf() ==> final(self).wf(),
            forall|size: u32|
                final(self).has_icons(size) == old(self).has_icons(size) && final(self).icons(size)
                    == old(self).icons(size),
    {
        match self.cached_baseline(sizing) {
            Some(b) => b,
            None => {
                let b = calculate_font_baseline(extents, sizing.icon_height, ascent);
                self.baseline_cache = Some((sizing.icon_height, sizing.font_size, b));
                b
            },
        }
    }

    /// Draws the icon for a snapshot into `buffer` and returns its width, its
    /// height and whether the alert colour was used.
    ///
    /// `texts` holds, for each segment of the layout in order, the value of
    /// the segment as the font shapes it (see [`TextRun`]). Each value is
    /// drawn so that it ends at the right edge of its segment, on the
    /// baseline that the renderer holds for the sizing. The buffer is resized
    /// to four bytes per pixel; what it held before is discarded, its
    /// allocation is kept. Rows run from top to bottom, alpha is straight.
    pub fn render_snapshot(
        &self,
        texts: &Vec<TextRun>,
        buffer: &mut Vec<u8>,
        sizing: Sizing,
        snapshot: &Snapshot,
        background: Option<Background>,
    ) -> (r: (u32, u32, bool))
        requires
            self.wf(),
            segment_count(snapshot@) > 0 ==> self.has_icons(sizing.icon_height)
                && self.cached_baseline_is(sizing),
            frame_fits(snapshot@, sizing),
        ensures
            r.0 == spec_total_width(snapshot@, sizing),
            r.1 == sizing.icon_height,
            r.2 == spec_alert_active(snapshot@),
            final(buffer)@.len() == 4 * r.0 * r.1,
            final(buffer)@ == spec_frame(
                self.icons(sizing.icon_height),
                self.current_baseline(),
                texts_view(texts@),
                sizing,
                snapshot@,
                background,
            ),
    {
        let plan = layout(snapshot, sizing);
        let height = sizing.icon_height;
        let color = segment_color(plan.alert_active, snapshot.use_light_icons);
        proof {
            lemma_segment_count(snapshot@, sizing);
            lemma_segment_color_in_palette(plan.alert_active, snapshot.use_light_icons);
        }
        let mut canvas = blank_canvas(buffer, plan.total_width, height, background);
        if plan.segments.len() > 0 {
            let icons = self.icon_cache(height);
            let baseline = match self.baseline_cache {
                Some((_, _, b)) => b,
                None => 0,
            };
            draw_segments(&mut canvas, &plan.segments, icons, baseline, texts, color, background.is_some());
        }
        *buffer = canvas.into_raw();
        (plan.total_width, height, plan.alert_active)
    }

    /// Draws the icon for the given readings into `buffer` and returns its
    /// width, its height and whether the alert colour was used. Percent
    /// readings are in thousandths of a percent; see
    /// [`TrayRenderer::render_snapshot`] for the rest.
    pub fn render_tray_icon_into(
        &self,
        texts: &Vec<TextRun>,
        buffer: &mut Vec<u8>,
        sizing: Sizing,
        cpu_usage: i64,
        mem_percent: i64,
        gpu_usage: i64,
        down_str: &str,
        up_str: &str,
        show_cpu: bool,
        show_mem: bool,
        show_gpu: bool,
        show_net: bool,
        show_alerts: bool,
        use_light_icons: bool,
        background: Option<Background>,
    ) -> (r: (u32, u32, bool))
        requires
            self.wf(),
            show_cpu || show_mem || show_gpu || show_net ==> self.has_icons(sizing.icon_height)
                && self.cached_baseline_is(sizing),
            frame_fits(
                snapshot_of(
                    cpu_usage,
                    mem_percent,
                    gpu_usage,
                    down_str@,
                    up_str@,
                    show_cpu,
                    show_mem,
                    show_gpu,
                    show_net,
                    show_alerts,
                    use_light_icons,
                ),
                sizing,
            ),
        ensures
            ({
                let s = snapshot_of(
                    cpu_usage,
                    mem_percent,
                    gpu_usage,
                    down_str@,
                    up_str@,
                    show_cpu,
                    show_mem,
                    show_gpu,
                    show_net,
                    show_alerts,
                    use_light_icons,
                );
                &&& r.0 == spec_total_width(s, sizing)
                &&& r.1 == sizing.icon_height
                &&& r.2 == spec_alert_active(s)
                &&& final(buffer)@.len() == 4 * r.0 * r.1
                &&& final(buffer)@ == spec_frame(
                    self.icons(sizing.icon_height),
                    self.current_baseline(),
                    texts_view(texts@),
                    sizing,
                    s,
                    background,
                )
            }),
    {
        let snapshot = Snapshot {
            cpu_usage,
            mem_percent,
            gpu_usage,
            down_display: String::from_str(down_str),
            up_display: String::from_str(up_str),
            show_cpu,
            show_mem,
            show_gpu,
            show_net,
            show_alerts,
            use_light_icons,
        };
        self.render_snapshot(texts, buffer, sizing, &snapshot, background)
    }
}

/// Says whether a frame for the snapshot can be drawn with this sizing:
/// whether its width fits in a `u32` and the bytes of a row and of the
/// frame fit in a `usize`.
pub fn can_render(snapshot: &Snapshot, sizing: Sizing) -> (r: bool)
    ensures
        r == frame_fits(snapshot@, sizing),
{
    let percents: u128 = (if snapshot.show_mem { 1u128 } else { 0 }) + (if snapshot.show_cpu { 1u128 } else { 0 })
        + (if snapshot.show_gpu { 1u128 } else { 0 });
    let count: u128 = percents + (if snapshot.show_net { 2u128 } else { 0 });
    let gaps: u128 = if count > 0 {
        (count - 1) as u128
    } else {
        0
    };
    proof {
        let w = sizing.segment_width as int;
        let g = sizing.segment_gap as int;
        assert(0 <= percents * w <= 3 * w) by (nonlinear_arith)
            requires
                0 <= percents <= 3,
                0 <= w,
        ;
        assert(0 <= g * gaps <= 4 * g) by (nonlinear_arith)
            requires
                0 <= gaps <= 4,
                0 <= g,
        ;
        assert(g * gaps == gaps * g) by (nonlinear_arith);
    }
    let width: u128 = 2 * sizing.edge_padding as u128 + percents * sizing.segment_width as u128 + (
    if snapshot.show_net {
        2 * sizing.segment_width_net as u128
    } else {
        0
    }) + gaps * sizing.segment_gap as u128;
    assert(width == spec_total_width(snapshot@, sizing));
    if width > u32::MAX as u128 {
        return false;
    }
    assert(0 <= width * sizing.icon_height <= 0xffff_ffff * 0xffff_ffff) by (nonlinear_arith)
        requires
            0 <= width <= 0xffff_ffff,
            0 <= sizing.icon_height <= 0xffff_ffff,
    ;
    assert(4 * spec_total_width(snapshot@, sizing) * sizing.icon_height == 4 * (width
        * sizing.icon_height)) by (nonlinear_arith)
        requires
            width == spec_total_width(snapshot@, sizing),
    ;
    4 * width <= usize::MAX as u128 && 4 * (width * sizing.icon_height as u128) <= usize::MAX as u128
}

/// Whether two caches hold the same rasters for every icon in every colour
/// of the palette.
pub open spec fn same_rasters(a: IconCache, b: IconCache) -> bool {
    forall|icon: IconType, color: Rgb| in_palette(color) ==> #[trigger] a.raster(icon, color) == b.raster(icon, color)
}

proof fn lemma_segments_drawn_by_rasters(
    data: Seq<u8>,
    width: int,
    height: int,
    segments: Seq<SegmentView>,
    a: IconCache,
    b: IconCache,
    baseline: int,
    texts: Seq<TextRunView>,
    rgb: Rgb,
    blend: bool,
    n: nat,
)
    requires
        same_rasters(a, b),
        in_palette(rgb),
    ensures
        segments_drawn(data, width, height, segments, a, baseline, texts, rgb, blend, n) == segments_drawn(
            data,
            width,
            height,
            segments,
            b,
            baseline,
            texts,
            rgb,
            blend,
            n,
        ),
    decreases n,
{
    if n > 0 {
        lemma_segments_drawn_by_rasters(
            data,
            width,
            height,
            segments,
            a,
            b,
            baseline,
            texts,
            rgb,
            blend,
            (n - 1) as nat,
        );
        assert(a.raster(segments[n - 1].icon, rgb) == b.raster(segments[n - 1].icon, rgb));
    }
}

/// Caches that were built from the same output of the rasterizer hold the
/// same rasters.
pub proof fn lemma_same_rasters_from_same_output(a: IconCache, b: IconCache, rasters: Seq<Seq<u8>>)
    requires
        forall|k: int|
            0 <= k < CACHE_ENTRIES ==> a.raster((#[trigger] cache_keys()[k]).0, cache_keys()[k].1)
                == unpremultiplied(rasters[k]),
        forall|k: int|
            0 <= k < CACHE_ENTRIES ==> b.raster((#[trigger] cache_keys()[k]).0, cache_keys()[k].1)
                == unpremultiplied(rasters[k]),
    ensures
        same_rasters(a, b),
{
    assert forall|icon: IconType, color: Rgb| in_palette(color) implies #[trigger] a.raster(icon, color)
        == b.raster(icon, color) by {
        let j = if color == crate::color::WHITE {
            0int
        } else if color == crate::color::BLACK {
            1int
        } else {
            2int
        };
        let k = icon_index(icon) * 3 + j;
        assert(palette_color(j) == color);
        assert(cache_keys()[k] == (icon, color));
    }
}

/// Rendering is repeatable: the pixels of a frame are determined by the
/// snapshot, the sizing, the background, the text runs, the baseline and
/// the icon rasters for the height of the icon. Neither what the buffer
/// held before nor anything else that a renderer remembers enters into
/// them: two calls with the same arguments leave the same bytes, on one
/// renderer or on two, fresh or used, that hold the same rasters and
/// baseline.
pub proof fn lemma_render_repeatable(
    first: TrayRenderer,
    second: TrayRenderer,
    texts: Seq<TextRunView>,
    sizing: Sizing,
    s: SnapshotView,
    background: Option<Background>,
    first_out: Seq<u8>,
    second_out: Seq<u8>,
)
    requires
        same_rasters(first.icons(sizing.icon_height), second.icons(sizing.icon_height)),
        first.current_baseline() == second.current_baseline(),
        first_out == spec_frame(
            first.icons(sizing.icon_height),
            first.current_baseline(),
            texts,
            sizing,
            s,
            background,
        ),
        second_out == spec_frame(
            second.icons(sizing.icon_height),
            second.current_baseline(),
            texts,
            sizing,
            s,
            background,
        ),
    ensures
        first_out == second_out,
{
    lemma_segment_color_in_palette(spec_alert_active(s), s.use_light_icons);
    lemma_segments_drawn_by_rasters(
        blank_frame(spec_total_width(s, sizing), sizing.icon_height as int, background),
        spec_total_width(s, sizing),
        sizing.icon_height as int,
        spec_segments(s, sizing),
        first.icons(sizing.icon_height),
        second.icons(sizing.icon_height),
        first.current_baseline(),
        texts,
        spec_segment_color(spec_alert_active(s), s.use_light_icons),
        background is Some,
        spec_segments(s, sizing).len(),
    );
}

/// With every segment switched off the icon is as wide as its two edge
/// paddings, no alert is active, and without a background every byte of
/// the frame is zero: nothing is drawn.
pub proof fn lemma_nothing_shown_is_blank(
    cache: IconCache,
    baseline: int,
    texts: Seq<TextRunView>,
    sizing: Sizing,
    s: SnapshotView,
)
    requires
        !s.show_cpu,
        !s.show_mem,
        !s.show_gpu,
        !s.show_net,
    ensures
        spec_total_width(s, sizing) == 2 * sizing.edge_padding,
        !spec_alert_active(s),
        spec_frame(cache, baseline, texts, sizing, s, None).len() == 4 * (2 * sizing.edge_padding)
            * sizing.icon_height,
        forall|i: int|
            0 <= i < spec_frame(cache, baseline, texts, sizing, s, None).len() ==> spec_frame(
                cache,
                baseline,
                texts,
                sizing,
                s,
                None,
            )[i] == 0,
{
    lemma_segment_count(s, sizing);
    lemma_width_in_parts(s, sizing);
    let w = 2 * sizing.edge_padding as int;
    let h = sizing.icon_height as int;
    assert(0 <= 4 * w * h) by (nonlinear_arith)
        requires
            0 <= w,
            0 <= h,
    ;
    assert(spec_frame(cache, baseline, texts, sizing, s, None) == solid(w, h, (0u8, 0u8, 0u8, 0u8)));
}

/// While alerts are switched on and a percent metric that is shown has
/// reached the threshold, the alert is active and every segment of the
/// frame, the network segments too, is drawn in the one alert colour. With
/// alerts switched off no alert is active, whatever the readings are.
pub proof fn lemma_alert_colors_whole_icon(
    cache: IconCache,
    baseline: int,
    texts: Seq<TextRunView>,
    sizing: Sizing,
    s: SnapshotView,
    background: Option<Background>,
)
    ensures
        s.show_alerts && ((s.show_mem && s.mem_percent >= ALERT_THRESHOLD) || (s.show_cpu && s.cpu_usage
            >= ALERT_THRESHOLD) || (s.show_gpu && s.gpu_usage >= ALERT_THRESHOLD)) ==> {
            &&& spec_alert_active(s)
            &&& spec_frame(cache, baseline, texts, sizing, s, background) == segments_drawn(
                blank_frame(spec_total_width(s, sizing), sizing.icon_height as int, background),
                spec_total_width(s, sizing),
                sizing.icon_height as int,
                spec_segments(s, sizing),
                cache,
                baseline,
                texts,
                ALERT_COLOR,
                background is Some,
                spec_segments(s, sizing).len(),
            )
        },
        !s.show_alerts ==> !spec_alert_active(s),
{
}

/// Whether a pixel can stand in a frame without background that is drawn
/// in colour `rgb`: it is transparent black, or it has that colour, as
/// every sample of a glyph has, or it is a pixel of the raster that the
/// cache holds in that colour for the icon of a segment.
pub open spec fn frame_pixel(px: Rgba, segments: Seq<SegmentView>, cache: IconCache, rgb: Rgb) -> bool {
    ||| px == (0u8, 0u8, 0u8, 0u8)
    ||| (px.0, px.1, px.2) == rgb
    ||| exists|i: int|
        0 <= i < segments.len() && is_raster_pixel(cache.raster((#[trigger] segments[i]).icon, rgb), px)
}

proof fn lemma_segments_drawn_pixels(
    data: Seq<u8>,
    width: int,
    height: int,
    segments: Seq<SegmentView>,
    cache: IconCache,
    baseline: int,
    texts: Seq<TextRunView>,
    rgb: Rgb,
    n: nat,
)
    requires
        data.len() == 4 * width * height,
        0 <= height,
        n <= segments.len(),
        all_pixels(data, width, height, |px: Rgba| frame_pixel(px, segments, cache, rgb)),
    ensures
        segments_drawn(data, width, height, segments, cache, baseline, texts, rgb, false, n).len()
            == data.len(),
        all_pixels(
            segments_drawn(data, width, height, segments, cache, baseline, texts, rgb, false, n),
            width,
            height,
            |px: Rgba| frame_pixel(px, segments, cache, rgb),
        ),
    decreases n,
{
    if n > 0 {
        let allowed = |px: Rgba| frame_pixel(px, segments, cache, rgb);
        let before = segments_drawn(
            data,
            width,
            height,
            segments,
            cache,
            baseline,
            texts,
            rgb,
            false,
            (n - 1) as nat,
        );
        lemma_segments_drawn_pixels(data, width, height, segments, cache, baseline, texts, rgb, (n - 1) as nat);
        let seg = segments[n - 1];
        let icon = cache.raster(seg.icon, rgb);
        assert forall|px: Rgba| is_raster_pixel(icon, px) implies #[trigger] allowed(px) by {
            assert(is_raster_pixel(cache.raster(segments[n - 1].icon, rgb), px));
        }
        lemma_icon_drawn_pixels(before, width, height, icon, height, seg.start, allowed);
        let with_icon = icon_drawn(before, width, height, icon, height, seg.start, false);
        assert forall|alpha: u8| #[trigger] allowed((rgb.0, rgb.1, rgb.2, alpha)) by {}
        lemma_text_drawn_pixels(with_icon, width, height, text_of(texts, n - 1, seg, baseline), rgb, allowed);
    }
}

/// Without a background a frame holds nothing but what its colour and its
/// icons bring: every pixel is transparent black, or has the colour of the
/// frame, or is a pixel of the raster cached in that colour for the icon of
/// one of its segments. While an alert is active that colour is the alert
/// colour, for every glyph and every icon of the frame.
pub proof fn lemma_frame_pixels(
    cache: IconCache,
    baseline: int,
    texts: Seq<TextRunView>,
    sizing: Sizing,
    s: SnapshotView,
)
    ensures
        all_pixels(
            spec_frame(cache, baseline, texts, sizing, s, None),
            spec_total_width(s, sizing),
            sizing.icon_height as int,
            |px: Rgba|
                frame_pixel(
                    px,
                    spec_segments(s, sizing),
                    cache,
                    spec_segment_color(spec_alert_active(s), s.use_light_icons),
                ),
        ),
        spec_alert_active(s) ==> spec_segment_color(spec_alert_active(s), s.use_light_icons) == ALERT_COLOR,
{
    let width = spec_total_width(s, sizing);
    let height = sizing.icon_height as int;
    let segments = spec_segments(s, sizing);
    let rgb = spec_segment_color(spec_alert_active(s), s.use_light_icons);
    lemma_segment_count(s, sizing);
    lemma_width_in_parts(s, sizing);
    lemma_solid_pixels(width, height, (0u8, 0u8, 0u8, 0u8));
    let blank = blank_frame(width, height, None);
    assert(blank == solid(width, height, (0u8, 0u8, 0u8, 0u8)));
    lemma_segments_drawn_pixels(blank, width, height, segments, cache, baseline, texts, rgb, segments.len());
}

/// Whether a segment may draw at `(x, y)`: the pixel lies in the square of
/// the icon of a segment or in the rectangle of a glyph mask of its value,
/// where that is placed.
pub open spec fn may_draw(
    segments: Seq<SegmentView>,
    baseline: int,
    texts: Seq<TextRunView>,
    height: int,
    x: int,
    y: int,
) -> bool {
    exists|i: int|
        0 <= i < segments.len() && (in_box((#[trigger] segments[i]).start, 0, height, height, x, y)
            || text_covers(text_of(texts, i, segments[i], baseline), x, y))
}

/// The pixel that a blank frame shows everywhere.
pub open spec fn blank_pixel(background: Option<Background>) -> Rgba {
    match background {
        Some(bg) => bg.rgba,
        None => (0u8, 0u8, 0u8, 0u8),
    }
}

proof fn lemma_solid_pixels(width: int, height: int, px: Rgba)
    requires
        0 <= width,
        0 <= height,
    ensures
        solid(width, height, px).len() == 4 * width * height,
        forall|x: int, y: int|
            within(width, height, x, y) ==> #[trigger] pixel_at(solid(width, height, px), width, x, y) == px,
{
    assert(0 <= 4 * width * height) by (nonlinear_arith)
        requires
            0 <= width,
            0 <= height,
    ;
    assert forall|x: int, y: int| within(width, height, x, y) implies #[trigger] pixel_at(
        solid(width, height, px),
        width,
        x,
        y,
    ) == px by {
        lemma_pixel_offset_bounds(width, height, x, y);
    }
}

proof fn lemma_segments_drawn_frame(
    data: Seq<u8>,
    width: int,
    height: int,
    segments: Seq<SegmentView>,
    cache: IconCache,
    baseline: int,
    texts: Seq<TextRunView>,
    rgb: Rgb,
    blend: bool,
    n: nat,
)
    requires
        data.len() == 4 * width * height,
        0 <= height,
        n <= segments.len(),
    ensures
        segments_drawn(data, width, height, segments, cache, baseline, texts, rgb, blend, n).len()
            == data.len(),
        forall|x: int, y: int|
            within(width, height, x, y) && !may_draw(segments, baseline, texts, height, x, y)
                ==> #[trigger] pixel_at(
                segments_drawn(data, width, height, segments, cache, baseline, texts, rgb, blend, n),
                width,
                x,
                y,
            ) == pixel_at(data, width, x, y),
    decreases n,
{
    if n > 0 {
        let before = segments_drawn(
            data,
            width,
            height,
            segments,
            cache,
            baseline,
            texts,
            rgb,
            blend,
            (n - 1) as nat,
        );
        lemma_segments_drawn_frame(
            data,
            width,
            height,
            segments,
            cache,
            baseline,
            texts,
            rgb,
            blend,
            (n - 1) as nat,
        );
        let seg = segments[n - 1];
        let with_icon = icon_drawn(before, width, height, cache.raster(seg.icon, rgb), height, seg.start, blend);
        lemma_icon_drawn_frame(before, width, height, cache.raster(seg.icon, rgb), height, seg.start, blend);
        lemma_text_drawn_frame(with_icon, width, height, text_of(texts, n - 1, seg, baseline), rgb, blend);
        assert forall|x: int, y: int|
            within(width, height, x, y) && !may_draw(segments, baseline, texts, height, x, y)
                implies #[trigger] pixel_at(
            segments_drawn(data, width, height, segments, cache, baseline, texts, rgb, blend, n),
            width,
            x,
            y,
        ) == pixel_at(data, width, x, y) by {
            assert(!(in_box(segments[n - 1].start, 0, height, height, x, y) || text_covers(
                text_of(texts, n - 1, segments[n - 1], baseline),
                x,
                y,
            )));
        }
    }
}

/// A frame holds four bytes for each of its pixels, and nothing is drawn
/// but by a segment: a pixel that lies neither in the square of an icon nor
/// in the rectangle of a glyph mask of a value, placed at the right edge
/// of its segment, shows the background, or is transparent black if there
/// is none.
pub proof fn lemma_frame_untouched_elsewhere(
    cache: IconCache,
    baseline: int,
    texts: Seq<TextRunView>,
    sizing: Sizing,
    s: SnapshotView,
    background: Option<Background>,
)
    ensures
        spec_frame(cache, baseline, texts, sizing, s, background).len() == 4 * spec_total_width(s, sizing)
            * sizing.icon_height,
        forall|x: int, y: int|
            within(spec_total_width(s, sizing), sizing.icon_height as int, x, y) && !may_draw(
                spec_segments(s, sizing),
                baseline,
                texts,
                sizing.icon_height as int,
                x,
                y,
            ) ==> #[trigger] pixel_at(
                spec_frame(cache, baseline, texts, sizing, s, background),
                spec_total_width(s, sizing),
                x,
                y,
            ) == blank_pixel(background),
{
    let width = spec_total_width(s, sizing);
    let height = sizing.icon_height as int;
    let segments = spec_segments(s, sizing);
    lemma_segment_count(s, sizing);
    lemma_width_in_parts(s, sizing);
    lemma_solid_pixels(width, height, blank_pixel(background));
    let blank = blank_frame(width, height, background);
    assert(blank == solid(width, height, blank_pixel(background)));
    lemma_segments_drawn_frame(
        blank,
        width,
        height,
        segments,
        cache,
        baseline,
        texts,
        spec_segment_color(spec_alert_active(s), s.use_light_icons),
        background is Some,
        segments.len(),
    );
}

/// Draws the segments of a layout from left to right: for each its icon at
/// its left edge, then the glyphs of its value, aligned to its right edge
/// on the baseline, all in colour `rgb`. Icons are squares as high as the
/// canvas.
pub fn draw_segments(
    canvas: &mut Canvas,
    segments: &Vec<Segment>,
    icons: &IconCache,
    baseline: i64,
    texts: &Vec<TextRun>,
    rgb: Rgb,
    blend: bool,
)
    requires
        old(canvas).wf(),
        icons.complete(),
        in_palette(rgb),
    ensures
        final(canvas).wf(),
        canvas_size(*final(canvas)) == canvas_size(*old(canvas)),
        final(canvas).bytes() == segments_drawn(
            old(canvas).bytes(),
            old(canvas).width(),
            old(canvas).height(),
            segments_view(segments@),
            *icons,
            baseline as int,
            texts_view(texts@),
            rgb,
            blend,
            segments@.len(),
        ),
{
    let ghost orig = canvas.bytes();
    let ghost dims = canvas_size(*canvas);
    let ghost segs = segments_view(segments@);
    let ghost tv = texts_view(texts@);
    let (width, height) = canvas.dimensions();
    let (baseline_row, _) = split_position(baseline);
    let n = segments.len();
    let mut i: usize = 0;
    while i < n
        invariant
            i <= n,
            n == segments@.len(),
            icons.complete(),
            in_palette(rgb),
            segs == segments_view(segments@),
            tv == texts_view(texts@),
            baseline_row == whole_pixels(baseline as int),
            canvas.wf(),
            canvas_size(*canvas) == dims,
            dims == (width, height),
            canvas.bytes() == segments_drawn(
                orig,
                width as int,
                height as int,
                segs,
                *icons,
                baseline as int,
                tv,
                rgb,
                blend,
                i as nat,
            ),
        decreases n - i,
    {
        let segment = &segments[i];
        assert(segs[i as int] == segment@);
        let icon = icons.get(segment.icon, rgb);
        draw_icon(canvas, icon, height, segment.start, blend);
        if i < texts.len() {
            let run = &texts[i];
            assert(tv[i as int] == run@);
            let (column, _) = split_position(text_origin(segment.start, segment.width, run.width));
            draw_text(canvas, &run.glyphs, column, baseline_row, rgb, blend);
            assert(text_of(tv, i as int, segment@, baseline as int) == masks_moved(
                masks_view(run.glyphs@),
                column as int,
                baseline_row as int,
            ));
        } else {
            assert(text_of(tv, i as int, segment@, baseline as int) =~= Seq::<GlyphMaskView>::empty());
        }
        i += 1;
    }
}

/// Turns `buffer` into a blank canvas of the given dimensions: resized to
/// four bytes per pixel, every pixel the background or transparent black.
/// The buffer is left empty until the canvas is given back.
fn blank_canvas(buffer: &mut Vec<u8>, width: u32, height: u32, background: Option<Background>) -> (canvas:
    Canvas)
    requires
        4 * width <= usize::MAX,
        4 * width * height <= usize::MAX,
    ensures
        canvas.wf(),
        canvas.width() == width,
        canvas.height() == height,
        canvas.bytes() == blank_frame(width as int, height as int, background),
{
    assert(0 <= width * height && 4 * width * height == 4 * (width * height)) by (nonlinear_arith)
        requires
            0 <= width,
            0 <= height,
    ;
    let required: usize = (width as u64 * height as u64 * 4) as usize;
    buffer.clear();
    buffer.resize(required, 0);
    let mut pixels: Vec<u8> = Vec::new();
    std::mem::swap(buffer, &mut pixels);
    assert(pixels@ =~= solid(width as int, height as int, (0u8, 0u8, 0u8, 0u8)));
    match Canvas::from_raw(width, height, pixels) {
        Some(mut canvas) => {
            match background {
                Some(bg) => {
                    canvas.fill(bg.rgba);
                },
                None => {},
            }
            canvas
        },
        None => vstd::pervasive::unreached(),
    }
}

} // verus!
