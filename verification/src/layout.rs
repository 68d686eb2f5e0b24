//! The segment layout: which metrics are shown, in what order, where each
//! segment stands, how wide the icon is, and whether an alert is active.

use vstd::prelude::*;
use crate::percent::{is_alerting, percent_chars, percent_text, spec_is_alerting};
use crate::sizing::Sizing;

verus! {

/// The glyph that labels a segment.
#[derive(Clone, Copy, Debug, PartialEq, Eq, Structural, Hash)]
pub enum IconType {
    Cpu,
    Memory,
    Gpu,
    ArrowDown,
    ArrowUp,
}

/// The values to show in one frame and the switches that select them.
/// Percent readings are in thousandths of a percent.
#[derive(Clone, Debug)]
pub struct Snapshot {
    pub cpu_usage: i64,
    pub mem_percent: i64,
    pub gpu_usage: i64,
    /// Download rate, already formatted.
    pub down_display: String,
    /// Upload rate, already formatted.
    pub up_display: String,
    pub show_cpu: bool,
    pub show_mem: bool,
    pub show_gpu: bool,
    pub show_net: bool,
    pub show_alerts: bool,
    pub use_light_icons: bool,
}

/// A snapshot as a mathematical value.
pub struct SnapshotView {
    pub cpu_usage: int,
    pub mem_percent: int,
    pub gpu_usage: int,
    pub down_display: Seq<char>,
    pub up_display: Seq<char>,
    pub show_cpu: bool,
    pub show_mem: bool,
    pub show_gpu: bool,
    pub show_net: bool,
    pub show_alerts: bool,
    pub use_light_icons: bool,
}

impl View for Snapshot {
    type V = SnapshotView;

    open spec fn view(&self) -> SnapshotView {
        SnapshotView {
            cpu_usage: self.cpu_usage as int,
            mem_percent: self.mem_percent as int,
            gpu_usage: self.gpu_usage as int,
            down_display: self.down_display@,
            up_display: self.up_display@,
            show_cpu: self.show_cpu,
            show_mem: self.show_mem,
            show_gpu: self.show_gpu,
            show_net: self.show_net,
            show_alerts: self.show_alerts,
            use_light_icons: self.use_light_icons,
        }
    }
}

/// One labelled slot of the icon: a glyph at its left edge and a value
/// aligned to its right edge.
#[derive(Clone, Debug)]
pub struct Segment {
    pub icon: IconType,
    /// The text of the value.
    pub value: String,
    /// Column of the left edge.
    pub start: u32,
    /// Width in pixels.
    pub width: u32,
    /// Whether the metric of this segment is at or above the alert threshold.
    pub alert: bool,
}

/// A segment as a mathematical value.
pub struct SegmentView {
    pub icon: IconType,
    pub value: Seq<char>,
    pub start: int,
    pub width: int,
    pub alert: bool,
}

impl View for Segment {
    type V = SegmentView;

    open spec fn view(&self) -> SegmentView {
        SegmentView {
            icon: self.icon,
            value: self.value@,
            start: self.start as int,
            width: self.width as int,
            alert: self.alert,
        }
    }
}

/// The segments of a frame as mathematical values.
pub open spec fn segments_view(segments: Seq<Segment>) -> Seq<SegmentView> {
    segments.map_values(|s: Segment| s@)
}

/// The layout of one frame.
#[derive(Clone, Debug)]
pub struct Layout {
    /// The segments from left to right.
    pub segments: Vec<Segment>,
    /// Width of the icon in pixels.
    pub total_width: u32,
    /// Whether the whole icon is drawn in the alert colour.
    pub alert_active: bool,
}

/// The segment of a percent metric that begins at column `start`.
pub open spec fn percent_segment(icon: IconType, value: int, start: int, sizing: Sizing) -> SegmentView {
    SegmentView {
        icon,
        value: percent_chars(value),
        start,
        width: sizing.segment_width as int,
        alert: spec_is_alerting(value),
    }
}

/// The segment of a network rate that begins at column `start`.
pub open spec fn net_segment(icon: IconType, text: Seq<char>, start: int, sizing: Sizing) -> SegmentView {
    SegmentView { icon, value: text, start, width: sizing.segment_width_net as int, alert: false }
}

/// Column at which a segment begins that follows the segments `before`.
pub open spec fn next_start(before: Seq<SegmentView>, sizing: Sizing) -> int {
    if before.len() == 0 {
        sizing.edge_padding as int
    } else {
        before.last().start + before.last().width + sizing.segment_gap
    }
}

/// The segments up to and including memory.
pub open spec fn segments_through_mem(s: SnapshotView, sizing: Sizing) -> Seq<SegmentView> {
    if s.show_mem {
        seq![percent_segment(IconType::Memory, s.mem_percent, sizing.edge_padding as int, sizing)]
    } else {
        seq![]
    }
}

/// The segments up to and including the processor.
pub open spec fn segments_through_cpu(s: SnapshotView, sizing: Sizing) -> Seq<SegmentView> {
    let before = segments_through_mem(s, sizing);
    if s.show_cpu {
        before.push(percent_segment(IconType::Cpu, s.cpu_usage, next_start(before, sizing), sizing))
    } else {
        before
    }
}

/// The segments up to and including the graphics processor.
pub open spec fn segments_through_gpu(s: SnapshotView, sizing: Sizing) -> Seq<SegmentView> {
    let before = segments_through_cpu(s, sizing);
    if s.show_gpu {
        before.push(percent_segment(IconType::Gpu, s.gpu_usage, next_start(before, sizing), sizing))
    } else {
        before
    }
}

/// The segments of a frame, from left to right: memory, processor, graphics
/// processor, download and upload, each only if it is shown. Neighbours are
/// one gap apart and the first begins after the edge padding.
pub open spec fn spec_segments(s: SnapshotView, sizing: Sizing) -> Seq<SegmentView> {
    let before = segments_through_gpu(s, sizing);
    if s.show_net {
        let down = net_segment(IconType::ArrowDown, s.down_display, next_start(before, sizing), sizing);
        let with_down = before.push(down);
        with_down.push(
            net_segment(IconType::ArrowUp, s.up_display, next_start(with_down, sizing), sizing),
        )
    } else {
        before
    }
}

/// How many percent segments are shown.
pub open spec fn percent_count(s: SnapshotView) -> int {
    (if s.show_mem { 1int } else { 0 }) + (if s.show_cpu { 1int } else { 0 }) + (if s.show_gpu { 1int } else { 0 })
}

/// How many segments are shown.
pub open spec fn segment_count(s: SnapshotView) -> int {
    percent_count(s) + (if s.show_net { 2int } else { 0 })
}

/// Width of the icon: the padding at both edges, the widths of the segments
/// and one gap between each two neighbours.
pub open spec fn spec_total_width(s: SnapshotView, sizing: Sizing) -> int {
    let n = segment_count(s);
    2 * sizing.edge_padding + percent_count(s) * sizing.segment_width + (if s.show_net {
        2 * sizing.segment_width_net
    } else {
        0
    }) + sizing.segment_gap * (if n > 0 { n - 1 } else { 0 })
}

/// Whether the whole icon is drawn in the alert colour: alerts are switched
/// on and a percent metric that is shown has reached the threshold.
pub open spec fn spec_alert_active(s: SnapshotView) -> bool {
    s.show_alerts && ((s.show_mem && spec_is_alerting(s.mem_percent)) || (s.show_cpu
        && spec_is_alerting(s.cpu_usage)) || (s.show_gpu && spec_is_alerting(s.gpu_usage)))
}

/// Whether the icon of a snapshot can be laid out: its width fits in a `u32`.
pub open spec fn layout_fits(s: SnapshotView, sizing: Sizing) -> bool {
    spec_total_width(s, sizing) <= u32::MAX
}

/// The width of the icon as a sum: the edge paddings, the width of every
/// segment that is shown, and the gaps between them.
pub proof fn lemma_width_in_parts(s: SnapshotView, sizing: Sizing)
    ensures
        spec_total_width(s, sizing) == 2 * sizing.edge_padding + (if s.show_mem {
            sizing.segment_width as int
        } else {
            0
        }) + (if s.show_cpu {
            sizing.segment_width as int
        } else {
            0
        }) + (if s.show_gpu {
            sizing.segment_width as int
        } else {
            0
        }) + (if s.show_net {
            2 * sizing.segment_width_net
        } else {
            0
        }) + (if segment_count(s) <= 1 {
            0
        } else if segment_count(s) == 2 {
            sizing.segment_gap as int
        } else if segment_count(s) == 3 {
            2 * sizing.segment_gap
        } else if segment_count(s) == 4 {
            3 * sizing.segment_gap
        } else {
            4 * sizing.segment_gap
        }),
        0 <= segment_count(s) <= 5,
        2 * sizing.edge_padding <= spec_total_width(s, sizing),
{
    let w = sizing.segment_width as int;
    let g = sizing.segment_gap as int;
    let n = segment_count(s);
    assert(percent_count(s) * w == (if s.show_mem { w } else { 0 }) + (if s.show_cpu { w } else { 0 }) + (
    if s.show_gpu { w } else { 0 })) by (nonlinear_arith)
        requires
            percent_count(s) == (if s.show_mem { 1int } else { 0 }) + (if s.show_cpu { 1int } else { 0 }) + (
            if s.show_gpu { 1int } else { 0 }),
    ;
    assert(g * (if n > 0 { n - 1 } else { 0 }) == (if n <= 1 { 0 } else if n == 2 { g } else if n == 3 { 2 * g } else if n == 4 { 3 * g } else { 4 * g })) by (nonlinear_arith)
        requires
            0 <= n <= 5,
    ;
}

/// The segments end where the width of the icon says: the last one is
/// followed by the edge padding only, and each lies inside the icon.
pub proof fn lemma_segments_within_width(s: SnapshotView, sizing: Sizing)
    ensures
        spec_segments(s, sizing).len() == segment_count(s),
        spec_segments(s, sizing).len() <= 5,
        next_start(spec_segments(s, sizing), sizing) + sizing.edge_padding == spec_total_width(s, sizing) + (
        if segment_count(s) > 0 {
            sizing.segment_gap as int
        } else {
            0
        }),
        forall|i: int|
            0 <= i < spec_segments(s, sizing).len() ==> {
                let seg = #[trigger] spec_segments(s, sizing)[i];
                &&& sizing.edge_padding <= seg.start
                &&& seg.start + seg.width + sizing.edge_padding <= spec_total_width(s, sizing)
            },
        forall|i: int|
            0 < i < spec_segments(s, sizing).len() ==> {
                let seg = #[trigger] spec_segments(s, sizing)[i];
                let prev = spec_segments(s, sizing)[i - 1];
                seg.start == prev.start + prev.width + sizing.segment_gap
            },
{
    lemma_width_in_parts(s, sizing);
}

/// The arrangement of the segments depends on the switches alone: two
/// snapshots with the same switches have the same icons at the same places,
/// whatever their readings are, so the icon does not jitter.
pub proof fn lemma_arrangement_follows_switches(a: SnapshotView, b: SnapshotView, sizing: Sizing)
    requires
        a.show_mem == b.show_mem,
        a.show_cpu == b.show_cpu,
        a.show_gpu == b.show_gpu,
        a.show_net == b.show_net,
    ensures
        spec_segments(a, sizing).len() == spec_segments(b, sizing).len(),
        spec_total_width(a, sizing) == spec_total_width(b, sizing),
        forall|i: int|
            0 <= i < spec_segments(a, sizing).len() ==> {
                let x = #[trigger] spec_segments(a, sizing)[i];
                let y = spec_segments(b, sizing)[i];
                x.icon == y.icon && x.start == y.start && x.width == y.width
            },
{
    let a1 = segments_through_mem(a, sizing);
    let b1 = segments_through_mem(b, sizing);
    let a2 = segments_through_cpu(a, sizing);
    let b2 = segments_through_cpu(b, sizing);
    let a3 = segments_through_gpu(a, sizing);
    let b3 = segments_through_gpu(b, sizing);
    assert(a1.len() == b1.len() && next_start(a1, sizing) == next_start(b1, sizing));
    assert(a2.len() == b2.len() && next_start(a2, sizing) == next_start(b2, sizing));
    assert(a3.len() == b3.len() && next_start(a3, sizing) == next_start(b3, sizing));
}

/// An alert is active exactly when alerts are switched on and some segment
/// of the frame is alerting; network segments never are.
pub proof fn lemma_alert_aggregates_segments(s: SnapshotView, sizing: Sizing)
    ensures
        spec_alert_active(s) <==> s.show_alerts && exists|i: int|
            0 <= i < spec_segments(s, sizing).len() && (#[trigger] spec_segments(s, sizing)[i]).alert,
        !s.show_alerts ==> !spec_alert_active(s),
        forall|i: int|
            0 <= i < spec_segments(s, sizing).len() && ((#[trigger] spec_segments(s, sizing)[i]).icon
                == IconType::ArrowDown || spec_segments(s, sizing)[i].icon == IconType::ArrowUp)
                ==> !spec_segments(s, sizing)[i].alert,
{
    let a = segments_through_mem(s, sizing);
    let b = segments_through_cpu(s, sizing);
    let c = segments_through_gpu(s, sizing);
    let d = spec_segments(s, sizing);
    if s.show_mem && spec_is_alerting(s.mem_percent) {
        assert(d[0].alert);
    }
    if s.show_cpu && spec_is_alerting(s.cpu_usage) {
        assert(d[a.len() as int].alert);
    }
    if s.show_gpu && spec_is_alerting(s.gpu_usage) {
        assert(d[b.len() as int].alert);
    }
}

/// While the icon fits, so does every segment on its way: each stage of the
/// layout ends at or before the width of the icon.
proof fn lemma_stage_bounds(s: SnapshotView, sizing: Sizing)
    ensures
        s.show_mem ==> sizing.edge_padding + sizing.segment_width <= spec_total_width(s, sizing),
        s.show_cpu ==> next_start(segments_through_mem(s, sizing), sizing) + sizing.segment_width
            <= spec_total_width(s, sizing),
        s.show_gpu ==> next_start(segments_through_cpu(s, sizing), sizing) + sizing.segment_width
            <= spec_total_width(s, sizing),
        s.show_net ==> next_start(segments_through_gpu(s, sizing), sizing) + 2
            * sizing.segment_width_net + sizing.segment_gap <= spec_total_width(s, sizing),
        2 * sizing.edge_padding <= spec_total_width(s, sizing),
{
    lemma_segments_within_width(s, sizing);
    lemma_width_in_parts(s, sizing);
}

/// The layout has one segment for each metric that is shown, two for the
/// network.
pub proof fn lemma_segment_count(s: SnapshotView, sizing: Sizing)
    ensures
        spec_segments(s, sizing).len() == segment_count(s),
        0 <= segment_count(s) <= 5,
        segment_count(s) > 0 <==> s.show_mem || s.show_cpu || s.show_gpu || s.show_net,
{
}

/// The icon ends one edge padding after its last segment.
proof fn lemma_width_from_last(s: SnapshotView, sizing: Sizing)
    ensures
        spec_segments(s, sizing).len() == 0 ==> spec_total_width(s, sizing) == 2 * sizing.edge_padding,
        spec_segments(s, sizing).len() > 0 ==> spec_total_width(s, sizing) == spec_segments(
            s,
            sizing,
        ).last().start + spec_segments(s, sizing).last().width + sizing.edge_padding,
{
    lemma_segments_within_width(s, sizing);
}

/// Appends a segment one gap to the right of the last one, or after the
/// edge padding if it is the first.
fn append_segment(
    segments: &mut Vec<Segment>,
    icon: IconType,
    value: String,
    width: u32,
    alert: bool,
    sizing: Sizing,
)
    requires
        next_start(segments_view(old(segments)@), sizing) + width <= u32::MAX,
    ensures
        segments_view(final(segments)@) == segments_view(old(segments)@).push(
            SegmentView {
                icon,
                value: value@,
                start: next_start(segments_view(old(segments)@), sizing),
                width: width as int,
                alert,
            },
        ),
{
    let n = segments.len();
    let start: u32 = if n == 0 {
        sizing.edge_padding
    } else {
        let last = &segments[n - 1];
        assert(segments_view(segments@).last() == last@);
        last.start + last.width + sizing.segment_gap
    };
    let ghost before = segments_view(segments@);
    segments.push(Segment { icon, value, start, width, alert });
    assert(segments_view(segments@) =~= before.push(
        SegmentView { icon, value: value@, start: start as int, width: width as int, alert },
    ));
}

/// Appends the segment of a percent metric if the metric is shown, and says
/// whether it is shown and alerting.
fn place_percent(
    segments: &mut Vec<Segment>,
    show: bool,
    icon: IconType,
    value: i64,
    sizing: Sizing,
) -> (alert: bool)
    requires
        show ==> next_start(segments_view(old(segments)@), sizing) + sizing.segment_width <= u32::MAX,
    ensures
        segments_view(final(segments)@) == (if show {
            segments_view(old(segments)@).push(
                percent_segment(icon, value as int, next_start(segments_view(old(segments)@), sizing), sizing),
            )
        } else {
            segments_view(old(segments)@)
        }),
        alert == (show && spec_is_alerting(value as int)),
{
    if show {
        let alert = is_alerting(value);
        let text = percent_text(value);
        append_segment(segments, icon, text, sizing.segment_width, alert, sizing);
        alert
    } else {
        false
    }
}

/// Appends the download and the upload segment if the network is shown.
fn place_net(segments: &mut Vec<Segment>, show: bool, down: &String, up: &String, sizing: Sizing)
    requires
        show ==> next_start(segments_view(old(segments)@), sizing) + 2 * sizing.segment_width_net
            + sizing.segment_gap <= u32::MAX,
    ensures
        segments_view(final(segments)@) == (if show {
            let before = segments_view(old(segments)@);
            let with_down = before.push(
                net_segment(IconType::ArrowDown, down@, next_start(before, sizing), sizing),
            );
            with_down.push(net_segment(IconType::ArrowUp, up@, next_start(with_down, sizing), sizing))
        } else {
            segments_view(old(segments)@)
        }),
{
    if show {
        append_segment(segments, IconType::ArrowDown, down.clone(), sizing.segment_width_net, false, sizing);
        append_segment(segments, IconType::ArrowUp, up.clone(), sizing.segment_width_net, false, sizing);
    }
}

/// Lays out the frame for a snapshot: the segments from left to right, the
/// width of the icon, and whether the alert colour applies.
pub fn layout(snapshot: &Snapshot, sizing: Sizing) -> (r: Layout)
    requires
        layout_fits(snapshot@, sizing),
    ensures
        segments_view(r.segments@) == spec_segments(snapshot@, sizing),
        r.total_width == spec_total_width(snapshot@, sizing),
        r.alert_active == spec_alert_active(snapshot@),
{
    let ghost s = snapshot@;
    proof {
        lemma_stage_bounds(s, sizing);
        lemma_width_from_last(s, sizing);
    }
    let mut segments: Vec<Segment> = Vec::new();
    assert(segments_view(segments@) =~= Seq::<SegmentView>::empty());
    let mem_alert = place_percent(&mut segments, snapshot.show_mem, IconType::Memory, snapshot.mem_percent, sizing);
    assert(segments_view(segments@) =~= segments_through_mem(s, sizing));
    let cpu_alert = place_percent(&mut segments, snapshot.show_cpu, IconType::Cpu, snapshot.cpu_usage, sizing);
    let gpu_alert = place_percent(&mut segments, snapshot.show_gpu, IconType::Gpu, snapshot.gpu_usage, sizing);
    place_net(&mut segments, snapshot.show_net, &snapshot.down_display, &snapshot.up_display, sizing);
    let n = segments.len();
    let total_width = if n == 0 {
        sizing.edge_padding + sizing.edge_padding
    } else {
        let last = &segments[n - 1];
        assert(segments_view(segments@).last() == last@);
        last.start + last.width + sizing.edge_padding
    };
    Layout {
        segments,
        total_width,
        alert_active: snapshot.show_alerts && (mem_alert || cpu_alert || gpu_alert),
    }
}

} // verus!
