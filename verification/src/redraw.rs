//! Redraw suppression: a frame is drawn again only when what it shows has
//! changed enough to be worth an update of the tray.

use vstd::prelude::*;

verus! {

/// The distance between two values.
pub open spec fn distance(a: int, b: int) -> int {
    if a >= b {
        a - b
    } else {
        b - a
    }
}

/// Whether a value has moved at least `threshold` away from the value that
/// was drawn last. A move of exactly the threshold counts.
pub open spec fn spec_should_update(prev: int, new: int, threshold: int) -> bool {
    distance(new, prev) >= threshold
}

/// Decides whether a reading has changed enough since the last frame to
/// draw a new one: it has if it differs from `prev` by `threshold` or more.
/// All three are in the same unit.
pub fn should_update(prev: i64, new: i64, threshold: i64) -> (r: bool)
    ensures
        r == spec_should_update(prev as int, new as int, threshold as int),
{
    let d: i128 = new as i128 - prev as i128;
    let magnitude: i128 = if d < 0 {
        -d
    } else {
        d
    };
    magnitude >= threshold as i128
}

/// The decision does not depend on the direction of the change, and a
/// larger threshold never turns a refusal into an update.
pub proof fn lemma_should_update_symmetric(a: int, b: int, t1: int, t2: int)
    requires
        t1 <= t2,
    ensures
        spec_should_update(a, b, t1) == spec_should_update(b, a, t1),
        spec_should_update(a, b, t2) ==> spec_should_update(a, b, t1),
        t1 > 0 ==> !spec_should_update(a, a, t1),
{
}

/// How much a frame may lag behind the readings.
#[derive(Clone, Copy, Debug, PartialEq, Eq, Structural)]
pub struct RedrawPolicy {
    /// A percent reading that moves this far asks for a new frame, in
    /// thousandths of a percent.
    pub percent_threshold: i64,
    /// A transfer rate that moves this far asks for a new frame, in bytes
    /// per second.
    pub rate_threshold: u64,
    /// After this many milliseconds a changed rate text asks for a new
    /// frame even if the rate moved less.
    pub min_interval_ms: u64,
}

/// What a frame shows, with the rates behind its texts and the time at
/// which it was drawn.
#[derive(Clone, Debug)]
pub struct Shown {
    pub cpu_usage: i64,
    pub mem_percent: i64,
    pub gpu_usage: i64,
    pub down_rate: u64,
    pub up_rate: u64,
    pub down_display: String,
    pub up_display: String,
    pub show_cpu: bool,
    pub show_mem: bool,
    pub show_gpu: bool,
    pub show_net: bool,
    pub show_alerts: bool,
    pub use_light_icons: bool,
    /// Milliseconds on a clock that does not run backwards.
    pub at_ms: u64,
}

/// What a frame shows, as a mathematical value.
pub struct ShownView {
    pub cpu_usage: int,
    pub mem_percent: int,
    pub gpu_usage: int,
    pub down_rate: int,
    pub up_rate: int,
    pub down_display: Seq<char>,
    pub up_display: Seq<char>,
    pub show_cpu: bool,
    pub show_mem: bool,
    pub show_gpu: bool,
    pub show_net: bool,
    pub show_alerts: bool,
    pub use_light_icons: bool,
    pub at_ms: int,
}

impl View for Shown {
    type V = ShownView;

    open spec fn view(&self) -> ShownView {
        ShownView {
            cpu_usage: self.cpu_usage as int,
            mem_percent: self.mem_percent as int,
            gpu_usage: self.gpu_usage as int,
            down_rate: self.down_rate as int,
            up_rate: self.up_rate as int,
            down_display: self.down_display@,
            up_display: self.up_display@,
            show_cpu: self.show_cpu,
            show_mem: self.show_mem,
            show_gpu: self.show_gpu,
            show_net: self.show_net,
            show_alerts: self.show_alerts,
            use_light_icons: self.use_light_icons,
            at_ms: self.at_ms as int,
        }
    }
}

/// Whether a visibility switch or the colour scheme differs.
pub open spec fn switches_differ(a: ShownView, b: ShownView) -> bool {
    a.show_cpu != b.show_cpu || a.show_mem != b.show_mem || a.show_gpu != b.show_gpu || a.show_net
        != b.show_net || a.show_alerts != b.show_alerts || a.use_light_icons != b.use_light_icons
}

/// Whether a percent reading has moved by the threshold or more.
pub open spec fn percents_moved(last: ShownView, now: ShownView, policy: RedrawPolicy) -> bool {
    let t = policy.percent_threshold as int;
    spec_should_update(last.cpu_usage, now.cpu_usage, t) || spec_should_update(
        last.mem_percent,
        now.mem_percent,
        t,
    ) || spec_should_update(last.gpu_usage, now.gpu_usage, t)
}

/// Whether a transfer rate has moved by the threshold or more.
pub open spec fn rates_moved(last: ShownView, now: ShownView, policy: RedrawPolicy) -> bool {
    let t = policy.rate_threshold as int;
    spec_should_update(last.down_rate, now.down_rate, t) || spec_should_update(
        last.up_rate,
        now.up_rate,
        t,
    )
}

/// Whether the text of a rate has changed and the last frame is at least
/// the minimum interval old.
pub open spec fn texts_due(last: ShownView, now: ShownView, policy: RedrawPolicy) -> bool {
    now.at_ms - last.at_ms >= policy.min_interval_ms && (last.down_display != now.down_display
        || last.up_display != now.up_display)
}

/// Whether a new frame is drawn. The first frame always is, and so is one
/// after a switch changed. Otherwise a percent reading or a rate must have
/// moved by its threshold, or the text of a rate must have changed while
/// the last frame is old enough.
pub open spec fn spec_needs_redraw(last: Option<ShownView>, now: ShownView, policy: RedrawPolicy) -> bool {
    match last {
        None => true,
        Some(l) => switches_differ(l, now) || percents_moved(l, now, policy) || rates_moved(
            l,
            now,
            policy,
        ) || texts_due(l, now, policy),
    }
}

fn rate_moved(prev: u64, new: u64, threshold: u64) -> (r: bool)
    ensures
        r == spec_should_update(prev as int, new as int, threshold as int),
{
    let d = if new >= prev {
        new - prev
    } else {
        prev - new
    };
    d >= threshold
}

/// Decides whether to draw a new frame for the readings `now`, given what
/// the last frame showed.
pub fn needs_redraw(last: &Option<Shown>, now: &Shown, policy: &RedrawPolicy) -> (r: bool)
    ensures
        r == spec_needs_redraw(
            match *last {
                Some(l) => Some(l@),
                None => None,
            },
            now@,
            *policy,
        ),
{
    match last {
        None => true,
        Some(l) => {
            let switched = l.show_cpu != now.show_cpu || l.show_mem != now.show_mem || l.show_gpu
                != now.show_gpu || l.show_net != now.show_net || l.show_alerts != now.show_alerts
                || l.use_light_icons != now.use_light_icons;
            let t = policy.percent_threshold;
            let percents = should_update(l.cpu_usage, now.cpu_usage, t) || should_update(
                l.mem_percent,
                now.mem_percent,
                t,
            ) || should_update(l.gpu_usage, now.gpu_usage, t);
            let rates = rate_moved(l.down_rate, now.down_rate, policy.rate_threshold) || rate_moved(
                l.up_rate,
                now.up_rate,
                policy.rate_threshold,
            );
            let old_enough = now.at_ms >= l.at_ms && now.at_ms - l.at_ms >= policy.min_interval_ms;
            let same_down = l.down_display == now.down_display;
            let same_up = l.up_display == now.up_display;
            let texts = old_enough && (!same_down || !same_up);
            switched || percents || rates || texts
        },
    }
}

/// A change of a switch always asks for a new frame, whatever the
/// thresholds are.
pub proof fn lemma_switch_forces_redraw(last: ShownView, now: ShownView, policy: RedrawPolicy)
    requires
        switches_differ(last, now),
    ensures
        spec_needs_redraw(Some(last), now, policy),
{
}

/// Readings that stay within their thresholds, with texts that stay the
/// same, ask for no new frame.
pub proof fn lemma_still_readings_skip(last: ShownView, now: ShownView, policy: RedrawPolicy)
    requires
        !switches_differ(last, now),
        !percents_moved(last, now, policy),
        !rates_moved(last, now, policy),
        last.down_display == now.down_display,
        last.up_display == now.up_display,
    ensures
        !spec_needs_redraw(Some(last), now, policy),
{
}

} // verus!
