//! The decisions of the polling loop: from the state after the last sample
//! and a fresh sample of the sensors to the next state and what to do.
//!
//! Sampling the sensors, sleeping and pushing the frame to the tray are the
//! caller's part. The caller hands each sample to [`Monitor::step`] and
//! draws a frame when it is told to.

use vstd::prelude::*;
use vstd::string::*;
use crate::layout::{Snapshot, SnapshotView};
use crate::redraw::{needs_redraw, spec_needs_redraw, RedrawPolicy, Shown, ShownView};
use crate::speed::{format_speed, speed_chars};

verus! {

/// One reading of the sensors, with the switches as they stand.
#[derive(Clone, Copy, Debug)]
pub struct Sample {
    /// Load of the processor, in thousandths of a percent.
    pub cpu_usage: i64,
    /// Memory in use, in bytes.
    pub mem_used: u64,
    /// Memory installed, in bytes.
    pub mem_total: u64,
    /// Bytes received on all interfaces since they came up.
    pub total_rx: u64,
    /// Bytes sent on all interfaces since they came up.
    pub total_tx: u64,
    /// Load of the graphics processor, in thousandths of a percent.
    pub gpu_usage: i64,
    pub show_cpu: bool,
    pub show_mem: bool,
    pub show_gpu: bool,
    pub show_net: bool,
    pub show_alerts: bool,
    pub use_light_icons: bool,
    /// Time of the sample, in milliseconds.
    pub now_ms: u64,
}

/// What to do after a sample.
#[derive(Clone, Debug)]
pub enum Action {
    /// Draw this snapshot and show the frame.
    Redraw(Snapshot),
    /// Leave the icon as it is.
    Skip,
}

/// The share of memory in use, in thousandths of a percent, rounded down;
/// nothing if no memory is reported.
pub open spec fn spec_memory_percent(used: int, total: int) -> int {
    if total > 0 {
        let p = used * 100_000 / total;
        if p > i64::MAX {
            i64::MAX as int
        } else {
            p
        }
    } else {
        0
    }
}

/// The bytes received and sent since the sample before. The first sample
/// has no rates yet, and counters that fell back count as standing still.
pub open spec fn spec_transfer_rates(previous: Option<(u64, u64)>, total_rx: u64, total_tx: u64) -> (
    int,
    int,
) {
    match previous {
        None => (0, 0),
        Some((rx, tx)) => (
            if total_rx >= rx {
                total_rx - rx
            } else {
                0
            },
            if total_tx >= tx {
                total_tx - tx
            } else {
                0
            },
        ),
    }
}

/// What a frame for a sample would show.
pub open spec fn spec_reading(previous: Option<(u64, u64)>, sample: Sample) -> ShownView {
    let rates = spec_transfer_rates(previous, sample.total_rx, sample.total_tx);
    ShownView {
        cpu_usage: sample.cpu_usage as int,
        mem_percent: spec_memory_percent(sample.mem_used as int, sample.mem_total as int),
        gpu_usage: sample.gpu_usage as int,
        down_rate: rates.0,
        up_rate: rates.1,
        down_display: speed_chars(rates.0),
        up_display: speed_chars(rates.1),
        show_cpu: sample.show_cpu,
        show_mem: sample.show_mem,
        show_gpu: sample.show_gpu,
        show_net: sample.show_net,
        show_alerts: sample.show_alerts,
        use_light_icons: sample.use_light_icons,
        at_ms: sample.now_ms as int,
    }
}

/// The snapshot to draw for a reading.
pub open spec fn snapshot_of_reading(reading: ShownView) -> SnapshotView {
    SnapshotView {
        cpu_usage: reading.cpu_usage,
        mem_percent: reading.mem_percent,
        gpu_usage: reading.gpu_usage,
        down_display: reading.down_display,
        up_display: reading.up_display,
        show_cpu: reading.show_cpu,
        show_mem: reading.show_mem,
        show_gpu: reading.show_gpu,
        show_net: reading.show_net,
        show_alerts: reading.show_alerts,
        use_light_icons: reading.use_light_icons,
    }
}

/// Computes the share of memory in use, in thousandths of a percent.
pub fn memory_percent(used: u64, total: u64) -> (r: i64)
    ensures
        r == spec_memory_percent(used as int, total as int),
        used <= total ==> 0 <= r <= 100_000,
{
    if total > 0 {
        let p: u128 = used as u128 * 100_000 / total as u128;
        assert(used <= total ==> p <= 100_000) by (nonlinear_arith)
            requires
                p == used as int * 100_000 / total as int,
                total > 0,
                used >= 0,
        ;
        if p > i64::MAX as u128 {
            i64::MAX
        } else {
            p as i64
        }
    } else {
        0
    }
}

/// Computes the bytes received and sent since the sample before.
pub fn transfer_rates(previous: Option<(u64, u64)>, total_rx: u64, total_tx: u64) -> (r: (u64, u64))
    ensures
        (r.0 as int, r.1 as int) == spec_transfer_rates(previous, total_rx, total_tx),
{
    match previous {
        None => (0, 0),
        Some((rx, tx)) => (
            if total_rx >= rx {
                total_rx - rx
            } else {
                0
            },
            if total_tx >= tx {
                total_tx - tx
            } else {
                0
            },
        ),
    }
}

/// The state of the polling loop between two samples.
pub struct Monitor {
    policy: RedrawPolicy,
    counters: Option<(u64, u64)>,
    last: Option<Shown>,
}

impl Monitor {
    /// The thresholds that the monitor applies.
    pub closed spec fn policy(&self) -> RedrawPolicy {
        self.policy
    }

    /// The network counters of the sample before, if there was one.
    pub closed spec fn counters(&self) -> Option<(u64, u64)> {
        self.counters
    }

    /// What the frame drawn last shows, if one was drawn.
    pub closed spec fn last_drawn(&self) -> Option<ShownView> {
        match self.last {
            Some(l) => Some(l@),
            None => None,
        }
    }

    /// A monitor that has seen no sample yet.
    pub fn new(policy: RedrawPolicy) -> (m: Monitor)
        ensures
            m.policy() == policy,
            m.counters() is None,
            m.last_drawn() is None,
    {
        Monitor { policy, counters: None, last: None }
    }

    /// Takes a sample and decides what to do: draw a frame if none was
    /// drawn yet or if the reading has moved far enough from what the last
    /// frame shows, and skip otherwise. The monitor remembers the counters
    /// of every sample and the reading of every frame it asked for.
    pub fn step(&mut self, sample: &Sample) -> (action: Action)
        ensures
            final(self).policy() == old(self).policy(),
            final(self).counters() == Some((sample.total_rx, sample.total_tx)),
            ({
                let reading = spec_reading(old(self).counters(), *sample);
                let redraw = spec_needs_redraw(old(self).last_drawn(), reading, old(self).policy());
                &&& (action is Redraw) == redraw
                &&& action matches Action::Redraw(snapshot) ==> snapshot@ == snapshot_of_reading(reading)
                &&& final(self).last_drawn() == (if redraw {
                    Some(reading)
                } else {
                    old(self).last_drawn()
                })
            }),
    {
        let (down_rate, up_rate) = transfer_rates(self.counters, sample.total_rx, sample.total_tx);
        self.counters = Some((sample.total_rx, sample.total_tx));
        let now = Shown {
            cpu_usage: sample.cpu_usage,
            mem_percent: memory_percent(sample.mem_used, sample.mem_total),
            gpu_usage: sample.gpu_usage,
            down_rate,
            up_rate,
            down_display: format_speed(down_rate),
            up_display: format_speed(up_rate),
            show_cpu: sample.show_cpu,
            show_mem: sample.show_mem,
            show_gpu: sample.show_gpu,
            show_net: sample.show_net,
            show_alerts: sample.show_alerts,
            use_light_icons: sample.use_light_icons,
            at_ms: sample.now_ms,
        };
        if needs_redraw(&self.last, &now, &self.policy) {
            let snapshot = Snapshot {
                cpu_usage: now.cpu_usage,
                mem_percent: now.mem_percent,
                gpu_usage: now.gpu_usage,
                down_display: now.down_display.clone(),
                up_display: now.up_display.clone(),
                show_cpu: now.show_cpu,
                show_mem: now.show_mem,
                show_gpu: now.show_gpu,
                show_net: now.show_net,
                show_alerts: now.show_alerts,
                use_light_icons: now.use_light_icons,
            };
            self.last = Some(now);
            Action::Redraw(snapshot)
        } else {
            Action::Skip
        }
    }
}

/// The first sample always leads to a frame, and that frame shows no
/// traffic.
pub proof fn lemma_first_sample_draws(sample: Sample, policy: RedrawPolicy)
    ensures
        spec_needs_redraw(None, spec_reading(None, sample), policy),
        spec_reading(None, sample).down_rate == 0,
        spec_reading(None, sample).up_rate == 0,
{
}

} // verus!
