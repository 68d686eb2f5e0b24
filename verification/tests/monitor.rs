use better_resource_monitor::gpu::calc_residency_usage;
use better_resource_monitor::monitor::{memory_percent, transfer_rates, Action, Monitor, Sample};
use better_resource_monitor::redraw::{needs_redraw, should_update, RedrawPolicy, Shown};

const POLICY: RedrawPolicy =
    RedrawPolicy { percent_threshold: 2_000, rate_threshold: 50_000, min_interval_ms: 3_000 };

fn sample(cpu_usage: i64, total_rx: u64, total_tx: u64, now_ms: u64) -> Sample {
    Sample {
        cpu_usage,
        mem_used: 4_000,
        mem_total: 16_000,
        total_rx,
        total_tx,
        gpu_usage: 0,
        show_cpu: true,
        show_mem: true,
        show_gpu: false,
        show_net: true,
        show_alerts: true,
        use_light_icons: true,
        now_ms,
    }
}

fn shown(cpu_usage: i64, down_rate: u64, down_display: &str, at_ms: u64) -> Shown {
    Shown {
        cpu_usage,
        mem_percent: 25_000,
        gpu_usage: 0,
        down_rate,
        up_rate: 0,
        down_display: down_display.to_owned(),
        up_display: "0.0 KB".to_owned(),
        show_cpu: true,
        show_mem: true,
        show_gpu: false,
        show_net: true,
        show_alerts: true,
        use_light_icons: true,
        at_ms,
    }
}

#[test]
fn should_update_on_whole_numbers() {
    assert!(should_update(0, 0, 0));
    assert!(should_update(5, 5, -1));
    assert!(!should_update(5, 5, 1));
    assert!(should_update(i64::MIN, i64::MAX, i64::MAX));
    assert!(should_update(i64::MAX, i64::MIN, i64::MAX));
    assert!(!should_update(-1_000, 999, 2_000));
    assert!(should_update(-1_000, 1_000, 2_000));
}

#[test]
fn memory_percent_is_the_share_in_use() {
    assert_eq!(memory_percent(8 << 30, 16 << 30), 50_000);
    assert_eq!(memory_percent(1, 3), 33_333);
    assert_eq!(memory_percent(2, 3), 66_666);
    assert_eq!(memory_percent(0, 16), 0);
    assert_eq!(memory_percent(16, 16), 100_000);
    assert_eq!(memory_percent(5, 0), 0);
    assert_eq!(memory_percent(32, 16), 200_000);
    assert_eq!(memory_percent(u64::MAX, 1), i64::MAX);
}

#[test]
fn transfer_rates_are_the_growth_of_the_counters() {
    assert_eq!(transfer_rates(None, 700, 900), (0, 0));
    assert_eq!(transfer_rates(Some((100, 200)), 700, 900), (600, 700));
    assert_eq!(transfer_rates(Some((100, 200)), 100, 200), (0, 0));
    assert_eq!(transfer_rates(Some((100, 200)), 50, 1_200), (0, 1_000));
}

#[test]
fn needs_redraw_first_frame_and_switches() {
    let now = shown(10_000, 0, "0.0 KB", 0);
    assert!(needs_redraw(&None, &now, &POLICY));
    assert!(!needs_redraw(&Some(now.clone()), &now, &POLICY));
    for change in 0..6 {
        let mut other = now.clone();
        match change {
            0 => other.show_cpu = false,
            1 => other.show_mem = false,
            2 => other.show_gpu = true,
            3 => other.show_net = false,
            4 => other.show_alerts = false,
            _ => other.use_light_icons = false,
        }
        assert!(needs_redraw(&Some(now.clone()), &other, &POLICY));
    }
}

#[test]
fn needs_redraw_applies_the_thresholds() {
    let last = Some(shown(10_000, 100_000, "0.1 MB", 1_000));
    assert!(!needs_redraw(&last, &shown(11_999, 100_000, "0.1 MB", 1_500), &POLICY));
    assert!(needs_redraw(&last, &shown(12_000, 100_000, "0.1 MB", 1_500), &POLICY));
    assert!(needs_redraw(&last, &shown(8_000, 100_000, "0.1 MB", 1_500), &POLICY));
    assert!(!needs_redraw(&last, &shown(10_000, 149_999, "0.1 MB", 1_500), &POLICY));
    assert!(needs_redraw(&last, &shown(10_000, 150_000, "0.2 MB", 1_500), &POLICY));
    assert!(needs_redraw(&last, &shown(10_000, 50_000, "50 KB", 1_500), &POLICY));
}

#[test]
fn needs_redraw_lets_a_changed_text_through_after_the_interval() {
    let last = Some(shown(10_000, 100_000, "0.1 MB", 1_000));
    let changed = |at_ms| shown(10_000, 149_999, "0.2 MB", at_ms);
    assert!(!needs_redraw(&last, &changed(3_999), &POLICY));
    assert!(needs_redraw(&last, &changed(4_000), &POLICY));
    // A clock that ran backwards lets nothing through.
    assert!(!needs_redraw(&last, &changed(0), &POLICY));
    // The same text is no reason, however old the frame is.
    assert!(!needs_redraw(&last, &shown(10_000, 149_999, "0.1 MB", 99_000), &POLICY));
}

#[test]
fn monitor_draws_first_then_waits_for_change() {
    let mut monitor = Monitor::new(POLICY);
    match monitor.step(&sample(10_000, 1_000_000, 2_000_000, 0)) {
        Action::Redraw(snapshot) => {
            assert_eq!(snapshot.cpu_usage, 10_000);
            assert_eq!(snapshot.mem_percent, 25_000);
            assert_eq!(snapshot.down_display, "0.0 KB");
            assert_eq!(snapshot.up_display, "0.0 KB");
            assert!(snapshot.show_cpu && snapshot.show_mem && !snapshot.show_gpu && snapshot.show_net);
        },
        Action::Skip => panic!("the first sample must draw"),
    }
    // Little traffic and a steady load: the text changes, the frame is young.
    assert!(matches!(monitor.step(&sample(10_500, 1_001_500, 2_000_000, 800)), Action::Skip));
    // The load has moved two points from what the frame shows.
    match monitor.step(&sample(12_000, 1_001_500, 2_000_000, 1_600)) {
        Action::Redraw(snapshot) => {
            assert_eq!(snapshot.cpu_usage, 12_000);
            assert_eq!(snapshot.down_display, "0.0 KB");
        },
        Action::Skip => panic!("a move of two points must draw"),
    }
    // Rates are taken between neighbouring samples, not since the last frame.
    match monitor.step(&sample(12_000, 1_601_500, 2_000_000, 2_400)) {
        Action::Redraw(snapshot) => {
            assert_eq!(snapshot.down_display, "0.6 MB");
            assert_eq!(snapshot.up_display, "0.0 KB");
        },
        Action::Skip => panic!("a jump of the rate must draw"),
    }
}

#[test]
fn monitor_draws_a_changed_text_once_the_frame_is_old() {
    let mut monitor = Monitor::new(POLICY);
    assert!(matches!(monitor.step(&sample(0, 0, 0, 0)), Action::Redraw(_)));
    assert!(matches!(monitor.step(&sample(0, 1_500, 0, 1_000)), Action::Skip));
    assert!(matches!(monitor.step(&sample(0, 3_000, 0, 2_000)), Action::Skip));
    match monitor.step(&sample(0, 4_500, 0, 3_000)) {
        Action::Redraw(snapshot) => assert_eq!(snapshot.down_display, "1.5 KB"),
        Action::Skip => panic!("the text changed and the frame is old"),
    }
    assert!(matches!(monitor.step(&sample(0, 6_000, 0, 4_000)), Action::Skip));
}

fn states(list: &[(&str, i64)]) -> Vec<(String, i64)> {
    list.iter().map(|(name, time)| (name.to_string(), *time)).collect()
}

#[test]
fn residency_usage_is_the_share_of_active_states() {
    assert_eq!(calc_residency_usage(&states(&[("OFF", 50), ("P1", 30), ("P2", 20)])), 50_000);
    assert_eq!(calc_residency_usage(&states(&[("IDLE", 1), ("DOWN", 1), ("OFF", 1), ("P1", 1)])), 25_000);
    assert_eq!(calc_residency_usage(&states(&[("P1", 1), ("P2", 2)])), 100_000);
    assert_eq!(calc_residency_usage(&states(&[("OFF", 7)])), 0);
    assert_eq!(calc_residency_usage(&states(&[("off", 2), ("OFF", 1)])), 66_666);
}

#[test]
fn residency_usage_without_time_is_nothing() {
    assert_eq!(calc_residency_usage(&Vec::new()), 0);
    assert_eq!(calc_residency_usage(&states(&[("OFF", 0), ("P1", 0)])), 0);
    assert_eq!(calc_residency_usage(&states(&[("OFF", -5), ("P1", 5)])), 0);
    assert_eq!(calc_residency_usage(&states(&[("OFF", 10), ("P1", -5)])), -100_000);
    assert_eq!(calc_residency_usage(&states(&[("OFF", 3), ("P1", -1)])), -50_000);
    assert_eq!(calc_residency_usage(&states(&[("OFF", 4), ("P1", -1)])), -33_334);
    assert_eq!(calc_residency_usage(&states(&[("OFF", i64::MAX), ("P1", i64::MAX)])), 50_000);
}
