use better_resource_monitor::layout::{layout, IconType, Snapshot};
use better_resource_monitor::sizing::Sizing;
use better_resource_monitor::tray_render::{can_render, TrayRenderer};

fn snapshot(show_cpu: bool, show_mem: bool, show_gpu: bool, show_net: bool, show_alerts: bool) -> Snapshot {
    Snapshot {
        cpu_usage: 45_000,
        mem_percent: 99_400,
        gpu_usage: 7_800,
        down_display: "1.5 MB".to_owned(),
        up_display: "0.2 MB".to_owned(),
        show_cpu,
        show_mem,
        show_gpu,
        show_net,
        show_alerts,
        use_light_icons: true,
    }
}

#[test]
fn layout_orders_memory_cpu_gpu_down_up() {
    let plan = layout(&snapshot(true, true, true, true, true), Sizing::linux());
    let icons: Vec<IconType> = plan.segments.iter().map(|s| s.icon).collect();
    assert_eq!(
        icons,
        vec![IconType::Memory, IconType::Cpu, IconType::Gpu, IconType::ArrowDown, IconType::ArrowUp]
    );
    let values: Vec<&str> = plan.segments.iter().map(|s| s.value.as_str()).collect();
    assert_eq!(values, vec!["99%", "45%", "8%", "1.5 MB", "0.2 MB"]);
    let widths: Vec<u32> = plan.segments.iter().map(|s| s.width).collect();
    assert_eq!(widths, vec![58, 58, 58, 75, 75]);
    let starts: Vec<u32> = plan.segments.iter().map(|s| s.start).collect();
    assert_eq!(starts, vec![5, 81, 157, 233, 326]);
    let alerts: Vec<bool> = plan.segments.iter().map(|s| s.alert).collect();
    assert_eq!(alerts, vec![true, false, false, false, false]);
    assert_eq!(plan.total_width, 2 * 5 + 3 * 58 + 2 * 75 + 4 * 18);
    assert_eq!(plan.total_width, 406);
    assert!(plan.alert_active);
}

#[test]
fn layout_leaves_out_what_is_hidden() {
    let sizing = Sizing::linux();
    let plan = layout(&snapshot(true, false, false, false, true), sizing);
    assert_eq!(plan.segments.len(), 1);
    assert_eq!(plan.segments[0].icon, IconType::Cpu);
    assert_eq!(plan.segments[0].start, 5);
    assert_eq!(plan.total_width, 68);
    // The alerting metric is hidden, so nothing alerts.
    assert!(!plan.alert_active);

    let plan = layout(&snapshot(false, false, false, true, true), sizing);
    assert_eq!(plan.segments.len(), 2);
    assert_eq!((plan.segments[0].start, plan.segments[1].start), (5, 98));
    assert_eq!(plan.total_width, 5 + 75 + 18 + 75 + 5);
    assert!(!plan.alert_active);

    let plan = layout(&snapshot(false, false, false, false, true), sizing);
    assert!(plan.segments.is_empty());
    assert_eq!(plan.total_width, 10);
    assert!(!plan.alert_active);
}

#[test]
fn layout_alert_needs_the_switch() {
    let sizing = Sizing::macos();
    assert!(layout(&snapshot(false, true, false, false, true), sizing).alert_active);
    let plan = layout(&snapshot(false, true, false, false, false), sizing);
    assert!(!plan.alert_active);
    // The segment itself still says that its metric is high.
    assert!(plan.segments[0].alert);
    assert_eq!(plan.total_width, 16 + 180 + 16);
}

#[test]
fn can_render_guards_the_limits() {
    let all = snapshot(true, true, true, true, true);
    assert!(can_render(&all, Sizing::linux()));
    assert!(can_render(&all, Sizing::macos()));
    let wide = Sizing { segment_width: u32::MAX, ..Sizing::linux() };
    assert!(!can_render(&all, wide));
    assert!(can_render(&snapshot(false, false, false, true, false), wide));
    let exact = Sizing {
        segment_width: u32::MAX - 10,
        segment_width_net: 1,
        edge_padding: 5,
        segment_gap: 1,
        icon_height: 1,
        font_size: 1,
    };
    assert!(can_render(&snapshot(true, false, false, false, false), exact));
    assert!(!can_render(&snapshot(true, false, false, true, false), exact));
}

#[test]
fn render_without_segments_needs_no_icons() {
    let renderer = TrayRenderer::new();
    let mut buffer = vec![1u8; 7];
    let background = better_resource_monitor::color::Background { rgba: (1, 2, 3, 4) };
    let (width, height, alert) = renderer.render_tray_icon_into(
        &Vec::new(),
        &mut buffer,
        Sizing::linux(),
        95_000,
        95_000,
        95_000,
        "",
        "",
        false,
        false,
        false,
        false,
        true,
        false,
        Some(background),
    );
    assert_eq!((width, height, alert), (10, 22, false));
    assert_eq!(buffer, [1u8, 2, 3, 4].repeat(220));
}
