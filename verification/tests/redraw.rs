use better_resource_monitor::redraw::should_update;

/// Converts a decimal value to thousandths.
fn milli(v: f64) -> i64 {
    (v * 1000.0).round() as i64
}

#[test]
fn test_should_update_threshold() {
    assert!(should_update(milli(10.0), milli(12.0), milli(2.0)));
    assert!(should_update(milli(10.0), milli(8.0), milli(2.0)));
    assert!(should_update(milli(10.0), milli(12.001), milli(2.0)));
    assert!(!should_update(milli(10.0), milli(11.9), milli(2.0)));
    assert!(!should_update(milli(10.0), milli(9.1), milli(2.0)));
    assert!(!should_update(milli(10.0), milli(10.0), milli(2.0)));
}
