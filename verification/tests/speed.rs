use better_resource_monitor::speed::format_speed;

/// A rate in whole bytes per second.
fn bytes(v: f64) -> u64 {
    v as u64
}

#[test]
fn test_format_speed_strict() {
    // KB range (0 - 99)
    assert_eq!(format_speed(bytes(0.0)), "0.0 KB");
    assert_eq!(format_speed(bytes(500.0)), "0.5 KB");
    assert_eq!(format_speed(bytes(1_500.0)), "1.5 KB");
    assert_eq!(format_speed(bytes(10_000.0)), "10 KB");
    assert_eq!(format_speed(bytes(99_000.0)), "99 KB");
    assert_eq!(format_speed(bytes(99_400.0)), "99 KB"); // Rounds down

    // Endpoint: 99.5 KB -> 0.1 MB
    assert_eq!(format_speed(bytes(99_500.0)), "0.1 MB");

    // MB range
    assert_eq!(format_speed(bytes(100_000.0)), "0.1 MB");
    assert_eq!(format_speed(bytes(1_500_000.0)), "1.5 MB");
    assert_eq!(format_speed(bytes(10_000_000.0)), "10 MB");

    // Endpoint: 99.5 MB -> 0.1 GB
    assert_eq!(format_speed(bytes(99_500_000.0)), "0.1 GB");

    // GB range
    assert_eq!(format_speed(bytes(100_000_000.0)), "0.1 GB");
    assert_eq!(format_speed(bytes(1_500_000_000.0)), "1.5 GB");
    assert_eq!(format_speed(bytes(10_000_000_000.0)), "10 GB");

    // TB range and Cap
    // 99.5 GB -> 0.1 TB
    assert_eq!(format_speed(bytes(99_500_000_000.0)), "0.1 TB");
    assert_eq!(format_speed(bytes(1_000_000_000_000.0)), "1.0 TB");
    assert_eq!(format_speed(bytes(9_900_000_000_000.0)), "9.9 TB");
    assert_eq!(format_speed(bytes(15_000_000_000_000.0)), "9.9 TB"); // Cap
}

#[test]
fn format_speed_rounds_tenths_and_whole_units() {
    assert_eq!(format_speed(49), "0.0 KB");
    assert_eq!(format_speed(51), "0.1 KB");
    assert_eq!(format_speed(1_549), "1.5 KB");
    assert_eq!(format_speed(1_551), "1.6 KB");
    assert_eq!(format_speed(9_949), "9.9 KB");
    assert_eq!(format_speed(9_951), "10.0 KB");
    assert_eq!(format_speed(9_999), "10.0 KB");
    assert_eq!(format_speed(10_499), "10 KB");
    assert_eq!(format_speed(10_500), "11 KB");
    assert_eq!(format_speed(99_499), "99 KB");
    assert_eq!(format_speed(5_000_000), "5.0 MB");
    assert_eq!(format_speed(55_500_000), "56 MB");
    assert_eq!(format_speed(99_499_999), "99 MB");
    assert_eq!(format_speed(99_499_999_999), "99 GB");
    assert_eq!(format_speed(9_900_000_000_001), "9.9 TB");
    assert_eq!(format_speed(u64::MAX), "9.9 TB");
}

#[test]
fn format_speed_in_the_middle_between_two_tenths() {
    // The double nearest to 0.05 is larger, the one nearest to 0.15 smaller.
    assert_eq!(format_speed(50), "0.1 KB");
    assert_eq!(format_speed(150), "0.1 KB");
    // A quarter is a binary fraction: the even tenth wins.
    assert_eq!(format_speed(250), "0.2 KB");
    assert_eq!(format_speed(750), "0.8 KB");
    assert_eq!(format_speed(350), "0.3 KB");
    assert_eq!(format_speed(450), "0.5 KB");
    assert_eq!(format_speed(1_550), "1.6 KB");
    assert_eq!(format_speed(9_950), "9.9 KB");
    assert_eq!(format_speed(9_950_000), "9.9 MB");
    assert_eq!(format_speed(250_000_000), "0.2 GB");
    assert_eq!(format_speed(150_000_000_000), "0.1 TB");
}

/// The same rule in floating point.
fn in_floating_point(bytes_per_sec: f64) -> String {
    let (value, unit) = if bytes_per_sec >= 99_500_000_000.0 {
        let val = bytes_per_sec / 1_000_000_000_000.0;
        if val > 9.9 {
            (9.9, "TB")
        } else {
            (val, "TB")
        }
    } else if bytes_per_sec >= 99_500_000.0 {
        (bytes_per_sec / 1_000_000_000.0, "GB")
    } else if bytes_per_sec >= 99_500.0 {
        (bytes_per_sec / 1_000_000.0, "MB")
    } else {
        (bytes_per_sec / 1_000.0, "KB")
    };

    let value_str = if value < 10.0 {
        format!("{value:.1}")
    } else {
        format!("{:.0}", value.round().min(99.0))
    };

    format!("{value_str} {unit}")
}

#[test]
fn format_speed_agrees_with_floating_point_on_small_rates() {
    for rate in 0..200_000u64 {
        assert_eq!(format_speed(rate), in_floating_point(rate as f64), "at {rate}");
    }
}

#[test]
fn format_speed_agrees_with_floating_point_around_every_tenth() {
    for size in [1_000_000u64, 1_000_000_000, 1_000_000_000_000] {
        for twentieths in 0..=400u64 {
            let middle = twentieths * (size / 20);
            for rate in [middle.saturating_sub(1), middle, middle + 1] {
                assert_eq!(format_speed(rate), in_floating_point(rate as f64), "at {rate}");
            }
        }
    }
}

#[test]
fn format_speed_agrees_with_floating_point_across_the_range() {
    let mut rate: u64 = 0;
    let mut compared = 0;
    while rate < 20_000_000_000_000 {
        for offset in [0u64, 1, 3, 49, 50, 51, 449, 500, 501, 977] {
            let r = rate + offset;
            assert_eq!(format_speed(r), in_floating_point(r as f64), "at {r}");
            compared += 1;
        }
        rate = rate + rate / 9 + 7;
    }
    assert!(compared > 1_000);
    assert_eq!(format_speed(u64::MAX), in_floating_point(u64::MAX as f64));
}
