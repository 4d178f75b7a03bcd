use std::time::Duration;

use omnomon::util::{
    duration_secs, format_bytes, format_duration, format_duration_secs, format_frequency_mhz,
    format_uptime, format_uptime_secs,
};

#[test]
fn bytes_zero() {
    assert_eq!(format_bytes(0), "0 B");
}

#[test]
fn bytes_kb() {
    assert_eq!(format_bytes(1024), "1.0 KB");
}

#[test]
fn bytes_gb() {
    assert_eq!(format_bytes(1_073_741_824), "1.0 GB");
}

#[test]
fn frequency_low() {
    assert_eq!(format_frequency_mhz(800), "800 MHz");
}

#[test]
fn frequency_ghz() {
    assert_eq!(format_frequency_mhz(4500), "4.50 GHz");
}

#[test]
fn duration_hours() {
    assert_eq!(format_duration(Duration::from_secs(3661)), "1:01:01");
}

#[test]
fn bytes_below_one_kilobyte() {
    assert_eq!(format_bytes(1), "1 B");
    assert_eq!(format_bytes(1023), "1023 B");
}

#[test]
fn bytes_rounding() {
    assert_eq!(format_bytes(1536), "1.5 KB");
    // 1.25 KB is a tie at one decimal: it goes to the even digit.
    assert_eq!(format_bytes(1280), "1.2 KB");
    assert_eq!(format_bytes(1792), "1.8 KB");
    assert_eq!(format_bytes(1_048_575), "1024.0 KB");
    assert_eq!(format_bytes(1_048_576), "1.0 MB");
    assert_eq!(format_bytes(1_099_511_627_776), "1.0 TB");
    assert_eq!(format_bytes(1_125_899_906_842_624), "1.0 PB");
}

#[test]
fn bytes_stop_at_petabytes() {
    assert_eq!(format_bytes(u64::MAX), "16384.0 PB");
    assert_eq!(format_bytes(1u64 << 60), "1024.0 PB");
}

#[test]
fn bytes_match_float_formatting() {
    let samples: [u64; 12] = [
        1,
        999,
        1000,
        12_345,
        1_000_000,
        123_456_789,
        9_876_543_210,
        (1u64 << 53) + 1,
        (1u64 << 53) + 3,
        5 * (1u64 << 48) + 1,
        u64::MAX - 1,
        18_000_000_000_000_000_000,
    ];
    for b in samples {
        let units = ["B", "KB", "MB", "GB", "TB", "PB"];
        let mut value = b as f64;
        let mut unit = 0;
        while value >= 1024.0 && unit < units.len() - 1 {
            value /= 1024.0;
            unit += 1;
        }
        let expected = if unit == 0 {
            format!("{} B", b)
        } else {
            format!("{:.1} {}", value, units[unit])
        };
        assert_eq!(format_bytes(b), expected, "bytes {}", b);
    }
}

#[test]
fn frequency_rounding() {
    assert_eq!(format_frequency_mhz(999), "999 MHz");
    assert_eq!(format_frequency_mhz(1000), "1.00 GHz");
    assert_eq!(format_frequency_mhz(1234), "1.23 GHz");
    assert_eq!(format_frequency_mhz(4125), "4.12 GHz");
}

#[test]
fn frequency_matches_float_formatting() {
    let samples: [u64; 14] = [
        1000,
        1005,
        1015,
        2345,
        2355,
        3999,
        4125,
        4375,
        9995,
        123_456_789,
        (1u64 << 53) + 1,
        u64::MAX,
        u64::MAX - 5000,
        10_000_000_000_000_005,
    ];
    for m in samples {
        let expected = format!("{:.2} GHz", m as f64 / 1000.0);
        assert_eq!(format_frequency_mhz(m), expected, "mhz {}", m);
    }
}

#[test]
fn durations() {
    assert_eq!(format_duration_secs(0), "0:00");
    assert_eq!(format_duration_secs(59), "0:59");
    assert_eq!(format_duration_secs(61), "1:01");
    assert_eq!(format_duration_secs(3599), "59:59");
    assert_eq!(format_duration_secs(3600), "1:00:00");
    assert_eq!(format_duration_secs(360_000), "100:00:00");
    assert_eq!(duration_secs(Duration::from_millis(2500)), 2);
    assert_eq!(format_duration(Duration::from_millis(61_999)), "1:01");
}

#[test]
fn uptimes() {
    assert_eq!(format_uptime_secs(0), "0m");
    assert_eq!(format_uptime_secs(59), "0m");
    assert_eq!(format_uptime_secs(3660), "1h 1m");
    assert_eq!(format_uptime_secs(86_399), "23h 59m");
    assert_eq!(format_uptime_secs(90_000), "1d 1h");
    assert_eq!(format_uptime(Duration::from_secs(172_800)), "2d 0h");
}
