use omnomon::parse::{meminfo_extra, parse_sysfs_i64, parse_sysfs_u32, trim_text, trimmed_is};

#[test]
fn trims_unicode_white_space() {
    assert_eq!(trim_text("  acpitz\n"), "acpitz");
    assert_eq!(trim_text("\t x y \r\n"), "x y");
    assert_eq!(trim_text("\u{3000}wide\u{A0}"), "wide");
    assert_eq!(trim_text("   "), "");
    assert_eq!(trim_text(""), "");
    assert_eq!(trim_text(" a\u{200B}"), "a\u{200B}");
}

#[test]
fn trimmed_comparison() {
    assert!(trimmed_is("Mains\n", "Mains"));
    assert!(trimmed_is(" 1 ", "1"));
    assert!(!trimmed_is("Battery\n", "Mains"));
    assert!(!trimmed_is("0\n", "1"));
}

#[test]
fn sysfs_signed_values() {
    assert_eq!(parse_sysfs_i64("45000\n"), Some(45000));
    assert_eq!(parse_sysfs_i64("  -273 \n"), Some(-273));
    assert_eq!(parse_sysfs_i64("+12"), Some(12));
    assert_eq!(parse_sysfs_i64("9223372036854775807"), Some(i64::MAX));
    assert_eq!(parse_sysfs_i64("-9223372036854775808"), Some(i64::MIN));
    assert_eq!(parse_sysfs_i64("9223372036854775808"), None);
    assert_eq!(parse_sysfs_i64("-9223372036854775809"), None);
    assert_eq!(parse_sysfs_i64(""), None);
    assert_eq!(parse_sysfs_i64("-"), None);
    assert_eq!(parse_sysfs_i64("+"), None);
    assert_eq!(parse_sysfs_i64("4 5"), None);
    assert_eq!(parse_sysfs_i64("12a"), None);
    assert_eq!(parse_sysfs_i64("-+3"), None);
    for s in ["0", "007", "-0", "123456789", " 42\n"] {
        assert_eq!(parse_sysfs_i64(s), s.trim().parse::<i64>().ok());
    }
}

#[test]
fn sysfs_unsigned_values() {
    assert_eq!(parse_sysfs_u32("2400\n"), Some(2400));
    assert_eq!(parse_sysfs_u32("4294967295"), Some(u32::MAX));
    assert_eq!(parse_sysfs_u32("4294967296"), None);
    assert_eq!(parse_sysfs_u32("-1"), None);
    assert_eq!(parse_sysfs_u32("+7"), Some(7));
    assert_eq!(parse_sysfs_u32("n/a"), None);
}

#[test]
fn meminfo_cached_and_buffers() {
    let text = "MemTotal:       16318748 kB\n\
                MemFree:         1234567 kB\n\
                Buffers:          204800 kB\n\
                Cached:          4096000 kB\n\
                SwapCached:          512 kB\n";
    assert_eq!(meminfo_extra(text), Some((4096000 * 1024, 204800 * 1024)));
}

#[test]
fn meminfo_edge_cases() {
    assert_eq!(meminfo_extra(""), Some((0, 0)));
    assert_eq!(meminfo_extra("Cached: junk kB\n"), Some((0, 0)));
    assert_eq!(meminfo_extra("Cached:"), Some((0, 0)));
    assert_eq!(meminfo_extra("  Cached:\t 10 kB\r\nBuffers: 3"), Some((10240, 3072)));
    assert_eq!(meminfo_extra("Cached: 5 kB\nCached: 7 kB\n"), Some((7168, 0)));
    assert_eq!(meminfo_extra("cached: 5 kB\n"), Some((0, 0)));
    assert_eq!(meminfo_extra("Cached: 18014398509481983 kB\n"), Some((18014398509481983 * 1024, 0)));
    assert_eq!(meminfo_extra("Cached: 18014398509481984 kB\n"), None);
    assert_eq!(meminfo_extra("Other: 99999999999999999999 kB\nBuffers: 1\n"), Some((0, 1024)));
}
