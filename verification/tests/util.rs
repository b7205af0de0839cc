//! Formatting helpers: sizes, permissions, owners, reports and times.

use lsc_utils::config::icons::IconKind;
use lsc_utils::util::human::{bucket, pretty, raw, SizeBucket};
use lsc_utils::util::mode::{color_key_for_char, format_mode};
use lsc_utils::util::owner::{group_name, name_or_id, user_name, NameCache};
use lsc_utils::util::report::{ReportCounts, ReportKind};
use lsc_utils::util::time_fmt::{time_pattern, age_bucket, format_mtime, AgeBucket, SysTime, TimeFormatError, TimeStyle};
use lsc_utils::VERSION;

#[test]
fn version_is_non_empty() {
    assert!(!VERSION.is_empty());
}

// ---- human sizes ----

#[test]
fn small_under_1024() {
    let (n, u) = pretty(1023);
    assert_eq!((n.as_str(), u), ("1023", "B"));
}

#[test]
fn kib_with_two_decimals() {
    let (n, u) = pretty(1536);
    assert_eq!(u, "KiB");
    assert_eq!(n, "1.50");
}

#[test]
fn mib_threshold() {
    let (_, u) = pretty(2 * 1024 * 1024);
    assert_eq!(u, "MiB");
}

#[test]
fn buckets() {
    assert_eq!(bucket(1024), SizeBucket::Small);
    assert_eq!(bucket(128 * 1024 * 1024), SizeBucket::Medium);
    assert_eq!(bucket(512 * 1024 * 1024), SizeBucket::Large);
    assert_eq!(bucket(1024 * 1024 * 1024), SizeBucket::Large);
}

#[test]
fn raw_bytes() {
    assert_eq!(raw(0), "0");
    assert_eq!(raw(123456789), "123456789");
}

/// `format!("{:.2}", v / 1024^k)` computed in floating point, for comparison.
fn float_pretty(bytes: u64) -> (String, &'static str) {
    const UNITS: [&str; 7] = ["B", "KiB", "MiB", "GiB", "TiB", "PiB", "EiB"];
    if bytes < 1024 {
        return (bytes.to_string(), "B");
    }
    let mut v = bytes as f64;
    let mut i = 0;
    while v >= 1024.0 && i < UNITS.len() - 1 {
        v /= 1024.0;
        i += 1;
    }
    (format!("{v:.2}"), UNITS[i])
}

#[test]
fn pretty_matches_float_formatting() {
    let samples = [
        1024u64, 1025, 1152, 1536, 1_000_000, 1_048_575, 1_048_576, 1_572_864, 5_368_709_120,
        123_456_789_012, 999_999_999_999_999, 1 << 50, (1 << 60) + 1, u64::MAX,
    ];
    for b in samples {
        let (n, u) = pretty(b);
        let (fn_, fu) = float_pretty(b);
        assert_eq!((n.as_str(), u), (fn_.as_str(), fu), "bytes = {b}");
    }
}

#[test]
fn pretty_rounds_half_to_even() {
    // 1152 / 1024 = 1.125 exactly: two decimals round to even
    assert_eq!(pretty(1152).0, "1.12");
    // 1164 / 1024 = 1.13671875
    assert_eq!(pretty(1164).0, "1.14");
    assert_eq!(pretty(u64::MAX), ("16.00".to_string(), "EiB"));
}

#[test]
fn bucket_edges() {
    assert_eq!(bucket(0), SizeBucket::Small);
    assert_eq!(bucket(128 * 1024 * 1024 - 1), SizeBucket::Small);
    assert_eq!(bucket(512 * 1024 * 1024 - 1), SizeBucket::Medium);
}

// ---- permission bits ----

#[test]
fn rwxr_xr_x() {
    assert_eq!(format_mode(0o755), "rwxr-xr-x");
}

#[test]
fn no_perms() {
    assert_eq!(format_mode(0o000), "---------");
}

#[test]
fn setuid_with_x_lowercase_s() {
    assert_eq!(format_mode(0o4755), "rwsr-xr-x");
}

#[test]
fn setuid_without_x_uppercase_s() {
    assert_eq!(format_mode(0o4644), "rwSr--r--");
}

#[test]
fn sticky_with_x_lowercase_t() {
    assert_eq!(format_mode(0o1777), "rwxrwxrwt");
}

#[test]
fn setgid_and_sticky_without_x() {
    assert_eq!(format_mode(0o2640), "rw-r-S---");
    assert_eq!(format_mode(0o1776), "rwxrwxrwT");
    // file-type bits are ignored
    assert_eq!(format_mode(0o100644), "rw-r--r--");
}

#[test]
fn color_key_mapping() {
    assert_eq!(color_key_for_char('r'), "read");
    assert_eq!(color_key_for_char('w'), "write");
    assert_eq!(color_key_for_char('-'), "no_access");
    assert_eq!(color_key_for_char('x'), "exec");
    assert_eq!(color_key_for_char('s'), "exec");
    assert_eq!(color_key_for_char('T'), "exec");
    assert_eq!(color_key_for_char('?'), "normal");
}

// ---- owners ----

#[test]
fn root_user_resolves() {
    let a = user_name(0);
    let b = user_name(0);
    assert_eq!(a, b);
    assert!(!a.is_empty());
}

#[test]
fn unknown_uid_falls_back_to_decimal() {
    assert_eq!(user_name(4_000_000_000), "4000000000");
}

#[test]
fn root_group_resolves() {
    let a = group_name(0);
    let b = group_name(0);
    assert_eq!(a, b);
    assert!(!a.is_empty());
}

#[test]
fn unknown_gid_falls_back_to_decimal() {
    assert_eq!(group_name(3_999_999_999), "3999999999");
}

#[test]
fn name_or_id_prefers_the_found_name() {
    assert_eq!(name_or_id(Some("alice".to_string()), 1000), "alice");
    assert_eq!(name_or_id(None, 1000), "1000");
}

#[test]
fn cache_repeats_first_answer() {
    let mut c = NameCache::new();
    let a = c.user_name(0);
    let b = c.user_name(0);
    assert_eq!(a, b);
    assert_eq!(c.user_name(4_000_000_000), "4000000000");
    assert_eq!(c.group_name(3_999_999_999), "3999999999");
    assert_eq!(c.group_name(0), group_name(0));
}

// ---- report ----

#[test]
fn record_counts_by_kind() {
    let mut c = ReportCounts::default();
    c.record(IconKind::Folder);
    c.record(IconKind::DefaultFolder);
    c.record(IconKind::File);
    c.record(IconKind::DefaultFile);
    c.record(IconKind::DefaultFile);
    assert_eq!(c.folders, 2);
    assert_eq!(c.recognized_files, 1);
    assert_eq!(c.unrecognized_files, 2);
}

#[test]
fn short_report() {
    let c = ReportCounts { folders: 3, recognized_files: 5, unrecognized_files: 2 };
    let s = c.render(ReportKind::Short);
    assert!(s.contains("Folders: 3, Files: 7."));
    assert_eq!(s, "\n    Folders: 3, Files: 7.\n");
}

#[test]
fn long_report_lists_all_categories() {
    let c = ReportCounts { folders: 1, recognized_files: 2, unrecognized_files: 3 };
    let s = c.render(ReportKind::Long);
    assert!(s.contains("Found 6 items"));
    assert!(s.contains("Folders\t\t\t: 1"));
    assert!(s.contains("Recognized files\t: 2"));
    assert!(s.contains("Unrecognized files\t: 3"));
}

// ---- times ----

#[test]
fn parse_plus_prefix_custom() {
    match TimeStyle::parse("+%F %T") {
        TimeStyle::Custom(s) => assert_eq!(s, "%F %T"),
        _ => panic!("expected Custom"),
    }
}

#[test]
fn parse_no_prefix_asctime() {
    assert!(matches!(TimeStyle::parse("anything"), TimeStyle::Asctime));
    assert!(matches!(TimeStyle::parse(""), TimeStyle::Asctime));
}

#[test]
fn custom_format_passes_through_to_jiff() {
    let s = format_mtime(SysTime { secs: 0, nanos: 0 }, &TimeStyle::Custom("%Y".into())).unwrap();
    // Year of the Unix epoch in any zone near UTC is 1969 or 1970.
    assert!(s == "1969" || s == "1970", "got: {s}");
}

#[test]
fn asctime_is_24_chars() {
    let s = format_mtime(SysTime { secs: 1_000_000_000, nanos: 0 }, &TimeStyle::Asctime).unwrap();
    assert_eq!(s.chars().count(), 24, "got {s:?}");
}

#[test]
fn before_epoch_is_an_error() {
    let e = format_mtime(SysTime { secs: -1, nanos: 0 }, &TimeStyle::Asctime).unwrap_err();
    assert_eq!(e, TimeFormatError::BeforeEpoch);
    assert_eq!(e.message(), "mtime before unix epoch");
}

#[test]
fn out_of_jiff_range_is_an_error() {
    let e = format_mtime(SysTime { secs: i64::MAX, nanos: 0 }, &TimeStyle::Asctime).unwrap_err();
    assert_eq!(e, TimeFormatError::OutOfRange);
}

#[test]
fn age_buckets() {
    let now = SysTime { secs: 86_400 * 365, nanos: 0 };
    let ago = |s: i64| SysTime { secs: now.secs - s, nanos: 0 };
    assert_eq!(age_bucket(now, now), AgeBucket::HourOld);
    assert_eq!(age_bucket(ago(30 * 60), now), AgeBucket::HourOld);
    assert_eq!(age_bucket(ago(2 * 60 * 60), now), AgeBucket::DayOld);
    assert_eq!(age_bucket(ago(48 * 60 * 60), now), AgeBucket::Old);
}

#[test]
fn age_bucket_edges() {
    let now = SysTime { secs: 10_000_000, nanos: 500 };
    assert_eq!(age_bucket(SysTime { secs: now.secs - 3600, nanos: 500 }, now), AgeBucket::DayOld);
    assert_eq!(age_bucket(SysTime { secs: now.secs - 3600, nanos: 501 }, now), AgeBucket::HourOld);
    assert_eq!(age_bucket(SysTime { secs: now.secs - 86_400, nanos: 500 }, now), AgeBucket::Old);
    // the future counts as new
    assert_eq!(age_bucket(SysTime { secs: now.secs + 99, nanos: 0 }, now), AgeBucket::HourOld);
}

#[test]
fn time_patterns() {
    assert_eq!(time_pattern(&TimeStyle::Asctime), "%a %b %e %H:%M:%S %Y");
    assert_eq!(time_pattern(&TimeStyle::Custom("%F".into())), "%F");
}

#[test]
fn record_needs_room_only_in_the_raised_counter() {
    let mut c = ReportCounts { folders: u64::MAX, recognized_files: 0, unrecognized_files: 0 };
    c.record(IconKind::File);
    assert_eq!(c.recognized_files, 1);
    assert_eq!(c.folders, u64::MAX);
}
