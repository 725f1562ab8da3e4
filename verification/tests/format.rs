use dir_kill::format::{describe_age, format_last_modified, format_size, Timestamp};

#[test]
fn test_format_size() {
    assert_eq!(format_size(0), "0 B");
    assert_eq!(format_size(1023), "1023 B");
    assert_eq!(format_size(1024), "1.0 KB");
    assert_eq!(format_size(1536), "1.5 KB");
    assert_eq!(format_size(1024 * 1024), "1.0 MB");
    assert_eq!(format_size(1024 * 1024 * 1024), "1.0 GB");
    assert_eq!(format_size(1024 * 1024 * 1024 + 1024 * 1024), "1.0 GB");
}

fn float_size(bytes: u64) -> String {
    let units = ["B", "KB", "MB", "GB"];
    let mut size = bytes as f64;
    let mut unit = 0;
    while size >= 1024.0 && unit < units.len() - 1 {
        size /= 1024.0;
        unit += 1;
    }
    if unit == 0 {
        format!("{} {}", bytes, units[unit])
    } else {
        format!("{:.1} {}", size, units[unit])
    }
}

#[test]
fn format_size_agrees_with_floating_point() {
    let mut samples: Vec<u64> = vec![
        0, 1, 9, 10, 999, 1023, 1024, 1025, 1075, 1076, 1126, 1127, 1280, 1281, 1535, 1536, 1792,
        2047, 2048, 10239, 10240, 1048575, 1048576, 1048577, 1100000, 1310720, 1572864,
        1073741823, 1073741824, 1073741825, 1127428915, 1127428916, 1342177280, 1610612736,
        u64::MAX, u64::MAX - 1, u64::MAX - 1023, u64::MAX - 1024, u64::MAX - 1025,
        1 << 53, (1 << 53) + 1, (1 << 53) + 2, (1 << 53) + 3, (1 << 54) + 2, (1 << 54) + 6,
        (1 << 63) + 1024, (1 << 63) + 1025, (1 << 63) + 3072, (1 << 63) - 1,
    ];
    let mut x: u64 = 88172645463325252;
    for _ in 0..20000 {
        x ^= x << 13;
        x ^= x >> 7;
        x ^= x << 17;
        samples.push(x);
        samples.push(x >> 20);
        samples.push(x >> 34);
        samples.push(x >> 44);
        samples.push(x >> 8);
    }
    for k in 0..4096u64 {
        samples.push(1024 * 1024 + k * 256);
        samples.push(1024 + k);
        samples.push((1 << 30) + k * (1 << 18));
    }
    for bytes in samples {
        assert_eq!(format_size(bytes), float_size(bytes), "for {}", bytes);
    }
}

#[test]
fn format_size_rounds_half_to_even() {
    assert_eq!(format_size(1280), "1.2 KB");
    assert_eq!(format_size(1792), "1.8 KB");
    assert_eq!(format_size(1075), "1.0 KB");
    assert_eq!(format_size(1076), "1.1 KB");
    assert_eq!(format_size(u64::MAX), "17179869184.0 GB");
}

#[test]
fn describe_age_by_unit() {
    assert_eq!(describe_age(-5), "Just now");
    assert_eq!(describe_age(0), "Just now");
    assert_eq!(describe_age(59), "Just now");
    assert_eq!(describe_age(60), "1 minute ago");
    assert_eq!(describe_age(119), "1 minute ago");
    assert_eq!(describe_age(120), "2 minutes ago");
    assert_eq!(describe_age(3599), "59 minutes ago");
    assert_eq!(describe_age(3600), "1 hour ago");
    assert_eq!(describe_age(7200), "2 hours ago");
    assert_eq!(describe_age(86_399), "23 hours ago");
    assert_eq!(describe_age(86_400), "1 day ago");
    assert_eq!(describe_age(6 * 86_400), "6 days ago");
    assert_eq!(describe_age(7 * 86_400), "1 week ago");
    assert_eq!(describe_age(14 * 86_400), "2 weeks ago");
    assert_eq!(describe_age(29 * 86_400), "4 weeks ago");
    assert_eq!(describe_age(30 * 86_400), "1 month ago");
    assert_eq!(describe_age(60 * 86_400), "2 months ago");
    assert_eq!(describe_age(364 * 86_400), "12 months ago");
    assert_eq!(describe_age(365 * 86_400), "1 year ago");
    assert_eq!(describe_age(730 * 86_400), "2 years ago");
    assert_eq!(describe_age(i64::MAX), "292471208677 years ago");
}

#[test]
fn the_age_counts_whole_seconds() {
    let then = Timestamp { secs: 40, nanos: 900_000_000 };
    let almost = Timestamp { secs: 100, nanos: 100_000_000 };
    let just = Timestamp { secs: 100, nanos: 900_000_000 };
    assert_eq!(format_last_modified(&then, &almost), "Just now");
    assert_eq!(format_last_modified(&then, &just), "1 minute ago");
    assert_eq!(format_last_modified(&just, &then), "Just now");
    let early = Timestamp { secs: i64::MIN, nanos: 0 };
    let late = Timestamp { secs: i64::MAX, nanos: 999_999_999 };
    assert_eq!(format_last_modified(&early, &late), "584942417355 years ago");
    assert_eq!(format_last_modified(&late, &early), "Just now");
}
