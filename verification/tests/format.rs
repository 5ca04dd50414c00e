use rsclip_core::format::{
    format_bytes, format_full_time, FIRST_DATED_TIMESTAMP, LAST_DATED_TIMESTAMP, full_time_text, human_bytes, human_size, masked_secret,
    relative_time, relative_time_between,
};

#[test]
fn formats_human_bytes() {
    assert_eq!(human_bytes(12), "12 B");
    assert_eq!(human_bytes(2048), "2.0 KB");
    assert_eq!(human_bytes(1_572_864), "1.5 MB");
}

#[test]
fn formats_display_sizes() {
    assert_eq!(human_size(12), "12 B");
    assert_eq!(human_size(2048), "2 KB");
    assert_eq!(human_size(1_572_864), "1.5 MB");
}

fn float_human_bytes(bytes: i64) -> String {
    if bytes >= 1_048_576 {
        format!("{:.1} MB", bytes as f64 / 1_048_576.0)
    } else if bytes >= 1024 {
        format!("{:.1} KB", bytes as f64 / 1024.0)
    } else {
        format!("{bytes} B")
    }
}

fn float_human_size(bytes: i64) -> String {
    if bytes >= 1_048_576 {
        format!("{:.1} MB", bytes as f64 / 1_048_576.0)
    } else if bytes >= 1024 {
        format!("{:.0} KB", bytes as f64 / 1024.0)
    } else {
        format!("{bytes} B")
    }
}

fn float_format_bytes(kb: u64) -> String {
    if kb < 1024 {
        format!("{kb} KB")
    } else if kb < 1024 * 1024 {
        format!("{:.1} MB", kb as f64 / 1024.0)
    } else {
        format!("{:.2} GB", kb as f64 / (1024.0 * 1024.0))
    }
}

#[test]
fn sizes_agree_with_float_formatting_on_rounding_ties_and_large_values() {
    let mut samples: Vec<i64> = vec![
        -5, 0, 1023, 1024, 1536, 2560, 1075, 1126, 1177, 1_048_576, 1_101_004, 1_153_434,
        1_205_862, 3 * 1_048_576 / 2, 5 * 1_048_576 / 2, i64::MAX, i64::MAX - 1,
        (1i64 << 53) + 1, (1i64 << 53) + 3, (1i64 << 60) + 12345, 9_007_199_254_740_993,
    ];
    for k in 0..5000i64 {
        samples.push(1024 + k * 51);
        samples.push(1_048_576 + k * 52_429);
        samples.push(k * 104_857);
    }
    for b in samples {
        assert_eq!(human_bytes(b), float_human_bytes(b), "human_bytes({b})");
        assert_eq!(human_size(b), float_human_size(b), "human_size({b})");
    }
    let mut kbs: Vec<u64> = vec![0, 1023, 1024, 1536, u64::MAX, u64::MAX - 1, (1u64 << 53) + 1];
    for k in 0..5000u64 {
        kbs.push(1024 + k * 97);
        kbs.push(1_048_576 + k * 5_243);
        kbs.push(1_048_576 * 1024 + k * 10_737_419);
    }
    for kb in kbs {
        assert_eq!(format_bytes(kb), float_format_bytes(kb), "format_bytes({kb})");
    }
}

#[test]
fn masks_secrets() {
    assert_eq!(masked_secret(""), "********");
    assert_eq!(masked_secret("abc"), "********abc");
    assert_eq!(masked_secret("secret-token"), "********oken");
}

#[test]
fn masks_keep_only_four_characters_of_unicode_secrets() {
    assert_eq!(masked_secret("pässwörd"), "********wörd");
    assert!(masked_secret(&"x".repeat(1000)).chars().count() <= 12);
}

#[test]
fn relative_times_by_unit() {
    assert_eq!(relative_time_between(1_000, 1_000), "now");
    assert_eq!(relative_time_between(1_059, 1_000), "now");
    assert_eq!(relative_time_between(1_060, 1_000), "1 min");
    assert_eq!(relative_time_between(1_000 + 3_599, 1_000), "59 min");
    assert_eq!(relative_time_between(1_000 + 7_200, 1_000), "2 hr");
    assert_eq!(relative_time_between(1_000 + 3 * 86_400 + 5, 1_000), "3 day");
    // Times in the future count as now.
    assert_eq!(relative_time_between(1_000, 5_000), "now");
    // Extreme timestamps do not overflow.
    assert_eq!(relative_time_between(i64::MAX, i64::MIN), format!("{} day", (u64::MAX / 86_400)));
}

#[test]
fn relative_time_of_now_is_now() {
    let now = chrono::Utc::now().timestamp();
    assert_eq!(relative_time(now + 3_600), "now");
    assert_eq!(relative_time(now - 2 * 86_400 - 100), "2 day");
}

#[test]
fn full_time_falls_back_to_unknown() {
    assert_eq!(full_time_text(None), "unknown");
    assert_eq!(full_time_text(Some("Mon Jan 1".to_string())), "Mon Jan 1");
    assert_eq!(format_full_time(i64::MAX), "unknown");
    assert_ne!(format_full_time(0), "unknown");
}

fn civil_from_days(days: i64) -> (i64, i64, i64) {
    let z = days + 719468;
    let era = z.div_euclid(146097);
    let doe = z - era * 146097;
    let yoe = (doe - doe / 1460 + doe / 36524 - doe / 146096) / 365;
    let doy = doe - (365 * yoe + yoe / 4 - yoe / 100);
    let mp = (5 * doy + 2) / 153;
    let day = doy - (153 * mp + 2) / 5 + 1;
    let month = if mp < 10 { mp + 3 } else { mp - 9 };
    let year = yoe + era * 400 + if month <= 2 { 1 } else { 0 };
    (year, month, day)
}

fn moment_text(seconds: i64) -> String {
    let weekdays = ["Sun", "Mon", "Tue", "Wed", "Thu", "Fri", "Sat"];
    let months = ["Jan", "Feb", "Mar", "Apr", "May", "Jun", "Jul", "Aug", "Sep", "Oct", "Nov", "Dec"];
    let days = seconds.div_euclid(86400);
    let time = seconds.rem_euclid(86400);
    let (year, month, day) = civil_from_days(days);
    let year_text = if (0..=9999).contains(&year) {
        format!("{year:04}")
    } else if year > 9999 {
        format!("+{year}")
    } else {
        format!("-{:04}", -year)
    };
    format!(
        "{} {} {} {:02}:{:02}:{:02} {}",
        weekdays[(days + 4).rem_euclid(7) as usize],
        months[(month - 1) as usize],
        day,
        time / 3600,
        time % 3600 / 60,
        time % 60,
        year_text
    )
}

fn is_local_moment(timestamp: i64, text: &str) -> bool {
    (-86399..86400).any(|offset| moment_text(timestamp + offset) == text)
}

#[test]
fn calendar_text_matches_known_dates() {
    assert_eq!(moment_text(0), "Thu Jan 1 00:00:00 1970");
    assert_eq!(moment_text(951_782_400), "Tue Feb 29 00:00:00 2000");
    assert_eq!(moment_text(1_700_000_000), "Tue Nov 14 22:13:20 2023");
    assert_eq!(moment_text(-1), "Wed Dec 31 23:59:59 1969");
}

#[test]
fn full_time_is_dated_exactly_within_chrono_range() {
    assert_eq!(format_full_time(LAST_DATED_TIMESTAMP + 1), "unknown");
    assert_eq!(format_full_time(FIRST_DATED_TIMESTAMP - 1), "unknown");
    assert_eq!(format_full_time(i64::MIN), "unknown");
    for ts in [FIRST_DATED_TIMESTAMP, LAST_DATED_TIMESTAMP, 0, 1_700_000_000, -1, 951_782_400] {
        let text = format_full_time(ts);
        assert!(is_local_moment(ts, &text), "format_full_time({ts}) = {text:?}");
    }
    assert!(format_full_time(LAST_DATED_TIMESTAMP).ends_with("+262142")
        || format_full_time(LAST_DATED_TIMESTAMP).ends_with("+262143"));
    assert!(format_full_time(FIRST_DATED_TIMESTAMP).ends_with("-262143")
        || format_full_time(FIRST_DATED_TIMESTAMP).ends_with("-262144"));
}
