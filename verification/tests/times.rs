use systemd_dashboard::systemd::{format_time_abs, format_time_rel};

#[test]
fn test_format_time_rel() {
    let now = 100_000_000 * 1_000_000;

    // Base cases
    assert_eq!(format_time_rel(None, now, true), "n/a");
    assert_eq!(format_time_rel(Some(0), now, true), "n/a");
    assert_eq!(format_time_rel(Some(now), now, true), "just now");
    assert_eq!(format_time_rel(Some(now), now, false), "just now");

    // Seconds
    assert_eq!(format_time_rel(Some(now + 5 * 1_000_000), now, true), "in 5s");
    assert_eq!(format_time_rel(Some(now - 5 * 1_000_000), now, false), "5s ago");

    // Minutes
    assert_eq!(format_time_rel(Some(now + 5 * 60 * 1_000_000), now, true), "in 5m");
    assert_eq!(format_time_rel(Some(now - 5 * 60 * 1_000_000), now, false), "5m ago");
}

#[test]
fn format_time_rel_hours_branch() {
    let now = 100_000_000 * 1_000_000;
    assert_eq!(format_time_rel(Some(now + 5 * 3600 * 1_000_000), now, true), "in 5h");
    assert_eq!(format_time_rel(Some(now - 5 * 3600 * 1_000_000), now, false), "5h ago");
}

#[test]
fn format_time_rel_days_branch_with_extra_hours() {
    let now = 100_000_000 * 1_000_000;
    let delta = (2 * 24 * 3600 + 3 * 3600) * 1_000_000;
    assert_eq!(format_time_rel(Some(now + delta), now, true), "in 2d 3h");
    assert_eq!(format_time_rel(Some(now - delta), now, false), "2d ago");
}

#[test]
fn format_time_rel_days_branch_without_extra_hours() {
    let now = 100_000_000 * 1_000_000;
    let delta = 2 * 24 * 3600 * 1_000_000;
    assert_eq!(format_time_rel(Some(now + delta), now, true), "in 2d");
}

#[test]
fn format_time_rel_hours_branch_with_extra_minutes() {
    let now = 100_000_000 * 1_000_000;
    let delta = (2 * 3600 + 30 * 60) * 1_000_000;
    assert_eq!(format_time_rel(Some(now + delta), now, true), "in 2h 30m");
    assert_eq!(format_time_rel(Some(now - delta), now, false), "2h ago");
}

#[test]
fn test_format_time_abs() {
    assert_eq!(format_time_abs(None), "n/a");
    assert_eq!(format_time_abs(Some(0)), "n/a");

    let ts_us = 1711111111 * 1_000_000;
    let formatted = format_time_abs(Some(ts_us));
    assert_eq!(formatted.len(), 19);
    assert!(formatted.contains("-"));
    assert!(formatted.contains(":"));
}

#[test]
fn format_time_abs_invalid_timestamp_returns_invalid() {
    let res = format_time_abs(Some(u64::MAX));
    assert!(res == "invalid" || !res.is_empty());
}


#[test]
fn out_of_range_timestamp_is_invalid() {
    assert_eq!(format_time_abs(Some(u64::MAX)), "invalid");
}

#[test]
fn time_on_the_wrong_side_counts_as_just_now() {
    let now = 5_000_000_000u64;
    // a "next" time already past, and a "last" time still ahead
    assert_eq!(format_time_rel(Some(now - 1), now, true), "just now");
    assert_eq!(format_time_rel(Some(now + 1), now, false), "just now");
}

#[test]
fn sub_second_differences_show_zero_seconds() {
    let now = 5_000_000_000u64;
    assert_eq!(format_time_rel(Some(now + 999_999), now, true), "in 0s");
    assert_eq!(format_time_rel(Some(now - 1), now, false), "0s ago");
}

#[test]
fn large_distances_render_all_digits() {
    let now = 10u64;
    let days = 12345u64;
    let t = now + (days * 24 * 3600 + 7 * 3600) * 1_000_000;
    assert_eq!(format_time_rel(Some(t), now, true), "in 12345d 7h");
    assert_eq!(format_time_rel(Some(now), t, false), "12345d ago");
    assert_eq!(format_time_rel(Some(u64::MAX), 1, true), "in 213503982d 8h");
}

#[test]
fn absolute_time_has_date_and_clock_shape() {
    let formatted = format_time_abs(Some(1_711_111_111 * 1_000_000 + 999_999));
    let chars: Vec<char> = formatted.chars().collect();
    assert_eq!(chars.len(), 19);
    for (i, c) in chars.iter().enumerate() {
        match i {
            4 | 7 => assert_eq!(*c, '-'),
            10 => assert_eq!(*c, ' '),
            13 | 16 => assert_eq!(*c, ':'),
            _ => assert!(c.is_ascii_digit()),
        }
    }
    assert!(formatted.starts_with("2024-03-2"));
}
