use tikclip::dashboard::{check_dashboard_day, dashboard_used_bytes, day_folder_needle, is_valid_ymd};

#[test]
fn ymd_days_need_the_iso_shape() {
    assert!(is_valid_ymd("2026-04-25"));
    assert!(is_valid_ymd("9999-99-99"));
    assert!(!is_valid_ymd("2026-4-25"));
    assert!(!is_valid_ymd("2026/04/25"));
    assert!(!is_valid_ymd("2026-04-2x"));
    assert!(!is_valid_ymd("2026-04-255"));
    assert!(!is_valid_ymd("２026-04-25"));
}

#[test]
fn dashboard_day_is_trimmed_and_checked() {
    assert_eq!(check_dashboard_day(" 2026-04-25 ").unwrap(), "2026-04-25");
    assert_eq!(check_dashboard_day("25/04/2026").unwrap_err(), "today_ymd must be YYYY-MM-DD");
    assert_eq!(day_folder_needle("2026-04-25"), "/2026-04-25/");
}

#[test]
fn dashboard_storage_is_the_largest_estimate() {
    assert_eq!(dashboard_used_bytes(10, 20, 5, 7), 30);
    assert_eq!(dashboard_used_bytes(10, 20, 50, 7), 50);
    assert_eq!(dashboard_used_bytes(-100, 20, -5, -7), 0);
    assert_eq!(dashboard_used_bytes(i64::MAX, 1, 0, 0), i64::MAX);
    assert_eq!(dashboard_used_bytes(1, 1, 1, 90), 90);
}
