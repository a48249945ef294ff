use chrono::Datelike;
use tikclip::storage::{
    add_file, add_len, archived_clip_age_days, check_cleanup_run_input, cleanup_summary,
    combine_usage, effective_retention_days, empty_usage, max_usage, read_cleanup_settings,
    read_i64_setting, resolve_usage_path, saturating_add_i64, should_delete_recording_file,
    usage_from_file_sizes, CleanupSettings, DirUsage, StorageCleanupRunInput,
};

fn day(y: i32, m: u32, d: u32) -> i32 {
    chrono::NaiveDate::from_ymd_opt(y, m, d).unwrap().num_days_from_ce()
}

#[test]
fn archived_clip_age_uses_calendar_days() {
    let today = day(2026, 4, 25);
    assert_eq!(archived_clip_age_days(today, "2026-04-24 23:30:00"), Some(1));
    assert_eq!(archived_clip_age_days(today, "2026-04-25 00:01:00"), Some(0));
    assert_eq!(archived_clip_age_days(today, "2026-05-01 00:00:00"), Some(0));
    assert_eq!(archived_clip_age_days(today, "2026-03-26"), Some(30));
    assert_eq!(archived_clip_age_days(today, "2026-04"), None);
    assert_eq!(archived_clip_age_days(today, "not a date at all"), None);
}

#[test]
fn usage_adds_files_and_saturates() {
    let u = add_file(add_file(empty_usage(), 10), 5);
    assert_eq!(u, DirUsage { bytes: 15, files: 2 });
    assert_eq!(add_len(i64::MAX - 1, 10), i64::MAX);
    assert_eq!(add_len(1, u64::MAX), i64::MAX);
    assert_eq!(saturating_add_i64(i64::MAX, 1), i64::MAX);
    assert_eq!(saturating_add_i64(i64::MIN, -1), i64::MIN);
    let both = combine_usage(u, DirUsage { bytes: 1, files: 1 });
    assert_eq!(both, DirUsage { bytes: 16, files: 3 });
}

#[test]
fn usage_from_sizes_counts_only_files() {
    let u = usage_from_file_sizes(&[Some(3), None, Some(4), None]);
    assert_eq!(u, DirUsage { bytes: 7, files: 2 });
}

#[test]
fn max_usage_takes_the_largest_estimate() {
    let a = DirUsage { bytes: 10, files: 1 };
    let b = DirUsage { bytes: 30, files: 2 };
    let c = DirUsage { bytes: 30, files: 9 };
    assert_eq!(max_usage(&[a, b, c]), c);
    assert_eq!(max_usage(&[]), DirUsage { bytes: 0, files: 0 });
}

#[test]
fn usage_paths_resolve_under_the_storage_root() {
    assert_eq!(resolve_usage_path("/data", " clips/a.mp4 "), "/data/clips/a.mp4");
    assert_eq!(resolve_usage_path("/data", "/abs/b.mp4"), "/abs/b.mp4");
}

#[test]
fn cleanup_settings_have_defaults_and_bounds() {
    assert_eq!(
        read_cleanup_settings(None, None, None, None).unwrap(),
        CleanupSettings {
            raw_retention_days: 7,
            archive_retention_days: 0,
            warn_percent: 80,
            cleanup_percent: 95,
        }
    );
    assert_eq!(
        read_cleanup_settings(Some("-4"), Some("30"), Some("150"), Some("50")).unwrap(),
        CleanupSettings {
            raw_retention_days: 0,
            archive_retention_days: 30,
            warn_percent: 100,
            cleanup_percent: 100,
        }
    );
    assert_eq!(
        read_cleanup_settings(None, None, Some("0"), Some("-3")).unwrap(),
        CleanupSettings {
            raw_retention_days: 7,
            archive_retention_days: 0,
            warn_percent: 1,
            cleanup_percent: 1,
        }
    );
    assert_eq!(
        read_cleanup_settings(Some("x7"), None, None, None).unwrap_err(),
        "TIKCLIP_RAW_RETENTION_DAYS must be an integer, got \"x7\""
    );
}

#[test]
fn integer_setting_falls_back_when_absent() {
    assert_eq!(read_i64_setting("k", None, 5).unwrap(), 5);
    assert_eq!(read_i64_setting("k", Some("-12"), 5).unwrap(), -12);
    assert_eq!(read_i64_setting("k", Some("1.5"), 5).unwrap_err(), "k must be an integer, got \"1.5\"");
}

#[test]
fn cleanup_run_refuses_negative_retention() {
    assert_eq!(
        check_cleanup_run_input(StorageCleanupRunInput { raw_retention_days: -1, archive_retention_days: 3 })
            .unwrap_err(),
        "retention days must be non-negative"
    );
    assert_eq!(
        check_cleanup_run_input(StorageCleanupRunInput { raw_retention_days: 2, archive_retention_days: 3 })
            .unwrap(),
        (2, 3)
    );
    assert_eq!(effective_retention_days(Some(-2), 9), 0);
    assert_eq!(effective_retention_days(None, 9), 9);
    assert_eq!(effective_retention_days(Some(4), 9), 4);
}

#[test]
fn only_old_raw_media_files_are_deleted() {
    assert!(should_delete_recording_file("/r/a.mp4", true, 8, 7));
    assert!(should_delete_recording_file("/r/a.FLV", true, 7, 7));
    assert!(!should_delete_recording_file("/r/a.mp4", true, 6, 7));
    assert!(!should_delete_recording_file("/r/a.txt", true, 8, 7));
    assert!(!should_delete_recording_file("/r/a.mp4", false, 8, 7));
    assert!(!should_delete_recording_file("/r/a.mp4", true, 80, 0));
}

#[test]
fn cleanup_summary_saturates_freed_bytes() {
    let s = cleanup_summary(2, 3, i64::MAX, 5);
    assert_eq!(s.deleted_recordings, 2);
    assert_eq!(s.deleted_clips, 3);
    assert_eq!(s.freed_bytes, i64::MAX);
}
