use tikclip::commands::{
    app_data_paths, check_create_account, check_external_recording_id, check_notification,
    flow_runtime_snapshot, not_found_message, notification_list_cap, notification_list_item,
    unknown_account_message, CreateAccountInput, InsertNotificationInput,
};
use tikclip::session::LiveRuntimeSessionSnapshot;

fn account(kind: &str, username: &str) -> CreateAccountInput {
    CreateAccountInput {
        username: username.to_string(),
        display_name: "D".to_string(),
        account_type: kind.to_string(),
        cookies_json: None,
        proxy_url: None,
        auto_record: false,
        priority: 0,
        notes: None,
    }
}

#[test]
fn accounts_need_a_known_type_and_a_username() {
    assert_eq!(check_create_account(&account("own", " a ")).unwrap(), "a");
    assert_eq!(check_create_account(&account("monitored", "b")).unwrap(), "b");
    assert_eq!(
        check_create_account(&account("guest", "a")).unwrap_err(),
        "type must be 'own' or 'monitored'"
    );
    assert_eq!(check_create_account(&account("own", "  ")).unwrap_err(), "username is required");
}

#[test]
fn messages_name_what_is_missing() {
    assert_eq!(not_found_message("account", 12), "account id 12 not found");
    assert_eq!(unknown_account_message(-1), "unknown account_id -1");
    assert_eq!(
        check_external_recording_id("  ").unwrap_err(),
        "external_recording_id is required"
    );
    assert!(check_external_recording_id("x").is_ok());
}

#[test]
fn notifications_are_checked_and_listed() {
    let mut input = InsertNotificationInput {
        notification_type: " info ".to_string(),
        title: " Hello ".to_string(),
        message: "m".to_string(),
        account_id: None,
        recording_id: None,
        clip_id: None,
    };
    assert_eq!(
        check_notification(&input).unwrap(),
        ("info".to_string(), "Hello".to_string())
    );
    input.title = " ".to_string();
    assert_eq!(check_notification(&input).unwrap_err(), "title is required");
    input.notification_type = String::new();
    assert_eq!(check_notification(&input).unwrap_err(), "notification_type is required");

    assert_eq!(notification_list_cap(0), 1);
    assert_eq!(notification_list_cap(10_000), 500);
    assert_eq!(notification_list_cap(50), 50);
    let item = notification_list_item(1, "k".to_string(), "t".to_string(), "b".to_string(), 2, "c".to_string());
    assert!(item.read);
}

#[test]
fn app_data_paths_live_under_the_root() {
    let p = app_data_paths("/home/u/.tikclip");
    assert_eq!(p.storage_root, "/home/u/.tikclip");
    assert_eq!(p.data_dir, "/home/u/.tikclip/data");
    assert_eq!(p.clips_dir, "/home/u/.tikclip/clips");
    assert_eq!(p.records_dir, "/home/u/.tikclip/records");
}

#[test]
fn runtime_snapshot_exposes_frontend_runtime_fields() {
    let session = LiveRuntimeSessionSnapshot {
        flow_id: 4,
        flow_name: "F".to_string(),
        username: "shop".to_string(),
        lookup_key: "shop".to_string(),
        generation: 1,
        status: "recording".to_string(),
        last_error: None,
        last_checked_at: None,
        last_check_live: None,
        next_poll_at: None,
        poll_interval_seconds: None,
    };
    let snap = flow_runtime_snapshot(session.clone(), None, Some(9), Some("t".to_string()), Some(77));
    assert_eq!(snap.current_node.as_deref(), Some("record"));
    assert_eq!(snap.account_id, Some(9));
    assert_eq!(snap.active_flow_run_id, Some(77));
    let stored = flow_runtime_snapshot(session, Some("caption".to_string()), None, None, None);
    assert_eq!(stored.current_node.as_deref(), Some("caption"));
}
