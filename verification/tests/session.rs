use tikclip::session::{
    runtime_current_node_for_status, should_start_new_run, LiveRuntimeSession,
    LiveRuntimeSessionSnapshot,
};

fn shop_session() -> LiveRuntimeSession {
    LiveRuntimeSession::new(
        22,
        "Flow".to_string(),
        "shop_abc".to_string(),
        "shop_abc".to_string(),
        3,
        None,
    )
}

#[test]
fn live_runtime_session_snapshot_reports_generation() {
    let session = shop_session();

    let snapshot = session.snapshot();
    assert_eq!(snapshot.flow_id, 22);
    assert_eq!(snapshot.generation, 3);
    assert_eq!(snapshot.lookup_key, "shop_abc");
    assert_eq!(snapshot.status, "watching");
}

#[test]
fn live_runtime_session_cancel_marks_session_stopped() {
    let mut session = shop_session();

    session.cancel();

    let snapshot = session.snapshot();
    assert_eq!(snapshot.status, "stopped");
}

#[test]
fn live_runtime_session_marks_completed_room_and_returns_to_polling() {
    let mut session = shop_session();

    session.mark_flow_run_started(99);
    session.mark_flow_run_completed(Some("7312345"));

    assert!(session.is_polling());
    assert_eq!(session.last_completed_room_id(), Some("7312345"));
}

#[test]
fn live_runtime_session_snapshot_reports_downstream_status_when_run_stays_active() {
    let mut session = shop_session();

    session.mark_downstream_stage(99, "processing");

    let snapshot = session.snapshot();
    assert_eq!(snapshot.status, "processing");
    assert!(!session.is_polling());
    assert_eq!(session.active_flow_run_id(), Some(99));
}

#[test]
fn live_runtime_session_snapshot_reports_recording_when_active_run_exists() {
    let mut session = shop_session();

    session.mark_flow_run_started(99);

    let snapshot = session.snapshot();
    assert_eq!(snapshot.status, "recording");
}

#[test]
fn live_runtime_session_snapshot_reports_error_when_failed() {
    let mut session = shop_session();

    session.fail("lease conflict");

    let snapshot = session.snapshot();
    assert_eq!(snapshot.status, "error");
    assert_eq!(snapshot.last_error.as_deref(), Some("lease conflict"));
}

#[test]
fn live_runtime_session_teardown_invokes_hook() {
    let mut session = shop_session();
    session.mark_downstream_stage(99, "processing");

    session.teardown();

    assert_eq!(session.snapshot().status, "stopped");
    assert_eq!(session.active_flow_run_id(), None);
    assert!(!session.is_polling());
}

#[test]
fn should_start_new_run_blocks_same_room_after_completion() {
    assert!(!should_start_new_run(
        Some("7312345"),
        Some("7312345"),
        true
    ));
    assert!(should_start_new_run(Some("7319999"), Some("7312345"), true));
    assert!(should_start_new_run(
        Some("7312345"),
        Some("7312345"),
        false
    ));
}

#[test]
fn runtime_current_node_for_status_maps_start_record_and_processing_stages() {
    assert_eq!(runtime_current_node_for_status("watching"), Some("start"));
    assert_eq!(runtime_current_node_for_status("recording"), Some("record"));
    assert_eq!(runtime_current_node_for_status("processing"), Some("clip"));
    assert_eq!(runtime_current_node_for_status("error"), None);
}

#[test]
fn live_runtime_session_bumps_poll_generation() {
    let mut session = shop_session();

    assert_eq!(session.poll_generation(), 0);
    assert_eq!(session.bump_poll_generation(), 1);
    assert_eq!(session.bump_poll_generation(), 2);
    assert_eq!(session.poll_generation(), 2);
}

#[test]
fn live_runtime_session_snapshot_exposes_minimal_debug_fields() {
    let snapshot = LiveRuntimeSessionSnapshot {
        flow_id: 11,
        flow_name: "Flow".to_string(),
        username: "shop_abc".to_string(),
        lookup_key: "shop_abc".to_string(),
        generation: 2,
        status: "watching".to_string(),
        last_error: None,
        last_checked_at: Some("2026-04-25 10:00:00".to_string()),
        last_check_live: Some(false),
        next_poll_at: Some("2026-04-25 10:01:00".to_string()),
        poll_interval_seconds: Some(60),
    };

    assert_eq!(snapshot.flow_id, 11);
    assert_eq!(snapshot.username, "shop_abc");
    assert_eq!(snapshot.generation, 2);
    assert_eq!(snapshot.status, "watching");
    assert_eq!(snapshot.last_check_live, Some(false));
}

#[test]
fn completed_room_is_not_started_again_until_source_goes_offline() {
    let mut session = shop_session();
    session.mark_flow_run_started(5);
    session.mark_flow_run_completed(Some("room-1"));
    assert!(!should_start_new_run(Some("room-1"), session.last_completed_room_id(), true));

    session.mark_source_offline();
    assert_eq!(session.last_completed_room_id(), None);
    assert!(should_start_new_run(Some("room-1"), session.last_completed_room_id(), true));
}

#[test]
fn stopped_session_does_not_poll_and_reports_stopped() {
    let mut session = shop_session();
    assert!(session.is_polling());
    session.cancel();
    assert!(!session.is_polling());
    session.mark_flow_run_stopped();
    assert_eq!(session.snapshot().status, "stopped");
}

#[test]
fn snapshot_after_a_sequence_of_calls_follows_the_last_relevant_call() {
    let mut session = shop_session();
    session.mark_flow_run_started(5);
    session.mark_downstream_stage(5, "processing");
    assert_eq!(session.snapshot().status, "processing");
    session.mark_flow_run_started(6);
    assert_eq!(session.snapshot().status, "recording");
    session.mark_flow_run_completed(Some("r1"));
    assert_eq!(session.snapshot().status, "watching");
    session.fail("first");
    session.fail("second");
    session.teardown();
    let snapshot = session.snapshot();
    assert_eq!(snapshot.status, "error");
    assert_eq!(snapshot.last_error.as_deref(), Some("second"));
    assert_eq!(snapshot.flow_id, 22);
    assert_eq!(snapshot.generation, 3);
}
