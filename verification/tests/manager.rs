use tikclip::check_live::LiveStatus;
use tikclip::json::JsonValue;
use tikclip::logs::{FlowRuntimeLogLevel, RuntimeEvent};
use tikclip::manager::{
    FlowRuntimeConfig, LiveDetectedStep, LiveRuntimeManager, ReconcileOutcome, StartOutcome,
};

fn config(flow_id: i64, username: &str) -> FlowRuntimeConfig {
    FlowRuntimeConfig {
        flow_id,
        flow_name: format!("Flow {flow_id}"),
        enabled: true,
        definition_version: 1,
        username: username.to_string(),
        lookup_key: username.to_lowercase(),
        cookies_json: "{}".to_string(),
        proxy_url: None,
        poll_interval_seconds: 60,
    }
}

fn context_str(event: &RuntimeEvent, key: &str) -> Option<String> {
    match &event.context {
        JsonValue::Object(members) => members.iter().find(|(k, _)| k == key).and_then(|(_, v)| match v {
            JsonValue::Str(s) => Some(s.clone()),
            _ => None,
        }),
        _ => None,
    }
}

fn context_int(event: &RuntimeEvent, key: &str) -> Option<i64> {
    match &event.context {
        JsonValue::Object(members) => members.iter().find(|(k, _)| k == key).and_then(|(_, v)| match v {
            JsonValue::Number(n) => n.int_value,
            _ => None,
        }),
        _ => None,
    }
}

fn live(room_id: &str, stream_url: Option<&str>) -> LiveStatus {
    LiveStatus {
        room_id: room_id.to_string(),
        stream_url: stream_url.map(str::to_string),
        viewer_count: None,
    }
}

#[test]
fn start_flow_session_creates_single_session_for_enabled_flow() {
    let mut manager = LiveRuntimeManager::new();
    let cfg = config(1, "shop_abc");

    assert_eq!(
        manager.start_flow_session(&cfg, None, None),
        Ok(StartOutcome::Started { poll_generation: 1 })
    );
    assert_eq!(
        manager.start_flow_session(&cfg, None, None),
        Ok(StartOutcome::AlreadyRunning)
    );

    let sessions = manager.list_sessions();
    assert_eq!(sessions.len(), 1);
    assert_eq!(sessions[0].flow_id, 1);
    assert_eq!(sessions[0].status, "watching");
    assert_eq!(sessions[0].generation, 1);
    assert_eq!(manager.lease_owner("shop_abc"), Some(1));
}

#[test]
fn disabled_flow_starts_nothing() {
    let mut manager = LiveRuntimeManager::new();
    let mut cfg = config(1, "shop_abc");
    cfg.enabled = false;
    assert_eq!(manager.start_flow_session(&cfg, None, None), Ok(StartOutcome::Disabled));
    assert_eq!(manager.reconcile_flow(&cfg, None, None), Ok(ReconcileOutcome::Disabled));
    assert!(manager.list_sessions().is_empty());
}

#[test]
fn acquire_username_lease_rejects_second_flow_with_same_lookup_key() {
    let mut manager = LiveRuntimeManager::new();
    manager.start_flow_session(&config(1, "shop_abc"), None, None).unwrap();

    let err = manager
        .start_flow_session(&config(2, "shop_abc"), None, None)
        .unwrap_err();

    assert_eq!(err, "username lease already held for shop_abc by flow 1");
    assert_eq!(manager.lease_owner("shop_abc"), Some(1));
    let sessions = manager.list_sessions();
    assert_eq!(sessions.len(), 2);
    assert_eq!(sessions[1].flow_id, 2);
    assert_eq!(sessions[1].status, "error");
    assert_eq!(sessions[1].last_error.as_deref(), Some(err.as_str()));
    assert_eq!(sessions[0].flow_id, 1);
    assert_eq!(sessions[0].status, "watching");

    let events = manager.take_events();
    let conflict = events.last().expect("lease conflict event");
    assert_eq!(conflict.flow_id, 2);
    assert_eq!(conflict.event, "lease_conflict");
    assert_eq!(conflict.stage, "start");
    assert_eq!(conflict.code.as_deref(), Some("start.username_conflict"));
    assert_eq!(conflict.level, FlowRuntimeLogLevel::Warn);
    assert_eq!(context_str(conflict, "lookup_key").as_deref(), Some("shop_abc"));
    assert_eq!(context_int(conflict, "lease_owner_flow_id"), Some(1));
    assert!(manager.take_events().is_empty());
}

#[test]
fn started_session_logs_lease_and_start() {
    let mut manager = LiveRuntimeManager::new();
    manager.start_flow_session(&config(3, "shop_abc"), None, Some(9)).unwrap();

    let events = manager.take_events();
    assert_eq!(events.len(), 2);
    assert_eq!(events[0].event, "lease_acquired");
    assert_eq!(events[0].stage, "start");
    assert_eq!(events[0].flow_run_id, Some(9));
    assert_eq!(context_str(&events[0], "lookup_key").as_deref(), Some("shop_abc"));
    assert_eq!(events[1].event, "session_started");
    assert_eq!(events[1].stage, "session");
    assert_eq!(context_int(&events[1], "generation"), Some(1));

    manager.reconcile_flow(&config(3, "shop_abc"), None, None).unwrap();
    let events = manager.take_events();
    assert_eq!(events.len(), 2);
    assert_eq!(events[0].message, "Acquired username lease for reconciled runtime session");
    assert_eq!(context_int(&events[0], "generation"), Some(2));
    assert_eq!(events[1].message, "Replaced runtime session after reconcile");
}

#[test]
fn handle_live_detected_does_not_create_run_when_stream_url_is_missing() {
    let mut manager = LiveRuntimeManager::new();
    manager.start_flow_session(&config(1, "shop_abc"), None, None).unwrap();
    manager.take_events();

    let step = manager.plan_live_detected(
        1,
        &LiveStatus { room_id: "7312345".to_string(), stream_url: None, viewer_count: Some(77) },
    );

    assert_eq!(step, Ok(LiveDetectedStep::MissingStreamUrl));
    assert_eq!(manager.list_sessions()[0].status, "watching");
    let events = manager.take_events();
    assert_eq!(events.len(), 2);
    assert_eq!(events[0].event, "live_detected");
    let missing = &events[1];
    assert_eq!(missing.event, "stream_url_missing");
    assert_eq!(missing.stage, "start");
    assert_eq!(missing.code.as_deref(), Some("start.stream_url_missing"));
    assert_eq!(missing.level, FlowRuntimeLogLevel::Warn);
    assert_eq!(context_str(missing, "room_id").as_deref(), Some("7312345"));
    assert_eq!(context_int(missing, "viewer_count"), Some(77));
}

#[test]
fn reconcile_flow_replaces_session_one_generation_later() {
    let mut manager = LiveRuntimeManager::new();
    manager.start_flow_session(&config(1, "shop_abc"), None, None).unwrap();

    assert_eq!(
        manager.reconcile_flow(&config(1, "shop_abc"), Some("room-1".to_string()), Some(77)),
        Ok(ReconcileOutcome::Replaced { poll_generation: 2 })
    );
    let sessions = manager.list_sessions();
    assert_eq!(sessions.len(), 1);
    assert_eq!(sessions[0].generation, 2);
    assert_eq!(sessions[0].status, "recording");
}

#[test]
fn reconcile_flow_surfaces_failure_snapshot_when_replacement_fails() {
    let mut manager = LiveRuntimeManager::new();
    manager.start_flow_session(&config(1, "shop_abc"), None, None).unwrap();
    manager.start_flow_session(&config(2, "other"), None, None).unwrap();

    let err = manager.reconcile_flow(&config(2, "shop_abc"), None, None).unwrap_err();

    assert_eq!(err, "username lease already held for shop_abc by flow 1");
    let sessions = manager.list_sessions();
    assert_eq!(sessions.len(), 2);
    assert_eq!(sessions[1].flow_id, 2);
    assert_eq!(sessions[1].status, "error");
    assert_eq!(manager.lease_owner("other"), None);
}

#[test]
fn stop_flow_session_removes_session_and_lease() {
    let mut manager = LiveRuntimeManager::new();
    manager.start_flow_session(&config(1, "shop_abc"), None, None).unwrap();
    manager.track_recording(1, "ext-1".to_string());

    let stopped = manager.stop_flow_session(1);

    assert_eq!(stopped.len(), 1);
    assert_eq!(stopped[0].status, "stopped");
    assert!(manager.list_sessions().is_empty());
    assert_eq!(manager.lease_owner("shop_abc"), None);
    assert_eq!(manager.active_recording_id(1), None);
    let finishes = manager.take_finishes();
    assert_eq!(finishes.len(), 1);
    assert_eq!(finishes[0].external_recording_id, "ext-1");
    assert!(!finishes[0].success);
    assert_eq!(finishes[0].error_message.as_deref(), Some("Recording cancelled"));
    assert!(manager.stop_flow_session(1).is_empty());
    assert!(manager.take_finishes().is_empty());
}

#[test]
fn shutdown_clears_sessions_and_leases() {
    let mut manager = LiveRuntimeManager::new();
    manager.start_flow_session(&config(2, "b"), None, None).unwrap();
    manager.start_flow_session(&config(1, "a"), None, None).unwrap();
    manager.track_recording(2, "ext-2".to_string());

    let stopped = manager.shutdown();

    assert_eq!(stopped.iter().map(|s| s.flow_id).collect::<Vec<_>>(), vec![1, 2]);
    assert!(stopped.iter().all(|s| s.status == "stopped"));
    assert!(manager.list_sessions().is_empty());
    assert_eq!(manager.lease_owner("a"), None);
    assert!(manager.active_recording_ids().is_empty());
    let finishes = manager.take_finishes();
    assert_eq!(finishes.len(), 1);
    assert_eq!(finishes[0].external_recording_id, "ext-2");
    assert_eq!(finishes[0].room_id, None);
    assert_eq!(finishes[0].error_message.as_deref(), Some("Recording cancelled"));
    assert_eq!(manager.start_flow_session(&config(1, "a"), None, None), Ok(StartOutcome::Started { poll_generation: 1 }));
}

#[test]
fn poll_iterations_of_replaced_or_cancelled_loops_are_stale() {
    let mut manager = LiveRuntimeManager::new();
    manager.start_flow_session(&config(1, "a"), None, None).unwrap();

    assert!(!manager.is_poll_iteration_stale(1, 1, false));
    assert!(manager.is_poll_iteration_stale(1, 1, true));
    assert!(manager.is_poll_iteration_stale(1, 0, false));
    assert!(manager.is_poll_iteration_stale(9, 1, false));

    manager.mark_run_started(1, 5).unwrap();
    assert!(manager.is_poll_iteration_stale(1, 1, false));
    assert_eq!(manager.restart_active_run(1), Ok(2));
    assert!(manager.is_poll_iteration_stale(1, 1, false));
    assert!(!manager.is_poll_iteration_stale(1, 2, false));
}

#[test]
fn live_detection_starts_a_run_only_for_a_new_room_with_a_stream() {
    let mut manager = LiveRuntimeManager::new();
    assert_eq!(
        manager.plan_live_detected(1, &live("r1", Some("u"))),
        Err("missing live runtime session for flow 1".to_string())
    );
    manager.start_flow_session(&config(1, "a"), Some("r1".to_string()), None).unwrap();

    assert_eq!(
        manager.plan_live_detected(1, &live("r1", Some("u"))),
        Ok(LiveDetectedStep::AlreadyCompleted)
    );
    assert_eq!(
        manager.plan_live_detected(1, &live("  ", Some("u"))),
        Ok(LiveDetectedStep::EmptyRoomId)
    );
    assert_eq!(
        manager.plan_live_detected(1, &live("r2", None)),
        Ok(LiveDetectedStep::MissingStreamUrl)
    );
    assert_eq!(
        manager.plan_live_detected(1, &live("r2", Some("https://x/live.flv"))),
        Ok(LiveDetectedStep::StartRun { stream_url: "https://x/live.flv".to_string() })
    );

    manager.mark_run_started(1, 10).unwrap();
    assert_eq!(
        manager.plan_live_detected(1, &live("r3", Some("u"))),
        Ok(LiveDetectedStep::SessionActive)
    );
}

#[test]
fn successful_record_completion_keeps_flow_run_alive_for_downstream_stages() {
    let mut manager = LiveRuntimeManager::new();
    manager.start_flow_session(&config(1, "a"), None, None).unwrap();
    manager.mark_run_started(1, 10).unwrap();
    manager.track_recording(1, "ext-10".to_string());
    assert_eq!(manager.active_recording_id(1).as_deref(), Some("ext-10"));

    manager.finish_recording(1, 10, true, Some("r1"));

    assert_eq!(manager.active_recording_id(1), None);
    assert_eq!(manager.list_sessions()[0].status, "processing");
    manager.mark_downstream_failed(1, 10);
    assert_eq!(manager.list_sessions()[0].status, "error");
}

#[test]
fn failed_record_returns_to_watching_and_remembers_room_until_offline() {
    let mut manager = LiveRuntimeManager::new();
    manager.start_flow_session(&config(1, "a"), None, None).unwrap();
    manager.mark_run_started(1, 10).unwrap();

    manager.finish_recording(1, 10, false, Some("r1"));

    assert_eq!(manager.list_sessions()[0].status, "watching");
    assert_eq!(
        manager.plan_live_detected(1, &live("r1", Some("u"))),
        Ok(LiveDetectedStep::AlreadyCompleted)
    );
    manager.mark_source_offline(1);
    assert_eq!(
        manager.plan_live_detected(1, &live("r1", Some("u"))),
        Ok(LiveDetectedStep::StartRun { stream_url: "u".to_string() })
    );
}

#[test]
fn restart_and_run_start_need_a_session() {
    let mut manager = LiveRuntimeManager::new();
    assert_eq!(manager.restart_active_run(4), Err("missing live runtime session for flow 4".to_string()));
    assert_eq!(manager.mark_run_started(4, 1), Err("missing live runtime session for flow 4".to_string()));
}

#[test]
fn active_recordings_are_tracked_per_flow() {
    let mut manager = LiveRuntimeManager::new();
    manager.track_recording(1, "a".to_string());
    manager.track_recording(2, "b".to_string());
    manager.track_recording(1, "c".to_string());
    assert_eq!(manager.active_recording_id(1).as_deref(), Some("c"));
    let mut ids = manager.active_recording_ids();
    ids.sort();
    assert_eq!(ids, vec!["b".to_string(), "c".to_string()]);
}

#[test]
fn stopped_flow_is_not_torn_down_again_by_shutdown() {
    let mut manager = LiveRuntimeManager::new();
    manager.start_flow_session(&config(1, "a"), None, None).unwrap();
    manager.start_flow_session(&config(2, "b"), None, None).unwrap();

    let stopped = manager.stop_flow_session(1);
    let shut = manager.shutdown();

    assert_eq!(stopped.len(), 1);
    assert_eq!(shut.iter().map(|s| s.flow_id).collect::<Vec<_>>(), vec![2]);
}

#[test]
fn restored_last_completed_room_id_prevents_duplicate_run_for_same_on_air_room() {
    let mut manager = LiveRuntimeManager::new();
    manager
        .start_flow_session(&config(1, "shop_abc"), Some("7312345".to_string()), None)
        .unwrap();

    let step = manager
        .plan_live_detected(1, &live("7312345", Some("https://example.com/live.flv")))
        .unwrap();

    assert_eq!(step, LiveDetectedStep::AlreadyCompleted);
    assert_eq!(manager.list_sessions()[0].status, "watching");
}

#[test]
fn restart_cancels_the_active_recording_and_logs_it() {
    let mut manager = LiveRuntimeManager::new();
    manager.start_flow_session(&config(1, "a"), None, None).unwrap();
    manager.mark_run_started(1, 10).unwrap();
    manager.track_recording(1, "ext-10".to_string());
    manager.take_events();

    assert_eq!(manager.restart_active_run(1), Ok(2));

    assert_eq!(manager.active_recording_id(1), None);
    let finishes = manager.take_finishes();
    assert_eq!(finishes.len(), 1);
    assert_eq!(finishes[0].external_recording_id, "ext-10");
    assert_eq!(finishes[0].error_message.as_deref(), Some("Recording cancelled"));
    let events = manager.take_events();
    assert_eq!(events.len(), 1);
    assert_eq!(events[0].event, "publish_restart_completed");
    assert!(matches!(
        &events[0].context,
        JsonValue::Object(ms) if ms.iter().any(|(k, v)| k == "active_recording_cancelled" && matches!(v, JsonValue::Bool(true)))
    ));
    assert_eq!(manager.list_sessions()[0].status, "watching");
}

#[test]
fn marking_a_source_offline_logs_the_reset() {
    let mut manager = LiveRuntimeManager::new();
    manager.mark_source_offline(5);
    let events = manager.take_events();
    assert_eq!(events.len(), 1);
    assert_eq!(events[0].event, "source_offline_marked");
    assert_eq!(events[0].stage, "session");
    assert_eq!(context_int(&events[0], "flow_id"), Some(5));
}

#[test]
fn restart_with_a_recording_forgets_the_completed_room() {
    let mut manager = LiveRuntimeManager::new();
    manager.start_flow_session(&config(1, "a"), Some("r1".to_string()), None).unwrap();
    manager.mark_run_started(1, 10).unwrap();
    manager.track_recording(1, "ext-10".to_string());
    manager.restart_active_run(1).unwrap();
    assert_eq!(
        manager.plan_live_detected(1, &live("r1", Some("u"))),
        Ok(LiveDetectedStep::StartRun { stream_url: "u".to_string() })
    );

    let mut other = LiveRuntimeManager::new();
    other.start_flow_session(&config(2, "b"), Some("r1".to_string()), None).unwrap();
    other.mark_run_started(2, 11).unwrap();
    other.restart_active_run(2).unwrap();
    assert_eq!(other.plan_live_detected(2, &live("r1", Some("u"))), Ok(LiveDetectedStep::AlreadyCompleted));
}
