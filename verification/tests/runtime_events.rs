use tikclip::json::JsonValue;
use tikclip::logs::FlowRuntimeLogLevel;
use tikclip::runtime_events::{
    poll_failed_event, record_finished_event, record_spawned_event, run_created_event,
};

fn member_keys(value: &JsonValue) -> Vec<String> {
    match value {
        JsonValue::Object(members) => members.iter().map(|(k, _)| k.clone()).collect(),
        _ => Vec::new(),
    }
}

#[test]
fn finished_recordings_log_completed_cancelled_or_failed() {
    let done = record_finished_event(1, 10, "ext-10", Some("r1"), true, None);
    assert_eq!(done.event, "record_completed");
    assert_eq!(done.level, FlowRuntimeLogLevel::Info);
    assert_eq!(done.external_recording_id.as_deref(), Some("ext-10"));
    assert_eq!(member_keys(&done.context), vec!["room_id"]);

    let cancelled = record_finished_event(1, 10, "ext-10", None, false, Some(" Recording cancelled "));
    assert_eq!(cancelled.event, "record_cancelled");
    assert_eq!(cancelled.level, FlowRuntimeLogLevel::Warn);
    assert_eq!(cancelled.message, "Recording was cancelled");

    let failed = record_finished_event(1, 10, "ext-10", Some("r1"), false, Some("ffmpeg exited"));
    assert_eq!(failed.event, "record_failed");
    assert_eq!(failed.level, FlowRuntimeLogLevel::Error);
    assert_eq!(member_keys(&failed.context), vec!["error", "room_id"]);
}

#[test]
fn run_and_poll_events_carry_their_codes_and_context() {
    let created = run_created_event(1, 10, "ext-10", "7312345");
    assert_eq!(created.stage, "start");
    assert_eq!(created.flow_run_id, Some(10));
    assert_eq!(member_keys(&created.context), vec!["has_stream_url", "room_id"]);

    let spawned = record_spawned_event(1, 10, "ext-10", "7312345");
    assert_eq!(spawned.event, "record_spawned");
    assert_eq!(spawned.stage, "record");

    let failed = poll_failed_event(3, "timeout");
    assert_eq!(failed.code.as_deref(), Some("start.poll_failed"));
    assert_eq!(failed.level, FlowRuntimeLogLevel::Warn);
    assert!(matches!(&failed.context, JsonValue::Object(ms) if matches!(&ms[0].1, JsonValue::Str(s) if s == "timeout")));
}
