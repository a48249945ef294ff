use tikclip::json::{as_str, get, json_to_string, parse_json, JsonValue};
use tikclip::logs::{
    format_terminal_context, format_terminal_entry, is_sensitive_context_key, level_str,
    redact_sensitive_context, FlowRuntimeLogBuffer, FlowRuntimeLogEntry, FlowRuntimeLogLevel,
    LogIdSequence, DEFAULT_FLOW_RUNTIME_LOG_BUFFER_CAPACITY, select_runtime_logs,
};

fn context_json(text: &str) -> JsonValue {
    let chars: Vec<char> = text.chars().collect();
    parse_json(&chars).unwrap()
}

fn text_at<'a>(v: &'a JsonValue, path: &[&str]) -> Option<&'a str> {
    let mut cur = v;
    for key in path {
        cur = get(cur, key)?;
    }
    as_str(cur)
}

fn test_entry(message: &str, ids: &mut LogIdSequence) -> FlowRuntimeLogEntry {
    FlowRuntimeLogEntry::new(
        1,
        None,
        None,
        "runtime",
        "session_started",
        FlowRuntimeLogLevel::Info,
        None,
        message,
        &context_json("{}"),
        ids,
    )
}

#[test]
fn flow_runtime_log_entry_keeps_required_fields() {
    let mut ids = LogIdSequence::new();
    let entry = FlowRuntimeLogEntry::new(
        7,
        Some(42),
        Some("rec-42-a1b2"),
        "record",
        "record_spawned",
        FlowRuntimeLogLevel::Info,
        None,
        "Spawned Rust-owned recording worker",
        &context_json(r#"{"room_id":"7312345"}"#),
        &mut ids,
    );

    assert_eq!(entry.flow_id, 7);
    assert_eq!(entry.flow_run_id, Some(42));
    assert_eq!(entry.external_recording_id.as_deref(), Some("rec-42-a1b2"));
    assert_eq!(entry.stage, "record");
    assert_eq!(entry.event, "record_spawned");
}

#[test]
fn flow_runtime_log_entry_keeps_external_recording_id_when_present() {
    let mut ids = LogIdSequence::new();
    let entry = FlowRuntimeLogEntry::new(
        7,
        Some(42),
        Some("rec-42-a1b2"),
        "record",
        "record_spawned",
        FlowRuntimeLogLevel::Info,
        None,
        "Spawned Rust-owned recording worker",
        &context_json(r#"{"room_id":"7312345"}"#),
        &mut ids,
    );

    assert_eq!(entry.external_recording_id.as_deref(), Some("rec-42-a1b2"));
}

#[test]
fn flow_runtime_log_entry_serializes_with_snake_case_fields() {
    let mut ids = LogIdSequence::new();
    let entry = test_entry("serialized", &mut ids);
    let line = format_terminal_entry(&entry);
    let document = context_json(line.strip_prefix("flow_runtime ").unwrap());

    assert!(get(&document, "flow_id").is_some());
    assert!(get(&document, "flow_run_id").is_some());
    assert!(get(&document, "external_recording_id").is_some());
    assert!(get(&document, "flowId").is_none());
    assert!(get(&document, "flowRunId").is_none());
}

#[test]
fn ring_buffer_keeps_only_latest_entries_with_cap() {
    let mut ids = LogIdSequence::new();
    let mut buffer = FlowRuntimeLogBuffer::new(2);
    buffer.push(test_entry("first", &mut ids));
    buffer.push(test_entry("second", &mut ids));
    buffer.push(test_entry("third", &mut ids));

    let entries = buffer.entries();
    let messages = entries
        .iter()
        .map(|entry| entry.message.as_str())
        .collect::<Vec<_>>();
    assert_eq!(messages, vec!["second", "third"]);
}

#[test]
fn default_buffer_keeps_five_hundred_entries() {
    let mut ids = LogIdSequence::new();
    let mut buffer = FlowRuntimeLogBuffer::default();
    for i in 0..(DEFAULT_FLOW_RUNTIME_LOG_BUFFER_CAPACITY + 3) {
        buffer.push(test_entry(&format!("m{i}"), &mut ids));
    }
    let entries = buffer.entries();
    assert_eq!(entries.len(), 500);
    assert_eq!(entries[0].message, "m3");
    assert_eq!(entries[499].message, "m502");
}

#[test]
fn flow_runtime_log_entry_generates_unique_ids_for_back_to_back_same_flow_entries() {
    let mut ids = LogIdSequence::new();
    let first = test_entry("first", &mut ids);
    let second = test_entry("second", &mut ids);

    assert_ne!(first.id, second.id);
}

#[test]
fn flow_runtime_log_entry_timestamp_includes_millisecond_precision() {
    let mut ids = LogIdSequence::new();
    let entry = test_entry("millis", &mut ids);

    assert!(entry.timestamp.contains('.'));
    assert!(entry.timestamp.contains('+'));
}

#[test]
fn entry_made_at_a_given_time_has_formatted_id() {
    let entry = FlowRuntimeLogEntry::new_at(
        -3,
        None,
        None,
        "runtime",
        "tick",
        FlowRuntimeLogLevel::Debug,
        Some("c"),
        "m",
        &context_json("[]"),
        "2026-01-01T00:00:00.000+07:00".to_string(),
        12,
    );
    assert_eq!(entry.id, "log--3-2026-01-01T00:00:00.000+07:00-12");
    assert_eq!(entry.code.as_deref(), Some("c"));
}

#[test]
fn id_sequence_wraps_like_a_counter() {
    let mut ids = LogIdSequence { next: u64::MAX };
    assert_eq!(ids.take(), u64::MAX);
    assert_eq!(ids.take(), 0);
    assert_eq!(ids.take(), 1);
}

#[test]
fn format_terminal_context_redacts_sensitive_fields() {
    let formatted = format_terminal_context(&context_json(
        r#"{
            "username": "shop_abc",
            "stream_url": "https://example.com/live.flv",
            "has_stream_url": true,
            "cookies_json": "very-secret",
            "token": "abc123",
            "nested": {
                "authorization": "Bearer secret",
                "keep": true
            }
        }"#,
    ));

    assert!(formatted.contains("shop_abc"));
    assert!(formatted.contains("\"stream_url\":\"[redacted]\""));
    assert!(formatted.contains("\"has_stream_url\":true"));
    assert!(formatted.contains("\"cookies_json\":\"[redacted]\""));
    assert!(formatted.contains("\"token\":\"[redacted]\""));
    assert!(formatted.contains("\"authorization\":\"[redacted]\""));
    assert!(!formatted.contains("very-secret"));
    assert!(!formatted.contains("abc123"));
    assert!(!formatted.contains("Bearer secret"));
}

#[test]
fn flow_runtime_log_entry_stores_redacted_context_for_all_sinks() {
    let mut ids = LogIdSequence::new();
    let entry = FlowRuntimeLogEntry::new(
        7,
        Some(42),
        Some("rec-42-a1b2"),
        "record",
        "handoff_failed",
        FlowRuntimeLogLevel::Warn,
        Some("runtime.handoff_failed"),
        "Runtime handoff failed",
        &context_json(
            r#"{
                "username": "shop_abc",
                "stream_url": "https://example.com/live.flv",
                "has_stream_url": true,
                "cookies_json": "very-secret",
                "nested": {
                    "authorization": "Bearer secret",
                    "reason": "port_missing"
                }
            }"#,
        ),
        &mut ids,
    );

    assert_eq!(text_at(&entry.context, &["username"]), Some("shop_abc"));
    assert_eq!(text_at(&entry.context, &["stream_url"]), Some("[redacted]"));
    assert!(matches!(get(&entry.context, "has_stream_url"), Some(JsonValue::Bool(true))));
    assert_eq!(text_at(&entry.context, &["cookies_json"]), Some("[redacted]"));
    assert_eq!(
        text_at(&entry.context, &["nested", "authorization"]),
        Some("[redacted]")
    );
    assert_eq!(
        text_at(&entry.context, &["nested", "reason"]),
        Some("port_missing")
    );
    assert_ne!(
        text_at(&entry.context, &["stream_url"]),
        Some("https://example.com/live.flv")
    );
    assert_ne!(text_at(&entry.context, &["cookies_json"]), Some("very-secret"));
    assert_ne!(
        text_at(&entry.context, &["nested", "authorization"]),
        Some("Bearer secret")
    );
}

#[test]
fn format_terminal_entry_includes_structured_runtime_context() {
    let mut ids = LogIdSequence::new();
    let entry = FlowRuntimeLogEntry::new(
        7,
        Some(42),
        Some("rec-42-a1b2"),
        "record",
        "handoff_failed",
        FlowRuntimeLogLevel::Warn,
        Some("runtime.handoff_failed"),
        "Runtime handoff failed",
        &context_json(
            r#"{
                "username": "shop_abc",
                "active_flow_run_id": 42,
                "reason": "port_missing",
                "stream_url": "https://example.com/live.flv"
            }"#,
        ),
        &mut ids,
    );

    let formatted = format_terminal_entry(&entry);

    assert!(formatted.starts_with("flow_runtime {"));
    assert!(formatted.contains("\"flow_id\":7"));
    assert!(formatted.contains("\"flow_run_id\":42"));
    assert!(formatted.contains("\"stage\":\"record\""));
    assert!(formatted.contains("\"event\":\"handoff_failed\""));
    assert!(formatted.contains("\"level\":\"warn\""));
    assert!(formatted.contains("\"external_recording_id\":\"rec-42-a1b2\""));
    assert!(formatted.contains("\"reason\":\"port_missing\""));
    assert!(formatted.contains("\"stream_url\":\"[redacted]\""));
}

#[test]
fn sensitive_keys_are_recognized_in_any_case() {
    assert!(is_sensitive_context_key("X-Auth-TOKEN"));
    assert!(is_sensitive_context_key("Proxy_URL"));
    assert!(is_sensitive_context_key("db_password"));
    assert!(!is_sensitive_context_key("has_stream_url"));
    assert!(!is_sensitive_context_key("username"));
    assert_eq!(level_str(FlowRuntimeLogLevel::Error), "error");
}

#[test]
fn redaction_is_idempotent_and_reaches_into_arrays() {
    let value = context_json(r#"[{"secret_key":"x"},{"inner":[{"cookie":"y"}]}]"#);
    let once = redact_sensitive_context(&value);
    let twice = redact_sensitive_context(&once);
    assert_eq!(json_to_string(&once), json_to_string(&twice));
    assert_eq!(
        json_to_string(&once),
        r#"[{"secret_key":"[redacted]"},{"inner":[{"cookie":"[redacted]"}]}]"#
    );
}

fn entry_for(flow_id: i64, message: &str, sequence: u64) -> FlowRuntimeLogEntry {
    FlowRuntimeLogEntry::new_at(
        flow_id,
        None,
        None,
        "runtime",
        "tick",
        FlowRuntimeLogLevel::Info,
        None,
        message,
        &context_json("{}"),
        "2026-01-01T00:00:00.000+07:00".to_string(),
        sequence,
    )
}

#[test]
fn runtime_logs_are_selected_by_flow_then_limited_to_the_latest() {
    let all = || vec![entry_for(1, "a", 1), entry_for(2, "b", 2), entry_for(1, "c", 3), entry_for(1, "d", 4)];
    let messages = |v: Vec<FlowRuntimeLogEntry>| v.into_iter().map(|e| e.message).collect::<Vec<_>>();

    assert_eq!(messages(select_runtime_logs(all(), Some(1), None)), vec!["a", "c", "d"]);
    assert_eq!(messages(select_runtime_logs(all(), Some(1), Some(2))), vec!["c", "d"]);
    assert_eq!(messages(select_runtime_logs(all(), None, Some(3))), vec!["b", "c", "d"]);
    assert!(select_runtime_logs(all(), None, Some(0)).is_empty());
    assert!(select_runtime_logs(all(), Some(9), None).is_empty());
}

#[test]
fn buffer_after_many_pushes_keeps_the_last_cap_in_order() {
    let mut buffer = FlowRuntimeLogBuffer::new(3);
    for i in 0..10u64 {
        buffer.push(entry_for(1, &format!("m{i}"), i));
    }
    let messages: Vec<String> = buffer.entries().into_iter().map(|e| e.message).collect();
    assert_eq!(messages, vec!["m7", "m8", "m9"]);
}
