use tikclip::flows::{
    check_flow_id, check_flow_name, check_trigger_input, downstream_failed_update,
    flow_list_account_username, hint_node_key, live_seen_update, merge_runtime_fields,
    recording_finished_update, recording_outcome, recording_started_update,
    watching_again_update, TriggerStartLiveDetectedInput, UpdateFlowRuntimeByAccountInput,
};
use tikclip::flows::{flow_seed_limits, int_setting_or_default, seed_start_config, stt_quantize_choice, FlowSeedLimits};
use tikclip::json::{as_i64, get, json_to_string};
use tikclip::recording::RecordingOutcome;

fn update(
    status: Option<&str>,
    node: Option<&str>,
    live: Option<&str>,
    run: Option<&str>,
    error: Option<&str>,
) -> UpdateFlowRuntimeByAccountInput {
    UpdateFlowRuntimeByAccountInput {
        status: status.map(str::to_string),
        current_node: node.map(str::to_string),
        last_live_at: live.map(str::to_string),
        last_run_at: run.map(str::to_string),
        last_error: error.map(str::to_string),
    }
}

#[test]
fn runtime_updates_for_each_stage() {
    assert_eq!(live_seen_update("t0"), update(None, None, Some("t0"), None, Some("")));
    assert_eq!(
        recording_started_update("t0", "t1"),
        update(Some("recording"), Some("record"), Some("t0"), Some("t1"), Some(""))
    );
    assert_eq!(
        recording_finished_update(RecordingOutcome::Success, None, "t2"),
        update(Some("processing"), Some("clip"), None, Some("t2"), Some(""))
    );
    assert_eq!(
        recording_finished_update(RecordingOutcome::Cancelled, Some("x"), "t2"),
        update(Some("disabled"), Some("record"), None, Some("t2"), Some("Recording cancelled"))
    );
    assert_eq!(
        recording_finished_update(RecordingOutcome::Failed, None, "t2"),
        update(Some("error"), Some("record"), None, Some("t2"), Some("Recording failed"))
    );
    assert_eq!(
        recording_finished_update(RecordingOutcome::Failed, Some("disk full"), "t2"),
        update(Some("error"), Some("record"), None, Some("t2"), Some("disk full"))
    );
    assert_eq!(
        downstream_failed_update("caption", "boom", "t3"),
        update(Some("error"), Some("caption"), None, Some("t3"), Some("boom"))
    );
    assert_eq!(
        watching_again_update("t4"),
        update(Some("watching"), Some("start"), None, Some("t4"), Some(""))
    );
}

#[test]
fn cancel_messages_mark_cancelled_outcome() {
    assert_eq!(recording_outcome(true, Some("Recording cancelled")), RecordingOutcome::Success);
    assert_eq!(recording_outcome(false, Some(" Recording cancelled ")), RecordingOutcome::Cancelled);
    assert_eq!(recording_outcome(false, Some("Cancelled")), RecordingOutcome::Cancelled);
    assert_eq!(recording_outcome(false, Some("boom")), RecordingOutcome::Failed);
    assert_eq!(recording_outcome(false, None), RecordingOutcome::Failed);
}

#[test]
fn runtime_fields_are_patched_into_start_config() {
    let merged = merge_runtime_fields(
        r#"{"username":"a","last_error":"old"}"#,
        "draft_config_json",
        Some("t1"),
        None,
        Some("  "),
    )
    .unwrap();
    assert_eq!(merged, r#"{"last_live_at":"t1","username":"a"}"#);

    let from_garbage = merge_runtime_fields("not json", "c", None, Some(" t2 "), None).unwrap();
    assert_eq!(from_garbage, r#"{"last_run_at":"t2"}"#);

    assert_eq!(
        merge_runtime_fields("[1]", "published_config_json", None, None, None).unwrap_err(),
        "start published_config_json must be a JSON object"
    );
}

#[test]
fn flow_names_and_ids_are_checked() {
    assert_eq!(check_flow_name("  My flow ").unwrap(), "My flow");
    assert_eq!(check_flow_name("   ").unwrap_err(), "name is required");
    assert!(check_flow_id(1).is_ok());
    assert_eq!(check_flow_id(0).unwrap_err(), "flow_id must be positive");
}

#[test]
fn flow_list_prefers_start_username() {
    assert_eq!(flow_list_account_username(Some(" @Shop "), Some("acct")), "Shop");
    assert_eq!(flow_list_account_username(Some(" @ "), Some("acct")), "acct");
    assert_eq!(flow_list_account_username(None, None), "");
}

#[test]
fn hints_name_their_nodes() {
    assert_eq!(hint_node_key("clip_ready"), Some("clip"));
    assert_eq!(hint_node_key("caption_ready"), Some("caption"));
    assert_eq!(hint_node_key("other"), None);
}

#[test]
fn trigger_input_needs_flow_and_room() {
    let mut input = TriggerStartLiveDetectedInput {
        flow_id: 0,
        room_id: "r".to_string(),
        stream_url: Some("u".to_string()),
        viewer_count: Some(5),
    };
    assert_eq!(check_trigger_input(&input).unwrap_err(), "flow_id must be positive");
    input.flow_id = 3;
    input.room_id = "  ".to_string();
    assert_eq!(check_trigger_input(&input).unwrap_err(), "room_id is required");
    input.room_id = "r".to_string();
    let status = check_trigger_input(&input).unwrap();
    assert_eq!(status.room_id, "r");
    assert_eq!(status.stream_url.as_deref(), Some("u"));
    assert_eq!(status.viewer_count, Some(5));
}

#[test]
fn create_flow_seed_start_config_uses_only_current_fields() {
    let start_config = seed_start_config();

    assert!(get(&start_config, "auto_record").is_none());
    assert!(get(&start_config, "watcher_mode").is_none());
    assert_eq!(get(&start_config, "retry_limit").and_then(as_i64), Some(3));
    assert_eq!(
        json_to_string(&start_config),
        r#"{"cookies_json":"","poll_interval_seconds":60,"proxy_url":"","retry_limit":3,"username":"","waf_bypass_enabled":true}"#
    );
}

#[test]
fn seed_limits_follow_settings_with_floors() {
    assert_eq!(
        flow_seed_limits(None, None, None, None),
        FlowSeedLimits {
            record_max_duration_minutes: 5,
            record_stt_num_threads: 4,
            clip_min_duration_sec: 15,
            clip_max_duration_sec: 90,
        }
    );
    assert_eq!(
        flow_seed_limits(Some("0"), Some("x"), Some("40"), Some("20")),
        FlowSeedLimits {
            record_max_duration_minutes: 1,
            record_stt_num_threads: 4,
            clip_min_duration_sec: 40,
            clip_max_duration_sec: 40,
        }
    );
    assert_eq!(int_setting_or_default(Some("-7"), 3), -7);
    assert_eq!(int_setting_or_default(Some("7.5"), 3), 3);
}

#[test]
fn stt_quantize_is_normalized() {
    assert_eq!(stt_quantize_choice(Some(" FLOAT32 ")), "fp32");
    assert_eq!(stt_quantize_choice(Some("fp32")), "fp32");
    assert_eq!(stt_quantize_choice(Some("Int8")), "int8");
    assert_eq!(stt_quantize_choice(Some("q4")), "auto");
    assert_eq!(stt_quantize_choice(None), "auto");
}

#[test]
fn new_flows_get_five_nodes_in_order() {
    assert_eq!(
        tikclip::flows::flow_node_seeds(),
        vec![("start", 1), ("record", 2), ("clip", 3), ("caption", 4), ("upload", 5)]
    );
}
