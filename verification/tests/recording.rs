use tikclip::recording::{
    build_ffmpeg_argv, build_recording_execution, build_recording_output_path,
    external_recording_id_at, finish_upsert_input, generate_external_recording_id,
    map_external_recording_status, map_rust_recording_status, plan_recording_insert,
    plan_recording_update, start_upsert_input, RecordingFinishInput, RecordingOutcome,
    RecordingStartInput, external_sync_columns, runtime_update_columns, RecordingRowColumns,
    RustRecordingUpsertInput,
};

fn recording_start() -> RecordingStartInput {
    RecordingStartInput {
        account_id: 9,
        flow_id: 3,
        flow_run_id: 11,
        room_id: "7312345".to_string(),
        stream_url: "https://example.com/live.flv".to_string(),
        max_duration_seconds: 300,
        external_recording_id: "ext-123".to_string(),
        storage_root: "/data/tikclip".to_string(),
    }
}

#[test]
fn build_ffmpeg_argv_includes_input_duration_and_output_path() {
    let input = recording_start();

    let argv = build_ffmpeg_argv(&input, "/tmp/out.mp4");

    assert_eq!(
        argv,
        vec![
            "-y".to_string(),
            "-i".to_string(),
            "https://example.com/live.flv".to_string(),
            "-t".to_string(),
            "300".to_string(),
            "/tmp/out.mp4".to_string(),
        ]
    );
}

#[test]
fn build_recording_output_path_uses_flow_run_and_external_recording_id() {
    let input = recording_start();

    let path = build_recording_output_path(&input);

    assert!(path.contains("flow-3-run-11-ext-123.mp4"));
    assert_eq!(path, "/data/tikclip/records/flow-3-run-11-ext-123.mp4");
}

#[test]
fn generate_external_recording_id_includes_flow_run_id() {
    let external_id = generate_external_recording_id(11);

    assert!(external_id.starts_with("rust-recording-11-"));
}

#[test]
fn external_recording_id_at_formats_run_and_stamp() {
    assert_eq!(
        external_recording_id_at(-4, "2026-01-02 03:04:05"),
        "rust-recording--4-2026-01-02 03:04:05"
    );
}

#[test]
fn build_recording_execution_uses_output_path_helper() {
    let input = recording_start();

    let execution = build_recording_execution(&input);

    assert_eq!(execution.start.flow_run_id, 11);
    assert_eq!(execution.start, input);
    assert!(execution.output_path.contains("flow-3-run-11-ext-123.mp4"));
}

#[test]
fn map_rust_recording_status_maps_runtime_states_to_db_states() {
    assert_eq!(map_rust_recording_status("pending"), "recording");
    assert_eq!(map_rust_recording_status("recording"), "recording");
    assert_eq!(map_rust_recording_status("completed"), "done");
    assert_eq!(map_rust_recording_status("stopped"), "done");
    assert_eq!(map_rust_recording_status("error"), "error");
}

#[test]
fn map_rust_recording_status_maps_cancelled_to_cancelled() {
    assert_eq!(map_rust_recording_status("cancelled"), "cancelled");
}

#[test]
fn map_rust_recording_status_trims_and_defaults_to_recording() {
    assert_eq!(map_rust_recording_status("  failed "), "error");
    assert_eq!(map_rust_recording_status("whatever"), "recording");
}

#[test]
fn map_external_recording_status_keeps_processing() {
    assert_eq!(map_external_recording_status("processing"), "processing");
    assert_eq!(map_external_recording_status("stopped"), "done");
    assert_eq!(map_external_recording_status("error"), "error");
    assert_eq!(map_external_recording_status(" error"), "recording");
}

#[test]
fn done_row_does_not_regress_on_late_progress_update() {
    let update = plan_recording_update("done", true, None, "recording", None);
    assert_eq!(update.status, "done");
    assert!(update.set_ended_at);
    assert_eq!(update.error_message, None);
}

#[test]
fn terminal_error_message_is_kept_until_a_new_terminal_error() {
    let late = plan_recording_update("error", true, Some("disk full"), "recording", Some("ignored"));
    assert_eq!(late.status, "error");
    assert_eq!(late.error_message.as_deref(), Some("disk full"));

    let blank = plan_recording_update("error", true, Some("disk full"), "error", Some("   "));
    assert_eq!(blank.error_message.as_deref(), Some("disk full"));

    let fresh = plan_recording_update("error", true, Some("disk full"), "error", Some("network lost"));
    assert_eq!(fresh.error_message.as_deref(), Some("network lost"));
}

#[test]
fn completed_or_cancelled_update_sets_ended_at() {
    let done = plan_recording_update("recording", false, None, "completed", None);
    assert_eq!(done.status, "done");
    assert!(done.set_ended_at);

    let cancelled = plan_recording_update("recording", false, None, "cancelled", Some("Recording cancelled"));
    assert_eq!(cancelled.status, "cancelled");
    assert_eq!(cancelled.error_message.as_deref(), Some("Recording cancelled"));
    assert!(cancelled.set_ended_at);

    let progress = plan_recording_update("recording", false, None, "recording", None);
    assert!(!progress.set_ended_at);
}

#[test]
fn insert_plan_marks_terminal_rows_ended() {
    assert_eq!(plan_recording_insert("completed"), ("done", true));
    assert_eq!(plan_recording_insert("pending"), ("recording", false));
}

#[test]
fn upsert_inputs_carry_ownership() {
    let input = recording_start();
    let start = start_upsert_input(&input, "/tmp/out.mp4");
    assert_eq!(start.runtime_status, "recording");
    assert_eq!(start.flow_run_id, Some(11));
    assert_eq!(start.file_path.as_deref(), Some("/tmp/out.mp4"));

    let finish = RecordingFinishInput {
        account_id: 9,
        flow_id: 3,
        flow_run_id: 11,
        external_recording_id: "ext-123".to_string(),
        room_id: "7312345".to_string(),
        file_path: None,
        error_message: Some("boom".to_string()),
        duration_seconds: 5,
        file_size_bytes: 6,
        outcome: RecordingOutcome::Failed,
    };
    let upsert = finish_upsert_input(&finish);
    assert_eq!(upsert.runtime_status, "error");
    assert_eq!(upsert.account_id, 9);
    assert_eq!(upsert.room_id.as_deref(), Some("7312345"));
    assert_eq!(upsert.duration_seconds, 5);
}

/// A recording row as the plans leave it: status, ended, error message.
struct PlannedRow {
    status: String,
    ended: bool,
    error: Option<String>,
}

fn plan_insert_row(runtime_status: &str, error: Option<&str>) -> PlannedRow {
    let (status, ended) = plan_recording_insert(runtime_status);
    PlannedRow { status: status.to_string(), ended, error: error.map(str::to_string) }
}

fn plan_update_row(row: &PlannedRow, runtime_status: &str, error: Option<&str>) -> PlannedRow {
    let update = plan_recording_update(&row.status, row.ended, row.error.as_deref(), runtime_status, error);
    PlannedRow { status: update.status, ended: update.set_ended_at, error: update.error_message }
}

#[test]
fn completed_or_error_recording_sets_ended_at_and_error_message() {
    let row = plan_insert_row("error", Some("ffmpeg failed"));

    assert_eq!(row.status, "error");
    assert!(row.ended);
    assert_eq!(row.error.as_deref(), Some("ffmpeg failed"));
}

#[test]
fn upsert_rust_recording_does_not_regress_done_row_on_late_progress_update() {
    let row = plan_insert_row("completed", None);
    let row = plan_update_row(&row, "recording", None);

    assert_eq!(row.status, "done");
    assert!(row.ended);
}

#[test]
fn upsert_rust_recording_preserves_terminal_error_message_until_new_terminal_error() {
    let row = plan_insert_row("error", Some("ffmpeg failed"));
    let after_progress = plan_update_row(&row, "recording", Some("late progress noise"));
    assert_eq!(after_progress.status, "error");
    assert_eq!(after_progress.error.as_deref(), Some("ffmpeg failed"));

    let after_error = plan_update_row(&after_progress, "error", Some("disk full"));
    assert_eq!(after_error.error.as_deref(), Some("disk full"));
}

#[test]
fn cancelled_rust_recording_sets_terminal_status_and_error_message() {
    let row = plan_insert_row("cancelled", Some("Recording cancelled"));

    assert_eq!(row.status, "cancelled");
    assert!(row.ended);
    assert_eq!(row.error.as_deref(), Some("Recording cancelled"));
}

fn row(room: Option<&str>, path: Option<&str>, error: Option<&str>, size: i64, flow: Option<i64>, run: Option<i64>) -> RecordingRowColumns {
    RecordingRowColumns {
        room_id: room.map(str::to_string),
        file_path: path.map(str::to_string),
        error_message: error.map(str::to_string),
        file_size_bytes: size,
        flow_id: flow,
        flow_run_id: run,
    }
}

#[test]
fn runtime_update_keeps_known_room_path_and_binding() {
    let input = RustRecordingUpsertInput {
        account_id: 9,
        flow_id: 3,
        flow_run_id: Some(11),
        external_recording_id: "ext".to_string(),
        runtime_status: "done".to_string(),
        room_id: Some("new-room".to_string()),
        file_path: None,
        error_message: None,
        duration_seconds: 10,
        file_size_bytes: 0,
    };
    let kept = runtime_update_columns(&row(Some("r1"), Some("/a.mp4"), None, 50, None, Some(7)), &input, &None);
    assert_eq!(kept, row(Some("r1"), Some("/a.mp4"), None, 0, Some(3), Some(7)));
    let filled = runtime_update_columns(&row(None, None, Some("old"), 5, Some(1), None), &input, &Some("e".to_string()));
    assert_eq!(filled, row(Some("new-room"), None, Some("e"), 0, Some(1), Some(11)));
}

#[test]
fn external_sync_replaces_only_what_it_reports() {
    let current = row(Some("r1"), Some("/a.mp4"), Some("old"), 50, None, Some(7));
    assert_eq!(
        external_sync_columns(&current, 0, None, None, Some(3), Some(11)),
        row(Some("r1"), Some("/a.mp4"), Some("old"), 50, Some(3), Some(7))
    );
    assert_eq!(
        external_sync_columns(&current, 80, Some("/b.mp4"), Some("boom"), None, None),
        row(Some("r1"), Some("/b.mp4"), Some("boom"), 80, None, Some(7))
    );
}
