use std::sync::{Arc, Mutex};
use tikclip::recording::{RecordingFinishInput, RecordingOutcome, RecordingStartInput};
use tikclip::worker::{
    cancel_after_registration, finalize_after_spawn_error, finalize_after_wait,
    finish_input_for_row, finish_input_from_exit, require_storage_root, RecordingFinalizeRow,
    RecordingProcessHandle, RecordingProcessRunner, RecordingRunner,
};

fn start_input() -> RecordingStartInput {
    RecordingStartInput {
        account_id: 9,
        flow_id: 3,
        flow_run_id: 11,
        room_id: "7312345".to_string(),
        stream_url: "https://example.com/live.flv".to_string(),
        max_duration_seconds: 300,
        external_recording_id: "ext-123".to_string(),
        storage_root: "/data/tikclip".to_string(),
    }
}

#[test]
fn recording_runner_from_fn_returns_finish_payload() {
    let input = start_input();
    let runner = RecordingRunner::from_fn(|input: &RecordingStartInput, output_path: &str| {
        Ok(RecordingFinishInput {
            account_id: input.account_id,
            flow_id: input.flow_id,
            flow_run_id: input.flow_run_id,
            external_recording_id: input.external_recording_id.clone(),
            room_id: input.room_id.clone(),
            file_path: Some(output_path.to_string()),
            error_message: None,
            duration_seconds: input.max_duration_seconds,
            file_size_bytes: 7,
            outcome: RecordingOutcome::Success,
        })
    });

    let result = runner.run(&input, "/tmp/out.mp4").expect("runner result");

    assert_eq!(result.file_path.as_deref(), Some("/tmp/out.mp4"));
    assert_eq!(result.outcome, RecordingOutcome::Success);
}

#[test]
fn recording_process_runner_from_fn_supports_cancel_and_wait() {
    let input = start_input();
    let cancelled = Arc::new(Mutex::new(false));
    let cancelled_flag = Arc::clone(&cancelled);
    let runner = RecordingProcessRunner::from_fn(
        move |input: &RecordingStartInput, output_path: &str| {
            let cancelled_for_wait = Arc::clone(&cancelled_flag);
            let cancelled_for_cancel = Arc::clone(&cancelled_flag);
            let output_path = output_path.to_string();
            let input = input.clone();
            let wait = move || {
                let was_cancelled = *cancelled_for_wait.lock().unwrap();
                Ok(RecordingFinishInput {
                    account_id: input.account_id,
                    flow_id: input.flow_id,
                    flow_run_id: input.flow_run_id,
                    external_recording_id: input.external_recording_id.clone(),
                    room_id: input.room_id.clone(),
                    file_path: Some(output_path),
                    error_message: None,
                    duration_seconds: input.max_duration_seconds,
                    file_size_bytes: 0,
                    outcome: if was_cancelled {
                        RecordingOutcome::Cancelled
                    } else {
                        RecordingOutcome::Success
                    },
                })
            };
            let cancel = move || {
                *cancelled_for_cancel.lock().unwrap() = true;
                Ok(())
            };
            Ok(RecordingProcessHandle::from_parts(wait, cancel))
        },
    );

    let handle = runner.spawn(&input, "/tmp/out.mp4").expect("spawn handle");
    handle.cancel().expect("cancel handle");
    let result = handle.wait().expect("wait result");

    assert_eq!(result.outcome, RecordingOutcome::Cancelled);
}

#[test]
fn exited_recorder_reports_success_or_exit_status() {
    let input = start_input();
    let ok = finish_input_from_exit(&input, "/tmp/out.mp4", true, "exit status: 0");
    assert_eq!(ok.outcome, RecordingOutcome::Success);
    assert_eq!(ok.error_message, None);
    assert_eq!(ok.file_path.as_deref(), Some("/tmp/out.mp4"));

    let failed = finish_input_from_exit(&input, "/tmp/out.mp4", false, "exit status: 1");
    assert_eq!(failed.outcome, RecordingOutcome::Failed);
    assert_eq!(
        failed.error_message.as_deref(),
        Some("ffmpeg exited with status exit status: 1")
    );
}

#[test]
fn spawn_error_finalizes_as_failure() {
    let input = start_input();
    let req = finalize_after_spawn_error(&input, "no ffmpeg".to_string());
    assert!(!req.success);
    assert_eq!(req.external_recording_id, "ext-123");
    assert_eq!(req.error_message.as_deref(), Some("no ffmpeg"));
}

#[test]
fn wait_result_finalizes_unless_already_cancelled() {
    let input = start_input();
    let finish = RecordingFinishInput {
        account_id: 9,
        flow_id: 3,
        flow_run_id: 11,
        external_recording_id: "ext-123".to_string(),
        room_id: "7312345".to_string(),
        file_path: None,
        error_message: None,
        duration_seconds: 0,
        file_size_bytes: 0,
        outcome: RecordingOutcome::Cancelled,
    };
    assert_eq!(finalize_after_wait(&input, Ok(finish.clone()), true), None);
    let req = finalize_after_wait(&input, Ok(finish), false).unwrap();
    assert!(!req.success);
    assert_eq!(req.error_message.as_deref(), Some("Recording cancelled"));

    let err = finalize_after_wait(&input, Err("wait failed".to_string()), false).unwrap();
    assert_eq!(err.error_message.as_deref(), Some("wait failed"));
}

#[test]
fn late_registration_cancels_when_cancel_was_requested() {
    assert!(cancel_after_registration(true, None));
    assert!(cancel_after_registration(false, Some(true)));
    assert!(!cancel_after_registration(false, Some(false)));
    assert!(!cancel_after_registration(false, None));
}

#[test]
fn finalized_row_uses_given_room_then_stored_room() {
    let row = RecordingFinalizeRow {
        recording_id: 1,
        account_id: 9,
        flow_id: 3,
        flow_run_id: 11,
        room_id: Some("stored".to_string()),
        file_path: Some("/tmp/a.mp4".to_string()),
    };
    let given = finish_input_for_row(&row, "ext", Some("given"), true, None);
    assert_eq!(given.room_id, "given");
    assert_eq!(given.outcome, RecordingOutcome::Success);
    let stored = finish_input_for_row(&row, "ext", None, false, Some("boom"));
    assert_eq!(stored.room_id, "stored");
    assert_eq!(stored.outcome, RecordingOutcome::Failed);
    assert_eq!(stored.file_path.as_deref(), Some("/tmp/a.mp4"));
}

#[test]
fn storage_root_is_required() {
    assert_eq!(require_storage_root(Some("/data")).unwrap(), "/data");
    assert_eq!(
        require_storage_root(None).unwrap_err(),
        "missing storage_root for recording runtime"
    );
}
