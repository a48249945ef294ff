//! Running a recording: the runners that record or spawn a recorder, what an
//! exited recorder reports, and what the runtime does once it has finished.
use vstd::prelude::*;
use crate::flows::{outcome_spec, recording_outcome};
use crate::recording::{RecordingFinishInput, RecordingOutcome, RecordingStartInput};
use crate::session::{opt_seq, opt_str_seq};
use crate::text::{append_str, str_chars, string_from, string_of};

verus! {

/// Records a stream to a file and reports how it went.
pub struct RecordingRunner<F> {
    pub run_fn: F,
}

impl<F: Fn(&RecordingStartInput, &str) -> Result<RecordingFinishInput, String>> RecordingRunner<F> {
    /// A runner that records with `func`.
    pub fn from_fn(func: F) -> (r: Self)
        ensures
            r.run_fn == func,
    {
        RecordingRunner { run_fn: func }
    }

    /// Records `input` to `output_path`.
    pub fn run(&self, input: &RecordingStartInput, output_path: &str) -> (r: Result<RecordingFinishInput, String>)
        requires
            call_requires(self.run_fn, (input, output_path)),
        ensures
            call_ensures(self.run_fn, (input, output_path), r),
    {
        (self.run_fn)(input, output_path)
    }
}

/// A running recorder: waiting for it gives its report; it can be cancelled.
pub struct RecordingProcessHandle<W, C> {
    pub wait_fn: W,
    pub cancel_fn: C,
}

impl<W: FnOnce() -> Result<RecordingFinishInput, String>, C: Fn() -> Result<(), String>> RecordingProcessHandle<W, C> {
    /// A handle made of its waiter and its canceller.
    pub fn from_parts(wait_fn: W, cancel_fn: C) -> (r: Self)
        ensures
            r.wait_fn == wait_fn,
            r.cancel_fn == cancel_fn,
    {
        RecordingProcessHandle { wait_fn, cancel_fn }
    }

    /// Waits for the recorder to exit and returns its report.
    pub fn wait(self) -> (r: Result<RecordingFinishInput, String>)
        requires
            call_requires(self.wait_fn, ()),
        ensures
            call_ensures(self.wait_fn, (), r),
    {
        (self.wait_fn)()
    }

    /// Stops the recorder.
    pub fn cancel(&self) -> (r: Result<(), String>)
        requires
            call_requires(self.cancel_fn, ()),
        ensures
            call_ensures(self.cancel_fn, (), r),
    {
        (self.cancel_fn)()
    }

    /// The canceller, for whoever must be able to stop the recorder later.
    pub fn cancel_handle(&self) -> (r: &C)
        ensures
            *r == self.cancel_fn,
    {
        &self.cancel_fn
    }
}

/// Starts a recorder in the background.
pub struct RecordingProcessRunner<S> {
    pub spawn_fn: S,
}

impl<S> RecordingProcessRunner<S> {
    /// A runner that starts recorders with `func`.
    pub fn from_fn(func: S) -> (r: Self)
        ensures
            r.spawn_fn == func,
    {
        RecordingProcessRunner { spawn_fn: func }
    }

    /// Starts recording `input` to `output_path`.
    pub fn spawn<H>(&self, input: &RecordingStartInput, output_path: &str) -> (r: Result<H, String>)
        where S: Fn(&RecordingStartInput, &str) -> Result<H, String>,
        requires
            call_requires(self.spawn_fn, (input, output_path)),
        ensures
            call_ensures(self.spawn_fn, (input, output_path), r),
    {
        (self.spawn_fn)(input, output_path)
    }
}

/// What a recorder that exited reports: success when it exited with success,
/// else a failure with `ffmpeg exited with status {status}`.
pub fn finish_input_from_exit(
    input: &RecordingStartInput,
    output_path: &str,
    success: bool,
    status_text: &str,
) -> (r: RecordingFinishInput)
    ensures
        r.account_id == input.account_id,
        r.flow_id == input.flow_id,
        r.flow_run_id == input.flow_run_id,
        r.external_recording_id@ == input.external_recording_id@,
        r.room_id@ == input.room_id@,
        opt_seq(r.file_path) == Some(output_path@),
        r.duration_seconds == input.max_duration_seconds,
        r.file_size_bytes == 0,
        r.outcome == (if success {
            RecordingOutcome::Success
        } else {
            RecordingOutcome::Failed
        }),
        success ==> r.error_message is None,
        !success ==> opt_seq(r.error_message) == Some("ffmpeg exited with status "@ + status_text@),
{
    let error_message = if success {
        None
    } else {
        let mut v = str_chars("ffmpeg exited with status ");
        append_str(&mut v, status_text);
        Some(string_from(v.as_slice()))
    };
    RecordingFinishInput {
        account_id: input.account_id,
        flow_id: input.flow_id,
        flow_run_id: input.flow_run_id,
        external_recording_id: input.external_recording_id.clone(),
        room_id: input.room_id.clone(),
        file_path: Some(string_of(output_path)),
        error_message,
        duration_seconds: input.max_duration_seconds,
        file_size_bytes: 0,
        outcome: if success {
            RecordingOutcome::Success
        } else {
            RecordingOutcome::Failed
        },
    }
}

/// A recording to finalize: by its external id, in a room, with its result.
#[derive(Debug, Clone, PartialEq, Eq)]
pub struct FinalizeRequest {
    pub external_recording_id: String,
    pub room_id: Option<String>,
    pub success: bool,
    pub error_message: Option<String>,
}

/// When the recorder could not be started, the recording fails with the error.
pub fn finalize_after_spawn_error(start: &RecordingStartInput, err: String) -> (r: FinalizeRequest)
    ensures
        r.external_recording_id@ == start.external_recording_id@,
        opt_seq(r.room_id) == Some(start.room_id@),
        !r.success,
        opt_seq(r.error_message) == Some(err@),
{
    FinalizeRequest {
        external_recording_id: start.external_recording_id.clone(),
        room_id: Some(start.room_id.clone()),
        success: false,
        error_message: Some(err),
    }
}

/// A recording whose session was stopped: failed, with no room, as `Recording cancelled`.
pub open spec fn is_cancelled_finish(q: FinalizeRequest, external_recording_id: Seq<char>) -> bool {
    &&& q.external_recording_id@ == external_recording_id
    &&& q.room_id is None
    &&& !q.success
    &&& opt_seq(q.error_message) == Some("Recording cancelled"@)
}

pub fn cancelled_finish(external_recording_id: &String) -> (r: FinalizeRequest)
    ensures
        is_cancelled_finish(r, external_recording_id@),
{
    FinalizeRequest {
        external_recording_id: external_recording_id.clone(),
        room_id: None,
        success: false,
        error_message: Some(string_of("Recording cancelled")),
    }
}

/// Once the recorder has exited: nothing when the recording was cancelled
/// meanwhile (whoever cancelled finalizes it); else its report (a cancelled
/// report with `Recording cancelled`), or the error of waiting.
pub fn finalize_after_wait(
    start: &RecordingStartInput,
    finish: Result<RecordingFinishInput, String>,
    cancelled: bool,
) -> (r: Option<FinalizeRequest>)
    ensures
        cancelled ==> r is None,
        !cancelled ==> r is Some,
        !cancelled ==> match finish {
            Ok(f) => {
                let q = r->Some_0;
                &&& q.external_recording_id@ == f.external_recording_id@
                &&& opt_seq(q.room_id) == Some(f.room_id@)
                &&& q.success == (f.outcome == RecordingOutcome::Success)
                &&& opt_seq(q.error_message) == (if f.outcome == RecordingOutcome::Cancelled {
                    Some("Recording cancelled"@)
                } else {
                    opt_seq(f.error_message)
                })
            },
            Err(e) => {
                let q = r->Some_0;
                &&& q.external_recording_id@ == start.external_recording_id@
                &&& opt_seq(q.room_id) == Some(start.room_id@)
                &&& !q.success
                &&& opt_seq(q.error_message) == Some(e@)
            },
        },
{
    if cancelled {
        return None;
    }
    match finish {
        Ok(f) => {
            let success = match f.outcome {
                RecordingOutcome::Success => true,
                _ => false,
            };
            let error_message = match f.outcome {
                RecordingOutcome::Cancelled => Some(string_of("Recording cancelled")),
                _ => f.error_message,
            };
            Some(FinalizeRequest {
                external_recording_id: f.external_recording_id,
                room_id: Some(f.room_id),
                success,
                error_message,
            })
        },
        Err(e) => Some(finalize_after_spawn_error(start, e)),
    }
}

/// A recorder is stopped as soon as it is registered when its recording was
/// already cancelled.
pub fn cancel_after_registration(cancel_requested: bool, registered_cancelled: Option<bool>) -> (r: bool)
    ensures
        r == (cancel_requested || registered_cancelled == Some(true)),
{
    cancel_requested || match registered_cancelled {
        Some(c) => c,
        None => false,
    }
}

/// The row of a recording being finalized, as stored.
#[derive(Debug, Clone, PartialEq, Eq)]
pub struct RecordingFinalizeRow {
    pub recording_id: i64,
    pub account_id: i64,
    pub flow_id: i64,
    pub flow_run_id: i64,
    pub room_id: Option<String>,
    pub file_path: Option<String>,
}

/// The finish report a finalized row is written with: the given room, else
/// the stored one, else empty; the given error; no size or duration.
pub fn finish_input_for_row(
    row: &RecordingFinalizeRow,
    external_recording_id: &str,
    room_id: Option<&str>,
    success: bool,
    error_message: Option<&str>,
) -> (r: RecordingFinishInput)
    ensures
        r.account_id == row.account_id,
        r.flow_id == row.flow_id,
        r.flow_run_id == row.flow_run_id,
        r.external_recording_id@ == external_recording_id@,
        r.room_id@ == (match room_id {
            Some(x) => x@,
            None => match row.room_id {
                Some(y) => y@,
                None => Seq::<char>::empty(),
            },
        }),
        opt_seq(r.file_path) == opt_seq(row.file_path),
        opt_seq(r.error_message) == opt_str_seq(error_message),
        r.duration_seconds == 0,
        r.file_size_bytes == 0,
        r.outcome == outcome_spec(success, opt_str_seq(error_message)),
{
    RecordingFinishInput {
        account_id: row.account_id,
        flow_id: row.flow_id,
        flow_run_id: row.flow_run_id,
        external_recording_id: string_of(external_recording_id),
        room_id: match room_id {
            Some(x) => string_of(x),
            None => match &row.room_id {
                Some(y) => y.clone(),
                None => String::new(),
            },
        },
        file_path: match &row.file_path {
            Some(p) => Some(p.clone()),
            None => None,
        },
        error_message: crate::session::opt_str_to_string(error_message),
        duration_seconds: 0,
        file_size_bytes: 0,
        outcome: recording_outcome(success, error_message),
    }
}

/// The storage root a recording needs, or the error when the runtime has none.
pub fn require_storage_root(storage_root: Option<&str>) -> (r: Result<String, String>)
    ensures
        match storage_root {
            Some(s) => r matches Ok(x) && x@ == s@,
            None => r matches Err(e) && e@ == "missing storage_root for recording runtime"@,
        },
{
    match storage_root {
        Some(s) => Ok(string_of(s)),
        None => Err(string_of("missing storage_root for recording runtime")),
    }
}

} // verus!
