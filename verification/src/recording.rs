//! Recording runtime: the inputs of a recording, the ffmpeg command line,
//! output paths and recording ids, and how recording rows change status.
use vstd::prelude::*;
use crate::session::{opt_seq, opt_str_seq};
use crate::text::{
    append_chars, append_str, chars_eq_str, dec_int, ends_with_str, fmt_i64, starts_with,
    starts_with_str, str_chars, string_from, string_of, trim, trim_str,
};

verus! {

#[derive(Debug, Clone, PartialEq, Eq)]
pub struct RecordingStartInput {
    pub account_id: i64,
    pub flow_id: i64,
    pub flow_run_id: i64,
    pub room_id: String,
    pub stream_url: String,
    pub max_duration_seconds: i64,
    pub external_recording_id: String,
    pub storage_root: String,
}

#[derive(Debug, Clone, Copy, PartialEq, Eq)]
pub enum RecordingOutcome {
    Success,
    Failed,
    Cancelled,
}

#[derive(Debug, Clone, PartialEq, Eq)]
pub struct RecordingFinishInput {
    pub account_id: i64,
    pub flow_id: i64,
    pub flow_run_id: i64,
    pub external_recording_id: String,
    pub room_id: String,
    pub file_path: Option<String>,
    pub error_message: Option<String>,
    pub duration_seconds: i64,
    pub file_size_bytes: i64,
    pub outcome: RecordingOutcome,
}

#[derive(Debug, Clone, PartialEq, Eq)]
pub struct RecordingExecution {
    pub start: RecordingStartInput,
    pub output_path: String,
}

#[derive(Debug, Clone, PartialEq, Eq)]
pub struct RustRecordingUpsertInput {
    pub account_id: i64,
    pub flow_id: i64,
    pub flow_run_id: Option<i64>,
    pub external_recording_id: String,
    pub runtime_status: String,
    pub room_id: Option<String>,
    pub file_path: Option<String>,
    pub error_message: Option<String>,
    pub duration_seconds: i64,
    pub file_size_bytes: i64,
}

/// A copy of a start input.
pub fn clone_start_input(input: &RecordingStartInput) -> (r: RecordingStartInput)
    ensures
        r == *input,
{
    RecordingStartInput {
        account_id: input.account_id,
        flow_id: input.flow_id,
        flow_run_id: input.flow_run_id,
        room_id: input.room_id.clone(),
        stream_url: input.stream_url.clone(),
        max_duration_seconds: input.max_duration_seconds,
        external_recording_id: input.external_recording_id.clone(),
        storage_root: input.storage_root.clone(),
    }
}

/// `ffmpeg -y -i {stream_url} -t {max_duration_seconds} {output_path}`.
pub open spec fn ffmpeg_argv(input: RecordingStartInput, output_path: Seq<char>) -> Seq<Seq<char>> {
    seq!["-y"@, "-i"@, input.stream_url@, "-t"@, dec_int(input.max_duration_seconds as int), output_path]
}

pub fn build_ffmpeg_argv(input: &RecordingStartInput, output_path: &str) -> (r: Vec<String>)
    ensures
        r@.map_values(|s: String| s@) == ffmpeg_argv(*input, output_path@),
{
    let dur = fmt_i64(input.max_duration_seconds);
    let v: Vec<String> = vec![
        string_of("-y"),
        string_of("-i"),
        input.stream_url.clone(),
        string_of("-t"),
        string_from(dur.as_slice()),
        string_of(output_path),
    ];
    assert(v@.map_values(|s: String| s@) =~= ffmpeg_argv(*input, output_path@));
    v
}

/// `Path::join` on Unix: an absolute component replaces the base; otherwise
/// the two are joined by one `/` unless the base is empty or already ends in one.
pub open spec fn path_join(base: Seq<char>, comp: Seq<char>) -> Seq<char> {
    if comp.len() > 0 && comp[0] == '/' {
        comp
    } else if base.len() == 0 || base.last() == '/' {
        base + comp
    } else {
        base + "/"@ + comp
    }
}

pub fn join_path(base: &[char], comp: &[char]) -> (r: Vec<char>)
    ensures
        r@ == path_join(base@, comp@),
{
    let mut out: Vec<char> = Vec::new();
    if comp.len() > 0 && comp[0] == '/' {
        append_chars(&mut out, comp);
        assert(out@ =~= comp@);
        return out;
    }
    append_chars(&mut out, base);
    if !(base.len() == 0 || base[base.len() - 1] == '/') {
        append_str(&mut out, "/");
    }
    append_chars(&mut out, comp);
    out
}

/// `flow-{flow_id}-run-{flow_run_id}-{external_recording_id}.mp4`.
pub open spec fn recording_file_name(input: RecordingStartInput) -> Seq<char> {
    "flow-"@ + dec_int(input.flow_id as int) + "-run-"@ + dec_int(input.flow_run_id as int) + "-"@
        + input.external_recording_id@ + ".mp4"@
}

/// `{storage_root}/records/{file name}`: recordings are filed under the
/// storage root's `records` directory.
pub open spec fn recording_output_path(input: RecordingStartInput) -> Seq<char> {
    path_join(path_join(input.storage_root@, "records"@), recording_file_name(input))
}

/// The output path of a recording, under its storage root's `records` directory.
pub fn build_recording_output_path(input: &RecordingStartInput) -> (r: String)
    ensures
        r@ == recording_output_path(*input),
{
    let mut name: Vec<char> = Vec::new();
    append_str(&mut name, "flow-");
    append_chars(&mut name, fmt_i64(input.flow_id).as_slice());
    append_str(&mut name, "-run-");
    append_chars(&mut name, fmt_i64(input.flow_run_id).as_slice());
    append_str(&mut name, "-");
    append_str(&mut name, input.external_recording_id.as_str());
    append_str(&mut name, ".mp4");
    let dir = join_path(str_chars(input.storage_root.as_str()).as_slice(), str_chars("records").as_slice());
    let full = join_path(dir.as_slice(), name.as_slice());
    string_from(full.as_slice())
}

/// The execution of a recording: its input and its output path.
pub fn build_recording_execution(input: &RecordingStartInput) -> (r: RecordingExecution)
    ensures
        r.start == *input,
        r.output_path@ == recording_output_path(*input),
{
    RecordingExecution { start: clone_start_input(input), output_path: build_recording_output_path(input) }
}

/// `rust-recording-{flow_run_id}-{timestamp}`.
pub open spec fn external_recording_id_spec(flow_run_id: int, timestamp: Seq<char>) -> Seq<char> {
    "rust-recording-"@ + dec_int(flow_run_id) + "-"@ + timestamp
}

pub fn external_recording_id_at(flow_run_id: i64, timestamp: &str) -> (r: String)
    ensures
        r@ == external_recording_id_spec(flow_run_id as int, timestamp@),
{
    let mut out: Vec<char> = Vec::new();
    append_str(&mut out, "rust-recording-");
    append_chars(&mut out, fmt_i64(flow_run_id).as_slice());
    append_str(&mut out, "-");
    append_str(&mut out, timestamp);
    string_from(out.as_slice())
}

/// A fresh recording id for a flow run, stamped with the current UTC+7 time.
pub fn generate_external_recording_id(flow_run_id: i64) -> (r: String)
    ensures
        exists|ts: Seq<char>| r@ == external_recording_id_spec(flow_run_id as int, ts),
{
    let ts = crate::time_hcm::now_timestamp_hcm();
    external_recording_id_at(flow_run_id, ts.as_str())
}

// ---------------------------------------------------------------------------
// Recording row statuses
// ---------------------------------------------------------------------------
/// The recording row status for a runtime status (compared after trimming).
pub open spec fn rust_status_spec(s: Seq<char>) -> Seq<char> {
    let t = trim(s);
    if t == "pending"@ || t == "recording"@ {
        "recording"@
    } else if t == "completed"@ || t == "stopped"@ {
        "done"@
    } else if t == "cancelled"@ {
        "cancelled"@
    } else if t == "error"@ || t == "failed"@ {
        "error"@
    } else {
        "recording"@
    }
}

pub fn map_rust_recording_status(runtime_status: &str) -> (r: &'static str)
    ensures
        r@ == rust_status_spec(runtime_status@),
{
    let t = trim_str(runtime_status);
    let s = t.as_slice();
    if chars_eq_str(s, "pending") || chars_eq_str(s, "recording") {
        "recording"
    } else if chars_eq_str(s, "completed") || chars_eq_str(s, "stopped") {
        "done"
    } else if chars_eq_str(s, "cancelled") {
        "cancelled"
    } else if chars_eq_str(s, "error") || chars_eq_str(s, "failed") {
        "error"
    } else {
        "recording"
    }
}

/// The recording row status for a status reported by an external recorder (not trimmed).
pub open spec fn external_status_spec(s: Seq<char>) -> Seq<char> {
    if s == "completed"@ || s == "stopped"@ {
        "done"@
    } else if s == "error"@ {
        "error"@
    } else if s == "processing"@ {
        "processing"@
    } else {
        "recording"@
    }
}

pub fn map_external_recording_status(status: &str) -> (r: &'static str)
    ensures
        r@ == external_status_spec(status@),
{
    let c = str_chars(status);
    let s = c.as_slice();
    if chars_eq_str(s, "completed") || chars_eq_str(s, "stopped") {
        "done"
    } else if chars_eq_str(s, "error") {
        "error"
    } else if chars_eq_str(s, "processing") {
        "processing"
    } else {
        "recording"
    }
}

/// Statuses after which a recording has ended.
pub open spec fn is_terminal_status(s: Seq<char>) -> bool {
    s == "done"@ || s == "error"@ || s == "cancelled"@
}

/// Statuses a stored row never leaves once it holds them.
pub open spec fn is_settled_status(s: Seq<char>) -> bool {
    s == "done"@ || s == "error"@
}

/// A non-blank message.
pub open spec fn usable_message(m: Option<Seq<char>>) -> bool {
    m matches Some(t) && trim(t).len() > 0
}

/// How an upsert changes an existing recording row.
pub struct RecordingRowUpdate {
    pub status: String,
    pub error_message: Option<String>,
    pub set_ended_at: bool,
}

/// The status an existing row takes: a settled row keeps its status.
pub open spec fn next_status_spec(existing: Seq<char>, runtime_status: Seq<char>) -> Seq<char> {
    if is_settled_status(existing) {
        existing
    } else {
        rust_status_spec(runtime_status)
    }
}

/// The error message an existing row takes: a settled row keeps its message
/// unless a new terminal update brings a non-blank one.
pub open spec fn next_error_spec(existing_status: Seq<char>, existing_error: Option<Seq<char>>, runtime_status: Seq<char>, input_error: Option<Seq<char>>) -> Option<Seq<char>> {
    let was = is_settled_status(existing_status);
    let is = is_terminal_status(rust_status_spec(runtime_status));
    if was {
        if is && usable_message(input_error) {
            input_error
        } else {
            existing_error
        }
    } else {
        input_error
    }
}

fn is_blank(s: &str) -> (r: bool)
    ensures
        r == (trim(s@).len() == 0),
{
    trim_str(s).len() == 0
}

/// The update an upsert applies to an existing recording row.
pub fn plan_recording_update(existing_status: &str, existing_has_ended_at: bool, existing_error: Option<&str>, runtime_status: &str, input_error: Option<&str>) -> (r: RecordingRowUpdate)
    ensures
        r.status@ == next_status_spec(existing_status@, runtime_status@),
        opt_seq(r.error_message) == next_error_spec(existing_status@, opt_str_seq(existing_error), runtime_status@, opt_str_seq(input_error)),
        r.set_ended_at == (existing_has_ended_at || is_terminal_status(rust_status_spec(runtime_status@))),
{
    let mapped = map_rust_recording_status(runtime_status);
    let is_terminal = str_eq_lit(mapped, "done") || str_eq_lit(mapped, "error") || str_eq_lit(mapped, "cancelled");
    let was_terminal = str_eq_lit(existing_status, "done") || str_eq_lit(existing_status, "error");
    let status = if was_terminal {
        string_of(existing_status)
    } else {
        string_of(mapped)
    };
    let usable = match input_error {
        Some(m) => !is_blank(m),
        None => false,
    };
    let chosen: Option<&str> = if was_terminal {
        if is_terminal && usable {
            input_error
        } else {
            existing_error
        }
    } else {
        input_error
    };
    RecordingRowUpdate {
        status,
        error_message: crate::session::opt_str_to_string(chosen),
        set_ended_at: existing_has_ended_at || is_terminal,
    }
}

fn str_eq_lit(a: &str, b: &str) -> (r: bool)
    ensures
        r == (a@ == b@),
{
    crate::text::str_eq(a, b)
}

/// A new recording row: its status and whether it starts out ended.
pub fn plan_recording_insert(runtime_status: &str) -> (r: (&'static str, bool))
    ensures
        r.0@ == rust_status_spec(runtime_status@),
        r.1 == is_terminal_status(rust_status_spec(runtime_status@)),
{
    let mapped = map_rust_recording_status(runtime_status);
    let terminal = str_eq_lit(mapped, "done") || str_eq_lit(mapped, "error") || str_eq_lit(mapped, "cancelled");
    (mapped, terminal)
}

/// An upsert never moves a `done` or `error` row to another status, whatever update arrives late.
pub proof fn law_settled_rows_do_not_regress(existing: Seq<char>, runtime_status: Seq<char>)
    requires
        is_settled_status(existing),
    ensures
        next_status_spec(existing, runtime_status) == existing,
{
}

/// A settled row keeps its error message until a terminal update brings a non-blank one.
pub proof fn law_settled_error_message_kept(existing: Seq<char>, existing_error: Option<Seq<char>>, runtime_status: Seq<char>, input_error: Option<Seq<char>>)
    requires
        is_settled_status(existing),
        !(is_terminal_status(rust_status_spec(runtime_status)) && usable_message(input_error)),
    ensures
        next_error_spec(existing, existing_error, runtime_status, input_error) == existing_error,
{
}

/// The runtime status of a finished recording: `completed`, `error` or `cancelled`.
pub open spec fn outcome_status(o: RecordingOutcome) -> Seq<char> {
    match o {
        RecordingOutcome::Success => "completed"@,
        RecordingOutcome::Failed => "error"@,
        RecordingOutcome::Cancelled => "cancelled"@,
    }
}

/// The upsert that records a finished recording.
pub fn finish_upsert_input(input: &RecordingFinishInput) -> (r: RustRecordingUpsertInput)
    ensures
        r.account_id == input.account_id,
        r.flow_id == input.flow_id,
        r.flow_run_id == Some(input.flow_run_id),
        r.external_recording_id@ == input.external_recording_id@,
        r.runtime_status@ == outcome_status(input.outcome),
        opt_seq(r.room_id) == Some(input.room_id@),
        r.file_path == input.file_path,
        r.error_message == input.error_message,
        r.duration_seconds == input.duration_seconds,
        r.file_size_bytes == input.file_size_bytes,
{
    let status = match input.outcome {
        RecordingOutcome::Success => "completed",
        RecordingOutcome::Failed => "error",
        RecordingOutcome::Cancelled => "cancelled",
    };
    RustRecordingUpsertInput {
        account_id: input.account_id,
        flow_id: input.flow_id,
        flow_run_id: Some(input.flow_run_id),
        external_recording_id: input.external_recording_id.clone(),
        runtime_status: string_of(status),
        room_id: Some(input.room_id.clone()),
        file_path: input.file_path.clone(),
        error_message: input.error_message.clone(),
        duration_seconds: input.duration_seconds,
        file_size_bytes: input.file_size_bytes,
    }
}

/// The upsert that opens a recording row for a started recording.
pub fn start_upsert_input(input: &RecordingStartInput, output_path: &str) -> (r: RustRecordingUpsertInput)
    ensures
        r.account_id == input.account_id,
        r.flow_id == input.flow_id,
        r.flow_run_id == Some(input.flow_run_id),
        r.external_recording_id@ == input.external_recording_id@,
        r.runtime_status@ == "recording"@,
        opt_seq(r.room_id) == Some(input.room_id@),
        opt_seq(r.file_path) == Some(output_path@),
        r.error_message is None,
        r.duration_seconds == 0,
        r.file_size_bytes == 0,
{
    RustRecordingUpsertInput {
        account_id: input.account_id,
        flow_id: input.flow_id,
        flow_run_id: Some(input.flow_run_id),
        external_recording_id: input.external_recording_id.clone(),
        runtime_status: string_of("recording"),
        room_id: Some(input.room_id.clone()),
        file_path: Some(string_of(output_path)),
        error_message: None,
        duration_seconds: 0,
        file_size_bytes: 0,
    }
}

/// Whether a status from an external recorder marks the row ended.
pub fn external_status_ends_recording(mapped: &str) -> (r: bool)
    ensures
        r == (mapped@ == "done"@ || mapped@ == "error"@ || mapped@ == "processing"@),
{
    str_eq_lit(mapped, "done") || str_eq_lit(mapped, "error") || str_eq_lit(mapped, "processing")
}

// ---------------------------------------------------------------------------
// Which columns of an existing row an update keeps
// ---------------------------------------------------------------------------
/// The columns of a recording row that an update may keep rather than replace.
#[derive(Debug, Clone, PartialEq, Eq)]
pub struct RecordingRowColumns {
    pub room_id: Option<String>,
    pub file_path: Option<String>,
    pub error_message: Option<String>,
    pub file_size_bytes: i64,
    pub flow_id: Option<i64>,
    pub flow_run_id: Option<i64>,
}

/// The first value that is there (SQL `COALESCE`).
pub open spec fn first_present<T>(a: Option<T>, b: Option<T>) -> Option<T> {
    match a {
        Some(x) => Some(x),
        None => b,
    }
}

fn first_present_str(a: Option<&str>, b: &Option<String>) -> (r: Option<String>)
    ensures
        opt_seq(r) == first_present(opt_str_seq(a), opt_seq(*b)),
{
    match a {
        Some(x) => Some(string_of(x)),
        None => match b {
            Some(y) => Some(y.clone()),
            None => None,
        },
    }
}

/// The columns after a runtime update: the room stays once known, the file
/// path is replaced only by a new one, the size is the reported one, and the
/// error is the one `plan_recording_update` chose; the flow and flow run are
/// bound only where none was.
pub fn runtime_update_columns(
    current: &RecordingRowColumns,
    input: &RustRecordingUpsertInput,
    planned_error: &Option<String>,
) -> (r: RecordingRowColumns)
    ensures
        opt_seq(r.room_id) == first_present(opt_seq(current.room_id), opt_seq(input.room_id)),
        opt_seq(r.file_path) == first_present(opt_seq(input.file_path), opt_seq(current.file_path)),
        opt_seq(r.error_message) == opt_seq(*planned_error),
        r.file_size_bytes == input.file_size_bytes,
        r.flow_id == first_present(current.flow_id, Some(input.flow_id)),
        r.flow_run_id == first_present(current.flow_run_id, input.flow_run_id),
{
    let room: Option<&str> = match &current.room_id {
        Some(x) => Some(x.as_str()),
        None => None,
    };
    let new_path: Option<&str> = match &input.file_path {
        Some(x) => Some(x.as_str()),
        None => None,
    };
    RecordingRowColumns {
        room_id: first_present_str(room, &input.room_id),
        file_path: first_present_str(new_path, &current.file_path),
        error_message: match planned_error {
            Some(e) => Some(e.clone()),
            None => None,
        },
        file_size_bytes: input.file_size_bytes,
        flow_id: match current.flow_id {
            Some(f) => Some(f),
            None => Some(input.flow_id),
        },
        flow_run_id: match current.flow_run_id {
            Some(f) => Some(f),
            None => input.flow_run_id,
        },
    }
}

/// The columns after an update reported by an external recorder: a positive
/// size, a file path and an error replace the old ones; the flow and flow run
/// are bound only where none was; the room stays.
pub fn external_sync_columns(
    current: &RecordingRowColumns,
    file_size_bytes: i64,
    file_path: Option<&str>,
    error_message: Option<&str>,
    flow_id: Option<i64>,
    flow_run_id: Option<i64>,
) -> (r: RecordingRowColumns)
    ensures
        opt_seq(r.room_id) == opt_seq(current.room_id),
        opt_seq(r.file_path) == first_present(opt_str_seq(file_path), opt_seq(current.file_path)),
        opt_seq(r.error_message) == first_present(opt_str_seq(error_message), opt_seq(current.error_message)),
        r.file_size_bytes == (if file_size_bytes > 0 { file_size_bytes } else { current.file_size_bytes }),
        r.flow_id == first_present(current.flow_id, flow_id),
        r.flow_run_id == first_present(current.flow_run_id, flow_run_id),
{
    RecordingRowColumns {
        room_id: match &current.room_id {
            Some(x) => Some(x.clone()),
            None => None,
        },
        file_path: first_present_str(file_path, &current.file_path),
        error_message: first_present_str(error_message, &current.error_message),
        file_size_bytes: if file_size_bytes > 0 { file_size_bytes } else { current.file_size_bytes },
        flow_id: match current.flow_id {
            Some(f) => Some(f),
            None => flow_id,
        },
        flow_run_id: match current.flow_run_id {
            Some(f) => Some(f),
            None => flow_run_id,
        },
    }
}

/// An externally reported status settles the row (done or error) exactly
/// when the recorder says it completed, stopped or failed with `error`; it
/// ends the recording exactly when it is one of those or `processing`; and on
/// completed, stopped and error the external and runtime mappings agree.
pub proof fn law_external_status_settles_finished_recordings(s: Seq<char>)
    ensures
        is_settled_status(external_status_spec(s)) <==> (s == "completed"@ || s == "stopped"@ || s == "error"@),
        (external_status_spec(s) == "done"@ || external_status_spec(s) == "error"@
            || external_status_spec(s) == "processing"@)
            <==> (s == "completed"@ || s == "stopped"@ || s == "error"@ || s == "processing"@),
        (s == "completed"@ || s == "stopped"@ || s == "error"@) ==> external_status_spec(s) == rust_status_spec(s),
{
    reveal_strlit("done");
    reveal_strlit("error");
    reveal_strlit("processing");
    reveal_strlit("recording");
    reveal_strlit("completed");
    reveal_strlit("stopped");
    assert("done"@.len() == 4 && "error"@.len() == 5 && "processing"@.len() == 10 && "recording"@.len() == 9);
    assert("done"@ != "recording"@ && "error"@ != "recording"@ && "processing"@ != "recording"@);
    assert("processing"@ != "done"@ && "processing"@ != "error"@);
    if s == "completed"@ || s == "stopped"@ || s == "error"@ {
        assert(!crate::text::is_ws(s[0]));
        assert(!crate::text::is_ws(s.last()));
        assert(crate::text::trim_start(s) == s);
        assert(crate::text::trim_end(s) == s);
        assert(trim(s) == s);
        reveal_strlit("pending");
        reveal_strlit("cancelled");
        reveal_strlit("failed");
        assert("completed"@[0] != "recording"@[0] && "completed"@[0] != "pending"@[0]);
        assert("stopped"@[0] != "pending"@[0] && "stopped"@.len() != "recording"@.len());
        assert("error"@.len() != "pending"@.len() && "error"@.len() != "recording"@.len());
        assert("error"@.len() != "completed"@.len() && "error"@.len() != "stopped"@.len());
        assert("error"@.len() != "cancelled"@.len());
        assert("completed"@ != "pending"@ && "completed"@ != "recording"@);
        assert("stopped"@ != "pending"@ && "stopped"@ != "recording"@);
        assert("error"@ != "pending"@ && "error"@ != "recording"@ && "error"@ != "completed"@);
        assert("error"@ != "stopped"@ && "error"@ != "cancelled"@);
    }
}

} // verus!
