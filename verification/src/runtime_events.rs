//! The runtime events that the registry's decisions log: what each one says
//! and the context it carries. Context objects list their members by name.
use vstd::prelude::*;
use crate::check_live::LiveStatus;
use crate::json::{jview, JsonValue, JsonView};
use crate::logs::{
    is_event, is_recording_event, recording_event, json_bool, json_i64, json_object, json_opt_i64, json_opt_str, json_str, json_u64, opt_int_json,
    opt_str_json, runtime_event, u64_json, FlowRuntimeLogLevel, RuntimeEvent,
};
use crate::manager::FlowRuntimeConfig;
use crate::session::{opt_seq, opt_str_seq};
use crate::flows::{outcome_spec, recording_outcome};
use crate::recording::RecordingOutcome;
use crate::text::string_of;

verus! {

pub open spec fn i64_json(i: i64) -> JsonView {
    opt_int_json(Some(i))
}

// ---------------------------------------------------------------------------
// Sessions and leases
// ---------------------------------------------------------------------------
pub open spec fn lease_conflict_message(reconciling: bool) -> Seq<char> {
    if reconciling {
        "Skipped session reconcile because username lease is already held"@
    } else {
        "Skipped session start because username lease is already held"@
    }
}

/// A session could not start (or be replaced): another flow holds its username.
pub open spec fn is_lease_conflict_event(
    e: RuntimeEvent,
    config: FlowRuntimeConfig,
    owner: i64,
    active_flow_run_id: Option<i64>,
    reconciling: bool,
) -> bool {
    is_event(
        e,
        config.flow_id,
        active_flow_run_id,
        "start"@,
        "lease_conflict"@,
        FlowRuntimeLogLevel::Warn,
        Some("start.username_conflict"@),
        lease_conflict_message(reconciling),
        JsonView::Object(seq![("lease_owner_flow_id"@, i64_json(owner)), ("lookup_key"@, JsonView::Str(config.lookup_key@))]),
    )
}

pub fn lease_conflict_event(
    config: &FlowRuntimeConfig,
    owner: i64,
    active_flow_run_id: Option<i64>,
    reconciling: bool,
) -> (r: RuntimeEvent)
    ensures
        is_lease_conflict_event(r, *config, owner, active_flow_run_id, reconciling),
{
    let mut ms: Vec<(String, JsonValue)> = Vec::new();
    ms.push((string_of("lease_owner_flow_id"), json_i64(owner)));
    ms.push((string_of("lookup_key"), json_str(config.lookup_key.as_str())));
    let ghost m = ms@;
    let ctx = json_object(ms);
    proof {
        assert(crate::json::jview_members(m) =~= seq![
            ("lease_owner_flow_id"@, i64_json(owner)),
            ("lookup_key"@, JsonView::Str(config.lookup_key@)),
        ]);
    }
    let message = if reconciling {
        "Skipped session reconcile because username lease is already held"
    } else {
        "Skipped session start because username lease is already held"
    };
    runtime_event(
        config.flow_id,
        active_flow_run_id,
        "start",
        "lease_conflict",
        FlowRuntimeLogLevel::Warn,
        Some("start.username_conflict"),
        message,
        ctx,
    )
}

/// A started session took its username's lease. A first start logs the key;
/// a replacement also logs the new generation.
pub open spec fn is_lease_acquired_event(
    e: RuntimeEvent,
    config: FlowRuntimeConfig,
    active_flow_run_id: Option<i64>,
    generation: u64,
    reconciling: bool,
) -> bool {
    is_event(
        e,
        config.flow_id,
        active_flow_run_id,
        "start"@,
        "lease_acquired"@,
        FlowRuntimeLogLevel::Info,
        None,
        if reconciling {
            "Acquired username lease for reconciled runtime session"@
        } else {
            "Acquired username lease for runtime session"@
        },
        if reconciling {
            JsonView::Object(seq![("generation"@, u64_json(generation)), ("lookup_key"@, JsonView::Str(config.lookup_key@))])
        } else {
            JsonView::Object(seq![("lookup_key"@, JsonView::Str(config.lookup_key@))])
        },
    )
}

pub fn lease_acquired_event(
    config: &FlowRuntimeConfig,
    active_flow_run_id: Option<i64>,
    generation: u64,
    reconciling: bool,
) -> (r: RuntimeEvent)
    ensures
        is_lease_acquired_event(r, *config, active_flow_run_id, generation, reconciling),
{
    let mut ms: Vec<(String, JsonValue)> = Vec::new();
    if reconciling {
        ms.push((string_of("generation"), json_u64(generation)));
    }
    ms.push((string_of("lookup_key"), json_str(config.lookup_key.as_str())));
    let ghost m = ms@;
    let ctx = json_object(ms);
    proof {
        if reconciling {
            assert(crate::json::jview_members(m) =~= seq![
                ("generation"@, u64_json(generation)),
                ("lookup_key"@, JsonView::Str(config.lookup_key@)),
            ]);
        } else {
            assert(crate::json::jview_members(m) =~= seq![("lookup_key"@, JsonView::Str(config.lookup_key@))]);
        }
    }
    let message = if reconciling {
        "Acquired username lease for reconciled runtime session"
    } else {
        "Acquired username lease for runtime session"
    };
    runtime_event(config.flow_id, active_flow_run_id, "start", "lease_acquired", FlowRuntimeLogLevel::Info, None, message, ctx)
}

/// A session started. A first start logs generation 1, the key and whether
/// a running flow run was restored; a replacement logs its generation and key.
pub open spec fn is_session_started_event(
    e: RuntimeEvent,
    config: FlowRuntimeConfig,
    active_flow_run_id: Option<i64>,
    generation: u64,
    reconciling: bool,
) -> bool {
    is_event(
        e,
        config.flow_id,
        active_flow_run_id,
        "session"@,
        "session_started"@,
        FlowRuntimeLogLevel::Info,
        None,
        if reconciling {
            "Replaced runtime session after reconcile"@
        } else {
            "Started runtime session"@
        },
        if reconciling {
            JsonView::Object(seq![("generation"@, u64_json(generation)), ("lookup_key"@, JsonView::Str(config.lookup_key@))])
        } else {
            JsonView::Object(
                seq![
                    ("generation"@, u64_json(generation)),
                    ("lookup_key"@, JsonView::Str(config.lookup_key@)),
                    ("restored_active_flow_run"@, JsonView::Bool(active_flow_run_id is Some)),
                ],
            )
        },
    )
}

pub fn session_started_event(
    config: &FlowRuntimeConfig,
    active_flow_run_id: Option<i64>,
    generation: u64,
    reconciling: bool,
) -> (r: RuntimeEvent)
    ensures
        is_session_started_event(r, *config, active_flow_run_id, generation, reconciling),
{
    let mut ms: Vec<(String, JsonValue)> = Vec::new();
    ms.push((string_of("generation"), json_u64(generation)));
    ms.push((string_of("lookup_key"), json_str(config.lookup_key.as_str())));
    if !reconciling {
        ms.push((string_of("restored_active_flow_run"), json_bool(active_flow_run_id.is_some())));
    }
    let ghost m = ms@;
    let ctx = json_object(ms);
    proof {
        if reconciling {
            assert(crate::json::jview_members(m) =~= seq![
                ("generation"@, u64_json(generation)),
                ("lookup_key"@, JsonView::Str(config.lookup_key@)),
            ]);
        } else {
            assert(crate::json::jview_members(m) =~= seq![
                ("generation"@, u64_json(generation)),
                ("lookup_key"@, JsonView::Str(config.lookup_key@)),
                ("restored_active_flow_run"@, JsonView::Bool(active_flow_run_id is Some)),
            ]);
        }
    }
    let message = if reconciling {
        "Replaced runtime session after reconcile"
    } else {
        "Started runtime session"
    };
    runtime_event(config.flow_id, active_flow_run_id, "session", "session_started", FlowRuntimeLogLevel::Info, None, message, ctx)
}

// ---------------------------------------------------------------------------
// Live signals
// ---------------------------------------------------------------------------
/// A live room was seen while polling.
pub open spec fn is_live_detected_event(e: RuntimeEvent, flow_id: i64, live: LiveStatus) -> bool {
    is_event(
        e,
        flow_id,
        None,
        "start"@,
        "live_detected"@,
        FlowRuntimeLogLevel::Info,
        None,
        "Detected live room while polling runtime session"@,
        JsonView::Object(
            seq![
                ("has_stream_url"@, JsonView::Bool(live.stream_url is Some)),
                ("room_id"@, JsonView::Str(live.room_id@)),
                ("viewer_count"@, opt_int_json(live.viewer_count)),
            ],
        ),
    )
}

pub fn live_detected_event(flow_id: i64, live: &LiveStatus) -> (r: RuntimeEvent)
    ensures
        is_live_detected_event(r, flow_id, *live),
{
    let mut ms: Vec<(String, JsonValue)> = Vec::new();
    ms.push((string_of("has_stream_url"), json_bool(live.stream_url.is_some())));
    ms.push((string_of("room_id"), json_str(live.room_id.as_str())));
    ms.push((string_of("viewer_count"), json_opt_i64(live.viewer_count)));
    let ghost m = ms@;
    let ctx = json_object(ms);
    proof {
        assert(crate::json::jview_members(m) =~= seq![
            ("has_stream_url"@, JsonView::Bool(live.stream_url is Some)),
            ("room_id"@, JsonView::Str(live.room_id@)),
            ("viewer_count"@, opt_int_json(live.viewer_count)),
        ]);
    }
    runtime_event(
        flow_id,
        None,
        "start",
        "live_detected",
        FlowRuntimeLogLevel::Info,
        None,
        "Detected live room while polling runtime session",
        ctx,
    )
}

/// No run was created: the room's run already completed.
pub open spec fn is_dedupe_event(e: RuntimeEvent, flow_id: i64, live: LiveStatus, last_completed_room_id: Option<String>) -> bool {
    is_event(
        e,
        flow_id,
        None,
        "start"@,
        "run_creation_skipped_dedupe"@,
        FlowRuntimeLogLevel::Info,
        None,
        "Skipped run creation because room was already completed"@,
        JsonView::Object(
            seq![
                ("last_completed_room_id"@, opt_str_json(last_completed_room_id)),
                ("room_id"@, JsonView::Str(live.room_id@)),
            ],
        ),
    )
}

pub fn dedupe_event(flow_id: i64, live: &LiveStatus, last_completed_room_id: &Option<String>) -> (r: RuntimeEvent)
    ensures
        is_dedupe_event(r, flow_id, *live, *last_completed_room_id),
{
    let mut ms: Vec<(String, JsonValue)> = Vec::new();
    ms.push((string_of("last_completed_room_id"), json_opt_str(last_completed_room_id)));
    ms.push((string_of("room_id"), json_str(live.room_id.as_str())));
    let ghost m = ms@;
    let ctx = json_object(ms);
    proof {
        assert(crate::json::jview_members(m) =~= seq![
            ("last_completed_room_id"@, opt_str_json(*last_completed_room_id)),
            ("room_id"@, JsonView::Str(live.room_id@)),
        ]);
    }
    runtime_event(
        flow_id,
        None,
        "start",
        "run_creation_skipped_dedupe",
        FlowRuntimeLogLevel::Info,
        None,
        "Skipped run creation because room was already completed",
        ctx,
    )
}

/// No run was created: the live signal came without a stream URL.
pub open spec fn is_stream_url_missing_event(e: RuntimeEvent, flow_id: i64, live: LiveStatus) -> bool {
    is_event(
        e,
        flow_id,
        None,
        "start"@,
        "stream_url_missing"@,
        FlowRuntimeLogLevel::Warn,
        Some("start.stream_url_missing"@),
        "Skipped run creation because live stream URL is missing"@,
        JsonView::Object(
            seq![("room_id"@, JsonView::Str(live.room_id@)), ("viewer_count"@, opt_int_json(live.viewer_count))],
        ),
    )
}

pub fn stream_url_missing_event(flow_id: i64, live: &LiveStatus) -> (r: RuntimeEvent)
    ensures
        is_stream_url_missing_event(r, flow_id, *live),
{
    let mut ms: Vec<(String, JsonValue)> = Vec::new();
    ms.push((string_of("room_id"), json_str(live.room_id.as_str())));
    ms.push((string_of("viewer_count"), json_opt_i64(live.viewer_count)));
    let ghost m = ms@;
    let ctx = json_object(ms);
    proof {
        assert(crate::json::jview_members(m) =~= seq![
            ("room_id"@, JsonView::Str(live.room_id@)),
            ("viewer_count"@, opt_int_json(live.viewer_count)),
        ]);
    }
    runtime_event(
        flow_id,
        None,
        "start",
        "stream_url_missing",
        FlowRuntimeLogLevel::Warn,
        Some("start.stream_url_missing"),
        "Skipped run creation because live stream URL is missing",
        ctx,
    )
}

// ---------------------------------------------------------------------------
// Offline sources and restarts
// ---------------------------------------------------------------------------
/// The source went offline: the room memory was reset.
pub open spec fn is_source_offline_event(e: RuntimeEvent, flow_id: i64) -> bool {
    is_event(
        e,
        flow_id,
        None,
        "session"@,
        "source_offline_marked"@,
        FlowRuntimeLogLevel::Info,
        None,
        "Marked source offline and reset dedupe state"@,
        JsonView::Object(seq![("dedupe_reset"@, JsonView::Bool(true)), ("flow_id"@, i64_json(flow_id))]),
    )
}

pub fn source_offline_event(flow_id: i64) -> (r: RuntimeEvent)
    ensures
        is_source_offline_event(r, flow_id),
{
    let mut ms: Vec<(String, JsonValue)> = Vec::new();
    ms.push((string_of("dedupe_reset"), json_bool(true)));
    ms.push((string_of("flow_id"), json_i64(flow_id)));
    let ghost m = ms@;
    let ctx = json_object(ms);
    proof {
        assert(crate::json::jview_members(m) =~= seq![
            ("dedupe_reset"@, JsonView::Bool(true)),
            ("flow_id"@, i64_json(flow_id)),
        ]);
    }
    runtime_event(
        flow_id,
        None,
        "session",
        "source_offline_marked",
        FlowRuntimeLogLevel::Info,
        None,
        "Marked source offline and reset dedupe state",
        ctx,
    )
}

/// The current run was stopped after a publish; says whether a recording was
/// cancelled with it.
pub open spec fn is_restart_event(e: RuntimeEvent, flow_id: i64, recording_cancelled: bool) -> bool {
    is_event(
        e,
        flow_id,
        None,
        "session"@,
        "publish_restart_completed"@,
        FlowRuntimeLogLevel::Info,
        None,
        "Stopped current run after publishing changes"@,
        JsonView::Object(
            seq![("active_recording_cancelled"@, JsonView::Bool(recording_cancelled)), ("flow_id"@, i64_json(flow_id))],
        ),
    )
}

pub fn restart_event(flow_id: i64, recording_cancelled: bool) -> (r: RuntimeEvent)
    ensures
        is_restart_event(r, flow_id, recording_cancelled),
{
    let mut ms: Vec<(String, JsonValue)> = Vec::new();
    ms.push((string_of("active_recording_cancelled"), json_bool(recording_cancelled)));
    ms.push((string_of("flow_id"), json_i64(flow_id)));
    let ghost m = ms@;
    let ctx = json_object(ms);
    proof {
        assert(crate::json::jview_members(m) =~= seq![
            ("active_recording_cancelled"@, JsonView::Bool(recording_cancelled)),
            ("flow_id"@, i64_json(flow_id)),
        ]);
    }
    runtime_event(
        flow_id,
        None,
        "session",
        "publish_restart_completed",
        FlowRuntimeLogLevel::Info,
        None,
        "Stopped current run after publishing changes",
        ctx,
    )
}

// ---------------------------------------------------------------------------
// Polls, runs and recordings
// ---------------------------------------------------------------------------
/// A live check failed; the watcher tries again at its next poll.
pub open spec fn is_poll_failed_event(e: RuntimeEvent, flow_id: i64, error: Seq<char>) -> bool {
    is_event(
        e,
        flow_id,
        None,
        "start"@,
        "poll_failed"@,
        FlowRuntimeLogLevel::Warn,
        Some("start.poll_failed"@),
        "Live check failed; watcher will retry on the next poll"@,
        JsonView::Object(seq![("error"@, JsonView::Str(error))]),
    )
}

pub fn poll_failed_event(flow_id: i64, error: &str) -> (r: RuntimeEvent)
    ensures
        is_poll_failed_event(r, flow_id, error@),
{
    let mut ms: Vec<(String, JsonValue)> = Vec::new();
    ms.push((string_of("error"), json_str(error)));
    let ghost m = ms@;
    let ctx = json_object(ms);
    proof {
        assert(crate::json::jview_members(m) =~= seq![("error"@, JsonView::Str(error@))]);
    }
    runtime_event(
        flow_id,
        None,
        "start",
        "poll_failed",
        FlowRuntimeLogLevel::Warn,
        Some("start.poll_failed"),
        "Live check failed; watcher will retry on the next poll",
        ctx,
    )
}

/// A run was created for a live room and starts recording.
pub open spec fn is_run_created_event(
    e: RuntimeEvent,
    flow_id: i64,
    flow_run_id: i64,
    external_recording_id: Seq<char>,
    room_id: Seq<char>,
) -> bool {
    is_recording_event(
        e,
        flow_id,
        Some(flow_run_id),
        external_recording_id,
        "start"@,
        "run_created"@,
        FlowRuntimeLogLevel::Info,
        None,
        "Created runtime flow run for live room"@,
        JsonView::Object(seq![("has_stream_url"@, JsonView::Bool(true)), ("room_id"@, JsonView::Str(room_id))]),
    )
}

pub fn run_created_event(flow_id: i64, flow_run_id: i64, external_recording_id: &str, room_id: &str) -> (r: RuntimeEvent)
    ensures
        is_run_created_event(r, flow_id, flow_run_id, external_recording_id@, room_id@),
{
    let mut ms: Vec<(String, JsonValue)> = Vec::new();
    ms.push((string_of("has_stream_url"), json_bool(true)));
    ms.push((string_of("room_id"), json_str(room_id)));
    let ghost m = ms@;
    let ctx = json_object(ms);
    proof {
        assert(crate::json::jview_members(m) =~= seq![
            ("has_stream_url"@, JsonView::Bool(true)),
            ("room_id"@, JsonView::Str(room_id@)),
        ]);
    }
    recording_event(
        flow_id,
        Some(flow_run_id),
        external_recording_id,
        "start",
        "run_created",
        FlowRuntimeLogLevel::Info,
        None,
        "Created runtime flow run for live room",
        ctx,
    )
}

pub open spec fn opt_str_view_json(o: Option<Seq<char>>) -> JsonView {
    match o {
        Some(x) => JsonView::Str(x),
        None => JsonView::Null,
    }
}

/// A recording was finalized: completed after a success, cancelled after a
/// cancel, failed otherwise; the room (and, unless it succeeded, the error)
/// goes with it.
pub open spec fn is_record_finished_event(
    e: RuntimeEvent,
    flow_id: i64,
    flow_run_id: i64,
    external_recording_id: Seq<char>,
    room_id: Option<Seq<char>>,
    success: bool,
    error_message: Option<Seq<char>>,
) -> bool {
    match outcome_spec(success, error_message) {
        RecordingOutcome::Success => is_recording_event(
            e,
            flow_id,
            Some(flow_run_id),
            external_recording_id,
            "record"@,
            "record_completed"@,
            FlowRuntimeLogLevel::Info,
            None,
            "Recording finalized successfully"@,
            JsonView::Object(seq![("room_id"@, opt_str_view_json(room_id))]),
        ),
        RecordingOutcome::Cancelled => is_recording_event(
            e,
            flow_id,
            Some(flow_run_id),
            external_recording_id,
            "record"@,
            "record_cancelled"@,
            FlowRuntimeLogLevel::Warn,
            None,
            "Recording was cancelled"@,
            JsonView::Object(
                seq![("error"@, opt_str_view_json(error_message)), ("room_id"@, opt_str_view_json(room_id))],
            ),
        ),
        RecordingOutcome::Failed => is_recording_event(
            e,
            flow_id,
            Some(flow_run_id),
            external_recording_id,
            "record"@,
            "record_failed"@,
            FlowRuntimeLogLevel::Error,
            None,
            "Recording finalized with failure"@,
            JsonView::Object(
                seq![("error"@, opt_str_view_json(error_message)), ("room_id"@, opt_str_view_json(room_id))],
            ),
        ),
    }
}

fn json_opt_text(o: Option<&str>) -> (r: JsonValue)
    ensures
        jview(r) == opt_str_view_json(opt_str_seq(o)),
{
    match o {
        Some(x) => json_str(x),
        None => JsonValue::Null,
    }
}

pub fn record_finished_event(
    flow_id: i64,
    flow_run_id: i64,
    external_recording_id: &str,
    room_id: Option<&str>,
    success: bool,
    error_message: Option<&str>,
) -> (r: RuntimeEvent)
    ensures
        is_record_finished_event(
            r,
            flow_id,
            flow_run_id,
            external_recording_id@,
            opt_str_seq(room_id),
            success,
            opt_str_seq(error_message),
        ),
{
    let outcome = recording_outcome(success, error_message);
    let mut ms: Vec<(String, JsonValue)> = Vec::new();
    match outcome {
        RecordingOutcome::Success => {},
        _ => ms.push((string_of("error"), json_opt_text(error_message))),
    }
    ms.push((string_of("room_id"), json_opt_text(room_id)));
    let ghost m = ms@;
    let ctx = json_object(ms);
    match outcome {
        RecordingOutcome::Success => {
            proof {
                assert(crate::json::jview_members(m) =~= seq![("room_id"@, opt_str_view_json(opt_str_seq(room_id)))]);
            }
            recording_event(
                flow_id,
                Some(flow_run_id),
                external_recording_id,
                "record",
                "record_completed",
                FlowRuntimeLogLevel::Info,
                None,
                "Recording finalized successfully",
                ctx,
            )
        },
        RecordingOutcome::Cancelled => {
            proof {
                assert(crate::json::jview_members(m) =~= seq![
                    ("error"@, opt_str_view_json(opt_str_seq(error_message))),
                    ("room_id"@, opt_str_view_json(opt_str_seq(room_id))),
                ]);
            }
            recording_event(
                flow_id,
                Some(flow_run_id),
                external_recording_id,
                "record",
                "record_cancelled",
                FlowRuntimeLogLevel::Warn,
                None,
                "Recording was cancelled",
                ctx,
            )
        },
        RecordingOutcome::Failed => {
            proof {
                assert(crate::json::jview_members(m) =~= seq![
                    ("error"@, opt_str_view_json(opt_str_seq(error_message))),
                    ("room_id"@, opt_str_view_json(opt_str_seq(room_id))),
                ]);
            }
            recording_event(
                flow_id,
                Some(flow_run_id),
                external_recording_id,
                "record",
                "record_failed",
                FlowRuntimeLogLevel::Error,
                None,
                "Recording finalized with failure",
                ctx,
            )
        },
    }
}

/// The recorder of a run was started.
pub open spec fn is_record_spawned_event(
    e: RuntimeEvent,
    flow_id: i64,
    flow_run_id: i64,
    external_recording_id: Seq<char>,
    room_id: Seq<char>,
) -> bool {
    is_recording_event(
        e,
        flow_id,
        Some(flow_run_id),
        external_recording_id,
        "record"@,
        "record_spawned"@,
        FlowRuntimeLogLevel::Info,
        None,
        "Spawned Rust-owned recording worker"@,
        JsonView::Object(seq![("room_id"@, JsonView::Str(room_id))]),
    )
}

pub fn record_spawned_event(flow_id: i64, flow_run_id: i64, external_recording_id: &str, room_id: &str) -> (r: RuntimeEvent)
    ensures
        is_record_spawned_event(r, flow_id, flow_run_id, external_recording_id@, room_id@),
{
    let mut ms: Vec<(String, JsonValue)> = Vec::new();
    ms.push((string_of("room_id"), json_str(room_id)));
    let ghost m = ms@;
    let ctx = json_object(ms);
    proof {
        assert(crate::json::jview_members(m) =~= seq![("room_id"@, JsonView::Str(room_id@))]);
    }
    recording_event(
        flow_id,
        Some(flow_run_id),
        external_recording_id,
        "record",
        "record_spawned",
        FlowRuntimeLogLevel::Info,
        None,
        "Spawned Rust-owned recording worker",
        ctx,
    )
}

} // verus!
