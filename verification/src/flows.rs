//! Flow runtime bookkeeping: the runtime fields a transition writes, how a
//! finished recording moves its flow on, the patch of a flow's start-node
//! config, and the checks on flow commands.
use vstd::prelude::*;
use crate::json::{jview, jview_members, json_parse, json_text, json_to_string, lemma_jview_members, parse_json, JsonValue, JsonView};
use crate::normalize::{lookup_key_spec, username_lookup_key};
use crate::recording::RecordingOutcome;
use crate::session::{opt_seq, opt_str_seq, opt_str_to_string};
use crate::text::{slice_chars, str_chars, string_from, string_of, trim, trim_str, append_str};

verus! {

/// Runtime fields to write on a flow; `None` leaves a field alone, and a
/// blank value clears it.
#[derive(Debug, Clone, PartialEq, Eq)]
pub struct UpdateFlowRuntimeByAccountInput {
    pub status: Option<String>,
    pub current_node: Option<String>,
    pub last_live_at: Option<String>,
    pub last_run_at: Option<String>,
    pub last_error: Option<String>,
}

/// The runtime update `u` sets these fields, as written.
pub open spec fn is_update(
    u: UpdateFlowRuntimeByAccountInput,
    status: Option<Seq<char>>,
    current_node: Option<Seq<char>>,
    last_live_at: Option<Seq<char>>,
    last_run_at: Option<Seq<char>>,
    last_error: Option<Seq<char>>,
) -> bool {
    &&& opt_seq(u.status) == status
    &&& opt_seq(u.current_node) == current_node
    &&& opt_seq(u.last_live_at) == last_live_at
    &&& opt_seq(u.last_run_at) == last_run_at
    &&& opt_seq(u.last_error) == last_error
}

fn some_str(s: &str) -> (r: Option<String>)
    ensures
        opt_seq(r) == Some(s@),
{
    Some(string_of(s))
}

/// A live room was seen: its time is recorded and the last error cleared.
pub fn live_seen_update(detected_at: &str) -> (r: UpdateFlowRuntimeByAccountInput)
    ensures
        is_update(r, None, None, Some(detected_at@), None, Some(""@)),
{
    UpdateFlowRuntimeByAccountInput {
        status: None,
        current_node: None,
        last_live_at: some_str(detected_at),
        last_run_at: None,
        last_error: some_str(""),
    }
}

/// A run started recording.
pub fn recording_started_update(detected_at: &str, now: &str) -> (r: UpdateFlowRuntimeByAccountInput)
    ensures
        is_update(r, Some("recording"@), Some("record"@), Some(detected_at@), Some(now@), Some(""@)),
{
    UpdateFlowRuntimeByAccountInput {
        status: some_str("recording"),
        current_node: some_str("record"),
        last_live_at: some_str(detected_at),
        last_run_at: some_str(now),
        last_error: some_str(""),
    }
}

/// The error a failed recording reports: its own, else `Recording failed`.
pub open spec fn failure_text(error_message: Option<Seq<char>>) -> Seq<char> {
    match error_message {
        Some(m) => m,
        None => "Recording failed"@,
    }
}

/// How a finished recording moves its flow on: processing the clips after a
/// success, disabled after a cancel, in error after a failure.
pub open spec fn finished_update_spec(
    outcome: RecordingOutcome,
    error_message: Option<Seq<char>>,
    now: Seq<char>,
    u: UpdateFlowRuntimeByAccountInput,
) -> bool {
    match outcome {
        RecordingOutcome::Success => is_update(u, Some("processing"@), Some("clip"@), None, Some(now), Some(""@)),
        RecordingOutcome::Cancelled => is_update(
            u,
            Some("disabled"@),
            Some("record"@),
            None,
            Some(now),
            Some("Recording cancelled"@),
        ),
        RecordingOutcome::Failed => is_update(
            u,
            Some("error"@),
            Some("record"@),
            None,
            Some(now),
            Some(failure_text(error_message)),
        ),
    }
}

pub fn recording_finished_update(outcome: RecordingOutcome, error_message: Option<&str>, now: &str) -> (r: UpdateFlowRuntimeByAccountInput)
    ensures
        finished_update_spec(outcome, opt_str_seq(error_message), now@, r),
{
    match outcome {
        RecordingOutcome::Success => UpdateFlowRuntimeByAccountInput {
            status: some_str("processing"),
            current_node: some_str("clip"),
            last_live_at: None,
            last_run_at: some_str(now),
            last_error: some_str(""),
        },
        RecordingOutcome::Cancelled => UpdateFlowRuntimeByAccountInput {
            status: some_str("disabled"),
            current_node: some_str("record"),
            last_live_at: None,
            last_run_at: some_str(now),
            last_error: some_str("Recording cancelled"),
        },
        RecordingOutcome::Failed => UpdateFlowRuntimeByAccountInput {
            status: some_str("error"),
            current_node: some_str("record"),
            last_live_at: None,
            last_run_at: some_str(now),
            last_error: match error_message {
                Some(m) => some_str(m),
                None => some_str("Recording failed"),
            },
        },
    }
}

/// A processing stage failed with `error`.
pub fn downstream_failed_update(stage: &str, error: &str, now: &str) -> (r: UpdateFlowRuntimeByAccountInput)
    ensures
        is_update(r, Some("error"@), Some(stage@), None, Some(now@), Some(error@)),
{
    UpdateFlowRuntimeByAccountInput {
        status: some_str("error"),
        current_node: some_str(stage),
        last_live_at: None,
        last_run_at: some_str(now),
        last_error: some_str(error),
    }
}

/// The flow watches again from its start node (after a publish, or when a
/// stale run is cancelled at start-up).
pub fn watching_again_update(now: &str) -> (r: UpdateFlowRuntimeByAccountInput)
    ensures
        is_update(r, Some("watching"@), Some("start"@), None, Some(now@), Some(""@)),
{
    UpdateFlowRuntimeByAccountInput {
        status: some_str("watching"),
        current_node: some_str("start"),
        last_live_at: None,
        last_run_at: some_str(now),
        last_error: some_str(""),
    }
}

/// Whether an error message says the recording was cancelled.
pub open spec fn is_cancel_message(m: Option<Seq<char>>) -> bool {
    match m {
        Some(t) => trim(t) == "Recording cancelled"@ || trim(t) == "Cancelled"@,
        None => false,
    }
}

/// How a recording ended: a success, a cancel (its message says so), or a failure.
pub open spec fn outcome_spec(success: bool, error_message: Option<Seq<char>>) -> RecordingOutcome {
    if success {
        RecordingOutcome::Success
    } else if is_cancel_message(error_message) {
        RecordingOutcome::Cancelled
    } else {
        RecordingOutcome::Failed
    }
}

pub fn recording_outcome(success: bool, error_message: Option<&str>) -> (r: RecordingOutcome)
    ensures
        r == outcome_spec(success, opt_str_seq(error_message)),
{
    if success {
        return RecordingOutcome::Success;
    }
    match error_message {
        Some(m) => {
            let t = trim_str(m);
            if crate::text::chars_eq_str(t.as_slice(), "Recording cancelled") || crate::text::chars_eq_str(
                t.as_slice(),
                "Cancelled",
            ) {
                RecordingOutcome::Cancelled
            } else {
                RecordingOutcome::Failed
            }
        },
        None => RecordingOutcome::Failed,
    }
}

// ---------------------------------------------------------------------------
// The start node's runtime fields
// ---------------------------------------------------------------------------
/// The members without any named `key`.
pub open spec fn members_without_key(ms: Seq<(Seq<char>, JsonView)>, key: Seq<char>) -> Seq<(Seq<char>, JsonView)>
    decreases ms.len(),
{
    if ms.len() == 0 {
        Seq::empty()
    } else {
        let rest = members_without_key(ms.drop_first(), key);
        if ms[0].0 == key {
            rest
        } else {
            seq![ms[0]] + rest
        }
    }
}

/// The members with `key` set to `v`: in place when it is there, else at the end.
pub open spec fn members_with(ms: Seq<(Seq<char>, JsonView)>, key: Seq<char>, v: JsonView) -> Seq<(Seq<char>, JsonView)> {
    if exists|i: int| 0 <= i < ms.len() && ms[i].0 == key {
        ms.map_values(|m: (Seq<char>, JsonView)| if m.0 == key { (key, v) } else { m })
    } else {
        ms.push((key, v))
    }
}

/// One runtime field applied: a blank value removes the key, another sets it
/// to the trimmed text.
pub open spec fn apply_field(ms: Seq<(Seq<char>, JsonView)>, key: Seq<char>, value: Option<Seq<char>>) -> Seq<(Seq<char>, JsonView)> {
    match value {
        None => ms,
        Some(v) => if trim(v).len() == 0 {
            members_without_key(ms, key)
        } else {
            members_with(ms, key, JsonView::Str(trim(v)))
        },
    }
}

/// A start-node config with the runtime fields patched in: a config that
/// does not parse counts as `{}`; one that is not an object is an error.
pub open spec fn patched_config(
    text: Seq<char>,
    column: Seq<char>,
    last_live_at: Option<Seq<char>>,
    last_run_at: Option<Seq<char>>,
    last_error: Option<Seq<char>>,
) -> Result<Seq<char>, Seq<char>> {
    let doc = match json_parse(text) {
        Some(v) => v,
        None => JsonView::Object(Seq::empty()),
    };
    match doc {
        JsonView::Object(ms) => Ok(
            json_text(
                JsonView::Object(
                    apply_field(
                        apply_field(apply_field(ms, "last_live_at"@, last_live_at), "last_run_at"@, last_run_at),
                        "last_error"@,
                        last_error,
                    ),
                ),
            ),
        ),
        _ => Err("start "@ + column + " must be a JSON object"@),
    }
}

fn remove_key(ms: &mut Vec<(String, JsonValue)>, key: &str)
    ensures
        jview_members(final(ms)@) == members_without_key(jview_members(old(ms)@), key@),
{
    let ghost orig = jview_members(ms@);
    let mut out: Vec<(String, JsonValue)> = Vec::new();
    let mut i: usize = ms.len();
    proof {
        lemma_jview_members(ms@);
    }
    let mut rest: Vec<(String, JsonValue)> = Vec::new();
    std::mem::swap(&mut rest, ms);
    proof {
        lemma_jview_members(rest@);
        assert(orig.subrange(i as int, orig.len() as int) =~= Seq::<(Seq<char>, JsonView)>::empty());
        assert(jview_members(out@) =~= Seq::<(Seq<char>, JsonView)>::empty());
    }
    while i > 0
        invariant
            orig == jview_members(rest@),
            orig.len() == rest@.len(),
            i <= rest@.len(),
            forall|j: int| 0 <= j < rest@.len() ==> #[trigger] orig[j] == (rest@[j].0@, jview(rest@[j].1)),
            jview_members(out@) == members_without_key(orig.subrange(i as int, orig.len() as int), key@),
        decreases i,
    {
        let ghost tail = orig.subrange(i - 1, orig.len() as int);
        assert(tail[0] == orig[i - 1]);
        assert(tail.drop_first() =~= orig.subrange(i as int, orig.len() as int));
        let ghost before = jview_members(out@);
        if !crate::text::str_eq(rest[i - 1].0.as_str(), key) {
            let name = rest[i - 1].0.clone();
            let value = crate::logs::clone_json(&rest[i - 1].1);
            let ghost old_out = out@;
            proof {
                lemma_jview_members(old_out);
            }
            out.insert(0, (name, value));
            proof {
                lemma_jview_members(out@);
                assert(out@ == old_out.insert(0, (name, value)));
                assert(jview_members(out@)[0] == orig[i - 1]);
                assert forall|k: int| 0 <= k < before.len() implies #[trigger] jview_members(out@)[k + 1] == before[k] by {
                    assert(out@[k + 1] == old_out[k]);
                }
                assert(jview_members(out@) =~= seq![orig[i - 1]] + before);
            }
        }
        i = i - 1;
    }
    proof {
        assert(orig.subrange(0, orig.len() as int) =~= orig);
    }
    *ms = out;
}

fn set_key(ms: &mut Vec<(String, JsonValue)>, key: &str, value: &str)
    ensures
        jview_members(final(ms)@) == members_with(jview_members(old(ms)@), key@, JsonView::Str(value@)),
{
    let ghost orig = jview_members(ms@);
    proof {
        lemma_jview_members(ms@);
    }
    let mut found = false;
    let mut i: usize = 0;
    while i < ms.len()
        invariant
            i <= ms@.len(),
            orig.len() == ms@.len(),
            jview_members(ms@).len() == ms@.len(),
            forall|j: int| 0 <= j < ms@.len() ==> #[trigger] jview_members(ms@)[j] == (ms@[j].0@, jview(ms@[j].1)),
            forall|j: int| 0 <= j < i ==> #[trigger] jview_members(ms@)[j] == (if orig[j].0 == key@ {
                (key@, JsonView::Str(value@))
            } else {
                orig[j]
            }),
            forall|j: int| i <= j < ms@.len() ==> #[trigger] jview_members(ms@)[j] == orig[j],
            found <==> exists|j: int| 0 <= j < i && orig[j].0 == key@,
        decreases ms@.len() - i,
    {
        proof {
            assert(jview_members(ms@)[i as int] == orig[i as int]);
        }
        if crate::text::str_eq(ms[i].0.as_str(), key) {
            let ghost before = ms@;
            let name = ms[i].0.clone();
            ms.remove(i);
            ms.insert(i, (name, JsonValue::Str(string_of(value))));
            proof {
                assert(ms@ =~= before.update(i as int, ms@[i as int]));
                lemma_jview_members(ms@);
                assert(jview_members(ms@)[i as int] == (key@, JsonView::Str(value@)));
                assert forall|j: int| 0 <= j < ms@.len() && j != i implies #[trigger] jview_members(ms@)[j]
                    == jview_members(before)[j] by {
                    lemma_jview_members(before);
                }
            }
            found = true;
        }
        i = i + 1;
    }
    if found {
        proof {
            assert(jview_members(ms@) =~= orig.map_values(|m: (Seq<char>, JsonView)| if m.0 == key@ {
                (key@, JsonView::Str(value@))
            } else {
                m
            }));
        }
    } else {
        let ghost before = ms@;
        ms.push((string_of(key), JsonValue::Str(string_of(value))));
        proof {
            lemma_jview_members(ms@);
            assert(jview_members(before) =~= orig);
            assert(jview_members(ms@) =~= orig.push((key@, JsonView::Str(value@))));
        }
    }
}

fn apply_field_exec(ms: &mut Vec<(String, JsonValue)>, key: &str, value: Option<&str>)
    ensures
        jview_members(final(ms)@) == apply_field(jview_members(old(ms)@), key@, opt_str_seq(value)),
{
    match value {
        None => {},
        Some(v) => {
            let t = trim_str(v);
            if t.len() == 0 {
                remove_key(ms, key);
            } else {
                let ts = string_from(t.as_slice());
                set_key(ms, key, ts.as_str());
            }
        },
    }
}

/// A start-node config (the text of column `column`) with the runtime
/// fields patched in.
pub fn merge_runtime_fields(
    config_json: &str,
    column: &str,
    last_live_at: Option<&str>,
    last_run_at: Option<&str>,
    last_error: Option<&str>,
) -> (r: Result<String, String>)
    ensures
        match r {
            Ok(t) => patched_config(config_json@, column@, opt_str_seq(last_live_at), opt_str_seq(last_run_at), opt_str_seq(last_error))
                == Ok::<Seq<char>, Seq<char>>(t@),
            Err(e) => patched_config(config_json@, column@, opt_str_seq(last_live_at), opt_str_seq(last_run_at), opt_str_seq(last_error))
                == Err::<Seq<char>, Seq<char>>(e@),
        },
{
    let c = str_chars(config_json);
    let doc = match parse_json(c.as_slice()) {
        Ok(v) => v,
        Err(_) => {
            let empty: Vec<(String, JsonValue)> = Vec::new();
            proof {
                assert(jview_members(empty@) =~= Seq::<(Seq<char>, JsonView)>::empty());
            }
            JsonValue::Object(empty)
        },
    };
    let mut ms = match doc {
        JsonValue::Object(ms) => ms,
        _ => {
            let mut v = str_chars("start ");
            append_str(&mut v, column);
            append_str(&mut v, " must be a JSON object");
            return Err(string_from(v.as_slice()));
        },
    };
    apply_field_exec(&mut ms, "last_live_at", last_live_at);
    apply_field_exec(&mut ms, "last_run_at", last_run_at);
    apply_field_exec(&mut ms, "last_error", last_error);
    let out = JsonValue::Object(ms);
    Ok(json_to_string(&out))
}

// ---------------------------------------------------------------------------
// Flow commands
// ---------------------------------------------------------------------------
/// The name a new flow gets: the trimmed name, which must not be blank.
pub fn check_flow_name(name: &str) -> (r: Result<String, String>)
    ensures
        match r {
            Ok(n) => trim(name@).len() > 0 && n@ == trim(name@),
            Err(e) => trim(name@).len() == 0 && e@ == "name is required"@,
        },
{
    let t = trim_str(name);
    if t.len() == 0 {
        Err(string_of("name is required"))
    } else {
        Ok(string_from(t.as_slice()))
    }
}

/// The username a flow list shows: the start node's username, trimmed and
/// without one leading `@`, when it has a lookup key; else the bound
/// account's username; else nothing.
pub open spec fn flow_list_username(start_username: Option<Seq<char>>, account_username: Option<Seq<char>>) -> Seq<char> {
    let from_start = match start_username {
        Some(u) => if lookup_key_spec(u) is Some {
            Some(crate::normalize::strip_one(trim(u), '@'))
        } else {
            None
        },
        None => None,
    };
    match from_start {
        Some(s) => s,
        None => match account_username {
            Some(a) => a,
            None => Seq::empty(),
        },
    }
}

pub fn flow_list_account_username(start_username: Option<&str>, account_username: Option<&str>) -> (r: String)
    ensures
        r@ == flow_list_username(opt_str_seq(start_username), opt_str_seq(account_username)),
{
    match start_username {
        Some(u) => {
            if username_lookup_key(u).is_some() {
                let t = trim_str(u);
                if t.len() > 0 && t[0] == '@' {
                    let s = slice_chars(t.as_slice(), 1, t.len());
                    proof {
                        assert(t@.subrange(1, t@.len() as int) =~= t@.drop_first());
                    }
                    return string_from(s.as_slice());
                }
                return string_from(t.as_slice());
            }
        },
        None => {},
    }
    match account_username {
        Some(a) => string_of(a),
        None => String::new(),
    }
}

/// The flow node a pipeline hint completes: `clip` for `clip_ready`,
/// `caption` for `caption_ready`, none otherwise.
pub fn hint_node_key(hint: &str) -> (r: Option<&'static str>)
    ensures
        opt_str_seq(r) == (if hint@ == "clip_ready"@ {
            Some("clip"@)
        } else if hint@ == "caption_ready"@ {
            Some("caption"@)
        } else {
            None
        }),
{
    if crate::text::str_eq(hint, "clip_ready") {
        Some("clip")
    } else if crate::text::str_eq(hint, "caption_ready") {
        Some("caption")
    } else {
        None
    }
}

/// The input of a manual live signal for a flow.
#[derive(Debug, Clone, PartialEq, Eq)]
pub struct TriggerStartLiveDetectedInput {
    pub flow_id: i64,
    pub room_id: String,
    pub stream_url: Option<String>,
    pub viewer_count: Option<i64>,
}

/// A flow id must be positive.
pub fn check_flow_id(flow_id: i64) -> (r: Result<(), String>)
    ensures
        flow_id > 0 <==> r is Ok,
        r matches Err(e) ==> e@ == "flow_id must be positive"@,
{
    if flow_id <= 0 {
        Err(string_of("flow_id must be positive"))
    } else {
        Ok(())
    }
}

/// A manual live signal needs a positive flow id and a room id.
pub fn check_trigger_input(input: &TriggerStartLiveDetectedInput) -> (r: Result<crate::check_live::LiveStatus, String>)
    ensures
        input.flow_id <= 0 ==> (match r {
            Err(e) => e@ == "flow_id must be positive"@,
            Ok(_) => false,
        }),
        input.flow_id > 0 && trim(input.room_id@).len() == 0 ==> (match r {
            Err(e) => e@ == "room_id is required"@,
            Ok(_) => false,
        }),
        input.flow_id > 0 && trim(input.room_id@).len() > 0 ==> (match r {
            Ok(s) => s.room_id@ == input.room_id@ && opt_seq(s.stream_url) == opt_seq(input.stream_url)
                && s.viewer_count == input.viewer_count,
            Err(_) => false,
        }),
{
    if input.flow_id <= 0 {
        return Err(string_of("flow_id must be positive"));
    }
    let t = trim_str(input.room_id.as_str());
    if t.len() == 0 {
        return Err(string_of("room_id is required"));
    }
    Ok(crate::check_live::LiveStatus {
        room_id: input.room_id.clone(),
        stream_url: match &input.stream_url {
            Some(u) => Some(u.clone()),
            None => None,
        },
        viewer_count: input.viewer_count,
    })
}

// ---------------------------------------------------------------------------
// A new flow's seed configuration
// ---------------------------------------------------------------------------
/// An integer setting: its value when it parses, else the default.
pub open spec fn int_or_default(value: Option<Seq<char>>, default: int) -> int {
    match value {
        Some(t) => match crate::text::parse_i64(t) {
            Some(n) => n,
            None => default,
        },
        None => default,
    }
}

pub fn int_setting_or_default(value: Option<&str>, default: i64) -> (r: i64)
    ensures
        r as int == int_or_default(opt_str_seq(value), default as int),
{
    match value {
        Some(t) => match crate::text::parse_i64_chars(str_chars(t).as_slice()) {
            Some(n) => n,
            None => default,
        },
        None => default,
    }
}

/// The speech-to-text quantization a new flow records with: `fp32` for
/// `fp32` or `float32`, `int8` for `int8` (trimmed, any case), else `auto`.
pub open spec fn stt_quantize_spec(value: Option<Seq<char>>) -> Seq<char> {
    match value {
        Some(q) => {
            let l = crate::text::lower(trim(q));
            if l == "fp32"@ || l == "float32"@ {
                "fp32"@
            } else if l == "int8"@ {
                "int8"@
            } else {
                "auto"@
            }
        },
        None => "auto"@,
    }
}

pub fn stt_quantize_choice(value: Option<&str>) -> (r: &'static str)
    ensures
        r@ == stt_quantize_spec(opt_str_seq(value)),
{
    match value {
        Some(q) => {
            let t = trim_str(q);
            let l = crate::text::lower_chars(t.as_slice());
            if crate::text::chars_eq_str(l.as_slice(), "fp32") || crate::text::chars_eq_str(l.as_slice(), "float32") {
                "fp32"
            } else if crate::text::chars_eq_str(l.as_slice(), "int8") {
                "int8"
            } else {
                "auto"
            }
        },
        None => "auto",
    }
}

/// The integer limits a new flow is seeded with.
#[derive(Debug, Clone, Copy, PartialEq, Eq)]
pub struct FlowSeedLimits {
    pub record_max_duration_minutes: i64,
    pub record_stt_num_threads: i64,
    pub clip_min_duration_sec: i64,
    pub clip_max_duration_sec: i64,
}

pub open spec fn at_least(v: int, lo: int) -> int {
    if v < lo {
        lo
    } else {
        v
    }
}

/// The limits from the settings `recording_max_minutes` (default 5),
/// `stt_num_threads` (4), `clip_min_duration` (15) and `clip_max_duration`
/// (90): each at least 1, the longest clip at least the shortest.
pub fn flow_seed_limits(
    recording_max_minutes: Option<&str>,
    stt_num_threads: Option<&str>,
    clip_min_duration: Option<&str>,
    clip_max_duration: Option<&str>,
) -> (r: FlowSeedLimits)
    ensures
        r.record_max_duration_minutes == at_least(int_or_default(opt_str_seq(recording_max_minutes), 5), 1),
        r.record_stt_num_threads == at_least(int_or_default(opt_str_seq(stt_num_threads), 4), 1),
        r.clip_min_duration_sec == at_least(int_or_default(opt_str_seq(clip_min_duration), 15), 1),
        r.clip_max_duration_sec == at_least(int_or_default(opt_str_seq(clip_max_duration), 90), r.clip_min_duration_sec as int),
{
    let minutes = int_setting_or_default(recording_max_minutes, 5);
    let threads = int_setting_or_default(stt_num_threads, 4);
    let clip_min = int_setting_or_default(clip_min_duration, 15);
    let clip_min = if clip_min < 1 { 1 } else { clip_min };
    let clip_max = int_setting_or_default(clip_max_duration, 90);
    FlowSeedLimits {
        record_max_duration_minutes: if minutes < 1 { 1 } else { minutes },
        record_stt_num_threads: if threads < 1 { 1 } else { threads },
        clip_min_duration_sec: clip_min,
        clip_max_duration_sec: if clip_max < clip_min { clip_min } else { clip_max },
    }
}

/// The start node a new flow gets: no username, cookies or proxy, the WAF
/// bypass on, polling every 60 seconds, three retries.
pub open spec fn seed_start_view() -> JsonView {
    JsonView::Object(
        seq![
            ("cookies_json"@, JsonView::Str(Seq::empty())),
            ("poll_interval_seconds"@, JsonView::Number(Some(60), "60"@)),
            ("proxy_url"@, JsonView::Str(Seq::empty())),
            ("retry_limit"@, JsonView::Number(Some(3), "3"@)),
            ("username"@, JsonView::Str(Seq::empty())),
            ("waf_bypass_enabled"@, JsonView::Bool(true)),
        ],
    )
}

pub fn seed_start_config() -> (r: JsonValue)
    ensures
        jview(r) == seed_start_view(),
{
    let mut ms: Vec<(String, JsonValue)> = Vec::new();
    ms.push((string_of("cookies_json"), JsonValue::Str(String::new())));
    ms.push((
        string_of("poll_interval_seconds"),
        JsonValue::Number(crate::json::JsonNumber { int_value: Some(60), text: string_of("60") }),
    ));
    ms.push((string_of("proxy_url"), JsonValue::Str(String::new())));
    ms.push((
        string_of("retry_limit"),
        JsonValue::Number(crate::json::JsonNumber { int_value: Some(3), text: string_of("3") }),
    ));
    ms.push((string_of("username"), JsonValue::Str(String::new())));
    ms.push((string_of("waf_bypass_enabled"), JsonValue::Bool(true)));
    proof {
        lemma_jview_members(ms@);
        assert(jview_members(ms@) =~= seed_start_view()->Object_0);
    }
    JsonValue::Object(ms)
}

/// The nodes a new flow is made with, by key, in position order from 1:
/// start, record, clip, caption, upload.
pub open spec fn flow_node_keys() -> Seq<Seq<char>> {
    seq!["start"@, "record"@, "clip"@, "caption"@, "upload"@]
}

pub fn flow_node_seeds() -> (r: Vec<(&'static str, i64)>)
    ensures
        r@.len() == flow_node_keys().len(),
        forall|k: int| 0 <= k < r@.len() ==> (#[trigger] r@[k]).0@ == flow_node_keys()[k] && r@[k].1 == k + 1,
{
    let mut v: Vec<(&'static str, i64)> = Vec::new();
    v.push(("start", 1));
    v.push(("record", 2));
    v.push(("clip", 3));
    v.push(("caption", 4));
    v.push(("upload", 5));
    v
}

} // verus!
