//! The live-runtime registry: which flows have a watching session, which
//! username each session holds, the failures to report, and the recording each
//! flow is running.
//!
//! A username is leased to the flow whose session watches it: the lease table is
//! the set of `(lookup_key, flow_id)` pairs of the sessions, and `wf` keeps it a
//! function of the key. The app holds the registry behind a lock and performs
//! the database, network and thread work that its decisions call for.
use vstd::prelude::*;
use crate::check_live::LiveStatus;
use crate::session::{
    is_snapshot_of, opt_seq, opt_str_seq, session_polling, should_start_new_run,
    should_start_new_run_spec, torn_down, LiveRuntimeSession, LiveRuntimeSessionSnapshot,
};
use crate::logs::RuntimeEvent;
use crate::runtime_events::{
    dedupe_event, is_dedupe_event, is_lease_acquired_event, is_lease_conflict_event, is_live_detected_event,
    is_session_started_event, is_stream_url_missing_event, lease_acquired_event, lease_conflict_event,
    live_detected_event, session_started_event, stream_url_missing_event, is_source_offline_event,
    is_restart_event, restart_event, source_offline_event,
};
use crate::worker::{cancelled_finish, is_cancelled_finish, FinalizeRequest};
use crate::text::{append_chars, append_str, dec_int, fmt_i64, str_eq, string_from, string_of, trim, trim_str};

verus! {

broadcast use vstd::seq_lib::group_to_multiset_ensures;

/// What a flow's published start node says about its watcher.
pub struct FlowRuntimeConfig {
    pub flow_id: i64,
    pub flow_name: String,
    pub enabled: bool,
    pub definition_version: i64,
    pub username: String,
    pub lookup_key: String,
    pub cookies_json: String,
    pub proxy_url: Option<String>,
    pub poll_interval_seconds: i64,
}

/// The recording a flow is running, by its external id.
pub struct ActiveRecording {
    pub flow_id: i64,
    pub external_recording_id: String,
}

/// Sessions by flow, failed snapshots by flow, and active recordings by flow.
/// Its decisions also leave the runtime events to log and the recordings to
/// finish as cancelled, in order, until the app takes them.
pub struct LiveRuntimeManager {
    pub sessions: Vec<LiveRuntimeSession>,
    pub failed_snapshots: Vec<LiveRuntimeSessionSnapshot>,
    pub active_recordings: Vec<ActiveRecording>,
    pub pending_events: Vec<RuntimeEvent>,
    pub pending_finishes: Vec<FinalizeRequest>,
}

/// How `start_flow_session` went.
#[derive(Debug, Clone, Copy, PartialEq, Eq)]
pub enum StartOutcome {
    /// The flow is disabled: its session is to be stopped.
    Disabled,
    /// The flow already has a session; nothing changed.
    AlreadyRunning,
    /// A session was created; its poll loop runs with this generation.
    Started { poll_generation: u64 },
}

/// How `reconcile_flow` went when it did not fail.
#[derive(Debug, Clone, Copy, PartialEq, Eq)]
pub enum ReconcileOutcome {
    /// The flow is disabled: its session is to be stopped.
    Disabled,
    /// The session was replaced; the new poll loop runs with this generation.
    Replaced { poll_generation: u64 },
}

/// What to do with a live signal for a flow.
#[derive(Debug, Clone, PartialEq, Eq)]
pub enum LiveDetectedStep {
    /// A run is already active: the signal is ignored.
    SessionActive,
    /// The signal names no room: it is ignored.
    EmptyRoomId,
    /// The room's run already completed: the signal is recorded, no run starts.
    AlreadyCompleted,
    /// No stream URL came with the signal: it is recorded, no run starts.
    MissingStreamUrl,
    /// A run starts recording this stream.
    StartRun { stream_url: String },
}

pub open spec fn session_at(ss: Seq<LiveRuntimeSession>, f: i64, i: int) -> bool {
    0 <= i < ss.len() && ss[i].flow_id == f
}

pub open spec fn has_session(ss: Seq<LiveRuntimeSession>, f: i64) -> bool {
    exists|i: int| session_at(ss, f, i)
}

/// Session `i` holds the lease of `key`.
pub open spec fn lease_at(ss: Seq<LiveRuntimeSession>, key: Seq<char>, i: int) -> bool {
    0 <= i < ss.len() && ss[i].lookup_key@ == key
}

pub open spec fn key_leased(ss: Seq<LiveRuntimeSession>, key: Seq<char>) -> bool {
    exists|i: int| lease_at(ss, key, i)
}

pub open spec fn failed_at(fs: Seq<LiveRuntimeSessionSnapshot>, f: i64, j: int) -> bool {
    0 <= j < fs.len() && fs[j].flow_id == f
}

pub open spec fn has_failed(fs: Seq<LiveRuntimeSessionSnapshot>, f: i64) -> bool {
    exists|j: int| failed_at(fs, f, j)
}

pub open spec fn recording_at(rs: Seq<ActiveRecording>, f: i64, k: int) -> bool {
    0 <= k < rs.len() && rs[k].flow_id == f
}

pub open spec fn has_recording(rs: Seq<ActiveRecording>, f: i64) -> bool {
    exists|k: int| recording_at(rs, f, k)
}

/// The failed snapshots with the entry of `f`, if any, taken out.
pub open spec fn failed_without(fs: Seq<LiveRuntimeSessionSnapshot>, f: i64, out: Seq<LiveRuntimeSessionSnapshot>) -> bool {
    &&& (forall|j: int| failed_at(fs, f, j) ==> out == fs.remove(j))
    &&& (!has_failed(fs, f) ==> out == fs)
}

/// The active recordings with the entry of `f`, if any, taken out.
pub open spec fn recordings_without(rs: Seq<ActiveRecording>, f: i64, out: Seq<ActiveRecording>) -> bool {
    &&& (forall|k: int| recording_at(rs, f, k) ==> out == rs.remove(k))
    &&& (!has_recording(rs, f) ==> out == rs)
}

/// The sessions with the one of `f`, if any, taken out.
pub open spec fn sessions_without(ss: Seq<LiveRuntimeSession>, f: i64, out: Seq<LiveRuntimeSession>) -> bool {
    &&& (forall|i: int| session_at(ss, f, i) ==> out == ss.remove(i))
    &&& (!has_session(ss, f) ==> out == ss)
}

/// The generation a replacement session gets: one past the current one, or 1.
pub open spec fn next_generation(ss: Seq<LiveRuntimeSession>, f: i64) -> u64 {
    if has_session(ss, f) {
        let i = choose|i: int| session_at(ss, f, i);
        (ss[i].generation + 1) as u64
    } else {
        1
    }
}

/// Two snapshots say the same thing.
pub open spec fn same_snapshot(a: LiveRuntimeSessionSnapshot, b: LiveRuntimeSessionSnapshot) -> bool {
    &&& a.flow_id == b.flow_id
    &&& a.flow_name@ == b.flow_name@
    &&& a.username@ == b.username@
    &&& a.lookup_key@ == b.lookup_key@
    &&& a.generation == b.generation
    &&& a.status@ == b.status@
    &&& opt_seq(a.last_error) == opt_seq(b.last_error)
    &&& opt_seq(a.last_checked_at) == opt_seq(b.last_checked_at)
    &&& a.last_check_live == b.last_check_live
    &&& opt_seq(a.next_poll_at) == opt_seq(b.next_poll_at)
    &&& a.poll_interval_seconds == b.poll_interval_seconds
}

/// The snapshot reported for a flow whose session could not start.
pub open spec fn is_failed_snapshot(
    r: LiveRuntimeSessionSnapshot,
    flow_id: i64,
    config: FlowRuntimeConfig,
    generation: u64,
    error: Seq<char>,
) -> bool {
    &&& r.flow_id == flow_id
    &&& r.flow_name@ == config.flow_name@
    &&& r.username@ == config.username@
    &&& r.lookup_key@ == config.lookup_key@
    &&& r.generation == generation
    &&& r.status@ == "error"@
    &&& opt_seq(r.last_error) == Some(error)
    &&& r.last_checked_at is None
    &&& r.last_check_live is None
    &&& r.next_poll_at is None
    &&& r.poll_interval_seconds == Some(config.poll_interval_seconds)
}

/// The snapshot of a session that failed with `error`.
pub open spec fn is_failed_session_snapshot(
    r: LiveRuntimeSessionSnapshot,
    s: LiveRuntimeSession,
    error: Seq<char>,
) -> bool {
    &&& r.flow_id == s.flow_id
    &&& r.flow_name@ == s.flow_name@
    &&& r.username@ == s.username@
    &&& r.lookup_key@ == s.lookup_key@
    &&& r.generation == s.generation
    &&& r.status@ == "error"@
    &&& opt_seq(r.last_error) == Some(error)
    &&& r.last_checked_at is None
    &&& r.last_check_live is None
    &&& r.next_poll_at is None
    &&& r.poll_interval_seconds is None
}

/// A session freshly made from `config`: its poll loop has the generation of
/// the session, and it resumes the run that is still active.
pub open spec fn is_fresh_session(
    s: LiveRuntimeSession,
    config: FlowRuntimeConfig,
    generation: u64,
    last_completed_room_id: Option<String>,
    active_flow_run_id: Option<i64>,
) -> bool {
    &&& s.flow_id == config.flow_id
    &&& s.flow_name@ == config.flow_name@
    &&& s.username@ == config.username@
    &&& s.lookup_key@ == config.lookup_key@
    &&& s.generation == generation
    &&& s.poll_generation == generation
    &&& !s.stopped
    &&& s.last_error is None
    &&& s.active_flow_run_id == active_flow_run_id
    &&& s.last_completed_room_id == last_completed_room_id
    &&& s.downstream_status is None
}

pub open spec fn lease_error(key: Seq<char>, owner: i64) -> Seq<char> {
    "username lease already held for "@ + key + " by flow "@ + dec_int(owner as int)
}

pub open spec fn missing_session_error(flow_id: i64) -> Seq<char> {
    "missing live runtime session for flow "@ + dec_int(flow_id as int)
}

/// A poll iteration that holds the token `(generation, cancelled)` is stale
/// unless its flow's session still polls under that generation.
pub open spec fn poll_stale(ss: Seq<LiveRuntimeSession>, f: i64, generation: u64, cancelled: bool) -> bool {
    cancelled || !(exists|i: int|
        session_at(ss, f, i) && ss[i].poll_generation == generation && session_polling(ss[i]))
}

pub open spec fn sorted_by_flow(r: Seq<LiveRuntimeSessionSnapshot>) -> bool {
    forall|a: int, b: int| 0 <= a < b < r.len() ==> r[a].flow_id <= r[b].flow_id
}

/// Some entry of `r` is the snapshot of `s`.
pub open spec fn lists_session(r: Seq<LiveRuntimeSessionSnapshot>, s: LiveRuntimeSession) -> bool {
    exists|k: int| 0 <= k < r.len() && is_snapshot_of(r[k], s)
}

/// Some entry of `r` says what `f` says.
pub open spec fn lists_snapshot(r: Seq<LiveRuntimeSessionSnapshot>, f: LiveRuntimeSessionSnapshot) -> bool {
    exists|k: int| 0 <= k < r.len() && same_snapshot(r[k], f)
}

/// `x` is the snapshot of some session of `ss`.
pub open spec fn from_sessions(x: LiveRuntimeSessionSnapshot, ss: Seq<LiveRuntimeSession>) -> bool {
    exists|i: int| 0 <= i < ss.len() && is_snapshot_of(x, ss[i])
}

/// `x` says what some snapshot of `fs` says.
pub open spec fn from_snapshots(x: LiveRuntimeSessionSnapshot, fs: Seq<LiveRuntimeSessionSnapshot>) -> bool {
    exists|j: int| 0 <= j < fs.len() && same_snapshot(x, fs[j])
}

/// The sessions as `teardown` leaves them.
pub open spec fn all_torn_down(ss: Seq<LiveRuntimeSession>) -> Seq<LiveRuntimeSession> {
    ss.map_values(|s: LiveRuntimeSession| torn_down(s))
}

/// The step a live signal `(room, stream_url)` leads to for session `s`.
pub open spec fn live_step_spec(
    s: LiveRuntimeSession,
    room: Seq<char>,
    stream_url: Option<Seq<char>>,
    step: LiveDetectedStep,
) -> bool {
    if s.active_flow_run_id is Some {
        step == LiveDetectedStep::SessionActive
    } else if trim(room).len() == 0 {
        step == LiveDetectedStep::EmptyRoomId
    } else if !should_start_new_run_spec(Some(room), opt_seq(s.last_completed_room_id), true) {
        step == LiveDetectedStep::AlreadyCompleted
    } else {
        match stream_url {
            None => step == LiveDetectedStep::MissingStreamUrl,
            Some(u) => match step {
                LiveDetectedStep::StartRun { stream_url } => stream_url@ == u,
                _ => false,
            },
        }
    }
}

/// The events a live signal logs for session `s`: none when a run is active
/// or no room was named; else that the room was seen, then, when no run
/// starts, why.
pub open spec fn live_step_events(
    s: LiveRuntimeSession,
    live: LiveStatus,
    step: LiveDetectedStep,
    before: Seq<RuntimeEvent>,
    after: Seq<RuntimeEvent>,
) -> bool {
    match step {
        LiveDetectedStep::SessionActive | LiveDetectedStep::EmptyRoomId => after == before,
        LiveDetectedStep::StartRun { .. } => after.len() == before.len() + 1 && after.drop_last() == before
            && is_live_detected_event(after.last(), s.flow_id, live),
        LiveDetectedStep::AlreadyCompleted => after.len() == before.len() + 2
            && after.subrange(0, before.len() as int) == before
            && is_live_detected_event(after[before.len() as int], s.flow_id, live)
            && is_dedupe_event(after[before.len() + 1int], s.flow_id, live, s.last_completed_room_id),
        LiveDetectedStep::MissingStreamUrl => after.len() == before.len() + 2
            && after.subrange(0, before.len() as int) == before
            && is_live_detected_event(after[before.len() as int], s.flow_id, live)
            && is_stream_url_missing_event(after[before.len() + 1int], s.flow_id, live),
    }
}

/// Each flow has at most one session, one failed snapshot and one active
/// recording; no flow is both running and failed; and no two sessions hold
/// the same username lease.
pub open spec fn registry_wf(
    ss: Seq<LiveRuntimeSession>,
    fs: Seq<LiveRuntimeSessionSnapshot>,
    rs: Seq<ActiveRecording>,
) -> bool {
    &&& forall|i: int, j: int| 0 <= i < j < ss.len() ==> ss[i].flow_id != ss[j].flow_id
    &&& forall|i: int, j: int| 0 <= i < j < ss.len() ==> ss[i].lookup_key@ != ss[j].lookup_key@
    &&& forall|i: int, j: int| 0 <= i < j < fs.len() ==> fs[i].flow_id != fs[j].flow_id
    &&& forall|i: int, j: int| 0 <= i < ss.len() && 0 <= j < fs.len() ==> ss[i].flow_id != fs[j].flow_id
    &&& forall|i: int, j: int| 0 <= i < j < rs.len() ==> rs[i].flow_id != rs[j].flow_id
}

/// `after` is `before` marked as processing `run` at stage `status`.
pub open spec fn is_downstream_marked(after: LiveRuntimeSession, before: LiveRuntimeSession, run: i64, status: Seq<char>) -> bool {
    &&& opt_seq(after.downstream_status) == Some(status)
    &&& after == LiveRuntimeSession {
        active_flow_run_id: Some(run),
        downstream_status: after.downstream_status,
        ..before
    }
}

/// `after` is `before` with its run completed in `room`.
pub open spec fn is_run_completed(after: LiveRuntimeSession, before: LiveRuntimeSession, room: Option<Seq<char>>) -> bool {
    &&& opt_seq(after.last_completed_room_id) == room
    &&& after == LiveRuntimeSession {
        active_flow_run_id: None,
        downstream_status: None,
        last_completed_room_id: after.last_completed_room_id,
        ..before
    }
}

/// `r` is a listing of the sessions `ss` and the failed snapshots `fs`: by
/// flow id, one entry per source, each entry from some source.
pub open spec fn listing(ss: Seq<LiveRuntimeSession>, fs: Seq<LiveRuntimeSessionSnapshot>, r: Seq<LiveRuntimeSessionSnapshot>) -> bool {
    &&& sorted_by_flow(r)
    &&& r.len() == ss.len() + fs.len()
    &&& forall|i: int| 0 <= i < ss.len() ==> lists_session(r, #[trigger] ss[i])
    &&& forall|j: int| 0 <= j < fs.len() ==> lists_snapshot(r, #[trigger] fs[j])
    &&& forall|k: int| 0 <= k < r.len() ==> from_sessions(#[trigger] r[k], ss) || from_snapshots(r[k], fs)
}

fn lease_error_text(key: &str, owner: i64) -> (r: String)
    ensures
        r@ == lease_error(key@, owner),
{
    let mut v: Vec<char> = Vec::new();
    append_str(&mut v, "username lease already held for ");
    append_str(&mut v, key);
    append_str(&mut v, " by flow ");
    let d = fmt_i64(owner);
    append_chars(&mut v, d.as_slice());
    string_from(v.as_slice())
}

fn missing_session_text(flow_id: i64) -> (r: String)
    ensures
        r@ == missing_session_error(flow_id),
{
    let mut v: Vec<char> = Vec::new();
    append_str(&mut v, "missing live runtime session for flow ");
    let d = fmt_i64(flow_id);
    append_chars(&mut v, d.as_slice());
    string_from(v.as_slice())
}

fn clone_opt_string(o: &Option<String>) -> (r: Option<String>)
    ensures
        opt_seq(r) == opt_seq(*o),
{
    match o {
        Some(s) => Some(s.clone()),
        None => None,
    }
}

/// A copy of a snapshot.
pub fn clone_snapshot(s: &LiveRuntimeSessionSnapshot) -> (r: LiveRuntimeSessionSnapshot)
    ensures
        same_snapshot(r, *s),
{
    LiveRuntimeSessionSnapshot {
        flow_id: s.flow_id,
        flow_name: s.flow_name.clone(),
        username: s.username.clone(),
        lookup_key: s.lookup_key.clone(),
        generation: s.generation,
        status: s.status.clone(),
        last_error: clone_opt_string(&s.last_error),
        last_checked_at: clone_opt_string(&s.last_checked_at),
        last_check_live: s.last_check_live,
        next_poll_at: clone_opt_string(&s.next_poll_at),
        poll_interval_seconds: s.poll_interval_seconds,
    }
}

/// The snapshot of a flow whose session could not start.
pub fn failed_snapshot(
    flow_id: i64,
    config: &FlowRuntimeConfig,
    generation: u64,
    error: &str,
) -> (r: LiveRuntimeSessionSnapshot)
    ensures
        is_failed_snapshot(r, flow_id, *config, generation, error@),
{
    LiveRuntimeSessionSnapshot {
        flow_id,
        flow_name: config.flow_name.clone(),
        username: config.username.clone(),
        lookup_key: config.lookup_key.clone(),
        generation,
        status: string_of("error"),
        last_error: Some(string_of(error)),
        last_checked_at: None,
        last_check_live: None,
        next_poll_at: None,
        poll_interval_seconds: Some(config.poll_interval_seconds),
    }
}

fn find_session(ss: &Vec<LiveRuntimeSession>, flow_id: i64) -> (r: Option<usize>)
    ensures
        match r {
            Some(i) => session_at(ss@, flow_id, i as int),
            None => !has_session(ss@, flow_id),
        },
{
    let mut i: usize = 0;
    while i < ss.len()
        invariant
            i <= ss@.len(),
            forall|k: int| 0 <= k < i ==> ss@[k].flow_id != flow_id,
        decreases ss@.len() - i,
    {
        if ss[i].flow_id == flow_id {
            return Some(i);
        }
        i = i + 1;
    }
    None
}

fn find_lease(ss: &Vec<LiveRuntimeSession>, key: &str) -> (r: Option<usize>)
    ensures
        match r {
            Some(i) => lease_at(ss@, key@, i as int),
            None => !key_leased(ss@, key@),
        },
{
    let mut i: usize = 0;
    while i < ss.len()
        invariant
            i <= ss@.len(),
            forall|k: int| 0 <= k < i ==> ss@[k].lookup_key@ != key@,
        decreases ss@.len() - i,
    {
        if str_eq(ss[i].lookup_key.as_str(), key) {
            return Some(i);
        }
        i = i + 1;
    }
    None
}

fn find_failed(fs: &Vec<LiveRuntimeSessionSnapshot>, flow_id: i64) -> (r: Option<usize>)
    ensures
        match r {
            Some(j) => failed_at(fs@, flow_id, j as int),
            None => !has_failed(fs@, flow_id),
        },
{
    let mut j: usize = 0;
    while j < fs.len()
        invariant
            j <= fs@.len(),
            forall|k: int| 0 <= k < j ==> fs@[k].flow_id != flow_id,
        decreases fs@.len() - j,
    {
        if fs[j].flow_id == flow_id {
            return Some(j);
        }
        j = j + 1;
    }
    None
}

fn find_recording(rs: &Vec<ActiveRecording>, flow_id: i64) -> (r: Option<usize>)
    ensures
        match r {
            Some(k) => recording_at(rs@, flow_id, k as int),
            None => !has_recording(rs@, flow_id),
        },
{
    let mut k: usize = 0;
    while k < rs.len()
        invariant
            k <= rs@.len(),
            forall|m: int| 0 <= m < k ==> rs@[m].flow_id != flow_id,
        decreases rs@.len() - k,
    {
        if rs[k].flow_id == flow_id {
            return Some(k);
        }
        k = k + 1;
    }
    None
}

/// The snapshots ordered by flow id: the same snapshots, each once.
pub fn sort_snapshots(v: Vec<LiveRuntimeSessionSnapshot>) -> (r: Vec<LiveRuntimeSessionSnapshot>)
    ensures
        sorted_by_flow(r@),
        r@.to_multiset() == v@.to_multiset(),
        r@.len() == v@.len(),
{
    let ghost whole = v@;
    let mut rest = v;
    let mut out: Vec<LiveRuntimeSessionSnapshot> = Vec::new();
    proof {
        assert(out@.to_multiset() =~= vstd::multiset::Multiset::empty());
        assert(out@.to_multiset().add(rest@.to_multiset()) =~= whole.to_multiset());
    }
    while rest.len() > 0
        invariant
            out@.to_multiset().add(rest@.to_multiset()) == whole.to_multiset(),
            sorted_by_flow(out@),
            forall|a: int, b: int| 0 <= a < out@.len() && 0 <= b < rest@.len() ==> out@[a].flow_id <= rest@[b].flow_id,
        decreases rest@.len(),
    {
        let mut m: usize = 0;
        let mut k: usize = 1;
        while k < rest.len()
            invariant
                0 < rest@.len(),
                m < rest@.len(),
                1 <= k <= rest@.len(),
                forall|b: int| 0 <= b < k ==> rest@[m as int].flow_id <= rest@[b].flow_id,
            decreases rest@.len() - k,
        {
            if rest[k].flow_id < rest[m].flow_id {
                m = k;
            }
            k = k + 1;
        }
        let ghost before = rest@;
        let ghost out_before = out@;
        let x = rest.remove(m);
        out.push(x);
        proof {
            assert(before.remove(m as int).to_multiset() == before.to_multiset().remove(x));
            assert(out@ == out_before.push(x));
            assert(out@.to_multiset() == out_before.to_multiset().insert(x));
            assert(before.to_multiset().count(x) > 0) by {
                assert(before.contains(x));
            }
            assert(out@.to_multiset().add(rest@.to_multiset()) =~= out_before.to_multiset().add(before.to_multiset()));
            assert forall|a: int, b: int| 0 <= a < out@.len() && 0 <= b < rest@.len() implies out@[a].flow_id <= rest@[b].flow_id by {
                let b2 = if b < m { b } else { b + 1 };
                assert(rest@[b] == before[b2]);
                if a < out_before.len() {
                    assert(out@[a] == out_before[a]);
                }
            }
            assert forall|a: int, b: int| 0 <= a < b < out@.len() implies out@[a].flow_id <= out@[b].flow_id by {
                if b == out_before.len() {
                    assert(out@[b] == before[m as int]);
                }
            }
        }
    }
    proof {
        assert(rest@.to_multiset() =~= vstd::multiset::Multiset::empty());
        assert(out@.to_multiset() =~= out@.to_multiset().add(rest@.to_multiset()));
        assert(out@.to_multiset().len() == whole.to_multiset().len());
    }
    out
}

impl LiveRuntimeManager {
    /// Each flow has at most one session, one failed snapshot and one active
    /// recording; no flow is both running and failed; and no two sessions hold
    /// the same username lease.
    pub open spec fn wf(&self) -> bool {
        registry_wf(self.sessions@, self.failed_snapshots@, self.active_recordings@)
    }

    /// An empty registry.
    pub fn new() -> (r: Self)
        ensures
            r.wf(),
            r.sessions@.len() == 0,
            r.failed_snapshots@.len() == 0,
            r.active_recordings@.len() == 0,
            r.pending_events@.len() == 0,
            r.pending_finishes@.len() == 0,
    {
        LiveRuntimeManager {
            sessions: Vec::new(),
            failed_snapshots: Vec::new(),
            active_recordings: Vec::new(),
            pending_events: Vec::new(),
            pending_finishes: Vec::new(),
        }
    }

    /// The flow that holds the lease of `lookup_key`, if any.
    pub fn lease_owner(&self, lookup_key: &str) -> (r: Option<i64>)
        ensures
            match r {
                Some(f) => exists|i: int| lease_at(self.sessions@, lookup_key@, i) && self.sessions@[i].flow_id == f,
                None => !key_leased(self.sessions@, lookup_key@),
            },
    {
        match find_lease(&self.sessions, lookup_key) {
            Some(i) => Some(self.sessions[i].flow_id),
            None => None,
        }
    }

    /// Takes the failed snapshot of `flow_id` out, if there is one.
    fn drop_failed(&mut self, flow_id: i64)
        requires
            old(self).wf(),
        ensures
            final(self).wf(),
            final(self).pending_events@ == old(self).pending_events@,
            final(self).pending_finishes@ == old(self).pending_finishes@,
            final(self).sessions@ == old(self).sessions@,
            final(self).active_recordings@ == old(self).active_recordings@,
            failed_without(old(self).failed_snapshots@, flow_id, final(self).failed_snapshots@),
            !has_failed(final(self).failed_snapshots@, flow_id),
    {
        match find_failed(&self.failed_snapshots, flow_id) {
            Some(j) => {
                let ghost before = self.failed_snapshots@;
                self.failed_snapshots.remove(j);
                proof {
                    assert forall|k: int| failed_at(before, flow_id, k) implies self.failed_snapshots@ == before.remove(k) by {
                        if k != j {
                            assert(before[k].flow_id != before[j as int].flow_id);
                        }
                    }
                    assert forall|k: int| 0 <= k < self.failed_snapshots@.len() implies self.failed_snapshots@[k].flow_id != flow_id by {
                        if k < j {
                            assert(before[k].flow_id != before[j as int].flow_id);
                        } else {
                            assert(before[k + 1].flow_id != before[j as int].flow_id);
                        }
                    }
                    let after = self.failed_snapshots@;
                    assert forall|a: int, b: int| 0 <= a < b < after.len() implies after[a].flow_id != after[b].flow_id by {
                        let a2 = if a < j { a } else { a + 1 };
                        let b2 = if b < j { b } else { b + 1 };
                        assert(after[a] == before[a2] && after[b] == before[b2]);
                    }
                    assert forall|a: int, b: int| 0 <= a < self.sessions@.len() && 0 <= b < after.len() implies self.sessions@[a].flow_id != after[b].flow_id by {
                        let b2 = if b < j { b } else { b + 1 };
                        assert(after[b] == before[b2]);
                    }
                }
            },
            None => {},
        }
    }

    /// Replaces the failed snapshot of the snapshot's flow.
    fn put_failed(&mut self, snap: LiveRuntimeSessionSnapshot)
        requires
            old(self).wf(),
            !has_session(old(self).sessions@, snap.flow_id),
        ensures
            final(self).wf(),
            final(self).pending_events@ == old(self).pending_events@,
            final(self).pending_finishes@ == old(self).pending_finishes@,
            final(self).sessions@ == old(self).sessions@,
            final(self).active_recordings@ == old(self).active_recordings@,
            exists|base: Seq<LiveRuntimeSessionSnapshot>|
                failed_without(old(self).failed_snapshots@, snap.flow_id, base)
                    && final(self).failed_snapshots@ == base.push(snap),
    {
        let f = snap.flow_id;
        self.drop_failed(f);
        let ghost base = self.failed_snapshots@;
        self.failed_snapshots.push(snap);
        proof {
            let after = self.failed_snapshots@;
            assert(after == base.push(snap));
            assert forall|a: int, b: int| 0 <= a < b < after.len() implies after[a].flow_id != after[b].flow_id by {
                if b == base.len() {
                    assert(!failed_at(base, f, a));
                }
            }
            assert forall|a: int, b: int| 0 <= a < self.sessions@.len() && 0 <= b < after.len() implies self.sessions@[a].flow_id != after[b].flow_id by {
                if b == base.len() {
                    assert(!session_at(self.sessions@, f, a));
                }
            }
        }
    }

    /// Takes the session of `flow_id` out, if there is one.
    fn take_session(&mut self, flow_id: i64) -> (r: Option<LiveRuntimeSession>)
        requires
            old(self).wf(),
        ensures
            final(self).wf(),
            final(self).pending_events@ == old(self).pending_events@,
            final(self).pending_finishes@ == old(self).pending_finishes@,
            final(self).failed_snapshots@ == old(self).failed_snapshots@,
            final(self).active_recordings@ == old(self).active_recordings@,
            sessions_without(old(self).sessions@, flow_id, final(self).sessions@),
            !has_session(final(self).sessions@, flow_id),
            match r {
                Some(s) => exists|i: int| session_at(old(self).sessions@, flow_id, i) && s == old(self).sessions@[i],
                None => !has_session(old(self).sessions@, flow_id),
            },
    {
        match find_session(&self.sessions, flow_id) {
            Some(i) => {
                let ghost before = self.sessions@;
                let s = self.sessions.remove(i);
                proof {
                    let after = self.sessions@;
                    assert forall|k: int| session_at(before, flow_id, k) implies after == before.remove(k) by {
                        if k != i {
                            assert(before[k].flow_id != before[i as int].flow_id);
                        }
                    }
                    assert forall|k: int| 0 <= k < after.len() implies after[k].flow_id != flow_id by {
                        if k < i {
                            assert(before[k].flow_id != before[i as int].flow_id);
                        } else {
                            assert(before[k + 1].flow_id != before[i as int].flow_id);
                        }
                    }
                    assert forall|a: int, b: int| 0 <= a < b < after.len() implies after[a].flow_id != after[b].flow_id
                        && after[a].lookup_key@ != after[b].lookup_key@ by {
                        let a2 = if a < i { a } else { a + 1 };
                        let b2 = if b < i { b } else { b + 1 };
                        assert(after[a] == before[a2] && after[b] == before[b2]);
                    }
                    assert forall|a: int, b: int| 0 <= a < after.len() && 0 <= b < self.failed_snapshots@.len()
                        implies after[a].flow_id != self.failed_snapshots@[b].flow_id by {
                        let a2 = if a < i { a } else { a + 1 };
                        assert(after[a] == before[a2]);
                    }
                }
                Some(s)
            },
            None => None,
        }
    }

    /// Adds a session for a flow that has none, under a key nobody holds.
    fn put_session(&mut self, s: LiveRuntimeSession)
        requires
            old(self).wf(),
            !has_session(old(self).sessions@, s.flow_id),
            !key_leased(old(self).sessions@, s.lookup_key@),
            !has_failed(old(self).failed_snapshots@, s.flow_id),
        ensures
            final(self).wf(),
            final(self).pending_events@ == old(self).pending_events@,
            final(self).pending_finishes@ == old(self).pending_finishes@,
            final(self).sessions@ == old(self).sessions@.push(s),
            final(self).failed_snapshots@ == old(self).failed_snapshots@,
            final(self).active_recordings@ == old(self).active_recordings@,
    {
        let ghost before = self.sessions@;
        self.sessions.push(s);
        proof {
            let after = self.sessions@;
            assert forall|a: int, b: int| 0 <= a < b < after.len() implies after[a].flow_id != after[b].flow_id
                && after[a].lookup_key@ != after[b].lookup_key@ by {
                if b == before.len() {
                    assert(!session_at(before, s.flow_id, a));
                    assert(!lease_at(before, s.lookup_key@, a));
                }
            }
            assert forall|a: int, b: int| 0 <= a < after.len() && 0 <= b < self.failed_snapshots@.len()
                implies after[a].flow_id != self.failed_snapshots@[b].flow_id by {
                if a == before.len() {
                    assert(!failed_at(self.failed_snapshots@, s.flow_id, b));
                }
            }
        }
    }

    /// Starts watching a flow, unless it is disabled, already watched, or its
    /// username is leased to another flow; in that last case the failure is
    /// kept as the flow's snapshot (generation 1) and returned.
    pub fn start_flow_session(
        &mut self,
        config: &FlowRuntimeConfig,
        last_completed_room_id: Option<String>,
        active_flow_run_id: Option<i64>,
    ) -> (r: Result<StartOutcome, String>)
        requires
            old(self).wf(),
        ensures
            final(self).wf(),
            final(self).active_recordings@ == old(self).active_recordings@,
            final(self).pending_finishes@ == old(self).pending_finishes@,
            !config.enabled || has_session(old(self).sessions@, config.flow_id)
                ==> final(self).pending_events@ == old(self).pending_events@,
            !config.enabled ==> r == Ok::<StartOutcome, String>(StartOutcome::Disabled)
                && final(self).sessions@ == old(self).sessions@
                && final(self).failed_snapshots@ == old(self).failed_snapshots@,
            config.enabled && has_session(old(self).sessions@, config.flow_id) ==> r == Ok::<
                StartOutcome,
                String,
            >(StartOutcome::AlreadyRunning) && final(self).sessions@ == old(self).sessions@
                && failed_without(old(self).failed_snapshots@, config.flow_id, final(self).failed_snapshots@),
            forall|i: int|
                config.enabled && !has_session(old(self).sessions@, config.flow_id) && lease_at(
                    old(self).sessions@,
                    config.lookup_key@,
                    i,
                ) ==> {
                    let err = lease_error(config.lookup_key@, old(self).sessions@[i].flow_id);
                    &&& (match r {
                        Err(e) => e@ == err,
                        Ok(_) => false,
                    })
                    &&& final(self).sessions@ == old(self).sessions@
                    &&& exists|base: Seq<LiveRuntimeSessionSnapshot>|
                        failed_without(old(self).failed_snapshots@, config.flow_id, base)
                            && final(self).failed_snapshots@.len() == base.len() + 1
                            && final(self).failed_snapshots@.drop_last() == base
                            && is_failed_snapshot(final(self).failed_snapshots@.last(), config.flow_id, *config, 1, err)
                    &&& final(self).pending_events@.len() == old(self).pending_events@.len() + 1
                    &&& final(self).pending_events@.drop_last() == old(self).pending_events@
                    &&& is_lease_conflict_event(
                        final(self).pending_events@.last(),
                        *config,
                        old(self).sessions@[i].flow_id,
                        active_flow_run_id,
                        false,
                    )
                },
            config.enabled && !has_session(old(self).sessions@, config.flow_id) && !key_leased(
                old(self).sessions@,
                config.lookup_key@,
            ) ==> r == Ok::<StartOutcome, String>(StartOutcome::Started { poll_generation: 1 })
                && final(self).sessions@.len() == old(self).sessions@.len() + 1
                && final(self).sessions@.drop_last() == old(self).sessions@
                && is_fresh_session(final(self).sessions@.last(), *config, 1, last_completed_room_id, active_flow_run_id)
                && failed_without(old(self).failed_snapshots@, config.flow_id, final(self).failed_snapshots@)
                && final(self).pending_events@.len() == old(self).pending_events@.len() + 2
                && final(self).pending_events@.subrange(0, old(self).pending_events@.len() as int) == old(self).pending_events@
                && is_lease_acquired_event(
                    final(self).pending_events@[old(self).pending_events@.len() as int],
                    *config,
                    active_flow_run_id,
                    1,
                    false,
                )
                && is_session_started_event(
                    final(self).pending_events@[old(self).pending_events@.len() + 1int],
                    *config,
                    active_flow_run_id,
                    1,
                    false,
                ),
    {
        if !config.enabled {
            return Ok(StartOutcome::Disabled);
        }
        let flow_id = config.flow_id;
        self.drop_failed(flow_id);
        if find_session(&self.sessions, flow_id).is_some() {
            return Ok(StartOutcome::AlreadyRunning);
        }
        match find_lease(&self.sessions, config.lookup_key.as_str()) {
            Some(i) => {
                let owner = self.sessions[i].flow_id;
                let error = lease_error_text(config.lookup_key.as_str(), owner);
                let snap = failed_snapshot(flow_id, config, 1, error.as_str());
                let ghost base = self.failed_snapshots@;
                self.put_failed(snap);
                proof {
                    assert(!has_failed(base, flow_id));
                    assert forall|k: int| lease_at(old(self).sessions@, config.lookup_key@, k)
                        implies old(self).sessions@[k].flow_id == owner by {
                        if k != i {
                            assert(old(self).sessions@[k].lookup_key@ != old(self).sessions@[i as int].lookup_key@);
                        }
                    }
                    assert(self.failed_snapshots@ == base.push(snap));
                    assert(self.failed_snapshots@.drop_last() == base);
                }
                self.pending_events.push(lease_conflict_event(config, owner, active_flow_run_id, false));
                Err(error)
            },
            None => {
                let mut session = LiveRuntimeSession::new(
                    flow_id,
                    config.flow_name.clone(),
                    config.username.clone(),
                    config.lookup_key.clone(),
                    1,
                    last_completed_room_id,
                );
                match active_flow_run_id {
                    Some(run) => session.mark_flow_run_started(run),
                    None => {},
                }
                let g = session.bump_poll_generation();
                self.put_session(session);
                proof {
                    assert(self.sessions@.drop_last() == old(self).sessions@);
                }
                self.pending_events.push(lease_acquired_event(config, active_flow_run_id, 1, false));
                self.pending_events.push(session_started_event(config, active_flow_run_id, 1, false));
                proof {
                    assert(self.pending_events@.subrange(0, old(self).pending_events@.len() as int) =~= old(self).pending_events@);
                }
                Ok(StartOutcome::Started { poll_generation: g })
            },
        }
    }

    /// Replaces a flow's session with one made from its current config, one
    /// generation later. When another flow holds the username, the flow's
    /// session (if any) is failed instead, kept as its snapshot, and the
    /// failure is returned.
    pub fn reconcile_flow(
        &mut self,
        config: &FlowRuntimeConfig,
        last_completed_room_id: Option<String>,
        active_flow_run_id: Option<i64>,
    ) -> (r: Result<ReconcileOutcome, String>)
        requires
            old(self).wf(),
            forall|i: int| session_at(old(self).sessions@, config.flow_id, i)
                ==> old(self).sessions@[i].generation < u64::MAX,
        ensures
            final(self).wf(),
            final(self).active_recordings@ == old(self).active_recordings@,
            final(self).pending_finishes@ == old(self).pending_finishes@,
            !config.enabled ==> final(self).pending_events@ == old(self).pending_events@,
            !config.enabled ==> r == Ok::<ReconcileOutcome, String>(ReconcileOutcome::Disabled)
                && final(self).sessions@ == old(self).sessions@
                && final(self).failed_snapshots@ == old(self).failed_snapshots@,
            forall|i: int|
                config.enabled && lease_at(old(self).sessions@, config.lookup_key@, i)
                    && old(self).sessions@[i].flow_id != config.flow_id ==> {
                    let err = lease_error(config.lookup_key@, old(self).sessions@[i].flow_id);
                    &&& (match r {
                        Err(e) => e@ == err,
                        Ok(_) => false,
                    })
                    &&& sessions_without(old(self).sessions@, config.flow_id, final(self).sessions@)
                    &&& exists|base: Seq<LiveRuntimeSessionSnapshot>|
                        failed_without(old(self).failed_snapshots@, config.flow_id, base)
                            && final(self).failed_snapshots@.len() == base.len() + 1
                            && final(self).failed_snapshots@.drop_last() == base
                            && (forall|p: int| session_at(old(self).sessions@, config.flow_id, p)
                                ==> is_failed_session_snapshot(final(self).failed_snapshots@.last(), old(self).sessions@[p], err))
                            && (!has_session(old(self).sessions@, config.flow_id)
                                ==> is_failed_snapshot(final(self).failed_snapshots@.last(), config.flow_id, *config, 1, err))
                    &&& final(self).pending_events@.len() == old(self).pending_events@.len() + 1
                    &&& final(self).pending_events@.drop_last() == old(self).pending_events@
                    &&& is_lease_conflict_event(
                        final(self).pending_events@.last(),
                        *config,
                        old(self).sessions@[i].flow_id,
                        active_flow_run_id,
                        true,
                    )
                },
            config.enabled && (forall|i: int| lease_at(old(self).sessions@, config.lookup_key@, i)
                ==> old(self).sessions@[i].flow_id == config.flow_id) ==> {
                let next = next_generation(old(self).sessions@, config.flow_id);
                &&& r == Ok::<ReconcileOutcome, String>(ReconcileOutcome::Replaced { poll_generation: next })
                &&& final(self).sessions@.len() >= 1
                &&& sessions_without(old(self).sessions@, config.flow_id, final(self).sessions@.drop_last())
                &&& is_fresh_session(final(self).sessions@.last(), *config, next, last_completed_room_id, active_flow_run_id)
                &&& failed_without(old(self).failed_snapshots@, config.flow_id, final(self).failed_snapshots@)
                &&& final(self).pending_events@.len() == old(self).pending_events@.len() + 2
                &&& final(self).pending_events@.subrange(0, old(self).pending_events@.len() as int) == old(self).pending_events@
                &&& is_lease_acquired_event(
                    final(self).pending_events@[old(self).pending_events@.len() as int],
                    *config,
                    active_flow_run_id,
                    next,
                    true,
                )
                &&& is_session_started_event(
                    final(self).pending_events@[old(self).pending_events@.len() + 1int],
                    *config,
                    active_flow_run_id,
                    next,
                    true,
                )
            },
    {
        if !config.enabled {
            return Ok(ReconcileOutcome::Disabled);
        }
        let flow_id = config.flow_id;
        let ghost old_sessions = self.sessions@;
        let next: u64 = match find_session(&self.sessions, flow_id) {
            Some(i) => self.sessions[i].generation + 1,
            None => 1,
        };
        proof {
            if has_session(old_sessions, flow_id) {
                let c = choose|i: int| session_at(old_sessions, flow_id, i);
                assert forall|i: int| session_at(old_sessions, flow_id, i) implies i == c by {
                    if i != c {
                        assert(old_sessions[i].flow_id != old_sessions[c].flow_id);
                    }
                }
            }
            assert(next == next_generation(old_sessions, flow_id));
        }
        let conflict = match find_lease(&self.sessions, config.lookup_key.as_str()) {
            Some(i) => {
                let owner = self.sessions[i].flow_id;
                if owner != flow_id {
                    Some(owner)
                } else {
                    None
                }
            },
            None => None,
        };
        proof {
            assert forall|a: int, b: int| lease_at(old_sessions, config.lookup_key@, a) && lease_at(old_sessions, config.lookup_key@, b)
                implies a == b by {
                if a < b {
                    assert(old_sessions[a].lookup_key@ != old_sessions[b].lookup_key@);
                } else if b < a {
                    assert(old_sessions[b].lookup_key@ != old_sessions[a].lookup_key@);
                }
            }
        }
        proof {
            if conflict is None {
                assert forall|k: int| lease_at(old_sessions, config.lookup_key@, k)
                    implies old_sessions[k].flow_id == flow_id by {}
            }
        }
        match conflict {
            Some(owner) => {
                let error = lease_error_text(config.lookup_key.as_str(), owner);
                let previous = self.take_session(flow_id);
                let snap = match previous {
                    Some(mut p) => {
                        p.fail(error.as_str());
                        p.snapshot()
                    },
                    None => failed_snapshot(flow_id, config, next, error.as_str()),
                };
                let ghost base0 = self.failed_snapshots@;
                self.put_failed(snap);
                proof {
                    let base = choose|base: Seq<LiveRuntimeSessionSnapshot>|
                        failed_without(base0, flow_id, base) && self.failed_snapshots@ == base.push(snap);
                    assert(self.failed_snapshots@.drop_last() == base);
                    assert(failed_without(old(self).failed_snapshots@, flow_id, base));
                }
                self.pending_events.push(lease_conflict_event(config, owner, active_flow_run_id, true));
                Err(error)
            },
            None => {
                let previous = self.take_session(flow_id);
                match previous {
                    Some(mut p) => p.teardown(),
                    None => {},
                }
                self.drop_failed(flow_id);
                let mut session = LiveRuntimeSession::new(
                    flow_id,
                    config.flow_name.clone(),
                    config.username.clone(),
                    config.lookup_key.clone(),
                    next,
                    last_completed_room_id,
                );
                session.set_poll_generation(next - 1);
                match active_flow_run_id {
                    Some(run) => session.mark_flow_run_started(run),
                    None => {},
                }
                let g = session.bump_poll_generation();
                let ghost mid = self.sessions@;
                proof {
                    assert forall|k: int| lease_at(mid, config.lookup_key@, k) implies false by {
                        if has_session(old_sessions, flow_id) {
                            let i0 = choose|i: int| session_at(old_sessions, flow_id, i);
                            assert(mid == old_sessions.remove(i0));
                            let k0 = if k < i0 { k } else { k + 1 };
                            assert(mid[k] == old_sessions[k0]);
                            assert(lease_at(old_sessions, config.lookup_key@, k0));
                            if k0 < i0 {
                                assert(old_sessions[k0].flow_id != old_sessions[i0].flow_id);
                            } else {
                                assert(old_sessions[i0].flow_id != old_sessions[k0].flow_id);
                            }
                        } else {
                            assert(mid == old_sessions);
                            assert(lease_at(old_sessions, config.lookup_key@, k));
                            assert(session_at(old_sessions, flow_id, k));
                        }
                    }
                }
                self.put_session(session);
                proof {
                    assert(self.sessions@.drop_last() == mid);
                }
                self.pending_events.push(lease_acquired_event(config, active_flow_run_id, next, true));
                self.pending_events.push(session_started_event(config, active_flow_run_id, next, true));
                proof {
                    assert(self.pending_events@.subrange(0, old(self).pending_events@.len() as int) =~= old(self).pending_events@);
                }
                Ok(ReconcileOutcome::Replaced { poll_generation: g })
            },
        }
    }

    /// Stops a flow's session: its active recording is to be finished as
    /// cancelled; the session is torn down, loses its lease, poll task and
    /// active recording, and its snapshot is returned; any failed snapshot of
    /// the flow is dropped.
    pub fn stop_flow_session(&mut self, flow_id: i64) -> (r: Vec<LiveRuntimeSessionSnapshot>)
        requires
            old(self).wf(),
        ensures
            final(self).wf(),
            final(self).pending_events@ == old(self).pending_events@,
            forall|k: int| recording_at(old(self).active_recordings@, flow_id, k)
                ==> final(self).pending_finishes@.len() == old(self).pending_finishes@.len() + 1
                && final(self).pending_finishes@.drop_last() == old(self).pending_finishes@
                && is_cancelled_finish(
                    final(self).pending_finishes@.last(),
                    old(self).active_recordings@[k].external_recording_id@,
                ),
            !has_recording(old(self).active_recordings@, flow_id)
                ==> final(self).pending_finishes@ == old(self).pending_finishes@,
            sessions_without(old(self).sessions@, flow_id, final(self).sessions@),
            failed_without(old(self).failed_snapshots@, flow_id, final(self).failed_snapshots@),
            forall|i: int| session_at(old(self).sessions@, flow_id, i) ==> r@.len() == 1
                && is_snapshot_of(r@[0], torn_down(old(self).sessions@[i]))
                && recordings_without(old(self).active_recordings@, flow_id, final(self).active_recordings@),
            !has_session(old(self).sessions@, flow_id) ==> r@.len() == 0
                && final(self).active_recordings@ == old(self).active_recordings@,
    {
        match find_recording(&self.active_recordings, flow_id) {
            Some(k) => {
                let q = cancelled_finish(&self.active_recordings[k].external_recording_id);
                self.pending_finishes.push(q);
                proof {
                    assert forall|m: int| recording_at(old(self).active_recordings@, flow_id, m) implies m == k by {
                        if m < k {
                            assert(old(self).active_recordings@[m].flow_id != old(self).active_recordings@[k as int].flow_id);
                        } else if m > k {
                            assert(old(self).active_recordings@[k as int].flow_id != old(self).active_recordings@[m].flow_id);
                        }
                    }
                }
            },
            None => {},
        }
        let mut stopped: Vec<LiveRuntimeSessionSnapshot> = Vec::new();
        match self.take_session(flow_id) {
            Some(mut s) => {
                self.drop_recording(flow_id);
                s.teardown();
                stopped.push(s.snapshot());
            },
            None => {},
        }
        self.drop_failed(flow_id);
        stopped
    }

    /// Takes the active recording of `flow_id` out, if there is one.
    fn drop_recording(&mut self, flow_id: i64)
        requires
            old(self).wf(),
        ensures
            final(self).wf(),
            final(self).pending_events@ == old(self).pending_events@,
            final(self).pending_finishes@ == old(self).pending_finishes@,
            final(self).sessions@ == old(self).sessions@,
            final(self).failed_snapshots@ == old(self).failed_snapshots@,
            recordings_without(old(self).active_recordings@, flow_id, final(self).active_recordings@),
            !has_recording(final(self).active_recordings@, flow_id),
    {
        match find_recording(&self.active_recordings, flow_id) {
            Some(k) => {
                let ghost before = self.active_recordings@;
                self.active_recordings.remove(k);
                proof {
                    let after = self.active_recordings@;
                    assert forall|m: int| recording_at(before, flow_id, m) implies after == before.remove(m) by {
                        if m != k {
                            assert(before[m].flow_id != before[k as int].flow_id);
                        }
                    }
                    assert forall|m: int| 0 <= m < after.len() implies after[m].flow_id != flow_id by {
                        if m < k {
                            assert(before[m].flow_id != before[k as int].flow_id);
                        } else {
                            assert(before[m + 1].flow_id != before[k as int].flow_id);
                        }
                    }
                    assert forall|a: int, b: int| 0 <= a < b < after.len() implies after[a].flow_id != after[b].flow_id by {
                        let a2 = if a < k { a } else { a + 1 };
                        let b2 = if b < k { b } else { b + 1 };
                        assert(after[a] == before[a2] && after[b] == before[b2]);
                    }
                }
            },
            None => {},
        }
    }

    /// The snapshots of all sessions and the failed snapshots, by flow id.
    pub fn list_sessions(&self) -> (r: Vec<LiveRuntimeSessionSnapshot>)
        ensures
            listing(self.sessions@, self.failed_snapshots@, r@),
    {
        let mut all: Vec<LiveRuntimeSessionSnapshot> = Vec::new();
        let mut i: usize = 0;
        while i < self.sessions.len()
            invariant
                i <= self.sessions@.len(),
                all@.len() == i,
                forall|k: int| 0 <= k < i ==> is_snapshot_of(all@[k], self.sessions@[k]),
            decreases self.sessions@.len() - i,
        {
            all.push(self.sessions[i].snapshot());
            i = i + 1;
        }
        let n = self.sessions.len();
        let mut j: usize = 0;
        while j < self.failed_snapshots.len()
            invariant
                n == self.sessions@.len(),
                j <= self.failed_snapshots@.len(),
                all@.len() == n + j,
                forall|k: int| 0 <= k < n ==> is_snapshot_of(all@[k], self.sessions@[k]),
                forall|k: int| 0 <= k < j ==> same_snapshot(all@[n + k], self.failed_snapshots@[k]),
            decreases self.failed_snapshots@.len() - j,
        {
            all.push(clone_snapshot(&self.failed_snapshots[j]));
            j = j + 1;
        }
        let ghost a = all@;
        let r = sort_snapshots(all);
        proof {
            assert forall|i: int| 0 <= i < self.sessions@.len() implies lists_session(r@, #[trigger] self.sessions@[i]) by {
                assert(a.contains(a[i]));
                assert(r@.to_multiset().count(a[i]) > 0);
                assert(r@.contains(a[i]));
                let k = choose|k: int| 0 <= k < r@.len() && r@[k] == a[i];
                assert(is_snapshot_of(r@[k], self.sessions@[i]));
            }
            assert forall|j: int| 0 <= j < self.failed_snapshots@.len() implies lists_snapshot(r@, #[trigger] self.failed_snapshots@[j]) by {
                assert(a.contains(a[n + j]));
                assert(r@.to_multiset().count(a[n + j]) > 0);
                assert(r@.contains(a[n + j]));
                let k = choose|k: int| 0 <= k < r@.len() && r@[k] == a[n + j];
                assert(same_snapshot(r@[k], self.failed_snapshots@[j]));
            }
            assert forall|k: int| 0 <= k < r@.len() implies from_sessions(#[trigger] r@[k], self.sessions@)
                || from_snapshots(r@[k], self.failed_snapshots@) by {
                assert(r@.contains(r@[k]));
                assert(a.to_multiset().count(r@[k]) > 0);
                assert(a.contains(r@[k]));
                let x = choose|x: int| 0 <= x < a.len() && a[x] == r@[k];
                if x < n {
                    assert(is_snapshot_of(r@[k], self.sessions@[x]));
                } else {
                    assert(same_snapshot(r@[k], self.failed_snapshots@[x - n]));
                }
            }
        }
        r
    }

    /// Tears every session down and empties the registry; every active
    /// recording is to be finished as cancelled, and the torn-down sessions'
    /// snapshots are returned by flow id.
    pub fn shutdown(&mut self) -> (r: Vec<LiveRuntimeSessionSnapshot>)
        requires
            old(self).wf(),
        ensures
            final(self).wf(),
            final(self).pending_events@ == old(self).pending_events@,
            final(self).pending_finishes@.len() == old(self).pending_finishes@.len() + old(self).active_recordings@.len(),
            final(self).pending_finishes@.subrange(0, old(self).pending_finishes@.len() as int) == old(self).pending_finishes@,
            forall|k: int| 0 <= k < old(self).active_recordings@.len() ==> is_cancelled_finish(
                #[trigger] final(self).pending_finishes@[old(self).pending_finishes@.len() + k],
                old(self).active_recordings@[k].external_recording_id@,
            ),
            final(self).sessions@.len() == 0,
            final(self).failed_snapshots@.len() == 0,
            final(self).active_recordings@.len() == 0,
            sorted_by_flow(r@),
            r@.len() == old(self).sessions@.len(),
            forall|i: int| 0 <= i < old(self).sessions@.len() ==> lists_session(r@, #[trigger] all_torn_down(old(self).sessions@)[i]),
            forall|k: int| 0 <= k < r@.len() ==> from_sessions(#[trigger] r@[k], all_torn_down(old(self).sessions@)),
    {
        let ghost f0 = self.pending_finishes@;
        let mut j: usize = 0;
        while j < self.active_recordings.len()
            invariant
                self.wf(),
                self.sessions@ == old(self).sessions@,
                self.failed_snapshots@ == old(self).failed_snapshots@,
                self.active_recordings@ == old(self).active_recordings@,
                self.pending_events@ == old(self).pending_events@,
                f0 == old(self).pending_finishes@,
                j <= self.active_recordings@.len(),
                self.pending_finishes@.len() == f0.len() + j,
                self.pending_finishes@.subrange(0, f0.len() as int) == f0,
                forall|k: int| 0 <= k < j ==> is_cancelled_finish(
                    #[trigger] self.pending_finishes@[f0.len() + k],
                    self.active_recordings@[k].external_recording_id@,
                ),
            decreases self.active_recordings@.len() - j,
        {
            let q = cancelled_finish(&self.active_recordings[j].external_recording_id);
            let ghost pre = self.pending_finishes@;
            self.pending_finishes.push(q);
            proof {
                assert(self.pending_finishes@.subrange(0, f0.len() as int) =~= pre.subrange(0, f0.len() as int));
                assert forall|k: int| 0 <= k < j + 1 implies is_cancelled_finish(
                    #[trigger] self.pending_finishes@[f0.len() + k],
                    self.active_recordings@[k].external_recording_id@,
                ) by {
                    if k < j {
                        assert(self.pending_finishes@[f0.len() + k] == pre[f0.len() + k]);
                    }
                }
            }
            j = j + 1;
        }
        let ghost ss = self.sessions@;
        let ghost fin = self.pending_finishes@;
        let mut all: Vec<LiveRuntimeSessionSnapshot> = Vec::new();
        while self.sessions.len() > 0
            invariant
                self.pending_finishes@ == fin,
                self.pending_events@ == old(self).pending_events@,
                self.sessions@ == ss.take(self.sessions@.len() as int),
                self.sessions@.len() <= ss.len(),
                all@.len() == ss.len() - self.sessions@.len(),
                forall|k: int| 0 <= k < all@.len() ==> is_snapshot_of(all@[k], torn_down(ss[ss.len() - 1 - k])),
            decreases self.sessions@.len(),
        {
            let ghost m = self.sessions@.len();
            let mut s = self.sessions.pop().unwrap();
            proof {
                assert(s == ss[m - 1]);
                assert(self.sessions@ =~= ss.take(m - 1));
            }
            s.teardown();
            all.push(s.snapshot());
        }
        self.failed_snapshots = Vec::new();
        self.active_recordings = Vec::new();
        let ghost a = all@;
        let r = sort_snapshots(all);
        proof {
            let len = ss.len();
            let td = all_torn_down(ss);
            assert forall|i: int| 0 <= i < len implies lists_session(r@, #[trigger] td[i]) by {
                let x = len - 1 - i;
                assert(td[i] == torn_down(ss[i]));
                assert(is_snapshot_of(a[x], td[i]));
                assert(a.contains(a[x]));
                assert(r@.to_multiset().count(a[x]) > 0);
                assert(r@.contains(a[x]));
                let k = choose|k: int| 0 <= k < r@.len() && r@[k] == a[x];
                assert(is_snapshot_of(r@[k], td[i]));
            }
            assert forall|k: int| 0 <= k < r@.len() implies from_sessions(#[trigger] r@[k], td) by {
                assert(r@.contains(r@[k]));
                assert(a.to_multiset().count(r@[k]) > 0);
                assert(a.contains(r@[k]));
                let x = choose|x: int| 0 <= x < a.len() && a[x] == r@[k];
                let i = len - 1 - x;
                assert(td[i] == torn_down(ss[i]));
                assert(is_snapshot_of(r@[k], td[i]));
            }
        }
        r
    }

    /// Puts `s` back at index `i`, where a session of the same flow and key
    /// was taken out of `orig`.
    fn put_session_at(&mut self, i: usize, s: LiveRuntimeSession, Ghost(orig): Ghost<Seq<LiveRuntimeSession>>)
        requires
            registry_wf(orig, old(self).failed_snapshots@, old(self).active_recordings@),
            i < orig.len(),
            old(self).sessions@ == orig.remove(i as int),
            s.flow_id == orig[i as int].flow_id,
            s.lookup_key@ == orig[i as int].lookup_key@,
        ensures
            final(self).wf(),
            final(self).pending_events@ == old(self).pending_events@,
            final(self).pending_finishes@ == old(self).pending_finishes@,
            final(self).sessions@ == orig.update(i as int, s),
            final(self).failed_snapshots@ == old(self).failed_snapshots@,
            final(self).active_recordings@ == old(self).active_recordings@,
    {
        self.sessions.insert(i, s);
        proof {
            assert(self.sessions@ =~= orig.update(i as int, s));
            let after = self.sessions@;
            assert forall|a: int, b: int| 0 <= a < b < after.len() implies after[a].flow_id != after[b].flow_id
                && after[a].lookup_key@ != after[b].lookup_key@ by {
                assert(after[a].flow_id == orig[a].flow_id && after[a].lookup_key@ == orig[a].lookup_key@);
                assert(after[b].flow_id == orig[b].flow_id && after[b].lookup_key@ == orig[b].lookup_key@);
            }
            assert forall|a: int, b: int| 0 <= a < after.len() && 0 <= b < self.failed_snapshots@.len()
                implies after[a].flow_id != self.failed_snapshots@[b].flow_id by {
                assert(after[a].flow_id == orig[a].flow_id);
            }
        }
    }

    /// The index of the flow's session is the only one.
    proof fn lemma_session_index_unique(&self, flow_id: i64, i: int)
        requires
            self.wf(),
            session_at(self.sessions@, flow_id, i),
        ensures
            forall|k: int| session_at(self.sessions@, flow_id, k) ==> k == i,
    {
        assert forall|k: int| session_at(self.sessions@, flow_id, k) implies k == i by {
            if k < i {
                assert(self.sessions@[k].flow_id != self.sessions@[i].flow_id);
            } else if i < k {
                assert(self.sessions@[i].flow_id != self.sessions@[k].flow_id);
            }
        }
    }

    /// Whether a poll iteration holding the token `(generation, cancelled)` of
    /// `flow_id` must not apply its result.
    pub fn is_poll_iteration_stale(&self, flow_id: i64, generation: u64, cancelled: bool) -> (r: bool)
        requires
            self.wf(),
        ensures
            r == poll_stale(self.sessions@, flow_id, generation, cancelled),
    {
        if cancelled {
            return true;
        }
        match find_session(&self.sessions, flow_id) {
            None => true,
            Some(i) => {
                let s = &self.sessions[i];
                proof {
                    self.lemma_session_index_unique(flow_id, i as int);
                }
                s.poll_generation != generation || !s.is_polling()
            },
        }
    }

    /// What a live signal for `flow_id` leads to, given its session. A signal
    /// for an idle session with a room logs that the room was seen, and then
    /// why no run starts, if none does.
    pub fn plan_live_detected(&mut self, flow_id: i64, live_status: &LiveStatus) -> (r: Result<LiveDetectedStep, String>)
        requires
            old(self).wf(),
        ensures
            final(self).wf(),
            final(self).sessions@ == old(self).sessions@,
            final(self).failed_snapshots@ == old(self).failed_snapshots@,
            final(self).active_recordings@ == old(self).active_recordings@,
            final(self).pending_finishes@ == old(self).pending_finishes@,
            !has_session(old(self).sessions@, flow_id) ==> (match r {
                Err(e) => e@ == missing_session_error(flow_id),
                Ok(_) => false,
            }) && final(self).pending_events@ == old(self).pending_events@,
            forall|i: int| session_at(old(self).sessions@, flow_id, i) ==> r is Ok && live_step_spec(
                old(self).sessions@[i],
                live_status.room_id@,
                opt_seq(live_status.stream_url),
                r->Ok_0,
            ) && live_step_events(
                old(self).sessions@[i],
                *live_status,
                r->Ok_0,
                old(self).pending_events@,
                final(self).pending_events@,
            ),
    {
        let i = match find_session(&self.sessions, flow_id) {
            None => return Err(missing_session_text(flow_id)),
            Some(i) => i,
        };
        proof {
            self.lemma_session_index_unique(flow_id, i as int);
        }
        let ghost before = self.pending_events@;
        if self.sessions[i].active_flow_run_id().is_some() {
            return Ok(LiveDetectedStep::SessionActive);
        }
        let room = trim_str(live_status.room_id.as_str());
        if room.len() == 0 {
            return Ok(LiveDetectedStep::EmptyRoomId);
        }
        self.pending_events.push(live_detected_event(flow_id, live_status));
        if !should_start_new_run(Some(live_status.room_id.as_str()), self.sessions[i].last_completed_room_id(), true) {
            let last = clone_opt_string(&self.sessions[i].last_completed_room_id);
            self.pending_events.push(dedupe_event(flow_id, live_status, &last));
            proof {
                assert(self.pending_events@.subrange(0, before.len() as int) =~= before);
            }
            return Ok(LiveDetectedStep::AlreadyCompleted);
        }
        match &live_status.stream_url {
            None => {
                self.pending_events.push(stream_url_missing_event(flow_id, live_status));
                proof {
                    assert(self.pending_events@.subrange(0, before.len() as int) =~= before);
                }
                Ok(LiveDetectedStep::MissingStreamUrl)
            },
            Some(u) => {
                proof {
                    assert(self.pending_events@.drop_last() =~= before);
                }
                Ok(LiveDetectedStep::StartRun { stream_url: string_of(u.as_str()) })
            },
        }
    }

    /// Takes the runtime events waiting to be logged, oldest first.
    pub fn take_events(&mut self) -> (r: Vec<RuntimeEvent>)
        requires
            old(self).wf(),
        ensures
            final(self).wf(),
            r@ == old(self).pending_events@,
            final(self).pending_events@.len() == 0,
            final(self).sessions@ == old(self).sessions@,
            final(self).failed_snapshots@ == old(self).failed_snapshots@,
            final(self).active_recordings@ == old(self).active_recordings@,
            final(self).pending_finishes@ == old(self).pending_finishes@,
    {
        let mut taken: Vec<RuntimeEvent> = Vec::new();
        std::mem::swap(&mut taken, &mut self.pending_events);
        taken
    }

    /// Takes the recordings waiting to be finished as cancelled, oldest first.
    pub fn take_finishes(&mut self) -> (r: Vec<FinalizeRequest>)
        requires
            old(self).wf(),
        ensures
            final(self).wf(),
            r@ == old(self).pending_finishes@,
            final(self).pending_finishes@.len() == 0,
            final(self).sessions@ == old(self).sessions@,
            final(self).failed_snapshots@ == old(self).failed_snapshots@,
            final(self).active_recordings@ == old(self).active_recordings@,
            final(self).pending_events@ == old(self).pending_events@,
    {
        let mut taken: Vec<FinalizeRequest> = Vec::new();
        std::mem::swap(&mut taken, &mut self.pending_finishes);
        taken
    }

    /// Records `external_recording_id` as the flow's active recording.
    pub fn track_recording(&mut self, flow_id: i64, external_recording_id: String)
        requires
            old(self).wf(),
        ensures
            final(self).wf(),
            final(self).pending_events@ == old(self).pending_events@,
            final(self).pending_finishes@ == old(self).pending_finishes@,
            final(self).sessions@ == old(self).sessions@,
            final(self).failed_snapshots@ == old(self).failed_snapshots@,
            exists|base: Seq<ActiveRecording>|
                recordings_without(old(self).active_recordings@, flow_id, base)
                    && final(self).active_recordings@ == base.push(
                    ActiveRecording { flow_id, external_recording_id },
                ),
    {
        self.drop_recording(flow_id);
        let ghost base = self.active_recordings@;
        let rec = ActiveRecording { flow_id, external_recording_id };
        self.active_recordings.push(rec);
        proof {
            let after = self.active_recordings@;
            assert(after == base.push(rec));
            assert forall|a: int, b: int| 0 <= a < b < after.len() implies after[a].flow_id != after[b].flow_id by {
                if b == base.len() {
                    assert(!recording_at(base, flow_id, a));
                }
            }
        }
    }

    /// The external id of the flow's active recording, if any.
    pub fn active_recording_id(&self, flow_id: i64) -> (r: Option<String>)
        requires
            self.wf(),
        ensures
            match r {
                Some(id) => exists|k: int| recording_at(self.active_recordings@, flow_id, k)
                    && id@ == self.active_recordings@[k].external_recording_id@,
                None => !has_recording(self.active_recordings@, flow_id),
            },
    {
        match find_recording(&self.active_recordings, flow_id) {
            Some(k) => Some(self.active_recordings[k].external_recording_id.clone()),
            None => None,
        }
    }

    /// The external ids of all active recordings.
    pub fn active_recording_ids(&self) -> (r: Vec<String>)
        ensures
            r@.len() == self.active_recordings@.len(),
            forall|k: int| 0 <= k < r@.len() ==> r@[k]@ == self.active_recordings@[k].external_recording_id@,
    {
        let mut out: Vec<String> = Vec::new();
        let mut k: usize = 0;
        while k < self.active_recordings.len()
            invariant
                k <= self.active_recordings@.len(),
                out@.len() == k,
                forall|m: int| 0 <= m < k ==> out@[m]@ == self.active_recordings@[m].external_recording_id@,
            decreases self.active_recordings@.len() - k,
        {
            out.push(self.active_recordings[k].external_recording_id.clone());
            k = k + 1;
        }
        out
    }

    /// The flow's session now runs `flow_run_id`.
    pub fn mark_run_started(&mut self, flow_id: i64, flow_run_id: i64) -> (r: Result<(), String>)
        requires
            old(self).wf(),
        ensures
            final(self).wf(),
            final(self).pending_events@ == old(self).pending_events@,
            final(self).pending_finishes@ == old(self).pending_finishes@,
            final(self).failed_snapshots@ == old(self).failed_snapshots@,
            final(self).active_recordings@ == old(self).active_recordings@,
            !has_session(old(self).sessions@, flow_id) ==> final(self).sessions@ == old(self).sessions@ && (match r {
                Err(e) => e@ == missing_session_error(flow_id),
                Ok(_) => false,
            }),
            forall|i: int| session_at(old(self).sessions@, flow_id, i) ==> r is Ok
                && final(self).sessions@ == old(self).sessions@.update(i, LiveRuntimeSession {
                    active_flow_run_id: Some(flow_run_id),
                    downstream_status: None,
                    ..old(self).sessions@[i]
                }),
    {
        match find_session(&self.sessions, flow_id) {
            None => Err(missing_session_text(flow_id)),
            Some(i) => {
                proof {
                    self.lemma_session_index_unique(flow_id, i as int);
                }
                let ghost orig = self.sessions@;
                let mut s = self.sessions.remove(i);
                s.mark_flow_run_started(flow_run_id);
                self.put_session_at(i, s, Ghost(orig));
                Ok(())
            },
        }
    }

    /// The flow's recording ended: it is no longer active, and the session
    /// moves on to processing (success) or back to watching, remembering the
    /// room (failure or cancel).
    pub fn finish_recording(&mut self, flow_id: i64, flow_run_id: i64, success: bool, room_id: Option<&str>)
        requires
            old(self).wf(),
        ensures
            final(self).wf(),
            final(self).pending_events@ == old(self).pending_events@,
            final(self).pending_finishes@ == old(self).pending_finishes@,
            final(self).failed_snapshots@ == old(self).failed_snapshots@,
            recordings_without(old(self).active_recordings@, flow_id, final(self).active_recordings@),
            !has_session(old(self).sessions@, flow_id) ==> final(self).sessions@ == old(self).sessions@,
            forall|i: int| session_at(old(self).sessions@, flow_id, i) ==> {
                &&& final(self).sessions@ == old(self).sessions@.update(i, final(self).sessions@[i])
                &&& success ==> is_downstream_marked(final(self).sessions@[i], old(self).sessions@[i], flow_run_id, "processing"@)
                &&& !success ==> is_run_completed(final(self).sessions@[i], old(self).sessions@[i], opt_str_seq(room_id))
            },
    {
        self.drop_recording(flow_id);
        match find_session(&self.sessions, flow_id) {
            None => {},
            Some(i) => {
                proof {
                    self.lemma_session_index_unique(flow_id, i as int);
                }
                let ghost orig = self.sessions@;
                let mut s = self.sessions.remove(i);
                if success {
                    s.mark_downstream_stage(flow_run_id, "processing");
                } else {
                    s.mark_flow_run_completed(room_id);
                }
                self.put_session_at(i, s, Ghost(orig));
            },
        }
    }

    /// A processing stage of the flow's run failed: the session reports "error"
    /// for that run.
    pub fn mark_downstream_failed(&mut self, flow_id: i64, flow_run_id: i64)
        requires
            old(self).wf(),
        ensures
            final(self).wf(),
            final(self).pending_events@ == old(self).pending_events@,
            final(self).pending_finishes@ == old(self).pending_finishes@,
            final(self).failed_snapshots@ == old(self).failed_snapshots@,
            final(self).active_recordings@ == old(self).active_recordings@,
            !has_session(old(self).sessions@, flow_id) ==> final(self).sessions@ == old(self).sessions@,
            forall|i: int| session_at(old(self).sessions@, flow_id, i) ==> {
                &&& final(self).sessions@ == old(self).sessions@.update(i, final(self).sessions@[i])
                &&& is_downstream_marked(final(self).sessions@[i], old(self).sessions@[i], flow_run_id, "error"@)
            },
    {
        match find_session(&self.sessions, flow_id) {
            None => {},
            Some(i) => {
                proof {
                    self.lemma_session_index_unique(flow_id, i as int);
                }
                let ghost orig = self.sessions@;
                let mut s = self.sessions.remove(i);
                s.mark_downstream_stage(flow_run_id, "error");
                self.put_session_at(i, s, Ghost(orig));
            },
        }
    }

    /// The flow's source went offline: its session drops the active run and
    /// the dedupe memory.
    pub fn mark_source_offline(&mut self, flow_id: i64)
        requires
            old(self).wf(),
        ensures
            final(self).wf(),
            final(self).pending_events@ == old(self).pending_events@.push(final(self).pending_events@.last()),
            is_source_offline_event(final(self).pending_events@.last(), flow_id),
            final(self).pending_finishes@ == old(self).pending_finishes@,
            final(self).failed_snapshots@ == old(self).failed_snapshots@,
            final(self).active_recordings@ == old(self).active_recordings@,
            !has_session(old(self).sessions@, flow_id) ==> final(self).sessions@ == old(self).sessions@,
            forall|i: int| session_at(old(self).sessions@, flow_id, i) ==> final(self).sessions@
                == old(self).sessions@.update(i, LiveRuntimeSession {
                    active_flow_run_id: None,
                    last_completed_room_id: None,
                    downstream_status: None,
                    ..old(self).sessions@[i]
                }),
    {
        match find_session(&self.sessions, flow_id) {
            None => {},
            Some(i) => {
                proof {
                    self.lemma_session_index_unique(flow_id, i as int);
                }
                let ghost orig = self.sessions@;
                let mut s = self.sessions.remove(i);
                s.mark_source_offline();
                self.put_session_at(i, s, Ghost(orig));
            },
        }
        self.pending_events.push(source_offline_event(flow_id));
    }

    /// After a publish, the flow's session drops its run and polls again under
    /// a new poll generation, which is returned. An active recording is
    /// cancelled with it, which also forgets the last completed room.
    pub fn restart_active_run(&mut self, flow_id: i64) -> (r: Result<u64, String>)
        requires
            old(self).wf(),
            forall|i: int| session_at(old(self).sessions@, flow_id, i)
                ==> old(self).sessions@[i].poll_generation < u64::MAX,
        ensures
            final(self).wf(),
            final(self).failed_snapshots@ == old(self).failed_snapshots@,
            !has_session(old(self).sessions@, flow_id) ==> final(self).sessions@ == old(self).sessions@ && (match r {
                Err(e) => e@ == missing_session_error(flow_id),
                Ok(_) => false,
            }) && final(self).active_recordings@ == old(self).active_recordings@
                && final(self).pending_events@ == old(self).pending_events@
                && final(self).pending_finishes@ == old(self).pending_finishes@,
            forall|i: int| session_at(old(self).sessions@, flow_id, i) ==> {
                let g = (old(self).sessions@[i].poll_generation + 1) as u64;
                &&& r == Ok::<u64, String>(g)
                &&& final(self).sessions@ == old(self).sessions@.update(i, LiveRuntimeSession {
                    active_flow_run_id: None,
                    downstream_status: None,
                    poll_generation: g,
                    last_completed_room_id: final(self).sessions@[i].last_completed_room_id,
                    ..old(self).sessions@[i]
                })
                &&& has_recording(old(self).active_recordings@, flow_id)
                    ==> final(self).sessions@[i].last_completed_room_id is None
                &&& !has_recording(old(self).active_recordings@, flow_id)
                    ==> final(self).sessions@[i].last_completed_room_id == old(self).sessions@[i].last_completed_room_id
                &&& recordings_without(old(self).active_recordings@, flow_id, final(self).active_recordings@)
                &&& (forall|k: int| recording_at(old(self).active_recordings@, flow_id, k)
                    ==> final(self).pending_finishes@.len() == old(self).pending_finishes@.len() + 1
                    && final(self).pending_finishes@.drop_last() == old(self).pending_finishes@
                    && is_cancelled_finish(
                        final(self).pending_finishes@.last(),
                        old(self).active_recordings@[k].external_recording_id@,
                    ))
                &&& !has_recording(old(self).active_recordings@, flow_id)
                    ==> final(self).pending_finishes@ == old(self).pending_finishes@
                &&& final(self).pending_events@ == old(self).pending_events@.push(final(self).pending_events@.last())
                &&& is_restart_event(
                    final(self).pending_events@.last(),
                    flow_id,
                    has_recording(old(self).active_recordings@, flow_id),
                )
            },
    {
        match find_session(&self.sessions, flow_id) {
            None => Err(missing_session_text(flow_id)),
            Some(i) => {
                proof {
                    self.lemma_session_index_unique(flow_id, i as int);
                }
                let ghost orig = self.sessions@;
                let mut s = self.sessions.remove(i);
                if find_recording(&self.active_recordings, flow_id).is_some() {
                    s.mark_flow_run_completed(None);
                }
                s.mark_flow_run_stopped();
                let g = s.bump_poll_generation();
                self.put_session_at(i, s, Ghost(orig));
                let cancelled = match find_recording(&self.active_recordings, flow_id) {
                    Some(k) => {
                        let q = cancelled_finish(&self.active_recordings[k].external_recording_id);
                        self.pending_finishes.push(q);
                        proof {
                            assert forall|m: int| recording_at(old(self).active_recordings@, flow_id, m) implies m == k by {
                                if m < k {
                                    assert(old(self).active_recordings@[m].flow_id != old(self).active_recordings@[k as int].flow_id);
                                } else if m > k {
                                    assert(old(self).active_recordings@[k as int].flow_id != old(self).active_recordings@[m].flow_id);
                                }
                            }
                        }
                        true
                    },
                    None => false,
                };
                self.drop_recording(flow_id);
                self.pending_events.push(restart_event(flow_id, cancelled));
                Ok(g)
            },
        }
    }
}

/// No two sessions of a well-formed registry hold the same username.
pub proof fn law_one_session_per_username(m: LiveRuntimeManager, i: int, j: int)
    requires
        m.wf(),
        0 <= i < m.sessions@.len(),
        0 <= j < m.sessions@.len(),
        m.sessions@[i].lookup_key@ == m.sessions@[j].lookup_key@,
    ensures
        i == j,
{
    if i < j {
        assert(m.sessions@[i].lookup_key@ != m.sessions@[j].lookup_key@);
    } else if j < i {
        assert(m.sessions@[j].lookup_key@ != m.sessions@[i].lookup_key@);
    }
}

/// Once a flow is stopped, listing the sessions shows no entry for it.
pub proof fn law_stopped_flow_is_not_listed(
    before: LiveRuntimeManager,
    after: LiveRuntimeManager,
    flow_id: i64,
    listed: Seq<LiveRuntimeSessionSnapshot>,
)
    requires
        before.wf(),
        sessions_without(before.sessions@, flow_id, after.sessions@),
        failed_without(before.failed_snapshots@, flow_id, after.failed_snapshots@),
        listing(after.sessions@, after.failed_snapshots@, listed),
    ensures
        forall|k: int| 0 <= k < listed.len() ==> listed[k].flow_id != flow_id,
{
    let ss = before.sessions@;
    let fs = before.failed_snapshots@;
    assert forall|k: int| 0 <= k < after.sessions@.len() implies after.sessions@[k].flow_id != flow_id by {
        if has_session(ss, flow_id) {
            let i = choose|i: int| session_at(ss, flow_id, i);
            assert(after.sessions@ == ss.remove(i));
            let k2 = if k < i { k } else { k + 1 };
            assert(after.sessions@[k] == ss[k2]);
            if k2 < i {
                assert(ss[k2].flow_id != ss[i].flow_id);
            } else {
                assert(ss[i].flow_id != ss[k2].flow_id);
            }
        } else {
            assert(after.sessions@ == ss);
            assert(!session_at(ss, flow_id, k));
        }
    }
    assert forall|k: int| 0 <= k < after.failed_snapshots@.len() implies after.failed_snapshots@[k].flow_id != flow_id by {
        if has_failed(fs, flow_id) {
            let j = choose|j: int| failed_at(fs, flow_id, j);
            assert(after.failed_snapshots@ == fs.remove(j));
            let k2 = if k < j { k } else { k + 1 };
            assert(after.failed_snapshots@[k] == fs[k2]);
            if k2 < j {
                assert(fs[k2].flow_id != fs[j].flow_id);
            } else {
                assert(fs[j].flow_id != fs[k2].flow_id);
            }
        } else {
            assert(after.failed_snapshots@ == fs);
            assert(!failed_at(fs, flow_id, k));
        }
    }
    assert forall|k: int| 0 <= k < listed.len() implies listed[k].flow_id != flow_id by {
        if from_sessions(listed[k], after.sessions@) {
            let i = choose|i: int| 0 <= i < after.sessions@.len() && is_snapshot_of(listed[k], after.sessions@[i]);
            assert(after.sessions@[i].flow_id != flow_id);
        } else {
            let j = choose|j: int| 0 <= j < after.failed_snapshots@.len() && same_snapshot(listed[k], after.failed_snapshots@[j]);
            assert(after.failed_snapshots@[j].flow_id != flow_id);
        }
    }
}

/// A flow without a session has no poll iteration that may still apply its result.
pub proof fn law_unwatched_flow_polls_are_stale(ss: Seq<LiveRuntimeSession>, flow_id: i64, generation: u64, cancelled: bool)
    requires
        !has_session(ss, flow_id),
    ensures
        poll_stale(ss, flow_id, generation, cancelled),
{
}

/// While a flow's session runs a flow run, its poll iterations are stale: the
/// watcher does not look for a new live room during a recording.
pub proof fn law_polling_pauses_during_a_run(
    m: LiveRuntimeManager,
    flow_id: i64,
    i: int,
    generation: u64,
    cancelled: bool,
)
    requires
        m.wf(),
        session_at(m.sessions@, flow_id, i),
        m.sessions@[i].active_flow_run_id is Some,
    ensures
        poll_stale(m.sessions@, flow_id, generation, cancelled),
{
    m.lemma_session_index_unique(flow_id, i);
}

/// A live signal for the room whose run last completed starts no run.
pub proof fn law_completed_room_starts_no_run(
    s: LiveRuntimeSession,
    room: Seq<char>,
    stream_url: Option<Seq<char>>,
    step: LiveDetectedStep,
)
    requires
        opt_seq(s.last_completed_room_id) == Some(room),
        live_step_spec(s, room, stream_url, step),
    ensures
        !(step is StartRun),
{
}

/// A stopped flow is torn down once: stopping removes its session, so a
/// later shutdown reports no torn-down session for it.
pub proof fn law_stopped_flow_torn_down_once(
    before: LiveRuntimeManager,
    after: LiveRuntimeManager,
    flow_id: i64,
    shut: Seq<LiveRuntimeSessionSnapshot>,
)
    requires
        before.wf(),
        sessions_without(before.sessions@, flow_id, after.sessions@),
        forall|k: int| 0 <= k < shut.len() ==> from_sessions(#[trigger] shut[k], all_torn_down(after.sessions@)),
    ensures
        forall|k: int| 0 <= k < shut.len() ==> shut[k].flow_id != flow_id,
{
    let ss = before.sessions@;
    assert forall|k: int| 0 <= k < after.sessions@.len() implies after.sessions@[k].flow_id != flow_id by {
        if has_session(ss, flow_id) {
            let i = choose|i: int| session_at(ss, flow_id, i);
            assert(after.sessions@ == ss.remove(i));
            let k2 = if k < i { k } else { k + 1 };
            assert(after.sessions@[k] == ss[k2]);
            if k2 < i {
                assert(ss[k2].flow_id != ss[i].flow_id);
            } else {
                assert(ss[i].flow_id != ss[k2].flow_id);
            }
        } else {
            assert(after.sessions@ == ss);
            assert(!session_at(ss, flow_id, k));
        }
    }
    assert forall|k: int| 0 <= k < shut.len() implies shut[k].flow_id != flow_id by {
        let td = all_torn_down(after.sessions@);
        assert(from_sessions(shut[k], td));
        let i = choose|i: int| 0 <= i < td.len() && is_snapshot_of(shut[k], td[i]);
        assert(td[i] == torn_down(after.sessions@[i]));
        assert(after.sessions@[i].flow_id != flow_id);
    }
}

} // verus!
