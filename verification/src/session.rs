//! One live-runtime session per flow: the state a watcher keeps between polls
//! and the summary it reports.
use vstd::prelude::*;
use crate::text::{chars_eq_str, str_eq, string_of, trim, trim_str};

verus! {

/// The view of an optional owned string.
pub open spec fn opt_seq(o: Option<String>) -> Option<Seq<char>> {
    match o {
        Some(s) => Some(s@),
        None => None,
    }
}

/// The view of an optional string slice.
pub open spec fn opt_str_seq(o: Option<&str>) -> Option<Seq<char>> {
    match o {
        Some(s) => Some(s@),
        None => None,
    }
}

pub fn opt_str_to_string(o: Option<&str>) -> (r: Option<String>)
    ensures
        opt_seq(r) == opt_str_seq(o),
{
    match o {
        Some(s) => Some(string_of(s)),
        None => None,
    }
}

pub fn opt_string_as_str(o: &Option<String>) -> (r: Option<&str>)
    ensures
        opt_str_seq(r) == opt_seq(*o),
{
    match o {
        Some(s) => Some(s.as_str()),
        None => None,
    }
}

/// Summary snapshot of a live runtime session.
#[derive(Debug, Clone, PartialEq, Eq)]
pub struct LiveRuntimeSessionSnapshot {
    pub flow_id: i64,
    pub flow_name: String,
    pub username: String,
    pub lookup_key: String,
    pub generation: u64,
    pub status: String,
    pub last_error: Option<String>,
    pub last_checked_at: Option<String>,
    pub last_check_live: Option<bool>,
    pub next_poll_at: Option<String>,
    pub poll_interval_seconds: Option<i64>,
}

/// A new run starts unless the source is live in the very room whose run last completed.
pub open spec fn should_start_new_run_spec(
    current: Option<Seq<char>>,
    last: Option<Seq<char>>,
    source_is_live: bool,
) -> bool {
    if !source_is_live {
        true
    } else {
        match (current, last) {
            (Some(c), Some(l)) => c != l,
            _ => true,
        }
    }
}

pub fn should_start_new_run(
    current_room_id: Option<&str>,
    last_completed_room_id: Option<&str>,
    source_is_live: bool,
) -> (r: bool)
    ensures
        r == should_start_new_run_spec(
            opt_str_seq(current_room_id),
            opt_str_seq(last_completed_room_id),
            source_is_live,
        ),
{
    if !source_is_live {
        return true;
    }
    match (current_room_id, last_completed_room_id) {
        (Some(current), Some(last)) => !str_eq(current, last),
        _ => true,
    }
}

/// The flow node that a runtime status belongs to.
pub open spec fn current_node_spec(status: Seq<char>) -> Option<Seq<char>> {
    if status == "watching"@ {
        Some("start"@)
    } else if status == "recording"@ {
        Some("record"@)
    } else if status == "processing"@ {
        Some("clip"@)
    } else {
        None
    }
}

pub fn runtime_current_node_for_status(status: &str) -> (r: Option<&'static str>)
    ensures
        opt_str_seq(r) == current_node_spec(trim(status@)),
{
    let t = trim_str(status);
    if chars_eq_str(t.as_slice(), "watching") {
        Some("start")
    } else if chars_eq_str(t.as_slice(), "recording") {
        Some("record")
    } else if chars_eq_str(t.as_slice(), "processing") {
        Some("clip")
    } else {
        None
    }
}

#[derive(Debug, Clone, PartialEq, Eq)]
pub struct LiveRuntimeSession {
    pub flow_id: i64,
    pub flow_name: String,
    pub username: String,
    pub lookup_key: String,
    pub generation: u64,
    pub poll_generation: u64,
    pub stopped: bool,
    pub last_error: Option<String>,
    pub active_flow_run_id: Option<i64>,
    pub last_completed_room_id: Option<String>,
    pub downstream_status: Option<String>,
}

/// The status a snapshot reports for a session.
pub open spec fn session_status(s: LiveRuntimeSession) -> Seq<char> {
    if s.stopped {
        if s.last_error is Some {
            "error"@
        } else {
            "stopped"@
        }
    } else if s.active_flow_run_id is Some {
        match s.downstream_status {
            Some(d) => d@,
            None => "recording"@,
        }
    } else {
        "watching"@
    }
}

/// A session polls while it is running and has no active flow run.
pub open spec fn session_polling(s: LiveRuntimeSession) -> bool {
    !s.stopped && s.active_flow_run_id is None
}

/// `r` is what `snapshot` reports for `s`: its identity, its status, its last
/// error, and no poll bookkeeping.
pub open spec fn is_snapshot_of(r: LiveRuntimeSessionSnapshot, s: LiveRuntimeSession) -> bool {
    &&& r.flow_id == s.flow_id
    &&& r.flow_name@ == s.flow_name@
    &&& r.username@ == s.username@
    &&& r.lookup_key@ == s.lookup_key@
    &&& r.generation == s.generation
    &&& r.status@ == session_status(s)
    &&& opt_seq(r.last_error) == opt_seq(s.last_error)
    &&& r.last_checked_at is None
    &&& r.last_check_live is None
    &&& r.next_poll_at is None
    &&& r.poll_interval_seconds is None
}

/// The session as `teardown` leaves it.
pub open spec fn torn_down(s: LiveRuntimeSession) -> LiveRuntimeSession {
    LiveRuntimeSession { active_flow_run_id: None, downstream_status: None, stopped: true, ..s }
}

impl LiveRuntimeSession {
    pub fn new(
        flow_id: i64,
        flow_name: String,
        username: String,
        lookup_key: String,
        generation: u64,
        last_completed_room_id: Option<String>,
    ) -> (r: Self)
        ensures
            r == (LiveRuntimeSession {
                flow_id,
                flow_name,
                username,
                lookup_key,
                generation,
                poll_generation: 0,
                stopped: false,
                last_error: None,
                active_flow_run_id: None,
                last_completed_room_id,
                downstream_status: None,
            }),
    {
        LiveRuntimeSession {
            flow_id,
            flow_name,
            username,
            lookup_key,
            generation,
            poll_generation: 0,
            stopped: false,
            last_error: None,
            active_flow_run_id: None,
            last_completed_room_id,
            downstream_status: None,
        }
    }

    pub fn lookup_key(&self) -> (r: &str)
        ensures
            r@ == self.lookup_key@,
    {
        self.lookup_key.as_str()
    }

    pub fn generation(&self) -> (r: u64)
        ensures
            r == self.generation,
    {
        self.generation
    }

    pub fn poll_generation(&self) -> (r: u64)
        ensures
            r == self.poll_generation,
    {
        self.poll_generation
    }

    /// Advances the poll generation by one and returns it.
    pub fn bump_poll_generation(&mut self) -> (r: u64)
        requires
            old(self).poll_generation < u64::MAX,
        ensures
            r == old(self).poll_generation + 1,
            *final(self) == (LiveRuntimeSession { poll_generation: r, ..*old(self) }),
    {
        self.poll_generation = self.poll_generation + 1;
        self.poll_generation
    }

    pub fn set_poll_generation(&mut self, generation: u64)
        ensures
            *final(self) == (LiveRuntimeSession { poll_generation: generation, ..*old(self) }),
    {
        self.poll_generation = generation;
    }

    pub fn is_polling(&self) -> (r: bool)
        ensures
            r == session_polling(*self),
    {
        !self.stopped && self.active_flow_run_id.is_none()
    }

    pub fn last_completed_room_id(&self) -> (r: Option<&str>)
        ensures
            opt_str_seq(r) == opt_seq(self.last_completed_room_id),
    {
        opt_string_as_str(&self.last_completed_room_id)
    }

    pub fn active_flow_run_id(&self) -> (r: Option<i64>)
        ensures
            r == self.active_flow_run_id,
    {
        self.active_flow_run_id
    }

    pub fn mark_flow_run_started(&mut self, flow_run_id: i64)
        ensures
            *final(self) == (LiveRuntimeSession {
                active_flow_run_id: Some(flow_run_id),
                downstream_status: None,
                ..*old(self)
            }),
    {
        self.active_flow_run_id = Some(flow_run_id);
        self.downstream_status = None;
    }

    pub fn mark_flow_run_completed(&mut self, room_id: Option<&str>)
        ensures
            final(self).active_flow_run_id is None,
            final(self).downstream_status is None,
            opt_seq(final(self).last_completed_room_id) == opt_str_seq(room_id),
            *final(self) == (LiveRuntimeSession {
                active_flow_run_id: None,
                downstream_status: None,
                last_completed_room_id: final(self).last_completed_room_id,
                ..*old(self)
            }),
    {
        self.active_flow_run_id = None;
        self.last_completed_room_id = opt_str_to_string(room_id);
        self.downstream_status = None;
    }

    pub fn mark_downstream_stage(&mut self, flow_run_id: i64, status: &str)
        ensures
            final(self).active_flow_run_id == Some(flow_run_id),
            opt_seq(final(self).downstream_status) == Some(status@),
            *final(self) == (LiveRuntimeSession {
                active_flow_run_id: Some(flow_run_id),
                downstream_status: final(self).downstream_status,
                ..*old(self)
            }),
    {
        self.active_flow_run_id = Some(flow_run_id);
        self.downstream_status = Some(string_of(status));
    }

    /// Forgets the active run without completing it; the dedupe memory stays.
    pub fn mark_flow_run_stopped(&mut self)
        ensures
            *final(self) == (LiveRuntimeSession {
                active_flow_run_id: None,
                downstream_status: None,
                ..*old(self)
            }),
    {
        self.active_flow_run_id = None;
        self.downstream_status = None;
    }

    pub fn mark_source_offline(&mut self)
        ensures
            *final(self) == (LiveRuntimeSession {
                active_flow_run_id: None,
                last_completed_room_id: None,
                downstream_status: None,
                ..*old(self)
            }),
    {
        self.active_flow_run_id = None;
        self.last_completed_room_id = None;
        self.downstream_status = None;
    }

    pub fn cancel(&mut self)
        ensures
            *final(self) == (LiveRuntimeSession { stopped: true, ..*old(self) }),
    {
        self.stopped = true;
    }

    pub fn teardown(&mut self)
        ensures
            *final(self) == torn_down(*old(self)),
    {
        self.active_flow_run_id = None;
        self.downstream_status = None;
        self.stopped = true;
    }

    pub fn fail(&mut self, error: &str)
        ensures
            opt_seq(final(self).last_error) == Some(error@),
            *final(self) == (LiveRuntimeSession {
                stopped: true,
                downstream_status: None,
                last_error: final(self).last_error,
                ..*old(self)
            }),
    {
        self.stopped = true;
        self.downstream_status = None;
        self.last_error = Some(string_of(error));
    }

    pub fn snapshot(&self) -> (r: LiveRuntimeSessionSnapshot)
        ensures
            is_snapshot_of(r, *self),
    {
        let status = if self.stopped {
            if self.last_error.is_some() {
                string_of("error")
            } else {
                string_of("stopped")
            }
        } else if self.active_flow_run_id.is_some() {
            match &self.downstream_status {
                Some(d) => d.clone(),
                None => string_of("recording"),
            }
        } else {
            string_of("watching")
        };
        LiveRuntimeSessionSnapshot {
            flow_id: self.flow_id,
            flow_name: self.flow_name.clone(),
            username: self.username.clone(),
            lookup_key: self.lookup_key.clone(),
            generation: self.generation,
            status,
            last_error: self.last_error.clone(),
            last_checked_at: None,
            last_check_live: None,
            next_poll_at: None,
            poll_interval_seconds: None,
        }
    }
}

/// After a run completes, the session polls again (unless it was stopped) and
/// a later live signal for the same room starts no new run.
pub proof fn law_completed_room_is_deduplicated(
    before: LiveRuntimeSession,
    after: LiveRuntimeSession,
    room: Seq<char>,
)
    requires
        after.active_flow_run_id is None,
        after.stopped == before.stopped,
        opt_seq(after.last_completed_room_id) == Some(room),
    ensures
        !before.stopped ==> session_polling(after),
        !should_start_new_run_spec(Some(room), opt_seq(after.last_completed_room_id), true),
        should_start_new_run_spec(Some(room), opt_seq(after.last_completed_room_id), false),
{
}

/// Once a session is torn down or cancelled it reports no polling, and its
/// snapshot says "stopped" unless it failed ("error").
pub proof fn law_stopped_session_never_polls(s: LiveRuntimeSession)
    requires
        s.stopped,
    ensures
        !session_polling(s),
        session_status(s) == (if s.last_error is Some {
            "error"@
        } else {
            "stopped"@
        }),
{
}

/// Going offline clears the dedupe memory, so the same room may start a run again.
pub proof fn law_offline_resets_dedupe(s: LiveRuntimeSession, room: Seq<char>)
    requires
        s.last_completed_room_id is None,
    ensures
        should_start_new_run_spec(Some(room), opt_seq(s.last_completed_room_id), true),
{
}

/// A call of one of a session's `&mut` methods, with its arguments.
pub enum SessionCall {
    BumpPollGeneration,
    SetPollGeneration(u64),
    MarkFlowRunStarted(i64),
    MarkFlowRunCompleted(Option<Seq<char>>),
    MarkDownstreamStage(i64, Seq<char>),
    MarkFlowRunStopped,
    MarkSourceOffline,
    Cancel,
    Teardown,
    Fail(Seq<char>),
}

/// `after` is what the method of `call` leaves of `before`, as its contract states.
pub open spec fn call_step(before: LiveRuntimeSession, after: LiveRuntimeSession, call: SessionCall) -> bool {
    match call {
        SessionCall::BumpPollGeneration => before.poll_generation < u64::MAX
            && after == (LiveRuntimeSession { poll_generation: (before.poll_generation + 1) as u64, ..before }),
        SessionCall::SetPollGeneration(g) => after == (LiveRuntimeSession { poll_generation: g, ..before }),
        SessionCall::MarkFlowRunStarted(run) => after == (LiveRuntimeSession {
            active_flow_run_id: Some(run),
            downstream_status: None,
            ..before
        }),
        SessionCall::MarkFlowRunCompleted(room) => opt_seq(after.last_completed_room_id) == room
            && after == (LiveRuntimeSession {
                active_flow_run_id: None,
                downstream_status: None,
                last_completed_room_id: after.last_completed_room_id,
                ..before
            }),
        SessionCall::MarkDownstreamStage(run, status) => opt_seq(after.downstream_status) == Some(status)
            && after == (LiveRuntimeSession {
                active_flow_run_id: Some(run),
                downstream_status: after.downstream_status,
                ..before
            }),
        SessionCall::MarkFlowRunStopped => after == (LiveRuntimeSession {
            active_flow_run_id: None,
            downstream_status: None,
            ..before
        }),
        SessionCall::MarkSourceOffline => after == (LiveRuntimeSession {
            active_flow_run_id: None,
            last_completed_room_id: None,
            downstream_status: None,
            ..before
        }),
        SessionCall::Cancel => after == (LiveRuntimeSession { stopped: true, ..before }),
        SessionCall::Teardown => after == torn_down(before),
        SessionCall::Fail(e) => opt_seq(after.last_error) == Some(e) && after == (LiveRuntimeSession {
            stopped: true,
            downstream_status: None,
            last_error: after.last_error,
            ..before
        }),
    }
}

/// `states[k + 1]` comes from `states[k]` by `calls[k]`.
pub open spec fn is_call_chain(states: Seq<LiveRuntimeSession>, calls: Seq<SessionCall>) -> bool {
    &&& states.len() == calls.len() + 1
    &&& forall|k: int| 0 <= k < calls.len() ==> call_step(states[k], states[k + 1], #[trigger] calls[k])
}

/// The error of the last `fail`, if any.
pub open spec fn last_failure(calls: Seq<SessionCall>) -> Option<Seq<char>>
    decreases calls.len(),
{
    if calls.len() == 0 {
        None
    } else {
        match calls.last() {
            SessionCall::Fail(e) => Some(e),
            _ => last_failure(calls.drop_last()),
        }
    }
}

/// Whether `cancel`, `teardown` or `fail` ever ran.
pub open spec fn ever_stopped(calls: Seq<SessionCall>) -> bool
    decreases calls.len(),
{
    if calls.len() == 0 {
        false
    } else {
        match calls.last() {
            SessionCall::Cancel | SessionCall::Teardown | SessionCall::Fail(_) => true,
            _ => ever_stopped(calls.drop_last()),
        }
    }
}

/// The run that was started or moved on to a downstream stage last, unless a
/// later call completed, stopped or tore it down, or the source went offline.
pub open spec fn run_after(calls: Seq<SessionCall>) -> Option<i64>
    decreases calls.len(),
{
    if calls.len() == 0 {
        None
    } else {
        match calls.last() {
            SessionCall::MarkFlowRunStarted(run) => Some(run),
            SessionCall::MarkDownstreamStage(run, _) => Some(run),
            SessionCall::MarkFlowRunCompleted(_) | SessionCall::MarkFlowRunStopped | SessionCall::MarkSourceOffline
            | SessionCall::Teardown => None,
            _ => run_after(calls.drop_last()),
        }
    }
}

/// The stage of the last `mark_downstream_stage`, unless a later call
/// started, completed or stopped a run, tore down or failed the session, or
/// the source went offline.
pub open spec fn stage_after(calls: Seq<SessionCall>) -> Option<Seq<char>>
    decreases calls.len(),
{
    if calls.len() == 0 {
        None
    } else {
        match calls.last() {
            SessionCall::MarkDownstreamStage(_, st) => Some(st),
            SessionCall::MarkFlowRunStarted(_) | SessionCall::MarkFlowRunCompleted(_) | SessionCall::MarkFlowRunStopped
            | SessionCall::MarkSourceOffline | SessionCall::Teardown | SessionCall::Fail(_) => None,
            _ => stage_after(calls.drop_last()),
        }
    }
}

/// The status a session reports after `calls`, from a new session.
pub open spec fn status_after(calls: Seq<SessionCall>) -> Seq<char> {
    if last_failure(calls) is Some {
        "error"@
    } else if ever_stopped(calls) {
        "stopped"@
    } else if run_after(calls) is Some {
        match stage_after(calls) {
            Some(st) => st,
            None => "recording"@,
        }
    } else {
        "watching"@
    }
}

proof fn lemma_call_chain_state(states: Seq<LiveRuntimeSession>, calls: Seq<SessionCall>, n: int)
    requires
        is_call_chain(states, calls),
        0 <= n <= calls.len(),
        !states[0].stopped,
        states[0].last_error is None,
        states[0].active_flow_run_id is None,
        states[0].downstream_status is None,
    ensures
        states[n].flow_id == states[0].flow_id,
        states[n].flow_name == states[0].flow_name,
        states[n].username == states[0].username,
        states[n].lookup_key == states[0].lookup_key,
        states[n].generation == states[0].generation,
        states[n].stopped == ever_stopped(calls.subrange(0, n)),
        opt_seq(states[n].last_error) == last_failure(calls.subrange(0, n)),
        states[n].active_flow_run_id == run_after(calls.subrange(0, n)),
        opt_seq(states[n].downstream_status) == stage_after(calls.subrange(0, n)),
    decreases n,
{
    if n > 0 {
        lemma_call_chain_state(states, calls, n - 1);
        let pre = calls.subrange(0, n - 1);
        let cur = calls.subrange(0, n);
        assert(cur.drop_last() =~= pre);
        assert(cur.last() == calls[n - 1]);
        assert(call_step(states[n - 1], states[n], calls[n - 1]));
    }
}

/// From a new session, after any sequence of calls of its methods, the
/// snapshot keeps the identity it was made with; its last error is that of
/// the last `fail` (none if it never failed); and its status is "error" once
/// it failed, else "stopped" once cancelled or torn down, else, while a run is
/// active, the stage of the last `mark_downstream_stage` not followed by a
/// start, completion, stop or offline mark ("recording" if none), else
/// "watching".
pub proof fn law_snapshot_after_calls(
    states: Seq<LiveRuntimeSession>,
    calls: Seq<SessionCall>,
    r: LiveRuntimeSessionSnapshot,
)
    requires
        is_call_chain(states, calls),
        !states[0].stopped,
        states[0].last_error is None,
        states[0].active_flow_run_id is None,
        states[0].downstream_status is None,
        is_snapshot_of(r, states.last()),
    ensures
        r.flow_id == states[0].flow_id,
        r.flow_name@ == states[0].flow_name@,
        r.username@ == states[0].username@,
        r.lookup_key@ == states[0].lookup_key@,
        r.generation == states[0].generation,
        opt_seq(r.last_error) == last_failure(calls),
        r.status@ == status_after(calls),
{
    let n = calls.len() as int;
    lemma_call_chain_state(states, calls, n);
    assert(calls.subrange(0, n) =~= calls);
    lemma_failure_is_stop(calls);
}

proof fn lemma_failure_is_stop(calls: Seq<SessionCall>)
    ensures
        last_failure(calls) is Some ==> ever_stopped(calls),
    decreases calls.len(),
{
    if calls.len() > 0 {
        lemma_failure_is_stop(calls.drop_last());
    }
}

} // verus!
