//! Flow runtime log entries: their shape, the redaction of secrets from
//! their context, their terminal form, and the bounded buffer that keeps
//! the latest ones.
use vstd::prelude::*;
use std::collections::VecDeque;
use crate::json::{
    json_text, json_to_string, jview, jview_items, jview_members, lemma_jview_items, lemma_jview_members,
    JsonNumber, JsonValue, JsonView,
};
use crate::session::{opt_seq, opt_str_seq, opt_str_to_string};
use crate::text::{append_chars, append_str, contains, contains_str, dec_int, fmt_i64, fmt_u64, lower, lower_chars, chars_eq_str, str_chars, string_from, string_of};

verus! {

/// The number of entries a buffer keeps by default.
pub const DEFAULT_FLOW_RUNTIME_LOG_BUFFER_CAPACITY: usize = 500;

/// How serious a log entry is.
#[derive(Debug, Clone, Copy, PartialEq, Eq)]
pub enum FlowRuntimeLogLevel {
    Debug,
    Info,
    Warn,
    Error,
}

/// The snake-case name a level is written as.
pub open spec fn level_name(l: FlowRuntimeLogLevel) -> Seq<char> {
    match l {
        FlowRuntimeLogLevel::Debug => "debug"@,
        FlowRuntimeLogLevel::Info => "info"@,
        FlowRuntimeLogLevel::Warn => "warn"@,
        FlowRuntimeLogLevel::Error => "error"@,
    }
}

pub fn level_str(l: FlowRuntimeLogLevel) -> (r: &'static str)
    ensures
        r@ == level_name(l),
{
    match l {
        FlowRuntimeLogLevel::Debug => "debug",
        FlowRuntimeLogLevel::Info => "info",
        FlowRuntimeLogLevel::Warn => "warn",
        FlowRuntimeLogLevel::Error => "error",
    }
}

// ---------------------------------------------------------------------------
// Redaction
// ---------------------------------------------------------------------------
/// A context key whose value is a secret: it names a cookie, token,
/// authorization, secret or password (any case), or is a stream or proxy URL.
pub open spec fn is_sensitive_key(key: Seq<char>) -> bool {
    let n = lower(key);
    contains(n, "cookie"@) || contains(n, "token"@) || contains(n, "authorization"@) || contains(n, "secret"@)
        || contains(n, "password"@) || n == "stream_url"@ || n == "proxy_url"@
}

pub fn is_sensitive_context_key(key: &str) -> (r: bool)
    ensures
        r == is_sensitive_key(key@),
{
    let k = str_chars(key);
    let n = lower_chars(k.as_slice());
    let s = n.as_slice();
    contains_str(s, "cookie") || contains_str(s, "token") || contains_str(s, "authorization")
        || contains_str(s, "secret") || contains_str(s, "password") || chars_eq_str(s, "stream_url")
        || chars_eq_str(s, "proxy_url")
}

pub open spec fn redacted_marker() -> JsonView {
    JsonView::Str("[redacted]"@)
}

/// The document with the value of every sensitive key, at any depth,
/// replaced by `"[redacted]"`.
pub open spec fn redact(v: JsonView) -> JsonView
    decreases v, 0int,
{
    match v {
        JsonView::Object(ms) => JsonView::Object(redact_members(ms)),
        JsonView::Array(xs) => JsonView::Array(redact_items(xs)),
        _ => v,
    }
}

pub open spec fn redact_items(xs: Seq<JsonView>) -> Seq<JsonView>
    decreases xs, 1int,
{
    if xs.len() == 0 {
        Seq::empty()
    } else {
        seq![redact(xs[0])] + redact_items(xs.subrange(1, xs.len() as int))
    }
}

pub open spec fn redact_members(ms: Seq<(Seq<char>, JsonView)>) -> Seq<(Seq<char>, JsonView)>
    decreases ms, 1int,
{
    if ms.len() == 0 {
        Seq::empty()
    } else {
        let v = if is_sensitive_key(ms[0].0) {
            redacted_marker()
        } else {
            redact(ms[0].1)
        };
        seq![(ms[0].0, v)] + redact_members(ms.subrange(1, ms.len() as int))
    }
}

/// No sensitive key, at any depth, holds anything but `"[redacted]"`.
pub open spec fn no_secrets(v: JsonView) -> bool
    decreases v, 0int,
{
    match v {
        JsonView::Object(ms) => no_secrets_members(ms),
        JsonView::Array(xs) => no_secrets_items(xs),
        _ => true,
    }
}

pub open spec fn no_secrets_items(xs: Seq<JsonView>) -> bool
    decreases xs, 1int,
{
    xs.len() == 0 || (no_secrets(xs[0]) && no_secrets_items(xs.subrange(1, xs.len() as int)))
}

pub open spec fn no_secrets_members(ms: Seq<(Seq<char>, JsonView)>) -> bool
    decreases ms, 1int,
{
    ms.len() == 0 || ((if is_sensitive_key(ms[0].0) {
        ms[0].1 == redacted_marker()
    } else {
        no_secrets(ms[0].1)
    }) && no_secrets_members(ms.subrange(1, ms.len() as int)))
}

/// Redaction leaves no secret in a context, whatever it held.
pub proof fn law_redaction_leaves_no_secret(v: JsonView)
    ensures
        no_secrets(redact(v)),
    decreases v, 0int,
{
    match v {
        JsonView::Object(ms) => lemma_members_no_secrets(ms),
        JsonView::Array(xs) => lemma_items_no_secrets(xs),
        _ => {},
    }
}

proof fn lemma_items_no_secrets(xs: Seq<JsonView>)
    ensures
        no_secrets_items(redact_items(xs)),
    decreases xs, 1int,
{
    if xs.len() > 0 {
        law_redaction_leaves_no_secret(xs[0]);
        lemma_items_no_secrets(xs.subrange(1, xs.len() as int));
        let r = redact_items(xs);
        assert(r.subrange(1, r.len() as int) =~= redact_items(xs.subrange(1, xs.len() as int)));
    }
}

proof fn lemma_members_no_secrets(ms: Seq<(Seq<char>, JsonView)>)
    ensures
        no_secrets_members(redact_members(ms)),
    decreases ms, 1int,
{
    if ms.len() > 0 {
        if !is_sensitive_key(ms[0].0) {
            law_redaction_leaves_no_secret(ms[0].1);
        }
        lemma_members_no_secrets(ms.subrange(1, ms.len() as int));
        let r = redact_members(ms);
        assert(r.subrange(1, r.len() as int) =~= redact_members(ms.subrange(1, ms.len() as int)));
    }
}

/// Redacting twice is redacting once.
pub proof fn law_redaction_is_idempotent(v: JsonView)
    ensures
        redact(redact(v)) == redact(v),
    decreases v, 0int,
{
    match v {
        JsonView::Object(ms) => lemma_members_idempotent(ms),
        JsonView::Array(xs) => lemma_items_idempotent(xs),
        _ => {},
    }
}

proof fn lemma_items_idempotent(xs: Seq<JsonView>)
    ensures
        redact_items(redact_items(xs)) == redact_items(xs),
    decreases xs, 1int,
{
    if xs.len() > 0 {
        law_redaction_is_idempotent(xs[0]);
        lemma_items_idempotent(xs.subrange(1, xs.len() as int));
        let r = redact_items(xs);
        assert(r.subrange(1, r.len() as int) =~= redact_items(xs.subrange(1, xs.len() as int)));
        assert(redact_items(r) =~= r);
    }
}

proof fn lemma_members_idempotent(ms: Seq<(Seq<char>, JsonView)>)
    ensures
        redact_members(redact_members(ms)) == redact_members(ms),
    decreases ms, 1int,
{
    if ms.len() > 0 {
        if !is_sensitive_key(ms[0].0) {
            law_redaction_is_idempotent(ms[0].1);
        }
        lemma_members_idempotent(ms.subrange(1, ms.len() as int));
        let r = redact_members(ms);
        assert(r.subrange(1, r.len() as int) =~= redact_members(ms.subrange(1, ms.len() as int)));
        assert(redact_members(r) =~= r);
    }
}

/// A copy of a document.
pub fn clone_json(v: &JsonValue) -> (r: JsonValue)
    ensures
        jview(r) == jview(*v),
    decreases v,
{
    match v {
        JsonValue::Null => JsonValue::Null,
        JsonValue::Bool(b) => JsonValue::Bool(*b),
        JsonValue::Number(n) => JsonValue::Number(JsonNumber { int_value: n.int_value, text: n.text.clone() }),
        JsonValue::Str(s) => JsonValue::Str(s.clone()),
        JsonValue::Array(xs) => {
            let mut out: Vec<JsonValue> = Vec::new();
            let mut i: usize = 0;
            proof {
                lemma_jview_items(xs@);
            }
            while i < xs.len()
                invariant
                    *v == JsonValue::Array(*xs),
                    i <= xs@.len(),
                    jview_items(out@) == jview_items(xs@).subrange(0, i as int),
                decreases xs@.len() - i,
            {
                proof {
                    assert(decreases_to!(*v => (*v)->Array_0));
                    lemma_jview_items(xs@);
                    lemma_jview_items(out@);
                }
                let c = clone_json(&xs[i]);
                let ghost before = out@;
                out.push(c);
                proof {
                    lemma_jview_items(out@);
                    lemma_jview_items(xs@);
                    assert(jview_items(out@) =~= jview_items(xs@).subrange(0, i + 1));
                }
                i = i + 1;
            }
            proof {
                lemma_jview_items(xs@);
                assert(jview_items(xs@).subrange(0, xs@.len() as int) =~= jview_items(xs@));
            }
            JsonValue::Array(out)
        },
        JsonValue::Object(ps) => {
            let mut out: Vec<(String, JsonValue)> = Vec::new();
            let mut i: usize = 0;
            proof {
                lemma_jview_members(ps@);
            }
            while i < ps.len()
                invariant
                    *v == JsonValue::Object(*ps),
                    i <= ps@.len(),
                    jview_members(out@) == jview_members(ps@).subrange(0, i as int),
                decreases ps@.len() - i,
            {
                proof {
                    assert(decreases_to!(*v => (*v)->Object_0));
                    lemma_jview_members(ps@);
                    lemma_jview_members(out@);
                }
                let c = clone_json(&ps[i].1);
                out.push((ps[i].0.clone(), c));
                proof {
                    lemma_jview_members(out@);
                    lemma_jview_members(ps@);
                    assert(jview_members(out@) =~= jview_members(ps@).subrange(0, i + 1));
                }
                i = i + 1;
            }
            proof {
                lemma_jview_members(ps@);
                assert(jview_members(ps@).subrange(0, ps@.len() as int) =~= jview_members(ps@));
            }
            JsonValue::Object(out)
        },
    }
}

/// The context with every secret replaced by `"[redacted]"`.
pub fn redact_sensitive_context(value: &JsonValue) -> (r: JsonValue)
    ensures
        jview(r) == redact(jview(*value)),
    decreases value,
{
    match value {
        JsonValue::Array(xs) => {
            let mut out: Vec<JsonValue> = Vec::new();
            let mut i: usize = 0;
            proof {
                lemma_jview_items(xs@);
                lemma_redact_items_len(jview_items(xs@));
            }
            while i < xs.len()
                invariant
                    *value == JsonValue::Array(*xs),
                    i <= xs@.len(),
                    jview_items(out@) == redact_items(jview_items(xs@)).subrange(0, i as int),
                decreases xs@.len() - i,
            {
                proof {
                    assert(decreases_to!(*value => (*value)->Array_0));
                    lemma_jview_items(xs@);
                    lemma_jview_items(out@);
                    lemma_redact_items_len(jview_items(xs@));
                    lemma_redact_items_at(jview_items(xs@), i as int);
                }
                let c = redact_sensitive_context(&xs[i]);
                out.push(c);
                proof {
                    lemma_jview_items(out@);
                    assert(jview_items(out@) =~= redact_items(jview_items(xs@)).subrange(0, i + 1));
                }
                i = i + 1;
            }
            proof {
                lemma_jview_items(xs@);
                lemma_redact_items_len(jview_items(xs@));
                assert(redact_items(jview_items(xs@)).subrange(0, xs@.len() as int) =~= redact_items(jview_items(xs@)));
            }
            JsonValue::Array(out)
        },
        JsonValue::Object(ps) => {
            let mut out: Vec<(String, JsonValue)> = Vec::new();
            let mut i: usize = 0;
            proof {
                lemma_jview_members(ps@);
                lemma_redact_members_len(jview_members(ps@));
            }
            while i < ps.len()
                invariant
                    *value == JsonValue::Object(*ps),
                    i <= ps@.len(),
                    jview_members(out@) == redact_members(jview_members(ps@)).subrange(0, i as int),
                decreases ps@.len() - i,
            {
                proof {
                    assert(decreases_to!(*value => (*value)->Object_0));
                    lemma_jview_members(ps@);
                    lemma_jview_members(out@);
                    lemma_redact_members_len(jview_members(ps@));
                    lemma_redact_members_at(jview_members(ps@), i as int);
                }
                let key = &ps[i].0;
                let c = if is_sensitive_context_key(key.as_str()) {
                    JsonValue::Str(string_of("[redacted]"))
                } else {
                    redact_sensitive_context(&ps[i].1)
                };
                out.push((key.clone(), c));
                proof {
                    lemma_jview_members(out@);
                    assert(jview_members(out@) =~= redact_members(jview_members(ps@)).subrange(0, i + 1));
                }
                i = i + 1;
            }
            proof {
                lemma_jview_members(ps@);
                lemma_redact_members_len(jview_members(ps@));
                assert(redact_members(jview_members(ps@)).subrange(0, ps@.len() as int) =~= redact_members(jview_members(ps@)));
            }
            JsonValue::Object(out)
        },
        _ => clone_json(value),
    }
}

proof fn lemma_redact_items_len(xs: Seq<JsonView>)
    ensures
        redact_items(xs).len() == xs.len(),
    decreases xs.len(),
{
    if xs.len() > 0 {
        lemma_redact_items_len(xs.subrange(1, xs.len() as int));
    }
}

proof fn lemma_redact_items_at(xs: Seq<JsonView>, i: int)
    requires
        0 <= i < xs.len(),
    ensures
        redact_items(xs)[i] == redact(xs[i]),
    decreases i,
{
    if i > 0 {
        let rest = xs.subrange(1, xs.len() as int);
        lemma_redact_items_at(rest, i - 1);
        lemma_redact_items_len(rest);
        assert(rest[i - 1] == xs[i]);
        assert(redact_items(xs)[i] == redact_items(rest)[i - 1]);
    }
}

proof fn lemma_redact_members_len(ms: Seq<(Seq<char>, JsonView)>)
    ensures
        redact_members(ms).len() == ms.len(),
    decreases ms.len(),
{
    if ms.len() > 0 {
        lemma_redact_members_len(ms.subrange(1, ms.len() as int));
    }
}

proof fn lemma_redact_members_at(ms: Seq<(Seq<char>, JsonView)>, i: int)
    requires
        0 <= i < ms.len(),
    ensures
        redact_members(ms)[i] == (ms[i].0, if is_sensitive_key(ms[i].0) {
            redacted_marker()
        } else {
            redact(ms[i].1)
        }),
    decreases i,
{
    if i > 0 {
        let rest = ms.subrange(1, ms.len() as int);
        lemma_redact_members_at(rest, i - 1);
        lemma_redact_members_len(rest);
        assert(rest[i - 1] == ms[i]);
        assert(redact_members(ms)[i] == redact_members(rest)[i - 1]);
    }
}

/// The context as the terminal shows it: redacted, compact JSON.
pub fn format_terminal_context(context: &JsonValue) -> (r: String)
    ensures
        r@ == json_text(redact(jview(*context))),
{
    let red = redact_sensitive_context(context);
    json_to_string(&red)
}

// ---------------------------------------------------------------------------
// Entries
// ---------------------------------------------------------------------------
/// One runtime log entry. Its context is kept redacted.
#[derive(Debug)]
pub struct FlowRuntimeLogEntry {
    pub id: String,
    pub timestamp: String,
    pub level: FlowRuntimeLogLevel,
    pub flow_id: i64,
    pub flow_run_id: Option<i64>,
    pub external_recording_id: Option<String>,
    pub stage: String,
    pub event: String,
    pub code: Option<String>,
    pub message: String,
    pub context: JsonValue,
}

/// The id of an entry: `log-{flow_id}-{timestamp}-{sequence}`.
pub open spec fn log_id(flow_id: i64, timestamp: Seq<char>, sequence: u64) -> Seq<char> {
    "log-"@ + dec_int(flow_id as int) + "-"@ + timestamp + "-"@ + crate::text::dec_nat(sequence as nat)
}

/// Two entries say the same thing.
pub open spec fn same_entry(a: FlowRuntimeLogEntry, b: FlowRuntimeLogEntry) -> bool {
    &&& a.id@ == b.id@
    &&& a.timestamp@ == b.timestamp@
    &&& a.level == b.level
    &&& a.flow_id == b.flow_id
    &&& a.flow_run_id == b.flow_run_id
    &&& opt_seq(a.external_recording_id) == opt_seq(b.external_recording_id)
    &&& a.stage@ == b.stage@
    &&& a.event@ == b.event@
    &&& opt_seq(a.code) == opt_seq(b.code)
    &&& a.message@ == b.message@
    &&& jview(a.context) == jview(b.context)
}

/// The ids handed to entries, one after the other (wrapping like an atomic counter).
pub struct LogIdSequence {
    pub next: u64,
}

impl LogIdSequence {
    /// A sequence starting at 1.
    pub fn new() -> (r: Self)
        ensures
            r.next == 1,
    {
        LogIdSequence { next: 1 }
    }

    /// The next number of the sequence.
    pub fn take(&mut self) -> (r: u64)
        ensures
            r == old(self).next,
            final(self).next == (if old(self).next == u64::MAX { 0 } else { old(self).next + 1 }),
    {
        let r = self.next;
        self.next = if self.next == 18446744073709551615u64 { 0 } else { self.next + 1 };
        r
    }
}

/// The current time in the GMT+7 zone, RFC 3339 with milliseconds
/// (`chrono::Utc::now`, then `to_rfc3339_opts(SecondsFormat::Millis, false)`).
#[verifier::external_body]
fn now_runtime_log_timestamp_hcm() -> String {
    match chrono::FixedOffset::east_opt(7 * 3600) {
        Some(offset) => chrono::Utc::now().with_timezone(&offset).to_rfc3339_opts(chrono::SecondsFormat::Millis, false),
        None => chrono::Utc::now().to_rfc3339_opts(chrono::SecondsFormat::Millis, false),
    }
}

impl FlowRuntimeLogEntry {
    /// An entry made at `timestamp` with sequence number `sequence`; its
    /// context is stored redacted.
    pub fn new_at(
        flow_id: i64,
        flow_run_id: Option<i64>,
        external_recording_id: Option<&str>,
        stage: &str,
        event: &str,
        level: FlowRuntimeLogLevel,
        code: Option<&str>,
        message: &str,
        context: &JsonValue,
        timestamp: String,
        sequence: u64,
    ) -> (r: Self)
        ensures
            r.id@ == log_id(flow_id, timestamp@, sequence),
            r.timestamp@ == timestamp@,
            r.level == level,
            r.flow_id == flow_id,
            r.flow_run_id == flow_run_id,
            opt_seq(r.external_recording_id) == opt_str_seq(external_recording_id),
            r.stage@ == stage@,
            r.event@ == event@,
            opt_seq(r.code) == opt_str_seq(code),
            r.message@ == message@,
            jview(r.context) == redact(jview(*context)),
    {
        let mut id: Vec<char> = Vec::new();
        append_str(&mut id, "log-");
        let f = fmt_i64(flow_id);
        append_chars(&mut id, f.as_slice());
        append_str(&mut id, "-");
        append_str(&mut id, timestamp.as_str());
        append_str(&mut id, "-");
        let q = fmt_u64(sequence);
        append_chars(&mut id, q.as_slice());
        FlowRuntimeLogEntry {
            id: string_from(id.as_slice()),
            timestamp,
            level,
            flow_id,
            flow_run_id,
            external_recording_id: opt_str_to_string(external_recording_id),
            stage: string_of(stage),
            event: string_of(event),
            code: opt_str_to_string(code),
            message: string_of(message),
            context: redact_sensitive_context(context),
        }
    }

    /// An entry made now, with the next number of `ids`.
    pub fn new(
        flow_id: i64,
        flow_run_id: Option<i64>,
        external_recording_id: Option<&str>,
        stage: &str,
        event: &str,
        level: FlowRuntimeLogLevel,
        code: Option<&str>,
        message: &str,
        context: &JsonValue,
        ids: &mut LogIdSequence,
    ) -> (r: Self)
        ensures
            r.id@ == log_id(flow_id, r.timestamp@, old(ids).next),
            r.level == level,
            r.flow_id == flow_id,
            r.flow_run_id == flow_run_id,
            opt_seq(r.external_recording_id) == opt_str_seq(external_recording_id),
            r.stage@ == stage@,
            r.event@ == event@,
            opt_seq(r.code) == opt_str_seq(code),
            r.message@ == message@,
            jview(r.context) == redact(jview(*context)),
            final(ids).next == (if old(ids).next == u64::MAX { 0 } else { old(ids).next + 1 }),
    {
        let timestamp = now_runtime_log_timestamp_hcm();
        let sequence = ids.take();
        Self::new_at(flow_id, flow_run_id, external_recording_id, stage, event, level, code, message, context, timestamp, sequence)
    }
}

proof fn lemma_dec_nat_len(n: nat)
    ensures
        crate::text::dec_nat(n).len() >= 1,
        n >= 10 ==> crate::text::dec_nat(n).len() >= 2,
    decreases n,
{
    if n >= 10 {
        lemma_dec_nat_len(n / 10);
    }
}

proof fn lemma_dec_nat_injective(a: nat, b: nat)
    requires
        crate::text::dec_nat(a) == crate::text::dec_nat(b),
    ensures
        a == b,
    decreases a,
{
    lemma_dec_nat_len(a);
    lemma_dec_nat_len(b);
    let da = crate::text::dec_nat(a);
    let db = crate::text::dec_nat(b);
    if a < 10 && b < 10 {
        assert(da =~= seq![crate::text::digit_char(a as int)]);
        assert(db =~= seq![crate::text::digit_char(b as int)]);
        assert(da[0] == db[0]);
        assert(crate::text::digit_char(a as int) as u32 == 48 + a);
        assert(crate::text::digit_char(b as int) as u32 == 48 + b);
        let ca = crate::text::digit_char(a as int);
        let cb = crate::text::digit_char(b as int);
        assert(da[0] == ca);
        assert(db[0] == cb);
        assert(ca == cb);
        assert(ca as u32 == cb as u32);
        assert(a == b);
    } else if a >= 10 && b >= 10 {
        assert(da =~= crate::text::dec_nat(a / 10).push(crate::text::digit_char((a % 10) as int)));
        assert(db =~= crate::text::dec_nat(b / 10).push(crate::text::digit_char((b % 10) as int)));
        assert(da.last() == db.last());
        let ca = crate::text::digit_char((a % 10) as int);
        let cb = crate::text::digit_char((b % 10) as int);
        assert(da.last() == ca);
        assert(db.last() == cb);
        assert(ca as u32 == 48 + a % 10);
        assert(cb as u32 == 48 + b % 10);
        assert(a == 10 * (a / 10) + a % 10) by (nonlinear_arith);
        assert(b == 10 * (b / 10) + b % 10) by (nonlinear_arith);
        assert(da.drop_last() =~= crate::text::dec_nat(a / 10));
        assert(db.drop_last() =~= crate::text::dec_nat(b / 10));
        lemma_dec_nat_injective(a / 10, b / 10);
        assert(a % 10 == b % 10);
        assert(a == b);
    } else if a < 10 {
        assert(da.len() == 1);
        assert(da.len() != db.len());
    } else {
        assert(db.len() == 1);
        assert(da.len() != db.len());
    }
}

/// Entries of one flow stamped at the same time get distinct ids from
/// distinct sequence numbers.
pub proof fn law_log_ids_distinct(flow_id: i64, timestamp: Seq<char>, s1: u64, s2: u64)
    requires
        s1 != s2,
    ensures
        log_id(flow_id, timestamp, s1) != log_id(flow_id, timestamp, s2),
{
    let p = "log-"@ + dec_int(flow_id as int) + "-"@ + timestamp + "-"@;
    let d1 = crate::text::dec_nat(s1 as nat);
    let d2 = crate::text::dec_nat(s2 as nat);
    if log_id(flow_id, timestamp, s1) == log_id(flow_id, timestamp, s2) {
        assert((p + d1).subrange(p.len() as int, (p + d1).len() as int) =~= d1);
        assert((p + d2).subrange(p.len() as int, (p + d2).len() as int) =~= d2);
        lemma_dec_nat_injective(s1 as nat, s2 as nat);
    }
}

/// A copy of an entry.
pub fn clone_entry(e: &FlowRuntimeLogEntry) -> (r: FlowRuntimeLogEntry)
    ensures
        same_entry(r, *e),
{
    FlowRuntimeLogEntry {
        id: e.id.clone(),
        timestamp: e.timestamp.clone(),
        level: e.level,
        flow_id: e.flow_id,
        flow_run_id: e.flow_run_id,
        external_recording_id: match &e.external_recording_id {
            Some(x) => Some(x.clone()),
            None => None,
        },
        stage: e.stage.clone(),
        event: e.event.clone(),
        code: match &e.code {
            Some(x) => Some(x.clone()),
            None => None,
        },
        message: e.message.clone(),
        context: clone_json(&e.context),
    }
}

pub fn json_str(s: &str) -> (r: JsonValue)
    ensures
        jview(r) == JsonView::Str(s@),
{
    JsonValue::Str(string_of(s))
}

pub fn json_opt_str(s: &Option<String>) -> (r: JsonValue)
    ensures
        jview(r) == match s {
            Some(x) => JsonView::Str(x@),
            None => JsonView::Null,
        },
{
    match s {
        Some(x) => JsonValue::Str(x.clone()),
        None => JsonValue::Null,
    }
}

pub fn json_i64(i: i64) -> (r: JsonValue)
    ensures
        jview(r) == JsonView::Number(Some(i as int), dec_int(i as int)),
{
    JsonValue::Number(JsonNumber { int_value: Some(i), text: crate::text::i64_to_string(i) })
}

pub fn json_opt_i64(o: Option<i64>) -> (r: JsonValue)
    ensures
        jview(r) == match o {
            Some(i) => JsonView::Number(Some(i as int), dec_int(i as int)),
            None => JsonView::Null,
        },
{
    match o {
        Some(i) => json_i64(i),
        None => JsonValue::Null,
    }
}

pub open spec fn opt_str_json(o: Option<String>) -> JsonView {
    match o {
        Some(x) => JsonView::Str(x@),
        None => JsonView::Null,
    }
}

pub open spec fn opt_int_json(o: Option<i64>) -> JsonView {
    match o {
        Some(i) => JsonView::Number(Some(i as int), dec_int(i as int)),
        None => JsonView::Null,
    }
}

/// A `u64` as a JSON number.
pub open spec fn u64_json(n: u64) -> JsonView {
    JsonView::Number(if n <= i64::MAX { Some(n as int) } else { None }, crate::text::dec_nat(n as nat))
}

pub fn json_u64(n: u64) -> (r: JsonValue)
    ensures
        jview(r) == u64_json(n),
{
    let int_value = if n <= 9223372036854775807u64 { Some(n as i64) } else { None };
    let text = fmt_u64(n);
    JsonValue::Number(JsonNumber { int_value, text: string_from(text.as_slice()) })
}

pub fn json_bool(b: bool) -> (r: JsonValue)
    ensures
        jview(r) == JsonView::Bool(b),
{
    JsonValue::Bool(b)
}

/// A JSON object of the given members, in order.
pub fn json_object(members: Vec<(String, JsonValue)>) -> (r: JsonValue)
    ensures
        jview(r) == JsonView::Object(jview_members(members@)),
        jview_members(members@).len() == members@.len(),
        forall|i: int| 0 <= i < members@.len() ==> #[trigger] jview_members(members@)[i] == (members@[i].0@, jview(members@[i].1)),
{
    proof {
        lemma_jview_members(members@);
    }
    JsonValue::Object(members)
}

// ---------------------------------------------------------------------------
// Events waiting to be logged
// ---------------------------------------------------------------------------
/// A runtime event that is to be logged: an entry without its id and time.
#[derive(Debug)]
pub struct RuntimeEvent {
    pub flow_id: i64,
    pub flow_run_id: Option<i64>,
    pub external_recording_id: Option<String>,
    pub stage: String,
    pub event: String,
    pub level: FlowRuntimeLogLevel,
    pub code: Option<String>,
    pub message: String,
    pub context: JsonValue,
}

/// `e` is the event with these fields, about a recording.
pub open spec fn is_recording_event(
    e: RuntimeEvent,
    flow_id: i64,
    flow_run_id: Option<i64>,
    external_recording_id: Seq<char>,
    stage: Seq<char>,
    event: Seq<char>,
    level: FlowRuntimeLogLevel,
    code: Option<Seq<char>>,
    message: Seq<char>,
    context: JsonView,
) -> bool {
    &&& e.flow_id == flow_id
    &&& e.flow_run_id == flow_run_id
    &&& opt_seq(e.external_recording_id) == Some(external_recording_id)
    &&& e.stage@ == stage
    &&& e.event@ == event
    &&& e.level == level
    &&& opt_seq(e.code) == code
    &&& e.message@ == message
    &&& jview(e.context) == context
}

/// `e` is the event with these fields, about no particular recording.
pub open spec fn is_event(
    e: RuntimeEvent,
    flow_id: i64,
    flow_run_id: Option<i64>,
    stage: Seq<char>,
    event: Seq<char>,
    level: FlowRuntimeLogLevel,
    code: Option<Seq<char>>,
    message: Seq<char>,
    context: JsonView,
) -> bool {
    &&& e.flow_id == flow_id
    &&& e.flow_run_id == flow_run_id
    &&& e.external_recording_id is None
    &&& e.stage@ == stage
    &&& e.event@ == event
    &&& e.level == level
    &&& opt_seq(e.code) == code
    &&& e.message@ == message
    &&& jview(e.context) == context
}

pub fn recording_event(
    flow_id: i64,
    flow_run_id: Option<i64>,
    external_recording_id: &str,
    stage: &str,
    event: &str,
    level: FlowRuntimeLogLevel,
    code: Option<&str>,
    message: &str,
    context: JsonValue,
) -> (r: RuntimeEvent)
    ensures
        is_recording_event(
            r,
            flow_id,
            flow_run_id,
            external_recording_id@,
            stage@,
            event@,
            level,
            opt_str_seq(code),
            message@,
            jview(context),
        ),
{
    RuntimeEvent {
        flow_id,
        flow_run_id,
        external_recording_id: Some(string_of(external_recording_id)),
        stage: string_of(stage),
        event: string_of(event),
        level,
        code: opt_str_to_string(code),
        message: string_of(message),
        context,
    }
}

pub fn runtime_event(
    flow_id: i64,
    flow_run_id: Option<i64>,
    stage: &str,
    event: &str,
    level: FlowRuntimeLogLevel,
    code: Option<&str>,
    message: &str,
    context: JsonValue,
) -> (r: RuntimeEvent)
    ensures
        is_event(r, flow_id, flow_run_id, stage@, event@, level, opt_str_seq(code), message@, jview(context)),
{
    RuntimeEvent {
        flow_id,
        flow_run_id,
        external_recording_id: None,
        stage: string_of(stage),
        event: string_of(event),
        level,
        code: opt_str_to_string(code),
        message: string_of(message),
        context,
    }
}

impl RuntimeEvent {
    /// The log entry of this event, made now with the next number of `ids`.
    pub fn into_entry(self, ids: &mut LogIdSequence) -> (r: FlowRuntimeLogEntry)
        ensures
            r.id@ == log_id(self.flow_id, r.timestamp@, old(ids).next),
            r.level == self.level,
            r.flow_id == self.flow_id,
            r.flow_run_id == self.flow_run_id,
            opt_seq(r.external_recording_id) == opt_seq(self.external_recording_id),
            r.stage@ == self.stage@,
            r.event@ == self.event@,
            opt_seq(r.code) == opt_seq(self.code),
            r.message@ == self.message@,
            jview(r.context) == redact(jview(self.context)),
            final(ids).next == (if old(ids).next == u64::MAX { 0 } else { old(ids).next + 1 }),
    {
        let code: Option<&str> = match &self.code {
            Some(c) => Some(c.as_str()),
            None => None,
        };
        let recording: Option<&str> = match &self.external_recording_id {
            Some(x) => Some(x.as_str()),
            None => None,
        };
        FlowRuntimeLogEntry::new(
            self.flow_id,
            self.flow_run_id,
            recording,
            self.stage.as_str(),
            self.event.as_str(),
            self.level,
            code,
            self.message.as_str(),
            &self.context,
            ids,
        )
    }
}

/// The document the terminal line of an entry shows.
pub open spec fn entry_document(e: FlowRuntimeLogEntry) -> JsonView {
    JsonView::Object(
        seq![
            ("timestamp"@, JsonView::Str(e.timestamp@)),
            ("level"@, JsonView::Str(level_name(e.level))),
            ("flow_id"@, JsonView::Number(Some(e.flow_id as int), dec_int(e.flow_id as int))),
            ("flow_run_id"@, opt_int_json(e.flow_run_id)),
            ("external_recording_id"@, opt_str_json(e.external_recording_id)),
            ("stage"@, JsonView::Str(e.stage@)),
            ("event"@, JsonView::Str(e.event@)),
            ("code"@, opt_str_json(e.code)),
            ("message"@, JsonView::Str(e.message@)),
            ("context"@, redact(jview(e.context))),
        ],
    )
}

/// The terminal line of an entry: `flow_runtime ` and its document, the context redacted.
pub fn format_terminal_entry(entry: &FlowRuntimeLogEntry) -> (r: String)
    ensures
        r@ == "flow_runtime "@ + json_text(entry_document(*entry)),
{
    let mut ms: Vec<(String, JsonValue)> = Vec::new();
    ms.push((string_of("timestamp"), JsonValue::Str(entry.timestamp.clone())));
    ms.push((string_of("level"), json_str(level_str(entry.level))));
    ms.push((string_of("flow_id"), json_i64(entry.flow_id)));
    ms.push((string_of("flow_run_id"), json_opt_i64(entry.flow_run_id)));
    ms.push((string_of("external_recording_id"), json_opt_str(&entry.external_recording_id)));
    ms.push((string_of("stage"), JsonValue::Str(entry.stage.clone())));
    ms.push((string_of("event"), JsonValue::Str(entry.event.clone())));
    ms.push((string_of("code"), json_opt_str(&entry.code)));
    ms.push((string_of("message"), JsonValue::Str(entry.message.clone())));
    ms.push((string_of("context"), redact_sensitive_context(&entry.context)));
    let doc = JsonValue::Object(ms);
    proof {
        lemma_jview_members(ms@);
        assert(jview_members(ms@) =~= entry_document(*entry)->Object_0);
    }
    let text = json_to_string(&doc);
    let mut out = str_chars("flow_runtime ");
    append_str(&mut out, text.as_str());
    string_from(out.as_slice())
}

// ---------------------------------------------------------------------------
// The buffer of latest entries
// ---------------------------------------------------------------------------
/// At most `cap` entries, the latest ones, oldest first.
pub struct FlowRuntimeLogBuffer {
    cap: usize,
    entries: VecDeque<FlowRuntimeLogEntry>,
}

/// The last `cap` entries of `s`.
pub open spec fn keep_latest(s: Seq<FlowRuntimeLogEntry>, cap: nat) -> Seq<FlowRuntimeLogEntry> {
    if s.len() > cap {
        s.subrange(s.len() - cap, s.len() as int)
    } else {
        s
    }
}

impl View for FlowRuntimeLogBuffer {
    type V = Seq<FlowRuntimeLogEntry>;

    closed spec fn view(&self) -> Seq<FlowRuntimeLogEntry> {
        self.entries@
    }
}

impl FlowRuntimeLogBuffer {
    /// How many entries the buffer keeps.
    pub closed spec fn capacity(&self) -> nat {
        self.cap as nat
    }

    /// The buffer never holds more than its capacity.
    pub closed spec fn wf(&self) -> bool {
        self.entries@.len() <= self.cap
    }

    /// An empty buffer keeping up to `cap` entries.
    pub fn new(cap: usize) -> (r: Self)
        ensures
            r.wf(),
            r@.len() == 0,
            r.capacity() == cap,
    {
        FlowRuntimeLogBuffer { cap, entries: VecDeque::new() }
    }

    /// Adds an entry; the oldest ones go once there are more than the capacity.
    pub fn push(&mut self, entry: FlowRuntimeLogEntry)
        requires
            old(self).wf(),
        ensures
            final(self).wf(),
            final(self).capacity() == old(self).capacity(),
            final(self)@ == keep_latest(old(self)@.push(entry), old(self).capacity()),
    {
        let ghost all = self.entries@.push(entry);
        self.entries.push_back(entry);
        if self.entries.len() > self.cap {
            let _ = self.entries.pop_front();
            proof {
                assert(self.entries@ =~= all.subrange(all.len() - self.cap, all.len() as int));
            }
        }
    }

    /// Copies of the entries, oldest first.
    pub fn entries(&self) -> (r: Vec<FlowRuntimeLogEntry>)
        ensures
            r@.len() == self@.len(),
            forall|i: int| 0 <= i < r@.len() ==> same_entry(#[trigger] r@[i], self@[i]),
    {
        let mut out: Vec<FlowRuntimeLogEntry> = Vec::new();
        let mut i: usize = 0;
        while i < self.entries.len()
            invariant
                i <= self.entries@.len(),
                out@.len() == i,
                forall|k: int| 0 <= k < i ==> same_entry(#[trigger] out@[k], self.entries@[k]),
            decreases self.entries@.len() - i,
        {
            let e = clone_entry(&self.entries[i]);
            out.push(e);
            i = i + 1;
        }
        out
    }
}

/// The entries of `flow_id`, or all of them.
pub open spec fn of_flow(flow_id: Option<i64>) -> spec_fn(FlowRuntimeLogEntry) -> bool {
    |e: FlowRuntimeLogEntry| match flow_id {
        Some(f) => e.flow_id == f,
        None => true,
    }
}

/// The entries shown for a flow (or all) under a limit: those of the flow,
/// in order, and of those the last `limit` when there is a limit.
pub open spec fn selected_logs(s: Seq<FlowRuntimeLogEntry>, flow_id: Option<i64>, limit: Option<usize>) -> Seq<FlowRuntimeLogEntry> {
    let f = s.filter(of_flow(flow_id));
    match limit {
        Some(n) => keep_latest(f, n as nat),
        None => f,
    }
}

/// The entries of `flow_id` (or all), oldest first, and of those the last
/// `limit` (none for a limit of 0).
pub fn select_runtime_logs(
    entries: Vec<FlowRuntimeLogEntry>,
    flow_id: Option<i64>,
    limit: Option<usize>,
) -> (r: Vec<FlowRuntimeLogEntry>)
    ensures
        r@ == selected_logs(entries@, flow_id, limit),
{
    let ghost orig = entries@;
    let mut rest = entries;
    let mut kept: Vec<FlowRuntimeLogEntry> = Vec::new();
    let mut i: usize = 0;
    let n = rest.len();
    while rest.len() > 0
        invariant
            n == orig.len(),
            i + rest@.len() == n,
            rest@ == orig.subrange(i as int, n as int),
            kept@ == orig.subrange(0, i as int).filter(of_flow(flow_id)),
        decreases rest@.len(),
    {
        let e = rest.remove(0);
        proof {
            let pre = orig.subrange(0, i as int);
            let post = orig.subrange(0, i + 1);
            assert(post.drop_last() =~= pre);
            assert(post.last() == e);
            reveal(Seq::filter);
        }
        let keep = match flow_id {
            Some(f) => e.flow_id == f,
            None => true,
        };
        if keep {
            kept.push(e);
        }
        i = i + 1;
    }
    proof {
        assert(orig.subrange(0, n as int) =~= orig);
    }
    let ghost f = kept@;
    match limit {
        Some(lim) => {
            while kept.len() > lim
                invariant
                    kept@.len() <= f.len(),
                    kept@.len() == f.len() || kept@.len() >= lim,
                    kept@ == f.subrange(f.len() - kept@.len(), f.len() as int),
                decreases kept@.len(),
            {
                kept.remove(0);
                assert(kept@ =~= f.subrange(f.len() - kept@.len(), f.len() as int));
            }
            proof {
                if f.len() <= lim {
                    assert(kept@ =~= f);
                }
            }
            kept
        },
        None => kept,
    }
}

impl Default for FlowRuntimeLogBuffer {
    fn default() -> (r: Self)
        ensures
            r.wf(),
            r@.len() == 0,
            r.capacity() == DEFAULT_FLOW_RUNTIME_LOG_BUFFER_CAPACITY,
    {
        Self::new(DEFAULT_FLOW_RUNTIME_LOG_BUFFER_CAPACITY)
    }
}

/// A buffer holds the latest entries, oldest first, never more than its
/// capacity; the newest entry is the last one pushed (when it keeps any).
pub proof fn law_buffer_keeps_latest(before: Seq<FlowRuntimeLogEntry>, entry: FlowRuntimeLogEntry, cap: nat)
    requires
        before.len() <= cap,
    ensures
        keep_latest(before.push(entry), cap).len() <= cap,
        cap > 0 ==> keep_latest(before.push(entry), cap).last() == entry,
        cap > 0 && before.len() < cap ==> keep_latest(before.push(entry), cap) == before.push(entry),
        before.len() == cap && cap > 0 ==> keep_latest(before.push(entry), cap) == before.drop_first().push(entry),
{
    if before.len() == cap && cap > 0 {
        assert(before.push(entry).subrange(1, cap as int + 1) =~= before.drop_first().push(entry));
    }
}

/// What a buffer holding `before` holds after `push` of each of `es` in turn.
pub open spec fn after_pushes(before: Seq<FlowRuntimeLogEntry>, es: Seq<FlowRuntimeLogEntry>, cap: nat) -> Seq<FlowRuntimeLogEntry>
    decreases es.len(),
{
    if es.len() == 0 {
        before
    } else {
        keep_latest(after_pushes(before, es.drop_last(), cap).push(es.last()), cap)
    }
}

/// However many entries are pushed, a buffer holds the last `cap` of all the
/// entries it was given, in the order they came: from empty, after pushing
/// `e1..en` it holds `e(max(1, n-cap+1))..en`.
pub proof fn law_buffer_keeps_last_pushed(before: Seq<FlowRuntimeLogEntry>, es: Seq<FlowRuntimeLogEntry>, cap: nat)
    requires
        before.len() <= cap,
    ensures
        after_pushes(before, es, cap) == keep_latest(before + es, cap),
    decreases es.len(),
{
    if es.len() == 0 {
        assert(before + es =~= before);
    } else {
        let rest = es.drop_last();
        let x = es.last();
        law_buffer_keeps_last_pushed(before, rest, cap);
        let t = before + rest;
        let a = keep_latest(t, cap);
        assert(before + es =~= t.push(x));
        let tx = t.push(x);
        if t.len() > cap {
            assert(a.push(x).len() == cap + 1);
            assert(keep_latest(a.push(x), cap) =~= tx.subrange(tx.len() - cap, tx.len() as int));
        } else if t.len() == cap {
            assert(a == t);
            assert(keep_latest(a.push(x), cap) =~= keep_latest(tx, cap));
        } else {
            assert(a == t);
        }
    }
}

} // verus!
