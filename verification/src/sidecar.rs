//! The Python sidecar: the port line it prints when it starts, and the
//! `TIKCLIP_*` environment it is started with, built from the app settings.
use vstd::prelude::*;
use crate::session::{opt_seq, opt_str_seq};
use crate::text::{
    all_digits, append_chars, append_str, chars_eq_str, is_digit, lower, lower_chars, parse_i64,
    parse_i64_chars, parse_u16, parse_u16_chars, slice_chars, starts_with, starts_with_str, str_chars,
    string_from, trim, trim_chars, dec_int, fmt_i64,
};

verus! {

/// Whether the sidecar is up, and on which port.
#[derive(Debug, Clone, Copy, PartialEq, Eq)]
pub struct SidecarStatus {
    pub connected: bool,
    pub port: Option<u16>,
}

/// The status reported for a sidecar port, given whether it accepts a connection.
pub fn sidecar_status(port: Option<u16>, reachable: bool) -> (r: SidecarStatus)
    ensures
        r.port == port,
        r.connected == (port is Some && reachable),
{
    SidecarStatus { connected: port.is_some() && reachable, port }
}

/// The port of a `SIDECAR_PORT=<n>` line.
pub open spec fn sideline_port(line: Seq<char>) -> Option<int> {
    if starts_with(line, "SIDECAR_PORT="@) {
        parse_u16(trim(line.subrange(13, line.len() as int)))
    } else {
        None
    }
}

/// The port the sidecar announces on a line of its output, if it is that line.
pub fn parse_sideline(line: &str) -> (r: Option<u16>)
    ensures
        match r {
            Some(p) => sideline_port(line@) == Some(p as int),
            None => sideline_port(line@) is None,
        },
{
    let l = str_chars(line);
    if !starts_with_str(l.as_slice(), "SIDECAR_PORT=") {
        return None;
    }
    proof {
        reveal_strlit("SIDECAR_PORT=");
    }
    let rest = slice_chars(l.as_slice(), 13, l.len());
    let t = trim_chars(rest.as_slice());
    parse_u16_chars(t.as_slice())
}

// ---------------------------------------------------------------------------
// Numbers as `str::parse::<f64>` reads them
// ---------------------------------------------------------------------------
/// A decimal number: digits with at most one `.`, at least one digit, then an
/// optional exponent `e`/`E`, sign, digits.
pub open spec fn decimal_syntax(u: Seq<char>) -> bool {
    let k = first_of2(u, 'e', 'E');
    let m = if k < u.len() {
        u.subrange(0, k)
    } else {
        u
    };
    let mantissa_ok = {
        let d = first_of2(m, '.', '.');
        let a = m.subrange(0, d);
        let b = if d < m.len() {
            m.subrange(d + 1, m.len() as int)
        } else {
            Seq::empty()
        };
        all_digits(a) && all_digits(b) && a.len() + b.len() > 0
    };
    let exp_ok = if k < u.len() {
        let e = u.subrange(k + 1, u.len() as int);
        let body = if e.len() > 0 && (e[0] == '+' || e[0] == '-') {
            e.drop_first()
        } else {
            e
        };
        body.len() > 0 && all_digits(body)
    } else {
        true
    };
    mantissa_ok && exp_ok
}

/// Index of the first `a` or `b` in `s`, or its length.
pub open spec fn first_of2(s: Seq<char>, a: char, b: char) -> int
    decreases s.len(),
{
    if s.len() == 0 {
        0
    } else if s[0] == a || s[0] == b {
        0
    } else {
        1 + first_of2(s.drop_first(), a, b)
    }
}

proof fn lemma_first_of2(s: Seq<char>, a: char, b: char)
    ensures
        0 <= first_of2(s, a, b) <= s.len(),
        first_of2(s, a, b) < s.len() ==> (s[first_of2(s, a, b)] == a || s[first_of2(s, a, b)] == b),
        forall|j: int| 0 <= j < first_of2(s, a, b) ==> s[j] != a && s[j] != b,
    decreases s.len(),
{
    if s.len() > 0 && s[0] != a && s[0] != b {
        lemma_first_of2(s.drop_first(), a, b);
        assert forall|j: int| 0 <= j < first_of2(s, a, b) implies s[j] != a && s[j] != b by {
            if j > 0 {
                assert(s[j] == s.drop_first()[j - 1]);
            }
        }
    }
}

/// What `str::parse::<f64>` accepts: an optional sign, then `inf`,
/// `infinity` or `nan` in any case, or a decimal number.
pub open spec fn f64_syntax(t: Seq<char>) -> bool {
    let u = if t.len() > 0 && (t[0] == '+' || t[0] == '-') {
        t.drop_first()
    } else {
        t
    };
    let l = lower(u);
    l == "inf"@ || l == "infinity"@ || l == "nan"@ || decimal_syntax(u)
}

fn first_of2_exec(s: &[char], a: char, b: char) -> (r: usize)
    ensures
        r == first_of2(s@, a, b),
{
    let mut i: usize = 0;
    proof {
        assert(s@.subrange(0, s@.len() as int) =~= s@);
    }
    while i < s.len() && s[i] != a && s[i] != b
        invariant
            i <= s@.len(),
            first_of2(s@, a, b) == i + first_of2(s@.subrange(i as int, s@.len() as int), a, b),
        decreases s@.len() - i,
    {
        assert(s@.subrange(i as int, s@.len() as int).drop_first() =~= s@.subrange(i + 1, s@.len() as int));
        i = i + 1;
    }
    proof {
        if i < s@.len() {
            assert(s@.subrange(i as int, s@.len() as int)[0] == s@[i as int]);
        } else {
            assert(s@.subrange(i as int, s@.len() as int).len() == 0);
        }
    }
    i
}

fn all_digits_exec(s: &[char]) -> (r: bool)
    ensures
        r == all_digits(s@),
{
    let mut i: usize = 0;
    while i < s.len()
        invariant
            i <= s@.len(),
            forall|j: int| 0 <= j < i ==> is_digit(s@[j]),
        decreases s@.len() - i,
    {
        if !crate::text::char_is_digit(s[i]) {
            return false;
        }
        i = i + 1;
    }
    true
}

fn decimal_syntax_exec(u: &[char]) -> (r: bool)
    ensures
        r == decimal_syntax(u@),
{
    let k = first_of2_exec(u, 'e', 'E');
    proof {
        lemma_first_of2(u@, 'e', 'E');
    }
    let m = if k < u.len() {
        slice_chars(u, 0, k)
    } else {
        slice_chars(u, 0, u.len())
    };
    proof {
        assert(u@.subrange(0, u@.len() as int) =~= u@);
    }
    let d = first_of2_exec(m.as_slice(), '.', '.');
    proof {
        lemma_first_of2(m@, '.', '.');
    }
    let a = slice_chars(m.as_slice(), 0, d);
    let b = if d < m.len() {
        slice_chars(m.as_slice(), d + 1, m.len())
    } else {
        Vec::new()
    };
    let mantissa_ok = all_digits_exec(a.as_slice()) && all_digits_exec(b.as_slice()) && a.len() + b.len() > 0;
    let exp_ok = if k < u.len() {
        let e = slice_chars(u, k + 1, u.len());
        let body = if e.len() > 0 && (e[0] == '+' || e[0] == '-') {
            slice_chars(e.as_slice(), 1, e.len())
        } else {
            e
        };
        proof {
            if e@.len() > 0 && (e@[0] == '+' || e@[0] == '-') {
                assert(e@.subrange(1, e@.len() as int) =~= e@.drop_first());
            }
        }
        body.len() > 0 && all_digits_exec(body.as_slice())
    } else {
        true
    };
    mantissa_ok && exp_ok
}

/// Whether `str::parse::<f64>` accepts the text.
pub fn parses_as_f64(t: &[char]) -> (r: bool)
    ensures
        r == f64_syntax(t@),
{
    let u = if t.len() > 0 && (t[0] == '+' || t[0] == '-') {
        slice_chars(t, 1, t.len())
    } else {
        slice_chars(t, 0, t.len())
    };
    proof {
        assert(t@.subrange(0, t@.len() as int) =~= t@);
        if t@.len() > 0 && (t@[0] == '+' || t@[0] == '-') {
            assert(t@.subrange(1, t@.len() as int) =~= t@.drop_first());
        }
    }
    let l = lower_chars(u.as_slice());
    chars_eq_str(l.as_slice(), "inf") || chars_eq_str(l.as_slice(), "infinity") || chars_eq_str(l.as_slice(), "nan")
        || decimal_syntax_exec(u.as_slice())
}

// ---------------------------------------------------------------------------
// The sidecar environment
// ---------------------------------------------------------------------------
/// The `Debug` rendering of a string (`{:?}`): quoted, with escapes.
pub uninterp spec fn debug_str(s: Seq<char>) -> Seq<char>;

/// `format!("{:?}", s)`, named as a function of the text.
#[verifier::external_body]
pub(crate) fn debug_quote_chars(s: &[char]) -> (r: String)
    ensures
        r@ == debug_str(s@),
{
    let text: String = s.iter().collect();
    format!("{:?}", text)
}

/// How a setting goes into the environment.
#[derive(Debug, Clone, Copy, PartialEq, Eq)]
pub enum SettingKind {
    /// An integer, checked.
    Int,
    /// A number, checked.
    Float,
    /// A flag: `1`, `true`, `yes` or `on` (any case) is `true`, anything else `false`.
    Bool,
    /// Passed as it is.
    Text,
    /// The recording limit in minutes, or the older setting in hours.
    DurationMinutes,
}

/// The settings the sidecar is given, in order: kind, settings key, variable.
pub open spec fn sidecar_steps() -> Seq<(SettingKind, Seq<char>, Seq<char>)> {
    seq![
        (SettingKind::Int, "poll_interval"@, "TIKCLIP_POLL_INTERVAL_SECONDS"@),
        (SettingKind::Int, "max_concurrent"@, "TIKCLIP_MAX_CONCURRENT_RECORDINGS"@),
        (SettingKind::DurationMinutes, "recording_max_minutes"@, "TIKCLIP_MAX_DURATION_MINUTES"@),
        (SettingKind::Int, "clip_min_duration"@, "TIKCLIP_CLIP_MIN_DURATION"@),
        (SettingKind::Int, "clip_max_duration"@, "TIKCLIP_CLIP_MAX_DURATION"@),
        (SettingKind::Float, "max_storage_gb"@, "TIKCLIP_STORAGE_QUOTA_GB"@),
        (SettingKind::Bool, "auto_process_after_record"@, "TIKCLIP_AUTO_PROCESS_AFTER_RECORD"@),
        (SettingKind::Int, "TIKCLIP_RAW_RETENTION_DAYS"@, "TIKCLIP_RAW_RETENTION_DAYS"@),
        (SettingKind::Int, "TIKCLIP_ARCHIVE_RETENTION_DAYS"@, "TIKCLIP_ARCHIVE_RETENTION_DAYS"@),
        (SettingKind::Int, "TIKCLIP_STORAGE_WARN_PERCENT"@, "TIKCLIP_STORAGE_WARN_PERCENT"@),
        (SettingKind::Int, "TIKCLIP_STORAGE_CLEANUP_PERCENT"@, "TIKCLIP_STORAGE_CLEANUP_PERCENT"@),
        (SettingKind::Bool, "product_vector_enabled"@, "TIKCLIP_PRODUCT_VECTOR_ENABLED"@),
        (SettingKind::Text, "gemini_api_key"@, "TIKCLIP_GEMINI_API_KEY"@),
        (SettingKind::Text, "gemini_embedding_model"@, "TIKCLIP_GEMINI_EMBEDDING_MODEL"@),
        (SettingKind::Int, "gemini_embedding_dimensions"@, "TIKCLIP_GEMINI_EMBEDDING_DIMENSIONS"@),
        (SettingKind::Bool, "auto_tag_clip_product_enabled"@, "TIKCLIP_AUTO_TAG_CLIP_PRODUCT_ENABLED"@),
        (SettingKind::Int, "auto_tag_clip_frame_count"@, "TIKCLIP_AUTO_TAG_CLIP_FRAME_COUNT"@),
        (SettingKind::Float, "auto_tag_clip_max_score"@, "TIKCLIP_AUTO_TAG_CLIP_MAX_SCORE"@),
    ]
}

fn sidecar_step(i: usize) -> (r: (SettingKind, &'static str, &'static str))
    requires
        i < 18,
    ensures
        (r.0, r.1@, r.2@) == sidecar_steps()[i as int],
{
    match i {
        0 => (SettingKind::Int, "poll_interval", "TIKCLIP_POLL_INTERVAL_SECONDS"),
        1 => (SettingKind::Int, "max_concurrent", "TIKCLIP_MAX_CONCURRENT_RECORDINGS"),
        2 => (SettingKind::DurationMinutes, "recording_max_minutes", "TIKCLIP_MAX_DURATION_MINUTES"),
        3 => (SettingKind::Int, "clip_min_duration", "TIKCLIP_CLIP_MIN_DURATION"),
        4 => (SettingKind::Int, "clip_max_duration", "TIKCLIP_CLIP_MAX_DURATION"),
        5 => (SettingKind::Float, "max_storage_gb", "TIKCLIP_STORAGE_QUOTA_GB"),
        6 => (SettingKind::Bool, "auto_process_after_record", "TIKCLIP_AUTO_PROCESS_AFTER_RECORD"),
        7 => (SettingKind::Int, "TIKCLIP_RAW_RETENTION_DAYS", "TIKCLIP_RAW_RETENTION_DAYS"),
        8 => (SettingKind::Int, "TIKCLIP_ARCHIVE_RETENTION_DAYS", "TIKCLIP_ARCHIVE_RETENTION_DAYS"),
        9 => (SettingKind::Int, "TIKCLIP_STORAGE_WARN_PERCENT", "TIKCLIP_STORAGE_WARN_PERCENT"),
        10 => (SettingKind::Int, "TIKCLIP_STORAGE_CLEANUP_PERCENT", "TIKCLIP_STORAGE_CLEANUP_PERCENT"),
        11 => (SettingKind::Bool, "product_vector_enabled", "TIKCLIP_PRODUCT_VECTOR_ENABLED"),
        12 => (SettingKind::Text, "gemini_api_key", "TIKCLIP_GEMINI_API_KEY"),
        13 => (SettingKind::Text, "gemini_embedding_model", "TIKCLIP_GEMINI_EMBEDDING_MODEL"),
        14 => (SettingKind::Int, "gemini_embedding_dimensions", "TIKCLIP_GEMINI_EMBEDDING_DIMENSIONS"),
        15 => (SettingKind::Bool, "auto_tag_clip_product_enabled", "TIKCLIP_AUTO_TAG_CLIP_PRODUCT_ENABLED"),
        16 => (SettingKind::Int, "auto_tag_clip_frame_count", "TIKCLIP_AUTO_TAG_CLIP_FRAME_COUNT"),
        _ => (SettingKind::Float, "auto_tag_clip_max_score", "TIKCLIP_AUTO_TAG_CLIP_MAX_SCORE"),
    }
}

/// The view of `(key, value)` string pairs.
pub open spec fn kv_view(v: Seq<(String, String)>) -> Seq<(Seq<char>, Seq<char>)> {
    v.map_values(|p: (String, String)| (p.0@, p.1@))
}

/// A setting's value: the first row of `key`, trimmed, when anything is left.
pub open spec fn setting_value(settings: Seq<(Seq<char>, Seq<char>)>, key: Seq<char>) -> Option<Seq<char>>
    decreases settings.len(),
{
    if settings.len() == 0 {
        None
    } else if settings[0].0 == key {
        let t = trim(settings[0].1);
        if t.len() == 0 {
            None
        } else {
            Some(t)
        }
    } else {
        setting_value(settings.drop_first(), key)
    }
}

pub open spec fn int_error(key: Seq<char>, t: Seq<char>) -> Seq<char> {
    key + " must be an integer, got "@ + debug_str(t)
}

pub open spec fn float_error(key: Seq<char>, t: Seq<char>) -> Seq<char> {
    key + " must be a number, got "@ + debug_str(t)
}

pub open spec fn flag_value(t: Seq<char>) -> Seq<char> {
    let l = lower(t);
    if l == "1"@ || l == "true"@ || l == "yes"@ || l == "on"@ {
        "true"@
    } else {
        "false"@
    }
}

/// The environment after one step.
pub open spec fn env_step(
    settings: Seq<(Seq<char>, Seq<char>)>,
    env: Seq<(Seq<char>, Seq<char>)>,
    step: (SettingKind, Seq<char>, Seq<char>),
) -> Result<Seq<(Seq<char>, Seq<char>)>, Seq<char>> {
    let (kind, key, var) = step;
    match kind {
        SettingKind::DurationMinutes => match setting_value(settings, key) {
            Some(t) => if parse_i64(t) is Some {
                Ok(env.push((var, t)))
            } else {
                Err(int_error(key, t))
            },
            None => match setting_value(settings, "recording_max_hours"@) {
                None => Ok(env),
                Some(h) => match parse_i64(h) {
                    None => Err(int_error("recording_max_hours"@, h)),
                    Some(hours) => if hours > 0 {
                        Ok(env.push((var, dec_int(hours * 60))))
                    } else {
                        Ok(env)
                    },
                },
            },
        },
        _ => match setting_value(settings, key) {
            None => Ok(env),
            Some(t) => match kind {
                SettingKind::Int => if parse_i64(t) is Some {
                    Ok(env.push((var, t)))
                } else {
                    Err(int_error(key, t))
                },
                SettingKind::Float => if f64_syntax(t) {
                    Ok(env.push((var, t)))
                } else {
                    Err(float_error(key, t))
                },
                SettingKind::Bool => Ok(env.push((var, flag_value(t)))),
                _ => Ok(env.push((var, t))),
            },
        },
    }
}

/// The environment after the first `n` steps, from `env`.
pub open spec fn env_steps(
    settings: Seq<(Seq<char>, Seq<char>)>,
    env: Seq<(Seq<char>, Seq<char>)>,
    n: int,
) -> Result<Seq<(Seq<char>, Seq<char>)>, Seq<char>>
    decreases n,
{
    if n <= 0 {
        Ok(env)
    } else {
        match env_steps(settings, env, n - 1) {
            Err(e) => Err(e),
            Ok(e2) => env_step(settings, e2, sidecar_steps()[n - 1]),
        }
    }
}

/// The sidecar's environment: the storage path, then each setting in order;
/// or the first setting that does not parse.
pub open spec fn sidecar_env_spec(
    settings: Seq<(Seq<char>, Seq<char>)>,
    storage_path: Seq<char>,
) -> Result<Seq<(Seq<char>, Seq<char>)>, Seq<char>> {
    env_steps(settings, seq![("TIKCLIP_STORAGE_PATH"@, storage_path)], 18)
}

/// The legacy hours setting, when it is read (no minutes setting) and is an
/// integer, fits `i64` once in minutes.
pub open spec fn hours_fit(settings: Seq<(Seq<char>, Seq<char>)>) -> bool {
    setting_value(settings, "recording_max_minutes"@) is Some || match setting_value(settings, "recording_max_hours"@) {
        Some(h) => match parse_i64(h) {
            Some(hours) => hours * 60 <= i64::MAX,
            None => true,
        },
        None => true,
    }
}

proof fn lemma_failure_stays(
    settings: Seq<(Seq<char>, Seq<char>)>,
    env: Seq<(Seq<char>, Seq<char>)>,
    i: int,
    n: int,
)
    requires
        0 <= i <= n,
        env_steps(settings, env, i) is Err,
    ensures
        env_steps(settings, env, n) == env_steps(settings, env, i),
    decreases n - i,
{
    if n > i {
        lemma_failure_stays(settings, env, i, n - 1);
    }
}

fn setting_value_exec(settings: &Vec<(String, String)>, key: &str) -> (r: Option<Vec<char>>)
    ensures
        match r {
            Some(t) => setting_value(kv_view(settings@), key@) == Some(t@),
            None => setting_value(kv_view(settings@), key@) is None,
        },
{
    let ghost all = kv_view(settings@);
    proof {
        assert(all.subrange(0, all.len() as int) =~= all);
    }
    let mut i: usize = 0;
    while i < settings.len()
        invariant
            all == kv_view(settings@),
            i <= settings@.len(),
            setting_value(all, key@) == setting_value(all.subrange(i as int, all.len() as int), key@),
        decreases settings@.len() - i,
    {
        let ghost rest = all.subrange(i as int, all.len() as int);
        assert(rest[0] == (settings@[i as int].0@, settings@[i as int].1@));
        assert(rest.drop_first() =~= all.subrange(i + 1, all.len() as int));
        if crate::text::str_eq(settings[i].0.as_str(), key) {
            let t = crate::text::trim_str(settings[i].1.as_str());
            if t.len() == 0 {
                return None;
            }
            return Some(t);
        }
        i = i + 1;
    }
    proof {
        assert(all.subrange(i as int, all.len() as int).len() == 0);
    }
    None
}

fn int_error_text(key: &str, t: &[char]) -> (r: String)
    ensures
        r@ == int_error(key@, t@),
{
    let mut v = str_chars(key);
    append_str(&mut v, " must be an integer, got ");
    let d = debug_quote_chars(t);
    append_str(&mut v, d.as_str());
    string_from(v.as_slice())
}

fn float_error_text(key: &str, t: &[char]) -> (r: String)
    ensures
        r@ == float_error(key@, t@),
{
    let mut v = str_chars(key);
    append_str(&mut v, " must be a number, got ");
    let d = debug_quote_chars(t);
    append_str(&mut v, d.as_str());
    string_from(v.as_slice())
}

fn push_kv(env: &mut Vec<(String, String)>, k: &str, v: &[char])
    ensures
        kv_view(final(env)@) == kv_view(old(env)@).push((k@, v@)),
{
    env.push((crate::text::string_of(k), string_from(v)));
    proof {
        assert(kv_view(final(env)@) =~= kv_view(old(env)@).push((k@, v@)));
    }
}

/// The environment the sidecar is started with: `TIKCLIP_STORAGE_PATH`, then
/// each configured setting; an integer or number setting that does not parse
/// is an error.
pub fn build_sidecar_env(settings: &Vec<(String, String)>, storage_path: &str) -> (r: Result<Vec<(String, String)>, String>)
    requires
        hours_fit(kv_view(settings@)),
    ensures
        match r {
            Ok(env) => sidecar_env_spec(kv_view(settings@), storage_path@) == Ok::<
                Seq<(Seq<char>, Seq<char>)>,
                Seq<char>,
            >(kv_view(env@)),
            Err(e) => sidecar_env_spec(kv_view(settings@), storage_path@) == Err::<
                Seq<(Seq<char>, Seq<char>)>,
                Seq<char>,
            >(e@),
        },
{
    let ghost sv = kv_view(settings@);
    let mut env: Vec<(String, String)> = Vec::new();
    let sp = str_chars(storage_path);
    push_kv(&mut env, "TIKCLIP_STORAGE_PATH", sp.as_slice());
    proof {
        assert(kv_view(env@) =~= seq![("TIKCLIP_STORAGE_PATH"@, storage_path@)]);
    }
    let ghost env0 = kv_view(env@);
    let mut i: usize = 0;
    while i < 18
        invariant
            sv == kv_view(settings@),
            hours_fit(sv),
            i <= 18,
            env0 == seq![("TIKCLIP_STORAGE_PATH"@, storage_path@)],
            env_steps(sv, env0, i as int) == Ok::<Seq<(Seq<char>, Seq<char>)>, Seq<char>>(kv_view(env@)),
        decreases 18 - i,
    {
        let (kind, key, var) = sidecar_step(i);
        let ghost before = kv_view(env@);
        let mut failure: Option<String> = None;
        proof {
            reveal_strlit("recording_max_hours");
        }
        match kind {
            SettingKind::DurationMinutes => {
                match setting_value_exec(settings, key) {
                    Some(t) => {
                        if parse_i64_chars(t.as_slice()).is_none() {
                            failure = Some(int_error_text(key, t.as_slice()));
                        } else {
                            push_kv(&mut env, var, t.as_slice());
                        }
                    },
                    None => match setting_value_exec(settings, "recording_max_hours") {
                        None => {},
                        Some(h) => match parse_i64_chars(h.as_slice()) {
                            None => {
                                failure = Some(int_error_text("recording_max_hours", h.as_slice()));
                            },
                            Some(hours) => {
                                if hours > 0 {
                                    let minutes = fmt_i64(hours * 60);
                                    push_kv(&mut env, var, minutes.as_slice());
                                }
                            },
                        },
                    },
                }
            },
            _ => {
                match setting_value_exec(settings, key) {
                    None => {},
                    Some(t) => match kind {
                        SettingKind::Int => {
                            if parse_i64_chars(t.as_slice()).is_none() {
                                failure = Some(int_error_text(key, t.as_slice()));
                            } else {
                                push_kv(&mut env, var, t.as_slice());
                            }
                        },
                        SettingKind::Float => {
                            if !parses_as_f64(t.as_slice()) {
                                failure = Some(float_error_text(key, t.as_slice()));
                            } else {
                                push_kv(&mut env, var, t.as_slice());
                            }
                        },
                        SettingKind::Bool => {
                            let l = lower_chars(t.as_slice());
                            let ls = l.as_slice();
                            let on = chars_eq_str(ls, "1") || chars_eq_str(ls, "true") || chars_eq_str(ls, "yes")
                                || chars_eq_str(ls, "on");
                            if on {
                                let v = str_chars("true");
                                push_kv(&mut env, var, v.as_slice());
                            } else {
                                let v = str_chars("false");
                                push_kv(&mut env, var, v.as_slice());
                            }
                        },
                        _ => {
                            push_kv(&mut env, var, t.as_slice());
                        },
                    },
                }
            },
        }
        proof {
            assert(env_steps(sv, env0, i + 1) == env_step(sv, before, sidecar_steps()[i as int]));
        }
        match failure {
            Some(e) => {
                proof {
                    lemma_failure_stays(sv, env0, i + 1, 18);
                }
                return Err(e);
            },
            None => {},
        }
        i = i + 1;
    }
    Ok(env)
}

/// No variable is set twice.
pub open spec fn env_keys_distinct(env: Seq<(Seq<char>, Seq<char>)>) -> bool {
    forall|i: int, j: int| 0 <= i < j < env.len() ==> env[i].0 != env[j].0
}

proof fn lemma_step_vars_distinct(n: int)
    requires
        0 <= n < 18,
    ensures
        sidecar_steps()[n].2 != "TIKCLIP_STORAGE_PATH"@,
        forall|m: int| 0 <= m < n ==> sidecar_steps()[m].2 != sidecar_steps()[n].2,
{
    reveal_strlit("TIKCLIP_STORAGE_PATH");
    reveal_strlit("TIKCLIP_POLL_INTERVAL_SECONDS");
    reveal_strlit("TIKCLIP_MAX_CONCURRENT_RECORDINGS");
    reveal_strlit("TIKCLIP_MAX_DURATION_MINUTES");
    reveal_strlit("TIKCLIP_CLIP_MIN_DURATION");
    reveal_strlit("TIKCLIP_CLIP_MAX_DURATION");
    reveal_strlit("TIKCLIP_STORAGE_QUOTA_GB");
    reveal_strlit("TIKCLIP_AUTO_PROCESS_AFTER_RECORD");
    reveal_strlit("TIKCLIP_RAW_RETENTION_DAYS");
    reveal_strlit("TIKCLIP_ARCHIVE_RETENTION_DAYS");
    reveal_strlit("TIKCLIP_STORAGE_WARN_PERCENT");
    reveal_strlit("TIKCLIP_STORAGE_CLEANUP_PERCENT");
    reveal_strlit("TIKCLIP_PRODUCT_VECTOR_ENABLED");
    reveal_strlit("TIKCLIP_GEMINI_API_KEY");
    reveal_strlit("TIKCLIP_GEMINI_EMBEDDING_MODEL");
    reveal_strlit("TIKCLIP_GEMINI_EMBEDDING_DIMENSIONS");
    reveal_strlit("TIKCLIP_AUTO_TAG_CLIP_PRODUCT_ENABLED");
    reveal_strlit("TIKCLIP_AUTO_TAG_CLIP_FRAME_COUNT");
    reveal_strlit("TIKCLIP_AUTO_TAG_CLIP_MAX_SCORE");
    let v = sidecar_steps();
    assert(v[n].2.len() >= 22);
    assert(v[n].2.len() != "TIKCLIP_STORAGE_PATH"@.len());
    assert forall|m: int| 0 <= m < n implies v[m].2 != v[n].2 by {
        if v[m].2.len() == v[n].2.len() {
            assert(v[m].2[8] != v[n].2[8] || v[m].2[9] != v[n].2[9] || v[m].2[10] != v[n].2[10]
                || v[m].2[14] != v[n].2[14] || v[m].2[16] != v[n].2[16] || v[m].2[23] != v[n].2[23]);
        }
    }
}

/// `key` is the variable of one of the first `n` steps.
pub open spec fn is_step_var(key: Seq<char>, n: int) -> bool {
    exists|m: int| 0 <= m < n && key == #[trigger] sidecar_steps()[m].2
}

/// One step adds at most one variable, the step's own, at the end.
proof fn lemma_env_step_adds_own_var(
    settings: Seq<(Seq<char>, Seq<char>)>,
    env: Seq<(Seq<char>, Seq<char>)>,
    step: (SettingKind, Seq<char>, Seq<char>),
)
    ensures
        env_step(settings, env, step) matches Ok(e) ==> e == env || (e.len() == env.len() + 1 && e.drop_last() == env
            && e.last().0 == step.2),
{
    match env_step(settings, env, step) {
        Ok(e) => {
            if e != env {
                assert(e.drop_last() =~= env);
            }
        },
        Err(_) => {},
    }
}

proof fn lemma_env_steps_keys(settings: Seq<(Seq<char>, Seq<char>)>, storage_path: Seq<char>, n: int)
    requires
        0 <= n <= 18,
    ensures
        env_steps(settings, seq![("TIKCLIP_STORAGE_PATH"@, storage_path)], n) matches Ok(e) ==> {
            &&& e.len() >= 1
            &&& e[0] == ("TIKCLIP_STORAGE_PATH"@, storage_path)
            &&& env_keys_distinct(e)
            &&& forall|k: int| 1 <= k < e.len() ==> is_step_var(#[trigger] e[k].0, n)
        },
    decreases n,
{
    let env0 = seq![("TIKCLIP_STORAGE_PATH"@, storage_path)];
    if n > 0 {
        lemma_env_steps_keys(settings, storage_path, n - 1);
        match env_steps(settings, env0, n - 1) {
            Err(_) => {},
            Ok(e2) => {
                let step = sidecar_steps()[n - 1];
                lemma_env_step_adds_own_var(settings, e2, step);
                lemma_step_vars_distinct(n - 1);
                match env_step(settings, e2, step) {
                    Err(_) => {},
                    Ok(e) => {
                        if e != e2 {
                            assert(e[0] == e2[0]);
                            assert forall|k: int| 1 <= k < e.len() implies is_step_var(#[trigger] e[k].0, n) by {
                                if k < e2.len() {
                                    assert(e[k] == e2[k]);
                                    assert(is_step_var(e2[k].0, n - 1));
                                    let m = choose|m: int| 0 <= m < n - 1 && e2[k].0 == #[trigger] sidecar_steps()[m].2;
                                    assert(e[k].0 == sidecar_steps()[m].2);
                                } else {
                                    assert(e[k].0 == sidecar_steps()[n - 1].2);
                                }
                            }
                            assert forall|i: int, j: int| 0 <= i < j < e.len() implies e[i].0 != e[j].0 by {
                                if j < e2.len() {
                                    assert(e[i] == e2[i] && e[j] == e2[j]);
                                } else if i == 0 {
                                    assert(e[i] == e2[0]);
                                } else {
                                    assert(e[i] == e2[i]);
                                    assert(is_step_var(e2[i].0, n - 1));
                                    let m = choose|m: int| 0 <= m < n - 1 && e2[i].0 == #[trigger] sidecar_steps()[m].2;
                                }
                            }
                        }
                    },
                }
            },
        }
    }
}

/// The sidecar's environment starts with the storage path and sets no
/// variable twice.
pub proof fn law_sidecar_env_starts_with_storage_and_keys_are_distinct(
    settings: Seq<(Seq<char>, Seq<char>)>,
    storage_path: Seq<char>,
)
    ensures
        sidecar_env_spec(settings, storage_path) matches Ok(env) ==> env.len() >= 1
            && env[0] == ("TIKCLIP_STORAGE_PATH"@, storage_path) && env_keys_distinct(env),
{
    lemma_env_steps_keys(settings, storage_path, 18);
}

/// The environment after `m` steps is kept, unchanged, at the start of the
/// environment after `n >= m` steps: steps only append.
proof fn lemma_env_steps_prefix(
    settings: Seq<(Seq<char>, Seq<char>)>,
    env: Seq<(Seq<char>, Seq<char>)>,
    m: int,
    n: int,
)
    requires
        0 <= m <= n,
        env_steps(settings, env, n) is Ok,
    ensures
        env_steps(settings, env, m) is Ok,
        env_steps(settings, env, m)->Ok_0.len() <= env_steps(settings, env, n)->Ok_0.len(),
        env_steps(settings, env, n)->Ok_0.subrange(0, env_steps(settings, env, m)->Ok_0.len() as int)
            == env_steps(settings, env, m)->Ok_0,
    decreases n - m,
{
    let en = env_steps(settings, env, n)->Ok_0;
    if n == m {
        assert(en.subrange(0, en.len() as int) =~= en);
    } else {
        if env_steps(settings, env, n - 1) is Err {
            lemma_failure_stays(settings, env, n - 1, n);
        }
        let e1 = env_steps(settings, env, n - 1)->Ok_0;
        lemma_env_step_adds_own_var(settings, e1, sidecar_steps()[n - 1]);
        lemma_env_steps_prefix(settings, env, m, n - 1);
        let em = env_steps(settings, env, m)->Ok_0;
        if en != e1 {
            assert(en.subrange(0, em.len() as int) =~= e1.subrange(0, em.len() as int));
        }
    }
}

/// The recording limit: with no minutes setting, a positive hours setting
/// gives the limit in minutes (`hours * 60`); a minutes setting that is an
/// integer is passed as it is.
pub proof fn law_sidecar_env_duration_minutes(
    settings: Seq<(Seq<char>, Seq<char>)>,
    storage_path: Seq<char>,
    t: Seq<char>,
    hours: int,
)
    ensures
        sidecar_env_spec(settings, storage_path) is Ok && setting_value(settings, "recording_max_minutes"@) is None
            && setting_value(settings, "recording_max_hours"@) == Some(t) && parse_i64(t) == Some(hours) && hours > 0
            ==> sidecar_env_spec(settings, storage_path)->Ok_0.contains(
                ("TIKCLIP_MAX_DURATION_MINUTES"@, dec_int(hours * 60)),
            ),
        sidecar_env_spec(settings, storage_path) is Ok && setting_value(settings, "recording_max_minutes"@) == Some(t)
            ==> sidecar_env_spec(settings, storage_path)->Ok_0.contains(("TIKCLIP_MAX_DURATION_MINUTES"@, t)),
{
    let env0 = seq![("TIKCLIP_STORAGE_PATH"@, storage_path)];
    if sidecar_env_spec(settings, storage_path) is Ok {
        lemma_env_steps_prefix(settings, env0, 3, 18);
        let env = sidecar_env_spec(settings, storage_path)->Ok_0;
        let e3 = env_steps(settings, env0, 3)->Ok_0;
        let e2 = env_steps(settings, env0, 2)->Ok_0;
        assert(env_steps(settings, env0, 3) == env_step(settings, e2, sidecar_steps()[2]));
        lemma_env_step_adds_own_var(settings, e2, sidecar_steps()[2]);
        if e3 != e2 {
            let k = e3.len() - 1;
            assert(env[k] == e3[k]);
        }
        if setting_value(settings, "recording_max_minutes"@) is None {
            if setting_value(settings, "recording_max_hours"@) == Some(t) && parse_i64(t) == Some(hours) && hours > 0 {
                let k = e3.len() - 1;
                assert(env[k] == e3[k]);
                assert(env.contains(("TIKCLIP_MAX_DURATION_MINUTES"@, dec_int(hours * 60))));
            }
        } else {
            let k = e3.len() - 1;
            assert(env[k] == e3[k]);
        }
    }
}

/// An integer setting that does not parse is an error: a polling interval at
/// once (its own error), a concurrency or minutes setting as some error.
pub proof fn law_sidecar_env_rejects_non_integers(
    settings: Seq<(Seq<char>, Seq<char>)>,
    storage_path: Seq<char>,
    t: Seq<char>,
)
    ensures
        setting_value(settings, "poll_interval"@) == Some(t) && parse_i64(t) is None
            ==> sidecar_env_spec(settings, storage_path) == Err::<Seq<(Seq<char>, Seq<char>)>, Seq<char>>(
                int_error("poll_interval"@, t),
            ),
        setting_value(settings, "max_concurrent"@) == Some(t) && parse_i64(t) is None
            ==> sidecar_env_spec(settings, storage_path) is Err,
        setting_value(settings, "recording_max_minutes"@) == Some(t) && parse_i64(t) is None
            ==> sidecar_env_spec(settings, storage_path) is Err,
{
    let env0 = seq![("TIKCLIP_STORAGE_PATH"@, storage_path)];
    assert(env_steps(settings, env0, 0) == Ok::<Seq<(Seq<char>, Seq<char>)>, Seq<char>>(env0));
    if env_steps(settings, env0, 1) is Err {
        lemma_failure_stays(settings, env0, 1, 18);
    }
    if env_steps(settings, env0, 2) is Err {
        lemma_failure_stays(settings, env0, 2, 18);
    }
    if env_steps(settings, env0, 3) is Err {
        lemma_failure_stays(settings, env0, 3, 18);
    }
    if env_steps(settings, env0, 1) is Ok && env_steps(settings, env0, 2) is Ok {
        assert(env_steps(settings, env0, 2) == env_step(settings, env_steps(settings, env0, 1)->Ok_0, sidecar_steps()[1]));
    }
    if env_steps(settings, env0, 2) is Ok {
        assert(env_steps(settings, env0, 3) == env_step(settings, env_steps(settings, env0, 2)->Ok_0, sidecar_steps()[2]));
    }
}

/// Whether a flag's text turns it on: `1`, `true`, `yes` or `on`, in any case.
pub open spec fn flag_on(t: Seq<char>) -> bool {
    let l = lower(t);
    l == "1"@ || l == "true"@ || l == "yes"@ || l == "on"@
}

/// A flag setting is passed as `true` exactly when its value, in lower case,
/// is `1`, `true`, `yes` or `on`, and as `false` otherwise; so the
/// auto-process flag reaches the sidecar as `true` or `false` by that rule.
pub proof fn law_flags_pass_true_exactly_for_on_values(
    settings: Seq<(Seq<char>, Seq<char>)>,
    storage_path: Seq<char>,
    t: Seq<char>,
)
    ensures
        flag_value(t) == "true"@ <==> (lower(t) == "1"@ || lower(t) == "true"@ || lower(t) == "yes"@ || lower(t) == "on"@),
        flag_value(t) == "true"@ || flag_value(t) == "false"@,
        sidecar_env_spec(settings, storage_path) is Ok && setting_value(settings, "auto_process_after_record"@) == Some(t)
            ==> sidecar_env_spec(settings, storage_path)->Ok_0.contains(
                ("TIKCLIP_AUTO_PROCESS_AFTER_RECORD"@, if flag_on(t) { "true"@ } else { "false"@ }),
            ),
{
    reveal_strlit("true");
    reveal_strlit("false");
    assert("true"@.len() != "false"@.len());
    let env0 = seq![("TIKCLIP_STORAGE_PATH"@, storage_path)];
    if sidecar_env_spec(settings, storage_path) is Ok {
        lemma_env_steps_prefix(settings, env0, 7, 18);
        let env = sidecar_env_spec(settings, storage_path)->Ok_0;
        let e7 = env_steps(settings, env0, 7)->Ok_0;
        let e6 = env_steps(settings, env0, 6)->Ok_0;
        lemma_env_steps_prefix(settings, env0, 6, 7);
        assert(env_steps(settings, env0, 7) == env_step(settings, e6, sidecar_steps()[6]));
        if setting_value(settings, "auto_process_after_record"@) == Some(t) {
            let k = e7.len() - 1;
            assert(e7 == e6.push(("TIKCLIP_AUTO_PROCESS_AFTER_RECORD"@, flag_value(t))));
            assert(env[k] == e7[k]);
        }
    }
}

} // verus!
