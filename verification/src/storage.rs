//! Storage accounting and cleanup rules: usage totals that saturate, which
//! usage estimate wins, the cleanup settings and their bounds, and which files
//! a cleanup removes.
use vstd::prelude::*;
use crate::paths::{is_raw_media, is_raw_media_file};
use crate::recording::{join_path, path_join};
use crate::session::{opt_seq, opt_str_seq};
use crate::sidecar::debug_str;
use crate::text::{
    append_str, parse_i64, parse_i64_chars, starts_with, str_chars, string_from, trim, trim_str,
};

verus! {

/// Bytes and files counted under some place.
#[derive(Debug, Clone, Copy, PartialEq, Eq)]
pub struct DirUsage {
    pub bytes: i64,
    pub files: i64,
}

pub open spec fn sat_add(a: int, b: int) -> int {
    if a + b > i64::MAX {
        i64::MAX as int
    } else if a + b < i64::MIN {
        i64::MIN as int
    } else {
        a + b
    }
}

/// `i64::saturating_add`.
pub fn saturating_add_i64(a: i64, b: i64) -> (r: i64)
    ensures
        r == sat_add(a as int, b as int),
{
    let s: i128 = a as i128 + b as i128;
    if s > 9223372036854775807i128 {
        9223372036854775807i64
    } else if s < -9223372036854775808i128 {
        -9223372036854775808i64
    } else {
        s as i64
    }
}

/// Nothing counted.
pub fn empty_usage() -> (r: DirUsage)
    ensures
        r.bytes == 0 && r.files == 0,
{
    DirUsage { bytes: 0, files: 0 }
}

/// `total` plus a file length, the length capped at `i64::MAX` and the sum saturating.
pub fn add_len(total: i64, len: u64) -> (r: i64)
    ensures
        r == sat_add(total as int, if len > i64::MAX { i64::MAX as int } else { len as int }),
{
    let size: i64 = if len > 9223372036854775807u64 {
        9223372036854775807i64
    } else {
        len as i64
    };
    saturating_add_i64(total, size)
}

/// One more file of `len` bytes.
pub fn add_file(u: DirUsage, len: u64) -> (r: DirUsage)
    ensures
        r.bytes == sat_add(u.bytes as int, if len > i64::MAX { i64::MAX as int } else { len as int }),
        r.files == sat_add(u.files as int, 1),
{
    DirUsage { bytes: add_len(u.bytes, len), files: saturating_add_i64(u.files, 1) }
}

/// Two counts together, each total saturating.
pub fn combine_usage(a: DirUsage, b: DirUsage) -> (r: DirUsage)
    ensures
        r.bytes == sat_add(a.bytes as int, b.bytes as int),
        r.files == sat_add(a.files as int, b.files as int),
{
    DirUsage { bytes: saturating_add_i64(a.bytes, b.bytes), files: saturating_add_i64(a.files, b.files) }
}

/// The index of the usage with the most bytes, the last one on a tie.
pub open spec fn max_usage_index(us: Seq<DirUsage>) -> int
    decreases us.len(),
{
    if us.len() <= 1 {
        0
    } else {
        let k = max_usage_index(us.drop_last());
        if us.last().bytes >= us[k].bytes {
            us.len() - 1
        } else {
            k
        }
    }
}

proof fn lemma_max_usage_index(us: Seq<DirUsage>)
    requires
        us.len() > 0,
    ensures
        0 <= max_usage_index(us) < us.len(),
        forall|j: int| 0 <= j < us.len() ==> (#[trigger] us[j]).bytes <= us[max_usage_index(us)].bytes,
    decreases us.len(),
{
    if us.len() > 1 {
        let d = us.drop_last();
        lemma_max_usage_index(d);
        assert forall|j: int| 0 <= j < d.len() implies #[trigger] d[j] == us[j] by {}
        let k = max_usage_index(d);
        assert(d[k] == us[k]);
        let m = max_usage_index(us);
        assert forall|j: int| 0 <= j < us.len() implies (#[trigger] us[j]).bytes <= us[m].bytes by {
            if j < us.len() - 1 {
                assert(d[j] == us[j]);
                assert(d[j].bytes <= d[k].bytes);
            }
        }
    }
}

/// The estimate with the most bytes (the last one on a tie); nothing for no estimates.
pub fn max_usage(usages: &[DirUsage]) -> (r: DirUsage)
    ensures
        usages@.len() == 0 ==> r.bytes == 0 && r.files == 0,
        usages@.len() > 0 ==> r == usages@[max_usage_index(usages@)],
        forall|j: int| 0 <= j < usages@.len() ==> (#[trigger] usages@[j]).bytes <= r.bytes,
{
    if usages.len() == 0 {
        return empty_usage();
    }
    let mut best: usize = 0;
    let mut i: usize = 1;
    while i < usages.len()
        invariant
            1 <= i <= usages@.len(),
            best < i,
            best as int == max_usage_index(usages@.subrange(0, i as int)),
        decreases usages@.len() - i,
    {
        proof {
            assert(usages@.subrange(0, i + 1).drop_last() =~= usages@.subrange(0, i as int));
            assert(usages@.subrange(0, i as int)[best as int] == usages@[best as int]);
        }
        if usages[i].bytes >= usages[best].bytes {
            best = i;
        }
        i = i + 1;
    }
    proof {
        assert(usages@.subrange(0, usages@.len() as int) =~= usages@);
        lemma_max_usage_index(usages@);
    }
    usages[best]
}

/// Where a stored path points: itself when absolute, else under the storage root.
pub open spec fn usage_path(root: Seq<char>, raw: Seq<char>) -> Seq<char> {
    let t = trim(raw);
    if starts_with(t, "/"@) {
        t
    } else {
        path_join(root, t)
    }
}

/// The path a stored file path stands for.
pub fn resolve_usage_path(storage_root: &str, raw: &str) -> (r: String)
    ensures
        r@ == usage_path(storage_root@, raw@),
{
    let t = trim_str(raw);
    if crate::text::starts_with_str(t.as_slice(), "/") {
        string_from(t.as_slice())
    } else {
        let root = str_chars(storage_root);
        string_from(join_path(root.as_slice(), t.as_slice()).as_slice())
    }
}

/// The total of the files found: each `Some(len)` is a file of `len` bytes
/// (a blank path, a missing file or a directory is `None`).
pub open spec fn usage_of_sizes(sizes: Seq<Option<u64>>) -> (int, int)
    decreases sizes.len(),
{
    if sizes.len() == 0 {
        (0, 0)
    } else {
        let (b, f) = usage_of_sizes(sizes.drop_last());
        match sizes.last() {
            Some(len) => (
                sat_add(b, if len > i64::MAX { i64::MAX as int } else { len as int }),
                sat_add(f, 1),
            ),
            None => (b, f),
        }
    }
}

pub fn usage_from_file_sizes(sizes: &[Option<u64>]) -> (r: DirUsage)
    ensures
        (r.bytes as int, r.files as int) == usage_of_sizes(sizes@),
{
    let mut u = empty_usage();
    let mut i: usize = 0;
    while i < sizes.len()
        invariant
            i <= sizes@.len(),
            (u.bytes as int, u.files as int) == usage_of_sizes(sizes@.subrange(0, i as int)),
        decreases sizes@.len() - i,
    {
        proof {
            assert(sizes@.subrange(0, i + 1).drop_last() =~= sizes@.subrange(0, i as int));
        }
        match sizes[i] {
            Some(len) => {
                u = add_file(u, len);
            },
            None => {},
        }
        i = i + 1;
    }
    proof {
        assert(sizes@.subrange(0, sizes@.len() as int) =~= sizes@);
    }
    u
}

// ---------------------------------------------------------------------------
// Cleanup settings
// ---------------------------------------------------------------------------
/// How long raw recordings and archived clips are kept, and the usage
/// percentages that warn and that are critical.
#[derive(Debug, Clone, Copy, PartialEq, Eq)]
pub struct CleanupSettings {
    pub raw_retention_days: i64,
    pub archive_retention_days: i64,
    pub warn_percent: i64,
    pub cleanup_percent: i64,
}

/// A setting read as an integer: the fallback when it is not set, an error
/// when it does not parse.
pub open spec fn int_setting(key: Seq<char>, value: Option<Seq<char>>, fallback: i64) -> Result<int, Seq<char>> {
    match value {
        None => Ok(fallback as int),
        Some(v) => match parse_i64(v) {
            Some(n) => Ok(n),
            None => Err(key + " must be an integer, got "@ + debug_str(v)),
        },
    }
}

fn debug_quote_str(s: &str) -> (r: String)
    ensures
        r@ == debug_str(s@),
{
    let c = str_chars(s);
    crate::sidecar::debug_quote_chars(c.as_slice())
}

/// A setting (already trimmed, `None` when blank) read as an integer.
pub fn read_i64_setting(key: &str, value: Option<&str>, fallback: i64) -> (r: Result<i64, String>)
    ensures
        match r {
            Ok(n) => int_setting(key@, opt_str_seq(value), fallback) == Ok::<int, Seq<char>>(n as int),
            Err(e) => int_setting(key@, opt_str_seq(value), fallback) == Err::<int, Seq<char>>(e@),
        },
{
    match value {
        None => Ok(fallback),
        Some(v) => {
            let c = str_chars(v);
            match parse_i64_chars(c.as_slice()) {
                Some(n) => Ok(n),
                None => {
                    let mut m = str_chars(key);
                    append_str(&mut m, " must be an integer, got ");
                    let d = debug_quote_str(v);
                    append_str(&mut m, d.as_str());
                    Err(string_from(m.as_slice()))
                },
            }
        },
    }
}

pub open spec fn clamp(v: int, lo: int, hi: int) -> int {
    if v < lo {
        lo
    } else if v > hi {
        hi
    } else {
        v
    }
}

/// The cleanup settings from their stored values: retention 7 and 0 days
/// and thresholds 80 % and 95 % by default; retention at least 0, thresholds
/// within 1..=100 and the critical one at least the warning one.
pub open spec fn cleanup_settings_spec(
    raw: Option<Seq<char>>,
    archive: Option<Seq<char>>,
    warn: Option<Seq<char>>,
    cleanup: Option<Seq<char>>,
) -> Result<(int, int, int, int), Seq<char>> {
    match int_setting("TIKCLIP_RAW_RETENTION_DAYS"@, raw, 7) {
        Err(e) => Err(e),
        Ok(r) => match int_setting("TIKCLIP_ARCHIVE_RETENTION_DAYS"@, archive, 0) {
            Err(e) => Err(e),
            Ok(a) => match int_setting("TIKCLIP_STORAGE_WARN_PERCENT"@, warn, 80) {
                Err(e) => Err(e),
                Ok(w) => match int_setting("TIKCLIP_STORAGE_CLEANUP_PERCENT"@, cleanup, 95) {
                    Err(e) => Err(e),
                    Ok(c) => {
                        let w2 = clamp(w, 1, 100);
                        let c2 = clamp(c, 1, 100);
                        Ok((
                            if r < 0 { 0 } else { r },
                            if a < 0 { 0 } else { a },
                            w2,
                            if c2 < w2 { w2 } else { c2 },
                        ))
                    },
                },
            },
        },
    }
}

fn clamp_i64(v: i64, lo: i64, hi: i64) -> (r: i64)
    requires
        lo <= hi,
    ensures
        r == clamp(v as int, lo as int, hi as int),
{
    if v < lo {
        lo
    } else if v > hi {
        hi
    } else {
        v
    }
}

/// The cleanup settings from the stored values of their four keys.
pub fn read_cleanup_settings(
    raw: Option<&str>,
    archive: Option<&str>,
    warn: Option<&str>,
    cleanup: Option<&str>,
) -> (r: Result<CleanupSettings, String>)
    ensures
        match r {
            Ok(s) => cleanup_settings_spec(opt_str_seq(raw), opt_str_seq(archive), opt_str_seq(warn), opt_str_seq(cleanup))
                == Ok::<(int, int, int, int), Seq<char>>((
                    s.raw_retention_days as int,
                    s.archive_retention_days as int,
                    s.warn_percent as int,
                    s.cleanup_percent as int,
                )),
            Err(e) => cleanup_settings_spec(opt_str_seq(raw), opt_str_seq(archive), opt_str_seq(warn), opt_str_seq(cleanup))
                == Err::<(int, int, int, int), Seq<char>>(e@),
        },
{
    let r0 = match read_i64_setting("TIKCLIP_RAW_RETENTION_DAYS", raw, 7) {
        Ok(v) => v,
        Err(e) => return Err(e),
    };
    let a0 = match read_i64_setting("TIKCLIP_ARCHIVE_RETENTION_DAYS", archive, 0) {
        Ok(v) => v,
        Err(e) => return Err(e),
    };
    let w0 = match read_i64_setting("TIKCLIP_STORAGE_WARN_PERCENT", warn, 80) {
        Ok(v) => v,
        Err(e) => return Err(e),
    };
    let c0 = match read_i64_setting("TIKCLIP_STORAGE_CLEANUP_PERCENT", cleanup, 95) {
        Ok(v) => v,
        Err(e) => return Err(e),
    };
    let w = clamp_i64(w0, 1, 100);
    let c = clamp_i64(c0, 1, 100);
    Ok(CleanupSettings {
        raw_retention_days: if r0 < 0 { 0 } else { r0 },
        archive_retention_days: if a0 < 0 { 0 } else { a0 },
        warn_percent: w,
        cleanup_percent: if c < w { w } else { c },
    })
}

/// The bounds every cleanup setting keeps.
pub proof fn law_cleanup_settings_bounded(
    raw: Option<Seq<char>>,
    archive: Option<Seq<char>>,
    warn: Option<Seq<char>>,
    cleanup: Option<Seq<char>>,
)
    ensures
        cleanup_settings_spec(raw, archive, warn, cleanup) matches Ok((r, a, w, c)) ==> r >= 0 && a >= 0 && 1 <= w
            <= c <= 100,
{
}

/// What a cleanup run was asked for.
#[derive(Debug, Clone, Copy, PartialEq, Eq)]
pub struct StorageCleanupRunInput {
    pub raw_retention_days: i64,
    pub archive_retention_days: i64,
}

/// What a cleanup run removed.
#[derive(Debug, Clone, Copy, PartialEq, Eq)]
pub struct StorageCleanupSummary {
    pub deleted_recordings: i64,
    pub deleted_clips: i64,
    pub freed_bytes: i64,
}

/// The retention days of a run asked for by hand; negative days are refused.
pub fn check_cleanup_run_input(input: StorageCleanupRunInput) -> (r: Result<(i64, i64), String>)
    ensures
        input.raw_retention_days < 0 || input.archive_retention_days < 0 ==> (match r {
            Err(e) => e@ == "retention days must be non-negative"@,
            Ok(_) => false,
        }),
        input.raw_retention_days >= 0 && input.archive_retention_days >= 0 ==> r == Ok::<(i64, i64), String>(
            (input.raw_retention_days, input.archive_retention_days),
        ),
{
    if input.raw_retention_days < 0 || input.archive_retention_days < 0 {
        Err(crate::text::string_of("retention days must be non-negative"))
    } else {
        Ok((input.raw_retention_days, input.archive_retention_days))
    }
}

/// The retention a cleanup uses: the one asked for, else the setting; never negative.
pub fn effective_retention_days(requested: Option<i64>, setting: i64) -> (r: i64)
    ensures
        r == (match requested {
            Some(d) => if d < 0 { 0 } else { d },
            None => if setting < 0 { 0 } else { setting },
        }),
{
    let d = match requested {
        Some(d) => d,
        None => setting,
    };
    if d < 0 {
        0
    } else {
        d
    }
}

/// A recordings file goes when retention is on, it is a raw media file and
/// it is at least that many calendar days old.
pub fn should_delete_recording_file(path: &str, is_file: bool, age_days: i64, retention_days: i64) -> (r: bool)
    ensures
        r == (retention_days > 0 && is_file && is_raw_media(path@) && age_days >= retention_days),
{
    retention_days > 0 && is_file && is_raw_media_file(path) && age_days >= retention_days
}

/// A summary of what a cleanup removed, the freed bytes saturating.
pub fn cleanup_summary(deleted_recordings: i64, deleted_clips: i64, freed_recordings: i64, freed_clips: i64) -> (r: StorageCleanupSummary)
    ensures
        r.deleted_recordings == deleted_recordings,
        r.deleted_clips == deleted_clips,
        r.freed_bytes == sat_add(freed_recordings as int, freed_clips as int),
{
    StorageCleanupSummary {
        deleted_recordings,
        deleted_clips,
        freed_bytes: saturating_add_i64(freed_recordings, freed_clips),
    }
}

/// The day number (from the common era) of the date `NaiveDate::parse_from_str`
/// reads from the text with `%Y-%m-%d`, if it reads one.
pub uninterp spec fn ymd_day_number(text: Seq<char>) -> Option<int>;

/// `chrono::NaiveDate::parse_from_str(text, "%Y-%m-%d")`, then
/// `num_days_from_ce`; named as a function of the text.
#[verifier::external_body]
fn parse_ymd_day_number(text: &str) -> (r: Option<i32>)
    ensures
        match r {
            Some(d) => ymd_day_number(text@) == Some(d as int),
            None => ymd_day_number(text@) is None,
        },
{
    chrono::NaiveDate::parse_from_str(text, "%Y-%m-%d").ok().map(|d| chrono::Datelike::num_days_from_ce(&d))
}

/// The first ten characters of a timestamp, when it has them.
pub open spec fn date_part(value: Seq<char>) -> Option<Seq<char>> {
    if value.len() >= 10 {
        Some(value.subrange(0, 10))
    } else {
        None
    }
}

/// How many calendar days before `today` a stored timestamp's date lies (at
/// least 0), or `None` when the timestamp holds no date.
pub open spec fn age_days_spec(today: int, value: Seq<char>) -> Option<int> {
    match date_part(value) {
        None => None,
        Some(d) => match ymd_day_number(d) {
            None => None,
            Some(n) => if today - n < 0 {
                Some(0)
            } else {
                Some(today - n)
            },
        },
    }
}

/// The calendar age of an archived clip from its `updated_at`.
pub fn archived_clip_age_days(today_day_number: i32, updated_at: &str) -> (r: Option<i64>)
    ensures
        match r {
            Some(a) => age_days_spec(today_day_number as int, updated_at@) == Some(a as int),
            None => age_days_spec(today_day_number as int, updated_at@) is None,
        },
{
    let c = str_chars(updated_at);
    if c.len() < 10 {
        return None;
    }
    let head = string_from(crate::text::slice_chars(c.as_slice(), 0, 10).as_slice());
    match parse_ymd_day_number(head.as_str()) {
        None => None,
        Some(n) => {
            let n64: i64 = n as i64;
            let t64: i64 = today_day_number as i64;
            if n64 > t64 {
                Some(0)
            } else {
                Some(t64 - n64)
            }
        },
    }
}

} // verus!
