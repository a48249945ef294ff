//! Dashboard inputs: the day a "clips today" count is asked for.
use vstd::prelude::*;
use crate::storage::{sat_add, saturating_add_i64};
use crate::text::{is_digit, str_chars, string_from, trim, trim_str};

verus! {

/// `YYYY-MM-DD` in shape: ten characters, `-` at 4 and 7, ASCII digits elsewhere.
pub open spec fn ymd_shape(s: Seq<char>) -> bool {
    &&& s.len() == 10
    &&& forall|i: int| 0 <= i < 10 ==> if i == 4 || i == 7 {
        #[trigger] s[i] == '-'
    } else {
        is_digit(s[i])
    }
}

/// Whether a day has the `YYYY-MM-DD` shape (the calendar is not checked).
pub fn is_valid_ymd(s: &str) -> (r: bool)
    ensures
        r == ymd_shape(s@),
{
    let c = str_chars(s);
    if c.len() != 10 {
        return false;
    }
    let mut i: usize = 0;
    while i < 10
        invariant
            c@ == s@,
            c@.len() == 10,
            i <= 10,
            forall|j: int| 0 <= j < i ==> if j == 4 || j == 7 {
                #[trigger] c@[j] == '-'
            } else {
                is_digit(c@[j])
            },
        decreases 10 - i,
    {
        if i == 4 || i == 7 {
            if c[i] != '-' {
                return false;
            }
        } else if !crate::text::char_is_digit(c[i]) {
            return false;
        }
        i = i + 1;
    }
    true
}

/// The day a dashboard count is asked for: trimmed, and in `YYYY-MM-DD` shape.
pub fn check_dashboard_day(today_ymd: &str) -> (r: Result<String, String>)
    ensures
        match r {
            Ok(d) => ymd_shape(trim(today_ymd@)) && d@ == trim(today_ymd@),
            Err(e) => !ymd_shape(trim(today_ymd@)) && e@ == "today_ymd must be YYYY-MM-DD"@,
        },
{
    let t = trim_str(today_ymd);
    let day = string_from(t.as_slice());
    if is_valid_ymd(day.as_str()) {
        Ok(day)
    } else {
        Err(crate::text::string_of("today_ymd must be YYYY-MM-DD"))
    }
}

/// The folder segment a day's clip files sit under: `/{day}/`.
pub fn day_folder_needle(day: &str) -> (r: String)
    ensures
        r@ == "/"@ + day@ + "/"@,
{
    let mut v = str_chars("/");
    crate::text::append_str(&mut v, day);
    crate::text::append_str(&mut v, "/");
    string_from(v.as_slice())
}

pub open spec fn max_int(a: int, b: int) -> int {
    if a >= b {
        a
    } else {
        b
    }
}

/// The storage the dashboard shows: the largest of the size columns' total
/// (saturating, at least 0), the stored paths' sizes and the layout's sizes.
pub fn dashboard_used_bytes(clip_bytes: i64, recording_bytes: i64, disk_bytes: i64, layout_bytes: i64) -> (r: i64)
    ensures
        r == max_int(max_int(max_int(sat_add(clip_bytes as int, recording_bytes as int), 0), disk_bytes as int), layout_bytes as int),
{
    let columns = saturating_add_i64(clip_bytes, recording_bytes);
    let columns = if columns < 0 { 0 } else { columns };
    let a = if columns >= disk_bytes { columns } else { disk_bytes };
    if a >= layout_bytes { a } else { layout_bytes }
}

} // verus!
