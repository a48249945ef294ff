//! Reading a live room out of TikTok pages and API payloads: room ids in HTML,
//! the webcast region, stream URLs, viewer counts and the live flag.
use vstd::prelude::*;
use crate::json::{
    as_array, as_object, as_str, get, is_null, jget, jint_loose, jitems, jmembers, json_parse, jstr,
    jview, jview_items, jview_members, lemma_jview_items, lemma_jview_members, oget, oget_exec,
    oint_loose, oint_loose_exec, ostr, ostr_exec, oview, parse_json, value_as_i64, JsonValue,
    JsonView,
};
use crate::session::{opt_seq, opt_str_seq};
use crate::text::{dec_int, fmt_i64};
use crate::text::{
    count_leading_digits, find, find_from, find_chars_from, find_str, is_digit, leading_digits,
    lemma_find_from_bounds, lemma_leading_digits_shape, lower, lower_chars, slice_chars,
    str_chars, string_from, trim, trim_chars, trim_start_ascii, trim_start_ascii_index,
    contains, contains_str, occurs_at, chars_eq_str,
};

verus! {

// ---------------------------------------------------------------------------
// Room id in live HTML
// ---------------------------------------------------------------------------
/// The digits after `key`, optional ASCII whitespace, `:`, optional ASCII
/// whitespace and an optional opening quote, at the first occurrence of `key`
/// at or after `from` where at least five digits follow.
pub open spec fn digits_after_key_from(h: Seq<char>, key: Seq<char>, from: int) -> Option<Seq<char>>
    decreases h.len() + 1 - from,
{
    if key.len() == 0 || from < 0 {
        None
    } else {
        match find_from(h, key, from) {
            None => None,
            Some(p) => {
                proof {
                    lemma_find_from_bounds(h, key, from);
                }
                let start = p + key.len();
                let rest = trim_start_ascii(h.subrange(start, h.len() as int));
                if rest.len() == 0 || rest[0] != ':' {
                    digits_after_key_from(h, key, start)
                } else {
                    let r2 = trim_start_ascii(rest.drop_first());
                    let d = if r2.len() > 0 && r2[0] == '"' {
                        leading_digits(r2.drop_first())
                    } else {
                        leading_digits(r2)
                    };
                    if d.len() >= 5 {
                        Some(d)
                    } else {
                        digits_after_key_from(h, key, start)
                    }
                }
            },
        }
    }
}

proof fn lemma_trim_start_ascii_suffix(s: Seq<char>)
    ensures
        trim_start_ascii(s).len() <= s.len(),
        trim_start_ascii(s) == s.subrange(s.len() - trim_start_ascii(s).len(), s.len() as int),
    decreases s.len(),
{
    if s.len() > 0 && crate::text::is_ascii_ws(s[0]) {
        lemma_trim_start_ascii_suffix(s.drop_first());
        assert(s.drop_first().subrange(
            s.drop_first().len() - trim_start_ascii(s).len(),
            s.drop_first().len() as int,
        ) =~= s.subrange(s.len() - trim_start_ascii(s).len(), s.len() as int));
    } else {
        assert(s.subrange(0, s.len() as int) =~= s);
    }
}

/// `extract_digits_after_json_key`.
pub fn extract_digits_after_json_key(html: &[char], key: &str) -> (r: Option<Vec<char>>)
    ensures
        match r {
            Some(d) => digits_after_key_from(html@, key@, 0) == Some(d@),
            None => digits_after_key_from(html@, key@, 0) is None,
        },
{
    let kc = str_chars(key);
    if kc.len() == 0 {
        return None;
    }
    let mut from: usize = 0;
    loop
        invariant
            kc@ == key@,
            kc@.len() > 0,
            from <= html@.len() + kc@.len(),
            digits_after_key_from(html@, key@, 0) == digits_after_key_from(html@, key@, from as int),
        decreases html@.len() + 1 - from,
    {
        if from > html.len() {
            assert(find_from(html@, key@, from as int) is None);
            return None;
        }
        match find_chars_from(html, kc.as_slice(), from) {
            None => return None,
            Some(p) => {
                proof {
                    lemma_find_from_bounds(html@, key@, from as int);
                }
                let start: usize = p + kc.len();
                let a = trim_start_ascii_index(html, start);
                if a >= html.len() || html[a] != ':' {
                    proof {
                        let rest = trim_start_ascii(html@.subrange(start as int, html@.len() as int));
                        assert(rest == html@.subrange(a as int, html@.len() as int));
                        if rest.len() > 0 {
                            assert(rest[0] == html@[a as int]);
                        }
                    }
                    from = start;
                    continue;
                }
                let b = trim_start_ascii_index(html, a + 1);
                let ghost rest = html@.subrange(a as int, html@.len() as int);
                assert(rest.drop_first() =~= html@.subrange(a + 1, html@.len() as int));
                let ghost r2 = html@.subrange(b as int, html@.len() as int);
                let dstart: usize = if b < html.len() && html[b] == '"' {
                    assert(r2.drop_first() =~= html@.subrange(b + 1, html@.len() as int));
                    b + 1
                } else {
                    b
                };
                let n = count_leading_digits(html, dstart);
                if n >= 5 {
                    return Some(slice_chars(html, dstart, dstart + n));
                }
                from = start;
            },
        }
    }
}

/// The room id markers tried in order; the digits that follow must number at least five.
pub open spec fn room_id_prefixes() -> Seq<Seq<char>> {
    seq![
        "\"roomId\":\""@,
        "\"room_id\":\""@,
        "\\\"roomId\\\":\\\""@,
        "\\\"room_id\\\":\\\""@,
        "\"room_id\":"@,
        "room_id="@,
        "roomId="@,
        "\"id_str\":\""@,
        "\"web_rid\":\""@,
    ]
}

/// The digits right after the first occurrence of `p`, when at least `min` of them follow it.
pub open spec fn digits_after_first(h: Seq<char>, p: Seq<char>, min: nat) -> Option<Seq<char>> {
    match find(h, p) {
        None => None,
        Some(i) => {
            let d = leading_digits(h.subrange(i + p.len(), h.len() as int));
            if d.len() >= min {
                Some(d)
            } else {
                None
            }
        },
    }
}

/// Tries the markers from index `k` on.
pub open spec fn room_id_from_prefixes(h: Seq<char>, k: int) -> Option<Seq<char>>
    decreases room_id_prefixes().len() - k,
{
    if k < 0 || k >= room_id_prefixes().len() {
        None
    } else {
        match digits_after_first(h, room_id_prefixes()[k], 5) {
            Some(d) => Some(d),
            None => room_id_from_prefixes(h, k + 1),
        }
    }
}

/// The room id that `extract_room_id_from_live_html` finds.
pub open spec fn room_id_from_html_spec(h: Seq<char>) -> Option<Seq<char>> {
    match room_id_from_prefixes(h, 0) {
        Some(d) => Some(d),
        None => match digits_after_first(h, "room/"@, 10) {
            Some(d) => Some(d),
            None => match digits_after_key_from(h, "\"roomId\""@, 0) {
                Some(d) => Some(d),
                None => digits_after_key_from(h, "\"room_id\""@, 0),
            },
        },
    }
}

/// `d` is at least five ASCII digits, and occurs in `h`.
pub open spec fn is_room_id_in(d: Seq<char>, h: Seq<char>) -> bool {
    &&& d.len() >= 5
    &&& forall|j: int| 0 <= j < d.len() ==> is_digit(#[trigger] d[j])
    &&& contains(h, d)
}

proof fn lemma_leading_digits_found(h: Seq<char>, a: int)
    requires
        0 <= a <= h.len(),
    ensures
        occurs_at(h, leading_digits(h.subrange(a, h.len() as int)), a),
        forall|j: int| 0 <= j < leading_digits(h.subrange(a, h.len() as int)).len()
            ==> is_digit(#[trigger] leading_digits(h.subrange(a, h.len() as int))[j]),
{
    let s = h.subrange(a, h.len() as int);
    lemma_leading_digits_shape(s);
    let d = leading_digits(s);
    assert(h.subrange(a, a + d.len()) =~= s.subrange(0, d.len() as int));
    assert forall|j: int| 0 <= j < d.len() implies is_digit(#[trigger] d[j]) by {
        assert(d[j] == s[j]);
    }
}

proof fn lemma_digits_after_first_in_page(h: Seq<char>, p: Seq<char>, min: nat)
    requires
        min >= 5,
    ensures
        digits_after_first(h, p, min) matches Some(d) ==> is_room_id_in(d, h),
{
    lemma_find_from_bounds(h, p, 0);
    match find(h, p) {
        Some(i) => {
            lemma_leading_digits_found(h, i + p.len());
        },
        None => {},
    }
}

proof fn lemma_prefixes_in_page(h: Seq<char>, k: int)
    ensures
        room_id_from_prefixes(h, k) matches Some(d) ==> is_room_id_in(d, h),
    decreases room_id_prefixes().len() - k,
{
    if 0 <= k < room_id_prefixes().len() {
        lemma_digits_after_first_in_page(h, room_id_prefixes()[k], 5);
        lemma_prefixes_in_page(h, k + 1);
    }
}

proof fn lemma_key_digits_in_page(h: Seq<char>, key: Seq<char>, from: int)
    ensures
        digits_after_key_from(h, key, from) matches Some(d) ==> is_room_id_in(d, h),
    decreases h.len() + 1 - from,
{
    if key.len() == 0 || from < 0 {
    } else {
        lemma_find_from_bounds(h, key, from);
        match find_from(h, key, from) {
            None => {},
            Some(p) => {
                let n = h.len() as int;
                let start = p + key.len();
                let tail = h.subrange(start, n);
                let rest = trim_start_ascii(tail);
                lemma_trim_start_ascii_suffix(tail);
                if rest.len() == 0 || rest[0] != ':' {
                    lemma_key_digits_in_page(h, key, start);
                } else {
                    let a1 = n - rest.len() + 1;
                    assert(rest == h.subrange(n - rest.len(), n));
                    assert(rest.drop_first() =~= h.subrange(a1, n));
                    let r2 = trim_start_ascii(rest.drop_first());
                    lemma_trim_start_ascii_suffix(rest.drop_first());
                    let a2 = n - r2.len();
                    assert(r2 =~= h.subrange(a2, n));
                    if r2.len() > 0 && r2[0] == '"' {
                        assert(r2.drop_first() =~= h.subrange(a2 + 1, n));
                        lemma_leading_digits_found(h, a2 + 1);
                    } else {
                        lemma_leading_digits_found(h, a2);
                    }
                    lemma_key_digits_in_page(h, key, start);
                }
            },
        }
    }
}

/// A room id read from a live page is a run of at least five ASCII digits
/// that occurs in the page.
pub proof fn law_room_id_digits_in_page(h: Seq<char>)
    ensures
        room_id_from_html_spec(h) matches Some(d) ==> is_room_id_in(d, h),
{
    lemma_prefixes_in_page(h, 0);
    lemma_digits_after_first_in_page(h, "room/"@, 10);
    lemma_key_digits_in_page(h, "\"roomId\""@, 0);
    lemma_key_digits_in_page(h, "\"room_id\""@, 0);
}

fn digits_after_first_exec(h: &[char], p: &str, min: usize) -> (r: Option<Vec<char>>)
    ensures
        match r {
            Some(d) => digits_after_first(h@, p@, min as nat) == Some(d@),
            None => digits_after_first(h@, p@, min as nat) is None,
        },
{
    match find_str(h, p) {
        None => None,
        Some(i) => {
            proof {
                lemma_find_from_bounds(h@, p@, 0);
            }
            let pc = str_chars(p);
            let pl = pc.len();
            assert(occurs_at(h@, p@, i as int));
            assert(i + pl <= h@.len());
            assert(h@.len() == h.len());
            let n = count_leading_digits(h, i + pl);
            if n >= min {
                Some(slice_chars(h, i + pl, i + pl + n))
            } else {
                None
            }
        },
    }
}

fn prefix_at(k: usize) -> (r: &'static str)
    requires
        k < 9,
    ensures
        r@ == room_id_prefixes()[k as int],
{
    if k == 0 {
        "\"roomId\":\""
    } else if k == 1 {
        "\"room_id\":\""
    } else if k == 2 {
        "\\\"roomId\\\":\\\""
    } else if k == 3 {
        "\\\"room_id\\\":\\\""
    } else if k == 4 {
        "\"room_id\":"
    } else if k == 5 {
        "room_id="
    } else if k == 6 {
        "roomId="
    } else if k == 7 {
        "\"id_str\":\""
    } else {
        "\"web_rid\":\""
    }
}

/// The TikTok room id embedded in a live page, when one can be found.
pub fn extract_room_id_from_live_html(html: &str) -> (r: Option<String>)
    ensures
        match r {
            Some(s) => room_id_from_html_spec(html@) == Some(s@),
            None => room_id_from_html_spec(html@) is None,
        },
{
    let h = str_chars(html);
    let mut k: usize = 0;
    while k < 9
        invariant
            k <= 9,
            h@ == html@,
            room_id_from_prefixes(h@, 0) == room_id_from_prefixes(h@, k as int),
        decreases 9 - k,
    {
        if let Some(d) = digits_after_first_exec(h.as_slice(), prefix_at(k), 5) {
            return Some(string_from(d.as_slice()));
        }
        k = k + 1;
    }
    if let Some(d) = digits_after_first_exec(h.as_slice(), "room/", 10) {
        return Some(string_from(d.as_slice()));
    }
    if let Some(d) = extract_digits_after_json_key(h.as_slice(), "\"roomId\"") {
        return Some(string_from(d.as_slice()));
    }
    if let Some(d) = extract_digits_after_json_key(h.as_slice(), "\"room_id\"") {
        return Some(string_from(d.as_slice()));
    }
    None
}

// ---------------------------------------------------------------------------
// Webcast region
// ---------------------------------------------------------------------------
/// `name` and `value` of a `name=value` cookie piece (name trimmed and
/// lowercased, value trimmed); `None` without `=`.
pub open spec fn cookie_piece(part: Seq<char>) -> Option<(Seq<char>, Seq<char>)> {
    let t = trim(part);
    match find(t, "="@) {
        None => None,
        Some(i) => Some((lower(trim(t.subrange(0, i))), trim(t.subrange(i + 1, t.len() as int)))),
    }
}

/// The lowercased `tt-target-idc` value of the first piece that carries it.
pub open spec fn target_idc(parts: Seq<Seq<char>>) -> Option<Seq<char>>
    decreases parts.len(),
{
    if parts.len() == 0 {
        None
    } else {
        match cookie_piece(parts[0]) {
            Some((k, v)) => if k == "tt-target-idc"@ {
                Some(lower(v))
            } else {
                target_idc(parts.drop_first())
            },
            None => target_idc(parts.drop_first()),
        }
    }
}

/// The webcast region for a data-center name.
pub open spec fn region_for_idc(idc: Seq<char>) -> Seq<char> {
    if contains(idc, "alisg"@) {
        "SG"@
    } else if contains(idc, "useast"@) {
        "US"@
    } else if contains(idc, "eu"@) || contains(idc, "gcp"@) {
        "EU"@
    } else {
        "CH"@
    }
}

/// The region `webcast_region_hint` gives for an optional cookie header.
pub open spec fn region_hint_spec(cookies: Option<Seq<char>>) -> Seq<char> {
    match cookies {
        None => "CH"@,
        Some(c) => region_for_idc(
            match target_idc(crate::text::split_on(c, ';')) {
                Some(idc) => idc,
                None => Seq::empty(),
            },
        ),
    }
}

fn cookie_piece_exec(part: &[char]) -> (r: Option<(Vec<char>, Vec<char>)>)
    ensures
        match r {
            Some((k, v)) => cookie_piece(part@) == Some((k@, v@)),
            None => cookie_piece(part@) is None,
        },
{
    let t = trim_chars(part);
    match find_str(t.as_slice(), "=") {
        None => None,
        Some(i) => {
            proof {
                lemma_find_from_bounds(t@, "="@, 0);
            }
            assert(i < t@.len()) by {
                reveal_strlit("=");
                assert(occurs_at(t@, "="@, i as int));
            }
            let k0 = slice_chars(t.as_slice(), 0, i);
            let k1 = trim_chars(k0.as_slice());
            let k = lower_chars(k1.as_slice());
            assert(t@.len() == t.len());
            let v0 = slice_chars(t.as_slice(), i + 1, t.len());
            let v = trim_chars(v0.as_slice());
            Some((k, v))
        },
    }
}

fn find_target_idc(parts: &Vec<Vec<char>>) -> (r: Option<Vec<char>>)
    ensures
        match r {
            Some(v) => target_idc(parts@.map_values(|w: Vec<char>| w@)) == Some(v@),
            None => target_idc(parts@.map_values(|w: Vec<char>| w@)) is None,
        },
{
    let ghost ps = parts@.map_values(|w: Vec<char>| w@);
    let mut i: usize = 0;
    assert(ps.subrange(0, ps.len() as int) =~= ps);
    while i < parts.len()
        invariant
            i <= parts@.len(),
            ps == parts@.map_values(|w: Vec<char>| w@),
            target_idc(ps) == target_idc(ps.subrange(i as int, ps.len() as int)),
        decreases parts@.len() - i,
    {
        assert(ps.subrange(i as int, ps.len() as int).drop_first() =~= ps.subrange(i + 1, ps.len() as int));
        assert(ps.subrange(i as int, ps.len() as int)[0] == parts@[i as int]@);
        match cookie_piece_exec(parts[i].as_slice()) {
            Some((k, v)) => {
                if chars_eq_str(k.as_slice(), "tt-target-idc") {
                    return Some(lower_chars(v.as_slice()));
                }
            },
            None => {},
        }
        i = i + 1;
    }
    None
}

/// The webcast region (`SG`, `US`, `EU` or `CH`) suggested by the `tt-target-idc` cookie.
pub fn webcast_region_hint(cookie_header: Option<&str>) -> (r: &'static str)
    ensures
        r@ == region_hint_spec(crate::session::opt_str_seq(cookie_header)),
{
    let cookies = match cookie_header {
        None => return "CH",
        Some(c) => str_chars(c),
    };
    let parts = crate::text::split_char(cookies.as_slice(), ';');
    let idc: Vec<char> = match find_target_idc(&parts) {
        Some(v) => v,
        None => Vec::new(),
    };
    if contains_str(idc.as_slice(), "alisg") {
        return "SG";
    }
    if contains_str(idc.as_slice(), "useast") {
        return "US";
    }
    if contains_str(idc.as_slice(), "eu") || contains_str(idc.as_slice(), "gcp") {
        return "EU";
    }
    "CH"
}

// ---------------------------------------------------------------------------
// Stream URLs
// ---------------------------------------------------------------------------
/// A string value, trimmed, when it is not empty after trimming.
pub open spec fn trimmed_str(v: Option<JsonView>) -> Option<Seq<char>> {
    match ostr(v) {
        Some(s) => if trim(s).len() > 0 {
            Some(trim(s))
        } else {
            None
        },
        None => None,
    }
}

/// A string value when it is not empty.
pub open spec fn nonempty_str(v: Option<JsonView>) -> Option<Seq<char>> {
    match ostr(v) {
        Some(s) => if s.len() > 0 {
            Some(s)
        } else {
            None
        },
        None => None,
    }
}

/// The stream qualities tried first, best first.
pub open spec fn stream_quality_order() -> Seq<Seq<char>> {
    seq!["FULL_HD1"@, "HD1"@, "SD1"@, "SD2"@]
}

/// The first member, in order, whose value is a non-empty string.
pub open spec fn first_nonempty_member(ms: Seq<(Seq<char>, JsonView)>) -> Option<Seq<char>>
    decreases ms.len(),
{
    if ms.len() == 0 {
        None
    } else {
        match nonempty_str(Some(ms[0].1)) {
            Some(u) => Some(u),
            None => first_nonempty_member(ms.drop_first()),
        }
    }
}

/// The first known quality, from index `k` of the order, with a non-empty URL.
pub open spec fn quality_url_from(ms: Seq<(Seq<char>, JsonView)>, k: int) -> Option<Seq<char>>
    decreases stream_quality_order().len() - k,
{
    if k < 0 || k >= stream_quality_order().len() {
        None
    } else {
        match nonempty_str(crate::json::members_get(ms, stream_quality_order()[k])) {
            Some(u) => Some(u),
            None => quality_url_from(ms, k + 1),
        }
    }
}

/// The URL of a quality map: the best known quality, else the first non-empty value.
pub open spec fn url_from_quality_map(v: Option<JsonView>) -> Option<Seq<char>> {
    match v {
        None => None,
        Some(x) => match jmembers(x) {
            None => None,
            Some(ms) => match quality_url_from(ms, 0) {
                Some(u) => Some(u),
                None => first_nonempty_member(ms),
            },
        },
    }
}

fn nonempty_str_exec<'a>(v: Option<&'a JsonValue>) -> (r: Option<&'a str>)
    ensures
        opt_str_seq(r) == nonempty_str(oview(v)),
{
    match ostr_exec(v) {
        Some(s) => if str_chars(s).len() > 0 {
            Some(s)
        } else {
            None
        },
        None => None,
    }
}

fn trimmed_str_exec(v: Option<&JsonValue>) -> (r: Option<Vec<char>>)
    ensures
        match r {
            Some(t) => trimmed_str(oview(v)) == Some(t@),
            None => trimmed_str(oview(v)) is None,
        },
{
    match ostr_exec(v) {
        Some(s) => {
            let t = crate::text::trim_str(s);
            if t.len() > 0 {
                Some(t)
            } else {
                None
            }
        },
        None => None,
    }
}

fn quality_at(k: usize) -> (r: &'static str)
    requires
        k < 4,
    ensures
        r@ == stream_quality_order()[k as int],
{
    if k == 0 {
        "FULL_HD1"
    } else if k == 1 {
        "HD1"
    } else if k == 2 {
        "SD1"
    } else {
        "SD2"
    }
}

fn pick_url_from_quality_map(value: Option<&JsonValue>) -> (r: Option<String>)
    ensures
        opt_seq(r) == url_from_quality_map(oview(value)),
{
    let v = match value {
        Some(v) => v,
        None => return None,
    };
    let ps = match as_object(v) {
        Some(ps) => ps,
        None => return None,
    };
    let ghost ms = jview_members(ps@);
    proof {
        lemma_jview_members(ps@);
    }
    let mut k: usize = 0;
    while k < 4
        invariant
            k <= 4,
            oview(value) == Some(jview(*v)),
            jmembers(jview(*v)) == Some(ms),
            quality_url_from(ms, 0) == quality_url_from(ms, k as int),
        decreases 4 - k,
    {
        if let Some(u) = nonempty_str_exec(get(v, quality_at(k))) {
            return Some(crate::text::string_of(u));
        }
        k = k + 1;
    }
    let mut i: usize = 0;
    assert(ms.subrange(0, ms.len() as int) =~= ms);
    while i < ps.len()
        invariant
            i <= ps@.len(),
            ms == jview_members(ps@),
            ms.len() == ps@.len(),
            forall|j: int| 0 <= j < ps@.len() ==> #[trigger] ms[j] == (ps@[j].0@, jview(ps@[j].1)),
            quality_url_from(ms, 0) is None,
            oview(value) == Some(jview(*v)),
            jmembers(jview(*v)) == Some(ms),
            first_nonempty_member(ms) == first_nonempty_member(ms.subrange(i as int, ms.len() as int)),
        decreases ps@.len() - i,
    {
        assert(ms.subrange(i as int, ms.len() as int).drop_first() =~= ms.subrange(i + 1, ms.len() as int));
        assert(ms.subrange(i as int, ms.len() as int)[0] == ms[i as int]);
        if let Some(u) = nonempty_str_exec(Some(&ps[i].1)) {
            return Some(crate::text::string_of(u));
        }
        i = i + 1;
    }
    None
}

/// The rank of a live-core SDK quality (`ld` < `sd` < `hd` < `origin`).
pub open spec fn sdk_rank(key: Seq<char>) -> Option<int> {
    if key == "ld"@ {
        Some(0)
    } else if key == "sd"@ {
        Some(1)
    } else if key == "hd"@ {
        Some(2)
    } else if key == "origin"@ {
        Some(3)
    } else {
        None
    }
}

/// The level the quality list gives `key`: that of its last entry, `-1` when the level is missing.
pub open spec fn listed_level(qs: Seq<JsonView>, key: Seq<char>) -> Option<int>
    decreases qs.len(),
{
    if qs.len() == 0 {
        None
    } else {
        let q = qs.last();
        if ostr(jget(q, "sdk_key"@)) == Some(key) {
            Some(
                match oint_loose(jget(q, "level"@)) {
                    Some(l) => l,
                    None => -1,
                },
            )
        } else {
            listed_level(qs.drop_last(), key)
        }
    }
}

/// The level of a stream: listed, else its SDK rank, else `-1`.
pub open spec fn stream_level(qs: Seq<JsonView>, key: Seq<char>) -> int {
    match listed_level(qs, key) {
        Some(l) => l,
        None => match sdk_rank(key) {
            Some(r) => r,
            None => -1,
        },
    }
}

/// The URL of one SDK stream entry: `main.flv`, or `main.hls` when `flv` is absent, trimmed.
pub open spec fn sdk_entry_url(entry: JsonView) -> Option<Seq<char>> {
    match jget(entry, "main"@) {
        None => None,
        Some(main) => trimmed_str(
            match jget(main, "flv"@) {
                Some(f) => Some(f),
                None => jget(main, "hls"@),
            },
        ),
    }
}

/// The stream with the strictly highest level, the earliest among equals.
pub open spec fn best_stream(ms: Seq<(Seq<char>, JsonView)>, qs: Seq<JsonView>) -> Option<(int, Seq<char>)>
    decreases ms.len(),
{
    if ms.len() == 0 {
        None
    } else {
        let b = best_stream(ms.drop_last(), qs);
        let (k, e) = ms.last();
        match sdk_entry_url(e) {
            None => b,
            Some(u) => {
                let l = stream_level(qs, k);
                match b {
                    Some((bl, bu)) => if l > bl {
                        Some((l, u))
                    } else {
                        Some((bl, bu))
                    },
                    None => Some((l, u)),
                }
            },
        }
    }
}

/// The parent's `pull_data`, or the parent itself.
pub open spec fn pull_data_of(parent: JsonView) -> JsonView {
    match jget(parent, "pull_data"@) {
        Some(p) => p,
        None => parent,
    }
}

/// The best stream URL of live-core SDK pull data.
pub open spec fn sdk_pull_data_url(parent: JsonView) -> Option<Seq<char>> {
    let pull = pull_data_of(parent);
    match ostr(jget(pull, "stream_data"@)) {
        None => None,
        Some(text) => match json_parse(text) {
            None => None,
            Some(parsed) => match jget(parsed, "data"@) {
                None => None,
                Some(d) => match jmembers(d) {
                    None => None,
                    Some(ms) => {
                        let qs = match jitems(
                            match oget(jget(pull, "options"@), "qualities"@) {
                                Some(x) => x,
                                None => JsonView::Null,
                            },
                        ) {
                            Some(qs) => qs,
                            None => Seq::empty(),
                        };
                        match best_stream(ms, qs) {
                            Some((_, u)) => Some(u),
                            None => None,
                        }
                    },
                },
            },
        },
    }
}

fn sdk_rank_exec(key: &[char]) -> (r: Option<i64>)
    ensures
        match r {
            Some(x) => sdk_rank(key@) == Some(x as int),
            None => sdk_rank(key@) is None,
        },
{
    if chars_eq_str(key, "ld") {
        Some(0)
    } else if chars_eq_str(key, "sd") {
        Some(1)
    } else if chars_eq_str(key, "hd") {
        Some(2)
    } else if chars_eq_str(key, "origin") {
        Some(3)
    } else {
        None
    }
}

fn listed_level_exec(qs: &Vec<JsonValue>, key: &[char]) -> (r: Option<i64>)
    ensures
        match r {
            Some(x) => listed_level(jview_items(qs@), key@) == Some(x as int),
            None => listed_level(jview_items(qs@), key@) is None,
        },
{
    let ghost xs = jview_items(qs@);
    proof {
        lemma_jview_items(qs@);
    }
    let mut i: usize = qs.len();
    assert(xs.take(xs.len() as int) =~= xs);
    while i > 0
        invariant
            i <= qs@.len(),
            xs == jview_items(qs@),
            xs.len() == qs@.len(),
            forall|j: int| 0 <= j < qs@.len() ==> #[trigger] xs[j] == jview(qs@[j]),
            listed_level(xs, key@) == listed_level(xs.take(i as int), key@),
        decreases i,
    {
        assert(xs.take(i as int).drop_last() =~= xs.take(i - 1));
        assert(xs.take(i as int).last() == xs[i - 1]);
        let q = &qs[i - 1];
        let k = ostr_exec(get(q, "sdk_key"));
        let matches = match k {
            Some(ks) => crate::text::chars_eq(str_chars(ks).as_slice(), key),
            None => false,
        };
        if matches {
            return match value_level(get(q, "level")) {
                Some(l) => Some(l),
                None => Some(-1),
            };
        }
        i = i - 1;
    }
    assert(xs.take(0) =~= Seq::<JsonView>::empty());
    None
}

fn value_level(v: Option<&JsonValue>) -> (r: Option<i64>)
    ensures
        match r {
            Some(x) => oint_loose(oview(v)) == Some(x as int),
            None => oint_loose(oview(v)) is None,
        },
{
    oint_loose_exec(v)
}

fn sdk_entry_url_exec(entry: &JsonValue) -> (r: Option<Vec<char>>)
    ensures
        match r {
            Some(u) => sdk_entry_url(jview(*entry)) == Some(u@),
            None => sdk_entry_url(jview(*entry)) is None,
        },
{
    match get(entry, "main") {
        None => None,
        Some(main) => {
            let x = match get(main, "flv") {
                Some(f) => Some(f),
                None => get(main, "hls"),
            };
            trimmed_str_exec(x)
        },
    }
}

fn pick_stream_url_from_sdk_pull_data(parent: &JsonValue) -> (r: Option<String>)
    ensures
        opt_seq(r) == sdk_pull_data_url(jview(*parent)),
{
    let pull: &JsonValue = match get(parent, "pull_data") {
        Some(p) => p,
        None => parent,
    };
    let text = match ostr_exec(get(pull, "stream_data")) {
        Some(t) => t,
        None => return None,
    };
    let parsed = match parse_json(str_chars(text).as_slice()) {
        Ok(v) => v,
        Err(_) => return None,
    };
    let d = match get(&parsed, "data") {
        Some(d) => d,
        None => return None,
    };
    let ps = match as_object(d) {
        Some(ps) => ps,
        None => return None,
    };
    let empty: Vec<JsonValue> = Vec::new();
    let qs: &Vec<JsonValue> = match oget_exec(get(pull, "options"), "qualities") {
        Some(x) => match as_array(x) {
            Some(a) => a,
            None => &empty,
        },
        None => &empty,
    };
    proof {
        assert(jview_items(empty@) =~= Seq::<JsonView>::empty());
        if oget(jget(jview(*pull), "options"@), "qualities"@) is None {
            assert(jitems(JsonView::Null) is None);
        }
    }
    let ghost ms = jview_members(ps@);
    let ghost xs = jview_items(qs@);
    proof {
        lemma_jview_members(ps@);
    }
    let mut best: Option<(i64, Vec<char>)> = None;
    let mut i: usize = 0;
    while i < ps.len()
        invariant
            i <= ps@.len(),
            ms == jview_members(ps@),
            xs == jview_items(qs@),
            ms.len() == ps@.len(),
            forall|j: int| 0 <= j < ps@.len() ==> #[trigger] ms[j] == (ps@[j].0@, jview(ps@[j].1)),
            match best {
                Some((l, u)) => best_stream(ms.take(i as int), xs) == Some((l as int, u@)),
                None => best_stream(ms.take(i as int), xs) is None,
            },
        decreases ps@.len() - i,
    {
        assert(ms.take(i + 1).drop_last() =~= ms.take(i as int));
        assert(ms.take(i + 1).last() == ms[i as int]);
        let key = str_chars(ps[i].0.as_str());
        if let Some(u) = sdk_entry_url_exec(&ps[i].1) {
            let level: i64 = match listed_level_exec(qs, key.as_slice()) {
                Some(l) => l,
                None => match sdk_rank_exec(key.as_slice()) {
                    Some(r) => r,
                    None => -1,
                },
            };
            let replace = match &best {
                Some((bl, _)) => level > *bl,
                None => true,
            };
            if replace {
                best = Some((level, u));
            }
        }
        i = i + 1;
    }
    assert(ms.take(ms.len() as int) =~= ms);
    match best {
        Some((_, u)) => Some(string_from(u.as_slice())),
        None => None,
    }
}

/// The stream URL of a room payload, trying the SDK pull data, a plain
/// string, the FLV quality map, the HLS quality map, then plain FLV and HLS strings.
pub open spec fn room_stream_url(room: JsonView) -> Option<Seq<char>> {
    match jget(room, "stream_url"@) {
        None => None,
        Some(su) => {
            let sdk = match oget(jget(su, "live_core_sdk_data"@), "pull_data"@) {
                Some(p) => sdk_pull_data_url(p),
                None => None,
            };
            if sdk is Some {
                sdk
            } else if nonempty_str(Some(su)) is Some {
                nonempty_str(Some(su))
            } else if jmembers(su) is None {
                None
            } else if url_from_quality_map(jget(su, "flv_pull_url"@)) is Some {
                url_from_quality_map(jget(su, "flv_pull_url"@))
            } else {
                let hls = match jget(su, "hls_pull_url_map"@) {
                    Some(h) => Some(h),
                    None => jget(su, "hls_pull_url"@),
                };
                if url_from_quality_map(hls) is Some {
                    url_from_quality_map(hls)
                } else if nonempty_str(jget(su, "flv_pull_url"@)) is Some {
                    nonempty_str(jget(su, "flv_pull_url"@))
                } else {
                    nonempty_str(jget(su, "hls_pull_url"@))
                }
            }
        },
    }
}

pub fn pick_stream_url_from_room_payload(room: &JsonValue) -> (r: Option<String>)
    ensures
        opt_seq(r) == room_stream_url(jview(*room)),
{
    let su = match get(room, "stream_url") {
        Some(su) => su,
        None => return None,
    };
    if let Some(p) = oget_exec(get(su, "live_core_sdk_data"), "pull_data") {
        if let Some(url) = pick_stream_url_from_sdk_pull_data(p) {
            return Some(url);
        }
    }
    if let Some(raw) = nonempty_str_exec(Some(su)) {
        return Some(crate::text::string_of(raw));
    }
    if as_object(su).is_none() {
        return None;
    }
    if let Some(u) = pick_url_from_quality_map(get(su, "flv_pull_url")) {
        return Some(u);
    }
    let hls = match get(su, "hls_pull_url_map") {
        Some(h) => Some(h),
        None => get(su, "hls_pull_url"),
    };
    if let Some(u) = pick_url_from_quality_map(hls) {
        return Some(u);
    }
    if let Some(raw) = nonempty_str_exec(get(su, "flv_pull_url")) {
        return Some(crate::text::string_of(raw));
    }
    match nonempty_str_exec(get(su, "hls_pull_url")) {
        Some(raw) => Some(crate::text::string_of(raw)),
        None => None,
    }
}

// ---------------------------------------------------------------------------
// Live status of a room payload
// ---------------------------------------------------------------------------
#[derive(Debug, Clone, PartialEq, Eq)]
pub struct LiveStatus {
    pub room_id: String,
    pub stream_url: Option<String>,
    pub viewer_count: Option<i64>,
}

#[derive(Debug, Clone, PartialEq, Eq)]
pub struct LiveCheckConfig<'a> {
    pub username: &'a str,
    pub cookies_json: &'a str,
    pub proxy_url: Option<&'a str>,
    pub waf_bypass_enabled: bool,
}

#[derive(Debug, Clone, PartialEq, Eq)]
pub struct MergedLiveStatus {
    pub is_live: bool,
    pub room_id: Option<String>,
    pub title: Option<String>,
    pub stream_url: Option<String>,
    pub viewer_count: Option<i64>,
}

pub open spec fn opt_i64_int(o: Option<i64>) -> Option<int> {
    match o {
        Some(i) => Some(i as int),
        None => None,
    }
}

pub open spec fn or_else<T>(a: Option<T>, b: Option<T>) -> Option<T> {
    match a {
        Some(x) => Some(x),
        None => b,
    }
}

/// The room status: `LiveRoomInfo.status`, else `status`.
pub open spec fn room_status(room: JsonView) -> Option<int> {
    or_else(oint_loose(oget(jget(room, "LiveRoomInfo"@), "status"@)), oint_loose(jget(room, "status"@)))
}

/// A room is live when its status is 2 or its `alive` flag is 1.
pub open spec fn room_is_live(room: JsonView) -> bool {
    room_status(room) == Some(2int) || oint_loose(jget(room, "alive"@)) == Some(1int)
}

/// A room id field: trimmed non-empty text, else an integer in decimal.
pub open spec fn room_id_field(room: JsonView, f: Seq<char>) -> Option<Seq<char>> {
    match trimmed_str(jget(room, f)) {
        Some(t) => Some(t),
        None => match oint_loose(jget(room, f)) {
            Some(i) => Some(dec_int(i)),
            None => None,
        },
    }
}

/// The room id from `id_str`, `room_id` or `web_rid`, in that order.
pub open spec fn room_id_of(room: JsonView) -> Option<Seq<char>> {
    or_else(
        room_id_field(room, "id_str"@),
        or_else(room_id_field(room, "room_id"@), room_id_field(room, "web_rid"@)),
    )
}

/// The viewer count from the room stats, `owner_count`, `user_count` or `viewer_count`.
pub open spec fn room_viewer_count(room: JsonView) -> Option<int> {
    or_else(
        oint_loose(oget(oget(jget(room, "LiveRoomInfo"@), "liveRoomStats"@), "userCount"@)),
        or_else(
            oint_loose(jget(room, "owner_count"@)),
            or_else(oint_loose(jget(room, "user_count"@)), oint_loose(jget(room, "viewer_count"@))),
        ),
    )
}

/// The title from `LiveRoomInfo.title`, `.liveRoomName`, `.liveRoomTitle` or `title`.
pub open spec fn room_title(room: JsonView) -> Option<Seq<char>> {
    let info = jget(room, "LiveRoomInfo"@);
    or_else(
        trimmed_str(oget(info, "title"@)),
        or_else(
            trimmed_str(oget(info, "liveRoomName"@)),
            or_else(trimmed_str(oget(info, "liveRoomTitle"@)), trimmed_str(jget(room, "title"@))),
        ),
    )
}

/// Whether a merged status is what `merge_live_status_from_room_payload` gives for `room`.
pub open spec fn merged_matches(m: MergedLiveStatus, room: JsonView) -> bool {
    let live = room_is_live(room);
    &&& m.is_live == live
    &&& opt_seq(m.room_id) == room_id_of(room)
    &&& opt_seq(m.title) == (if live { room_title(room) } else { None })
    &&& opt_seq(m.stream_url) == (if live { room_stream_url(room) } else { None })
    &&& opt_i64_int(m.viewer_count) == (if live { room_viewer_count(room) } else { None })
}

fn room_status_exec(room: &JsonValue) -> (r: Option<i64>)
    ensures
        opt_i64_int(r) == room_status(jview(*room)),
{
    match oint_loose_exec(oget_exec(get(room, "LiveRoomInfo"), "status")) {
        Some(s) => Some(s),
        None => oint_loose_exec(get(room, "status")),
    }
}

fn room_id_field_exec(room: &JsonValue, f: &str) -> (r: Option<String>)
    ensures
        opt_seq(r) == room_id_field(jview(*room), f@),
{
    if let Some(t) = trimmed_str_exec(get(room, f)) {
        return Some(string_from(t.as_slice()));
    }
    match oint_loose_exec(get(room, f)) {
        Some(i) => Some(string_from(fmt_i64(i).as_slice())),
        None => None,
    }
}

fn room_id_exec(room: &JsonValue) -> (r: Option<String>)
    ensures
        opt_seq(r) == room_id_of(jview(*room)),
{
    if let Some(v) = room_id_field_exec(room, "id_str") {
        return Some(v);
    }
    if let Some(v) = room_id_field_exec(room, "room_id") {
        return Some(v);
    }
    room_id_field_exec(room, "web_rid")
}

fn room_viewer_count_exec(room: &JsonValue) -> (r: Option<i64>)
    ensures
        opt_i64_int(r) == room_viewer_count(jview(*room)),
{
    if let Some(v) = oint_loose_exec(oget_exec(oget_exec(get(room, "LiveRoomInfo"), "liveRoomStats"), "userCount")) {
        return Some(v);
    }
    if let Some(v) = oint_loose_exec(get(room, "owner_count")) {
        return Some(v);
    }
    if let Some(v) = oint_loose_exec(get(room, "user_count")) {
        return Some(v);
    }
    oint_loose_exec(get(room, "viewer_count"))
}

fn room_title_exec(room: &JsonValue) -> (r: Option<String>)
    ensures
        opt_seq(r) == room_title(jview(*room)),
{
    let info = get(room, "LiveRoomInfo");
    if let Some(t) = trimmed_str_exec(oget_exec(info, "title")) {
        return Some(string_from(t.as_slice()));
    }
    if let Some(t) = trimmed_str_exec(oget_exec(info, "liveRoomName")) {
        return Some(string_from(t.as_slice()));
    }
    if let Some(t) = trimmed_str_exec(oget_exec(info, "liveRoomTitle")) {
        return Some(string_from(t.as_slice()));
    }
    match trimmed_str_exec(get(room, "title")) {
        Some(t) => Some(string_from(t.as_slice())),
        None => None,
    }
}

/// Live flag, room id, and (for a live room) title, stream URL and viewer count.
pub fn merge_live_status_from_room_payload(room: &JsonValue) -> (r: MergedLiveStatus)
    ensures
        merged_matches(r, jview(*room)),
{
    let status = room_status_exec(room);
    let alive = oint_loose_exec(get(room, "alive"));
    let is_live = match status {
        Some(s) => s == 2,
        None => false,
    } || match alive {
        Some(a) => a == 1,
        None => false,
    };
    let room_id = room_id_exec(room);
    MergedLiveStatus {
        is_live,
        room_id,
        title: if is_live {
            room_title_exec(room)
        } else {
            None
        },
        stream_url: if is_live {
            pick_stream_url_from_room_payload(room)
        } else {
            None
        },
        viewer_count: if is_live {
            room_viewer_count_exec(room)
        } else {
            None
        },
    }
}

/// The viewer count inside live-core SDK stream data (`common.user_count`).
pub open spec fn sdk_viewer_count(stream_data: Option<JsonView>) -> Option<int> {
    match stream_data {
        None => None,
        Some(sd) => {
            let pull = pull_data_of(sd);
            match ostr(jget(pull, "stream_data"@)) {
                None => None,
                Some(text) => match json_parse(text) {
                    None => None,
                    Some(parsed) => oint_loose(oget(jget(parsed, "common"@), "user_count"@)),
                },
            }
        },
    }
}

fn viewer_count_from_sdk_pull_data(stream_data: Option<&JsonValue>) -> (r: Option<i64>)
    ensures
        opt_i64_int(r) == sdk_viewer_count(oview(stream_data)),
{
    let sd = match stream_data {
        Some(sd) => sd,
        None => return None,
    };
    let pull: &JsonValue = match get(sd, "pull_data") {
        Some(p) => p,
        None => sd,
    };
    let text = match ostr_exec(get(pull, "stream_data")) {
        Some(t) => t,
        None => return None,
    };
    let parsed = match parse_json(str_chars(text).as_slice()) {
        Ok(v) => v,
        Err(_) => return None,
    };
    oint_loose_exec(oget_exec(get(&parsed, "common"), "user_count"))
}

/// The stream URL of a user-room API payload: the live room's SDK stream data,
/// its HEVC stream data, or its `stream_url`.
pub open spec fn user_room_stream_url(data: JsonView) -> Option<Seq<char>> {
    match jget(data, "liveRoom"@) {
        None => None,
        Some(lr) => or_else(
            match jget(lr, "streamData"@) {
                Some(x) => sdk_pull_data_url(x),
                None => None,
            },
            or_else(
                match jget(lr, "hevcStreamData"@) {
                    Some(x) => sdk_pull_data_url(x),
                    None => None,
                },
                room_stream_url(lr),
            ),
        ),
    }
}

fn pick_stream_url_from_user_room_payload(data: &JsonValue) -> (r: Option<String>)
    ensures
        opt_seq(r) == user_room_stream_url(jview(*data)),
{
    let lr = match get(data, "liveRoom") {
        Some(lr) => lr,
        None => return None,
    };
    if let Some(x) = get(lr, "streamData") {
        if let Some(u) = pick_stream_url_from_sdk_pull_data(x) {
            return Some(u);
        }
    }
    if let Some(x) = get(lr, "hevcStreamData") {
        if let Some(u) = pick_stream_url_from_sdk_pull_data(x) {
            return Some(u);
        }
    }
    pick_stream_url_from_room_payload(lr)
}

pub open spec fn status_view(s: LiveStatus) -> (Seq<char>, Option<Seq<char>>, Option<int>) {
    (s.room_id@, opt_seq(s.stream_url), opt_i64_int(s.viewer_count))
}

pub open spec fn opt_status_view(o: Option<LiveStatus>) -> Option<(Seq<char>, Option<Seq<char>>, Option<int>)> {
    match o {
        Some(s) => Some(status_view(s)),
        None => None,
    }
}

pub open spec fn status_result_view(r: Result<Option<LiveStatus>, String>) -> Result<
    Option<(Seq<char>, Option<Seq<char>>, Option<int>)>,
    Seq<char>,
> {
    match r {
        Ok(o) => Ok(opt_status_view(o)),
        Err(e) => Err(e@),
    }
}

/// The room id a user-room API payload names: the first string among
/// `user.roomId`, `user.room_id`, `liveRoom.roomId`, `liveRoom.room_id`,
/// trimmed and non-empty, else `liveRoom.id` in decimal.
pub open spec fn user_room_id(user: JsonView, live_room: JsonView) -> Option<Seq<char>> {
    let s = or_else(
        jstr(jindex_or_null(jget(user, "roomId"@))),
        or_else(
            jstr(jindex_or_null(jget(user, "room_id"@))),
            or_else(
                jstr(jindex_or_null(jget(live_room, "roomId"@))),
                jstr(jindex_or_null(jget(live_room, "room_id"@))),
            ),
        ),
    );
    let first = match s {
        Some(t) => if trim(t).len() > 0 {
            Some(trim(t))
        } else {
            None
        },
        None => None,
    };
    match first {
        Some(t) => Some(t),
        None => match oint_loose(jget(live_room, "id"@)) {
            Some(i) => Some(dec_int(i)),
            None => None,
        },
    }
}

pub open spec fn jindex_or_null(v: Option<JsonView>) -> JsonView {
    match v {
        Some(x) => x,
        None => JsonView::Null,
    }
}

/// What `live_status_from_user_room_api_text` returns.
pub open spec fn user_room_api_spec(text: Seq<char>) -> Result<Option<(Seq<char>, Option<Seq<char>>, Option<int>)>, Seq<char>> {
    match json_parse(text) {
        None => Err("api-live user room JSON parse failed: "@ + crate::json::json_parse_error(text)),
        Some(v) => if ostr(jget(v, "message"@)) == Some("user_not_found"@) {
            Ok(None)
        } else {
            match jget(v, "data"@) {
                None => Err("api-live user room response missing data"@),
                Some(data) => {
                    let user = jindex_or_null(jget(data, "user"@));
                    let lr = jindex_or_null(jget(data, "liveRoom"@));
                    match or_else(oint_loose(jget(lr, "status"@)), oint_loose(jget(user, "status"@))) {
                        None => Err("api-live user room response did not contain a live status"@),
                        Some(status) => if status != 2 {
                            Ok(None)
                        } else {
                            match user_room_id(user, lr) {
                                None => Err("api-live user room response missing roomId"@),
                                Some(room_id) => Ok(
                                    Some(
                                        (
                                            room_id,
                                            user_room_stream_url(data),
                                            or_else(
                                                oint_loose(oget(jget(lr, "liveRoomStats"@), "userCount"@)),
                                                sdk_viewer_count(jget(lr, "streamData"@)),
                                            ),
                                        ),
                                    ),
                                ),
                            }
                        },
                    }
                },
            }
        },
    }
}

/// `prefix` followed by `rest`, as a new `String`.
pub fn prefixed(prefix: &str, rest: &[char]) -> (r: String)
    ensures
        r@ == prefix@ + rest@,
{
    let p = str_chars(prefix);
    crate::text::concat2(p.as_slice(), rest)
}

fn first_str_of<'a>(vals: &Vec<Option<&'a JsonValue>>) -> (r: Option<&'a str>)
    ensures
        vals@.len() == 4 ==> match r {
            Some(s) => or_else(
                jstr(jindex_or_null(oview(vals@[0]))),
                or_else(
                    jstr(jindex_or_null(oview(vals@[1]))),
                    or_else(jstr(jindex_or_null(oview(vals@[2]))), jstr(jindex_or_null(oview(vals@[3])))),
                ),
            ) == Some(s@),
            None => or_else(
                jstr(jindex_or_null(oview(vals@[0]))),
                or_else(
                    jstr(jindex_or_null(oview(vals@[1]))),
                    or_else(jstr(jindex_or_null(oview(vals@[2]))), jstr(jindex_or_null(oview(vals@[3])))),
                ),
            ) is None,
        },
{
    if vals.len() != 4 {
        return None;
    }
    let mut k: usize = 0;
    while k < 4
        invariant
            k <= 4,
            vals@.len() == 4,
            forall|j: int| 0 <= j < k ==> jstr(jindex_or_null(#[trigger] oview(vals@[j]))) is None,
        decreases 4 - k,
    {
        if let Some(s) = ostr_exec(vals[k]) {
            return Some(s);
        }
        assert(jstr(jindex_or_null(oview(vals@[k as int]))) is None);
        k = k + 1;
    }
    None
}

/// The live status in a user-room API response; `None` when offline or unknown user.
pub fn live_status_from_user_room_api_text(text: &str) -> (r: Result<Option<LiveStatus>, String>)
    ensures
        status_result_view(r) == user_room_api_spec(text@),
{
    let value = match parse_json(str_chars(text).as_slice()) {
        Ok(v) => v,
        Err(e) => return Err(prefixed("api-live user room JSON parse failed: ", str_chars(e.as_str()).as_slice())),
    };
    if let Some(m) = ostr_exec(get(&value, "message")) {
        if crate::text::str_eq(m, "user_not_found") {
            return Ok(None);
        }
    }
    let data = match get(&value, "data") {
        Some(d) => d,
        None => return Err(crate::text::string_of("api-live user room response missing data")),
    };
    let null = JsonValue::Null;
    let user: &JsonValue = match get(data, "user") {
        Some(u) => u,
        None => &null,
    };
    let lr: &JsonValue = match get(data, "liveRoom") {
        Some(l) => l,
        None => &null,
    };
    let status = match oint_loose_exec(get(lr, "status")) {
        Some(s) => s,
        None => match oint_loose_exec(get(user, "status")) {
            Some(s) => s,
            None => return Err(crate::text::string_of("api-live user room response did not contain a live status")),
        },
    };
    if status != 2 {
        return Ok(None);
    }
    let vals: Vec<Option<&JsonValue>> = vec![get(user, "roomId"), get(user, "room_id"), get(lr, "roomId"), get(lr, "room_id")];
    let first: Option<Vec<char>> = match first_str_of(&vals) {
        Some(t) => {
            let tt = crate::text::trim_str(t);
            if tt.len() > 0 {
                Some(tt)
            } else {
                None
            }
        },
        None => None,
    };
    let room_id: String = match first {
        Some(t) => string_from(t.as_slice()),
        None => match oint_loose_exec(get(lr, "id")) {
            Some(i) => string_from(fmt_i64(i).as_slice()),
            None => return Err(crate::text::string_of("api-live user room response missing roomId")),
        },
    };
    let viewer_count = match oint_loose_exec(oget_exec(get(lr, "liveRoomStats"), "userCount")) {
        Some(v) => Some(v),
        None => viewer_count_from_sdk_pull_data(get(lr, "streamData")),
    };
    Ok(Some(LiveStatus { room_id, stream_url: pick_stream_url_from_user_room_payload(data), viewer_count }))
}

/// What `signed_path_from_tikrec_response` returns.
pub open spec fn signed_path_spec(text: Seq<char>) -> Result<Seq<char>, Seq<char>> {
    match json_parse(text) {
        None => Err("signed API JSON parse failed: "@ + crate::json::json_parse_error(text)),
        Some(v) => match trimmed_str(jget(v, "signed_path"@)) {
            Some(p) => Ok(p),
            None => Err("signed API response missing signed_path"@),
        },
    }
}

/// The trimmed `signed_path` of a signing-service response.
pub fn signed_path_from_tikrec_response(text: &str) -> (r: Result<String, String>)
    ensures
        crate::http_transport::result_view(r) == signed_path_spec(text@),
{
    let value = match parse_json(str_chars(text).as_slice()) {
        Ok(v) => v,
        Err(e) => return Err(prefixed("signed API JSON parse failed: ", str_chars(e.as_str()).as_slice())),
    };
    match trimmed_str_exec(get(&value, "signed_path")) {
        Some(p) => Ok(string_from(p.as_slice())),
        None => Err(crate::text::string_of("signed API response missing signed_path")),
    }
}

// ---------------------------------------------------------------------------
// Room payloads assembled from webcast responses
// ---------------------------------------------------------------------------
/// The members other than those named `key`, in order.
pub open spec fn members_without(ms: Seq<(Seq<char>, JsonView)>, key: Seq<char>) -> Seq<(Seq<char>, JsonView)>
    decreases ms.len(),
{
    if ms.len() == 0 {
        Seq::empty()
    } else {
        (if ms[0].0 == key {
            Seq::empty()
        } else {
            seq![ms[0]]
        }) + members_without(ms.drop_first(), key)
    }
}

proof fn lemma_members_view_push(a: Seq<(String, JsonValue)>, x: (String, JsonValue))
    ensures
        jview_members(a.push(x)) == jview_members(a).push((x.0@, jview(x.1))),
{
    lemma_jview_members(a);
    lemma_jview_members(a.push(x));
    assert(jview_members(a.push(x)) =~= jview_members(a).push((x.0@, jview(x.1))));
}

fn without_key(ps: Vec<(String, JsonValue)>, key: &str) -> (r: Vec<(String, JsonValue)>)
    ensures
        jview_members(r@) == members_without(jview_members(ps@), key@),
{
    let ghost orig = jview_members(ps@);
    let mut rest = ps;
    let mut out: Vec<(String, JsonValue)> = Vec::new();
    assert(jview_members(out@) =~= Seq::<(Seq<char>, JsonView)>::empty());
    while rest.len() > 0
        invariant
            jview_members(out@) + members_without(jview_members(rest@), key@) == members_without(orig, key@),
        decreases rest@.len(),
    {
        let ghost before = rest@;
        let item = rest.remove(0);
        assert(rest@ =~= before.drop_first());
        assert(before[0] == item);
        let ghost mv = jview_members(before);
        assert(mv == seq![(before[0].0@, jview(before[0].1))] + jview_members(before.drop_first()));
        assert(mv[0] == (item.0@, jview(item.1)));
        assert(mv.drop_first() =~= jview_members(before.drop_first()));
        let ghost out_before = out@;
        if crate::text::str_eq(item.0.as_str(), key) {
            assert(members_without(mv, key@) == Seq::<(Seq<char>, JsonView)>::empty() + members_without(mv.drop_first(), key@));
            assert(Seq::<(Seq<char>, JsonView)>::empty() + members_without(mv.drop_first(), key@) =~= members_without(mv.drop_first(), key@));
        } else {
            out.push(item);
            proof {
                lemma_members_view_push(out_before, item);
                assert(members_without(mv, key@) == seq![mv[0]] + members_without(mv.drop_first(), key@));
                assert(jview_members(out@) + members_without(jview_members(rest@), key@) =~= jview_members(out_before) + members_without(mv, key@));
            }
        }
    }
    assert(jview_members(rest@) =~= Seq::<(Seq<char>, JsonView)>::empty());
    assert(jview_members(out@) + Seq::<(Seq<char>, JsonView)>::empty() =~= jview_members(out@));
    out
}

/// Moves the member named `key` out of an object.
fn take_member(v: JsonValue, key: &str) -> (r: Option<JsonValue>)
    ensures
        match r {
            Some(x) => jget(jview(v), key@) == Some(jview(x)),
            None => jget(jview(v), key@) is None,
        },
{
    let ghost vv = jview(v);
    let found: Option<usize> = match get_index(&v, key) {
        Some(i) => Some(i),
        None => None,
    };
    match v {
        JsonValue::Object(mut ps) => match found {
            Some(i) => {
                proof {
                    lemma_jview_members(ps@);
                }
                let x = ps.remove(i);
                Some(x.1)
            },
            None => None,
        },
        _ => None,
    }
}

/// Index of the first member named `key`.
fn get_index(v: &JsonValue, key: &str) -> (r: Option<usize>)
    ensures
        match r {
            Some(i) => match jview(*v) {
                JsonView::Object(ms) => i < ms.len() && crate::json::members_get(ms, key@) == Some(ms[i as int].1),
                _ => false,
            },
            None => jget(jview(*v), key@) is None,
        },
{
    match v {
        JsonValue::Object(ps) => {
            let ghost ms = jview_members(ps@);
            proof {
                lemma_jview_members(ps@);
            }
            let mut i: usize = 0;
            assert(ms.subrange(0, ms.len() as int) =~= ms);
            while i < ps.len()
                invariant
                    i <= ps@.len(),
                    ms == jview_members(ps@),
                    jview(*v) == JsonView::Object(ms),
                    ms.len() == ps@.len(),
                    forall|j: int| 0 <= j < ps@.len() ==> #[trigger] ms[j] == (ps@[j].0@, jview(ps@[j].1)),
                    crate::json::members_get(ms, key@) == crate::json::members_get(ms.subrange(i as int, ms.len() as int), key@),
                decreases ps@.len() - i,
            {
                assert(ms.subrange(i as int, ms.len() as int).drop_first() =~= ms.subrange(i + 1, ms.len() as int));
                assert(ms.subrange(i as int, ms.len() as int)[0] == ms[i as int]);
                if crate::text::str_eq(ps[i].0.as_str(), key) {
                    return Some(i);
                }
                i = i + 1;
            }
            None
        },
        _ => None,
    }
}

/// The object behind `data.room`, else `data`, else no members.
pub open spec fn room_info_members(text: Seq<char>) -> Seq<(Seq<char>, JsonView)> {
    match json_parse(text) {
        None => Seq::empty(),
        Some(v) => match jget(v, "data"@) {
            None => Seq::empty(),
            Some(d) => match jmembers(d) {
                None => Seq::empty(),
                Some(dms) => match jget(d, "room"@) {
                    Some(room) => match jmembers(room) {
                        Some(rms) => rms,
                        None => dms,
                    },
                    None => dms,
                },
            },
        },
    }
}

/// The room payload of a room-info response, with `room_id` set to the given id.
pub open spec fn room_info_payload(text: Seq<char>, room_id: Seq<char>) -> JsonView {
    JsonView::Object(
        members_without(room_info_members(text), "room_id"@).push(("room_id"@, JsonView::Str(room_id))),
    )
}

/// The members of an object, moved out; no members for anything else.
fn into_members(v: JsonValue) -> (r: Vec<(String, JsonValue)>)
    ensures
        jview_members(r@) == match jmembers(jview(v)) {
            Some(ms) => ms,
            None => Seq::empty(),
        },
{
    match v {
        JsonValue::Object(ps) => ps,
        _ => {
            let e: Vec<(String, JsonValue)> = Vec::new();
            assert(jview_members(e@) =~= Seq::<(Seq<char>, JsonView)>::empty());
            e
        },
    }
}

pub fn room_payload_from_room_info_text(text: &str, room_id: &str) -> (r: JsonValue)
    ensures
        jview(r) == room_info_payload(text@, room_id@),
{
    let base: Vec<(String, JsonValue)> = match parse_json(str_chars(text).as_slice()) {
        Err(_) => {
            let e: Vec<(String, JsonValue)> = Vec::new();
            assert(jview_members(e@) =~= Seq::<(Seq<char>, JsonView)>::empty());
            e
        },
        Ok(v) => match take_member(v, "data") {
            None => {
                let e: Vec<(String, JsonValue)> = Vec::new();
                assert(jview_members(e@) =~= Seq::<(Seq<char>, JsonView)>::empty());
                e
            },
            Some(d) => {
                let room_is_object = match get(&d, "room") {
                    Some(room) => as_object(room).is_some(),
                    None => false,
                };
                if room_is_object {
                    let ghost dv = jview(d);
                    let room = take_member(d, "room");
                    match room {
                        Some(rv) => into_members(rv),
                        None => {
                            let e: Vec<(String, JsonValue)> = Vec::new();
                            e
                        },
                    }
                } else {
                    into_members(d)
                }
            },
        },
    };
    let mut ms = without_key(base, "room_id");
    let ghost before = ms@;
    let item = (crate::text::string_of("room_id"), JsonValue::Str(crate::text::string_of(room_id)));
    let ghost gi = item;
    ms.push(item);
    proof {
        lemma_members_view_push(before, gi);
    }
    JsonValue::Object(ms)
}

/// The payload used when room info is unavailable: status 2 (live) or 4, and the room id.
pub open spec fn fallback_payload(room_id: Seq<char>, is_live: bool) -> JsonView {
    JsonView::Object(
        seq![
            (
                "LiveRoomInfo"@,
                JsonView::Object(
                    seq![
                        (
                            "status"@,
                            if is_live {
                                JsonView::Number(Some(2), "2"@)
                            } else {
                                JsonView::Number(Some(4), "4"@)
                            },
                        ),
                    ],
                ),
            ),
            ("room_id"@, JsonView::Str(room_id)),
        ],
    )
}

pub fn fallback_room_payload(room_id: &str, is_live: bool) -> (r: JsonValue)
    ensures
        jview(r) == fallback_payload(room_id@, is_live),
{
    let status = if is_live {
        crate::json::JsonNumber { int_value: Some(2), text: crate::text::string_of("2") }
    } else {
        crate::json::JsonNumber { int_value: Some(4), text: crate::text::string_of("4") }
    };
    let info: Vec<(String, JsonValue)> = vec![(crate::text::string_of("status"), JsonValue::Number(status))];
    let ms: Vec<(String, JsonValue)> = vec![
        (crate::text::string_of("LiveRoomInfo"), JsonValue::Object(info)),
        (crate::text::string_of("room_id"), JsonValue::Str(crate::text::string_of(room_id))),
    ];
    proof {
        lemma_jview_members(info@);
        lemma_jview_members(ms@);
        assert(jview_members(info@) =~= seq![("status"@, jview(info@[0].1))]);
        assert(jview_members(ms@) =~= seq![("LiveRoomInfo"@, jview(ms@[0].1)), ("room_id"@, JsonView::Str(room_id@))]);
    }
    JsonValue::Object(ms)
}

// ---------------------------------------------------------------------------
// Live page fallback
// ---------------------------------------------------------------------------
/// Whether a check-alive response reports the room alive (`data[0].alive == 1`).
pub open spec fn check_alive_flag(text: Seq<char>) -> bool {
    match json_parse(text) {
        None => false,
        Some(v) => match jget(v, "data"@) {
            None => false,
            Some(d) => match jitems(d) {
                None => false,
                Some(rows) => rows.len() > 0 && oint_loose(jget(rows[0], "alive"@)) == Some(1int),
            },
        },
    }
}

pub fn check_alive_is_live(text: &str) -> (r: bool)
    ensures
        r == check_alive_flag(text@),
{
    let v = match parse_json(str_chars(text).as_slice()) {
        Ok(v) => v,
        Err(_) => return false,
    };
    let d = match get(&v, "data") {
        Some(d) => d,
        None => return false,
    };
    let rows = match as_array(d) {
        Some(rows) => rows,
        None => return false,
    };
    proof {
        lemma_jview_items(rows@);
    }
    if rows.len() == 0 {
        return false;
    }
    match oint_loose_exec(get(&rows[0], "alive")) {
        Some(a) => a == 1,
        None => false,
    }
}

/// The live status that the live-page fallback reports for a room, from the
/// room-info body (present only for a 2xx response) and the check-alive body
/// (present only for a 2xx response).
pub open spec fn live_html_status(room_id: Seq<char>, room_info: Option<Seq<char>>, check_alive: Option<Seq<char>>) -> Option<(Seq<char>, Option<Seq<char>>, Option<int>)> {
    let alive = match check_alive {
        Some(t) => check_alive_flag(t),
        None => false,
    };
    let payload = match room_info {
        Some(t) => room_info_payload(t, room_id),
        None => fallback_payload(room_id, alive),
    };
    if !(room_is_live(payload) || alive) {
        None
    } else {
        Some(
            (
                match room_id_of(payload) {
                    Some(r) => r,
                    None => room_id,
                },
                if room_is_live(payload) {
                    room_stream_url(payload)
                } else {
                    None
                },
                if room_is_live(payload) {
                    room_viewer_count(payload)
                } else {
                    None
                },
            ),
        )
    }
}

pub fn live_status_from_live_html_checks(room_id: &str, room_info_text: Option<&str>, check_alive_text: Option<&str>) -> (r: Option<LiveStatus>)
    ensures
        opt_status_view(r) == live_html_status(room_id@, opt_str_seq(room_info_text), opt_str_seq(check_alive_text)),
{
    let alive = match check_alive_text {
        Some(t) => check_alive_is_live(t),
        None => false,
    };
    let payload = match room_info_text {
        Some(t) => room_payload_from_room_info_text(t, room_id),
        None => fallback_room_payload(room_id, alive),
    };
    let merged = merge_live_status_from_room_payload(&payload);
    if !(merged.is_live || alive) {
        return None;
    }
    Some(LiveStatus {
        room_id: match merged.room_id {
            Some(r) => r,
            None => crate::text::string_of(room_id),
        },
        stream_url: merged.stream_url,
        viewer_count: merged.viewer_count,
    })
}

/// The error reported when the live page holds no room id.
pub open spec fn missing_room_id_error(api_error: Option<Seq<char>>) -> Seq<char> {
    match api_error {
        None => "could not resolve TikTok room id from live HTML"@,
        Some(e) => "could not resolve TikTok room id from api-live or live HTML; api-live error: "@ + e,
    }
}

pub fn live_html_missing_room_id_error(api_error: Option<&str>) -> (r: String)
    ensures
        r@ == missing_room_id_error(opt_str_seq(api_error)),
{
    match api_error {
        None => crate::text::string_of("could not resolve TikTok room id from live HTML"),
        Some(e) => prefixed("could not resolve TikTok room id from api-live or live HTML; api-live error: ", str_chars(e).as_slice()),
    }
}

/// A quality map gives the URL of the best quality it offers, in the fixed
/// order FULL_HD1, HD1, SD1, SD2: a non-empty URL of a quality is picked
/// whenever no better quality has one.
pub proof fn law_quality_map_picks_best_offered(ms: Seq<(Seq<char>, JsonView)>, u: Seq<char>)
    requires
        u.len() > 0,
    ensures
        crate::json::members_get(ms, "FULL_HD1"@) == Some(JsonView::Str(u))
            ==> url_from_quality_map(Some(JsonView::Object(ms))) == Some(u),
        nonempty_str(crate::json::members_get(ms, "FULL_HD1"@)) is None
            && crate::json::members_get(ms, "HD1"@) == Some(JsonView::Str(u))
            ==> url_from_quality_map(Some(JsonView::Object(ms))) == Some(u),
        nonempty_str(crate::json::members_get(ms, "FULL_HD1"@)) is None
            && nonempty_str(crate::json::members_get(ms, "HD1"@)) is None
            && crate::json::members_get(ms, "SD1"@) == Some(JsonView::Str(u))
            ==> url_from_quality_map(Some(JsonView::Object(ms))) == Some(u),
        nonempty_str(crate::json::members_get(ms, "FULL_HD1"@)) is None
            && nonempty_str(crate::json::members_get(ms, "HD1"@)) is None
            && nonempty_str(crate::json::members_get(ms, "SD1"@)) is None
            && crate::json::members_get(ms, "SD2"@) == Some(JsonView::Str(u))
            ==> url_from_quality_map(Some(JsonView::Object(ms))) == Some(u),
{
    let q = stream_quality_order();
    assert(q[0] == "FULL_HD1"@ && q[1] == "HD1"@ && q[2] == "SD1"@ && q[3] == "SD2"@);
    assert(quality_url_from(ms, 4) is None);
    reveal_with_fuel(quality_url_from, 5);
}

proof fn lemma_members_get_append(a: Seq<(Seq<char>, JsonView)>, b: Seq<(Seq<char>, JsonView)>, k: Seq<char>)
    ensures
        crate::json::members_get(a + b, k) == match crate::json::members_get(a, k) {
            Some(x) => Some(x),
            None => crate::json::members_get(b, k),
        },
    decreases a.len(),
{
    if a.len() > 0 {
        assert((a + b).drop_first() =~= a.drop_first() + b);
        lemma_members_get_append(a.drop_first(), b, k);
    } else {
        assert(a + b =~= b);
    }
}

proof fn lemma_members_get_without(ms: Seq<(Seq<char>, JsonView)>, x: Seq<char>, k: Seq<char>)
    ensures
        crate::json::members_get(members_without(ms, x), k) == if k == x {
            None
        } else {
            crate::json::members_get(ms, k)
        },
    decreases ms.len(),
{
    if ms.len() > 0 {
        lemma_members_get_without(ms.drop_first(), x, k);
        let rest = members_without(ms.drop_first(), x);
        let head: Seq<(Seq<char>, JsonView)> = if ms[0].0 == x { Seq::empty() } else { seq![ms[0]] };
        assert(members_without(ms, x) == head + rest);
        lemma_members_get_append(head, rest, k);
        if ms[0].0 != x {
            assert(seq![ms[0]].drop_first() =~= Seq::<(Seq<char>, JsonView)>::empty());
            assert(crate::json::members_get(Seq::<(Seq<char>, JsonView)>::empty(), k) is None);
            assert(crate::json::members_get(head, k) == if ms[0].0 == k {
                Some(ms[0].1)
            } else {
                crate::json::members_get(head.drop_first(), k)
            });
        } else {
            assert(head + rest =~= rest);
        }
    }
}

/// The room payload of a room-info answer whose `data.room` is an object is
/// that room: every member but `room_id` is the room's own, and `room_id` is
/// the id the page gave.
pub proof fn law_room_info_payload_is_the_room(
    text: Seq<char>,
    room_id: Seq<char>,
    v: JsonView,
    d: JsonView,
    rms: Seq<(Seq<char>, JsonView)>,
    k: Seq<char>,
)
    requires
        json_parse(text) == Some(v),
        jget(v, "data"@) == Some(d),
        jget(d, "room"@) == Some(JsonView::Object(rms)),
    ensures
        k != "room_id"@ ==> jget(room_info_payload(text, room_id), k) == crate::json::members_get(rms, k),
        jget(room_info_payload(text, room_id), "room_id"@) == Some(JsonView::Str(room_id)),
{
    assert(room_info_members(text) == rms);
    let w = members_without(rms, "room_id"@);
    assert(room_info_payload(text, room_id) == JsonView::Object(w.push(("room_id"@, JsonView::Str(room_id)))));
    let p = ("room_id"@, JsonView::Str(room_id));
    assert(w.push(p) =~= w + seq![p]);
    lemma_members_get_append(w, seq![p], k);
    lemma_members_get_without(rms, "room_id"@, k);
    lemma_members_get_append(w, seq![p], "room_id"@);
    lemma_members_get_without(rms, "room_id"@, "room_id"@);
    assert(seq![p].drop_first() =~= Seq::<(Seq<char>, JsonView)>::empty());
    assert(crate::json::members_get(seq![p], k) == if p.0 == k {
        Some(p.1)
    } else {
        crate::json::members_get(seq![p].drop_first(), k)
    });
    assert(crate::json::members_get(Seq::<(Seq<char>, JsonView)>::empty(), k) is None);
}

} // verus!
