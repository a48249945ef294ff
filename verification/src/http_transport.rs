//! Request preparation for TikTok: the cookie header from a JSON cookie map,
//! proxy URL validation and the HTTP status check.
use vstd::prelude::*;
use crate::json::{
    as_str, get, jget, jstr, jview, jview_members, lemma_jview_members, parse_json, json_parse,
    json_parse_error, JsonValue, JsonView,
};
use crate::session::{opt_seq, opt_str_seq};
use crate::text::{
    append_chars, append_str, chars_eq_str, dec_nat, fmt_u64, join, starts_with, starts_with_str,
    str_chars, string_from, string_of, trim, trim_str,
};

verus! {

/// `name=value` for one cookie.
pub open spec fn cookie_pair(name: Seq<char>, value: Seq<char>) -> Seq<char> {
    name + "="@ + value
}

/// The `name=value` pairs of the string-valued members, in member order,
/// leaving out `sessionid` when it is not a usable session id.
pub open spec fn cookie_pairs(ms: Seq<(Seq<char>, JsonView)>, has_sessionid: bool) -> Seq<Seq<char>>
    decreases ms.len(),
{
    if ms.len() == 0 {
        Seq::empty()
    } else {
        let prev = cookie_pairs(ms.drop_last(), has_sessionid);
        let (k, v) = ms.last();
        match jstr(v) {
            Some(s) => if k == "sessionid"@ && !has_sessionid {
                prev
            } else {
                prev.push(cookie_pair(k, s))
            },
            None => prev,
        }
    }
}

/// A member whose value is a non-empty string.
pub open spec fn nonempty_str_member(v: JsonView, key: Seq<char>) -> Option<Seq<char>> {
    match jget(v, key) {
        Some(x) => match jstr(x) {
            Some(s) => if s.len() > 0 {
                Some(s)
            } else {
                None
            },
            None => None,
        },
        None => None,
    }
}

/// The cookie header for a parsed cookie object: the pairs joined by `"; "`,
/// with `sessionid` taken from `sessionid_ss` when the former is missing.
pub open spec fn cookie_header_spec(v: JsonView) -> Seq<char> {
    let has_sessionid = nonempty_str_member(v, "sessionid"@) is Some;
    let ms = match v {
        JsonView::Object(ms) => ms,
        _ => Seq::empty(),
    };
    let pairs = cookie_pairs(ms, has_sessionid);
    let all = if !has_sessionid && nonempty_str_member(v, "sessionid_ss"@) is Some {
        pairs.push(cookie_pair("sessionid"@, nonempty_str_member(v, "sessionid_ss"@)->0))
    } else {
        pairs
    };
    join(all, "; "@)
}

/// What `normalize_cookie_header` returns for a cookie JSON text.
pub open spec fn normalize_cookie_header_spec(raw: Seq<char>) -> Result<Seq<char>, Seq<char>> {
    if trim(raw).len() == 0 {
        Ok(Seq::empty())
    } else {
        match json_parse(raw) {
            None => Err(json_parse_error(raw)),
            Some(v) => match v {
                JsonView::Object(_) => Ok(cookie_header_spec(v)),
                _ => Err("cookies_json must be a JSON object"@),
            },
        }
    }
}

pub open spec fn result_view(r: Result<String, String>) -> Result<Seq<char>, Seq<char>> {
    match r {
        Ok(s) => Ok(s@),
        Err(e) => Err(e@),
    }
}

fn nonempty_str_member_exec<'a>(v: &'a JsonValue, key: &str) -> (r: Option<&'a str>)
    ensures
        opt_str_seq(r) == nonempty_str_member(jview(*v), key@),
{
    match get(v, key) {
        Some(x) => match as_str(x) {
            Some(s) => if str_chars(s).len() > 0 {
                Some(s)
            } else {
                None
            },
            None => None,
        },
        None => None,
    }
}

/// Joins `parts` with `sep` into one `String`.
pub fn join_strings(parts: &Vec<Vec<char>>, sep: &str) -> (r: String)
    ensures
        r@ == join(parts@.map_values(|w: Vec<char>| w@), sep@),
{
    let sc = str_chars(sep);
    let j = crate::text::join_parts(parts.as_slice(), sc.as_slice());
    string_from(j.as_slice())
}

fn cookie_pair_exec(name: &str, value: &str) -> (r: Vec<char>)
    ensures
        r@ == cookie_pair(name@, value@),
{
    let mut out: Vec<char> = Vec::new();
    append_str(&mut out, name);
    append_str(&mut out, "=");
    append_str(&mut out, value);
    assert(out@ =~= cookie_pair(name@, value@));
    out
}

/// The cookie header for a JSON cookie map (`{"name": "value", ...}`).
pub fn normalize_cookie_header(raw: &str) -> (r: Result<String, String>)
    ensures
        result_view(r) == normalize_cookie_header_spec(raw@),
{
    let trimmed = trim_str(raw);
    if trimmed.len() == 0 {
        return Ok(String::new());
    }
    let rc = str_chars(raw);
    let value = match parse_json(rc.as_slice()) {
        Ok(v) => v,
        Err(e) => return Err(e),
    };
    let members: &Vec<(String, JsonValue)> = match &value {
        JsonValue::Object(ms) => ms,
        _ => return Err(string_of("cookies_json must be a JSON object")),
    };
    let ghost v = jview(value);
    let ghost ms = jview_members(members@);
    proof {
        lemma_jview_members(members@);
    }
    let sid = nonempty_str_member_exec(&value, "sessionid");
    let has_sessionid = sid.is_some();
    let mut pairs: Vec<Vec<char>> = Vec::new();
    let mut i: usize = 0;
    while i < members.len()
        invariant
            i <= members@.len(),
            ms == jview_members(members@),
            ms.len() == members@.len(),
            forall|j: int| 0 <= j < members@.len() ==> #[trigger] ms[j] == (members@[j].0@, jview(members@[j].1)),
            pairs@.map_values(|w: Vec<char>| w@) == cookie_pairs(ms.take(i as int), has_sessionid),
        decreases members@.len() - i,
    {
        assert(ms.take(i + 1).drop_last() =~= ms.take(i as int));
        assert(ms.take(i + 1).last() == ms[i as int]);
        let key: &String = &members[i].0;
        let ghost prev = pairs@.map_values(|w: Vec<char>| w@);
        match as_str(&members[i].1) {
            Some(s) => {
                let is_sid = chars_eq_str(str_chars(key.as_str()).as_slice(), "sessionid");
                if is_sid && !has_sessionid {
                } else {
                    let p = cookie_pair_exec(key.as_str(), s);
                    pairs.push(p);
                    assert(pairs@.map_values(|w: Vec<char>| w@) =~= prev.push(cookie_pair(key@, s@)));
                }
            },
            None => {},
        }
        i = i + 1;
    }
    assert(ms.take(ms.len() as int) =~= ms);
    if !has_sessionid {
        if let Some(ss) = nonempty_str_member_exec(&value, "sessionid_ss") {
            let ghost prev = pairs@.map_values(|w: Vec<char>| w@);
            let p = cookie_pair_exec("sessionid", ss);
            pairs.push(p);
            assert(pairs@.map_values(|w: Vec<char>| w@) =~= prev.push(cookie_pair("sessionid"@, ss@)));
        }
    }
    Ok(join_strings(&pairs, "; "))
}

/// The proxy URL accepted by `reqwest::Proxy::all`, a function of the text alone.
pub uninterp spec fn reqwest_proxy_accepts(url: Seq<char>) -> bool;

/// The message `reqwest::Proxy::all` reports when it refuses a proxy URL.
pub uninterp spec fn reqwest_proxy_error(url: Seq<char>) -> Seq<char>;

/// `reqwest::Proxy::all`: parses the proxy URL; only whether it succeeds, and
/// the error text, are passed on.
#[verifier::external_body]
fn reqwest_proxy_check(url: &[char]) -> (r: Result<(), String>)
    ensures
        r is Ok <==> reqwest_proxy_accepts(url@),
        r matches Err(e) ==> e@ == reqwest_proxy_error(url@),
{
    let s: String = url.iter().collect();
    reqwest::Proxy::all(s.as_str()).map(|_| ()).map_err(|e| e.to_string())
}

/// What `proxy_url_for_reqwest` returns.
pub open spec fn proxy_url_spec(raw: Option<Seq<char>>) -> Result<Option<Seq<char>>, Seq<char>> {
    let t = trim(
        match raw {
            Some(s) => s,
            None => Seq::empty(),
        },
    );
    if t.len() == 0 {
        Ok(None)
    } else if !(starts_with(t, "http://"@) || starts_with(t, "https://"@)) {
        Err("proxy_url must start with http:// or https://"@)
    } else if !reqwest_proxy_accepts(t) {
        Err(reqwest_proxy_error(t))
    } else {
        Ok(Some(t))
    }
}

pub open spec fn opt_result_view(r: Result<Option<String>, String>) -> Result<Option<Seq<char>>, Seq<char>> {
    match r {
        Ok(o) => Ok(opt_seq(o)),
        Err(e) => Err(e@),
    }
}

/// The trimmed proxy URL, `None` when blank; only `http://` and `https://` proxies are accepted.
pub fn proxy_url_for_reqwest(raw: Option<&str>) -> (r: Result<Option<String>, String>)
    ensures
        opt_result_view(r) == proxy_url_spec(opt_str_seq(raw)),
{
    let trimmed = match raw {
        Some(s) => trim_str(s),
        None => {
            let e: Vec<char> = Vec::new();
            assert(trim(Seq::<char>::empty()) =~= Seq::<char>::empty());
            assert(e@ =~= trim(Seq::<char>::empty()));
            e
        },
    };
    if trimmed.len() == 0 {
        return Ok(None);
    }
    if !(starts_with_str(trimmed.as_slice(), "http://") || starts_with_str(trimmed.as_slice(), "https://")) {
        return Err(string_of("proxy_url must start with http:// or https://"));
    }
    match reqwest_proxy_check(trimmed.as_slice()) {
        Ok(()) => Ok(Some(string_from(trimmed.as_slice()))),
        Err(e) => Err(e),
    }
}

/// An HTTP response outside the 2xx range.
#[derive(Debug, PartialEq, Eq)]
pub struct TikTokHttpStatusError {
    pub status_code: u16,
    pub url: String,
    pub text: String,
}

impl TikTokHttpStatusError {
    /// `HTTP {status_code} {url}`.
    pub fn to_string(&self) -> (r: String)
        ensures
            r@ == "HTTP "@ + dec_nat(self.status_code as nat) + " "@ + self.url@,
    {
        let mut out: Vec<char> = Vec::new();
        append_str(&mut out, "HTTP ");
        let code = fmt_u64(self.status_code as u64);
        append_chars(&mut out, code.as_slice());
        append_str(&mut out, " ");
        append_str(&mut out, self.url.as_str());
        string_from(out.as_slice())
    }
}

/// `Ok` for a 2xx status; otherwise the status, URL and body as an error.
pub fn ensure_success_status(status_code: u16, url: &str, text: &str) -> (r: Result<(), TikTokHttpStatusError>)
    ensures
        r is Ok <==> 200 <= status_code < 300,
        r matches Err(e) ==> e.status_code == status_code && e.url@ == url@ && e.text@ == text@,
{
    if 200 <= status_code && status_code < 300 {
        return Ok(());
    }
    Err(TikTokHttpStatusError { status_code, url: string_of(url), text: string_of(text) })
}


// ---------------------------------------------------------------------------
// Cookie key summary
// ---------------------------------------------------------------------------
/// The order of `String`: by code points, a proper prefix first.
pub open spec fn str_lt(a: Seq<char>, b: Seq<char>) -> bool
    decreases a.len(),
{
    if a.len() == 0 {
        b.len() > 0
    } else if b.len() == 0 {
        false
    } else if a[0] != b[0] {
        a[0] < b[0]
    } else {
        str_lt(a.drop_first(), b.drop_first())
    }
}

proof fn lemma_str_lt_irreflexive(a: Seq<char>)
    ensures
        !str_lt(a, a),
    decreases a.len(),
{
    if a.len() > 0 {
        lemma_str_lt_irreflexive(a.drop_first());
    }
}

proof fn lemma_str_lt_total(a: Seq<char>, b: Seq<char>)
    ensures
        a != b ==> str_lt(a, b) || str_lt(b, a),
        !(str_lt(a, b) && str_lt(b, a)),
    decreases a.len(),
{
    if a.len() > 0 && b.len() > 0 && a[0] == b[0] {
        lemma_str_lt_total(a.drop_first(), b.drop_first());
        if a.drop_first() == b.drop_first() {
            assert(a =~= seq![a[0]] + a.drop_first());
            assert(b =~= seq![b[0]] + b.drop_first());
        }
    } else if a.len() == 0 && b.len() == 0 {
        assert(a =~= b);
    } else if a.len() > 0 && b.len() > 0 {
        let x = a[0];
        let y = b[0];
        assert(x != y);
    }
}

proof fn lemma_str_lt_transitive(a: Seq<char>, b: Seq<char>, c: Seq<char>)
    requires
        str_lt(a, b),
        str_lt(b, c),
    ensures
        str_lt(a, c),
    decreases a.len(),
{
    if a.len() > 0 && b.len() > 0 && c.len() > 0 && a[0] == b[0] && b[0] == c[0] {
        lemma_str_lt_transitive(a.drop_first(), b.drop_first(), c.drop_first());
    }
}

/// Every entry comes before the ones after it.
pub open spec fn strictly_sorted(ks: Seq<Seq<char>>) -> bool {
    forall|i: int, j: int| 0 <= i < j < ks.len() ==> str_lt(#[trigger] ks[i], #[trigger] ks[j])
}

/// `ks` holds exactly the members of `keys`.
pub open spec fn lists(ks: Seq<Seq<char>>, keys: Set<Seq<char>>) -> bool {
    forall|s: Seq<char>| #[trigger] ks.contains(s) <==> keys.contains(s)
}

/// Two sorted listings of one set are the same sequence.
pub proof fn law_sorted_listing_unique(a: Seq<Seq<char>>, b: Seq<Seq<char>>, keys: Set<Seq<char>>)
    requires
        strictly_sorted(a),
        strictly_sorted(b),
        lists(a, keys),
        lists(b, keys),
    ensures
        a == b,
    decreases a.len(),
{
    if a.len() == 0 {
        if b.len() > 0 {
            assert(b.contains(b[0]));
            assert(!a.contains(b[0]));
        }
        assert(a =~= b);
    } else {
        assert(a.contains(a[0]));
        assert(b.contains(a[0]));
        let j = choose|j: int| 0 <= j < b.len() && b[j] == a[0];
        assert(b.contains(b[0]));
        assert(a.contains(b[0]));
        let i = choose|i: int| 0 <= i < a.len() && a[i] == b[0];
        if i > 0 && j > 0 {
            assert(str_lt(a[0], a[i]));
            assert(str_lt(b[0], b[j]));
            lemma_str_lt_total(a[0], b[0]);
        }
        assert(a[0] == b[0]) by {
            if i == 0 {
            } else if j == 0 {
            }
        }
        let k0 = a[0];
        let rest = keys.remove(k0);
        let ad = a.drop_first();
        let bd = b.drop_first();
        assert forall|s: Seq<char>| #[trigger] ad.contains(s) <==> rest.contains(s) by {
            if ad.contains(s) {
                let m = choose|m: int| 0 <= m < ad.len() && ad[m] == s;
                assert(a[m + 1] == s);
                assert(a.contains(s));
                assert(str_lt(a[0], a[m + 1]));
                lemma_str_lt_irreflexive(s);
            }
            if rest.contains(s) {
                assert(a.contains(s));
                let m = choose|m: int| 0 <= m < a.len() && a[m] == s;
                assert(m != 0);
                assert(ad[m - 1] == s);
            }
        }
        assert forall|s: Seq<char>| #[trigger] bd.contains(s) <==> rest.contains(s) by {
            if bd.contains(s) {
                let m = choose|m: int| 0 <= m < bd.len() && bd[m] == s;
                assert(b[m + 1] == s);
                assert(b.contains(s));
                assert(str_lt(b[0], b[m + 1]));
                lemma_str_lt_irreflexive(s);
            }
            if rest.contains(s) {
                assert(b.contains(s));
                let m = choose|m: int| 0 <= m < b.len() && b[m] == s;
                assert(m != 0);
                assert(bd[m - 1] == s);
            }
        }
        assert forall|x: int, y: int| 0 <= x < y < ad.len() implies str_lt(#[trigger] ad[x], #[trigger] ad[y]) by {
            assert(ad[x] == a[x + 1] && ad[y] == a[y + 1]);
        }
        assert forall|x: int, y: int| 0 <= x < y < bd.len() implies str_lt(#[trigger] bd[x], #[trigger] bd[y]) by {
            assert(bd[x] == b[x + 1] && bd[y] == b[y + 1]);
        }
        law_sorted_listing_unique(ad, bd, rest);
        assert(a =~= seq![k0] + ad);
        assert(b =~= seq![k0] + bd);
    }
}

/// The names of an object's members.
pub open spec fn object_keys(v: JsonView) -> Set<Seq<char>> {
    match v {
        JsonView::Object(ms) => Set::new(|k: Seq<char>| exists|i: int| 0 <= i < ms.len() && ms[i].0 == k),
        _ => Set::empty(),
    }
}

/// The cookie names a summary lists: the members, and `sessionid` when it is
/// derived from `sessionid_ss`.
pub open spec fn summary_keys(v: JsonView) -> Set<Seq<char>> {
    if nonempty_str_member(v, "sessionid"@) is None && nonempty_str_member(v, "sessionid_ss"@) is Some {
        object_keys(v).insert("sessionid"@)
    } else {
        object_keys(v)
    }
}

/// The error `cookie_key_summary` reports for a cookie JSON text, if any.
pub open spec fn summary_error(raw: Seq<char>) -> Option<Seq<char>> {
    if trim(raw).len() == 0 {
        None
    } else {
        match json_parse(raw) {
            None => Some(json_parse_error(raw)),
            Some(JsonView::Object(_)) => None,
            Some(_) => Some("cookies_json must be a JSON object"@),
        }
    }
}

/// The summary text for a cookie JSON text that has no error: `no cookies`,
/// or the cookie names in order, joined by commas.
pub open spec fn is_summary(raw: Seq<char>, t: Seq<char>) -> bool {
    if trim(raw).len() == 0 {
        t == "no cookies"@
    } else {
        match json_parse(raw) {
            Some(JsonView::Object(ms)) => if ms.len() == 0 {
                t == "no cookies"@
            } else {
                exists|ks: Seq<Seq<char>>|
                    strictly_sorted(ks) && lists(ks, summary_keys(JsonView::Object(ms))) && t == join(ks, ","@)
            },
            _ => false,
        }
    }
}

fn str_lt_exec(a: &[char], b: &[char]) -> (r: bool)
    ensures
        r == str_lt(a@, b@),
{
    let na = a.len();
    let nb = b.len();
    let mut i: usize = 0;
    proof {
        assert(a@.skip(0) =~= a@);
        assert(b@.skip(0) =~= b@);
    }
    while i < na && i < nb && a[i] == b[i]
        invariant
            na == a@.len(),
            nb == b@.len(),
            i <= na,
            i <= nb,
            str_lt(a@, b@) == str_lt(a@.skip(i as int), b@.skip(i as int)),
        decreases na - i,
    {
        proof {
            assert(a@.skip(i as int).drop_first() =~= a@.skip(i + 1));
            assert(b@.skip(i as int).drop_first() =~= b@.skip(i + 1));
        }
        i = i + 1;
    }
    if i == na {
        i < nb
    } else if i == nb {
        false
    } else {
        a[i] < b[i]
    }
}

pub open spec fn keys_view(v: Seq<Vec<char>>) -> Seq<Seq<char>> {
    v.map_values(|w: Vec<char>| w@)
}

/// Adds `k` to a sorted listing, unless it is there already.
fn insert_key(keys: &mut Vec<Vec<char>>, k: Vec<char>)
    requires
        strictly_sorted(keys_view(old(keys)@)),
    ensures
        strictly_sorted(keys_view(final(keys)@)),
        forall|s: Seq<char>| #[trigger] keys_view(final(keys)@).contains(s) <==> (keys_view(old(keys)@).contains(s) || s == k@),
{
    let ghost before = keys_view(keys@);
    let mut p: usize = 0;
    while p < keys.len()
        invariant
            p <= keys@.len(),
            keys_view(keys@) == before,
            forall|j: int| 0 <= j < p ==> str_lt(#[trigger] before[j], k@),
        ensures
            p <= keys@.len(),
            keys_view(keys@) == before,
            forall|j: int| 0 <= j < p ==> str_lt(#[trigger] before[j], k@),
            p < keys@.len() ==> !str_lt(before[p as int], k@),
        decreases keys@.len() - p,
    {
        if !str_lt_exec(keys[p].as_slice(), k.as_slice()) {
            break;
        }
        p = p + 1;
    }
    if p < keys.len() && crate::text::chars_eq(keys[p].as_slice(), k.as_slice()) {
        assert(before[p as int] == k@);
        assert forall|s: Seq<char>| #[trigger] before.contains(s) <==> (before.contains(s) || s == k@) by {
            if s == k@ {
                assert(before[p as int] == s);
            }
        }
        return;
    }
    let ghost kv = k@;
    keys.insert(p, k);
    let ghost after = keys_view(keys@);
    assert(after =~= before.insert(p as int, kv));
    proof {
        if p < before.len() {
            lemma_str_lt_total(before[p as int], kv);
        }
        assert forall|i: int, j: int| 0 <= i < j < after.len() implies str_lt(#[trigger] after[i], #[trigger] after[j]) by {
            if j < p {
                assert(after[i] == before[i] && after[j] == before[j]);
            } else if j == p {
                assert(after[i] == before[i]);
            } else if i == p {
                assert(after[j] == before[j - 1]);
                if j - 1 > p {
                    assert(str_lt(before[p as int], before[j - 1]));
                    lemma_str_lt_transitive(kv, before[p as int], before[j - 1]);
                }
            } else if i < p {
                assert(after[i] == before[i] && after[j] == before[j - 1]);
            } else {
                assert(after[i] == before[i - 1] && after[j] == before[j - 1]);
            }
        }
        assert forall|s: Seq<char>| #[trigger] after.contains(s) <==> (before.contains(s) || s == kv) by {
            if after.contains(s) {
                let m = choose|m: int| 0 <= m < after.len() && after[m] == s;
                if m < p {
                    assert(before[m] == s);
                } else if m > p {
                    assert(before[m - 1] == s);
                }
            }
            if before.contains(s) {
                let m = choose|m: int| 0 <= m < before.len() && before[m] == s;
                if m < p {
                    assert(after[m] == s);
                } else {
                    assert(after[m + 1] == s);
                }
            }
            if s == kv {
                assert(after[p as int] == s);
            }
        }
    }
}

/// The names of the cookies in a JSON cookie map, sorted and joined by
/// commas (`sessionid` included when it is derived from `sessionid_ss`).
pub fn cookie_key_summary(raw: &str) -> (r: Result<String, String>)
    ensures
        r is Err <==> summary_error(raw@) is Some,
        r matches Err(e) ==> summary_error(raw@) == Some(e@),
        r matches Ok(t) ==> is_summary(raw@, t@),
{
    let no_cookies = "no cookies";
    proof {
        reveal_strlit("no cookies");
    }
    if trim_str(raw).len() == 0 {
        return Ok(string_of(no_cookies));
    }
    let rc = str_chars(raw);
    let value = match parse_json(rc.as_slice()) {
        Ok(v) => v,
        Err(e) => return Err(e),
    };
    let members: &Vec<(String, JsonValue)> = match &value {
        JsonValue::Object(ms) => ms,
        _ => return Err(string_of("cookies_json must be a JSON object")),
    };
    let ghost v = jview(value);
    let ghost ms = jview_members(members@);
    proof {
        lemma_jview_members(members@);
    }
    if members.len() == 0 {
        return Ok(string_of(no_cookies));
    }
    let mut keys: Vec<Vec<char>> = Vec::new();
    let mut i: usize = 0;
    while i < members.len()
        invariant
            i <= members@.len(),
            ms == jview_members(members@),
            ms.len() == members@.len(),
            forall|j: int| 0 <= j < members@.len() ==> #[trigger] ms[j] == (members@[j].0@, jview(members@[j].1)),
            strictly_sorted(keys_view(keys@)),
            forall|s: Seq<char>| #[trigger] keys_view(keys@).contains(s) <==> exists|j: int| 0 <= j < i && ms[j].0 == s,
        decreases members@.len() - i,
    {
        let ghost prev = keys_view(keys@);
        let k = str_chars(members[i].0.as_str());
        let ghost kv = k@;
        insert_key(&mut keys, k);
        proof {
            assert(ms[i as int].0 == kv);
            assert forall|s: Seq<char>| #[trigger] keys_view(keys@).contains(s) <==> exists|j: int| 0 <= j < i + 1 && ms[j].0 == s by {
                if keys_view(keys@).contains(s) {
                    if s == kv {
                        assert(ms[i as int].0 == s);
                    } else {
                        assert(prev.contains(s));
                    }
                }
                if exists|j: int| 0 <= j < i + 1 && ms[j].0 == s {
                    let j = choose|j: int| 0 <= j < i + 1 && ms[j].0 == s;
                    if j < i {
                        assert(prev.contains(s));
                    }
                }
            }
        }
        i = i + 1;
    }
    let sid = nonempty_str_member_exec(&value, "sessionid");
    let ss = nonempty_str_member_exec(&value, "sessionid_ss");
    let derived = sid.is_none() && ss.is_some();
    let ghost listed = keys_view(keys@);
    if derived {
        let k = str_chars("sessionid");
        insert_key(&mut keys, k);
    }
    proof {
        let ks = keys_view(keys@);
        assert(v == JsonView::Object(ms));
        assert forall|s: Seq<char>| #[trigger] ks.contains(s) <==> summary_keys(v).contains(s) by {
            if object_keys(v).contains(s) {
                let j = choose|j: int| 0 <= j < ms.len() && ms[j].0 == s;
                assert(listed.contains(s));
            }
            if listed.contains(s) {
                let j = choose|j: int| 0 <= j < ms.len() && ms[j].0 == s;
                assert(object_keys(v).contains(s));
            }
        }
    }
    let out = join_strings(&keys, ",");
    proof {
        reveal_strlit(",");
        assert(keys@.map_values(|w: Vec<char>| w@) == keys_view(keys@));
    }
    Ok(out)
}

/// The headers every TikTok request carries: what a desktop browser sends
/// when it navigates to the site.
pub open spec fn default_headers_spec() -> Seq<(Seq<char>, Seq<char>)> {
    seq![
        ("accept"@, "text/html,application/xhtml+xml,application/xml;q=0.9,image/avif,image/webp,image/apng,application/json,text/plain,*/*;q=0.8"@),
        ("accept-language"@, "en-US,en;q=0.9"@),
        ("origin"@, "https://www.tiktok.com"@),
        ("referer"@, "https://www.tiktok.com/"@),
        ("user-agent"@, "Mozilla/5.0 (Macintosh; Intel Mac OS X 10_15_7) AppleWebKit/537.36 (KHTML, like Gecko) Chrome/131.0.0.0 Safari/537.36"@),
    ]
}

/// The default request headers, as `(name, value)` pairs in order.
pub fn default_tiktok_headers() -> (r: Vec<(&'static str, &'static str)>)
    ensures
        r@.map_values(|p: (&'static str, &'static str)| (p.0@, p.1@)) == default_headers_spec(),
{
    let mut v: Vec<(&'static str, &'static str)> = Vec::new();
    v.push((
        "accept",
        "text/html,application/xhtml+xml,application/xml;q=0.9,image/avif,image/webp,image/apng,application/json,text/plain,*/*;q=0.8",
    ));
    v.push(("accept-language", "en-US,en;q=0.9"));
    v.push(("origin", "https://www.tiktok.com"));
    v.push(("referer", "https://www.tiktok.com/"));
    v.push((
        "user-agent",
        "Mozilla/5.0 (Macintosh; Intel Mac OS X 10_15_7) AppleWebKit/537.36 (KHTML, like Gecko) Chrome/131.0.0.0 Safari/537.36",
    ));
    assert(v@.map_values(|p: (&'static str, &'static str)| (p.0@, p.1@)) =~= default_headers_spec());
    v
}

} // verus!
