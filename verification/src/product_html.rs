//! Reading a product page's HTML as text: entity unescaping, tags and their
//! attributes, `<script>` bodies, and the `<title>` text.
//!
//! The scanners look for tag names in the ASCII-lowercased page and cut the
//! original page at the same positions, as the lowercasing keeps every
//! character in place.
use vstd::prelude::*;
use crate::text::{
    append_chars, append_str, find_chars_from, find_from, is_alnum, is_ascii_ws, lemma_find_from_bounds,
    lower, lower_chars, slice_chars, str_chars, string_from,
};

verus! {

// ---------------------------------------------------------------------------
// Replacing every occurrence of a pattern
// ---------------------------------------------------------------------------
/// `s[from..]` with every occurrence of `p` replaced by `r`, left to right
/// (`str::replace`).
pub open spec fn replace_from(s: Seq<char>, p: Seq<char>, r: Seq<char>, from: int) -> Seq<char>
    decreases s.len() + 1 - from,
{
    if p.len() == 0 || from < 0 || from > s.len() {
        Seq::empty()
    } else {
        match find_from(s, p, from) {
            None => s.subrange(from, s.len() as int),
            Some(i) => {
                proof {
                    lemma_find_from_bounds(s, p, from);
                }
                s.subrange(from, i) + r + replace_from(s, p, r, i + p.len())
            },
        }
    }
}

pub open spec fn replace_all(s: Seq<char>, p: Seq<char>, r: Seq<char>) -> Seq<char> {
    replace_from(s, p, r, 0)
}

/// The five entities the pages use, decoded in this order.
pub open spec fn html_unescape(s: Seq<char>) -> Seq<char> {
    replace_all(
        replace_all(
            replace_all(replace_all(replace_all(s, "&amp;"@, "&"@), "&quot;"@, "\""@), "&#39;"@, "'"@),
            "&lt;"@,
            "<"@,
        ),
        "&gt;"@,
        ">"@,
    )
}

/// `s` with every occurrence of `p` replaced by `r`.
pub fn replace_all_chars(s: &[char], p: &str, r: &str) -> (out: Vec<char>)
    requires
        p@.len() > 0,
    ensures
        out@ == replace_all(s@, p@, r@),
{
    let pc = str_chars(p);
    let mut out: Vec<char> = Vec::new();
    let mut from: usize = 0;
    loop
        invariant
            pc@ == p@,
            p@.len() > 0,
            from <= s@.len(),
            out@ + replace_from(s@, p@, r@, from as int) == replace_all(s@, p@, r@),
        decreases s@.len() + 1 - from,
    {
        match find_chars_from(s, pc.as_slice(), from) {
            None => {
                let tail = slice_chars(s, from, s.len());
                append_chars(&mut out, tail.as_slice());
                proof {
                    assert(out@ =~= out@ + Seq::<char>::empty());
                }
                return out;
            },
            Some(i) => {
                proof {
                    lemma_find_from_bounds(s@, p@, from as int);
                }
                let mid = slice_chars(s, from, i);
                let ghost before = out@;
                append_chars(&mut out, mid.as_slice());
                append_str(&mut out, r);
                proof {
                    assert(before + (s@.subrange(from as int, i as int) + r@ + replace_from(s@, p@, r@, i + p@.len()))
                        =~= out@ + replace_from(s@, p@, r@, i + p@.len()));
                }
                let plen = pc.len();
                let slen = s.len();
                assert(i + plen <= slen);
                from = i + plen;
            },
        }
    }
}

/// `&amp;`, `&quot;`, `&#39;`, `&lt;` and `&gt;` decoded, in that order.
pub fn html_unescape_basic(value: &[char]) -> (r: Vec<char>)
    ensures
        r@ == html_unescape(value@),
{
    proof {
        reveal_strlit("&amp;");
        reveal_strlit("&quot;");
        reveal_strlit("&#39;");
        reveal_strlit("&lt;");
        reveal_strlit("&gt;");
    }
    let a = replace_all_chars(value, "&amp;", "&");
    let b = replace_all_chars(a.as_slice(), "&quot;", "\"");
    let c = replace_all_chars(b.as_slice(), "&#39;", "'");
    let d = replace_all_chars(c.as_slice(), "&lt;", "<");
    replace_all_chars(d.as_slice(), "&gt;", ">")
}

// ---------------------------------------------------------------------------
// Scanning
// ---------------------------------------------------------------------------
/// The first index at or after `i` whose character fails `p`, or the length.
pub open spec fn skip_while(t: Seq<char>, i: int, p: spec_fn(char) -> bool) -> int
    decreases t.len() - i,
{
    if 0 <= i < t.len() && p(t[i]) {
        skip_while(t, i + 1, p)
    } else {
        i
    }
}

pub proof fn lemma_skip_while(t: Seq<char>, i: int, p: spec_fn(char) -> bool)
    requires
        0 <= i <= t.len(),
    ensures
        i <= skip_while(t, i, p) <= t.len(),
        skip_while(t, i, p) < t.len() ==> !p(t[skip_while(t, i, p)]),
        forall|k: int| i <= k < skip_while(t, i, p) ==> p(t[k]),
    decreases t.len() - i,
{
    if i < t.len() && p(t[i]) {
        lemma_skip_while(t, i + 1, p);
    }
}

pub open spec fn ws_pred() -> spec_fn(char) -> bool {
    |c: char| is_ascii_ws(c)
}

pub open spec fn not_lt_pred() -> spec_fn(char) -> bool {
    |c: char| c != '<'
}

/// Characters of a tag name or an unquoted value.
pub open spec fn word_pred() -> spec_fn(char) -> bool {
    |c: char| !is_ascii_ws(c) && c != '>'
}

/// Characters of an attribute name.
pub open spec fn key_pred() -> spec_fn(char) -> bool {
    |c: char| is_alnum(c) || c == '-' || c == '_' || c == ':' || c == '.'
}

pub open spec fn not_char_pred(q: char) -> spec_fn(char) -> bool {
    |c: char| c != q
}

fn skip_ws(t: &[char], i: usize) -> (r: usize)
    requires
        i <= t@.len(),
    ensures
        r == skip_while(t@, i as int, ws_pred()),
{
    let mut k = i;
    while k < t.len() && (t[k] == ' ' || t[k] == '\t' || t[k] == '\n' || t[k] == '\x0C' || t[k] == '\r')
        invariant
            i <= k <= t@.len(),
            skip_while(t@, i as int, ws_pred()) == skip_while(t@, k as int, ws_pred()),
        decreases t@.len() - k,
    {
        k = k + 1;
    }
    k
}

fn skip_word(t: &[char], i: usize) -> (r: usize)
    requires
        i <= t@.len(),
    ensures
        r == skip_while(t@, i as int, word_pred()),
{
    let mut k = i;
    while k < t.len() && !(t[k] == ' ' || t[k] == '\t' || t[k] == '\n' || t[k] == '\x0C' || t[k] == '\r')
        && t[k] != '>'
        invariant
            i <= k <= t@.len(),
            skip_while(t@, i as int, word_pred()) == skip_while(t@, k as int, word_pred()),
        decreases t@.len() - k,
    {
        k = k + 1;
    }
    k
}

fn skip_key(t: &[char], i: usize) -> (r: usize)
    requires
        i <= t@.len(),
    ensures
        r == skip_while(t@, i as int, key_pred()),
{
    let mut k = i;
    while k < t.len() && (('0' <= t[k] && t[k] <= '9') || ('a' <= t[k] && t[k] <= 'z') || ('A' <= t[k] && t[k] <= 'Z')
        || t[k] == '-' || t[k] == '_' || t[k] == ':' || t[k] == '.')
        invariant
            i <= k <= t@.len(),
            skip_while(t@, i as int, key_pred()) == skip_while(t@, k as int, key_pred()),
        decreases t@.len() - k,
    {
        k = k + 1;
    }
    k
}

fn skip_not_char(t: &[char], i: usize, q: char) -> (r: usize)
    requires
        i <= t@.len(),
    ensures
        r == skip_while(t@, i as int, not_char_pred(q)),
{
    let mut k = i;
    while k < t.len() && t[k] != q
        invariant
            i <= k <= t@.len(),
            skip_while(t@, i as int, not_char_pred(q)) == skip_while(t@, k as int, not_char_pred(q)),
        decreases t@.len() - k,
    {
        k = k + 1;
    }
    k
}

// ---------------------------------------------------------------------------
// Attributes of a tag
// ---------------------------------------------------------------------------
/// The `(name, value)` pairs read from `t[i..]`, in order: names lowercased,
/// values unquoted and unescaped, an attribute without `=` read with an empty
/// value, and a character that cannot start a name skipped.
pub open spec fn attrs_from(t: Seq<char>, i: int) -> Seq<(Seq<char>, Seq<char>)>
    decreases t.len() - i,
{
    if i < 0 || i > t.len() {
        Seq::empty()
    } else {
        let i1 = skip_while(t, i, ws_pred());
        proof {
            lemma_skip_while(t, i, ws_pred());
        }
        if i1 >= t.len() || t[i1] == '>' {
            Seq::empty()
        } else {
            let ke = skip_while(t, i1, key_pred());
            proof {
                lemma_skip_while(t, i1, key_pred());
            }
            if ke == i1 {
                attrs_from(t, i1 + 1)
            } else {
                let key = lower(t.subrange(i1, ke));
                let i2 = skip_while(t, ke, ws_pred());
                proof {
                    lemma_skip_while(t, ke, ws_pred());
                }
                if i2 >= t.len() || t[i2] != '=' {
                    seq![(key, Seq::<char>::empty())] + attrs_from(t, i2)
                } else {
                    let i3 = skip_while(t, i2 + 1, ws_pred());
                    proof {
                        lemma_skip_while(t, i2 + 1, ws_pred());
                    }
                    if i3 < t.len() && (t[i3] == '"' || t[i3] == '\'') {
                        let ve = skip_while(t, i3 + 1, not_char_pred(t[i3]));
                        proof {
                            lemma_skip_while(t, i3 + 1, not_char_pred(t[i3]));
                        }
                        let next = if ve < t.len() {
                            ve + 1
                        } else {
                            ve
                        };
                        seq![(key, html_unescape(t.subrange(i3 + 1, ve)))] + attrs_from(t, next)
                    } else {
                        let ve = skip_while(t, i3, word_pred());
                        proof {
                            lemma_skip_while(t, i3, word_pred());
                        }
                        seq![(key, html_unescape(t.subrange(i3, ve)))] + attrs_from(t, ve)
                    }
                }
            }
        }
    }
}

/// The attributes of a tag: those after the tag's name, which follows the first `<`.
pub open spec fn tag_attrs(t: Seq<char>) -> Seq<(Seq<char>, Seq<char>)> {
    attrs_from(t, skip_while(t, skip_while(t, 0, not_lt_pred()), word_pred()))
}

/// The value of the last attribute named `key` (a later one overrides).
pub open spec fn attr_get(attrs: Seq<(Seq<char>, Seq<char>)>, key: Seq<char>) -> Option<Seq<char>>
    decreases attrs.len(),
{
    if attrs.len() == 0 {
        None
    } else if attrs.last().0 == key {
        Some(attrs.last().1)
    } else {
        attr_get(attrs.drop_last(), key)
    }
}

/// The view of attribute pairs.
pub open spec fn pairs_view(v: Seq<(Vec<char>, Vec<char>)>) -> Seq<(Seq<char>, Seq<char>)> {
    v.map_values(|p: (Vec<char>, Vec<char>)| (p.0@, p.1@))
}

/// The attributes of a tag, in order.
pub fn parse_attrs(t: &[char]) -> (r: Vec<(Vec<char>, Vec<char>)>)
    ensures
        pairs_view(r@) == tag_attrs(t@),
{
    let ghost tv = t@;
    let a = skip_not_char(t, 0, '<');
    proof {
        lemma_skip_while(tv, 0, not_char_pred('<'));
        assert(not_char_pred('<') == not_lt_pred());
    }
    let mut i = skip_word(t, a);
    proof {
        lemma_skip_while(tv, a as int, word_pred());
    }
    let mut out: Vec<(Vec<char>, Vec<char>)> = Vec::new();
    loop
        invariant
            tv == t@,
            i <= t@.len(),
            pairs_view(out@) + attrs_from(tv, i as int) == tag_attrs(tv),
        decreases t@.len() - i,
    {
        let ghost rest = attrs_from(tv, i as int);
        let i1 = skip_ws(t, i);
        proof {
            lemma_skip_while(tv, i as int, ws_pred());
        }
        if i1 >= t.len() || t[i1] == '>' {
            proof {
                assert(rest =~= Seq::<(Seq<char>, Seq<char>)>::empty());
                assert(pairs_view(out@) + rest =~= pairs_view(out@));
            }
            return out;
        }
        let ke = skip_key(t, i1);
        proof {
            lemma_skip_while(tv, i1 as int, key_pred());
        }
        if ke == i1 {
            i = i1 + 1;
            continue;
        }
        let key_raw = slice_chars(t, i1, ke);
        let key = lower_chars(key_raw.as_slice());
        let i2 = skip_ws(t, ke);
        proof {
            lemma_skip_while(tv, ke as int, ws_pred());
        }
        let ghost before = out@;
        if i2 >= t.len() || t[i2] != '=' {
            out.push((key, Vec::new()));
            proof {
                assert(pairs_view(out@) =~= pairs_view(before).push((key@, Seq::<char>::empty())));
                assert(pairs_view(out@) + attrs_from(tv, i2 as int) =~= pairs_view(before) + rest);
            }
            i = i2;
            continue;
        }
        let i3 = skip_ws(t, i2 + 1);
        proof {
            lemma_skip_while(tv, i2 + 1, ws_pred());
        }
        if i3 < t.len() && (t[i3] == '"' || t[i3] == '\'') {
            let q = t[i3];
            let ve = skip_not_char(t, i3 + 1, q);
            proof {
                lemma_skip_while(tv, i3 + 1, not_char_pred(q));
            }
            let raw = slice_chars(t, i3 + 1, ve);
            let value = html_unescape_basic(raw.as_slice());
            let next = if ve < t.len() {
                ve + 1
            } else {
                ve
            };
            out.push((key, value));
            proof {
                assert(pairs_view(out@) =~= pairs_view(before).push((key@, value@)));
                assert(pairs_view(out@) + attrs_from(tv, next as int) =~= pairs_view(before) + rest);
            }
            i = next;
        } else {
            let ve = skip_word(t, i3);
            proof {
                lemma_skip_while(tv, i3 as int, word_pred());
            }
            let raw = slice_chars(t, i3, ve);
            let value = html_unescape_basic(raw.as_slice());
            out.push((key, value));
            proof {
                assert(pairs_view(out@) =~= pairs_view(before).push((key@, value@)));
                assert(pairs_view(out@) + attrs_from(tv, ve as int) =~= pairs_view(before) + rest);
            }
            i = ve;
        }
    }
}

/// The value of the last attribute named `key`.
pub fn get_attr<'a>(attrs: &'a Vec<(Vec<char>, Vec<char>)>, key: &str) -> (r: Option<&'a Vec<char>>)
    ensures
        match r {
            Some(v) => attr_get(pairs_view(attrs@), key@) == Some(v@),
            None => attr_get(pairs_view(attrs@), key@) is None,
        },
{
    let kc = str_chars(key);
    let mut n = attrs.len();
    proof {
        assert(pairs_view(attrs@).subrange(0, n as int) =~= pairs_view(attrs@));
    }
    while n > 0
        invariant
            kc@ == key@,
            n <= attrs@.len(),
            attr_get(pairs_view(attrs@), key@) == attr_get(pairs_view(attrs@).subrange(0, n as int), key@),
        decreases n,
    {
        let ghost pre = pairs_view(attrs@).subrange(0, n as int);
        assert(pre.last() == (attrs@[n - 1].0@, attrs@[n - 1].1@));
        if crate::text::chars_eq(attrs[n - 1].0.as_slice(), kc.as_slice()) {
            return Some(&attrs[n - 1].1);
        }
        assert(pre.drop_last() =~= pairs_view(attrs@).subrange(0, n - 1));
        n = n - 1;
    }
    None
}

// ---------------------------------------------------------------------------
// Tags, scripts and elements
// ---------------------------------------------------------------------------
/// The tags that start with `needle` in `lw` (the lowercased `h`) at or after
/// `pos`, each up to its first `>`, cut from `h`.
pub open spec fn tags_from(h: Seq<char>, lw: Seq<char>, needle: Seq<char>, pos: int) -> Seq<Seq<char>>
    decreases lw.len() + 1 - pos,
{
    if needle.len() == 0 || pos < 0 || pos > lw.len() {
        Seq::empty()
    } else {
        match find_from(lw, needle, pos) {
            None => Seq::empty(),
            Some(start) => {
                proof {
                    lemma_find_from_bounds(lw, needle, pos);
                }
                match find_from(lw, ">"@, start) {
                    None => Seq::empty(),
                    Some(gt) => {
                        proof {
                            lemma_find_from_bounds(lw, ">"@, start);
                        }
                        seq![h.subrange(start, gt + 1)] + tags_from(h, lw, needle, gt + 1)
                    },
                }
            },
        }
    }
}

/// The `<name ...>` tags of a page, in order.
pub open spec fn tags(h: Seq<char>, name: Seq<char>) -> Seq<Seq<char>> {
    tags_from(h, lower(h), "<"@ + name, 0)
}

/// The view of a list of character vectors.
pub open spec fn texts_view(v: Seq<Vec<char>>) -> Seq<Seq<char>> {
    v.map_values(|x: Vec<char>| x@)
}

/// The `<name ...>` tags of a page, in order.
pub fn find_tags(html: &[char], tag_name: &str) -> (r: Vec<Vec<char>>)
    ensures
        texts_view(r@) == tags(html@, tag_name@),
{
    let lw = lower_chars(html);
    let mut needle: Vec<char> = Vec::new();
    append_str(&mut needle, "<");
    append_str(&mut needle, tag_name);
    let gtc = str_chars(">");
    proof {
        reveal_strlit("<");
        assert(needle@ == "<"@ + tag_name@);
        assert(needle@.len() > 0);
    }
    let mut out: Vec<Vec<char>> = Vec::new();
    let mut pos: usize = 0;
    loop
        invariant
            lw@ == lower(html@),
            lw@.len() == html@.len(),
            needle@ == "<"@ + tag_name@,
            needle@.len() > 0,
            gtc@ == ">"@,
            pos <= lw@.len(),
            texts_view(out@) + tags_from(html@, lw@, needle@, pos as int) == tags(html@, tag_name@),
        decreases lw@.len() + 1 - pos,
    {
        let ghost rest = tags_from(html@, lw@, needle@, pos as int);
        match find_chars_from(lw.as_slice(), needle.as_slice(), pos) {
            None => {
                proof {
                    assert(texts_view(out@) + rest =~= texts_view(out@));
                }
                return out;
            },
            Some(start) => {
                proof {
                    lemma_find_from_bounds(lw@, needle@, pos as int);
                }
                match find_chars_from(lw.as_slice(), gtc.as_slice(), start) {
                    None => {
                        proof {
                            assert(texts_view(out@) + rest =~= texts_view(out@));
                        }
                        return out;
                    },
                    Some(gt) => {
                        proof {
                            lemma_find_from_bounds(lw@, gtc@, start as int);
                            reveal_strlit(">");
                        }
                        let n = lw.len();
                        assert(gt + 1 <= n);
                        let tag = slice_chars(html, start, gt + 1);
                        let ghost before = out@;
                        out.push(tag);
                        proof {
                            assert(texts_view(out@) =~= texts_view(before).push(tag@));
                            assert(texts_view(out@) + tags_from(html@, lw@, needle@, gt + 1) =~= texts_view(before) + rest);
                        }
                        pos = gt + 1;
                    },
                }
            },
        }
    }
}

/// Whether a tag's `type` attribute equals `ty` up to ASCII case.
pub open spec fn type_matches(tag: Seq<char>, ty: Seq<char>) -> bool {
    match attr_get(tag_attrs(tag), "type"@) {
        Some(v) => lower(v) == lower(ty),
        None => false,
    }
}

/// The bodies of the `<script>` elements at or after `pos` whose `type` is `ty`.
pub open spec fn scripts_from(h: Seq<char>, lw: Seq<char>, ty: Seq<char>, pos: int) -> Seq<Seq<char>>
    decreases lw.len() + 1 - pos,
{
    if pos < 0 || pos > lw.len() {
        Seq::empty()
    } else {
        match find_from(lw, "<script"@, pos) {
            None => Seq::empty(),
            Some(ts) => {
                proof {
                    lemma_find_from_bounds(lw, "<script"@, pos);
                }
                match find_from(lw, ">"@, ts) {
                    None => Seq::empty(),
                    Some(gt) => {
                        proof {
                            lemma_find_from_bounds(lw, ">"@, ts);
                        }
                        let oe = gt + 1;
                        match find_from(lw, "</script>"@, oe) {
                            None => Seq::empty(),
                            Some(cs) => {
                                proof {
                                    lemma_find_from_bounds(lw, "</script>"@, oe);
                                }
                                let here: Seq<Seq<char>> = if type_matches(h.subrange(ts, oe), ty) {
                                    seq![h.subrange(oe, cs)]
                                } else {
                                    Seq::empty()
                                };
                                here + scripts_from(h, lw, ty, cs + "</script>"@.len())
                            },
                        }
                    },
                }
            },
        }
    }
}

/// The bodies of the page's `<script type="ty">` elements, in order.
pub open spec fn scripts(h: Seq<char>, ty: Seq<char>) -> Seq<Seq<char>> {
    scripts_from(h, lower(h), ty, 0)
}

/// The bodies of the page's `<script>` elements whose `type` is `script_type`
/// up to ASCII case.
pub fn find_script_text_by_type(html: &[char], script_type: &str) -> (r: Vec<Vec<char>>)
    ensures
        texts_view(r@) == scripts(html@, script_type@),
{
    let lw = lower_chars(html);
    let open = str_chars("<script");
    let gtc = str_chars(">");
    let close = str_chars("</script>");
    let ty = str_chars(script_type);
    let ty_lower = lower_chars(ty.as_slice());
    proof {
        reveal_strlit("<script");
        reveal_strlit("</script>");
        reveal_strlit(">");
    }
    let mut out: Vec<Vec<char>> = Vec::new();
    let mut pos: usize = 0;
    loop
        invariant
            lw@ == lower(html@),
            lw@.len() == html@.len(),
            open@ == "<script"@,
            gtc@ == ">"@,
            close@ == "</script>"@,
            ty_lower@ == lower(script_type@),
            pos <= lw@.len(),
            texts_view(out@) + scripts_from(html@, lw@, script_type@, pos as int) == scripts(html@, script_type@),
        decreases lw@.len() + 1 - pos,
    {
        let ghost rest = scripts_from(html@, lw@, script_type@, pos as int);
        let ts = match find_chars_from(lw.as_slice(), open.as_slice(), pos) {
            None => {
                proof {
                    assert(texts_view(out@) + rest =~= texts_view(out@));
                }
                return out;
            },
            Some(ts) => ts,
        };
        proof {
            lemma_find_from_bounds(lw@, open@, pos as int);
        }
        let gt = match find_chars_from(lw.as_slice(), gtc.as_slice(), ts) {
            None => {
                proof {
                    assert(texts_view(out@) + rest =~= texts_view(out@));
                }
                return out;
            },
            Some(gt) => gt,
        };
        proof {
            lemma_find_from_bounds(lw@, gtc@, ts as int);
            reveal_strlit(">");
        }
        let n = lw.len();
        assert(gt + 1 <= n);
        let oe = gt + 1;
        let tag = slice_chars(html, ts, oe);
        let attrs = parse_attrs(tag.as_slice());
        let matches_type = match get_attr(&attrs, "type") {
            Some(v) => {
                let vl = lower_chars(v.as_slice());
                crate::text::chars_eq(vl.as_slice(), ty_lower.as_slice())
            },
            None => false,
        };
        let cs = match find_chars_from(lw.as_slice(), close.as_slice(), oe) {
            None => {
                proof {
                    assert(texts_view(out@) + rest =~= texts_view(out@));
                }
                return out;
            },
            Some(cs) => cs,
        };
        proof {
            lemma_find_from_bounds(lw@, close@, oe as int);
            assert(matches_type == type_matches(html@.subrange(ts as int, oe as int), script_type@));
            reveal_strlit("</script>");
        }
        assert(cs + 9 <= n);
        let ghost before = out@;
        if matches_type {
            let body = slice_chars(html, oe, cs);
            out.push(body);
            proof {
                assert(texts_view(out@) =~= texts_view(before).push(body@));
            }
        }
        proof {
            assert(texts_view(out@) + scripts_from(html@, lw@, script_type@, cs + 9) =~= texts_view(before) + rest);
        }
        pos = cs + 9;
    }
}

/// The unescaped text between the first `<name` tag and the following `</name>`.
pub open spec fn element_text(h: Seq<char>, name: Seq<char>) -> Option<Seq<char>> {
    let lw = lower(h);
    match find_from(lw, "<"@ + name, 0) {
        None => None,
        Some(st) => match find_from(lw, ">"@, st) {
            None => None,
            Some(gt) => match find_from(lw, "</"@ + name + ">"@, gt + 1) {
                None => None,
                Some(ce) => Some(html_unescape(h.subrange(gt + 1, ce))),
            },
        },
    }
}

/// The unescaped text of the first `<name>` element.
pub fn find_element_text(html: &[char], tag_name: &str) -> (r: Option<Vec<char>>)
    ensures
        match r {
            Some(t) => element_text(html@, tag_name@) == Some(t@),
            None => element_text(html@, tag_name@) is None,
        },
{
    let lw = lower_chars(html);
    let mut open: Vec<char> = Vec::new();
    append_str(&mut open, "<");
    append_str(&mut open, tag_name);
    let mut close: Vec<char> = Vec::new();
    append_str(&mut close, "</");
    append_str(&mut close, tag_name);
    append_str(&mut close, ">");
    let gtc = str_chars(">");
    let st = match find_chars_from(lw.as_slice(), open.as_slice(), 0) {
        None => return None,
        Some(st) => st,
    };
    proof {
        lemma_find_from_bounds(lw@, open@, 0);
    }
    let gt = match find_chars_from(lw.as_slice(), gtc.as_slice(), st) {
        None => return None,
        Some(gt) => gt,
    };
    proof {
        lemma_find_from_bounds(lw@, gtc@, st as int);
        reveal_strlit(">");
    }
    let n = lw.len();
    assert(gt + 1 <= n);
    let ce = match find_chars_from(lw.as_slice(), close.as_slice(), gt + 1) {
        None => return None,
        Some(ce) => ce,
    };
    proof {
        lemma_find_from_bounds(lw@, close@, gt + 1);
    }
    let body = slice_chars(html, gt + 1, ce);
    Some(html_unescape_basic(body.as_slice()))
}

} // verus!
