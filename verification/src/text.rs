//! Character-level text primitives: classification, trimming, searching,
//! splitting into words and decimal integers, all stated over `Seq<char>`.
use vstd::prelude::*;

verus! {

// ---------------------------------------------------------------------------
// Character classes
// ---------------------------------------------------------------------------
/// `char::is_ascii_digit`.
pub open spec fn is_digit(c: char) -> bool {
    '0' <= c && c <= '9'
}

/// `char::is_ascii_alphabetic`.
pub open spec fn is_alpha(c: char) -> bool {
    ('a' <= c && c <= 'z') || ('A' <= c && c <= 'Z')
}

/// `char::is_ascii_alphanumeric`.
pub open spec fn is_alnum(c: char) -> bool {
    is_digit(c) || is_alpha(c)
}

/// `char::is_ascii_whitespace`: space, tab, line feed, form feed, carriage return.
pub open spec fn is_ascii_ws(c: char) -> bool {
    c == ' ' || c == '\t' || c == '\n' || c == '\x0C' || c == '\r'
}

/// `char::is_whitespace`: the Unicode `White_Space` property.
pub open spec fn is_ws(c: char) -> bool {
    ||| '\t' <= c && c <= '\r'
    ||| c == ' '
    ||| c == '\u{85}'
    ||| c == '\u{A0}'
    ||| c == '\u{1680}'
    ||| '\u{2000}' <= c && c <= '\u{200A}'
    ||| c == '\u{2028}'
    ||| c == '\u{2029}'
    ||| c == '\u{202F}'
    ||| c == '\u{205F}'
    ||| c == '\u{3000}'
}

/// `char::to_ascii_lowercase`.
pub open spec fn lower_char(c: char) -> char {
    if 'A' <= c && c <= 'Z' {
        ((c as u32) + 32) as char
    } else {
        c
    }
}

/// `str::to_ascii_lowercase`.
pub open spec fn lower(s: Seq<char>) -> Seq<char> {
    s.map_values(|c: char| lower_char(c))
}

pub fn char_is_digit(c: char) -> (r: bool)
    ensures
        r == is_digit(c),
{
    '0' <= c && c <= '9'
}

pub fn char_is_alnum(c: char) -> (r: bool)
    ensures
        r == is_alnum(c),
{
    ('0' <= c && c <= '9') || ('a' <= c && c <= 'z') || ('A' <= c && c <= 'Z')
}

pub fn char_is_ascii_ws(c: char) -> (r: bool)
    ensures
        r == is_ascii_ws(c),
{
    c == ' ' || c == '\t' || c == '\n' || c == '\x0C' || c == '\r'
}

pub fn char_is_ws(c: char) -> (r: bool)
    ensures
        r == is_ws(c),
{
    ('\t' <= c && c <= '\r') || c == ' ' || c == '\u{85}' || c == '\u{A0}' || c == '\u{1680}'
        || ('\u{2000}' <= c && c <= '\u{200A}') || c == '\u{2028}' || c == '\u{2029}' || c
        == '\u{202F}' || c == '\u{205F}' || c == '\u{3000}'
}

pub fn char_lower(c: char) -> (r: char)
    ensures
        r == lower_char(c),
{
    if 'A' <= c && c <= 'Z' {
        let code: u32 = c as u32;
        let lowered: u8 = (code + 32) as u8;
        assert(lowered as u32 == code + 32);
        lowered as char
    } else {
        c
    }
}

// ---------------------------------------------------------------------------
// Conversions between `str`, `String` and character vectors
// ---------------------------------------------------------------------------
/// The characters of a string slice, in order.
pub fn str_chars(s: &str) -> (r: Vec<char>)
    ensures
        r@ == s@,
{
    let mut out: Vec<char> = Vec::new();
    for c in it: s.chars()
        invariant
            out@ == it.seq().take(it.index() as int),
    {
        out.push(c);
    }
    out
}

/// `String::push`, which appends one character.
#[verifier::external_body]
fn string_push(s: &mut String, c: char)
    ensures
        final(s)@ == old(s)@.push(c),
{
    s.push(c);
}

/// A `String` holding exactly the given characters.
pub fn string_from(chars: &[char]) -> (r: String)
    ensures
        r@ == chars@,
{
    let mut out = String::new();
    let mut i: usize = 0;
    while i < chars.len()
        invariant
            i <= chars@.len(),
            out@ == chars@.take(i as int),
        decreases chars@.len() - i,
    {
        string_push(&mut out, chars[i]);
        assert(chars@.take(i as int).push(chars@[i as int]) =~= chars@.take(i + 1));
        i = i + 1;
    }
    assert(chars@.take(chars@.len() as int) =~= chars@);
    out
}

/// A `String` copy of a string slice.
pub fn string_of(s: &str) -> (r: String)
    ensures
        r@ == s@,
{
    let v = str_chars(s);
    string_from(v.as_slice())
}

/// Concatenation of two character sequences as a new `String`.
pub fn concat2(a: &[char], b: &[char]) -> (r: String)
    ensures
        r@ == a@ + b@,
{
    let mut v: Vec<char> = Vec::new();
    append_chars(&mut v, a);
    append_chars(&mut v, b);
    string_from(v.as_slice())
}

/// Appends `b` at the end of `v`.
pub fn append_chars(v: &mut Vec<char>, b: &[char])
    ensures
        final(v)@ == old(v)@ + b@,
{
    let mut i: usize = 0;
    while i < b.len()
        invariant
            i <= b@.len(),
            v@ == old(v)@ + b@.take(i as int),
        decreases b@.len() - i,
    {
        v.push(b[i]);
        assert(old(v)@ + b@.take(i as int).push(b@[i as int]) =~= old(v)@ + b@.take(i + 1));
        i = i + 1;
    }
    assert(b@.take(b@.len() as int) =~= b@);
}

/// Appends the characters of `b` at the end of `v`.
pub fn append_str(v: &mut Vec<char>, b: &str)
    ensures
        final(v)@ == old(v)@ + b@,
{
    let bc = str_chars(b);
    append_chars(v, bc.as_slice());
}

/// Copy of the range `[start, end)`.
pub fn slice_chars(s: &[char], start: usize, end: usize) -> (r: Vec<char>)
    requires
        start <= end <= s@.len(),
    ensures
        r@ == s@.subrange(start as int, end as int),
{
    let mut out: Vec<char> = Vec::new();
    let mut i: usize = start;
    while i < end
        invariant
            start <= i <= end <= s@.len(),
            out@ == s@.subrange(start as int, i as int),
        decreases end - i,
    {
        out.push(s[i]);
        assert(s@.subrange(start as int, i as int).push(s@[i as int]) =~= s@.subrange(
            start as int,
            i + 1,
        ));
        i = i + 1;
    }
    out
}

/// Equality of two character sequences.
pub fn chars_eq(a: &[char], b: &[char]) -> (r: bool)
    ensures
        r == (a@ == b@),
{
    if a.len() != b.len() {
        return false;
    }
    let mut i: usize = 0;
    while i < a.len()
        invariant
            a@.len() == b@.len(),
            i <= a@.len(),
            forall|j: int| 0 <= j < i ==> a@[j] == b@[j],
        decreases a@.len() - i,
    {
        if a[i] != b[i] {
            return false;
        }
        i = i + 1;
    }
    assert(a@ =~= b@);
    true
}

/// Equality of a character sequence and a string slice.
pub fn chars_eq_str(a: &[char], b: &str) -> (r: bool)
    ensures
        r == (a@ == b@),
{
    let bc = str_chars(b);
    chars_eq(a, bc.as_slice())
}

/// Equality of two string slices.
pub fn str_eq(a: &str, b: &str) -> (r: bool)
    ensures
        r == (a@ == b@),
{
    let ac = str_chars(a);
    chars_eq_str(ac.as_slice(), b)
}

// ---------------------------------------------------------------------------
// Lowercase
// ---------------------------------------------------------------------------
/// ASCII lowercase copy (`to_ascii_lowercase`).
pub fn lower_chars(s: &[char]) -> (r: Vec<char>)
    ensures
        r@ == lower(s@),
{
    let mut out: Vec<char> = Vec::new();
    let mut i: usize = 0;
    while i < s.len()
        invariant
            i <= s@.len(),
            out@ == lower(s@.take(i as int)),
        decreases s@.len() - i,
    {
        let c = char_lower(s[i]);
        out.push(c);
        assert(lower(s@.take(i as int)).push(lower_char(s@[i as int])) =~= lower(
            s@.take(i + 1),
        ));
        i = i + 1;
    }
    assert(s@.take(s@.len() as int) =~= s@);
    out
}

// ---------------------------------------------------------------------------
// Prefixes, suffixes and searching
// ---------------------------------------------------------------------------
pub open spec fn starts_with(s: Seq<char>, p: Seq<char>) -> bool {
    p.len() <= s.len() && s.subrange(0, p.len() as int) == p
}

pub open spec fn ends_with(s: Seq<char>, p: Seq<char>) -> bool {
    p.len() <= s.len() && s.subrange(s.len() - p.len(), s.len() as int) == p
}

/// `needle` occurs in `hay` at index `i`.
pub open spec fn occurs_at(hay: Seq<char>, needle: Seq<char>, i: int) -> bool {
    0 <= i && i + needle.len() <= hay.len() && hay.subrange(i, i + needle.len()) == needle
}

pub open spec fn contains(hay: Seq<char>, needle: Seq<char>) -> bool {
    exists|i: int| occurs_at(hay, needle, i)
}

/// The first index at or after `from` where `needle` occurs (`str::find` on `hay[from..]`).
pub open spec fn find_from(hay: Seq<char>, needle: Seq<char>, from: int) -> Option<int>
    decreases hay.len() + 1 - from,
{
    if from + needle.len() > hay.len() {
        None
    } else if occurs_at(hay, needle, from) {
        Some(from)
    } else {
        find_from(hay, needle, from + 1)
    }
}

/// The first index where `needle` occurs (`str::find`).
pub open spec fn find(hay: Seq<char>, needle: Seq<char>) -> Option<int> {
    find_from(hay, needle, 0)
}

pub proof fn lemma_find_from_bounds(hay: Seq<char>, needle: Seq<char>, from: int)
    ensures
        find_from(hay, needle, from) matches Some(i) ==> from <= i && occurs_at(hay, needle, i)
            && forall|j: int| from <= j < i ==> !occurs_at(hay, needle, j),
        find_from(hay, needle, from) is None ==> forall|j: int|
            from <= j ==> !occurs_at(hay, needle, j),
    decreases hay.len() + 1 - from,
{
    if from + needle.len() > hay.len() {
    } else if occurs_at(hay, needle, from) {
    } else {
        lemma_find_from_bounds(hay, needle, from + 1);
    }
}

/// Whether `needle` occurs at index `i` of `hay`.
pub fn matches_at(hay: &[char], needle: &[char], i: usize) -> (r: bool)
    ensures
        r == occurs_at(hay@, needle@, i as int),
{
    if i > hay.len() || needle.len() > hay.len() - i {
        return false;
    }
    let mut k: usize = 0;
    while k < needle.len()
        invariant
            i + needle@.len() <= hay@.len(),
            hay@.len() == hay.len(),
            k <= needle@.len(),
            forall|j: int| 0 <= j < k ==> hay@[i + j] == needle@[j],
        decreases needle@.len() - k,
    {
        assert(i + k < hay@.len());
        if hay[i + k] != needle[k] {
            assert(hay@.subrange(i as int, i + needle@.len())[k as int] != needle@[k as int]);
            return false;
        }
        k = k + 1;
    }
    assert(hay@.subrange(i as int, i + needle@.len()) =~= needle@);
    true
}

/// First occurrence of `needle` at or after `from`.
pub fn find_chars_from(hay: &[char], needle: &[char], from: usize) -> (r: Option<usize>)
    ensures
        r matches Some(i) ==> find_from(hay@, needle@, from as int) == Some(i as int),
        r is None ==> find_from(hay@, needle@, from as int) is None,
{
    let mut i: usize = from;
    if i > hay.len() || needle.len() > hay.len() - i {
        return None;
    }
    let last: usize = hay.len() - needle.len();
    while i <= last
        invariant
            from <= i,
            last + needle@.len() == hay@.len(),
            find_from(hay@, needle@, from as int) == find_from(hay@, needle@, i as int),
        decreases last + 1 - i,
    {
        if matches_at(hay, needle, i) {
            return Some(i);
        }
        if i == last {
            assert(find_from(hay@, needle@, i + 1) is None);
            return None;
        }
        i = i + 1;
    }
    None
}

/// First occurrence of `needle`.
pub fn find_chars(hay: &[char], needle: &[char]) -> (r: Option<usize>)
    ensures
        r matches Some(i) ==> find(hay@, needle@) == Some(i as int),
        r is None ==> find(hay@, needle@) is None,
{
    find_chars_from(hay, needle, 0)
}

/// First occurrence of the string slice `needle`.
pub fn find_str(hay: &[char], needle: &str) -> (r: Option<usize>)
    ensures
        r matches Some(i) ==> find(hay@, needle@) == Some(i as int),
        r is None ==> find(hay@, needle@) is None,
{
    let n = str_chars(needle);
    find_chars(hay, n.as_slice())
}

/// Whether `needle` occurs anywhere in `hay`.
pub fn contains_str(hay: &[char], needle: &str) -> (r: bool)
    ensures
        r == contains(hay@, needle@),
{
    let n = str_chars(needle);
    let r = find_chars(hay, n.as_slice());
    proof {
        lemma_find_from_bounds(hay@, n@, 0);
    }
    r.is_some()
}

pub fn starts_with_chars(s: &[char], p: &[char]) -> (r: bool)
    ensures
        r == starts_with(s@, p@),
{
    let r = matches_at(s, p, 0);
    proof {
        if r {
            assert(s@.subrange(0, p@.len() as int) == p@);
        } else if p@.len() <= s@.len() {
            assert(!occurs_at(s@, p@, 0));
        }
    }
    r
}

pub fn starts_with_str(s: &[char], p: &str) -> (r: bool)
    ensures
        r == starts_with(s@, p@),
{
    let pc = str_chars(p);
    starts_with_chars(s, pc.as_slice())
}

pub fn ends_with_str(s: &[char], p: &str) -> (r: bool)
    ensures
        r == ends_with(s@, p@),
{
    let pc = str_chars(p);
    if pc.len() > s.len() {
        return false;
    }
    let r = matches_at(s, pc.as_slice(), s.len() - pc.len());
    r
}

// ---------------------------------------------------------------------------
// Trimming
// ---------------------------------------------------------------------------
/// `str::trim_start`.
pub open spec fn trim_start(s: Seq<char>) -> Seq<char>
    decreases s.len(),
{
    if s.len() > 0 && is_ws(s[0]) {
        trim_start(s.drop_first())
    } else {
        s
    }
}

/// `str::trim_end`.
pub open spec fn trim_end(s: Seq<char>) -> Seq<char>
    decreases s.len(),
{
    if s.len() > 0 && is_ws(s.last()) {
        trim_end(s.drop_last())
    } else {
        s
    }
}

/// `str::trim`.
pub open spec fn trim(s: Seq<char>) -> Seq<char> {
    trim_end(trim_start(s))
}

/// `str::trim_start_matches(c)` for one character: drops every leading `c`.
pub open spec fn strip_all_leading(s: Seq<char>, c: char) -> Seq<char>
    decreases s.len(),
{
    if s.len() > 0 && s[0] == c {
        strip_all_leading(s.drop_first(), c)
    } else {
        s
    }
}

/// Leading characters of the class `is_ascii_ws` removed.
pub open spec fn trim_start_ascii(s: Seq<char>) -> Seq<char>
    decreases s.len(),
{
    if s.len() > 0 && is_ascii_ws(s[0]) {
        trim_start_ascii(s.drop_first())
    } else {
        s
    }
}

/// Index of the first character that `trim_start` keeps.
pub fn trim_start_index(s: &[char]) -> (r: usize)
    ensures
        r <= s@.len(),
        trim_start(s@) == s@.subrange(r as int, s@.len() as int),
{
    let mut i: usize = 0;
    assert(s@.subrange(0, s@.len() as int) =~= s@);
    while i < s.len() && char_is_ws(s[i])
        invariant
            i <= s@.len(),
            trim_start(s@) == trim_start(s@.subrange(i as int, s@.len() as int)),
        decreases s@.len() - i,
    {
        assert(s@.subrange(i as int, s@.len() as int).drop_first() =~= s@.subrange(
            i + 1,
            s@.len() as int,
        ));
        i = i + 1;
    }
    i
}

/// Index one past the last character that `trim_end` keeps.
pub fn trim_end_index(s: &[char]) -> (r: usize)
    ensures
        r <= s@.len(),
        trim_end(s@) == s@.subrange(0, r as int),
{
    let mut i: usize = s.len();
    assert(s@.subrange(0, s@.len() as int) =~= s@);
    while i > 0 && char_is_ws(s[i - 1])
        invariant
            i <= s@.len(),
            trim_end(s@) == trim_end(s@.subrange(0, i as int)),
        decreases i,
    {
        assert(s@.subrange(0, i as int).drop_last() =~= s@.subrange(0, i - 1));
        i = i - 1;
    }
    i
}

/// `str::trim` on characters.
pub fn trim_chars(s: &[char]) -> (r: Vec<char>)
    ensures
        r@ == trim(s@),
{
    let a = trim_start_index(s);
    let t = slice_chars(s, a, s.len());
    let b = trim_end_index(t.as_slice());
    slice_chars(t.as_slice(), 0, b)
}

/// `str::trim` on a string slice.
pub fn trim_str(s: &str) -> (r: Vec<char>)
    ensures
        r@ == trim(s@),
{
    let c = str_chars(s);
    trim_chars(c.as_slice())
}

/// `str::trim_start_matches(c)`.
pub fn strip_leading_chars(s: &[char], c: char) -> (r: Vec<char>)
    ensures
        r@ == strip_all_leading(s@, c),
{
    let mut i: usize = 0;
    assert(s@.subrange(0, s@.len() as int) =~= s@);
    while i < s.len() && s[i] == c
        invariant
            i <= s@.len(),
            strip_all_leading(s@, c) == strip_all_leading(
                s@.subrange(i as int, s@.len() as int),
                c,
            ),
        decreases s@.len() - i,
    {
        assert(s@.subrange(i as int, s@.len() as int).drop_first() =~= s@.subrange(
            i + 1,
            s@.len() as int,
        ));
        i = i + 1;
    }
    slice_chars(s, i, s.len())
}

/// Index of the first character that is not ASCII whitespace.
pub fn trim_start_ascii_index(s: &[char], from: usize) -> (r: usize)
    requires
        from <= s@.len(),
    ensures
        from <= r <= s@.len(),
        trim_start_ascii(s@.subrange(from as int, s@.len() as int)) == s@.subrange(
            r as int,
            s@.len() as int,
        ),
{
    let mut i: usize = from;
    while i < s.len() && char_is_ascii_ws(s[i])
        invariant
            from <= i <= s@.len(),
            trim_start_ascii(s@.subrange(from as int, s@.len() as int)) == trim_start_ascii(
                s@.subrange(i as int, s@.len() as int),
            ),
        decreases s@.len() - i,
    {
        assert(s@.subrange(i as int, s@.len() as int).drop_first() =~= s@.subrange(
            i + 1,
            s@.len() as int,
        ));
        i = i + 1;
    }
    i
}

// ---------------------------------------------------------------------------
// Leading digits
// ---------------------------------------------------------------------------
/// The longest prefix made of ASCII digits
/// (`chars().take_while(|c| c.is_ascii_digit())`).
pub open spec fn leading_digits(s: Seq<char>) -> Seq<char>
    decreases s.len(),
{
    if s.len() > 0 && is_digit(s[0]) {
        seq![s[0]] + leading_digits(s.drop_first())
    } else {
        Seq::empty()
    }
}

pub proof fn lemma_leading_digits_shape(s: Seq<char>)
    ensures
        leading_digits(s).len() <= s.len(),
        leading_digits(s) == s.subrange(0, leading_digits(s).len() as int),
        forall|j: int| 0 <= j < leading_digits(s).len() ==> is_digit(#[trigger] s[j]),
        leading_digits(s).len() < s.len() ==> !is_digit(s[leading_digits(s).len() as int]),
    decreases s.len(),
{
    if s.len() > 0 && is_digit(s[0]) {
        lemma_leading_digits_shape(s.drop_first());
        let t = leading_digits(s.drop_first());
        assert(leading_digits(s) =~= s.subrange(0, t.len() as int + 1));
        assert forall|j: int| 0 <= j < leading_digits(s).len() implies is_digit(#[trigger] s[j]) by {
            if j > 0 {
                assert(s[j] == s.drop_first()[j - 1]);
            }
        }
    } else {
        assert(leading_digits(s) =~= s.subrange(0, 0));
    }
}

/// Number of leading ASCII digits from `from`.
pub fn count_leading_digits(s: &[char], from: usize) -> (r: usize)
    requires
        from <= s@.len(),
    ensures
        from + r <= s@.len(),
        leading_digits(s@.subrange(from as int, s@.len() as int)) == s@.subrange(
            from as int,
            from + r,
        ),
{
    let mut i: usize = from;
    while i < s.len() && char_is_digit(s[i])
        invariant
            from <= i <= s@.len(),
            leading_digits(s@.subrange(from as int, s@.len() as int)) == s@.subrange(
                from as int,
                i as int,
            ) + leading_digits(s@.subrange(i as int, s@.len() as int)),
        decreases s@.len() - i,
    {
        let ghost rest = s@.subrange(i as int, s@.len() as int);
        assert(rest.drop_first() =~= s@.subrange(i + 1, s@.len() as int));
        assert(s@.subrange(from as int, i as int) + seq![rest[0]] =~= s@.subrange(
            from as int,
            i + 1,
        ));
        assert(s@.subrange(from as int, i as int) + (seq![rest[0]] + leading_digits(
            rest.drop_first(),
        )) =~= s@.subrange(from as int, i as int) + seq![rest[0]] + leading_digits(
            rest.drop_first(),
        ));
        i = i + 1;
    }
    assert(leading_digits(s@.subrange(i as int, s@.len() as int)) =~= Seq::<char>::empty());
    assert(s@.subrange(from as int, i as int) + Seq::<char>::empty() =~= s@.subrange(
        from as int,
        i as int,
    ));
    i - from
}

// ---------------------------------------------------------------------------
// Words
// ---------------------------------------------------------------------------
/// The maximal runs of non-whitespace characters (`str::split_whitespace`).
pub open spec fn words(s: Seq<char>) -> Seq<Seq<char>>
    decreases s.len(),
{
    if s.len() == 0 {
        Seq::empty()
    } else {
        let p = words(s.drop_last());
        if is_ws(s.last()) {
            p
        } else if s.len() >= 2 && !is_ws(s[s.len() - 2]) && p.len() > 0 {
            p.drop_last().push(p.last().push(s.last()))
        } else {
            p.push(seq![s.last()])
        }
    }
}

/// `parts` joined with `sep` between consecutive parts (`[..].join(sep)`).
pub open spec fn join(parts: Seq<Seq<char>>, sep: Seq<char>) -> Seq<char>
    decreases parts.len(),
{
    if parts.len() == 0 {
        Seq::empty()
    } else if parts.len() == 1 {
        parts[0]
    } else {
        join(parts.drop_last(), sep) + sep + parts.last()
    }
}

/// The words of `s`.
pub fn split_words(s: &[char]) -> (r: Vec<Vec<char>>)
    ensures
        r@.map_values(|w: Vec<char>| w@) == words(s@),
{
    let mut out: Vec<Vec<char>> = Vec::new();
    let mut i: usize = 0;
    while i < s.len()
        invariant
            i <= s@.len(),
            out@.map_values(|w: Vec<char>| w@) == words(s@.take(i as int)),
            i > 0 && !is_ws(s@[i - 1]) ==> out@.len() > 0,
        decreases s@.len() - i,
    {
        let c = s[i];
        let ghost prev = out@.map_values(|w: Vec<char>| w@);
        let ghost t = s@.take(i + 1);
        assert(t.drop_last() =~= s@.take(i as int));
        assert(t.last() == c);
        if char_is_ws(c) {
        } else if i >= 1 && !char_is_ws(s[i - 1]) {
            assert(t[t.len() - 2] == s@[i - 1]);
            let mut last = out.pop().unwrap();
            last.push(c);
            out.push(last);
            assert(out@.map_values(|w: Vec<char>| w@) =~= prev.drop_last().push(
                prev.last().push(c),
            ));
        } else {
            let nv: Vec<char> = vec![c];
            assert(nv@ =~= seq![c]);
            out.push(nv);
            assert(out@.map_values(|w: Vec<char>| w@) =~= prev.push(seq![c]));
        }
        i = i + 1;
    }
    assert(s@.take(s@.len() as int) =~= s@);
    out
}

/// `parts` joined with `sep`.
pub fn join_parts(parts: &[Vec<char>], sep: &[char]) -> (r: Vec<char>)
    ensures
        r@ == join(parts@.map_values(|w: Vec<char>| w@), sep@),
{
    let mut out: Vec<char> = Vec::new();
    let mut i: usize = 0;
    while i < parts.len()
        invariant
            i <= parts@.len(),
            out@ == join(parts@.map_values(|w: Vec<char>| w@).take(i as int), sep@),
        decreases parts@.len() - i,
    {
        let ghost ps = parts@.map_values(|w: Vec<char>| w@);
        assert(ps.take(i + 1).drop_last() =~= ps.take(i as int));
        if i > 0 {
            append_chars(&mut out, sep);
        }
        append_chars(&mut out, parts[i].as_slice());
        proof {
            if i == 0 {
                assert(out@ =~= ps.take(1)[0]);
            }
        }
        i = i + 1;
    }
    assert(parts@.map_values(|w: Vec<char>| w@).take(parts@.len() as int) =~= parts@.map_values(
        |w: Vec<char>| w@,
    ));
    out
}

/// `split_whitespace().collect::<Vec<_>>().join(" ")`.
pub open spec fn collapse(s: Seq<char>) -> Seq<char> {
    join(words(s), seq![' '])
}

/// Whitespace runs collapsed to single spaces, with none at either end.
pub fn collapse_chars(s: &[char]) -> (r: Vec<char>)
    ensures
        r@ == collapse(s@),
{
    let ws = split_words(s);
    let sep: Vec<char> = vec![' '];
    assert(sep@ =~= seq![' ']);
    join_parts(ws.as_slice(), sep.as_slice())
}

// ---------------------------------------------------------------------------
// Splitting on a separator character
// ---------------------------------------------------------------------------
/// `str::split(c)`: the pieces between occurrences of `c` (always at least one).
pub open spec fn split_on(s: Seq<char>, c: char) -> Seq<Seq<char>>
    decreases s.len(),
{
    if s.len() == 0 {
        seq![Seq::empty()]
    } else {
        let p = split_on(s.drop_last(), c);
        if s.last() == c {
            p.push(Seq::empty())
        } else {
            p.drop_last().push(p.last().push(s.last()))
        }
    }
}

pub proof fn lemma_split_on_nonempty(s: Seq<char>, c: char)
    ensures
        split_on(s, c).len() >= 1,
    decreases s.len(),
{
    if s.len() > 0 {
        lemma_split_on_nonempty(s.drop_last(), c);
    }
}

/// The pieces of `s` between occurrences of `c`.
pub fn split_char(s: &[char], c: char) -> (r: Vec<Vec<char>>)
    ensures
        r@.map_values(|w: Vec<char>| w@) == split_on(s@, c),
{
    let mut out: Vec<Vec<char>> = Vec::new();
    out.push(Vec::new());
    assert(out@.map_values(|w: Vec<char>| w@) =~= seq![Seq::<char>::empty()]);
    assert(s@.take(0) =~= Seq::<char>::empty());
    let mut i: usize = 0;
    while i < s.len()
        invariant
            i <= s@.len(),
            out@.len() >= 1,
            out@.map_values(|w: Vec<char>| w@) == split_on(s@.take(i as int), c),
        decreases s@.len() - i,
    {
        let ghost prev = out@.map_values(|w: Vec<char>| w@);
        assert(s@.take(i + 1).drop_last() =~= s@.take(i as int));
        assert(s@.take(i + 1).last() == s@[i as int]);
        if s[i] == c {
            let nv: Vec<char> = Vec::new();
            out.push(nv);
            assert(out@.map_values(|w: Vec<char>| w@) =~= prev.push(Seq::empty()));
        } else {
            let mut last = out.pop().unwrap();
            last.push(s[i]);
            out.push(last);
            assert(out@.map_values(|w: Vec<char>| w@) =~= prev.drop_last().push(prev.last().push(s@[i as int])));
        }
        i = i + 1;
    }
    assert(s@.take(s@.len() as int) =~= s@);
    out
}

// ---------------------------------------------------------------------------
// Decimal integers
// ---------------------------------------------------------------------------
pub open spec fn digit_char(d: int) -> char {
    (('0' as u32) + d) as char
}

pub open spec fn digit_value(c: char) -> int {
    (c as u32) - ('0' as u32)
}

/// Decimal digits of a natural number, most significant first, no leading zeros.
pub open spec fn dec_nat(n: nat) -> Seq<char>
    decreases n,
{
    if n < 10 {
        seq![digit_char(n as int)]
    } else {
        dec_nat(n / 10).push(digit_char((n % 10) as int))
    }
}

/// Decimal text of an integer as `i64::to_string` writes it.
pub open spec fn dec_int(i: int) -> Seq<char> {
    if i < 0 {
        seq!['-'] + dec_nat((-i) as nat)
    } else {
        dec_nat(i as nat)
    }
}

fn digit_to_char(d: u64) -> (r: char)
    requires
        d < 10,
    ensures
        r == digit_char(d as int),
{
    let b: u8 = 48u8 + d as u8;
    b as char
}

/// Decimal digits of a `u64`.
pub fn fmt_u64(n: u64) -> (r: Vec<char>)
    ensures
        r@ == dec_nat(n as nat),
    decreases n,
{
    if n < 10 {
        let v = vec![digit_to_char(n)];
        assert(v@ =~= seq![digit_char(n as int)]);
        v
    } else {
        let mut v = fmt_u64(n / 10);
        v.push(digit_to_char(n % 10));
        v
    }
}

/// Decimal text of an `i64` (`i64::to_string`).
pub fn fmt_i64(i: i64) -> (r: Vec<char>)
    ensures
        r@ == dec_int(i as int),
{
    if i < 0 {
        let mag: u64 = if i == i64::MIN {
            9223372036854775808u64
        } else {
            (-i) as u64
        };
        let digits = fmt_u64(mag);
        let mut v: Vec<char> = vec!['-'];
        append_chars(&mut v, digits.as_slice());
        assert(v@ =~= seq!['-'] + dec_nat((-(i as int)) as nat));
        v
    } else {
        fmt_u64(i as u64)
    }
}

/// `i64::to_string`.
pub fn i64_to_string(i: i64) -> (r: String)
    ensures
        r@ == dec_int(i as int),
{
    let v = fmt_i64(i);
    string_from(v.as_slice())
}

/// Value of a sequence of ASCII digits.
pub open spec fn digits_value(s: Seq<char>) -> int
    decreases s.len(),
{
    if s.len() == 0 {
        0
    } else {
        digits_value(s.drop_last()) * 10 + digit_value(s.last())
    }
}

pub open spec fn all_digits(s: Seq<char>) -> bool {
    forall|j: int| 0 <= j < s.len() ==> is_digit(#[trigger] s[j])
}

/// What `str::parse` gives for an integer type with the given bounds:
/// an optional sign (`-` only for signed types), then at least one ASCII
/// digit, nothing else, and a value within `[min, max]`.
pub open spec fn parse_int(s: Seq<char>, signed: bool, min: int, max: int) -> Option<int> {
    let neg = s.len() > 0 && s[0] == '-' && signed;
    let pos = s.len() > 0 && s[0] == '+';
    let body = if neg || pos {
        s.drop_first()
    } else {
        s
    };
    if body.len() == 0 || !all_digits(body) {
        None
    } else {
        let v = if neg {
            -digits_value(body)
        } else {
            digits_value(body)
        };
        if min <= v <= max {
            Some(v)
        } else {
            None
        }
    }
}

/// `str::parse::<i64>()`.
pub open spec fn parse_i64(s: Seq<char>) -> Option<int> {
    parse_int(s, true, i64::MIN as int, i64::MAX as int)
}

/// `str::parse::<u16>()`.
pub open spec fn parse_u16(s: Seq<char>) -> Option<int> {
    parse_int(s, false, 0, u16::MAX as int)
}

pub proof fn lemma_digits_value_nonneg(s: Seq<char>)
    requires
        all_digits(s),
    ensures
        digits_value(s) >= 0,
    decreases s.len(),
{
    if s.len() > 0 {
        assert(all_digits(s.drop_last())) by {
            assert forall|j: int| 0 <= j < s.drop_last().len() implies is_digit(
                #[trigger] s.drop_last()[j],
            ) by {
                assert(s.drop_last()[j] == s[j]);
            }
        }
        lemma_digits_value_nonneg(s.drop_last());
        assert(is_digit(s[s.len() - 1]));
    }
}

pub proof fn lemma_digits_value_grows(s: Seq<char>, k: int)
    requires
        all_digits(s),
        0 <= k <= s.len(),
    ensures
        digits_value(s) >= digits_value(s.take(k)),
    decreases s.len(),
{
    if k < s.len() {
        assert(all_digits(s.drop_last())) by {
            assert forall|j: int| 0 <= j < s.drop_last().len() implies is_digit(
                #[trigger] s.drop_last()[j],
            ) by {
                assert(s.drop_last()[j] == s[j]);
            }
        }
        lemma_digits_value_grows(s.drop_last(), k);
        assert(s.drop_last().take(k) =~= s.take(k));
        lemma_digits_value_nonneg(s.drop_last());
        assert(is_digit(s[s.len() - 1]));
    } else {
        assert(s.take(k) =~= s);
    }
}

/// Value of the ASCII digits `s[from..]`, or `None` when one is not a digit
/// or the value exceeds `limit`.
fn digits_value_upto(s: &[char], from: usize, limit: u64) -> (r: Option<u64>)
    requires
        from <= s@.len(),
        limit <= u64::MAX / 10 - 10,
    ensures
        r matches Some(v) ==> all_digits(s@.subrange(from as int, s@.len() as int)) && v
            == digits_value(s@.subrange(from as int, s@.len() as int)) && v <= limit,
        r is None ==> !all_digits(s@.subrange(from as int, s@.len() as int)) || digits_value(
            s@.subrange(from as int, s@.len() as int),
        ) > limit,
{
    let mut acc: u64 = 0;
    let mut i: usize = from;
    let ghost body = s@.subrange(from as int, s@.len() as int);
    while i < s.len()
        invariant
            from <= i <= s@.len(),
            body == s@.subrange(from as int, s@.len() as int),
            all_digits(body.take(i - from)),
            acc == digits_value(body.take(i - from)),
            acc <= limit,
            limit <= u64::MAX / 10 - 10,
        decreases s@.len() - i,
    {
        let c = s[i];
        assert(body[i - from] == c);
        if !char_is_digit(c) {
            return None;
        }
        let d: u64 = (c as u32 - 48u32) as u64;
        assert(body.take(i - from + 1).drop_last() =~= body.take(i - from));
        assert(all_digits(body.take(i - from + 1))) by {
            assert forall|j: int| 0 <= j < body.take(i - from + 1).len() implies is_digit(
                #[trigger] body.take(i - from + 1)[j],
            ) by {
                if j < i - from {
                    assert(body.take(i - from + 1)[j] == body.take(i - from)[j]);
                }
            }
        }
        let next: u64 = acc * 10 + d;
        if next > limit {
            proof {
                if all_digits(body) {
                    lemma_digits_value_grows(body, i - from + 1);
                }
            }
            assert(all_digits(body) ==> digits_value(body) > limit);
            return None;
        }
        acc = next;
        i = i + 1;
    }
    assert(body.take(i - from) =~= body);
    Some(acc)
}

/// `str::parse` for an integer type whose range is `[-(neg_limit), pos_limit]`.
fn parse_int_chars(s: &[char], signed: bool, neg_limit: u64, pos_limit: u64) -> (r: Option<(
    bool,
    u64,
)>)
    requires
        neg_limit <= u64::MAX / 10 - 10,
        pos_limit <= u64::MAX / 10 - 10,
        !signed ==> neg_limit == 0,
    ensures
        r matches Some((neg, mag)) ==> parse_int(s@, signed, -(neg_limit as int), pos_limit as int)
            == Some(
            if neg {
                -(mag as int)
            } else {
                mag as int
            },
        ),
        r is None ==> parse_int(s@, signed, -(neg_limit as int), pos_limit as int) is None,
{
    if s.len() == 0 {
        return None;
    }
    let neg = signed && s[0] == '-';
    let pos = s[0] == '+';
    let start: usize = if neg || pos {
        1
    } else {
        0
    };
    assert(start == 1 ==> s@.subrange(1, s@.len() as int) =~= s@.drop_first());
    assert(start == 0 ==> s@.subrange(0, s@.len() as int) =~= s@);
    if start >= s.len() {
        return None;
    }
    let limit = if neg {
        neg_limit
    } else {
        pos_limit
    };
    match digits_value_upto(s, start, limit) {
        Some(v) => Some((neg, v)),
        None => None,
    }
}

/// `str::parse::<i64>()`.
pub fn parse_i64_chars(s: &[char]) -> (r: Option<i64>)
    ensures
        r matches Some(v) ==> parse_i64(s@) == Some(v as int),
        r is None ==> parse_i64(s@) is None,
{
    // the magnitude bounds exceed u64::MAX / 10 - 10, so parse in two steps
    match parse_int_chars(s, true, 999_999_999_999_999_999u64, 999_999_999_999_999_999u64) {
        Some((neg, mag)) => {
            if neg {
                Some(-(mag as i64))
            } else {
                Some(mag as i64)
            }
        },
        None => parse_i64_long(s),
    }
}

/// `str::parse::<i64>()` for inputs whose magnitude does not fit in 18 digits.
fn parse_i64_long(s: &[char]) -> (r: Option<i64>)
    requires
        parse_int(s@, true, -999_999_999_999_999_999, 999_999_999_999_999_999) is None,
    ensures
        r matches Some(v) ==> parse_i64(s@) == Some(v as int),
        r is None ==> parse_i64(s@) is None,
{
    if s.len() == 0 {
        return None;
    }
    let neg = s[0] == '-';
    let pos = s[0] == '+';
    let start: usize = if neg || pos {
        1
    } else {
        0
    };
    assert(start == 1 ==> s@.subrange(1, s@.len() as int) =~= s@.drop_first());
    assert(start == 0 ==> s@.subrange(0, s@.len() as int) =~= s@);
    if start >= s.len() {
        return None;
    }
    // value of all digits but the last, bounded by 10^18
    if s.len() - start < 2 {
        proof {
            let body = s@.subrange(start as int, s@.len() as int);
            assert(body.len() == 1);
            if all_digits(body) {
                assert(body.drop_last() =~= Seq::<char>::empty());
                assert(digits_value(Seq::<char>::empty()) == 0);
                assert(body.last() == body[0]);
                assert(is_digit(body[0]));
                assert(digits_value(body) == digit_value(body[0]));
            }
        }
        return None;
    }
    let head = slice_chars(s, 0, s.len() - 1);
    let last = s[s.len() - 1];
    if !char_is_digit(last) {
        proof {
            let body = s@.subrange(start as int, s@.len() as int);
            assert(body[body.len() - 1] == last);
        }
        return None;
    }
    match digits_value_upto(head.as_slice(), start, 999_999_999_999_999_999u64) {
        None => {
            proof {
                let body = s@.subrange(start as int, s@.len() as int);
                let hb = head@.subrange(start as int, head@.len() as int);
                assert(hb =~= body.drop_last());
                if all_digits(body) {
                    assert(all_digits(hb)) by {
                        assert forall|j: int| 0 <= j < hb.len() implies is_digit(
                            #[trigger] hb[j],
                        ) by {
                            assert(hb[j] == body[j]);
                        }
                    }
                    lemma_digits_value_nonneg(hb);
                }
            }
            None
        },
        Some(h) => {
            let d: u64 = (last as u32 - 48u32) as u64;
            let mag: u128 = (h as u128) * 10 + (d as u128);
            proof {
                let body = s@.subrange(start as int, s@.len() as int);
                let hb = head@.subrange(start as int, head@.len() as int);
                assert(hb =~= body.drop_last());
                assert(body.last() == last);
                assert(all_digits(body)) by {
                    assert forall|j: int| 0 <= j < body.len() implies is_digit(
                        #[trigger] body[j],
                    ) by {
                        if j < body.len() - 1 {
                            assert(body[j] == hb[j]);
                        }
                    }
                }
            }
            if neg {
                if mag > 9223372036854775808u128 {
                    None
                } else if mag == 9223372036854775808u128 {
                    Some(i64::MIN)
                } else {
                    Some(-(mag as i64))
                }
            } else {
                if mag > 9223372036854775807u128 {
                    None
                } else {
                    Some(mag as i64)
                }
            }
        },
    }
}

/// `str::parse::<u16>()`.
pub fn parse_u16_chars(s: &[char]) -> (r: Option<u16>)
    ensures
        r matches Some(v) ==> parse_u16(s@) == Some(v as int),
        r is None ==> parse_u16(s@) is None,
{
    match parse_int_chars(s, false, 0, 65535) {
        Some((neg, mag)) => {
            assert(!neg || mag == 0);
            Some(mag as u16)
        },
        None => None,
    }
}

} // verus!
