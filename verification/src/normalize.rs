//! Canonical form of TikTok usernames and the key that usernames are matched by.
use vstd::prelude::*;
use crate::text::{is_ws, slice_chars, string_from, trim, trim_chars, trim_end, trim_start, trim_str};

verus! {

/// What `str::to_lowercase` gives (full Unicode lowercase mapping).
pub uninterp spec fn unicode_lowercase(s: Seq<char>) -> Seq<char>;

/// `str::to_lowercase`: the Unicode lowercase mapping of the whole string.
/// Its result is named, not written out: it depends on the argument alone.
#[verifier::external_body]
fn str_to_lowercase(s: &[char]) -> (r: String)
    ensures
        r@ == unicode_lowercase(s@),
{
    s.iter().collect::<String>().to_lowercase()
}

/// `s` without one leading `c`, when it starts with `c` (`strip_prefix(c).unwrap_or(s)`).
pub open spec fn strip_one(s: Seq<char>, c: char) -> Seq<char> {
    if s.len() > 0 && s[0] == c {
        s.drop_first()
    } else {
        s
    }
}

/// The canonical spelling: trimmed, one leading `@` removed, trimmed again.
pub open spec fn canonical_spec(raw: Seq<char>) -> Seq<char> {
    trim(strip_one(trim(raw), '@'))
}

#[derive(Debug, Clone, PartialEq, Eq)]
pub struct CanonicalUsername {
    pub canonical: String,
    pub lookup_key: String,
}

#[derive(Debug, Clone, Copy, PartialEq, Eq)]
pub enum CanonicalUsernameError {
    Empty,
}

/// Canonical username and lookup key; fails with `Empty` exactly when nothing is left.
pub fn canonicalize_username(raw: &str) -> (r: Result<CanonicalUsername, CanonicalUsernameError>)
    ensures
        r is Err <==> canonical_spec(raw@).len() == 0,
        r matches Ok(c) ==> c.canonical@ == canonical_spec(raw@) && c.lookup_key@
            == unicode_lowercase(canonical_spec(raw@)),
{
    let trimmed = trim_str(raw);
    let without: Vec<char> = if trimmed.len() > 0 && trimmed[0] == '@' {
        slice_chars(trimmed.as_slice(), 1, trimmed.len())
    } else {
        trimmed
    };
    proof {
        if trim(raw@).len() > 0 && trim(raw@)[0] == '@' {
            assert(trim(raw@).subrange(1, trim(raw@).len() as int) =~= trim(raw@).drop_first());
        }
    }
    let canonical = trim_chars(without.as_slice());
    if canonical.len() == 0 {
        return Err(CanonicalUsernameError::Empty);
    }
    let lookup_key = str_to_lowercase(canonical.as_slice());
    Ok(CanonicalUsername { canonical: string_from(canonical.as_slice()), lookup_key })
}

/// The lookup key of a username, when it has a canonical form.
pub open spec fn lookup_key_spec(raw: Seq<char>) -> Option<Seq<char>> {
    if canonical_spec(raw).len() == 0 {
        None
    } else {
        Some(unicode_lowercase(canonical_spec(raw)))
    }
}

pub fn username_lookup_key(raw: &str) -> (r: Option<String>)
    ensures
        r is None <==> lookup_key_spec(raw@) is None,
        r matches Some(k) ==> lookup_key_spec(raw@) == Some(k@),
{
    match canonicalize_username(raw) {
        Ok(value) => Some(value.lookup_key),
        Err(_) => None,
    }
}

/// Two usernames match when both have a lookup key and the keys are equal.
pub open spec fn usernames_match_spec(lhs: Seq<char>, rhs: Seq<char>) -> bool {
    match (lookup_key_spec(lhs), lookup_key_spec(rhs)) {
        (Some(a), Some(b)) => a == b,
        _ => false,
    }
}

pub fn usernames_match_for_lookup(lhs: &str, rhs: &str) -> (r: bool)
    ensures
        r == usernames_match_spec(lhs@, rhs@),
{
    match (username_lookup_key(lhs), username_lookup_key(rhs)) {
        (Some(a), Some(b)) => a == b,
        _ => false,
    }
}

/// Matching by lookup key is symmetric.
pub proof fn law_usernames_match_symmetric(lhs: Seq<char>, rhs: Seq<char>)
    ensures
        usernames_match_spec(lhs, rhs) == usernames_match_spec(rhs, lhs),
{
}

/// A username with a canonical form matches itself, and a username without one matches nothing.
pub proof fn law_usernames_match_reflexive(name: Seq<char>, other: Seq<char>)
    ensures
        usernames_match_spec(name, name) <==> canonical_spec(name).len() > 0,
        canonical_spec(name).len() == 0 ==> !usernames_match_spec(name, other),
{
}

/// Canonicalizing a canonical spelling changes nothing, unless it starts with another `@`.
pub proof fn law_canonical_idempotent(raw: Seq<char>)
    requires
        canonical_spec(raw).len() > 0,
        canonical_spec(raw)[0] != '@',
    ensures
        canonical_spec(canonical_spec(raw)) == canonical_spec(raw),
{
    let c = canonical_spec(raw);
    lemma_trim_of_trimmed(strip_one(trim(raw), '@'));
    lemma_trim_of_trimmed(c);
}

/// `trim` leaves a trimmed sequence unchanged, and a trimmed nonempty
/// sequence starts and ends with non-whitespace.
pub proof fn lemma_trim_of_trimmed(s: Seq<char>)
    ensures
        trim(trim(s)) == trim(s),
        trim(s).len() > 0 ==> !is_ws(trim(s)[0]) && !is_ws(trim(s).last()),
{
    lemma_trim_start_shape(s);
    lemma_trim_end_of_trim_start(trim_start(s));
    lemma_trim_start_shape(trim(s));
    lemma_trim_end_shape(trim(s));
    lemma_trim_end_shape(trim_start(s));
}

proof fn lemma_trim_start_shape(s: Seq<char>)
    ensures
        s.len() > 0 && !is_ws(s[0]) ==> trim_start(s) == s,
        trim_start(s).len() > 0 ==> !is_ws(trim_start(s)[0]),
        trim_start(trim_start(s)) == trim_start(s),
    decreases s.len(),
{
    if s.len() > 0 && is_ws(s[0]) {
        lemma_trim_start_shape(s.drop_first());
    }
}

proof fn lemma_trim_end_shape(s: Seq<char>)
    ensures
        s.len() > 0 && !is_ws(s.last()) ==> trim_end(s) == s,
        trim_end(s).len() > 0 ==> !is_ws(trim_end(s).last()),
        trim_end(trim_end(s)) == trim_end(s),
        trim_end(s).len() <= s.len(),
        trim_end(s) == s.subrange(0, trim_end(s).len() as int),
    decreases s.len(),
{
    if s.len() > 0 && is_ws(s.last()) {
        lemma_trim_end_shape(s.drop_last());
        assert(s.drop_last().subrange(0, trim_end(s).len() as int) =~= s.subrange(
            0,
            trim_end(s).len() as int,
        ));
    } else {
        assert(s.subrange(0, s.len() as int) =~= s);
    }
}

proof fn lemma_trim_end_of_trim_start(t: Seq<char>)
    requires
        t.len() > 0 ==> !is_ws(t[0]),
    ensures
        trim_end(t).len() > 0 ==> !is_ws(trim_end(t)[0]),
        trim_start(trim_end(t)) == trim_end(t),
{
    lemma_trim_end_shape(t);
    if trim_end(t).len() > 0 {
        assert(trim_end(t)[0] == t[0]);
    }
    lemma_trim_start_shape(trim_end(t));
}

} // verus!
