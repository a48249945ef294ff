//! Clip captions: the generated caption text and the validation of caption updates.
use vstd::prelude::*;
use crate::session::{opt_seq, opt_str_seq};
use crate::text::{
    append_chars, append_str, chars_eq_str, collapse, collapse_chars, join, join_parts, split_words,
    str_chars, string_from, string_of, strip_all_leading, trim, trim_chars, trim_str, words,
};

verus! {

/// Whitespace runs collapsed to single spaces (`split_whitespace().join(" ")`).
pub fn collapse_spaces(value: &str) -> (r: String)
    ensures
        r@ == collapse(value@),
{
    let c = str_chars(value);
    let out = collapse_chars(c.as_slice());
    string_from(out.as_slice())
}

/// The first `max_words` words, joined by single spaces.
pub open spec fn snippet(s: Seq<char>, max_words: nat) -> Seq<char> {
    let ws = words(s);
    join(
        if ws.len() <= max_words {
            ws
        } else {
            ws.take(max_words as int)
        },
        seq![' '],
    )
}

/// The first `max_words` words of a transcript.
pub fn transcript_snippet(transcript_text: &str, max_words: usize) -> (r: String)
    ensures
        r@ == snippet(transcript_text@, max_words as nat),
{
    let c = str_chars(transcript_text);
    let mut ws = split_words(c.as_slice());
    let ghost all = ws@.map_values(|w: Vec<char>| w@);
    if ws.len() > max_words {
        ws.truncate(max_words);
        assert(ws@.map_values(|w: Vec<char>| w@) =~= all.take(max_words as int));
    }
    let sep: Vec<char> = vec![' '];
    assert(sep@ =~= seq![' ']);
    let out = join_parts(ws.as_slice(), sep.as_slice());
    string_from(out.as_slice())
}

/// `text`, or `fallback` when it is empty.
pub open spec fn or_default_text(text: Seq<char>, fallback: Seq<char>) -> Seq<char> {
    if text.len() == 0 {
        fallback
    } else {
        text
    }
}

/// `{title} | {first 14 words of the transcript} | @{user}`, with fallbacks for empty parts.
pub open spec fn caption_spec(username: Seq<char>, transcript: Seq<char>, title: Seq<char>) -> Seq<char> {
    let user = or_default_text(trim(strip_all_leading(collapse(username), '@')), "creator"@);
    let t = or_default_text(trim(collapse(title)), "Live clip"@);
    let tr = or_default_text(snippet(transcript, 14), "Highlights from the stream"@);
    t + " | "@ + tr + " | @"@ + user
}

fn or_default_chars(text: Vec<char>, fallback: &str) -> (r: Vec<char>)
    ensures
        r@ == or_default_text(text@, fallback@),
{
    if text.len() == 0 {
        str_chars(fallback)
    } else {
        text
    }
}

pub fn generate_caption_text(username: &str, transcript_text: &str, clip_title: &str) -> (r: String)
    ensures
        r@ == caption_spec(username@, transcript_text@, clip_title@),
{
    let uc = collapse_chars(str_chars(username).as_slice());
    let u1 = crate::text::strip_leading_chars(uc.as_slice(), '@');
    let user = or_default_chars(trim_chars(u1.as_slice()), "creator");
    let tc = collapse_chars(str_chars(clip_title).as_slice());
    let title = or_default_chars(trim_chars(tc.as_slice()), "Live clip");
    let snip = transcript_snippet(transcript_text, 14);
    let transcript = or_default_chars(str_chars(snip.as_str()), "Highlights from the stream");
    let mut out: Vec<char> = Vec::new();
    append_chars(&mut out, title.as_slice());
    append_str(&mut out, " | ");
    append_chars(&mut out, transcript.as_slice());
    append_str(&mut out, " | @");
    append_chars(&mut out, user.as_slice());
    string_from(out.as_slice())
}

/// The caption statuses a clip may hold.
pub open spec fn valid_caption_status(s: Seq<char>) -> bool {
    s == "pending"@ || s == "generating"@ || s == "completed"@ || s == "failed"@
}

/// A caption update ready to be written: trimmed status, and text and error
/// trimmed with blanks dropped.
pub struct CaptionUpdate {
    pub caption_text: Option<String>,
    pub caption_status: String,
    pub caption_error: Option<String>,
}

/// `Some(trim(s))` unless that is empty.
pub open spec fn norm_opt(o: Option<Seq<char>>) -> Option<Seq<char>> {
    match o {
        Some(s) => if trim(s).len() > 0 {
            Some(trim(s))
        } else {
            None
        },
        None => None,
    }
}

/// What `validate_caption_update` decides.
pub open spec fn caption_update_spec(text: Option<Seq<char>>, status: Seq<char>, error: Option<Seq<char>>) -> Result<(Option<Seq<char>>, Seq<char>, Option<Seq<char>>), Seq<char>> {
    let st = trim(status);
    if !valid_caption_status(st) {
        Err("Invalid caption_status: "@ + status)
    } else if st == "completed"@ && norm_opt(text) is None {
        Err("caption_text is required when caption_status is completed"@)
    } else {
        Ok((norm_opt(text), st, norm_opt(error)))
    }
}

fn norm_opt_exec(o: Option<&str>) -> (r: Option<String>)
    ensures
        opt_seq(r) == norm_opt(opt_str_seq(o)),
{
    match o {
        Some(s) => {
            let t = trim_str(s);
            if t.len() > 0 {
                Some(string_from(t.as_slice()))
            } else {
                None
            }
        },
        None => None,
    }
}

/// Validates and normalizes a caption update before it is written.
pub fn validate_caption_update(caption_text: Option<&str>, caption_status: &str, caption_error: Option<&str>) -> (r: Result<CaptionUpdate, String>)
    ensures
        match r {
            Ok(u) => caption_update_spec(opt_str_seq(caption_text), caption_status@, opt_str_seq(caption_error))
                == Ok::<_, Seq<char>>((opt_seq(u.caption_text), u.caption_status@, opt_seq(u.caption_error))),
            Err(e) => caption_update_spec(opt_str_seq(caption_text), caption_status@, opt_str_seq(caption_error))
                == Err::<(Option<Seq<char>>, Seq<char>, Option<Seq<char>>), _>(e@),
        },
{
    let st = trim_str(caption_status);
    let valid = chars_eq_str(st.as_slice(), "pending") || chars_eq_str(st.as_slice(), "generating")
        || chars_eq_str(st.as_slice(), "completed") || chars_eq_str(st.as_slice(), "failed");
    if !valid {
        return Err(crate::check_live::prefixed("Invalid caption_status: ", str_chars(caption_status).as_slice()));
    }
    let text = norm_opt_exec(caption_text);
    let error = norm_opt_exec(caption_error);
    if chars_eq_str(st.as_slice(), "completed") && text.is_none() {
        return Err(string_of("caption_text is required when caption_status is completed"));
    }
    Ok(CaptionUpdate { caption_text: text, caption_status: string_from(st.as_slice()), caption_error: error })
}

/// What `check_generate_caption_input` decides: a positive clip id and a non-blank username.
pub open spec fn generate_input_error(clip_id: int, username: Seq<char>) -> Option<Seq<char>> {
    if clip_id <= 0 {
        Some("clip_id must be positive"@)
    } else if trim(username).len() == 0 {
        Some("username is required"@)
    } else {
        None
    }
}

pub fn check_generate_caption_input(clip_id: i64, username: &str) -> (r: Option<String>)
    ensures
        opt_seq(r) == generate_input_error(clip_id as int, username@),
{
    if clip_id <= 0 {
        return Some(string_of("clip_id must be positive"));
    }
    if trim_str(username).len() == 0 {
        return Some(string_of("username is required"));
    }
    None
}

} // verus!
