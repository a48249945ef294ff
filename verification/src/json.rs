//! A plain model of JSON documents, the parser that fills it, and the
//! accessors (`get`, `as_str`, `as_i64`, ...) that the logic reads it through.
use vstd::prelude::*;
use crate::text::{chars_eq, parse_i64, parse_i64_chars, str_chars};

verus! {

/// A JSON number: its value when it is an integer that fits `i64`
/// (`Number::as_i64`), and its text as serialized (`Number::to_string`).
#[derive(Debug, Clone, PartialEq)]
pub struct JsonNumber {
    pub int_value: Option<i64>,
    pub text: String,
}

/// A JSON value. Object members are kept in the order the parser yields them.
#[derive(Debug)]
pub enum JsonValue {
    Null,
    Bool(bool),
    Number(JsonNumber),
    Str(String),
    Array(Vec<JsonValue>),
    Object(Vec<(String, JsonValue)>),
}

/// The mathematical content of a `JsonValue`.
pub enum JsonView {
    Null,
    Bool(bool),
    Number(Option<int>, Seq<char>),
    Str(Seq<char>),
    Array(Seq<JsonView>),
    Object(Seq<(Seq<char>, JsonView)>),
}

pub open spec fn jview(v: JsonValue) -> JsonView
    decreases v, 0int,
{
    match v {
        JsonValue::Null => JsonView::Null,
        JsonValue::Bool(b) => JsonView::Bool(b),
        JsonValue::Number(n) => JsonView::Number(
            match n.int_value {
                Some(i) => Some(i as int),
                None => None,
            },
            n.text@,
        ),
        JsonValue::Str(s) => JsonView::Str(s@),
        JsonValue::Array(items) => JsonView::Array(jview_items(items@)),
        JsonValue::Object(ps) => JsonView::Object(jview_members(ps@)),
    }
}

pub open spec fn jview_items(items: Seq<JsonValue>) -> Seq<JsonView>
    decreases items, 1int,
{
    if items.len() == 0 {
        Seq::empty()
    } else {
        seq![jview(items[0])] + jview_items(items.drop_first())
    }
}

pub open spec fn jview_members(ps: Seq<(String, JsonValue)>) -> Seq<(Seq<char>, JsonView)>
    decreases ps, 1int,
{
    if ps.len() == 0 {
        Seq::empty()
    } else {
        seq![(ps[0].0@, jview(ps[0].1))] + jview_members(ps.drop_first())
    }
}

#[verifier::external_type_specification]
#[verifier::external_body]
pub struct ExSerdeJsonValue(serde_json::Value);

/// The document that `serde_json::from_str::<Value>` parses from `text`, if any.
pub uninterp spec fn json_parse(text: Seq<char>) -> Option<JsonView>;

/// The message of the error that `serde_json::from_str::<Value>` reports for `text`.
pub uninterp spec fn json_parse_error(text: Seq<char>) -> Seq<char>;

/// The compact text that `Value::to_string` serializes a document to.
pub uninterp spec fn json_text(v: JsonView) -> Seq<char>;

/// Carries a `serde_json::Value` over into the model, variant by variant.
#[verifier::external_body]
fn model_of_serde(v: &serde_json::Value) -> JsonValue {
    match v {
        serde_json::Value::Null => JsonValue::Null,
        serde_json::Value::Bool(b) => JsonValue::Bool(*b),
        serde_json::Value::Number(n) => JsonValue::Number(JsonNumber { int_value: n.as_i64(), text: n.to_string() }),
        serde_json::Value::String(s) => JsonValue::Str(s.clone()),
        serde_json::Value::Array(a) => JsonValue::Array(a.iter().map(model_of_serde).collect()),
        serde_json::Value::Object(o) => JsonValue::Object(o.iter().map(|(k, v)| (k.clone(), model_of_serde(v))).collect()),
    }
}

/// Carries a model back into a `serde_json::Value`, variant by variant.
#[verifier::external_body]
fn serde_of_model(v: &JsonValue) -> serde_json::Value {
    match v {
        JsonValue::Null => serde_json::Value::Null,
        JsonValue::Bool(b) => serde_json::Value::Bool(*b),
        JsonValue::Number(n) => serde_json::from_str(&n.text).unwrap_or(serde_json::Value::Null),
        JsonValue::Str(s) => serde_json::Value::String(s.clone()),
        JsonValue::Array(a) => serde_json::Value::Array(a.iter().map(serde_of_model).collect()),
        JsonValue::Object(o) => serde_json::Value::Object(o.iter().map(|(k, v)| (k.clone(), serde_of_model(v))).collect()),
    }
}

/// `serde_json::from_str::<Value>`: the parsed document, or the parser's
/// error message. Both are named, as functions of the text alone.
#[verifier::external_body]
pub fn parse_json(text: &[char]) -> (r: Result<JsonValue, String>)
    ensures
        r is Ok <==> json_parse(text@) is Some,
        r matches Ok(v) ==> json_parse(text@) == Some(jview(v)),
        r matches Err(e) ==> e@ == json_parse_error(text@),
{
    let s: String = text.iter().collect();
    match serde_json::from_str::<serde_json::Value>(&s) {
        Ok(v) => Ok(model_of_serde(&v)),
        Err(e) => Err(e.to_string()),
    }
}

/// `Value::to_string`: compact JSON text of a document, named as a function of it.
#[verifier::external_body]
pub fn json_to_string(v: &JsonValue) -> (r: String)
    ensures
        r@ == json_text(jview(*v)),
{
    serde_of_model(v).to_string()
}

// ---------------------------------------------------------------------------
// Shape of the view
// ---------------------------------------------------------------------------
pub proof fn lemma_jview_items(items: Seq<JsonValue>)
    ensures
        jview_items(items).len() == items.len(),
        forall|i: int| 0 <= i < items.len() ==> #[trigger] jview_items(items)[i] == jview(items[i]),
    decreases items.len(),
{
    if items.len() > 0 {
        lemma_jview_items(items.drop_first());
        assert forall|i: int| 0 <= i < items.len() implies #[trigger] jview_items(items)[i] == jview(items[i]) by {
            if i > 0 {
                assert(jview_items(items)[i] == jview_items(items.drop_first())[i - 1]);
            }
        }
    }
}

pub proof fn lemma_jview_members(ps: Seq<(String, JsonValue)>)
    ensures
        jview_members(ps).len() == ps.len(),
        forall|i: int| 0 <= i < ps.len() ==> #[trigger] jview_members(ps)[i] == (ps[i].0@, jview(ps[i].1)),
    decreases ps.len(),
{
    if ps.len() > 0 {
        lemma_jview_members(ps.drop_first());
        assert forall|i: int| 0 <= i < ps.len() implies #[trigger] jview_members(ps)[i] == (ps[i].0@, jview(ps[i].1)) by {
            if i > 0 {
                assert(jview_members(ps)[i] == jview_members(ps.drop_first())[i - 1]);
            }
        }
    }
}

// ---------------------------------------------------------------------------
// Accessors
// ---------------------------------------------------------------------------
/// The value of the first member named `key`.
pub open spec fn members_get(ms: Seq<(Seq<char>, JsonView)>, key: Seq<char>) -> Option<JsonView>
    decreases ms.len(),
{
    if ms.len() == 0 {
        None
    } else if ms[0].0 == key {
        Some(ms[0].1)
    } else {
        members_get(ms.drop_first(), key)
    }
}

/// `Value::get(key)`: the member of an object, `None` for anything else.
pub open spec fn jget(v: JsonView, key: Seq<char>) -> Option<JsonView> {
    match v {
        JsonView::Object(ms) => members_get(ms, key),
        _ => None,
    }
}

/// `value[key]`: like `get`, with `Null` for a missing member.
pub open spec fn jindex(v: JsonView, key: Seq<char>) -> JsonView {
    match jget(v, key) {
        Some(x) => x,
        None => JsonView::Null,
    }
}

/// `Value::as_str`.
pub open spec fn jstr(v: JsonView) -> Option<Seq<char>> {
    match v {
        JsonView::Str(s) => Some(s),
        _ => None,
    }
}

/// `Value::as_i64`.
pub open spec fn jint(v: JsonView) -> Option<int> {
    match v {
        JsonView::Number(i, _) => i,
        _ => None,
    }
}

/// An integer, or a string that parses as one.
pub open spec fn jint_loose(v: JsonView) -> Option<int> {
    match jint(v) {
        Some(i) => Some(i),
        None => match jstr(v) {
            Some(s) => parse_i64(s),
            None => None,
        },
    }
}

/// `get` lifted over an optional value.
pub open spec fn oget(v: Option<JsonView>, key: Seq<char>) -> Option<JsonView> {
    match v {
        Some(x) => jget(x, key),
        None => None,
    }
}

pub open spec fn ostr(v: Option<JsonView>) -> Option<Seq<char>> {
    match v {
        Some(x) => jstr(x),
        None => None,
    }
}

pub open spec fn oint_loose(v: Option<JsonView>) -> Option<int> {
    match v {
        Some(x) => jint_loose(x),
        None => None,
    }
}

/// The view of an optional reference.
pub open spec fn oview(v: Option<&JsonValue>) -> Option<JsonView> {
    match v {
        Some(x) => Some(jview(*x)),
        None => None,
    }
}

/// `Value::as_object`.
pub open spec fn jmembers(v: JsonView) -> Option<Seq<(Seq<char>, JsonView)>> {
    match v {
        JsonView::Object(ms) => Some(ms),
        _ => None,
    }
}

/// `Value::as_array`.
pub open spec fn jitems(v: JsonView) -> Option<Seq<JsonView>> {
    match v {
        JsonView::Array(xs) => Some(xs),
        _ => None,
    }
}

/// `Value::as_object`.
pub fn as_object(v: &JsonValue) -> (r: Option<&Vec<(String, JsonValue)>>)
    ensures
        match r {
            Some(ps) => jmembers(jview(*v)) == Some(jview_members(ps@)),
            None => jmembers(jview(*v)) is None,
        },
{
    match v {
        JsonValue::Object(ps) => Some(ps),
        _ => None,
    }
}

/// `Value::as_array`.
pub fn as_array(v: &JsonValue) -> (r: Option<&Vec<JsonValue>>)
    ensures
        match r {
            Some(xs) => jitems(jview(*v)) == Some(jview_items(xs@)),
            None => jitems(jview(*v)) is None,
        },
{
    match v {
        JsonValue::Array(xs) => Some(xs),
        _ => None,
    }
}

/// `Value::is_null`.
pub fn is_null(v: &JsonValue) -> (r: bool)
    ensures
        r == (jview(*v) is Null),
{
    match v {
        JsonValue::Null => true,
        _ => false,
    }
}

/// `Value::get(key)`.
pub fn get<'a>(v: &'a JsonValue, key: &str) -> (r: Option<&'a JsonValue>)
    ensures
        oview(r) == jget(jview(*v), key@),
{
    match v {
        JsonValue::Object(ps) => {
            let ghost ms = jview_members(ps@);
            proof {
                lemma_jview_members(ps@);
                assert(*v == JsonValue::Object(*ps));
                assert(jview(*v) == JsonView::Object(ms));
            }
            let kc = str_chars(key);
            let mut i: usize = 0;
            assert(ms.subrange(0, ms.len() as int) =~= ms);
            while i < ps.len()
                invariant
                    i <= ps@.len(),
                    ms == jview_members(ps@),
                    jview(*v) == JsonView::Object(ms),
                    ms.len() == ps@.len(),
                    kc@ == key@,
                    forall|j: int| 0 <= j < ps@.len() ==> #[trigger] ms[j] == (ps@[j].0@, jview(ps@[j].1)),
                    members_get(ms, key@) == members_get(ms.subrange(i as int, ms.len() as int), key@),
                decreases ps@.len() - i,
            {
                assert(ms.subrange(i as int, ms.len() as int).drop_first() =~= ms.subrange(i + 1, ms.len() as int));
                assert(ms.subrange(i as int, ms.len() as int)[0] == ms[i as int]);
                let k: &String = &ps[i].0;
                if chars_eq(str_chars(k.as_str()).as_slice(), kc.as_slice()) {
                    assert(ms[i as int].0 == key@);
                    assert(members_get(ms, key@) == Some(ms[i as int].1));
                    let found: &JsonValue = &ps[i].1;
                    assert(*found == ps@[i as int].1);
                    return Some(found);
                }
                i = i + 1;
            }
            None
        },
        _ => None,
    }
}

/// `get` on an optional value.
pub fn oget_exec<'a>(v: Option<&'a JsonValue>, key: &str) -> (r: Option<&'a JsonValue>)
    ensures
        oview(r) == oget(oview(v), key@),
{
    match v {
        Some(x) => get(x, key),
        None => None,
    }
}

/// `Value::as_str`.
pub fn as_str(v: &JsonValue) -> (r: Option<&str>)
    ensures
        match r {
            Some(s) => jstr(jview(*v)) == Some(s@),
            None => jstr(jview(*v)) is None,
        },
{
    match v {
        JsonValue::Str(s) => Some(s.as_str()),
        _ => None,
    }
}

/// `as_str` on an optional value.
pub fn ostr_exec<'a>(v: Option<&'a JsonValue>) -> (r: Option<&'a str>)
    ensures
        match r {
            Some(s) => ostr(oview(v)) == Some(s@),
            None => ostr(oview(v)) is None,
        },
{
    match v {
        Some(x) => as_str(x),
        None => None,
    }
}

/// `Value::as_i64`.
pub fn as_i64(v: &JsonValue) -> (r: Option<i64>)
    ensures
        match r {
            Some(i) => jint(jview(*v)) == Some(i as int),
            None => jint(jview(*v)) is None,
        },
{
    match v {
        JsonValue::Number(n) => n.int_value,
        _ => None,
    }
}

/// An `i64` read from a number or from a string holding one.
pub fn value_as_i64(v: &JsonValue) -> (r: Option<i64>)
    ensures
        match r {
            Some(i) => jint_loose(jview(*v)) == Some(i as int),
            None => jint_loose(jview(*v)) is None,
        },
{
    if let Some(n) = as_i64(v) {
        return Some(n);
    }
    match as_str(v) {
        Some(text) => parse_i64_chars(str_chars(text).as_slice()),
        None => None,
    }
}

/// `value_as_i64` on an optional value.
pub fn oint_loose_exec(v: Option<&JsonValue>) -> (r: Option<i64>)
    ensures
        match r {
            Some(i) => oint_loose(oview(v)) == Some(i as int),
            None => oint_loose(oview(v)) is None,
        },
{
    match v {
        Some(x) => value_as_i64(x),
        None => None,
    }
}

} // verus!
