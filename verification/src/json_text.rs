//! JSON text, read and written by `serde_json`.
use serde_json::Value;
use vstd::prelude::*;

use crate::json::{distinct, Fields, Json, JsonView, Number, NumberView};
use crate::text::blank;

verus! {

/// A value in the form `serde_json` holds it.
#[verifier::external_type_specification]
#[verifier::external_body]
pub struct ExValue(Value);

/// What `serde_json::from_str` reads from a text; nothing where it refuses it.
pub uninterp spec fn json_of_text(text: Seq<char>) -> Option<JsonView>;

/// What `serde_json::Value::to_string` writes for a value.
pub uninterp spec fn text_of_json(value: JsonView) -> Seq<char>;

/// No object within the value names a field twice.
pub open spec fn keys_distinct(value: JsonView) -> bool
    decreases value,
{
    match value {
        JsonView::Array(items) => forall|i: int|
            0 <= i < items.len() ==> keys_distinct(#[trigger] items[i]),
        JsonView::Object(fields) => {
            &&& distinct(fields)
            &&& forall|i: int| 0 <= i < fields.len() ==> keys_distinct((#[trigger] fields[i]).1)
        },
        _ => true,
    }
}

/// A value that survives being written as text and read again: no object names
/// a field twice, a negative number is below zero, a decimal is spelled as the
/// writer spells it, and arrays and objects nest at most `depth` deep.
pub open spec fn reads_back(value: JsonView, depth: nat) -> bool
    decreases value,
{
    match value {
        JsonView::Number(NumberView::Negative(n)) => n < 0,
        JsonView::Number(NumberView::Decimal(text)) => json_of_text(text) == Some(value),
        JsonView::Array(items) => depth > 0 && forall|i: int|
            0 <= i < items.len() ==> reads_back(#[trigger] items[i], (depth - 1) as nat),
        JsonView::Object(fields) => {
            &&& depth > 0
            &&& distinct(fields)
            &&& forall|i: int|
                0 <= i < fields.len() ==> reads_back(
                    (#[trigger] fields[i]).1,
                    (depth - 1) as nat,
                )
        },
        _ => true,
    }
}

/// How deep a text may nest before `serde_json` refuses it.
pub open spec fn deepest() -> nat {
    127
}

/// The value in this library's form, one variant for each of `serde_json`'s and
/// each array and object in its own order. A number that is neither a `u64` nor
/// an `i64` is kept as the text `serde_json` writes for it.
#[verifier::external_body]
fn from_value(value: Value) -> Json {
    match value {
        Value::Null => Json::Null,
        Value::Bool(b) => Json::Bool(b),
        Value::Number(n) => Json::Number(match (n.as_u64(), n.as_i64()) {
            (Some(n), _) => Number::Unsigned(n),
            (None, Some(n)) => Number::Negative(n),
            (None, None) => Number::Decimal(n.to_string()),
        }),
        Value::String(s) => Json::String(s),
        Value::Array(v) => Json::Array(v.into_iter().map(from_value).collect()),
        Value::Object(m) => Json::Object(
            Fields { entries: m.into_iter().map(|(k, v)| (k, from_value(v))).collect() },
        ),
    }
}

/// The value in `serde_json`'s form. A decimal whose text is not a number has
/// none and becomes `null`.
#[verifier::external_body]
fn to_value(value: &Json) -> Value {
    match value {
        Json::Null => Value::Null,
        Json::Bool(b) => Value::Bool(*b),
        Json::Number(Number::Unsigned(n)) => Value::from(*n),
        Json::Number(Number::Negative(n)) => Value::from(*n),
        Json::Number(Number::Decimal(text)) => text.parse().map_or(Value::Null, Value::Number),
        Json::String(s) => Value::String(s.clone()),
        Json::Array(v) => Value::Array(v.iter().map(to_value).collect()),
        Json::Object(f) => f.entries.iter().map(|(k, v)| (k.clone(), to_value(v))).collect(),
    }
}

/// `serde_json::from_str`, into a `serde_json::Value`. The result depends on the
/// text alone and has the name [`json_of_text`]; an object in it holds each
/// field once, since `serde_json` collects objects in a map.
#[verifier::external_body]
pub(crate) fn read_text(text: &str) -> (r: Option<Json>)
    ensures
        r.deep_view() == json_of_text(text@),
        r matches Some(value) ==> keys_distinct(value@),
{
    serde_json::from_str::<Value>(text).ok().map(from_value)
}

/// `serde_json::Value::to_string`. The result depends on the value alone and has
/// the name [`text_of_json`]; it is never blank, and `serde_json::from_str` reads
/// the value back from it, for a value that [`reads_back`].
#[verifier::external_body]
pub(crate) fn write_text(value: &Json) -> (r: String)
    ensures
        r@ == text_of_json(value@),
        !blank(r@),
        reads_back(value@, deepest()) ==> json_of_text(r@) == Some(value@),
{
    to_value(value).to_string()
}

impl Json {
    /// Reads a JSON text.
    pub fn parse(text: &str) -> (r: Option<Json>)
        ensures
            r.deep_view() == json_of_text(text@),
            r matches Some(value) ==> keys_distinct(value@),
    {
        read_text(text)
    }

    /// Writes the value as JSON text.
    pub fn to_text(&self) -> (r: String)
        ensures
            r@ == text_of_json(self@),
            !blank(r@),
            reads_back(self@, deepest()) ==> json_of_text(r@) == Some(self@),
    {
        write_text(self)
    }
}

} // verus!
