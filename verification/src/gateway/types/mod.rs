//! The forms that requests and replies take between protocols.
use vstd::prelude::*;

use crate::json::{Fields, Json, JsonView};
use crate::json_text::{deepest, json_of_text, keys_distinct, reads_back, text_of_json};
use crate::text::{blank, is_blank};
use crate::types::Protocol;

pub mod canonical;
pub mod canonical_request;
pub mod message;
pub mod request;
pub mod response;
pub mod stream;

verus! {

/// A JSON text kept exactly as it was written.
#[derive(Debug, PartialEq, Default)]
pub struct RawJson {
    pub text: String,
}

impl View for RawJson {
    type V = Seq<char>;

    open spec fn view(&self) -> Seq<char> {
        self.text@
    }
}

impl DeepView for RawJson {
    type V = Seq<char>;

    open spec fn deep_view(&self) -> Seq<char> {
        self.text@
    }
}

/// The value a raw text stands for: an empty object where it is blank.
pub open spec fn raw_value(raw: Seq<char>) -> Option<JsonView> {
    if blank(raw) {
        Some(JsonView::Object(Seq::empty()))
    } else {
        json_of_text(raw)
    }
}

impl RawJson {
    /// Keeps a text.
    pub fn new(raw: &str) -> (r: Self)
        ensures
            r@ == raw@,
    {
        RawJson { text: raw.to_owned() }
    }

    /// Writes a value.
    pub fn from_value(value: &Json) -> (r: Self)
        ensures
            r@ == text_of_json(value@),
            reads_back(value@, deepest()) ==> raw_value(r@) == Some(value@),
    {
        RawJson { text: value.to_text() }
    }

    /// Reads the text. A blank one is an empty object; one that is not JSON is
    /// nothing.
    pub fn parse(&self) -> (r: Option<Json>)
        ensures
            r.deep_view() == raw_value(self@),
            r matches Some(value) ==> keys_distinct(value@),
    {
        if is_blank(self.text.as_str()) {
            Some(Json::Object(Fields::new()))
        } else {
            Json::parse(self.text.as_str())
        }
    }

    /// The text.
    pub fn as_str(&self) -> (r: &str)
        ensures
            r@ == self@,
    {
        self.text.as_str()
    }
}

/// What a request or reply was read from, before anything was made of it.
#[derive(Debug, PartialEq)]
pub struct IngestSource {
    pub protocol: Protocol,
    pub body: Json,
}

/// The value of a [`IngestSource`].
#[verifier::ext_equal]
pub struct IngestSourceView {
    pub protocol: Protocol,
    pub body: JsonView,
}

impl View for IngestSource {
    type V = IngestSourceView;

    open spec fn view(&self) -> IngestSourceView {
        IngestSourceView {
            protocol: self.protocol,
            body: self.body@,
        }
    }
}

impl DeepView for IngestSource {
    type V = IngestSourceView;

    open spec fn deep_view(&self) -> IngestSourceView {
        self@
    }
}

/// Arguments that are blank are an empty object; any others are what their text holds.
pub proof fn law_what_a_raw_text_stands_for(raw: Seq<char>)
    ensures
        raw.len() == 0 ==> raw_value(raw) == Some(JsonView::Object(Seq::empty())),
        (forall|i: int| 0 <= i < raw.len() ==> crate::text::white(#[trigger] raw[i]))
            ==> raw_value(raw) == Some(JsonView::Object(Seq::empty())),
        (exists|i: int| 0 <= i < raw.len() && !crate::text::white(#[trigger] raw[i])) ==> raw_value(
            raw,
        ) == json_of_text(raw),
{
}

} // verus!
