//! The canonical JSON form of a streamed reply.
use vstd::prelude::*;

use crate::json::{
    assigned, count, fields2, group_find, json_string, models, no_fields, object2, opt_string,
    string, Fields, FieldsView, Json, JsonView,
};
use crate::text::same_text;

use super::message::Role;
use super::response::{FinishReason, Usage, UsageView};
use super::stream::{
    ChatResponseChunk, ChatResponseChunkView, CompletionDelta, CompletionDeltaView, ContentDelta,
    ContentDeltaView, MessageDelta, MessageDeltaView,
};

verus! {

// ---------------------------------------------------------------------------
// Fields that may be absent
// ---------------------------------------------------------------------------

/// The text in a field, if there is any; nothing where the field holds something
/// else.
pub open spec fn held_text(value: JsonView, key: Seq<char>) -> Option<Option<Seq<char>>> {
    match value.get(key) {
        None => Some(None),
        Some(JsonView::Null) => Some(None),
        Some(JsonView::String(text)) => Some(Some(text)),
        Some(_) => None,
    }
}

/// Reads the text in a field, if there is any.
pub fn read_text(value: &Json, key: &str) -> (r: Option<Option<String>>)
    ensures
        r.deep_view() == held_text(value@, key@),
{
    match value.get(key) {
        None => Some(None),
        Some(Json::Null) => Some(None),
        Some(Json::String(text)) => Some(Some(text.clone())),
        Some(_) => None,
    }
}

/// The count in a field, if there is one; nothing where the field holds something
/// else.
pub open spec fn held_count(value: JsonView, key: Seq<char>) -> Option<Option<u64>> {
    match value.get(key) {
        None => Some(None),
        Some(JsonView::Null) => Some(None),
        Some(held) => match held.as_u64() {
            Some(n) => Some(Some(n)),
            None => None,
        },
    }
}

fn read_count(value: &Json, key: &str) -> (r: Option<Option<u64>>)
    ensures
        r == held_count(value@, key@),
{
    match value.get(key) {
        None => Some(None),
        Some(Json::Null) => Some(None),
        Some(held) => match held.as_u64() {
            Some(n) => Some(Some(n)),
            None => None,
        },
    }
}

/// The extensions a value holds; nothing where they are no object.
pub open spec fn held_ext(value: JsonView) -> Option<FieldsView> {
    match value.get("ext"@) {
        None => Some(no_fields()),
        Some(JsonView::Object(fields)) => Some(fields),
        Some(_) => None,
    }
}

/// Reads the extensions a value holds.
pub fn read_ext(value: &Json) -> (r: Option<Fields>)
    ensures
        r.deep_view() == held_ext(value@),
{
    match value.get("ext") {
        None => Some(Fields::new()),
        Some(Json::Object(fields)) => Some(fields.clone()),
        Some(_) => None,
    }
}

/// Extensions, where there are any.
pub open spec fn ext_form(ext: FieldsView) -> Option<JsonView> {
    if ext.len() == 0 {
        None
    } else {
        Some(JsonView::Object(ext))
    }
}

/// Writes extensions, where there are any.
pub fn write_ext(ext: &Fields) -> (r: Option<Json>)
    ensures
        r.deep_view() == ext_form(ext@),
{
    if ext.len() == 0 {
        None
    } else {
        Some(Json::Object(ext.clone()))
    }
}

/// A count that may be absent, as a JSON number that may be.
pub open spec fn count_form(n: Option<u64>) -> Option<JsonView> {
    match n {
        Some(n) => Some(count(n)),
        None => None,
    }
}

fn write_count(n: Option<u64>) -> (r: Option<Json>)
    ensures
        r.deep_view() == count_form(n),
{
    match n {
        Some(n) => Some(Json::count(n)),
        None => None,
    }
}

/// Items, where there are any.
pub open spec fn items_form(items: Seq<JsonView>) -> Option<JsonView> {
    if items.len() == 0 {
        None
    } else {
        Some(JsonView::Array(items))
    }
}

/// Writes items, where there are any.
pub fn write_items(items: Vec<Json>) -> (r: Option<Json>)
    ensures
        r.deep_view() == items_form(models(items@)),
{
    if items.len() == 0 {
        None
    } else {
        Some(Json::Array(items))
    }
}

// ---------------------------------------------------------------------------
// Words
// ---------------------------------------------------------------------------

/// The word for a role.
pub open spec fn role_word(role: Role) -> Seq<char> {
    match role {
        Role::System => "system"@,
        Role::User => "user"@,
        Role::Assistant => "assistant"@,
        Role::Tool => "tool"@,
    }
}

/// The word for a role.
pub fn role_name(role: Role) -> (r: &'static str)
    ensures
        r@ == role_word(role),
{
    match role {
        Role::System => "system",
        Role::User => "user",
        Role::Assistant => "assistant",
        Role::Tool => "tool",
    }
}

/// The role that a word stands for.
pub open spec fn role_of_word(word: Seq<char>) -> Option<Role> {
    if word == "system"@ {
        Some(Role::System)
    } else if word == "user"@ {
        Some(Role::User)
    } else if word == "assistant"@ {
        Some(Role::Assistant)
    } else if word == "tool"@ {
        Some(Role::Tool)
    } else {
        None
    }
}

/// Reads the word for a role.
pub fn find_role(word: &str) -> (r: Option<Role>)
    ensures
        r == role_of_word(word@),
{
    if same_text(word, "system") {
        Some(Role::System)
    } else if same_text(word, "user") {
        Some(Role::User)
    } else if same_text(word, "assistant") {
        Some(Role::Assistant)
    } else if same_text(word, "tool") {
        Some(Role::Tool)
    } else {
        None
    }
}

/// A field's role, if there is one; nothing where the field holds something else.
pub open spec fn held_role(value: JsonView, key: Seq<char>) -> Option<Option<Role>> {
    match held_text(value, key) {
        Some(Some(word)) => match role_of_word(word) {
            Some(role) => Some(Some(role)),
            None => None,
        },
        Some(None) => Some(None),
        None => None,
    }
}

fn read_role(value: &Json, key: &str) -> (r: Option<Option<Role>>)
    ensures
        r == held_role(value@, key@),
{
    match read_text(value, key) {
        Some(Some(word)) => match find_role(word.as_str()) {
            Some(role) => Some(Some(role)),
            None => None,
        },
        Some(None) => Some(None),
        None => None,
    }
}

/// The word of a role that may be absent.
pub open spec fn role_form(role: Option<Role>) -> Option<JsonView> {
    match role {
        Some(role) => Some(string(role_word(role))),
        None => None,
    }
}

fn write_role(role: Option<Role>) -> (r: Option<Json>)
    ensures
        r.deep_view() == role_form(role),
{
    match role {
        Some(role) => Some(Json::text(role_name(role))),
        None => None,
    }
}

/// The word for a reason.
pub open spec fn reason_word(reason: FinishReason) -> Seq<char> {
    match reason {
        FinishReason::Stop => "stop"@,
        FinishReason::Length => "length"@,
        FinishReason::ToolCalls => "tool_calls"@,
        FinishReason::ContentFilter => "content_filter"@,
        FinishReason::Other => "other"@,
    }
}

fn reason_name(reason: FinishReason) -> (r: &'static str)
    ensures
        r@ == reason_word(reason),
{
    match reason {
        FinishReason::Stop => "stop",
        FinishReason::Length => "length",
        FinishReason::ToolCalls => "tool_calls",
        FinishReason::ContentFilter => "content_filter",
        FinishReason::Other => "other",
    }
}

/// The reason that a word stands for.
pub open spec fn reason_of_word(word: Seq<char>) -> Option<FinishReason> {
    if word == "stop"@ {
        Some(FinishReason::Stop)
    } else if word == "length"@ {
        Some(FinishReason::Length)
    } else if word == "tool_calls"@ {
        Some(FinishReason::ToolCalls)
    } else if word == "content_filter"@ {
        Some(FinishReason::ContentFilter)
    } else if word == "other"@ {
        Some(FinishReason::Other)
    } else {
        None
    }
}

fn find_reason(word: &str) -> (r: Option<FinishReason>)
    ensures
        r == reason_of_word(word@),
{
    if same_text(word, "stop") {
        Some(FinishReason::Stop)
    } else if same_text(word, "length") {
        Some(FinishReason::Length)
    } else if same_text(word, "tool_calls") {
        Some(FinishReason::ToolCalls)
    } else if same_text(word, "content_filter") {
        Some(FinishReason::ContentFilter)
    } else if same_text(word, "other") {
        Some(FinishReason::Other)
    } else {
        None
    }
}

/// A field's reason, if there is one; nothing where the field holds something else.
pub open spec fn held_reason(value: JsonView, key: Seq<char>) -> Option<Option<FinishReason>> {
    match held_text(value, key) {
        Some(Some(word)) => match reason_of_word(word) {
            Some(reason) => Some(Some(reason)),
            None => None,
        },
        Some(None) => Some(None),
        None => None,
    }
}

fn read_reason(value: &Json, key: &str) -> (r: Option<Option<FinishReason>>)
    ensures
        r == held_reason(value@, key@),
{
    match read_text(value, key) {
        Some(Some(word)) => match find_reason(word.as_str()) {
            Some(reason) => Some(Some(reason)),
            None => None,
        },
        Some(None) => Some(None),
        None => None,
    }
}

/// The word of a reason that may be absent.
pub open spec fn reason_form(reason: Option<FinishReason>) -> Option<JsonView> {
    match reason {
        Some(reason) => Some(string(reason_word(reason))),
        None => None,
    }
}

fn write_reason(reason: Option<FinishReason>) -> (r: Option<Json>)
    ensures
        r.deep_view() == reason_form(reason),
{
    match reason {
        Some(reason) => Some(Json::text(reason_name(reason))),
        None => None,
    }
}

// ---------------------------------------------------------------------------
// Fragments
// ---------------------------------------------------------------------------

/// A fragment in JSON. What is absent is not written; what no variant knows is
/// written as it is.
pub open spec fn delta_form(delta: ContentDeltaView) -> JsonView {
    match delta {
        ContentDeltaView::Text { text } => JsonView::Object(
            fields2("type"@, string("text"@), "text"@, string(text)),
        ),
        ContentDeltaView::Reasoning { text, provenance } => JsonView::Object(
            assigned(
                fields2("type"@, string("reasoning"@), "text"@, string(text)),
                "provenance"@,
                opt_string(provenance),
            ),
        ),
        ContentDeltaView::ToolCall { index, id, kind, name, arguments } => {
            let head = fields2("type"@, string("tool_call"@), "index"@, count(index as u64));
            let known = assigned(assigned(head, "id"@, opt_string(id)), "kind"@, opt_string(kind));
            JsonView::Object(
                assigned(
                    assigned(known, "name"@, opt_string(name)),
                    "arguments"@,
                    opt_string(arguments),
                ),
            )
        },
        ContentDeltaView::Unknown(value) => value,
    }
}

/// A slice of an answer in JSON.
pub open spec fn text_in(value: JsonView) -> Option<ContentDeltaView> {
    match value.str_at("text"@) {
        Some(text) => Some(ContentDeltaView::Text { text }),
        None => None,
    }
}

/// A slice of a chain of thought in JSON.
pub open spec fn reasoning_in(value: JsonView) -> Option<ContentDeltaView> {
    match (value.str_at("text"@), held_text(value, "provenance"@)) {
        (Some(text), Some(provenance)) => Some(ContentDeltaView::Reasoning { text, provenance }),
        _ => None,
    }
}

/// A slice of a tool call in JSON.
pub open spec fn call_in(value: JsonView) -> Option<ContentDeltaView> {
    match (
        value.u32_at("index"@),
        held_text(value, "id"@),
        held_text(value, "kind"@),
        held_text(value, "name"@),
        held_text(value, "arguments"@),
    ) {
        (Some(index), Some(id), Some(kind), Some(name), Some(arguments)) => Some(
            ContentDeltaView::ToolCall { index, id, kind, name, arguments },
        ),
        _ => None,
    }
}

/// The fragment that a JSON value is; one that no variant knows is kept whole.
pub open spec fn delta_in(value: JsonView) -> ContentDeltaView {
    let tag = value.str_at("type"@);
    let known = if tag == Some("text"@) {
        text_in(value)
    } else if tag == Some("reasoning"@) {
        reasoning_in(value)
    } else if tag == Some("tool_call"@) {
        call_in(value)
    } else {
        None
    };
    match known {
        Some(delta) => delta,
        None => ContentDeltaView::Unknown(value),
    }
}

fn read_slice(value: &Json) -> (r: Option<ContentDelta>)
    ensures
        r.deep_view() == text_in(value@),
{
    match value.str_at("text") {
        Some(text) => Some(ContentDelta::Text { text }),
        None => None,
    }
}

fn read_reasoning(value: &Json) -> (r: Option<ContentDelta>)
    ensures
        r.deep_view() == reasoning_in(value@),
{
    match (value.str_at("text"), read_text(value, "provenance")) {
        (Some(text), Some(provenance)) => Some(ContentDelta::Reasoning { text, provenance }),
        _ => None,
    }
}

fn read_call(value: &Json) -> (r: Option<ContentDelta>)
    ensures
        r.deep_view() == call_in(value@),
{
    match (
        value.u32_at("index"),
        read_text(value, "id"),
        read_text(value, "kind"),
        read_text(value, "name"),
        read_text(value, "arguments"),
    ) {
        (Some(index), Some(id), Some(kind), Some(name), Some(arguments)) => Some(
            ContentDelta::ToolCall { index, id, kind, name, arguments },
        ),
        _ => None,
    }
}

impl ContentDelta {
    /// Writes the fragment in JSON.
    pub fn to_json(&self) -> (r: Json)
        ensures
            r@ == delta_form(self@),
    {
        match self {
            ContentDelta::Text { text } => object2(
                "type",
                Json::text("text"),
                "text",
                Json::String(text.clone()),
            ),
            ContentDelta::Reasoning { text, provenance } => {
                let mut fields = object2(
                    "type",
                    Json::text("reasoning"),
                    "text",
                    Json::String(text.clone()),
                ).fields();
                fields.set("provenance", json_string(provenance));
                Json::Object(fields)
            },
            ContentDelta::ToolCall { index, id, kind, name, arguments } => {
                let mut fields = object2(
                    "type",
                    Json::text("tool_call"),
                    "index",
                    Json::count(*index as u64),
                ).fields();
                fields.set("id", json_string(id));
                fields.set("kind", json_string(kind));
                fields.set("name", json_string(name));
                fields.set("arguments", json_string(arguments));
                Json::Object(fields)
            },
            ContentDelta::Unknown(value) => value.clone(),
        }
    }

    /// Reads a fragment. Nothing is refused.
    pub fn from_json(value: &Json) -> (r: ContentDelta)
        ensures
            r@ == delta_in(value@),
    {
        let known = match value.str_at("type") {
            Some(tag) => if same_text(tag.as_str(), "text") {
                read_slice(value)
            } else if same_text(tag.as_str(), "reasoning") {
                read_reasoning(value)
            } else if same_text(tag.as_str(), "tool_call") {
                read_call(value)
            } else {
                None
            },
            None => None,
        };
        match known {
            Some(delta) => delta,
            None => ContentDelta::Unknown(value.clone()),
        }
    }
}

/// The fragments that a message's fragment holds; nothing where they are no list.
pub open spec fn held_deltas(value: JsonView) -> Option<Seq<ContentDeltaView>> {
    match value.get("content"@) {
        None => Some(Seq::empty()),
        Some(JsonView::Array(items)) => Some(items.map_values(|item: JsonView| delta_in(item))),
        Some(_) => None,
    }
}

fn read_deltas(value: &Json) -> (r: Option<Vec<ContentDelta>>)
    ensures
        r.deep_view() == held_deltas(value@),
{
    let mut out: Vec<ContentDelta> = Vec::new();
    match value.get("content") {
        None => {},
        Some(Json::Array(items)) => {
            for i in 0..items.len()
                invariant
                    out.len() == i,
                    forall|k: int| 0 <= k < i ==> out@[k]@ == delta_in(items@[k]@),
            {
                out.push(ContentDelta::from_json(&items[i]));
            }
            assert(out.deep_view() =~= models(items@).map_values(|item: JsonView| delta_in(item)));
        },
        Some(_) => {
            return None;
        },
    }
    assert(out.deep_view() =~= held_deltas(value@)->0);
    Some(out)
}

fn write_deltas(deltas: &Vec<ContentDelta>) -> (r: Vec<Json>)
    ensures
        models(r@) == deltas.deep_view().map_values(|delta: ContentDeltaView| delta_form(delta)),
{
    let mut out: Vec<Json> = Vec::new();
    for i in 0..deltas.len()
        invariant
            out.len() == i,
            forall|k: int| 0 <= k < i ==> out@[k]@ == delta_form(deltas@[k]@),
    {
        out.push(deltas[i].to_json());
    }
    assert(models(out@) =~= deltas.deep_view().map_values(
        |delta: ContentDeltaView| delta_form(delta),
    ));
    out
}

/// A message's fragment in JSON.
pub open spec fn message_form(delta: MessageDeltaView) -> JsonView {
    let content = delta.content.map_values(|delta: ContentDeltaView| delta_form(delta));
    let said = assigned(
        assigned(no_fields(), "role"@, role_form(delta.role)),
        "content"@,
        items_form(content),
    );
    JsonView::Object(assigned(said, "ext"@, ext_form(delta.ext)))
}

/// The message's fragment that a JSON value is, if it is one.
pub open spec fn message_in(value: JsonView) -> Option<MessageDeltaView> {
    if !(value is Object) {
        None
    } else {
        match (held_role(value, "role"@), held_deltas(value), held_ext(value)) {
            (Some(role), Some(content), Some(ext)) => Some(MessageDeltaView { role, content, ext }),
            _ => None,
        }
    }
}

impl MessageDelta {
    /// Writes the fragment in JSON.
    pub fn to_json(&self) -> (r: Json)
        ensures
            r@ == message_form(self@),
    {
        let mut fields = Fields::new();
        fields.set("role", write_role(self.role));
        fields.set("content", write_items(write_deltas(&self.content)));
        fields.set("ext", write_ext(&self.ext));
        Json::Object(fields)
    }

    /// Reads a message's fragment.
    pub fn from_json(value: &Json) -> (r: Option<MessageDelta>)
        ensures
            r.deep_view() == message_in(value@),
    {
        if value.as_object().is_none() {
            return None;
        }
        match (read_role(value, "role"), read_deltas(value), read_ext(value)) {
            (Some(role), Some(content), Some(ext)) => Some(MessageDelta { role, content, ext }),
            _ => None,
        }
    }
}

/// A choice's fragment in JSON.
pub open spec fn completion_form(delta: CompletionDeltaView) -> JsonView {
    let said = assigned(no_fields(), "delta"@, Some(message_form(delta.delta)));
    let ended = assigned(
        assigned(said, "finish_reason"@, reason_form(delta.finish_reason)),
        "finish_reason_raw"@,
        opt_string(delta.finish_reason_raw),
    );
    JsonView::Object(assigned(ended, "ext"@, ext_form(delta.ext)))
}

/// The choice's fragment that a JSON value is, if it is one.
pub open spec fn completion_in(value: JsonView) -> Option<CompletionDeltaView> {
    match value.get("delta"@) {
        None => None,
        Some(delta) => match (
            message_in(delta),
            held_reason(value, "finish_reason"@),
            held_text(value, "finish_reason_raw"@),
            held_ext(value),
        ) {
            (Some(delta), Some(finish_reason), Some(finish_reason_raw), Some(ext)) => Some(
                CompletionDeltaView { delta, finish_reason, finish_reason_raw, ext },
            ),
            _ => None,
        },
    }
}

impl CompletionDelta {
    /// Writes the fragment in JSON.
    pub fn to_json(&self) -> (r: Json)
        ensures
            r@ == completion_form(self@),
    {
        let mut fields = Fields::new();
        fields.set("delta", Some(self.delta.to_json()));
        fields.set("finish_reason", write_reason(self.finish_reason));
        fields.set("finish_reason_raw", json_string(&self.finish_reason_raw));
        fields.set("ext", write_ext(&self.ext));
        Json::Object(fields)
    }

    /// Reads a choice's fragment.
    pub fn from_json(value: &Json) -> (r: Option<CompletionDelta>)
        ensures
            r.deep_view() == completion_in(value@),
    {
        let Some(delta) = value.get("delta") else {
            return None;
        };
        match (
            MessageDelta::from_json(delta),
            read_reason(value, "finish_reason"),
            read_text(value, "finish_reason_raw"),
            read_ext(value),
        ) {
            (Some(delta), Some(finish_reason), Some(finish_reason_raw), Some(ext)) => Some(
                CompletionDelta { delta, finish_reason, finish_reason_raw, ext },
            ),
            _ => None,
        }
    }
}

// ---------------------------------------------------------------------------
// Chunks
// ---------------------------------------------------------------------------

/// Token counts in JSON.
pub open spec fn usage_form(usage: UsageView) -> JsonView {
    let sums = assigned(
        assigned(
            assigned(no_fields(), "input_tokens"@, count_form(usage.input_tokens)),
            "output_tokens"@,
            count_form(usage.output_tokens),
        ),
        "total_tokens"@,
        count_form(usage.total_tokens),
    );
    let parts = assigned(
        assigned(
            assigned(sums, "reasoning_tokens"@, count_form(usage.reasoning_tokens)),
            "cache_read_tokens"@,
            count_form(usage.cache_read_tokens),
        ),
        "cache_write_tokens"@,
        count_form(usage.cache_write_tokens),
    );
    JsonView::Object(assigned(parts, "ext"@, ext_form(usage.ext)))
}

/// The token counts that a JSON value is, if it is that.
pub open spec fn usage_in(value: JsonView) -> Option<UsageView> {
    if !(value is Object) {
        None
    } else {
        match (
            held_count(value, "input_tokens"@),
            held_count(value, "output_tokens"@),
            held_count(value, "total_tokens"@),
            held_count(value, "reasoning_tokens"@),
            held_count(value, "cache_read_tokens"@),
            held_count(value, "cache_write_tokens"@),
            held_ext(value),
        ) {
            (
                Some(input_tokens),
                Some(output_tokens),
                Some(total_tokens),
                Some(reasoning_tokens),
                Some(cache_read_tokens),
                Some(cache_write_tokens),
                Some(ext),
            ) => Some(
                UsageView {
                    input_tokens,
                    output_tokens,
                    total_tokens,
                    reasoning_tokens,
                    cache_read_tokens,
                    cache_write_tokens,
                    ext,
                },
            ),
            _ => None,
        }
    }
}

impl Usage {
    /// Writes the counts in JSON.
    pub fn to_json(&self) -> (r: Json)
        ensures
            r@ == usage_form(self@),
    {
        let mut fields = Fields::new();
        fields.set("input_tokens", write_count(self.input_tokens));
        fields.set("output_tokens", write_count(self.output_tokens));
        fields.set("total_tokens", write_count(self.total_tokens));
        fields.set("reasoning_tokens", write_count(self.reasoning_tokens));
        fields.set("cache_read_tokens", write_count(self.cache_read_tokens));
        fields.set("cache_write_tokens", write_count(self.cache_write_tokens));
        fields.set("ext", write_ext(&self.ext));
        Json::Object(fields)
    }

    /// Reads token counts.
    pub fn from_json(value: &Json) -> (r: Option<Usage>)
        ensures
            r.deep_view() == usage_in(value@),
    {
        if value.as_object().is_none() {
            return None;
        }
        match (
            read_count(value, "input_tokens"),
            read_count(value, "output_tokens"),
            read_count(value, "total_tokens"),
            read_count(value, "reasoning_tokens"),
            read_count(value, "cache_read_tokens"),
            read_count(value, "cache_write_tokens"),
            read_ext(value),
        ) {
            (
                Some(input_tokens),
                Some(output_tokens),
                Some(total_tokens),
                Some(reasoning_tokens),
                Some(cache_read_tokens),
                Some(cache_write_tokens),
                Some(ext),
            ) => Some(
                Usage {
                    input_tokens,
                    output_tokens,
                    total_tokens,
                    reasoning_tokens,
                    cache_read_tokens,
                    cache_write_tokens,
                    ext,
                },
            ),
            _ => None,
        }
    }
}

/// Token counts that may be absent, in JSON.
pub open spec fn totals_form(usage: Option<UsageView>) -> Option<JsonView> {
    match usage {
        Some(usage) => Some(usage_form(usage)),
        None => None,
    }
}

/// The token counts a chunk holds, if any; nothing where its field holds
/// something else.
pub open spec fn held_totals(value: JsonView) -> Option<Option<UsageView>> {
    match value.get("usage"@) {
        None => Some(None),
        Some(JsonView::Null) => Some(None),
        Some(held) => match usage_in(held) {
            Some(usage) => Some(Some(usage)),
            None => None,
        },
    }
}

fn read_totals(value: &Json) -> (r: Option<Option<Usage>>)
    ensures
        r.deep_view() == held_totals(value@),
{
    match value.get("usage") {
        None => Some(None),
        Some(Json::Null) => Some(None),
        Some(held) => match Usage::from_json(held) {
            Some(usage) => Some(Some(usage)),
            None => None,
        },
    }
}

/// Every item is a choice's fragment.
pub open spec fn all_completions(items: Seq<JsonView>) -> bool {
    forall|i: int| 0 <= i < items.len() ==> completion_in(#[trigger] items[i]) is Some
}

/// The choices' fragments a chunk holds; nothing where they are no list of them.
pub open spec fn held_completions(value: JsonView) -> Option<Seq<CompletionDeltaView>> {
    match value.get("completions"@) {
        None => Some(Seq::empty()),
        Some(JsonView::Array(items)) => if all_completions(items) {
            Some(items.map_values(|item: JsonView| completion_in(item)->0))
        } else {
            None
        },
        Some(_) => None,
    }
}

fn read_completions(value: &Json) -> (r: Option<Vec<CompletionDelta>>)
    ensures
        r.deep_view() == held_completions(value@),
{
    let mut out: Vec<CompletionDelta> = Vec::new();
    match value.get("completions") {
        None => {},
        Some(Json::Array(items)) => {
            let ghost all = models(items@);
            for i in 0..items.len()
                invariant
                    all == models(items@),
                    value@.get("completions"@) == Some(JsonView::Array(all)),
                    out.len() == i,
                    forall|k: int|
                        0 <= k < i ==> completion_in(#[trigger] all[k]) == Some(out@[k]@),
            {
                assert(all[i as int] == items@[i as int]@);
                match CompletionDelta::from_json(&items[i]) {
                    Some(delta) => {
                        out.push(delta);
                    },
                    None => {
                        assert(completion_in(all[i as int]) is None);
                        return None;
                    },
                }
            }
            assert(all_completions(all));
        },
        Some(_) => {
            return None;
        },
    }
    assert(out.deep_view() =~= held_completions(value@)->0);
    Some(out)
}

fn write_completions(deltas: &Vec<CompletionDelta>) -> (r: Vec<Json>)
    ensures
        models(r@) == deltas.deep_view().map_values(
            |delta: CompletionDeltaView| completion_form(delta),
        ),
{
    let mut out: Vec<Json> = Vec::new();
    for i in 0..deltas.len()
        invariant
            out.len() == i,
            forall|k: int| 0 <= k < i ==> out@[k]@ == completion_form(deltas@[k]@),
    {
        out.push(deltas[i].to_json());
    }
    assert(models(out@) =~= deltas.deep_view().map_values(
        |delta: CompletionDeltaView| completion_form(delta),
    ));
    out
}

/// A chunk in JSON. Where it came from is not written.
pub open spec fn chunk_form(chunk: ChatResponseChunkView) -> JsonView {
    let name = fields2("id"@, string(chunk.id), "model"@, string(chunk.model));
    let completions = chunk.completions.map_values(
        |delta: CompletionDeltaView| completion_form(delta),
    );
    let said = assigned(
        assigned(name, "created"@, count_form(chunk.created)),
        "completions"@,
        items_form(completions),
    );
    JsonView::Object(
        assigned(
            assigned(said, "usage"@, totals_form(chunk.usage)),
            "ext"@,
            ext_form(chunk.ext),
        ),
    )
}

/// The chunk that a JSON value is, if it is one.
pub open spec fn chunk_in(value: JsonView) -> Option<ChatResponseChunkView> {
    match (
        value.str_at("id"@),
        value.str_at("model"@),
        held_count(value, "created"@),
        held_completions(value),
        held_totals(value),
        held_ext(value),
    ) {
        (
            Some(id),
            Some(model),
            Some(created),
            Some(completions),
            Some(usage),
            Some(ext),
        ) => Some(
            ChatResponseChunkView { id, model, created, completions, usage, ext, source: None },
        ),
        _ => None,
    }
}

impl ChatResponseChunk {
    /// Writes the chunk in JSON. Where it came from is not written.
    pub fn to_json(&self) -> (r: Json)
        ensures
            r@ == chunk_form(self@),
    {
        let mut fields = object2(
            "id",
            Json::String(self.id.clone()),
            "model",
            Json::String(self.model.clone()),
        ).fields();
        fields.set("created", write_count(self.created));
        fields.set("completions", write_items(write_completions(&self.completions)));
        fields.set(
            "usage",
            match &self.usage {
                Some(usage) => Some(usage.to_json()),
                None => None,
            },
        );
        fields.set("ext", write_ext(&self.ext));
        Json::Object(fields)
    }

    /// Reads a chunk.
    pub fn from_json(value: &Json) -> (r: Option<ChatResponseChunk>)
        ensures
            r.deep_view() == chunk_in(value@),
    {
        match (
            value.str_at("id"),
            value.str_at("model"),
            read_count(value, "created"),
            read_completions(value),
            read_totals(value),
            read_ext(value),
        ) {
            (
                Some(id),
                Some(model),
                Some(created),
                Some(completions),
                Some(usage),
                Some(ext),
            ) => Some(
                ChatResponseChunk { id, model, created, completions, usage, ext, source: None },
            ),
            _ => None,
        }
    }
}

// ---------------------------------------------------------------------------
// Reading back
// ---------------------------------------------------------------------------

/// The names within a fragment differ.
proof fn lemma_delta_keys()
    ensures
        "type"@ != "text"@,
        "type"@ != "provenance"@,
        "type"@ != "index"@,
        "type"@ != "id"@,
        "type"@ != "kind"@,
        "type"@ != "name"@,
        "type"@ != "arguments"@,
        "text"@ != "provenance"@,
        "text"@ != "index"@,
        "text"@ != "id"@,
        "text"@ != "kind"@,
        "text"@ != "name"@,
        "text"@ != "arguments"@,
        "provenance"@ != "index"@,
        "provenance"@ != "id"@,
        "provenance"@ != "kind"@,
        "provenance"@ != "name"@,
        "provenance"@ != "arguments"@,
        "index"@ != "id"@,
        "index"@ != "kind"@,
        "index"@ != "name"@,
        "index"@ != "arguments"@,
        "id"@ != "kind"@,
        "id"@ != "name"@,
        "id"@ != "arguments"@,
        "kind"@ != "name"@,
        "kind"@ != "arguments"@,
        "name"@ != "arguments"@,
{
    reveal_strlit("type");
    reveal_strlit("text");
    reveal_strlit("provenance");
    reveal_strlit("index");
    reveal_strlit("id");
    reveal_strlit("kind");
    reveal_strlit("name");
    reveal_strlit("arguments");
    assert("type"@[1] != "text"@[1]);
    assert("type"@.len() != "provenance"@.len());
    assert("type"@.len() != "index"@.len());
    assert("type"@.len() != "id"@.len());
    assert("type"@[0] != "kind"@[0]);
    assert("type"@[0] != "name"@[0]);
    assert("type"@.len() != "arguments"@.len());
    assert("text"@.len() != "provenance"@.len());
    assert("text"@.len() != "index"@.len());
    assert("text"@.len() != "id"@.len());
    assert("text"@[0] != "kind"@[0]);
    assert("text"@[0] != "name"@[0]);
    assert("text"@.len() != "arguments"@.len());
    assert("provenance"@.len() != "index"@.len());
    assert("provenance"@.len() != "id"@.len());
    assert("provenance"@.len() != "kind"@.len());
    assert("provenance"@.len() != "name"@.len());
    assert("provenance"@.len() != "arguments"@.len());
    assert("index"@.len() != "id"@.len());
    assert("index"@.len() != "kind"@.len());
    assert("index"@.len() != "name"@.len());
    assert("index"@.len() != "arguments"@.len());
    assert("id"@.len() != "kind"@.len());
    assert("id"@.len() != "name"@.len());
    assert("id"@.len() != "arguments"@.len());
    assert("kind"@[0] != "name"@[0]);
    assert("kind"@.len() != "arguments"@.len());
    assert("name"@.len() != "arguments"@.len());
}

/// The tags of fragments differ.
proof fn lemma_delta_tags()
    ensures
        "text"@ != "reasoning"@,
        "text"@ != "tool_call"@,
        "reasoning"@ != "tool_call"@,
{
    reveal_strlit("text");
    reveal_strlit("reasoning");
    reveal_strlit("tool_call");
    assert("text"@.len() != "reasoning"@.len());
    assert("text"@.len() != "tool_call"@.len());
    assert("reasoning"@[0] != "tool_call"@[0]);
}

/// The names within a message's fragment differ.
proof fn lemma_message_keys()
    ensures
        "role"@ != "content"@,
        "role"@ != "ext"@,
        "content"@ != "ext"@,
{
    reveal_strlit("role");
    reveal_strlit("content");
    reveal_strlit("ext");
    assert("role"@.len() != "content"@.len());
    assert("role"@.len() != "ext"@.len());
    assert("content"@.len() != "ext"@.len());
}

/// The names within a choice's fragment differ.
proof fn lemma_completion_keys()
    ensures
        "delta"@ != "finish_reason"@,
        "delta"@ != "finish_reason_raw"@,
        "delta"@ != "ext"@,
        "finish_reason"@ != "finish_reason_raw"@,
        "finish_reason"@ != "ext"@,
        "finish_reason_raw"@ != "ext"@,
{
    reveal_strlit("delta");
    reveal_strlit("finish_reason");
    reveal_strlit("finish_reason_raw");
    reveal_strlit("ext");
    assert("delta"@.len() != "finish_reason"@.len());
    assert("delta"@.len() != "finish_reason_raw"@.len());
    assert("delta"@.len() != "ext"@.len());
    assert("finish_reason"@.len() != "finish_reason_raw"@.len());
    assert("finish_reason"@.len() != "ext"@.len());
    assert("finish_reason_raw"@.len() != "ext"@.len());
}

/// The names of token counts differ.
proof fn lemma_usage_keys()
    ensures
        "input_tokens"@ != "output_tokens"@,
        "input_tokens"@ != "total_tokens"@,
        "input_tokens"@ != "reasoning_tokens"@,
        "input_tokens"@ != "cache_read_tokens"@,
        "input_tokens"@ != "cache_write_tokens"@,
        "input_tokens"@ != "ext"@,
        "output_tokens"@ != "total_tokens"@,
        "output_tokens"@ != "reasoning_tokens"@,
        "output_tokens"@ != "cache_read_tokens"@,
        "output_tokens"@ != "cache_write_tokens"@,
        "output_tokens"@ != "ext"@,
        "total_tokens"@ != "reasoning_tokens"@,
        "total_tokens"@ != "cache_read_tokens"@,
        "total_tokens"@ != "cache_write_tokens"@,
        "total_tokens"@ != "ext"@,
        "reasoning_tokens"@ != "cache_read_tokens"@,
        "reasoning_tokens"@ != "cache_write_tokens"@,
        "reasoning_tokens"@ != "ext"@,
        "cache_read_tokens"@ != "cache_write_tokens"@,
        "cache_read_tokens"@ != "ext"@,
        "cache_write_tokens"@ != "ext"@,
{
    reveal_strlit("input_tokens");
    reveal_strlit("output_tokens");
    reveal_strlit("total_tokens");
    reveal_strlit("reasoning_tokens");
    reveal_strlit("cache_read_tokens");
    reveal_strlit("cache_write_tokens");
    reveal_strlit("ext");
    assert("input_tokens"@.len() != "output_tokens"@.len());
    assert("input_tokens"@[0] != "total_tokens"@[0]);
    assert("input_tokens"@.len() != "reasoning_tokens"@.len());
    assert("input_tokens"@.len() != "cache_read_tokens"@.len());
    assert("input_tokens"@.len() != "cache_write_tokens"@.len());
    assert("input_tokens"@.len() != "ext"@.len());
    assert("output_tokens"@.len() != "total_tokens"@.len());
    assert("output_tokens"@.len() != "reasoning_tokens"@.len());
    assert("output_tokens"@.len() != "cache_read_tokens"@.len());
    assert("output_tokens"@.len() != "cache_write_tokens"@.len());
    assert("output_tokens"@.len() != "ext"@.len());
    assert("total_tokens"@.len() != "reasoning_tokens"@.len());
    assert("total_tokens"@.len() != "cache_read_tokens"@.len());
    assert("total_tokens"@.len() != "cache_write_tokens"@.len());
    assert("total_tokens"@.len() != "ext"@.len());
    assert("reasoning_tokens"@.len() != "cache_read_tokens"@.len());
    assert("reasoning_tokens"@.len() != "cache_write_tokens"@.len());
    assert("reasoning_tokens"@.len() != "ext"@.len());
    assert("cache_read_tokens"@.len() != "cache_write_tokens"@.len());
    assert("cache_read_tokens"@.len() != "ext"@.len());
    assert("cache_write_tokens"@.len() != "ext"@.len());
}

/// The names within a chunk differ.
proof fn lemma_chunk_keys()
    ensures
        "id"@ != "model"@,
        "id"@ != "created"@,
        "id"@ != "completions"@,
        "id"@ != "usage"@,
        "id"@ != "ext"@,
        "model"@ != "created"@,
        "model"@ != "completions"@,
        "model"@ != "usage"@,
        "model"@ != "ext"@,
        "created"@ != "completions"@,
        "created"@ != "usage"@,
        "created"@ != "ext"@,
        "completions"@ != "usage"@,
        "completions"@ != "ext"@,
        "usage"@ != "ext"@,
{
    reveal_strlit("id");
    reveal_strlit("model");
    reveal_strlit("created");
    reveal_strlit("completions");
    reveal_strlit("usage");
    reveal_strlit("ext");
    assert("id"@.len() != "model"@.len());
    assert("id"@.len() != "created"@.len());
    assert("id"@.len() != "completions"@.len());
    assert("id"@.len() != "usage"@.len());
    assert("id"@.len() != "ext"@.len());
    assert("model"@.len() != "created"@.len());
    assert("model"@.len() != "completions"@.len());
    assert("model"@[0] != "usage"@[0]);
    assert("model"@.len() != "ext"@.len());
    assert("created"@.len() != "completions"@.len());
    assert("created"@.len() != "usage"@.len());
    assert("created"@.len() != "ext"@.len());
    assert("completions"@.len() != "usage"@.len());
    assert("completions"@.len() != "ext"@.len());
    assert("usage"@.len() != "ext"@.len());
}

/// The words for roles differ.
proof fn lemma_roles()
    ensures
        "system"@ != "user"@,
        "system"@ != "assistant"@,
        "system"@ != "tool"@,
        "user"@ != "assistant"@,
        "user"@ != "tool"@,
        "assistant"@ != "tool"@,
{
    reveal_strlit("system");
    reveal_strlit("user");
    reveal_strlit("assistant");
    reveal_strlit("tool");
    assert("system"@.len() != "user"@.len());
    assert("system"@.len() != "assistant"@.len());
    assert("system"@.len() != "tool"@.len());
    assert("user"@.len() != "assistant"@.len());
    assert("user"@[0] != "tool"@[0]);
    assert("assistant"@.len() != "tool"@.len());
}

/// The words for reasons differ.
proof fn lemma_reasons()
    ensures
        "stop"@ != "length"@,
        "stop"@ != "tool_calls"@,
        "stop"@ != "content_filter"@,
        "stop"@ != "other"@,
        "length"@ != "tool_calls"@,
        "length"@ != "content_filter"@,
        "length"@ != "other"@,
        "tool_calls"@ != "content_filter"@,
        "tool_calls"@ != "other"@,
        "content_filter"@ != "other"@,
{
    reveal_strlit("stop");
    reveal_strlit("length");
    reveal_strlit("tool_calls");
    reveal_strlit("content_filter");
    reveal_strlit("other");
    assert("stop"@.len() != "length"@.len());
    assert("stop"@.len() != "tool_calls"@.len());
    assert("stop"@.len() != "content_filter"@.len());
    assert("stop"@.len() != "other"@.len());
    assert("length"@.len() != "tool_calls"@.len());
    assert("length"@.len() != "content_filter"@.len());
    assert("length"@.len() != "other"@.len());
    assert("tool_calls"@.len() != "content_filter"@.len());
    assert("tool_calls"@.len() != "other"@.len());
    assert("content_filter"@.len() != "other"@.len());
}

/// A fragment that its JSON tells from the others: a known one, or one that no
/// variant knows.
pub open spec fn told(delta: ContentDeltaView) -> bool {
    delta matches ContentDeltaView::Unknown(value) ==> delta_in(value) == delta
}

/// Every fragment within a chunk is told from the others.
pub open spec fn all_told(chunk: ChatResponseChunkView) -> bool {
    forall|i: int, k: int|
        #![trigger chunk.completions[i].delta.content[k]]
        0 <= i < chunk.completions.len() && 0 <= k < chunk.completions[i].delta.content.len()
            ==> told(chunk.completions[i].delta.content[k])
}

/// A fragment is read back from its JSON. The one exception is a value that was
/// taken for unknown although a variant knows it.
pub proof fn law_a_delta_reads_back(delta: ContentDeltaView)
    requires
        told(delta),
    ensures
        delta_in(delta_form(delta)) == delta,
{
    broadcast use group_find;

    lemma_delta_keys();
    lemma_delta_tags();
}

/// A fragment that no variant knows is written as it was read.
pub proof fn law_an_unknown_delta_is_kept(value: JsonView)
    ensures
        delta_in(value) is Unknown ==> delta_form(delta_in(value)) == value,
{
}

proof fn lemma_message_reads_back(delta: MessageDeltaView)
    requires
        forall|k: int| 0 <= k < delta.content.len() ==> told(#[trigger] delta.content[k]),
    ensures
        message_in(message_form(delta)) == Some(delta),
{
    broadcast use group_find;

    lemma_message_keys();
    lemma_roles();
    let value = message_form(delta);
    let content = delta.content.map_values(|delta: ContentDeltaView| delta_form(delta));
    assert forall|k: int| 0 <= k < delta.content.len() implies delta_in(
        #[trigger] content[k],
    ) == delta.content[k] by {
        assert(told(delta.content[k]));
        law_a_delta_reads_back(delta.content[k]);
    }
    assert(held_role(value, "role"@) == Some(delta.role));
    assert(held_deltas(value)->0 =~= delta.content);
    assert(held_ext(value)->0 =~= delta.ext);
}

proof fn lemma_completion_reads_back(delta: CompletionDeltaView)
    requires
        forall|k: int|
            0 <= k < delta.delta.content.len() ==> told(#[trigger] delta.delta.content[k]),
    ensures
        completion_in(completion_form(delta)) == Some(delta),
{
    broadcast use group_find;

    lemma_completion_keys();
    lemma_reasons();
    lemma_message_reads_back(delta.delta);
    let value = completion_form(delta);
    assert(value.get("delta"@) == Some(message_form(delta.delta)));
    assert(held_reason(value, "finish_reason"@) == Some(delta.finish_reason));
    assert(held_text(value, "finish_reason_raw"@) == Some(delta.finish_reason_raw));
    assert(held_ext(value)->0 =~= delta.ext);
}

/// Token counts are read back from their JSON.
pub proof fn law_token_counts_read_back(usage: UsageView)
    ensures
        usage_in(usage_form(usage)) == Some(usage),
{
    broadcast use group_find;

    lemma_usage_keys();
    let value = usage_form(usage);
    assert(held_count(value, "input_tokens"@) == Some(usage.input_tokens));
    assert(held_count(value, "output_tokens"@) == Some(usage.output_tokens));
    assert(held_count(value, "total_tokens"@) == Some(usage.total_tokens));
    assert(held_count(value, "reasoning_tokens"@) == Some(usage.reasoning_tokens));
    assert(held_count(value, "cache_read_tokens"@) == Some(usage.cache_read_tokens));
    assert(held_count(value, "cache_write_tokens"@) == Some(usage.cache_write_tokens));
    assert(held_ext(value)->0 =~= usage.ext);
}

/// A chunk is read back from its JSON, but for where it came from.
pub proof fn law_a_chunk_reads_back(chunk: ChatResponseChunkView)
    requires
        all_told(chunk),
    ensures
        chunk_in(chunk_form(chunk)) == Some(ChatResponseChunkView { source: None, ..chunk }),
{
    broadcast use group_find;

    lemma_chunk_keys();
    let value = chunk_form(chunk);
    let forms = chunk.completions.map_values(|delta: CompletionDeltaView| completion_form(delta));
    assert forall|i: int| 0 <= i < chunk.completions.len() implies completion_in(
        #[trigger] forms[i],
    ) == Some(chunk.completions[i]) by {
        let delta = chunk.completions[i];
        assert forall|k: int| 0 <= k < delta.delta.content.len() implies told(
            #[trigger] delta.delta.content[k],
        ) by {
            assert(told(chunk.completions[i].delta.content[k]));
        }
        lemma_completion_reads_back(delta);
    }
    if let Some(usage) = chunk.usage {
        law_token_counts_read_back(usage);
    }
    assert(value.str_at("id"@) == Some(chunk.id));
    assert(value.str_at("model"@) == Some(chunk.model));
    assert(held_count(value, "created"@) == Some(chunk.created));
    assert(held_completions(value)->0 =~= chunk.completions);
    assert(held_totals(value) == Some(chunk.usage));
    assert(held_ext(value)->0 =~= chunk.ext);
}

} // verus!
