//! Whole replies, between chat completions and the common form.
use vstd::prelude::*;
use vstd::string::*;

use crate::gateway::ext::{kept_under, merged, merged_ext, namespaced};
use crate::gateway::types::message::{
    block_models, ContentBlock, ContentBlockView, Message, MessageView, ReasoningDetail,
    ReasoningDetailView, Role,
};
use crate::gateway::types::response::{
    reason_of, ChatResponse, ChatResponseView, Completion, CompletionView, FinishReason, Usage,
    UsageView,
};
use crate::gateway::types::{IngestSource, IngestSourceView, RawJson};
use crate::json::{
    count, find, models, no_fields, put, sans_null, settled, string, without, Fields, FieldsView,
    Json, JsonView,
};
use crate::text::same_text;
use crate::types::{protocol_name, Protocol};

use super::request::{
    function_call, render_function_call, rendered_role, role_residue, take_role, take_string,
    text_at, wire_role,
};
use super::role_to_wire;
use super::wire::{
    annotations_shape, are_annotations, audio_shape, call_shape, function_call_shape, is_audio,
    is_call, is_function_call, is_legacy_call, is_logprobs, is_moderation, is_nullable_string,
    legacy_call_shape, logprobs_shape, moderation_shape, nullable_string, present, typed,
};

verus! {

// ---------------------------------------------------------------------------
// Reading
// ---------------------------------------------------------------------------

/// Every field has one of these names.
pub open spec fn only_named(
    fields: FieldsView,
    a: Seq<char>,
    b: Seq<char>,
    c: Seq<char>,
) -> bool {
    forall|i: int|
        0 <= i < fields.len() ==> (#[trigger] fields[i]).0 == a || fields[i].0 == b || fields[i].0
            == c
}

/// Whether every field has one of these names.
pub fn has_only(value: &Json, a: &str, b: &str, c: &str) -> (r: bool)
    ensures
        r == only_named(value@.fields(), a@, b@, c@),
{
    match value {
        Json::Object(fields) => {
            for i in 0..fields.entries.len()
                invariant
                    value@.fields() == fields@,
                    forall|k: int|
                        0 <= k < i ==> (#[trigger] fields@[k]).0 == a@ || fields@[k].0 == b@
                            || fields@[k].0 == c@,
            {
                let name = fields.entries[i].0.as_str();
                if !same_text(name, a) && !same_text(name, b) && !same_text(name, c) {
                    assert(fields@[i as int].0 == name@);
                    return false;
                }
            }
            true
        },
        _ => true,
    }
}

/// A function call that holds nothing beyond what the common form has.
pub open spec fn plain_call(call: JsonView) -> bool {
    &&& function_call_shape(call)
    &&& call.str_at("type"@) == Some("function"@)
    &&& only_named(call.fields(), "id"@, "type"@, "function"@)
    &&& only_named(call.get("function"@)->0.fields(), "arguments"@, "name"@, "name"@)
}

/// The block a tool call of a reply stands for. One that holds more than the
/// common form has is kept whole.
pub open spec fn ingested_reply_call(call: JsonView) -> ContentBlockView {
    if plain_call(call) {
        ContentBlockView::ToolCall {
            id: call.str_at("id"@)->0,
            name: call.str_in("function"@, "name"@)->0,
            arguments: call.str_in("function"@, "arguments"@)->0,
        }
    } else {
        ContentBlockView::Unknown(call)
    }
}

fn is_plain_call(call: &Json) -> (r: bool)
    ensures
        r == plain_call(call@),
{
    if !is_function_call(call) || !has_only(call, "id", "type", "function") {
        return false;
    }
    let typed = match call.str_at("type") {
        Some(kind) => same_text(kind.as_str(), "function"),
        None => false,
    };
    let bare = match call.get("function") {
        Some(function) => has_only(function, "arguments", "name", "name"),
        None => false,
    };
    typed && bare
}

fn ingest_tool_call(call: &Json) -> (r: ContentBlock)
    ensures
        r@ == ingested_reply_call(call@),
{
    if is_plain_call(call) {
        if let (Some(id), Some(name), Some(arguments)) = (
            call.str_at("id"),
            call.str_in("function", "name"),
            call.str_in("function", "arguments"),
        ) {
            return ContentBlock::ToolCall { id, name, arguments: RawJson { text: arguments } };
        }
    }
    ContentBlock::Unknown(call.clone())
}

/// The reasoning a message shows, if any: providers that show it give it as a
/// text beside the content.
pub open spec fn reasoning_blocks(message: JsonView) -> Seq<ContentBlockView> {
    match message.str_at("reasoning_content"@) {
        Some(text) => if text.len() > 0 {
            seq![
                ContentBlockView::Reasoning {
                    detail: ReasoningDetailView::Text { text, signature: None },
                    provenance: Some(protocol_name(Protocol::OpenAiCompat)),
                    id: None,
                },
            ]
        } else {
            Seq::empty()
        },
        None => Seq::empty(),
    }
}

fn reasoning_block(message: &Json) -> (r: Option<ContentBlock>)
    ensures
        reasoning_blocks(message@) == (match r.deep_view() {
            Some(block) => seq![block],
            None => Seq::empty(),
        }),
{
    match message.str_at("reasoning_content") {
        Some(text) => if text.as_str().is_empty() {
            None
        } else {
            Some(
                ContentBlock::Reasoning {
                    detail: ReasoningDetail::Text { text, signature: None },
                    provenance: Some(Protocol::OpenAiCompat.as_str().to_owned()),
                    id: None,
                },
            )
        },
        None => None,
    }
}

/// The text of a message, if any.
pub open spec fn text_blocks(message: JsonView) -> Seq<ContentBlockView> {
    match message.str_at("content"@) {
        Some(text) => seq![ContentBlockView::Text { text, cache: None }],
        None => Seq::empty(),
    }
}

/// The blocks a message stands for: its reasoning, its text and the calls it
/// makes, in that order.
pub open spec fn reply_blocks(message: JsonView) -> Seq<ContentBlockView> {
    reasoning_blocks(message) + text_blocks(message) + message.items_at("tool_calls"@).map_values(
        |call: JsonView| ingested_reply_call(call),
    )
}

/// What a message keeps. Its content is in its blocks; an empty list of calls is
/// not, and is kept.
pub open spec fn reply_residue(message: JsonView) -> FieldsView {
    let f = without(role_residue(message.fields()), "content"@);
    let f = sans_null(sans_null(f, "refusal"@), "tool_calls"@);
    if message.items_at("tool_calls"@).len() > 0 {
        without(f, "tool_calls"@)
    } else {
        f
    }
}

/// The message a message of a reply stands for.
pub open spec fn ingested_reply_message(message: JsonView) -> MessageView {
    MessageView {
        role: wire_role(message),
        content: reply_blocks(message),
        ext: kept_under(Protocol::OpenAiCompat, reply_residue(message)),
    }
}

fn ingest_message(message: &Json) -> (r: Message)
    ensures
        r@ == ingested_reply_message(message@),
{
    let mut fields = message.fields();
    let role = take_role(message, &mut fields);
    fields.remove("content");
    fields.drop_null("refusal");
    fields.drop_null("tool_calls");
    let mut blocks: Vec<ContentBlock> = Vec::new();
    if let Some(block) = reasoning_block(message) {
        blocks.push(block);
    }
    assert(block_models(blocks@) =~= reasoning_blocks(message@));
    if let Some(text) = message.str_at("content") {
        blocks.push(ContentBlock::Text { text, cache: None });
    }
    let ghost said = block_models(blocks@);
    assert(said =~= reasoning_blocks(message@) + text_blocks(message@));
    if let Some(calls) = message.items_at("tool_calls") {
        if calls.len() > 0 {
            fields.remove("tool_calls");
        }
        let ghost start = blocks@;
        for i in 0..calls.len()
            invariant
                blocks.len() == start.len() + i,
                forall|k: int| 0 <= k < start.len() ==> blocks@[k] == start[k],
                forall|k: int|
                    0 <= k < i ==> blocks@[start.len() + k]@ == ingested_reply_call(calls@[k]@),
        {
            blocks.push(ingest_tool_call(&calls[i]));
        }
        assert(block_models(blocks@) =~= said + models(calls@).map_values(
            |call: JsonView| ingested_reply_call(call),
        ));
    }
    assert(block_models(blocks@) =~= reply_blocks(message@));
    Message { role, content: blocks, ext: namespaced(Protocol::OpenAiCompat, fields) }
}

/// The reply a choice stands for.
pub open spec fn ingested_choice(choice: JsonView) -> CompletionView {
    let raw = match choice.str_at("finish_reason"@) {
        Some(raw) => raw,
        None => Seq::empty(),
    };
    CompletionView {
        message: ingested_reply_message(
            match choice.get("message"@) {
                Some(message) => message,
                None => JsonView::Null,
            },
        ),
        finish_reason: reason_of(raw),
        finish_reason_raw: raw,
        ext: kept_under(
            Protocol::OpenAiCompat,
            without(without(choice.fields(), "finish_reason"@), "message"@),
        ),
    }
}

fn ingest_choice(choice: &Json) -> (r: Completion)
    ensures
        r@ == ingested_choice(choice@),
{
    let raw = match choice.str_at("finish_reason") {
        Some(raw) => raw,
        None => String::new(),
    };
    let mut fields = choice.fields();
    fields.remove("finish_reason");
    fields.remove("message");
    Completion {
        message: match choice.get("message") {
            Some(message) => ingest_message(message),
            None => ingest_message(&Json::Null),
        },
        finish_reason: FinishReason::from_raw(raw.as_str()),
        finish_reason_raw: raw,
        ext: namespaced(Protocol::OpenAiCompat, fields),
    }
}

/// A 32-bit count, widened.
pub open spec fn widened(n: Option<u32>) -> Option<u64> {
    match n {
        Some(n) => Some(n as u64),
        None => None,
    }
}

/// Widens a 32-bit count.
pub fn widen(n: Option<u32>) -> (r: Option<u64>)
    ensures
        r == widened(n),
{
    match n {
        Some(n) => Some(n as u64),
        None => None,
    }
}

/// A count within the details of a usage.
pub open spec fn detail_count(usage: JsonView, details: Seq<char>, key: Seq<char>) -> Option<u64> {
    match usage.get(details) {
        Some(JsonView::Object(fields)) => match find(fields, key) {
            Some(value) => value.as_u64(),
            None => None,
        },
        _ => None,
    }
}

fn read_detail(usage: &Json, details: &str, key: &str) -> (r: Option<u64>)
    ensures
        r == detail_count(usage@, details@, key@),
{
    match usage.get(details) {
        Some(Json::Object(fields)) => match fields.get(key) {
            Some(value) => value.as_u64(),
            None => None,
        },
        _ => None,
    }
}

/// The fields without `key` where it holds a count.
pub open spec fn sans_count(fields: FieldsView, key: Seq<char>) -> FieldsView {
    match find(fields, key) {
        Some(value) => if value.as_u64() is Some {
            without(fields, key)
        } else {
            fields
        },
        None => fields,
    }
}

fn drop_count(fields: &mut Fields, key: &str)
    ensures
        final(fields)@ == sans_count(old(fields)@, key@),
{
    let counted = match fields.get(key) {
        Some(value) => value.as_u64().is_some(),
        None => false,
    };
    if counted {
        fields.remove(key);
    }
}

/// The fields of a usage without two counts of its details, which it is kept
/// without, though it be left empty.
pub open spec fn sans_details(
    fields: FieldsView,
    details: Seq<char>,
    key1: Seq<char>,
    key2: Seq<char>,
) -> FieldsView {
    match find(fields, details) {
        Some(JsonView::Object(inner)) => put(
            fields,
            details,
            JsonView::Object(sans_count(sans_count(inner, key1), key2)),
        ),
        _ => fields,
    }
}

fn drop_details(fields: &mut Fields, details: &str, key1: &str, key2: &str)
    ensures
        final(fields)@ == sans_details(old(fields)@, details@, key1@, key2@),
{
    let inner: Option<Fields> = match fields.get(details) {
        Some(Json::Object(inner)) => Some(inner.clone()),
        _ => None,
    };
    if let Some(mut inner) = inner {
        drop_count(&mut inner, key1);
        drop_count(&mut inner, key2);
        fields.put(details, Json::Object(inner));
    }
}

/// What a usage keeps.
pub open spec fn usage_residue(fields: FieldsView) -> FieldsView {
    let f = without(
        without(without(fields, "completion_tokens"@), "prompt_tokens"@),
        "total_tokens"@,
    );
    let f = sans_details(f, "prompt_tokens_details"@, "cached_tokens"@, "cache_write_tokens"@);
    sans_details(f, "completion_tokens_details"@, "reasoning_tokens"@, "reasoning_tokens"@)
}

/// The token counts a usage stands for.
pub open spec fn ingested_usage(usage: JsonView) -> UsageView {
    UsageView {
        input_tokens: widened(usage.u32_at("prompt_tokens"@)),
        output_tokens: widened(usage.u32_at("completion_tokens"@)),
        total_tokens: widened(usage.u32_at("total_tokens"@)),
        reasoning_tokens: detail_count(
            usage,
            "completion_tokens_details"@,
            "reasoning_tokens"@,
        ),
        cache_read_tokens: detail_count(usage, "prompt_tokens_details"@, "cached_tokens"@),
        cache_write_tokens: detail_count(usage, "prompt_tokens_details"@, "cache_write_tokens"@),
        ext: kept_under(Protocol::OpenAiCompat, usage_residue(usage.fields())),
    }
}

/// Reads the token counts of a reply.
pub fn ingest_usage(usage: &Json) -> (r: Usage)
    ensures
        r@ == ingested_usage(usage@),
{
    let mut fields = usage.fields();
    fields.remove("completion_tokens");
    fields.remove("prompt_tokens");
    fields.remove("total_tokens");
    drop_details(&mut fields, "prompt_tokens_details", "cached_tokens", "cache_write_tokens");
    drop_details(
        &mut fields,
        "completion_tokens_details",
        "reasoning_tokens",
        "reasoning_tokens",
    );
    Usage {
        input_tokens: widen(usage.u32_at("prompt_tokens")),
        output_tokens: widen(usage.u32_at("completion_tokens")),
        total_tokens: widen(usage.u32_at("total_tokens")),
        reasoning_tokens: read_detail(usage, "completion_tokens_details", "reasoning_tokens"),
        cache_read_tokens: read_detail(usage, "prompt_tokens_details", "cached_tokens"),
        cache_write_tokens: read_detail(usage, "prompt_tokens_details", "cache_write_tokens"),
        ext: namespaced(Protocol::OpenAiCompat, fields),
    }
}

/// The token counts a document gives, where it gives any.
pub open spec fn usage_in(value: JsonView) -> Option<UsageView> {
    match value.get("usage"@) {
        Some(JsonView::Object(fields)) => Some(ingested_usage(JsonView::Object(fields))),
        _ => None,
    }
}

/// Reads the token counts a document gives.
pub fn read_usage(value: &Json) -> (r: Option<Usage>)
    ensures
        r.deep_view() == usage_in(value@),
{
    match value.get("usage") {
        Some(usage @ Json::Object(_)) => Some(ingest_usage(usage)),
        _ => None,
    }
}

/// What a reply keeps. Token counts that are not there, but are said to be
/// `null`, are kept so.
pub open spec fn response_residue(response: JsonView) -> FieldsView {
    let f = without(without(response.fields(), "id"@), "choices"@);
    let f = without(without(f, "created"@), "model"@);
    if usage_in(response) is Some {
        without(f, "usage"@)
    } else {
        f
    }
}

/// Takes out what a reply does not keep.
pub fn keep_response(response: &Json) -> (r: Fields)
    ensures
        r@ == response_residue(response@),
{
    let mut fields = response.fields();
    fields.remove("id");
    fields.remove("choices");
    fields.remove("created");
    fields.remove("model");
    if let Some(Json::Object(_)) = response.get("usage") {
        fields.remove("usage");
    }
    fields
}

/// The text of a field; empty where there is none.
pub open spec fn text_or_empty(value: JsonView, key: Seq<char>) -> Seq<char> {
    match value.str_at(key) {
        Some(text) => text,
        None => Seq::empty(),
    }
}

/// Reads the text of a field.
pub fn str_or_empty(value: &Json, key: &str) -> (r: String)
    ensures
        r@ == text_or_empty(value@, key@),
{
    match value.str_at(key) {
        Some(text) => text,
        None => String::new(),
    }
}

/// The reply a wire reply stands for.
pub open spec fn ingested_response(response: JsonView) -> ChatResponseView {
    ChatResponseView {
        id: text_or_empty(response, "id"@),
        model: text_or_empty(response, "model"@),
        created: response.u64_at("created"@),
        completions: response.items_at("choices"@).map_values(
            |choice: JsonView| ingested_choice(choice),
        ),
        usage: usage_in(response),
        ext: kept_under(Protocol::OpenAiCompat, response_residue(response)),
        source: Some(IngestSourceView { protocol: Protocol::OpenAiCompat, body: response }),
    }
}

/// Reads a whole reply.
pub fn ingest_response(response: &Json) -> (r: ChatResponse)
    ensures
        r@ == ingested_response(response@),
{
    let mut completions: Vec<Completion> = Vec::new();
    if let Some(choices) = response.items_at("choices") {
        for i in 0..choices.len()
            invariant
                completions.len() == i,
                forall|k: int| 0 <= k < i ==> completions@[k]@ == ingested_choice(choices@[k]@),
        {
            completions.push(ingest_choice(&choices[i]));
        }
    }
    assert(completions.deep_view() =~= response@.items_at("choices"@).map_values(
        |choice: JsonView| ingested_choice(choice),
    ));
    ChatResponse {
        id: str_or_empty(response, "id"),
        model: str_or_empty(response, "model"),
        created: response.u64_at("created"),
        completions,
        usage: read_usage(response),
        ext: namespaced(Protocol::OpenAiCompat, keep_response(response)),
        source: Some(
            IngestSource { protocol: Protocol::OpenAiCompat, body: response.clone() },
        ),
    }
}

// ---------------------------------------------------------------------------
// Rendering
// ---------------------------------------------------------------------------

/// The protocol's word for why a reply ended; the provider's own where the
/// protocol has none.
pub open spec fn rendered_reason(raw: Seq<char>, reason: FinishReason) -> Seq<char> {
    match reason {
        FinishReason::Stop => "stop"@,
        FinishReason::Length => "length"@,
        FinishReason::ToolCalls => "tool_calls"@,
        FinishReason::ContentFilter => "content_filter"@,
        FinishReason::Other => raw,
    }
}

/// Writes why a reply ended.
pub fn render_finish_reason(raw: &str, reason: FinishReason) -> (r: String)
    ensures
        r@ == rendered_reason(raw@, reason),
{
    match reason {
        FinishReason::Stop => "stop".to_owned(),
        FinishReason::Length => "length".to_owned(),
        FinishReason::ToolCalls => "tool_calls".to_owned(),
        FinishReason::ContentFilter => "content_filter".to_owned(),
        FinishReason::Other => raw.to_owned(),
    }
}

/// The texts among the blocks, one to a line.
pub open spec fn joined_text(blocks: Seq<ContentBlockView>) -> Option<Seq<char>>
    decreases blocks.len(),
{
    if blocks.len() == 0 {
        None
    } else {
        let before = joined_text(blocks.drop_last());
        match blocks.last() {
            ContentBlockView::Text { text, .. } => match before {
                Some(head) => Some(head + "\n"@ + text),
                None => Some(text),
            },
            _ => before,
        }
    }
}

fn join_text(blocks: &Vec<ContentBlock>) -> (r: Option<String>)
    ensures
        r.deep_view() == joined_text(block_models(blocks@)),
{
    let ghost all = block_models(blocks@);
    let mut out: Option<String> = None;
    for i in 0..blocks.len()
        invariant
            all == block_models(blocks@),
            out.deep_view() == joined_text(all.take(i as int)),
    {
        let ghost here = all.take(i + 1);
        assert(here.drop_last() =~= all.take(i as int));
        assert(here.last() == blocks@[i as int]@);
        if let ContentBlock::Text { text, .. } = &blocks[i] {
            out = match out {
                Some(head) => {
                    let mut line = head;
                    line.append("\n");
                    line.append(text.as_str());
                    Some(line)
                },
                None => Some(text.clone()),
            };
        }
    }
    assert(all.take(all.len() as int) =~= all);
    out
}

/// The tool calls among the blocks, those kept whole included.
pub open spec fn reply_calls(blocks: Seq<ContentBlockView>) -> Seq<JsonView>
    decreases blocks.len(),
{
    if blocks.len() == 0 {
        Seq::empty()
    } else {
        let before = reply_calls(blocks.drop_last());
        match blocks.last() {
            ContentBlockView::ToolCall { id, name, arguments } => before.push(
                function_call(id, name, arguments),
            ),
            ContentBlockView::Unknown(value) => if call_shape(value) {
                before.push(value)
            } else {
                before
            },
            _ => before,
        }
    }
}

fn render_calls(blocks: &Vec<ContentBlock>) -> (r: Vec<Json>)
    ensures
        models(r@) == reply_calls(block_models(blocks@)),
{
    let ghost all = block_models(blocks@);
    let mut calls: Vec<Json> = Vec::new();
    for i in 0..blocks.len()
        invariant
            all == block_models(blocks@),
            models(calls@) == reply_calls(all.take(i as int)),
    {
        let ghost here = all.take(i + 1);
        assert(here.drop_last() =~= all.take(i as int));
        assert(here.last() == blocks@[i as int]@);
        match &blocks[i] {
            ContentBlock::ToolCall { id, name, arguments } => {
                calls.push(render_function_call(id.as_str(), name.as_str(), arguments.as_str()));
                assert(models(calls@) =~= reply_calls(here));
            },
            ContentBlock::Unknown(value) => {
                if is_call(value) {
                    calls.push(value.clone());
                    assert(models(calls@) =~= reply_calls(here));
                }
            },
            _ => {},
        }
    }
    assert(all.take(all.len() as int) =~= all);
    calls
}

/// A text, or `null`.
pub open spec fn string_or_null(text: Option<Seq<char>>) -> JsonView {
    match text {
        Some(text) => string(text),
        None => JsonView::Null,
    }
}

/// Writes a text, or `null`.
pub fn json_or_null(text: Option<String>) -> (r: Json)
    ensures
        r@ == string_or_null(text.deep_view()),
{
    match text {
        Some(text) => Json::String(text),
        None => Json::Null,
    }
}

/// The fields of a message without those that are not of their type.
pub open spec fn message_typed(fields: FieldsView) -> FieldsView {
    let f = typed(fields, "annotations"@, |v: JsonView| annotations_shape(v));
    let f = typed(f, "audio"@, |v: JsonView| audio_shape(v));
    typed(f, "function_call"@, |v: JsonView| legacy_call_shape(v))
}

fn settle_message(fields: &mut Fields)
    ensures
        final(fields)@ == message_typed(old(fields)@),
{
    let keep = match fields.get("annotations") {
        Some(v) => are_annotations(v),
        None => false,
    };
    fields.settle("annotations", keep, None);
    let keep = match fields.get("audio") {
        Some(v) => is_audio(v),
        None => false,
    };
    fields.settle("audio", keep, None);
    let keep = match fields.get("function_call") {
        Some(v) => is_legacy_call(v),
        None => false,
    };
    fields.settle("function_call", keep, None);
}

/// The fields of the message of a rendered reply. Its content and its refusal are
/// always there, though they be `null`. What was kept for a field and is not of
/// its type is dropped.
pub open spec fn reply_message_fields(
    kept: FieldsView,
    role: Role,
    text: Option<Seq<char>>,
    calls: Seq<JsonView>,
) -> FieldsView {
    let f = put(kept, "role"@, string(rendered_role(kept, role)));
    let f = put(f, "content"@, string_or_null(text));
    let f = message_typed(put(f, "refusal"@, string_or_null(text_at(kept, "refusal"@))));
    if calls.len() > 0 {
        put(f, "tool_calls"@, JsonView::Array(calls))
    } else {
        f
    }
}

/// The message of a rendered reply.
pub open spec fn rendered_reply_message(message: MessageView, provider: Seq<char>) -> JsonView {
    JsonView::Object(
        reply_message_fields(
            merged(Protocol::OpenAiCompat, message.ext, provider),
            message.role,
            joined_text(message.content),
            reply_calls(message.content),
        ),
    )
}

fn render_message(message: &Message, provider: &str) -> (r: Json)
    ensures
        r@ == rendered_reply_message(message@, provider@),
{
    let mut fields = merged_ext(Protocol::OpenAiCompat, &message.ext, provider);
    let role = match take_string(&fields, "role") {
        Some(raw) => raw,
        None => role_to_wire(message.role).to_owned(),
    };
    let refusal = take_string(&fields, "refusal");
    let calls = render_calls(&message.content);
    assert(models(calls@).len() == calls@.len());
    fields.put("role", Json::String(role));
    fields.put("content", json_or_null(join_text(&message.content)));
    fields.put("refusal", json_or_null(refusal));
    settle_message(&mut fields);
    if calls.len() > 0 {
        fields.put("tool_calls", Json::Array(calls));
    }
    Json::Object(fields)
}

/// The index of a choice: the one it came with, else its place in the list.
pub open spec fn rendered_index(fields: FieldsView, position: int) -> u32 {
    match find(fields, "index"@) {
        Some(value) => match value.as_u64() {
            Some(n) => n as u32,
            None => position as u64 as u32,
        },
        None => position as u64 as u32,
    }
}

/// Reads the index of a choice.
pub fn choice_index(fields: &Fields, position: usize) -> (r: u32)
    ensures
        r == rendered_index(fields@, position as int),
{
    let kept: Option<u64> = match fields.get("index") {
        Some(value) => value.as_u64(),
        None => None,
    };
    let n: u64 = match kept {
        Some(n) => n,
        None => position as u64,
    };
    #[verifier::truncate]
    (n as u32)
}

/// A choice of a rendered reply.
pub open spec fn rendered_choice(
    completion: CompletionView,
    position: int,
    provider: Seq<char>,
) -> JsonView {
    let fields = merged(Protocol::OpenAiCompat, completion.ext, provider);
    let f = put(fields, "index"@, count(rendered_index(fields, position) as u64));
    let f = typed(f, "logprobs"@, |v: JsonView| logprobs_shape(v));
    let f = put(
        f,
        "finish_reason"@,
        string(rendered_reason(completion.finish_reason_raw, completion.finish_reason)),
    );
    JsonView::Object(
        put(f, "message"@, rendered_reply_message(completion.message, provider)),
    )
}

fn render_choice(completion: &Completion, position: usize, provider: &str) -> (r: Json)
    ensures
        r@ == rendered_choice(completion@, position as int, provider@),
{
    let mut fields = merged_ext(Protocol::OpenAiCompat, &completion.ext, provider);
    let index: u32 = choice_index(&fields, position);
    fields.put("index", Json::count(index as u64));
    let keep = match fields.get("logprobs") {
        Some(v) => is_logprobs(v),
        None => false,
    };
    fields.settle("logprobs", keep, None);
    let reason = render_finish_reason(
        completion.finish_reason_raw.as_str(),
        completion.finish_reason,
    );
    fields.put("finish_reason", Json::String(reason));
    fields.put("message", render_message(&completion.message, provider));
    Json::Object(fields)
}

/// The fields with a count set, where there is one.
pub open spec fn with_count(fields: FieldsView, key: Seq<char>, n: Option<u64>) -> FieldsView {
    match n {
        Some(n) => put(fields, key, count(n)),
        None => fields,
    }
}

fn put_count(fields: &mut Fields, key: &str, n: Option<u64>)
    ensures
        final(fields)@ == with_count(old(fields)@, key@, n),
{
    if let Some(n) = n {
        fields.put(key, Json::count(n));
    }
}

/// The fields of a usage with two counts set in its details. Details that are
/// not there are made where there is a count to hold; what is no details is
/// dropped.
pub open spec fn with_details(
    fields: FieldsView,
    details: Seq<char>,
    key1: Seq<char>,
    n1: Option<u64>,
    key2: Seq<char>,
    n2: Option<u64>,
) -> FieldsView {
    match find(fields, details) {
        Some(JsonView::Object(inner)) => put(
            fields,
            details,
            JsonView::Object(with_count(with_count(inner, key1, n1), key2, n2)),
        ),
        held => if n1 is None && n2 is None {
            if held == Some(JsonView::Null) {
                fields
            } else {
                without(fields, details)
            }
        } else {
            put(
                fields,
                details,
                JsonView::Object(with_count(with_count(no_fields(), key1, n1), key2, n2)),
            )
        },
    }
}

fn render_details(
    fields: &mut Fields,
    details: &str,
    key1: &str,
    n1: Option<u64>,
    key2: &str,
    n2: Option<u64>,
)
    ensures
        final(fields)@ == with_details(old(fields)@, details@, key1@, n1, key2@, n2),
{
    let inner: Option<Fields> = match fields.get(details) {
        Some(Json::Object(inner)) => Some(inner.clone()),
        _ => None,
    };
    let mut inner = match inner {
        Some(inner) => inner,
        None => {
            if n1.is_none() && n2.is_none() {
                let null = match fields.get(details) {
                    Some(held) => held.is_null(),
                    None => false,
                };
                if !null {
                    fields.remove(details);
                }
                return ;
            }
            Fields::new()
        },
    };
    put_count(&mut inner, key1, n1);
    put_count(&mut inner, key2, n2);
    fields.put(details, Json::Object(inner));
}

/// A count of a usage; zero where there is none.
pub open spec fn token_count(n: Option<u64>) -> JsonView {
    count(
        match n {
            Some(n) => (n as u32) as u64,
            None => 0,
        },
    )
}

/// Writes a count of a usage.
pub fn json_tokens(n: Option<u64>) -> (r: Json)
    ensures
        r@ == token_count(n),
{
    match n {
        Some(n) => {
            let n: u32 = #[verifier::truncate] (n as u32);
            Json::count(n as u64)
        },
        None => Json::count(0),
    }
}

/// The usage of a rendered reply.
pub open spec fn rendered_usage(usage: UsageView, provider: Seq<char>) -> JsonView {
    let f = merged(Protocol::OpenAiCompat, usage.ext, provider);
    let f = with_details(
        f,
        "prompt_tokens_details"@,
        "cached_tokens"@,
        usage.cache_read_tokens,
        "cache_write_tokens"@,
        usage.cache_write_tokens,
    );
    let f = with_details(
        f,
        "completion_tokens_details"@,
        "reasoning_tokens"@,
        usage.reasoning_tokens,
        "reasoning_tokens"@,
        None,
    );
    let f = put(f, "completion_tokens"@, token_count(usage.output_tokens));
    let f = put(f, "prompt_tokens"@, token_count(usage.input_tokens));
    JsonView::Object(put(f, "total_tokens"@, token_count(usage.total_tokens)))
}

/// Renders the token counts of a reply.
pub fn render_usage(usage: &Usage, provider: &str) -> (r: Json)
    ensures
        r@ == rendered_usage(usage@, provider@),
{
    let mut fields = merged_ext(Protocol::OpenAiCompat, &usage.ext, provider);
    render_details(
        &mut fields,
        "prompt_tokens_details",
        "cached_tokens",
        usage.cache_read_tokens,
        "cache_write_tokens",
        usage.cache_write_tokens,
    );
    render_details(
        &mut fields,
        "completion_tokens_details",
        "reasoning_tokens",
        usage.reasoning_tokens,
        "reasoning_tokens",
        None,
    );
    fields.put("completion_tokens", json_tokens(usage.output_tokens));
    fields.put("prompt_tokens", json_tokens(usage.input_tokens));
    fields.put("total_tokens", json_tokens(usage.total_tokens));
    Json::Object(fields)
}

/// The fields with the token counts of a reply. A `null` that stood for them is
/// kept; anything else that did is not.
pub open spec fn with_usage(
    fields: FieldsView,
    usage: Option<UsageView>,
    provider: Seq<char>,
) -> FieldsView {
    match usage {
        Some(usage) => put(fields, "usage"@, rendered_usage(usage, provider)),
        None => if find(fields, "usage"@) == Some(JsonView::Null) {
            fields
        } else {
            without(fields, "usage"@)
        },
    }
}

/// Sets the token counts of a reply.
pub fn put_usage(fields: &mut Fields, usage: &Option<Usage>, provider: &str)
    ensures
        final(fields)@ == with_usage(old(fields)@, usage.deep_view(), provider@),
{
    match usage {
        Some(usage) => {
            fields.put("usage", render_usage(usage, provider));
        },
        None => {
            let null = match fields.get("usage") {
                Some(value) => value.is_null(),
                None => false,
            };
            if !null {
                fields.remove("usage");
            }
        },
    }
}

/// The fields of an envelope without those that are not of their type.
pub open spec fn envelope_typed(fields: FieldsView) -> FieldsView {
    let f = typed(fields, "moderation"@, |v: JsonView| moderation_shape(v));
    let f = typed(f, "service_tier"@, |v: JsonView| nullable_string(v));
    typed(f, "system_fingerprint"@, |v: JsonView| v is String)
}

fn settle_envelope(fields: &mut Fields)
    ensures
        final(fields)@ == envelope_typed(old(fields)@),
{
    let keep = match fields.get("moderation") {
        Some(v) => is_moderation(v),
        None => false,
    };
    fields.settle("moderation", keep, None);
    let keep = match fields.get("service_tier") {
        Some(v) => is_nullable_string(v),
        None => false,
    };
    fields.settle("service_tier", keep, None);
    let keep = match fields.get("system_fingerprint") {
        Some(Json::String(_)) => true,
        _ => false,
    };
    fields.settle("system_fingerprint", keep, None);
}

/// The fields of a rendered reply or chunk. What was kept for a field and is not
/// of its type is dropped.
pub open spec fn with_envelope(
    fields: FieldsView,
    object: Seq<char>,
    id: Seq<char>,
    model: Seq<char>,
    created: Option<u64>,
    choices: Seq<JsonView>,
) -> FieldsView {
    let f = settled(
        fields,
        "object"@,
        present(fields, "object"@, |v: JsonView| v is String),
        Some(string(object)),
    );
    let f = envelope_typed(f);
    let f = put(f, "id"@, string(id));
    let f = put(f, "model"@, string(model));
    let f = put(
        f,
        "created"@,
        count(
            match created {
                Some(n) => n,
                None => 0,
            },
        ),
    );
    put(f, "choices"@, JsonView::Array(choices))
}

/// Sets the fields of a rendered reply or chunk.
pub fn put_envelope(
    fields: &mut Fields,
    object: &str,
    id: &String,
    model: &String,
    created: Option<u64>,
    choices: Vec<Json>,
)
    ensures
        final(fields)@ == with_envelope(
            old(fields)@,
            object@,
            id@,
            model@,
            created,
            models(choices@),
        ),
{
    let keep = match fields.get("object") {
        Some(Json::String(_)) => true,
        _ => false,
    };
    fields.settle("object", keep, Some(Json::text(object)));
    settle_envelope(fields);
    fields.put("id", Json::String(id.clone()));
    fields.put("model", Json::String(model.clone()));
    let created: u64 = match created {
        Some(n) => n,
        None => 0,
    };
    fields.put("created", Json::count(created));
    fields.put("choices", Json::Array(choices));
}

/// The choices of a rendered reply.
pub open spec fn rendered_choices(
    completions: Seq<CompletionView>,
    provider: Seq<char>,
) -> Seq<JsonView> {
    Seq::new(completions.len(), |i: int| rendered_choice(completions[i], i, provider))
}

/// The reply on the wire.
pub open spec fn rendered_response(response: ChatResponseView, provider: Seq<char>) -> JsonView {
    let fields = merged(Protocol::OpenAiCompat, response.ext, provider);
    JsonView::Object(
        with_envelope(
            with_usage(fields, response.usage, provider),
            "chat.completion"@,
            response.id,
            response.model,
            response.created,
            rendered_choices(response.completions, provider),
        ),
    )
}

/// Renders a whole reply.
pub fn render_response(response: &ChatResponse, provider: &str) -> (r: Json)
    ensures
        r@ == rendered_response(response@, provider@),
{
    let mut fields = merged_ext(Protocol::OpenAiCompat, &response.ext, provider);
    let mut choices: Vec<Json> = Vec::new();
    for i in 0..response.completions.len()
        invariant
            choices.len() == i,
            forall|k: int|
                0 <= k < i ==> choices@[k]@ == rendered_choice(
                    response.completions@[k]@,
                    k,
                    provider@,
                ),
    {
        choices.push(render_choice(&response.completions[i], i, provider));
    }
    assert(models(choices@) =~= rendered_choices(response.completions.deep_view(), provider@));
    put_usage(&mut fields, &response.usage, provider);
    put_envelope(
        &mut fields,
        "chat.completion",
        &response.id,
        &response.model,
        response.created,
        choices,
    );
    Json::Object(fields)
}

} // verus!
