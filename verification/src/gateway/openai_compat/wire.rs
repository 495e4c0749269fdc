//! The shapes of chat-completions documents, as far as this library reads them.
use vstd::prelude::*;

use crate::json::{find, models, settled, FieldsView, Json, JsonView};

verus! {

/// The field is absent, or what it holds passes.
pub open spec fn absent_or(
    value: JsonView,
    key: Seq<char>,
    ok: spec_fn(JsonView) -> bool,
) -> bool {
    match value.get(key) {
        Some(field) => ok(field),
        None => true,
    }
}

/// The field is there, and what it holds passes.
pub open spec fn present(
    fields: FieldsView,
    key: Seq<char>,
    ok: spec_fn(JsonView) -> bool,
) -> bool {
    match find(fields, key) {
        Some(field) => ok(field),
        None => false,
    }
}

/// The fields without `key`, where what it holds does not pass.
pub open spec fn typed(
    fields: FieldsView,
    key: Seq<char>,
    ok: spec_fn(JsonView) -> bool,
) -> FieldsView {
    settled(fields, key, present(fields, key, ok), None)
}

/// Every item passes.
pub open spec fn all_items(items: Seq<JsonView>, ok: spec_fn(JsonView) -> bool) -> bool {
    forall|i: int| 0 <= i < items.len() ==> ok(#[trigger] items[i])
}

/// A number or `null`.
pub open spec fn nullable_number(value: JsonView) -> bool {
    value is Number || value is Null
}

/// Whether [`nullable_number`] holds of the value.
pub fn is_nullable_number(value: &Json) -> (r: bool)
    ensures
        r == nullable_number(value@),
{
    match value {
        Json::Number(_) | Json::Null => true,
        _ => false,
    }
}

/// A count of 32 bits or `null`.
pub open spec fn nullable_u32(value: JsonView) -> bool {
    value.as_u32() is Some || value is Null
}

/// Whether [`nullable_u32`] holds of the value.
pub fn is_nullable_u32(value: &Json) -> (r: bool)
    ensures
        r == nullable_u32(value@),
{
    value.is_null() || value.as_u32().is_some()
}

/// A text or `null`.
pub open spec fn nullable_string(value: JsonView) -> bool {
    value is String || value is Null
}

/// Whether [`nullable_string`] holds of the value.
pub fn is_nullable_string(value: &Json) -> (r: bool)
    ensures
        r == nullable_string(value@),
{
    match value {
        Json::String(_) | Json::Null => true,
        _ => false,
    }
}

/// A boolean or `null`.
pub open spec fn nullable_bool(value: JsonView) -> bool {
    value is Bool || value is Null
}

/// Whether [`nullable_bool`] holds of the value.
pub fn is_nullable_bool(value: &Json) -> (r: bool)
    ensures
        r == nullable_bool(value@),
{
    match value {
        Json::Bool(_) | Json::Null => true,
        _ => false,
    }
}

/// The texts in a row, where every item is one.
pub open spec fn all_strings(items: Seq<JsonView>) -> bool {
    all_items(items, |item: JsonView| item is String)
}

/// Whether [`all_strings`] holds of the items.
pub fn are_strings(items: &Vec<Json>) -> (r: bool)
    ensures
        r == all_strings(models(items@)),
{
    for i in 0..items.len()
        invariant
            forall|k: int| 0 <= k < i ==> models(items@)[k] is String,
    {
        assert(models(items@)[i as int] == items@[i as int]@);
        match &items[i] {
            Json::String(_) => {},
            _ => {
                return false;
            },
        }
    }
    true
}

/// The sequences to stop at: one text, several, or `null`.
pub open spec fn stop_shape(value: JsonView) -> bool {
    match value {
        JsonView::Null => true,
        JsonView::String(_) => true,
        JsonView::Array(items) => all_strings(items),
        _ => false,
    }
}

/// Whether [`stop_shape`] holds of the value.
pub fn is_stop(value: &Json) -> (r: bool)
    ensures
        r == stop_shape(value@),
{
    match value {
        Json::Null | Json::String(_) => true,
        Json::Array(items) => are_strings(items),
        _ => false,
    }
}

/// Options for a stream: an object, or `null`.
pub open spec fn stream_options_shape(value: JsonView) -> bool {
    value is Null || (value is Object && absent_or(
        value,
        "include_usage"@,
        |v: JsonView| nullable_bool(v),
    ))
}

/// Whether [`stream_options_shape`] holds of the value.
pub fn is_stream_options(value: &Json) -> (r: bool)
    ensures
        r == stream_options_shape(value@),
{
    match value {
        Json::Null => true,
        Json::Object(_) => match value.get("include_usage") {
            Some(flag) => is_nullable_bool(flag),
            None => true,
        },
        _ => false,
    }
}

/// The function a tool describes.
pub open spec fn function_shape(value: JsonView) -> bool {
    &&& value is Object
    &&& value.str_at("name"@) is Some
    &&& absent_or(value, "description"@, |v: JsonView| nullable_string(v))
    &&& absent_or(value, "strict"@, |v: JsonView| nullable_bool(v))
}

/// Whether [`function_shape`] holds of the value.
pub fn is_function(value: &Json) -> (r: bool)
    ensures
        r == function_shape(value@),
{
    let described = match value.get("description") {
        Some(text) => is_nullable_string(text),
        None => true,
    };
    let strict = match value.get("strict") {
        Some(flag) => is_nullable_bool(flag),
        None => true,
    };
    value.as_object().is_some() && value.str_at("name").is_some() && described && strict
}

/// A tool: its type, and the function it is, if it is one.
pub open spec fn tool_shape(value: JsonView) -> bool {
    &&& value is Object
    &&& value.str_at("type"@) is Some
    &&& absent_or(value, "function"@, |v: JsonView| v is Null || function_shape(v))
}

/// Whether [`tool_shape`] holds of the value.
pub fn is_tool(value: &Json) -> (r: bool)
    ensures
        r == tool_shape(value@),
{
    let function = match value.get("function") {
        Some(function) => function.is_null() || is_function(function),
        None => true,
    };
    value.as_object().is_some() && value.str_at("type").is_some() && function
}

/// Several tools.
pub open spec fn tools_shape(value: JsonView) -> bool {
    value matches JsonView::Array(items) && all_items(items, |v: JsonView| tool_shape(v))
}

/// Whether [`tools_shape`] holds of the value.
pub fn is_tools(value: &Json) -> (r: bool)
    ensures
        r == tools_shape(value@),
{
    match value {
        Json::Array(items) => {
            for i in 0..items.len()
                invariant
                    value@ == JsonView::Array(models(items@)),
                    forall|k: int| 0 <= k < i ==> tool_shape(models(items@)[k]),
            {
                assert(models(items@)[i as int] == items@[i as int]@);
                if !is_tool(&items[i]) {
                    return false;
                }
            }
            true
        },
        _ => false,
    }
}

/// The form a reply must have.
pub open spec fn response_format_shape(value: JsonView) -> bool {
    value is Object && value.str_at("type"@) is Some
}

/// Whether [`response_format_shape`] holds of the value.
pub fn is_response_format(value: &Json) -> (r: bool)
    ensures
        r == response_format_shape(value@),
{
    value.as_object().is_some() && value.str_at("type").is_some()
}

/// The content of a message: text, parts, or `null`.
pub open spec fn content_shape(value: JsonView) -> bool {
    value is String || value is Array || value is Null
}

/// Whether [`content_shape`] holds of the value.
pub fn is_content(value: &Json) -> (r: bool)
    ensures
        r == content_shape(value@),
{
    match value {
        Json::String(_) | Json::Array(_) | Json::Null => true,
        _ => false,
    }
}

/// A call of a function.
pub open spec fn function_call_shape(value: JsonView) -> bool {
    &&& value is Object
    &&& value.str_at("id"@) is Some
    &&& value.str_at("type"@) is Some
    &&& value.get("function"@) is Some
    &&& value.get("function"@)->0.str_at("name"@) is Some
    &&& value.get("function"@)->0.str_at("arguments"@) is Some
}

/// Whether [`function_call_shape`] holds of the value.
pub fn is_function_call(value: &Json) -> (r: bool)
    ensures
        r == function_call_shape(value@),
{
    let named = match value.get("function") {
        Some(function) => function.str_at("name").is_some() && function.str_at(
            "arguments",
        ).is_some(),
        None => false,
    };
    value.as_object().is_some() && value.str_at("id").is_some() && value.str_at("type").is_some()
        && named
}

/// A call of a tool that is no function.
pub open spec fn custom_call_shape(value: JsonView) -> bool {
    &&& value is Object
    &&& value.str_at("id"@) is Some
    &&& value.str_at("type"@) is Some
    &&& value.get("custom"@) is Some
    &&& value.get("custom"@)->0.str_at("name"@) is Some
    &&& value.get("custom"@)->0.str_at("input"@) is Some
}

/// Whether [`custom_call_shape`] holds of the value.
pub fn is_custom_call(value: &Json) -> (r: bool)
    ensures
        r == custom_call_shape(value@),
{
    let named = match value.get("custom") {
        Some(custom) => custom.str_at("name").is_some() && custom.str_at("input").is_some(),
        None => false,
    };
    value.as_object().is_some() && value.str_at("id").is_some() && value.str_at("type").is_some()
        && named
}

/// A tool call.
pub open spec fn call_shape(value: JsonView) -> bool {
    function_call_shape(value) || custom_call_shape(value)
}

/// Whether [`call_shape`] holds of the value.
pub fn is_call(value: &Json) -> (r: bool)
    ensures
        r == call_shape(value@),
{
    is_function_call(value) || is_custom_call(value)
}

/// Several tool calls.
pub open spec fn calls_shape(value: JsonView) -> bool {
    value matches JsonView::Array(items) && all_items(items, |v: JsonView| call_shape(v))
}

/// Whether [`calls_shape`] holds of the value.
pub fn are_calls(value: &Json) -> (r: bool)
    ensures
        r == calls_shape(value@),
{
    match value {
        Json::Array(items) => {
            for i in 0..items.len()
                invariant
                    value@ == JsonView::Array(models(items@)),
                    forall|k: int| 0 <= k < i ==> call_shape(models(items@)[k]),
            {
                assert(models(items@)[i as int] == items@[i as int]@);
                if !is_call(&items[i]) {
                    return false;
                }
            }
            true
        },
        _ => false,
    }
}

/// A message of a request.
pub open spec fn message_shape(value: JsonView) -> bool {
    &&& value is Object
    &&& value.str_at("role"@) is Some
    &&& absent_or(value, "content"@, |v: JsonView| content_shape(v))
    &&& absent_or(value, "tool_calls"@, |v: JsonView| v is Null || calls_shape(v))
    &&& absent_or(value, "tool_call_id"@, |v: JsonView| nullable_string(v))
}

/// Whether [`message_shape`] holds of the value.
pub fn is_message(value: &Json) -> (r: bool)
    ensures
        r == message_shape(value@),
{
    let content = match value.get("content") {
        Some(content) => is_content(content),
        None => true,
    };
    let calls = match value.get("tool_calls") {
        Some(calls) => calls.is_null() || are_calls(calls),
        None => true,
    };
    let id = match value.get("tool_call_id") {
        Some(id) => is_nullable_string(id),
        None => true,
    };
    value.as_object().is_some() && value.str_at("role").is_some() && content && calls && id
}

/// The messages of a request.
pub open spec fn messages_shape(value: JsonView) -> bool {
    value matches JsonView::Array(items) && all_items(items, |v: JsonView| message_shape(v))
}

/// Whether [`messages_shape`] holds of the value.
pub fn are_messages(value: &Json) -> (r: bool)
    ensures
        r == messages_shape(value@),
{
    match value {
        Json::Array(items) => {
            for i in 0..items.len()
                invariant
                    value@ == JsonView::Array(models(items@)),
                    forall|k: int| 0 <= k < i ==> message_shape(models(items@)[k]),
            {
                assert(models(items@)[i as int] == items@[i as int]@);
                if !is_message(&items[i]) {
                    return false;
                }
            }
            true
        },
        _ => false,
    }
}

/// A chat-completions request.
pub open spec fn request_shape(value: JsonView) -> bool {
    &&& value is Object
    &&& value.str_at("model"@) is Some
    &&& present(value.fields(), "messages"@, |v: JsonView| messages_shape(v))
    &&& absent_or(value, "temperature"@, |v: JsonView| nullable_number(v))
    &&& absent_or(value, "max_tokens"@, |v: JsonView| nullable_u32(v))
    &&& absent_or(value, "top_p"@, |v: JsonView| nullable_number(v))
    &&& absent_or(value, "stop"@, |v: JsonView| stop_shape(v))
    &&& absent_or(value, "stream"@, |v: JsonView| nullable_bool(v))
    &&& absent_or(value, "stream_options"@, |v: JsonView| stream_options_shape(v))
    &&& absent_or(value, "tools"@, |v: JsonView| v is Null || tools_shape(v))
    &&& absent_or(value, "response_format"@, |v: JsonView| v is Null || response_format_shape(v))
    &&& absent_or(value, "reasoning_effort"@, |v: JsonView| nullable_string(v))
}

/// Whether a document is a chat-completions request.
pub fn is_request(value: &Json) -> (r: bool)
    ensures
        r == request_shape(value@),
{
    let messages = match value.get("messages") {
        Some(messages) => are_messages(messages),
        None => false,
    };
    let temperature = match value.get("temperature") {
        Some(v) => is_nullable_number(v),
        None => true,
    };
    let max_tokens = match value.get("max_tokens") {
        Some(v) => is_nullable_u32(v),
        None => true,
    };
    let top_p = match value.get("top_p") {
        Some(v) => is_nullable_number(v),
        None => true,
    };
    let stop = match value.get("stop") {
        Some(v) => is_stop(v),
        None => true,
    };
    let stream = match value.get("stream") {
        Some(v) => is_nullable_bool(v),
        None => true,
    };
    let stream_options = match value.get("stream_options") {
        Some(v) => is_stream_options(v),
        None => true,
    };
    let tools = match value.get("tools") {
        Some(v) => v.is_null() || is_tools(v),
        None => true,
    };
    let response_format = match value.get("response_format") {
        Some(v) => v.is_null() || is_response_format(v),
        None => true,
    };
    let effort = match value.get("reasoning_effort") {
        Some(v) => is_nullable_string(v),
        None => true,
    };
    value.as_object().is_some() && value.str_at("model").is_some() && messages && temperature
        && max_tokens && top_p && stop && stream && stream_options && tools && response_format
        && effort
}

/// The function of a piece of a tool call.
pub open spec fn chunk_function_shape(value: JsonView) -> bool {
    &&& value is Object
    &&& absent_or(value, "arguments"@, |v: JsonView| nullable_string(v))
    &&& absent_or(value, "name"@, |v: JsonView| nullable_string(v))
}

/// Whether [`chunk_function_shape`] holds of the value.
pub fn is_chunk_function(value: &Json) -> (r: bool)
    ensures
        r == chunk_function_shape(value@),
{
    let arguments = match value.get("arguments") {
        Some(v) => is_nullable_string(v),
        None => true,
    };
    let name = match value.get("name") {
        Some(v) => is_nullable_string(v),
        None => true,
    };
    value.as_object().is_some() && arguments && name
}

/// A piece of a tool call.
pub open spec fn call_chunk_shape(value: JsonView) -> bool {
    &&& value is Object
    &&& value.u32_at("index"@) is Some
    &&& absent_or(value, "id"@, |v: JsonView| nullable_string(v))
    &&& absent_or(value, "type"@, |v: JsonView| nullable_string(v))
    &&& absent_or(value, "function"@, |v: JsonView| v is Null || chunk_function_shape(v))
}

/// Whether [`call_chunk_shape`] holds of the value.
pub fn is_call_chunk(value: &Json) -> (r: bool)
    ensures
        r == call_chunk_shape(value@),
{
    let id = match value.get("id") {
        Some(v) => is_nullable_string(v),
        None => true,
    };
    let kind = match value.get("type") {
        Some(v) => is_nullable_string(v),
        None => true,
    };
    let function = match value.get("function") {
        Some(v) => v.is_null() || is_chunk_function(v),
        None => true,
    };
    value.as_object().is_some() && value.u32_at("index").is_some() && id && kind && function
}

/// Several pieces of tool calls.
pub open spec fn call_chunks_shape(value: JsonView) -> bool {
    value matches JsonView::Array(items) && all_items(items, |v: JsonView| call_chunk_shape(v))
}

/// Whether [`call_chunks_shape`] holds of the value.
pub fn are_call_chunks(value: &Json) -> (r: bool)
    ensures
        r == call_chunks_shape(value@),
{
    match value {
        Json::Array(items) => {
            for i in 0..items.len()
                invariant
                    value@ == JsonView::Array(models(items@)),
                    forall|k: int| 0 <= k < i ==> call_chunk_shape(models(items@)[k]),
            {
                assert(models(items@)[i as int] == items@[i as int]@);
                if !is_call_chunk(&items[i]) {
                    return false;
                }
            }
            true
        },
        _ => false,
    }
}

/// What moderation made of a reply.
pub open spec fn moderation_shape(value: JsonView) -> bool {
    value is Object || value is Null
}

/// Whether [`moderation_shape`] holds of the value.
pub fn is_moderation(value: &Json) -> (r: bool)
    ensures
        r == moderation_shape(value@),
{
    match value {
        Json::Object(_) | Json::Null => true,
        _ => false,
    }
}

/// How likely the tokens of a choice were.
pub open spec fn logprobs_shape(value: JsonView) -> bool {
    ||| value is Null
    ||| {
        &&& value is Object
        &&& absent_or(value, "content"@, |v: JsonView| v is Array || v is Null)
        &&& absent_or(value, "refusal"@, |v: JsonView| v is Array || v is Null)
    }
}

/// Whether [`logprobs_shape`] holds of the value.
pub fn is_logprobs(value: &Json) -> (r: bool)
    ensures
        r == logprobs_shape(value@),
{
    let content = match value.get("content") {
        None | Some(Json::Array(_)) | Some(Json::Null) => true,
        Some(_) => false,
    };
    let refusal = match value.get("refusal") {
        None | Some(Json::Array(_)) | Some(Json::Null) => true,
        Some(_) => false,
    };
    value.is_null() || (value.as_object().is_some() && content && refusal)
}

/// What a reply refers to.
pub open spec fn annotations_shape(value: JsonView) -> bool {
    ||| value is Null
    ||| value matches JsonView::Array(items) && all_items(items, |v: JsonView| v is Object)
}

/// Whether [`annotations_shape`] holds of the value.
pub fn are_annotations(value: &Json) -> (r: bool)
    ensures
        r == annotations_shape(value@),
{
    match value {
        Json::Null => true,
        Json::Array(items) => {
            for i in 0..items.len()
                invariant
                    value@ == JsonView::Array(models(items@)),
                    forall|k: int| 0 <= k < i ==> #[trigger] models(items@)[k] is Object,
            {
                assert(models(items@)[i as int] == items@[i as int]@);
                if items[i].as_object().is_none() {
                    return false;
                }
            }
            true
        },
        _ => false,
    }
}

/// The sound of a reply.
pub open spec fn audio_shape(value: JsonView) -> bool {
    ||| value is Null
    ||| {
        &&& value is Object
        &&& absent_or(value, "id"@, |v: JsonView| v is String)
        &&& absent_or(value, "data"@, |v: JsonView| v is String)
        &&& absent_or(value, "expires_at"@, |v: JsonView| v is Number)
        &&& absent_or(value, "transcript"@, |v: JsonView| v is String)
    }
}

/// Whether [`audio_shape`] holds of the value.
pub fn is_audio(value: &Json) -> (r: bool)
    ensures
        r == audio_shape(value@),
{
    let id = match value.get("id") {
        None | Some(Json::String(_)) => true,
        Some(_) => false,
    };
    let data = match value.get("data") {
        None | Some(Json::String(_)) => true,
        Some(_) => false,
    };
    let expires = match value.get("expires_at") {
        None | Some(Json::Number(_)) => true,
        Some(_) => false,
    };
    let transcript = match value.get("transcript") {
        None | Some(Json::String(_)) => true,
        Some(_) => false,
    };
    value.is_null() || (value.as_object().is_some() && id && data && expires && transcript)
}

/// A call in the form that came before tool calls.
pub open spec fn legacy_call_shape(value: JsonView) -> bool {
    value is Null || chunk_function_shape(value)
}

/// Whether [`legacy_call_shape`] holds of the value.
pub fn is_legacy_call(value: &Json) -> (r: bool)
    ensures
        r == legacy_call_shape(value@),
{
    value.is_null() || is_chunk_function(value)
}

/// The token counts of a reply.
pub open spec fn usage_shape(value: JsonView) -> bool {
    &&& value is Object
    &&& value.u32_at("completion_tokens"@) is Some
    &&& value.u32_at("prompt_tokens"@) is Some
    &&& value.u32_at("total_tokens"@) is Some
    &&& absent_or(value, "completion_tokens_details"@, |v: JsonView| v is Null || v is Object)
    &&& absent_or(value, "prompt_tokens_details"@, |v: JsonView| v is Null || v is Object)
}

/// Whether [`usage_shape`] holds of the value.
pub fn is_usage(value: &Json) -> (r: bool)
    ensures
        r == usage_shape(value@),
{
    let completion = match value.get("completion_tokens_details") {
        Some(v) => v.is_null() || v.as_object().is_some(),
        None => true,
    };
    let prompt = match value.get("prompt_tokens_details") {
        Some(v) => v.is_null() || v.as_object().is_some(),
        None => true,
    };
    value.as_object().is_some() && value.u32_at("completion_tokens").is_some() && value.u32_at(
        "prompt_tokens",
    ).is_some() && value.u32_at("total_tokens").is_some() && completion && prompt
}

/// The message of a reply.
pub open spec fn reply_message_shape(value: JsonView) -> bool {
    &&& value is Object
    &&& value.str_at("role"@) is Some
    &&& absent_or(value, "content"@, |v: JsonView| nullable_string(v))
    &&& absent_or(value, "refusal"@, |v: JsonView| nullable_string(v))
    &&& absent_or(value, "tool_calls"@, |v: JsonView| v is Null || calls_shape(v))
    &&& absent_or(value, "annotations"@, |v: JsonView| annotations_shape(v))
    &&& absent_or(value, "audio"@, |v: JsonView| audio_shape(v))
    &&& absent_or(value, "function_call"@, |v: JsonView| legacy_call_shape(v))
}

/// Whether [`reply_message_shape`] holds of the value.
pub fn is_reply_message(value: &Json) -> (r: bool)
    ensures
        r == reply_message_shape(value@),
{
    let content = match value.get("content") {
        Some(v) => is_nullable_string(v),
        None => true,
    };
    let refusal = match value.get("refusal") {
        Some(v) => is_nullable_string(v),
        None => true,
    };
    let calls = match value.get("tool_calls") {
        Some(v) => v.is_null() || are_calls(v),
        None => true,
    };
    let annotations = match value.get("annotations") {
        Some(v) => are_annotations(v),
        None => true,
    };
    let audio = match value.get("audio") {
        Some(v) => is_audio(v),
        None => true,
    };
    let legacy = match value.get("function_call") {
        Some(v) => is_legacy_call(v),
        None => true,
    };
    value.as_object().is_some() && value.str_at("role").is_some() && content && refusal && calls
        && annotations && audio && legacy
}

/// A choice of a reply.
pub open spec fn choice_shape(value: JsonView) -> bool {
    &&& value is Object
    &&& value.str_at("finish_reason"@) is Some
    &&& value.u32_at("index"@) is Some
    &&& present(value.fields(), "message"@, |v: JsonView| reply_message_shape(v))
    &&& absent_or(value, "logprobs"@, |v: JsonView| logprobs_shape(v))
}

/// Whether [`choice_shape`] holds of the value.
pub fn is_choice(value: &Json) -> (r: bool)
    ensures
        r == choice_shape(value@),
{
    let message = match value.get("message") {
        Some(v) => is_reply_message(v),
        None => false,
    };
    let logprobs = match value.get("logprobs") {
        Some(v) => is_logprobs(v),
        None => true,
    };
    value.as_object().is_some() && value.str_at("finish_reason").is_some() && value.u32_at(
        "index",
    ).is_some() && message && logprobs
}

/// The choices of a reply.
pub open spec fn choices_shape(value: JsonView) -> bool {
    value matches JsonView::Array(items) && all_items(items, |v: JsonView| choice_shape(v))
}

/// Whether [`choices_shape`] holds of the value.
pub fn are_choices(value: &Json) -> (r: bool)
    ensures
        r == choices_shape(value@),
{
    match value {
        Json::Array(items) => {
            for i in 0..items.len()
                invariant
                    value@ == JsonView::Array(models(items@)),
                    forall|k: int| 0 <= k < i ==> choice_shape(models(items@)[k]),
            {
                assert(models(items@)[i as int] == items@[i as int]@);
                if !is_choice(&items[i]) {
                    return false;
                }
            }
            true
        },
        _ => false,
    }
}

/// What a reply and each chunk of one have in common.
pub open spec fn envelope_shape(value: JsonView) -> bool {
    &&& value is Object
    &&& value.str_at("id"@) is Some
    &&& value.str_at("model"@) is Some
    &&& value.str_at("object"@) is Some
    &&& value.u64_at("created"@) is Some
    &&& absent_or(value, "moderation"@, |v: JsonView| moderation_shape(v))
    &&& absent_or(value, "service_tier"@, |v: JsonView| nullable_string(v))
    &&& absent_or(value, "system_fingerprint"@, |v: JsonView| nullable_string(v))
    &&& absent_or(value, "usage"@, |v: JsonView| v is Null || usage_shape(v))
}

/// Whether [`envelope_shape`] holds of the value.
pub fn is_envelope(value: &Json) -> (r: bool)
    ensures
        r == envelope_shape(value@),
{
    let moderation = match value.get("moderation") {
        Some(v) => is_moderation(v),
        None => true,
    };
    let tier = match value.get("service_tier") {
        Some(v) => is_nullable_string(v),
        None => true,
    };
    let fingerprint = match value.get("system_fingerprint") {
        Some(v) => is_nullable_string(v),
        None => true,
    };
    let usage = match value.get("usage") {
        Some(v) => v.is_null() || is_usage(v),
        None => true,
    };
    value.as_object().is_some() && value.str_at("id").is_some() && value.str_at("model").is_some()
        && value.str_at("object").is_some() && value.u64_at("created").is_some() && moderation
        && tier && fingerprint && usage
}

/// A whole reply.
pub open spec fn response_shape(value: JsonView) -> bool {
    envelope_shape(value) && present(
        value.fields(),
        "choices"@,
        |v: JsonView| choices_shape(v),
    )
}

/// Whether a document is a whole reply.
pub fn is_response(value: &Json) -> (r: bool)
    ensures
        r == response_shape(value@),
{
    let choices = match value.get("choices") {
        Some(v) => are_choices(v),
        None => false,
    };
    is_envelope(value) && choices
}

/// What a chunk adds to a message.
pub open spec fn delta_shape(value: JsonView) -> bool {
    &&& value is Object
    &&& absent_or(value, "role"@, |v: JsonView| nullable_string(v))
    &&& absent_or(value, "content"@, |v: JsonView| nullable_string(v))
    &&& absent_or(value, "refusal"@, |v: JsonView| nullable_string(v))
    &&& absent_or(value, "tool_calls"@, |v: JsonView| v is Null || call_chunks_shape(v))
    &&& absent_or(value, "function_call"@, |v: JsonView| legacy_call_shape(v))
}

/// Whether [`delta_shape`] holds of the value.
pub fn is_delta(value: &Json) -> (r: bool)
    ensures
        r == delta_shape(value@),
{
    let role = match value.get("role") {
        Some(v) => is_nullable_string(v),
        None => true,
    };
    let content = match value.get("content") {
        Some(v) => is_nullable_string(v),
        None => true,
    };
    let refusal = match value.get("refusal") {
        Some(v) => is_nullable_string(v),
        None => true,
    };
    let calls = match value.get("tool_calls") {
        Some(v) => v.is_null() || are_call_chunks(v),
        None => true,
    };
    let legacy = match value.get("function_call") {
        Some(v) => is_legacy_call(v),
        None => true,
    };
    value.as_object().is_some() && role && content && refusal && calls && legacy
}

/// A choice of a chunk.
pub open spec fn stream_choice_shape(value: JsonView) -> bool {
    &&& value is Object
    &&& absent_or(value, "finish_reason"@, |v: JsonView| nullable_string(v))
    &&& value.u32_at("index"@) is Some
    &&& present(value.fields(), "delta"@, |v: JsonView| delta_shape(v))
    &&& absent_or(value, "logprobs"@, |v: JsonView| logprobs_shape(v))
}

/// Whether [`stream_choice_shape`] holds of the value.
pub fn is_stream_choice(value: &Json) -> (r: bool)
    ensures
        r == stream_choice_shape(value@),
{
    let delta = match value.get("delta") {
        Some(v) => is_delta(v),
        None => false,
    };
    let reason = match value.get("finish_reason") {
        Some(v) => is_nullable_string(v),
        None => true,
    };
    let logprobs = match value.get("logprobs") {
        Some(v) => is_logprobs(v),
        None => true,
    };
    value.as_object().is_some() && reason && value.u32_at("index").is_some() && delta && logprobs
}

/// The choices of a chunk.
pub open spec fn stream_choices_shape(value: JsonView) -> bool {
    value matches JsonView::Array(items) && all_items(items, |v: JsonView| stream_choice_shape(v))
}

/// Whether [`stream_choices_shape`] holds of the value.
pub fn are_stream_choices(value: &Json) -> (r: bool)
    ensures
        r == stream_choices_shape(value@),
{
    match value {
        Json::Array(items) => {
            for i in 0..items.len()
                invariant
                    value@ == JsonView::Array(models(items@)),
                    forall|k: int| 0 <= k < i ==> stream_choice_shape(models(items@)[k]),
            {
                assert(models(items@)[i as int] == items@[i as int]@);
                if !is_stream_choice(&items[i]) {
                    return false;
                }
            }
            true
        },
        _ => false,
    }
}

/// One chunk of a streamed reply.
pub open spec fn chunk_shape(value: JsonView) -> bool {
    envelope_shape(value) && present(
        value.fields(),
        "choices"@,
        |v: JsonView| stream_choices_shape(v),
    )
}

/// Whether a document is one chunk of a streamed reply.
pub fn is_chunk(value: &Json) -> (r: bool)
    ensures
        r == chunk_shape(value@),
{
    let choices = match value.get("choices") {
        Some(v) => are_stream_choices(v),
        None => false,
    };
    is_envelope(value) && choices
}

} // verus!
