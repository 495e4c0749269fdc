//! The shapes of Anthropic's documents, as far as this library reads them.
use vstd::prelude::*;

use crate::gateway::openai_compat::wire::{
    absent_or, all_items, is_nullable_bool, is_nullable_number, is_nullable_string, is_nullable_u32,
    nullable_bool, nullable_number, nullable_string, nullable_u32, present,
};
use crate::json::{models, Json, JsonView};

verus! {

/// What thinking cost, among the token counts.
pub open spec fn details_shape(value: JsonView) -> bool {
    value is Null || (value is Object && absent_or(
        value,
        "thinking_tokens"@,
        |v: JsonView| nullable_u32(v),
    ))
}

/// Whether [`details_shape`] holds of the value.
pub fn is_details(value: &Json) -> (r: bool)
    ensures
        r == details_shape(value@),
{
    match value {
        Json::Null => true,
        Json::Object(_) => match value.get("thinking_tokens") {
            Some(v) => is_nullable_u32(v),
            None => true,
        },
        _ => false,
    }
}

/// The token counts of a reply.
pub open spec fn usage_shape(value: JsonView) -> bool {
    &&& value is Object
    &&& value.u32_at("input_tokens"@) is Some
    &&& value.u32_at("output_tokens"@) is Some
    &&& absent_or(value, "cache_creation_input_tokens"@, |v: JsonView| nullable_u32(v))
    &&& absent_or(value, "cache_read_input_tokens"@, |v: JsonView| nullable_u32(v))
    &&& absent_or(value, "output_tokens_details"@, |v: JsonView| details_shape(v))
}

/// Whether [`usage_shape`] holds of the value.
pub fn is_usage(value: &Json) -> (r: bool)
    ensures
        r == usage_shape(value@),
{
    let written = match value.get("cache_creation_input_tokens") {
        Some(v) => is_nullable_u32(v),
        None => true,
    };
    let read = match value.get("cache_read_input_tokens") {
        Some(v) => is_nullable_u32(v),
        None => true,
    };
    let details = match value.get("output_tokens_details") {
        Some(v) => is_details(v),
        None => true,
    };
    value.as_object().is_some() && value.u32_at("input_tokens").is_some() && value.u32_at(
        "output_tokens",
    ).is_some() && written && read && details
}

/// A whole reply.
pub open spec fn message_shape(value: JsonView) -> bool {
    &&& value is Object
    &&& value.str_at("id"@) is Some
    &&& value.str_at("type"@) is Some
    &&& value.str_at("role"@) is Some
    &&& value.str_at("model"@) is Some
    &&& present(value.fields(), "content"@, |v: JsonView| v is Array)
    &&& absent_or(value, "stop_reason"@, |v: JsonView| nullable_string(v))
    &&& absent_or(value, "stop_sequence"@, |v: JsonView| nullable_string(v))
    &&& present(value.fields(), "usage"@, |v: JsonView| usage_shape(v))
}

/// Whether a document is a whole reply.
pub fn is_message(value: &Json) -> (r: bool)
    ensures
        r == message_shape(value@),
{
    let content = match value.get("content") {
        Some(Json::Array(_)) => true,
        _ => false,
    };
    let reason = match value.get("stop_reason") {
        Some(v) => is_nullable_string(v),
        None => true,
    };
    let sequence = match value.get("stop_sequence") {
        Some(v) => is_nullable_string(v),
        None => true,
    };
    let usage = match value.get("usage") {
        Some(v) => is_usage(v),
        None => false,
    };
    value.as_object().is_some() && value.str_at("id").is_some() && value.str_at("type").is_some()
        && value.str_at("role").is_some() && value.str_at("model").is_some() && content && reason
        && sequence && usage
}

/// Text, or blocks.
pub open spec fn content_shape(value: JsonView) -> bool {
    value is String || value is Array
}

/// Whether [`content_shape`] holds of the value.
pub fn is_content(value: &Json) -> (r: bool)
    ensures
        r == content_shape(value@),
{
    match value {
        Json::String(_) | Json::Array(_) => true,
        _ => false,
    }
}

/// A message of a request.
pub open spec fn input_message_shape(value: JsonView) -> bool {
    &&& value is Object
    &&& value.str_at("role"@) is Some
    &&& present(value.fields(), "content"@, |v: JsonView| content_shape(v))
}

/// Whether [`input_message_shape`] holds of the value.
pub fn is_input_message(value: &Json) -> (r: bool)
    ensures
        r == input_message_shape(value@),
{
    let content = match value.get("content") {
        Some(v) => is_content(v),
        None => false,
    };
    value.as_object().is_some() && value.str_at("role").is_some() && content
}

/// The messages of a request.
pub open spec fn input_messages_shape(value: JsonView) -> bool {
    value matches JsonView::Array(items) && all_items(items, |v: JsonView| input_message_shape(v))
}

/// Whether [`input_messages_shape`] holds of the value.
pub fn are_input_messages(value: &Json) -> (r: bool)
    ensures
        r == input_messages_shape(value@),
{
    match value {
        Json::Array(items) => {
            for i in 0..items.len()
                invariant
                    value@ == JsonView::Array(models(items@)),
                    forall|k: int| 0 <= k < i ==> input_message_shape(models(items@)[k]),
            {
                assert(models(items@)[i as int] == items@[i as int]@);
                if !is_input_message(&items[i]) {
                    return false;
                }
            }
            true
        },
        _ => false,
    }
}

/// Several texts.
pub open spec fn strings_shape(value: JsonView) -> bool {
    value matches JsonView::Array(items) && all_items(items, |v: JsonView| v is String)
}

/// Whether [`strings_shape`] holds of the value.
pub fn are_strings(value: &Json) -> (r: bool)
    ensures
        r == strings_shape(value@),
{
    match value {
        Json::Array(items) => crate::gateway::openai_compat::wire::are_strings(items),
        _ => false,
    }
}

/// How to form the reply.
pub open spec fn output_config_shape(value: JsonView) -> bool {
    &&& value is Object
    &&& absent_or(
        value,
        "format"@,
        |v: JsonView| v is Null || (v is Object && v.str_at("type"@) is Some),
    )
    &&& absent_or(value, "effort"@, |v: JsonView| nullable_string(v))
}

/// Whether [`output_config_shape`] holds of the value.
pub fn is_output_config(value: &Json) -> (r: bool)
    ensures
        r == output_config_shape(value@),
{
    let format = match value.get("format") {
        Some(v) => v.is_null() || (v.as_object().is_some() && v.str_at("type").is_some()),
        None => true,
    };
    let effort = match value.get("effort") {
        Some(v) => is_nullable_string(v),
        None => true,
    };
    value.as_object().is_some() && format && effort
}

/// A tool that the caller defines.
pub open spec fn custom_tool_shape(value: JsonView) -> bool {
    &&& value is Object
    &&& value.str_at("name"@) is Some
    &&& value.get("input_schema"@) is Some
    &&& absent_or(value, "description"@, |v: JsonView| nullable_string(v))
    &&& absent_or(value, "strict"@, |v: JsonView| nullable_bool(v))
    &&& absent_or(value, "cache_control"@, |v: JsonView| v is Null || v is Object)
}

/// Whether [`custom_tool_shape`] holds of the value.
pub fn is_custom_tool(value: &Json) -> (r: bool)
    ensures
        r == custom_tool_shape(value@),
{
    let described = match value.get("description") {
        Some(v) => is_nullable_string(v),
        None => true,
    };
    let strict = match value.get("strict") {
        Some(v) => is_nullable_bool(v),
        None => true,
    };
    let control = match value.get("cache_control") {
        Some(v) => v.is_null() || v.as_object().is_some(),
        None => true,
    };
    value.as_object().is_some() && value.str_at("name").is_some() && value.get(
        "input_schema",
    ).is_some() && described && strict && control
}

/// A request.
pub open spec fn request_shape(value: JsonView) -> bool {
    &&& value is Object
    &&& value.str_at("model"@) is Some
    &&& value.u32_at("max_tokens"@) is Some
    &&& present(value.fields(), "messages"@, |v: JsonView| input_messages_shape(v))
    &&& absent_or(value, "system"@, |v: JsonView| v is Null || content_shape(v))
    &&& absent_or(value, "temperature"@, |v: JsonView| nullable_number(v))
    &&& absent_or(value, "top_p"@, |v: JsonView| nullable_number(v))
    &&& absent_or(value, "stop_sequences"@, |v: JsonView| v is Null || strings_shape(v))
    &&& absent_or(value, "stream"@, |v: JsonView| nullable_bool(v))
    &&& absent_or(value, "tools"@, |v: JsonView| v is Null || v is Array)
    &&& absent_or(value, "output_config"@, |v: JsonView| v is Null || output_config_shape(v))
}

/// Whether a document is a request.
pub fn is_request(value: &Json) -> (r: bool)
    ensures
        r == request_shape(value@),
{
    let messages = match value.get("messages") {
        Some(v) => are_input_messages(v),
        None => false,
    };
    let system = match value.get("system") {
        Some(v) => v.is_null() || is_content(v),
        None => true,
    };
    let temperature = match value.get("temperature") {
        Some(v) => is_nullable_number(v),
        None => true,
    };
    let top_p = match value.get("top_p") {
        Some(v) => is_nullable_number(v),
        None => true,
    };
    let stop = match value.get("stop_sequences") {
        Some(v) => v.is_null() || are_strings(v),
        None => true,
    };
    let stream = match value.get("stream") {
        Some(v) => is_nullable_bool(v),
        None => true,
    };
    let tools = match value.get("tools") {
        Some(Json::Null) | Some(Json::Array(_)) | None => true,
        _ => false,
    };
    let config = match value.get("output_config") {
        Some(v) => v.is_null() || is_output_config(v),
        None => true,
    };
    value.as_object().is_some() && value.str_at("model").is_some() && value.u32_at(
        "max_tokens",
    ).is_some() && messages && system && temperature && top_p && stop && stream && tools && config
}

} // verus!
