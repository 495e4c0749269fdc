//! What a caller is told of a reply: laws from a provider's wire to the caller's.
use vstd::prelude::*;

use crate::client::CallView;
use crate::error::ErrorView;
use crate::gateway::anthropic;
use crate::gateway::anthropic::response::ingested_block;
use crate::gateway::ext::law_another_protocol_reads_nothing;
use crate::gateway::openai_compat::response::{
    joined_text, rendered_choice, rendered_choices, rendered_reply_message, rendered_usage,
    reply_calls,
};
use crate::gateway::types::message::{ContentBlockView, MessageView};
use crate::json::{group_find, no_fields, JsonView, NumberView};
use crate::json_client::reply_to;
use crate::json_text::text_of_json;
use crate::types::Protocol;

verus! {

/// A count in JSON.
pub open spec fn counted(n: int) -> Option<JsonView> {
    Some(JsonView::Number(NumberView::Unsigned(n as u64)))
}

/// The field is absent or `null`.
pub open spec fn not_said(value: JsonView, key: Seq<char>) -> bool {
    value.get(key) is None || value.get(key) == Some(JsonView::Null)
}

/// The field is absent, `null` or a count of 32 bits.
pub open spec fn count_if_any(value: JsonView, key: Seq<char>) -> bool {
    not_said(value, key) || (value.get(key) matches Some(JsonView::Number(NumberView::Unsigned(n)))
        && n <= u32::MAX)
}

/// The field is absent, `null` or a text.
pub open spec fn text_if_any(value: JsonView, key: Seq<char>) -> bool {
    not_said(value, key) || (value.get(key) matches Some(JsonView::String(_)))
}

/// The count in a field; zero where there is none.
pub open spec fn tokens(value: JsonView, key: Seq<char>) -> int {
    match value.get(key) {
        Some(JsonView::Number(NumberView::Unsigned(n))) => n as int,
        _ => 0,
    }
}

/// A message of Anthropic's with this content.
pub open spec fn whole_message(message: JsonView, content: Seq<JsonView>) -> bool {
    let usage = message.get("usage"@);
    &&& message is Object
    &&& message.get("id"@) matches Some(JsonView::String(_))
    &&& message.get("type"@) matches Some(JsonView::String(_))
    &&& message.get("role"@) == Some(JsonView::String("assistant"@))
    &&& message.get("model"@) matches Some(JsonView::String(_))
    &&& message.get("content"@) == Some(JsonView::Array(content))
    &&& text_if_any(message, "stop_reason"@)
    &&& text_if_any(message, "stop_sequence"@)
    &&& usage is Some
    &&& usage->0 is Object
    &&& count_if_any(usage->0, "input_tokens"@) && !not_said(usage->0, "input_tokens"@)
    &&& count_if_any(usage->0, "output_tokens"@) && !not_said(usage->0, "output_tokens"@)
    &&& count_if_any(usage->0, "cache_creation_input_tokens"@)
    &&& count_if_any(usage->0, "cache_read_input_tokens"@)
    &&& not_said(usage->0, "output_tokens_details"@) || (usage->0.get("output_tokens_details"@)->0
        is Object && count_if_any(usage->0.get("output_tokens_details"@)->0, "thinking_tokens"@))
}

/// What a caller is told of a message that Anthropic answered a call with.
pub open spec fn told(call: CallView, status: u16, message: JsonView) -> Result<
    JsonView,
    ErrorView,
> {
    reply_to(call, status, text_of_json(message), Some(message), None, None)
}

/// The names within a reply differ.
proof fn lemma_reply_keys()
    ensures
        "id"@ != "model"@,
        "id"@ != "object"@,
        "id"@ != "created"@,
        "id"@ != "choices"@,
        "id"@ != "usage"@,
        "id"@ != "moderation"@,
        "id"@ != "service_tier"@,
        "id"@ != "system_fingerprint"@,
        "model"@ != "object"@,
        "model"@ != "created"@,
        "model"@ != "choices"@,
        "model"@ != "usage"@,
        "model"@ != "moderation"@,
        "model"@ != "service_tier"@,
        "model"@ != "system_fingerprint"@,
        "object"@ != "created"@,
        "object"@ != "choices"@,
        "object"@ != "usage"@,
        "object"@ != "moderation"@,
        "object"@ != "service_tier"@,
        "object"@ != "system_fingerprint"@,
        "created"@ != "choices"@,
        "created"@ != "usage"@,
        "created"@ != "moderation"@,
        "created"@ != "service_tier"@,
        "created"@ != "system_fingerprint"@,
        "choices"@ != "usage"@,
        "choices"@ != "moderation"@,
        "choices"@ != "service_tier"@,
        "choices"@ != "system_fingerprint"@,
        "usage"@ != "moderation"@,
        "usage"@ != "service_tier"@,
        "usage"@ != "system_fingerprint"@,
        "moderation"@ != "service_tier"@,
        "moderation"@ != "system_fingerprint"@,
        "service_tier"@ != "system_fingerprint"@,
{
    reveal_strlit("id");
    reveal_strlit("model");
    reveal_strlit("object");
    reveal_strlit("created");
    reveal_strlit("choices");
    reveal_strlit("usage");
    reveal_strlit("moderation");
    reveal_strlit("service_tier");
    reveal_strlit("system_fingerprint");
    assert("id"@.len() != "model"@.len());
    assert("id"@.len() != "object"@.len());
    assert("id"@.len() != "created"@.len());
    assert("id"@.len() != "choices"@.len());
    assert("id"@.len() != "usage"@.len());
    assert("id"@.len() != "moderation"@.len());
    assert("id"@.len() != "service_tier"@.len());
    assert("id"@.len() != "system_fingerprint"@.len());
    assert("model"@.len() != "object"@.len());
    assert("model"@.len() != "created"@.len());
    assert("model"@.len() != "choices"@.len());
    assert("model"@[0] != "usage"@[0]);
    assert("model"@.len() != "moderation"@.len());
    assert("model"@.len() != "service_tier"@.len());
    assert("model"@.len() != "system_fingerprint"@.len());
    assert("object"@.len() != "created"@.len());
    assert("object"@.len() != "choices"@.len());
    assert("object"@.len() != "usage"@.len());
    assert("object"@.len() != "moderation"@.len());
    assert("object"@.len() != "service_tier"@.len());
    assert("object"@.len() != "system_fingerprint"@.len());
    assert("created"@[1] != "choices"@[1]);
    assert("created"@.len() != "usage"@.len());
    assert("created"@.len() != "moderation"@.len());
    assert("created"@.len() != "service_tier"@.len());
    assert("created"@.len() != "system_fingerprint"@.len());
    assert("choices"@.len() != "usage"@.len());
    assert("choices"@.len() != "moderation"@.len());
    assert("choices"@.len() != "service_tier"@.len());
    assert("choices"@.len() != "system_fingerprint"@.len());
    assert("usage"@.len() != "moderation"@.len());
    assert("usage"@.len() != "service_tier"@.len());
    assert("usage"@.len() != "system_fingerprint"@.len());
    assert("moderation"@.len() != "service_tier"@.len());
    assert("moderation"@.len() != "system_fingerprint"@.len());
    assert("service_tier"@.len() != "system_fingerprint"@.len());
}

/// The names within a choice differ.
proof fn lemma_choice_keys()
    ensures
        "index"@ != "logprobs"@,
        "index"@ != "finish_reason"@,
        "index"@ != "message"@,
        "logprobs"@ != "finish_reason"@,
        "logprobs"@ != "message"@,
        "finish_reason"@ != "message"@,
{
    reveal_strlit("index");
    reveal_strlit("logprobs");
    reveal_strlit("finish_reason");
    reveal_strlit("message");
    assert("index"@.len() != "logprobs"@.len());
    assert("index"@.len() != "finish_reason"@.len());
    assert("index"@.len() != "message"@.len());
    assert("logprobs"@.len() != "finish_reason"@.len());
    assert("logprobs"@.len() != "message"@.len());
    assert("finish_reason"@.len() != "message"@.len());
}

/// The names within a message differ.
proof fn lemma_message_keys()
    ensures
        "role"@ != "content"@,
        "role"@ != "refusal"@,
        "role"@ != "annotations"@,
        "role"@ != "audio"@,
        "role"@ != "function_call"@,
        "role"@ != "tool_calls"@,
        "content"@ != "refusal"@,
        "content"@ != "annotations"@,
        "content"@ != "audio"@,
        "content"@ != "function_call"@,
        "content"@ != "tool_calls"@,
        "refusal"@ != "annotations"@,
        "refusal"@ != "audio"@,
        "refusal"@ != "function_call"@,
        "refusal"@ != "tool_calls"@,
        "annotations"@ != "audio"@,
        "annotations"@ != "function_call"@,
        "annotations"@ != "tool_calls"@,
        "audio"@ != "function_call"@,
        "audio"@ != "tool_calls"@,
        "function_call"@ != "tool_calls"@,
{
    reveal_strlit("role");
    reveal_strlit("content");
    reveal_strlit("refusal");
    reveal_strlit("annotations");
    reveal_strlit("audio");
    reveal_strlit("function_call");
    reveal_strlit("tool_calls");
    assert("role"@.len() != "content"@.len());
    assert("role"@.len() != "refusal"@.len());
    assert("role"@.len() != "annotations"@.len());
    assert("role"@.len() != "audio"@.len());
    assert("role"@.len() != "function_call"@.len());
    assert("role"@.len() != "tool_calls"@.len());
    assert("content"@[0] != "refusal"@[0]);
    assert("content"@.len() != "annotations"@.len());
    assert("content"@.len() != "audio"@.len());
    assert("content"@.len() != "function_call"@.len());
    assert("content"@.len() != "tool_calls"@.len());
    assert("refusal"@.len() != "annotations"@.len());
    assert("refusal"@.len() != "audio"@.len());
    assert("refusal"@.len() != "function_call"@.len());
    assert("refusal"@.len() != "tool_calls"@.len());
    assert("annotations"@.len() != "audio"@.len());
    assert("annotations"@.len() != "function_call"@.len());
    assert("annotations"@.len() != "tool_calls"@.len());
    assert("audio"@.len() != "function_call"@.len());
    assert("audio"@.len() != "tool_calls"@.len());
    assert("function_call"@.len() != "tool_calls"@.len());
}

/// The names within token counts differ.
proof fn lemma_usage_keys()
    ensures
        "prompt_tokens"@ != "completion_tokens"@,
        "prompt_tokens"@ != "total_tokens"@,
        "prompt_tokens"@ != "prompt_tokens_details"@,
        "prompt_tokens"@ != "completion_tokens_details"@,
        "prompt_tokens"@ != "cached_tokens"@,
        "prompt_tokens"@ != "cache_write_tokens"@,
        "prompt_tokens"@ != "reasoning_tokens"@,
        "completion_tokens"@ != "total_tokens"@,
        "completion_tokens"@ != "prompt_tokens_details"@,
        "completion_tokens"@ != "completion_tokens_details"@,
        "completion_tokens"@ != "cached_tokens"@,
        "completion_tokens"@ != "cache_write_tokens"@,
        "completion_tokens"@ != "reasoning_tokens"@,
        "total_tokens"@ != "prompt_tokens_details"@,
        "total_tokens"@ != "completion_tokens_details"@,
        "total_tokens"@ != "cached_tokens"@,
        "total_tokens"@ != "cache_write_tokens"@,
        "total_tokens"@ != "reasoning_tokens"@,
        "prompt_tokens_details"@ != "completion_tokens_details"@,
        "prompt_tokens_details"@ != "cached_tokens"@,
        "prompt_tokens_details"@ != "cache_write_tokens"@,
        "prompt_tokens_details"@ != "reasoning_tokens"@,
        "completion_tokens_details"@ != "cached_tokens"@,
        "completion_tokens_details"@ != "cache_write_tokens"@,
        "completion_tokens_details"@ != "reasoning_tokens"@,
        "cached_tokens"@ != "cache_write_tokens"@,
        "cached_tokens"@ != "reasoning_tokens"@,
        "cache_write_tokens"@ != "reasoning_tokens"@,
{
    reveal_strlit("prompt_tokens");
    reveal_strlit("completion_tokens");
    reveal_strlit("total_tokens");
    reveal_strlit("prompt_tokens_details");
    reveal_strlit("completion_tokens_details");
    reveal_strlit("cached_tokens");
    reveal_strlit("cache_write_tokens");
    reveal_strlit("reasoning_tokens");
    assert("prompt_tokens"@.len() != "completion_tokens"@.len());
    assert("prompt_tokens"@.len() != "total_tokens"@.len());
    assert("prompt_tokens"@.len() != "prompt_tokens_details"@.len());
    assert("prompt_tokens"@.len() != "completion_tokens_details"@.len());
    assert("prompt_tokens"@[0] != "cached_tokens"@[0]);
    assert("prompt_tokens"@.len() != "cache_write_tokens"@.len());
    assert("prompt_tokens"@.len() != "reasoning_tokens"@.len());
    assert("completion_tokens"@.len() != "total_tokens"@.len());
    assert("completion_tokens"@.len() != "prompt_tokens_details"@.len());
    assert("completion_tokens"@.len() != "completion_tokens_details"@.len());
    assert("completion_tokens"@.len() != "cached_tokens"@.len());
    assert("completion_tokens"@.len() != "cache_write_tokens"@.len());
    assert("completion_tokens"@.len() != "reasoning_tokens"@.len());
    assert("total_tokens"@.len() != "prompt_tokens_details"@.len());
    assert("total_tokens"@.len() != "completion_tokens_details"@.len());
    assert("total_tokens"@.len() != "cached_tokens"@.len());
    assert("total_tokens"@.len() != "cache_write_tokens"@.len());
    assert("total_tokens"@.len() != "reasoning_tokens"@.len());
    assert("prompt_tokens_details"@.len() != "completion_tokens_details"@.len());
    assert("prompt_tokens_details"@.len() != "cached_tokens"@.len());
    assert("prompt_tokens_details"@.len() != "cache_write_tokens"@.len());
    assert("prompt_tokens_details"@.len() != "reasoning_tokens"@.len());
    assert("completion_tokens_details"@.len() != "cached_tokens"@.len());
    assert("completion_tokens_details"@.len() != "cache_write_tokens"@.len());
    assert("completion_tokens_details"@.len() != "reasoning_tokens"@.len());
    assert("cached_tokens"@.len() != "cache_write_tokens"@.len());
    assert("cached_tokens"@.len() != "reasoning_tokens"@.len());
    assert("cache_write_tokens"@.len() != "reasoning_tokens"@.len());
}

/// A message that Anthropic answered a call with is told, whatever it holds.
#[verifier::rlimit(40)]
proof fn lemma_told(call: CallView, status: u16, message: JsonView, content: Seq<JsonView>)
    requires
        call.protocol == Protocol::Anthropic,
        200 <= status <= 299,
        whole_message(message, content),
    ensures
        ({
            let view = anthropic::response::ingested_response(message);
            let reply = told(call, status, message);
            let choices = rendered_choices(view.completions, call.provider);
            &&& reply is Ok
            &&& reply->Ok_0.get("model"@) == Some(JsonView::String(call.model))
            &&& reply->Ok_0.get("id"@) == message.get("id"@)
            &&& reply->Ok_0.get("object"@) == Some(JsonView::String("chat.completion"@))
            &&& reply->Ok_0.get("created"@) == counted(0)
            &&& reply->Ok_0.get("choices"@) == Some(JsonView::Array(choices))
            &&& reply->Ok_0.get("usage"@) == Some(rendered_usage(view.usage->0, call.provider))
            &&& choices.len() == 1
            &&& choices[0] == rendered_choice(view.completions[0], 0, call.provider)
        }),
{
    broadcast use group_find;

    lemma_reply_keys();
    law_another_protocol_reads_nothing(
        Protocol::OpenAiCompat,
        Protocol::Anthropic,
        anthropic::response::response_residue(message),
        call.provider,
    );
    assert(anthropic::wire::usage_shape(message.get("usage"@)->0));
    assert(anthropic::wire::message_shape(message));
}

/// The choice that a message is told as.
#[verifier::rlimit(40)]
proof fn lemma_told_choice(message: JsonView, content: Seq<JsonView>, provider: Seq<char>)
    requires
        whole_message(message, content),
    ensures
        ({
            let completion = anthropic::response::ingested_response(message).completions[0];
            let choice = rendered_choice(completion, 0, provider);
            let blocks = anthropic::response::ingested_blocks(content);
            let said = choice.get("message"@);
            &&& choice.get("index"@) == counted(0)
            &&& choice.get("finish_reason"@) == Some(
                JsonView::String(
                    crate::gateway::openai_compat::response::rendered_reason(
                        completion.finish_reason_raw,
                        completion.finish_reason,
                    ),
                ),
            )
            &&& said is Some
            &&& said->0.get("role"@) == Some(JsonView::String("assistant"@))
            &&& said->0.get("content"@) == Some(match joined_text(blocks) {
                Some(text) => JsonView::String(text),
                None => JsonView::Null,
            })
            &&& said->0.get("refusal"@) == Some(JsonView::Null)
            &&& said->0.get("tool_calls"@) == (if reply_calls(blocks).len() > 0 {
                Some(JsonView::Array(reply_calls(blocks)))
            } else {
                None
            })
        }),
{
    broadcast use group_find;

    lemma_choice_keys();
    lemma_message_keys();
    reveal_strlit("assistant");
    reveal_strlit("user");
    assert("assistant"@.len() != "user"@.len());
    law_another_protocol_reads_nothing(
        Protocol::OpenAiCompat,
        Protocol::Anthropic,
        anthropic::response::message_residue(message),
        provider,
    );
    law_another_protocol_reads_nothing(
        Protocol::OpenAiCompat,
        Protocol::Anthropic,
        no_fields(),
        provider,
    );
    let completion = anthropic::response::ingested_response(message).completions[0];
    assert(crate::gateway::ext::merged(
        Protocol::OpenAiCompat,
        completion.ext,
        provider,
    ) == no_fields());
}

/// A message that Anthropic answered a call with is one whole reply to the
/// caller: under its own id, by the model that the caller named, with one choice
/// that the assistant makes.
pub proof fn law_a_message_is_told_as_a_reply(
    call: CallView,
    status: u16,
    message: JsonView,
    content: Seq<JsonView>,
)
    requires
        call.protocol == Protocol::Anthropic,
        200 <= status <= 299,
        whole_message(message, content),
    ensures
        ({
            let reply = told(call, status, message);
            let choices = reply->Ok_0.get("choices"@);
            let choice = choices->0->Array_0[0];
            &&& reply is Ok
            &&& reply->Ok_0.get("id"@) == message.get("id"@)
            &&& reply->Ok_0.get("model"@) == Some(JsonView::String(call.model))
            &&& reply->Ok_0.get("object"@) == Some(JsonView::String("chat.completion"@))
            &&& reply->Ok_0.get("created"@) == counted(0)
            &&& choices is Some
            &&& choices->0 is Array
            &&& choices->0->Array_0.len() == 1
            &&& choice.get("index"@) == counted(0)
            &&& choice.get("message"@) is Some
            &&& choice.get("message"@)->0.get("role"@) == Some(JsonView::String("assistant"@))
            &&& choice.get("message"@)->0.get("refusal"@) == Some(JsonView::Null)
        }),
{
    lemma_told(call, status, message, content);
    lemma_told_choice(message, content, call.provider);
}

/// The message of a reply.
pub open spec fn said_in(reply: Result<JsonView, ErrorView>) -> JsonView {
    reply->Ok_0.get("choices"@)->0->Array_0[0].get("message"@)->0
}

/// The words for why a message stops differ.
proof fn lemma_stop_words()
    ensures
        "end_turn"@ != "stop_sequence"@,
        "end_turn"@ != "max_tokens"@,
        "end_turn"@ != "model_context_window_exceeded"@,
        "end_turn"@ != "tool_use"@,
        "end_turn"@ != "refusal"@,
        "stop_sequence"@ != "max_tokens"@,
        "stop_sequence"@ != "model_context_window_exceeded"@,
        "stop_sequence"@ != "tool_use"@,
        "stop_sequence"@ != "refusal"@,
        "max_tokens"@ != "model_context_window_exceeded"@,
        "max_tokens"@ != "tool_use"@,
        "max_tokens"@ != "refusal"@,
        "model_context_window_exceeded"@ != "tool_use"@,
        "model_context_window_exceeded"@ != "refusal"@,
        "tool_use"@ != "refusal"@,
{
    reveal_strlit("end_turn");
    reveal_strlit("stop_sequence");
    reveal_strlit("max_tokens");
    reveal_strlit("model_context_window_exceeded");
    reveal_strlit("tool_use");
    reveal_strlit("refusal");
    assert("end_turn"@.len() != "stop_sequence"@.len());
    assert("end_turn"@.len() != "max_tokens"@.len());
    assert("end_turn"@.len() != "model_context_window_exceeded"@.len());
    assert("end_turn"@[0] != "tool_use"@[0]);
    assert("end_turn"@.len() != "refusal"@.len());
    assert("stop_sequence"@.len() != "max_tokens"@.len());
    assert("stop_sequence"@.len() != "model_context_window_exceeded"@.len());
    assert("stop_sequence"@.len() != "tool_use"@.len());
    assert("stop_sequence"@.len() != "refusal"@.len());
    assert("max_tokens"@.len() != "model_context_window_exceeded"@.len());
    assert("max_tokens"@.len() != "tool_use"@.len());
    assert("max_tokens"@.len() != "refusal"@.len());
    assert("model_context_window_exceeded"@.len() != "tool_use"@.len());
    assert("model_context_window_exceeded"@.len() != "refusal"@.len());
    assert("tool_use"@.len() != "refusal"@.len());
}

/// Why a reply ended is told in the caller's words: an end of turn or a sequence to
/// stop at is a stop, a limit or a full context is a length, a tool to be called is
/// tool calls, a refusal is a content filter. A word that the caller's protocol
/// has none for is told as it is.
pub proof fn law_why_a_reply_ended_is_told(
    call: CallView,
    status: u16,
    message: JsonView,
    content: Seq<JsonView>,
    word: Seq<char>,
)
    requires
        call.protocol == Protocol::Anthropic,
        200 <= status <= 299,
        whole_message(message, content),
        message.get("stop_reason"@) == Some(JsonView::String(word)),
    ensures
        ({
            let reason = told(call, status, message)->Ok_0.get("choices"@)->0->Array_0[0].get(
                "finish_reason"@,
            );
            &&& word == "end_turn"@ || word == "stop_sequence"@ ==> reason == Some(
                JsonView::String("stop"@),
            )
            &&& word == "max_tokens"@ || word == "model_context_window_exceeded"@ ==> reason
                == Some(JsonView::String("length"@))
            &&& word == "tool_use"@ ==> reason == Some(JsonView::String("tool_calls"@))
            &&& word == "refusal"@ ==> reason == Some(JsonView::String("content_filter"@))
            &&& word != "end_turn"@ && word != "stop_sequence"@ && word != "max_tokens"@ && word
                != "model_context_window_exceeded"@ && word != "tool_use"@ && word != "refusal"@
                ==> reason == Some(JsonView::String(word))
        }),
{
    lemma_told(call, status, message, content);
    lemma_told_choice(message, content, call.provider);
    lemma_stop_words();
}

proof fn lemma_blocks_push(content: Seq<JsonView>, block: JsonView)
    ensures
        ({
            let before = anthropic::response::ingested_blocks(content);
            let after = anthropic::response::ingested_blocks(content.push(block));
            &&& after == before.push(ingested_block(block))
            &&& joined_text(after) == (match ingested_block(block) {
                ContentBlockView::Text { text, .. } => match joined_text(before) {
                    Some(head) => Some(head + "\n"@ + text),
                    None => Some(text),
                },
                _ => joined_text(before),
            })
            &&& reply_calls(after) == (match ingested_block(block) {
                ContentBlockView::ToolCall { id, name, arguments } => reply_calls(before).push(
                    crate::gateway::openai_compat::request::function_call(id, name, arguments),
                ),
                ContentBlockView::Unknown(value) => if crate::gateway::openai_compat::wire::call_shape(
                    value,
                ) {
                    reply_calls(before).push(value)
                } else {
                    reply_calls(before)
                },
                _ => reply_calls(before),
            })
        }),
{
    let before = anthropic::response::ingested_blocks(content);
    let after = anthropic::response::ingested_blocks(content.push(block));
    assert(after =~= before.push(ingested_block(block)));
    assert(after.drop_last() =~= before);
}

/// The tags of blocks differ.
proof fn lemma_tags()
    ensures
        "text"@ != "image"@,
        "text"@ != "document"@,
        "text"@ != "tool_use"@,
        "text"@ != "tool_result"@,
        "text"@ != "thinking"@,
        "text"@ != "redacted_thinking"@,
        "image"@ != "document"@,
        "image"@ != "tool_use"@,
        "image"@ != "tool_result"@,
        "image"@ != "thinking"@,
        "image"@ != "redacted_thinking"@,
        "document"@ != "tool_use"@,
        "document"@ != "tool_result"@,
        "document"@ != "thinking"@,
        "document"@ != "redacted_thinking"@,
        "tool_use"@ != "tool_result"@,
        "tool_use"@ != "thinking"@,
        "tool_use"@ != "redacted_thinking"@,
        "tool_result"@ != "thinking"@,
        "tool_result"@ != "redacted_thinking"@,
        "thinking"@ != "redacted_thinking"@,
{
    reveal_strlit("text");
    reveal_strlit("image");
    reveal_strlit("document");
    reveal_strlit("tool_use");
    reveal_strlit("tool_result");
    reveal_strlit("thinking");
    reveal_strlit("redacted_thinking");
    assert("text"@.len() != "image"@.len());
    assert("text"@.len() != "document"@.len());
    assert("text"@.len() != "tool_use"@.len());
    assert("text"@.len() != "tool_result"@.len());
    assert("text"@.len() != "thinking"@.len());
    assert("text"@.len() != "redacted_thinking"@.len());
    assert("image"@.len() != "document"@.len());
    assert("image"@.len() != "tool_use"@.len());
    assert("image"@.len() != "tool_result"@.len());
    assert("image"@.len() != "thinking"@.len());
    assert("image"@.len() != "redacted_thinking"@.len());
    assert("document"@[0] != "tool_use"@[0]);
    assert("document"@.len() != "tool_result"@.len());
    assert("document"@[0] != "thinking"@[0]);
    assert("document"@.len() != "redacted_thinking"@.len());
    assert("tool_use"@.len() != "tool_result"@.len());
    assert("tool_use"@[1] != "thinking"@[1]);
    assert("tool_use"@.len() != "redacted_thinking"@.len());
    assert("tool_result"@.len() != "thinking"@.len());
    assert("tool_result"@.len() != "redacted_thinking"@.len());
    assert("thinking"@.len() != "redacted_thinking"@.len());
}

/// The content of a reply is all the texts of the message, in order, with a line
/// break between each two: one text more is told after those before it, whatever
/// stands between them.
pub proof fn law_every_text_of_a_message_is_told(
    call: CallView,
    status: u16,
    message: JsonView,
    longer: JsonView,
    content: Seq<JsonView>,
    block: JsonView,
    text: Seq<char>,
)
    requires
        call.protocol == Protocol::Anthropic,
        200 <= status <= 299,
        whole_message(message, content),
        whole_message(longer, content.push(block)),
        block.get("type"@) == Some(JsonView::String("text"@)),
        block.get("text"@) == Some(JsonView::String(text)),
    ensures
        ({
            let before = said_in(told(call, status, message));
            let after = said_in(told(call, status, longer));
            &&& before.get("content"@) == Some(JsonView::Null) ==> after.get("content"@) == Some(
                JsonView::String(text),
            )
            &&& before.get("content"@) matches Some(JsonView::String(head)) ==> after.get(
                "content"@,
            ) == Some(JsonView::String(head + "\n"@ + text))
            &&& before.get("content"@) is Some && (before.get("content"@)->0 is Null || before.get(
                "content"@,
            )->0 is String)
            &&& after.get("tool_calls"@) == before.get("tool_calls"@)
        }),
{
    lemma_told(call, status, message, content);
    lemma_told_choice(message, content, call.provider);
    lemma_told(call, status, longer, content.push(block));
    lemma_told_choice(longer, content.push(block), call.provider);
    lemma_blocks_push(content, block);
}

/// A message without blocks has no content and makes no calls.
pub proof fn law_an_empty_message_says_nothing(call: CallView, status: u16, message: JsonView)
    requires
        call.protocol == Protocol::Anthropic,
        200 <= status <= 299,
        whole_message(message, Seq::empty()),
    ensures
        said_in(told(call, status, message)).get("content"@) == Some(JsonView::Null),
        said_in(told(call, status, message)).get("tool_calls"@) is None,
{
    lemma_told(call, status, message, Seq::empty());
    lemma_told_choice(message, Seq::empty(), call.provider);
    assert(anthropic::response::ingested_blocks(Seq::empty()) =~= Seq::<ContentBlockView>::empty());
}

/// A use of a tool is told as a call of the function of that name, under its id and
/// with its input written out, after the calls before it; the content stays as it
/// was.
pub proof fn law_every_call_of_a_message_is_told(
    call: CallView,
    status: u16,
    message: JsonView,
    longer: JsonView,
    content: Seq<JsonView>,
    block: JsonView,
    id: Seq<char>,
    name: Seq<char>,
    input: JsonView,
)
    requires
        call.protocol == Protocol::Anthropic,
        200 <= status <= 299,
        whole_message(message, content),
        whole_message(longer, content.push(block)),
        block.get("type"@) == Some(JsonView::String("tool_use"@)),
        block.get("id"@) == Some(JsonView::String(id)),
        block.get("name"@) == Some(JsonView::String(name)),
        block.get("input"@) == Some(input),
    ensures
        ({
            let before = said_in(told(call, status, message));
            let after = said_in(told(call, status, longer));
            let earlier = match before.get("tool_calls"@) {
                Some(JsonView::Array(calls)) => calls,
                _ => Seq::empty(),
            };
            let calls = after.get("tool_calls"@);
            let made = calls->0->Array_0.last();
            &&& after.get("content"@) == before.get("content"@)
            &&& calls is Some
            &&& calls->0 is Array
            &&& calls->0->Array_0.len() == earlier.len() + 1
            &&& calls->0->Array_0.drop_last() == earlier
            &&& made.get("id"@) == Some(JsonView::String(id))
            &&& made.get("type"@) == Some(JsonView::String("function"@))
            &&& made.get("function"@) is Some
            &&& made.get("function"@)->0.get("name"@) == Some(JsonView::String(name))
            &&& made.get("function"@)->0.get("arguments"@) == Some(
                JsonView::String(text_of_json(input)),
            )
        }),
{
    lemma_told(call, status, message, content);
    lemma_told_choice(message, content, call.provider);
    lemma_told(call, status, longer, content.push(block));
    lemma_told_choice(longer, content.push(block), call.provider);
    lemma_blocks_push(content, block);
    lemma_tags();
    lemma_function_call(id, name, text_of_json(input));
    let before = reply_calls(anthropic::response::ingested_blocks(content));
    let made = crate::gateway::openai_compat::request::function_call(
        id,
        name,
        text_of_json(input),
    );
    assert(before.push(made).drop_last() =~= before);
    assert(before.len() == 0 ==> before =~= Seq::<JsonView>::empty());
}

/// The names within a call differ.
proof fn lemma_call_keys()
    ensures
        "id"@ != "type"@,
        "id"@ != "function"@,
        "id"@ != "arguments"@,
        "id"@ != "name"@,
        "type"@ != "function"@,
        "type"@ != "arguments"@,
        "type"@ != "name"@,
        "function"@ != "arguments"@,
        "function"@ != "name"@,
        "arguments"@ != "name"@,
{
    reveal_strlit("id");
    reveal_strlit("type");
    reveal_strlit("function");
    reveal_strlit("arguments");
    reveal_strlit("name");
    assert("id"@.len() != "type"@.len());
    assert("id"@.len() != "function"@.len());
    assert("id"@.len() != "arguments"@.len());
    assert("id"@.len() != "name"@.len());
    assert("type"@.len() != "function"@.len());
    assert("type"@.len() != "arguments"@.len());
    assert("type"@[0] != "name"@[0]);
    assert("function"@.len() != "arguments"@.len());
    assert("function"@.len() != "name"@.len());
    assert("arguments"@.len() != "name"@.len());
}

proof fn lemma_function_call(id: Seq<char>, name: Seq<char>, arguments: Seq<char>)
    ensures
        ({
            let made = crate::gateway::openai_compat::request::function_call(id, name, arguments);
            &&& made.get("id"@) == Some(JsonView::String(id))
            &&& made.get("type"@) == Some(JsonView::String("function"@))
            &&& made.get("function"@) is Some
            &&& made.get("function"@)->0.get("name"@) == Some(JsonView::String(name))
            &&& made.get("function"@)->0.get("arguments"@) == Some(JsonView::String(arguments))
        }),
{
    broadcast use group_find;

    lemma_call_keys();
}

/// A block that is neither a text nor a call, such as what the model thought, is no
/// part of what the caller is told.
pub proof fn law_what_is_no_text_is_not_told_as_one(
    call: CallView,
    status: u16,
    message: JsonView,
    longer: JsonView,
    content: Seq<JsonView>,
    block: JsonView,
)
    requires
        call.protocol == Protocol::Anthropic,
        200 <= status <= 299,
        whole_message(message, content),
        whole_message(longer, content.push(block)),
        block.get("type"@) != Some(JsonView::String("text"@)),
        block.get("type"@) != Some(JsonView::String("tool_use"@)),
        block.get("function"@) is None,
        block.get("custom"@) is None,
    ensures
        said_in(told(call, status, longer)).get("content"@) == said_in(
            told(call, status, message),
        ).get("content"@),
        said_in(told(call, status, longer)).get("tool_calls"@) == said_in(
            told(call, status, message),
        ).get("tool_calls"@),
{
    lemma_told(call, status, message, content);
    lemma_told_choice(message, content, call.provider);
    lemma_told(call, status, longer, content.push(block));
    lemma_told_choice(longer, content.push(block), call.provider);
    lemma_blocks_push(content, block);
}

/// Anthropic counts cached tokens apart; the caller is told of them as part of the
/// prompt, and of each by itself. The total is the prompt and the reply together,
/// and what thinking cost is told where it is known.
#[verifier::rlimit(40)]
pub proof fn law_token_counts_are_told(
    call: CallView,
    status: u16,
    message: JsonView,
    content: Seq<JsonView>,
)
    requires
        call.protocol == Protocol::Anthropic,
        200 <= status <= 299,
        whole_message(message, content),
        ({
            let usage = message.get("usage"@)->0;
            tokens(usage, "input_tokens"@) + tokens(usage, "cache_read_input_tokens"@) + tokens(
                usage,
                "cache_creation_input_tokens"@,
            ) + tokens(usage, "output_tokens"@) <= u32::MAX
        }),
    ensures
        ({
            let usage = message.get("usage"@)->0;
            let input = tokens(usage, "input_tokens"@);
            let read = tokens(usage, "cache_read_input_tokens"@);
            let written = tokens(usage, "cache_creation_input_tokens"@);
            let output = tokens(usage, "output_tokens"@);
            let reply = told(call, status, message)->Ok_0.get("usage"@);
            let prompt = reply->0.get("prompt_tokens_details"@);
            let detail = reply->0.get("completion_tokens_details"@);
            let thought = usage.get("output_tokens_details"@);
            &&& reply is Some
            &&& reply->0.get("prompt_tokens"@) == counted(input + read + written)
            &&& reply->0.get("completion_tokens"@) == counted(output)
            &&& reply->0.get("total_tokens"@) == counted(input + read + written + output)
            &&& !not_said(usage, "cache_read_input_tokens"@) ==> prompt is Some && prompt->0.get(
                "cached_tokens"@,
            ) == counted(read)
            &&& !not_said(usage, "cache_creation_input_tokens"@) ==> prompt is Some
                && prompt->0.get("cache_write_tokens"@) == counted(written)
            &&& not_said(usage, "cache_read_input_tokens"@) && not_said(
                usage,
                "cache_creation_input_tokens"@,
            ) ==> prompt is None
            &&& thought is Some && !not_said(thought->0, "thinking_tokens"@) ==> detail is Some
                && detail->0.get("reasoning_tokens"@) == counted(
                tokens(thought->0, "thinking_tokens"@),
            )
            &&& thought is None ==> detail is None
        }),
{
    lemma_told(call, status, message, content);
    lemma_told_usage(message.get("usage"@)->0, call.provider);
}

#[verifier::rlimit(40)]
proof fn lemma_told_usage(usage: JsonView, provider: Seq<char>)
    requires
        usage is Object,
        count_if_any(usage, "input_tokens"@),
        count_if_any(usage, "output_tokens"@),
        count_if_any(usage, "cache_creation_input_tokens"@),
        count_if_any(usage, "cache_read_input_tokens"@),
        not_said(usage, "output_tokens_details"@) || (usage.get("output_tokens_details"@)->0
            is Object && count_if_any(
            usage.get("output_tokens_details"@)->0,
            "thinking_tokens"@,
        )),
        tokens(usage, "input_tokens"@) + tokens(usage, "cache_read_input_tokens"@) + tokens(
            usage,
            "cache_creation_input_tokens"@,
        ) + tokens(usage, "output_tokens"@) <= u32::MAX,
    ensures
        ({
            let input = tokens(usage, "input_tokens"@);
            let read = tokens(usage, "cache_read_input_tokens"@);
            let written = tokens(usage, "cache_creation_input_tokens"@);
            let output = tokens(usage, "output_tokens"@);
            let reply = rendered_usage(anthropic::response::ingested_usage(usage), provider);
            let prompt = reply.get("prompt_tokens_details"@);
            let detail = reply.get("completion_tokens_details"@);
            let thought = usage.get("output_tokens_details"@);
            &&& reply.get("prompt_tokens"@) == counted(input + read + written)
            &&& reply.get("completion_tokens"@) == counted(output)
            &&& reply.get("total_tokens"@) == counted(input + read + written + output)
            &&& !not_said(usage, "cache_read_input_tokens"@) ==> prompt is Some && prompt->0.get(
                "cached_tokens"@,
            ) == counted(read)
            &&& !not_said(usage, "cache_creation_input_tokens"@) ==> prompt is Some
                && prompt->0.get("cache_write_tokens"@) == counted(written)
            &&& not_said(usage, "cache_read_input_tokens"@) && not_said(
                usage,
                "cache_creation_input_tokens"@,
            ) ==> prompt is None
            &&& thought is Some && !not_said(thought->0, "thinking_tokens"@) ==> detail is Some
                && detail->0.get("reasoning_tokens"@) == counted(
                tokens(thought->0, "thinking_tokens"@),
            )
            &&& thought is None ==> detail is None
        }),
{
    broadcast use group_find;

    lemma_usage_keys();
    law_another_protocol_reads_nothing(
        Protocol::OpenAiCompat,
        Protocol::Anthropic,
        anthropic::response::usage_residue(usage),
        provider,
    );
}

/// A response that is no success is never a reply; a success that is not the
/// document the protocol promises is a failure too.
pub proof fn law_only_a_success_is_a_reply(
    call: CallView,
    status: u16,
    body: Seq<char>,
    parsed: Option<JsonView>,
    retry_after: Option<u64>,
    request_id: Option<Seq<char>>,
)
    ensures
        status < 200 || status > 299 || parsed is None || !(parsed->0 is Object) ==> reply_to(
            call,
            status,
            body,
            parsed,
            retry_after,
            request_id,
        ) is Err,
        200 <= status <= 299 && (parsed is None || !(parsed->0 is Object)) ==> (reply_to(
            call,
            status,
            body,
            parsed,
            retry_after,
            request_id,
        ) matches Err(ErrorView::Decode { provider, .. }) && provider == call.provider),
        reply_to(call, status, body, parsed, retry_after, request_id) matches Ok(reply)
            ==> reply.get("model"@) == Some(JsonView::String(call.model)),
{
    broadcast use group_find;

}

/// A response that is no success is the failure that its protocol reads in it, with
/// everything that came with it.
pub proof fn law_what_is_no_success_is_read_as_a_failure(
    call: CallView,
    status: u16,
    body: Seq<char>,
    parsed: Option<JsonView>,
    retry_after: Option<u64>,
    request_id: Option<Seq<char>>,
)
    requires
        status < 200 || status > 299,
    ensures
        ({
            let told = reply_to(call, status, body, parsed, retry_after, request_id);
            &&& call.protocol == Protocol::OpenAiCompat ==> told == Err::<JsonView, ErrorView>(
                crate::gateway::openai_compat::error::reported(
                    call.provider,
                    status,
                    body,
                    parsed,
                    retry_after,
                    request_id,
                ),
            )
            &&& call.protocol == Protocol::Anthropic ==> told == Err::<JsonView, ErrorView>(
                anthropic::error::reported(
                    call.provider,
                    status,
                    body,
                    parsed,
                    retry_after,
                    request_id,
                ),
            )
        }),
{
}

/// The text blocks among several.
pub open spec fn texts_among(blocks: Seq<ContentBlockView>) -> Seq<ContentBlockView> {
    blocks.filter(|block: ContentBlockView| block is Text)
}

proof fn lemma_joined_texts(blocks: Seq<ContentBlockView>)
    ensures
        joined_text(texts_among(blocks)) == joined_text(blocks),
    decreases blocks.len(),
{
    reveal(Seq::filter);
    if blocks.len() > 0 {
        lemma_joined_texts(blocks.drop_last());
        let before = texts_among(blocks.drop_last());
        if blocks.last() is Text {
            assert(texts_among(blocks) == before.push(blocks.last()));
            assert(before.push(blocks.last()).drop_last() =~= before);
        } else {
            assert(texts_among(blocks) == before);
        }
    } else {
        assert(texts_among(blocks) =~= blocks);
    }
}

/// The content of a rendered message is that of its texts alone: to take every other
/// block out changes nothing of it; a text more is told on a line of its own; a
/// single text is told as it is; and without a text there is none.
pub proof fn law_the_content_is_the_texts(
    message: MessageView,
    provider: Seq<char>,
    text: Seq<char>,
)
    ensures
        ({
            let blocks = message.content;
            let block = ContentBlockView::Text { text, cache: None };
            let content = rendered_reply_message(message, provider).get("content"@);
            let more = rendered_reply_message(
                MessageView { content: blocks.push(block), ..message },
                provider,
            ).get("content"@);
            let only = rendered_reply_message(
                MessageView { content: texts_among(blocks), ..message },
                provider,
            ).get("content"@);
            &&& only == content
            &&& content is Some
            &&& texts_among(blocks).len() == 0 <==> content == Some(JsonView::Null)
            &&& texts_among(blocks).len() == 0 ==> more == Some(JsonView::String(text))
            &&& texts_among(blocks).len() > 0 ==> content->0 is String && more == Some(
                JsonView::String(content->0->String_0 + "\n"@ + text),
            )
        }),
{
    let blocks = message.content;
    let block = ContentBlockView::Text { text, cache: None };
    lemma_content(message, provider);
    lemma_content(MessageView { content: blocks.push(block), ..message }, provider);
    lemma_content(MessageView { content: texts_among(blocks), ..message }, provider);
    lemma_joined_texts(blocks);
    assert(blocks.push(block).drop_last() =~= blocks);
    lemma_some_text(texts_among(blocks));
    assert forall|i: int| 0 <= i < texts_among(blocks).len() implies (#[trigger] texts_among(
        blocks,
    )[i]) is Text by {
        broadcast use vstd::seq_lib::group_filter_ensures;

    }
}

proof fn lemma_content(message: MessageView, provider: Seq<char>)
    ensures
        rendered_reply_message(message, provider).get("content"@) == Some(
            match joined_text(message.content) {
                Some(text) => JsonView::String(text),
                None => JsonView::Null,
            },
        ),
{
    broadcast use group_find;

    lemma_message_keys();
}

proof fn lemma_some_text(blocks: Seq<ContentBlockView>)
    ensures
        blocks.len() == 0 ==> joined_text(blocks) is None,
        blocks.len() > 0 && blocks.last() is Text ==> joined_text(blocks) is Some,
{
}

proof fn lemma_no_other_field(
    message: JsonView,
    content: Seq<JsonView>,
    provider: Seq<char>,
    key: Seq<char>,
)
    requires
        whole_message(message, content),
    ensures
        ({
            let completion = anthropic::response::ingested_response(message).completions[0];
            let choice = rendered_choice(completion, 0, provider);
            &&& choice.get(key) is Some ==> key == "index"@ || key == "finish_reason"@ || key
                == "message"@
            &&& choice.get("message"@) is Some
            &&& choice.get("message"@)->0.get(key) is Some ==> key == "role"@ || key == "content"@
                || key == "refusal"@ || key == "tool_calls"@
        }),
{
    broadcast use group_find;

    lemma_choice_keys();
    lemma_message_keys();
    law_another_protocol_reads_nothing(
        Protocol::OpenAiCompat,
        Protocol::Anthropic,
        anthropic::response::message_residue(message),
        provider,
    );
    law_another_protocol_reads_nothing(
        Protocol::OpenAiCompat,
        Protocol::Anthropic,
        no_fields(),
        provider,
    );
    let completion = anthropic::response::ingested_response(message).completions[0];
    assert(crate::gateway::ext::merged(
        Protocol::OpenAiCompat,
        completion.ext,
        provider,
    ) == no_fields());
}

/// A message of Anthropic's is told with the fields of a chat completion and no other:
/// nothing that only Anthropic knows goes with them.
#[verifier::rlimit(40)]
pub proof fn law_nothing_foreign_is_told(
    call: CallView,
    status: u16,
    message: JsonView,
    content: Seq<JsonView>,
    key: Seq<char>,
)
    requires
        call.protocol == Protocol::Anthropic,
        200 <= status <= 299,
        whole_message(message, content),
    ensures
        ({
            let reply = told(call, status, message)->Ok_0;
            let choice = reply.get("choices"@)->0->Array_0[0];
            &&& reply.get(key) is Some ==> key == "id"@ || key == "object"@ || key == "created"@ || key
                == "model"@ || key == "choices"@ || key == "usage"@
            &&& choice.get(key) is Some ==> key == "index"@ || key == "finish_reason"@ || key
                == "message"@
            &&& choice.get("message"@)->0.get(key) is Some ==> key == "role"@ || key == "content"@
                || key == "refusal"@ || key == "tool_calls"@
        }),
{
    lemma_told(call, status, message, content);
    lemma_no_other_field(message, content, call.provider, key);
    if told(call, status, message)->Ok_0.get(key) is Some {
        lemma_no_other_key(call, status, message, content, key);
    }
}

proof fn lemma_no_other_key(
    call: CallView,
    status: u16,
    message: JsonView,
    content: Seq<JsonView>,
    key: Seq<char>,
)
    requires
        call.protocol == Protocol::Anthropic,
        200 <= status <= 299,
        whole_message(message, content),
        told(call, status, message)->Ok_0.get(key) is Some,
        told(call, status, message) is Ok,
    ensures
        key == "id"@ || key == "object"@ || key == "created"@ || key == "model"@ || key
            == "choices"@ || key == "usage"@,
{
    broadcast use group_find;

    lemma_reply_keys();
    law_another_protocol_reads_nothing(
        Protocol::OpenAiCompat,
        Protocol::Anthropic,
        anthropic::response::response_residue(message),
        call.provider,
    );
}

} // verus!
