//! What passes through as it came, where the provider speaks what the caller speaks:
//! laws from the one wire to the other.
use vstd::prelude::*;

use crate::client::{call_for, CallView, ClientView};
use crate::error::ErrorView;
use crate::gateway::openai_compat::request_laws::{law_a_request_round_trips, routed};
use crate::gateway::openai_compat::response_laws::{
    all_numbers_kept, filled_chunk, filled_response, law_a_chunk_round_trips,
    law_a_response_round_trips,
};
use crate::gateway::openai_compat::stream::ingested_chunk;
use crate::gateway::openai_compat::wire;
use crate::json::{group_find, put, JsonView, NumberView};
use crate::json_client::{naming, next_of, reply_to, request_of, JsonChatStreamView};
use crate::json_text::keys_distinct;
use crate::meaning::{lemma_same_object, meaning_at, same_json};
use crate::registry::model_spec;
use crate::replies::{count_if_any, not_said, text_if_any};
use crate::types::Protocol;

verus! {

/// The field is absent, `null` or a number.
pub open spec fn number_if_any(value: JsonView, key: Seq<char>) -> bool {
    not_said(value, key) || (value.get(key) matches Some(JsonView::Number(_)))
}

/// The field is absent, `null` or a boolean.
pub open spec fn flag_if_any(value: JsonView, key: Seq<char>) -> bool {
    not_said(value, key) || (value.get(key) matches Some(JsonView::Bool(_)))
}

/// The field is a text.
pub open spec fn has_text(value: JsonView, key: Seq<char>) -> bool {
    value.get(key) matches Some(JsonView::String(_))
}

/// A call of a function.
pub open spec fn is_a_call(call: JsonView) -> bool {
    &&& call is Object
    &&& has_text(call, "id"@)
    &&& has_text(call, "type"@)
    &&& call.get("function"@) is Some
    &&& has_text(call.get("function"@)->0, "name"@)
    &&& has_text(call.get("function"@)->0, "arguments"@)
}

/// The calls of a message, where it makes any.
pub open spec fn calls_if_any(message: JsonView) -> bool {
    not_said(message, "tool_calls"@) || (message.get("tool_calls"@) matches Some(
        JsonView::Array(calls),
    ) && forall|i: int| 0 <= i < calls.len() ==> is_a_call(#[trigger] calls[i]))
}

/// A message that a caller sends.
pub open spec fn is_a_message(message: JsonView) -> bool {
    let content = message.get("content"@);
    &&& message is Object
    &&& has_text(message, "role"@)
    &&& content is None || content->0 is Null || content->0 is String || content->0 is Array
    &&& calls_if_any(message)
    &&& text_if_any(message, "tool_call_id"@)
}

/// A function that a caller offers.
pub open spec fn is_a_tool(tool: JsonView) -> bool {
    let function = tool.get("function"@);
    &&& tool is Object
    &&& has_text(tool, "type"@)
    &&& function is Some
    &&& function->0 is Object
    &&& has_text(function->0, "name"@)
    &&& text_if_any(function->0, "description"@)
    &&& flag_if_any(function->0, "strict"@)
}

/// What a caller sends: a model and messages, and what else is said is said in the
/// form that chat completions documents.
pub open spec fn is_a_request(request: JsonView) -> bool {
    let stop = request.get("stop"@);
    let options = request.get("stream_options"@);
    let format = request.get("response_format"@);
    &&& request is Object
    &&& has_text(request, "model"@)
    &&& request.get("messages"@) matches Some(JsonView::Array(messages)) && forall|i: int|
        0 <= i < messages.len() ==> is_a_message(#[trigger] messages[i])
    &&& number_if_any(request, "temperature"@)
    &&& number_if_any(request, "top_p"@)
    &&& count_if_any(request, "max_tokens"@)
    &&& not_said(request, "stop"@) || stop->0 is String || (stop matches Some(
        JsonView::Array(items),
    ) && forall|i: int| 0 <= i < items.len() ==> #[trigger] items[i] is String)
    &&& flag_if_any(request, "stream"@)
    &&& not_said(request, "stream_options"@) || (options->0 is Object && flag_if_any(
        options->0,
        "include_usage"@,
    ))
    &&& not_said(request, "tools"@) || (request.get("tools"@) matches Some(JsonView::Array(tools))
        && forall|i: int| 0 <= i < tools.len() ==> is_a_tool(#[trigger] tools[i]))
    &&& not_said(request, "response_format"@) || (format->0 is Object && has_text(
        format->0,
        "type"@,
    ))
    &&& text_if_any(request, "reasoning_effort"@)
}

proof fn lemma_calls(message: JsonView)
    requires
        calls_if_any(message),
    ensures
        wire::absent_or(
            message,
            "tool_calls"@,
            |v: JsonView| v is Null || wire::calls_shape(v),
        ),
{
    match message.get("tool_calls"@) {
        Some(JsonView::Array(calls)) => {
            assert forall|i: int| 0 <= i < calls.len() implies wire::call_shape(
                #[trigger] calls[i],
            ) by {
                assert(is_a_call(calls[i]));
            }
            assert(wire::all_items(calls, |v: JsonView| wire::call_shape(v)));
            assert(wire::calls_shape(JsonView::Array(calls)));
        },
        _ => {},
    }
}

/// What a caller sends as a request is taken for one, and as it is.
#[verifier::rlimit(40)]
pub proof fn law_a_request_is_accepted(request: JsonView)
    requires
        is_a_request(request),
    ensures
        request_of(Some(request)) == Ok::<JsonView, ErrorView>(request),
{
    let messages = request.get("messages"@)->0->Array_0;
    assert forall|i: int| 0 <= i < messages.len() implies wire::message_shape(
        #[trigger] messages[i],
    ) by {
        assert(is_a_message(messages[i]));
        lemma_calls(messages[i]);
    }
    assert(wire::all_items(messages, |v: JsonView| wire::message_shape(v)));
    assert(wire::messages_shape(JsonView::Array(messages)));
    match request.get("tools"@) {
        Some(JsonView::Array(tools)) => {
            assert forall|i: int| 0 <= i < tools.len() implies wire::tool_shape(
                #[trigger] tools[i],
            ) by {
                assert(is_a_tool(tools[i]));
                assert(wire::function_shape(tools[i].get("function"@)->0));
            }
            assert(wire::all_items(tools, |v: JsonView| wire::tool_shape(v)));
            assert(wire::tools_shape(JsonView::Array(tools)));
        },
        _ => {},
    }
    match request.get("stop"@) {
        Some(JsonView::Array(items)) => {
            assert(wire::all_items(items, |v: JsonView| v is String));
            assert(wire::stop_shape(JsonView::Array(items)));
        },
        _ => {},
    }
    match request.get("stream_options"@) {
        Some(options) => {
            assert(wire::stream_options_shape(options));
        },
        None => {},
    }
    assert(wire::request_shape(request));
}

/// A request for a provider that speaks what the caller speaks is sent as it came,
/// but for the model, which is named as the provider names it. Nothing else is
/// added, and nothing is left out but what says no more than its absence: a `stream`
/// that is not asked for, an empty list, and a `null`.
pub proof fn law_a_request_passes_through(client: ClientView, request: JsonView, model: Seq<char>)
    requires
        is_a_request(request),
        keys_distinct(request),
        request.get("model"@) == Some(JsonView::String(model)),
        model_spec(client.roster, model) is Some,
        model_spec(client.roster, model)->0.protocol == Protocol::OpenAiCompat,
        client.config.providers matches Some(entries) ==> exists|i: int|
            0 <= i < entries.len() && (#[trigger] entries[i]).name == model_spec(
                client.roster,
                model,
            )->0.provider,
    ensures
        call_for(client, request) is Ok,
        same_json(
            call_for(client, request)->Ok_0.body,
            routed(request, model_spec(client.roster, model)->0.name),
        ),
{
    let spec = model_spec(client.roster, model)->0;
    law_a_request_is_accepted(request);
    law_a_request_round_trips(request, spec.name, spec.provider);
    crate::routes::law_a_call_is_refused_for_its_model_or_its_provider(client, request, model);
    crate::routes::law_a_call_goes_where_the_model_says(client, request);
}

/// A choice of a whole reply.
pub open spec fn is_a_choice(choice: JsonView) -> bool {
    let message = choice.get("message"@);
    &&& choice is Object
    &&& has_text(choice, "finish_reason"@)
    &&& count_if_any(choice, "index"@) && !not_said(choice, "index"@)
    &&& not_said(choice, "logprobs"@)
    &&& message is Some
    &&& message->0 is Object
    &&& has_text(message->0, "role"@)
    &&& text_if_any(message->0, "content"@)
    &&& text_if_any(message->0, "refusal"@)
    &&& calls_if_any(message->0)
    &&& not_said(message->0, "annotations"@)
    &&& not_said(message->0, "audio"@)
    &&& not_said(message->0, "function_call"@)
}

/// What every reply and chunk holds.
pub open spec fn is_an_envelope(value: JsonView) -> bool {
    let usage = value.get("usage"@);
    &&& value is Object
    &&& has_text(value, "id"@)
    &&& has_text(value, "object"@)
    &&& has_text(value, "model"@)
    &&& value.get("created"@) matches Some(JsonView::Number(NumberView::Unsigned(_)))
    &&& not_said(value, "moderation"@)
    &&& text_if_any(value, "service_tier"@)
    &&& text_if_any(value, "system_fingerprint"@)
    &&& not_said(value, "usage"@) || {
        &&& usage->0 is Object
        &&& count_if_any(usage->0, "prompt_tokens"@) && !not_said(usage->0, "prompt_tokens"@)
        &&& count_if_any(usage->0, "completion_tokens"@) && !not_said(
            usage->0,
            "completion_tokens"@,
        )
        &&& count_if_any(usage->0, "total_tokens"@) && !not_said(usage->0, "total_tokens"@)
        &&& not_said(usage->0, "prompt_tokens_details"@) || usage->0.get(
            "prompt_tokens_details"@,
        )->0 is Object
        &&& not_said(usage->0, "completion_tokens_details"@) || usage->0.get(
            "completion_tokens_details"@,
        )->0 is Object
    }
}

/// A whole reply.
pub open spec fn is_a_reply(reply: JsonView) -> bool {
    &&& is_an_envelope(reply)
    &&& reply.get("choices"@) matches Some(JsonView::Array(choices)) && forall|i: int|
        0 <= i < choices.len() ==> is_a_choice(#[trigger] choices[i])
}

proof fn lemma_envelope(value: JsonView)
    requires
        is_an_envelope(value),
    ensures
        wire::envelope_shape(value),
{
    match value.get("usage"@) {
        Some(JsonView::Object(fields)) => {
            assert(wire::usage_shape(JsonView::Object(fields)));
        },
        _ => {},
    }
}

proof fn lemma_reply(reply: JsonView)
    requires
        is_a_reply(reply),
    ensures
        wire::response_shape(reply),
{
    lemma_envelope(reply);
    let choices = reply.get("choices"@)->0->Array_0;
    assert forall|i: int| 0 <= i < choices.len() implies wire::choice_shape(
        #[trigger] choices[i],
    ) by {
        assert(is_a_choice(choices[i]));
        lemma_calls(choices[i].get("message"@)->0);
        assert(wire::reply_message_shape(choices[i].get("message"@)->0));
    }
    assert(wire::all_items(choices, |v: JsonView| wire::choice_shape(v)));
    assert(wire::choices_shape(JsonView::Array(choices)));
}

/// Naming a model changes nothing else of a document.
proof fn lemma_naming(a: JsonView, b: JsonView, model: Seq<char>)
    requires
        a is Object,
        b is Object,
        same_json(a, b),
    ensures
        same_json(naming(a, model), naming(b, model)),
{
    broadcast use group_find;

    let x = put(a.fields(), "model"@, JsonView::String(model));
    let y = put(b.fields(), "model"@, JsonView::String(model));
    assert forall|key: Seq<char>| #[trigger] meaning_at(x, key) == meaning_at(y, key) by {
        crate::meaning::lemma_same_fields(a.fields(), b.fields(), key);
    }
    lemma_same_object(x, y);
}

/// A reply from a provider that speaks what the caller speaks is told as it came, but
/// for the model, which is named as the caller named it.
pub proof fn law_a_reply_passes_through(
    call: CallView,
    status: u16,
    body: Seq<char>,
    reply: JsonView,
    retry_after: Option<u64>,
    request_id: Option<Seq<char>>,
)
    requires
        call.protocol == Protocol::OpenAiCompat,
        200 <= status <= 299,
        is_a_reply(reply),
        keys_distinct(reply),
    ensures
        ({
            let told = reply_to(call, status, body, Some(reply), retry_after, request_id);
            &&& told is Ok
            &&& same_json(
                told->Ok_0,
                JsonView::Object(
                    put(
                        filled_response(reply).fields(),
                        "model"@,
                        JsonView::String(call.model),
                    ),
                ),
            )
        }),
{
    lemma_reply(reply);
    law_a_response_round_trips(reply, call.provider);
    let told = crate::gateway::openai_compat::response::rendered_response(
        crate::gateway::openai_compat::response::ingested_response(reply),
        call.provider,
    );
    lemma_naming(told, filled_response(reply), call.model);
}

/// A choice of a chunk that makes no calls.
pub open spec fn is_a_piece(choice: JsonView) -> bool {
    let delta = choice.get("delta"@);
    &&& choice is Object
    &&& text_if_any(choice, "finish_reason"@)
    &&& count_if_any(choice, "index"@) && !not_said(choice, "index"@)
    &&& not_said(choice, "logprobs"@)
    &&& delta is Some
    &&& delta->0 is Object
    &&& text_if_any(delta->0, "role"@)
    &&& text_if_any(delta->0, "content"@)
    &&& text_if_any(delta->0, "refusal"@)
    &&& not_said(delta->0, "tool_calls"@)
    &&& not_said(delta->0, "function_call"@)
}

/// A chunk that makes no calls.
pub open spec fn is_a_chunk(chunk: JsonView) -> bool {
    &&& is_an_envelope(chunk)
    &&& chunk.get("choices"@) matches Some(JsonView::Array(choices)) && forall|i: int|
        0 <= i < choices.len() ==> is_a_piece(#[trigger] choices[i])
}

proof fn lemma_chunk(chunk: JsonView)
    requires
        is_a_chunk(chunk),
    ensures
        wire::chunk_shape(chunk),
{
    lemma_envelope(chunk);
    let choices = chunk.get("choices"@)->0->Array_0;
    assert forall|i: int| 0 <= i < choices.len() implies wire::stream_choice_shape(
        #[trigger] choices[i],
    ) by {
        assert(is_a_piece(choices[i]));
        assert(wire::delta_shape(choices[i].get("delta"@)->0));
    }
    assert(wire::all_items(choices, |v: JsonView| wire::stream_choice_shape(v)));
    assert(wire::stream_choices_shape(JsonView::Array(choices)));
}

/// A chunk of text from a provider that speaks what the caller speaks is told as it
/// came, but for the model, which is named as the caller named it.
#[verifier::rlimit(40)]
pub proof fn law_a_chunk_passes_through(stream: JsonChatStreamView, chunk: JsonView)
    requires
        !stream.ended,
        stream.protocol == Protocol::OpenAiCompat,
        is_a_chunk(chunk),
        keys_distinct(chunk),
    ensures
        next_of(stream, Some(chunk)).0 is Some,
        next_of(stream, Some(chunk)).0->0 is Ok,
        same_json(
            next_of(stream, Some(chunk)).0->0->Ok_0,
            JsonView::Object(
                put(filled_chunk(chunk).fields(), "model"@, JsonView::String(stream.model)),
            ),
        ),
{
    lemma_chunk(chunk);
    let view = ingested_chunk(chunk);
    let choices = chunk.get("choices"@)->0->Array_0;
    assert forall|i: int| 0 <= i < view.completions.len() implies no_calls(
        #[trigger] view.completions[i].delta.content,
    ) by {
        assert(is_a_piece(choices[i]));
        assert(view.completions[i]
            == crate::gateway::openai_compat::stream::ingested_stream_choice(choices[i]));
    }
    lemma_numbers_kept(view.completions, stream.provider, stream.seen);
    law_a_chunk_round_trips(chunk, stream.provider, stream.seen);
    let told = crate::gateway::openai_compat::stream::rendered_chunk(
        view,
        stream.provider,
        stream.seen,
    ).0;
    lemma_naming(told, filled_chunk(chunk), stream.model);
}

/// No fragment is a piece of a call.
spec fn no_calls(content: Seq<crate::gateway::types::stream::ContentDeltaView>) -> bool {
    forall|i: int|
        0 <= i < content.len() ==> !((#[trigger] content[i]) is ToolCall) && !(content[i] is Unknown)
}

proof fn lemma_numbers_kept(
    completions: Seq<crate::gateway::types::stream::CompletionDeltaView>,
    provider: Seq<char>,
    seen: Seq<(u32, u32)>,
)
    requires
        forall|i: int|
            0 <= i < completions.len() ==> no_calls(#[trigger] completions[i].delta.content),
    ensures
        all_numbers_kept(completions, provider, seen),
    decreases completions.len(),
{
    if completions.len() > 0 {
        let rest = completions.drop_last();
        assert forall|i: int| 0 <= i < rest.len() implies no_calls(
            #[trigger] rest[i].delta.content,
        ) by {
            assert(rest[i] == completions[i]);
        }
        lemma_numbers_kept(rest, provider, seen);
        assert(no_calls(completions[completions.len() - 1].delta.content));
        lemma_no_numbers(completions.last().delta.content);
    }
}

proof fn lemma_no_numbers(content: Seq<crate::gateway::types::stream::ContentDeltaView>)
    requires
        no_calls(content),
    ensures
        forall|choice: u32, seen: Seq<(u32, u32)>| #[trigger]
            crate::gateway::openai_compat::response_laws::numbers_kept(content, choice, seen),
    decreases content.len(),
{
    if content.len() > 0 {
        let rest = content.drop_last();
        assert forall|i: int| 0 <= i < rest.len() implies !((#[trigger] rest[i]) is ToolCall) && !(
        rest[i] is Unknown) by {
            assert(rest[i] == content[i]);
        }
        lemma_no_numbers(rest);
        assert(!(content[content.len() - 1] is ToolCall));
        assert forall|choice: u32, seen: Seq<(u32, u32)>| #[trigger]
            crate::gateway::openai_compat::response_laws::numbers_kept(content, choice, seen) by {
            assert(crate::gateway::openai_compat::response_laws::numbers_kept(rest, choice, seen));
        }
    }
}

} // verus!
