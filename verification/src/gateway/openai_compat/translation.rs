//! What one of Anthropic's requests is in chat completions: laws from the one wire to
//! the other, and what is read back of what is rendered.
use vstd::prelude::*;

use crate::error::ErrorView;
use crate::gateway::anthropic;
use crate::gateway::ext::{law_another_protocol_reads_nothing, merged};
use crate::gateway::types::message::{ContentBlockView, MessageView, ReasoningDetailView, Role};
use crate::gateway::types::response::FinishReason;
use crate::gateway::types::stream::ContentDeltaView;
use crate::gateway::types::request::{
    ChatRequestView, ResponseFormatView, ToolChoiceView, ToolDefView,
};
use crate::json::{
    group_find, no_fields, opt_bool, opt_number, opt_string, opt_u32, strings, JsonView, NumberView,
};
use crate::json_text::text_of_json;
use crate::types::Protocol;

use super::request::{
    calls_of, ingested_response_format, ingested_tool, ingested_tool_choice, lacks_a_schema,
    refusal, rendered_content, rendered_message, rendered_messages, rendered_request,
    rendered_response_format, rendered_tool, rendered_tool_choice, rendered_tools, results_of,
    stream_options_field,
};

verus! {

/// One of Anthropic's requests, rendered as chat completions.
pub open spec fn translated(request: JsonView, model: Seq<char>, provider: Seq<char>) -> Result<
    JsonView,
    ErrorView,
> {
    rendered_request(anthropic::request::ingested_request(request, model), provider)
}

/// The names within a rendered request differ.
proof fn lemma_body_keys()
    ensures
        "model"@ != "messages"@,
        "model"@ != "stream"@,
        "model"@ != "tools"@,
        "model"@ != "temperature"@,
        "model"@ != "max_tokens"@,
        "model"@ != "top_p"@,
        "model"@ != "top_k"@,
        "model"@ != "stop"@,
        "model"@ != "stream_options"@,
        "model"@ != "tool_choice"@,
        "model"@ != "parallel_tool_calls"@,
        "model"@ != "response_format"@,
        "model"@ != "reasoning_effort"@,
        "model"@ != "max_completion_tokens"@,
        "messages"@ != "stream"@,
        "messages"@ != "tools"@,
        "messages"@ != "temperature"@,
        "messages"@ != "max_tokens"@,
        "messages"@ != "top_p"@,
        "messages"@ != "top_k"@,
        "messages"@ != "stop"@,
        "messages"@ != "stream_options"@,
        "messages"@ != "tool_choice"@,
        "messages"@ != "parallel_tool_calls"@,
        "messages"@ != "response_format"@,
        "messages"@ != "reasoning_effort"@,
        "messages"@ != "max_completion_tokens"@,
        "stream"@ != "tools"@,
        "stream"@ != "temperature"@,
        "stream"@ != "max_tokens"@,
        "stream"@ != "top_p"@,
        "stream"@ != "top_k"@,
        "stream"@ != "stop"@,
        "stream"@ != "stream_options"@,
        "stream"@ != "tool_choice"@,
        "stream"@ != "parallel_tool_calls"@,
        "stream"@ != "response_format"@,
        "stream"@ != "reasoning_effort"@,
        "stream"@ != "max_completion_tokens"@,
        "tools"@ != "temperature"@,
        "tools"@ != "max_tokens"@,
        "tools"@ != "top_p"@,
        "tools"@ != "top_k"@,
        "tools"@ != "stop"@,
        "tools"@ != "stream_options"@,
        "tools"@ != "tool_choice"@,
        "tools"@ != "parallel_tool_calls"@,
        "tools"@ != "response_format"@,
        "tools"@ != "reasoning_effort"@,
        "tools"@ != "max_completion_tokens"@,
        "temperature"@ != "max_tokens"@,
        "temperature"@ != "top_p"@,
        "temperature"@ != "top_k"@,
        "temperature"@ != "stop"@,
        "temperature"@ != "stream_options"@,
        "temperature"@ != "tool_choice"@,
        "temperature"@ != "parallel_tool_calls"@,
        "temperature"@ != "response_format"@,
        "temperature"@ != "reasoning_effort"@,
        "temperature"@ != "max_completion_tokens"@,
        "max_tokens"@ != "top_p"@,
        "max_tokens"@ != "top_k"@,
        "max_tokens"@ != "stop"@,
        "max_tokens"@ != "stream_options"@,
        "max_tokens"@ != "tool_choice"@,
        "max_tokens"@ != "parallel_tool_calls"@,
        "max_tokens"@ != "response_format"@,
        "max_tokens"@ != "reasoning_effort"@,
        "max_tokens"@ != "max_completion_tokens"@,
        "top_p"@ != "top_k"@,
        "top_p"@ != "stop"@,
        "top_p"@ != "stream_options"@,
        "top_p"@ != "tool_choice"@,
        "top_p"@ != "parallel_tool_calls"@,
        "top_p"@ != "response_format"@,
        "top_p"@ != "reasoning_effort"@,
        "top_p"@ != "max_completion_tokens"@,
        "top_k"@ != "stop"@,
        "top_k"@ != "stream_options"@,
        "top_k"@ != "tool_choice"@,
        "top_k"@ != "parallel_tool_calls"@,
        "top_k"@ != "response_format"@,
        "top_k"@ != "reasoning_effort"@,
        "top_k"@ != "max_completion_tokens"@,
        "stop"@ != "stream_options"@,
        "stop"@ != "tool_choice"@,
        "stop"@ != "parallel_tool_calls"@,
        "stop"@ != "response_format"@,
        "stop"@ != "reasoning_effort"@,
        "stop"@ != "max_completion_tokens"@,
        "stream_options"@ != "tool_choice"@,
        "stream_options"@ != "parallel_tool_calls"@,
        "stream_options"@ != "response_format"@,
        "stream_options"@ != "reasoning_effort"@,
        "stream_options"@ != "max_completion_tokens"@,
        "tool_choice"@ != "parallel_tool_calls"@,
        "tool_choice"@ != "response_format"@,
        "tool_choice"@ != "reasoning_effort"@,
        "tool_choice"@ != "max_completion_tokens"@,
        "parallel_tool_calls"@ != "response_format"@,
        "parallel_tool_calls"@ != "reasoning_effort"@,
        "parallel_tool_calls"@ != "max_completion_tokens"@,
        "response_format"@ != "reasoning_effort"@,
        "response_format"@ != "max_completion_tokens"@,
        "reasoning_effort"@ != "max_completion_tokens"@,
{
    reveal_strlit("model");
    reveal_strlit("messages");
    reveal_strlit("stream");
    reveal_strlit("tools");
    reveal_strlit("temperature");
    reveal_strlit("max_tokens");
    reveal_strlit("top_p");
    reveal_strlit("top_k");
    reveal_strlit("stop");
    reveal_strlit("stream_options");
    reveal_strlit("tool_choice");
    reveal_strlit("parallel_tool_calls");
    reveal_strlit("response_format");
    reveal_strlit("reasoning_effort");
    reveal_strlit("max_completion_tokens");
    assert("model"@.len() != "messages"@.len());
    assert("model"@.len() != "stream"@.len());
    assert("model"@[0] != "tools"@[0]);
    assert("model"@.len() != "temperature"@.len());
    assert("model"@.len() != "max_tokens"@.len());
    assert("model"@[0] != "top_p"@[0]);
    assert("model"@[0] != "top_k"@[0]);
    assert("model"@.len() != "stop"@.len());
    assert("model"@.len() != "stream_options"@.len());
    assert("model"@.len() != "tool_choice"@.len());
    assert("model"@.len() != "parallel_tool_calls"@.len());
    assert("model"@.len() != "response_format"@.len());
    assert("model"@.len() != "reasoning_effort"@.len());
    assert("model"@.len() != "max_completion_tokens"@.len());
    assert("messages"@.len() != "stream"@.len());
    assert("messages"@.len() != "tools"@.len());
    assert("messages"@.len() != "temperature"@.len());
    assert("messages"@.len() != "max_tokens"@.len());
    assert("messages"@.len() != "top_p"@.len());
    assert("messages"@.len() != "top_k"@.len());
    assert("messages"@.len() != "stop"@.len());
    assert("messages"@.len() != "stream_options"@.len());
    assert("messages"@.len() != "tool_choice"@.len());
    assert("messages"@.len() != "parallel_tool_calls"@.len());
    assert("messages"@.len() != "response_format"@.len());
    assert("messages"@.len() != "reasoning_effort"@.len());
    assert("messages"@.len() != "max_completion_tokens"@.len());
    assert("stream"@.len() != "tools"@.len());
    assert("stream"@.len() != "temperature"@.len());
    assert("stream"@.len() != "max_tokens"@.len());
    assert("stream"@.len() != "top_p"@.len());
    assert("stream"@.len() != "top_k"@.len());
    assert("stream"@.len() != "stop"@.len());
    assert("stream"@.len() != "stream_options"@.len());
    assert("stream"@.len() != "tool_choice"@.len());
    assert("stream"@.len() != "parallel_tool_calls"@.len());
    assert("stream"@.len() != "response_format"@.len());
    assert("stream"@.len() != "reasoning_effort"@.len());
    assert("stream"@.len() != "max_completion_tokens"@.len());
    assert("tools"@.len() != "temperature"@.len());
    assert("tools"@.len() != "max_tokens"@.len());
    assert("tools"@[2] != "top_p"@[2]);
    assert("tools"@[2] != "top_k"@[2]);
    assert("tools"@.len() != "stop"@.len());
    assert("tools"@.len() != "stream_options"@.len());
    assert("tools"@.len() != "tool_choice"@.len());
    assert("tools"@.len() != "parallel_tool_calls"@.len());
    assert("tools"@.len() != "response_format"@.len());
    assert("tools"@.len() != "reasoning_effort"@.len());
    assert("tools"@.len() != "max_completion_tokens"@.len());
    assert("temperature"@.len() != "max_tokens"@.len());
    assert("temperature"@.len() != "top_p"@.len());
    assert("temperature"@.len() != "top_k"@.len());
    assert("temperature"@.len() != "stop"@.len());
    assert("temperature"@.len() != "stream_options"@.len());
    assert("temperature"@[1] != "tool_choice"@[1]);
    assert("temperature"@.len() != "parallel_tool_calls"@.len());
    assert("temperature"@.len() != "response_format"@.len());
    assert("temperature"@.len() != "reasoning_effort"@.len());
    assert("temperature"@.len() != "max_completion_tokens"@.len());
    assert("max_tokens"@.len() != "top_p"@.len());
    assert("max_tokens"@.len() != "top_k"@.len());
    assert("max_tokens"@.len() != "stop"@.len());
    assert("max_tokens"@.len() != "stream_options"@.len());
    assert("max_tokens"@.len() != "tool_choice"@.len());
    assert("max_tokens"@.len() != "parallel_tool_calls"@.len());
    assert("max_tokens"@.len() != "response_format"@.len());
    assert("max_tokens"@.len() != "reasoning_effort"@.len());
    assert("max_tokens"@.len() != "max_completion_tokens"@.len());
    assert("top_p"@[4] != "top_k"@[4]);
    assert("top_p"@.len() != "stop"@.len());
    assert("top_p"@.len() != "stream_options"@.len());
    assert("top_p"@.len() != "tool_choice"@.len());
    assert("top_p"@.len() != "parallel_tool_calls"@.len());
    assert("top_p"@.len() != "response_format"@.len());
    assert("top_p"@.len() != "reasoning_effort"@.len());
    assert("top_p"@.len() != "max_completion_tokens"@.len());
    assert("top_k"@.len() != "stop"@.len());
    assert("top_k"@.len() != "stream_options"@.len());
    assert("top_k"@.len() != "tool_choice"@.len());
    assert("top_k"@.len() != "parallel_tool_calls"@.len());
    assert("top_k"@.len() != "response_format"@.len());
    assert("top_k"@.len() != "reasoning_effort"@.len());
    assert("top_k"@.len() != "max_completion_tokens"@.len());
    assert("stop"@.len() != "stream_options"@.len());
    assert("stop"@.len() != "tool_choice"@.len());
    assert("stop"@.len() != "parallel_tool_calls"@.len());
    assert("stop"@.len() != "response_format"@.len());
    assert("stop"@.len() != "reasoning_effort"@.len());
    assert("stop"@.len() != "max_completion_tokens"@.len());
    assert("stream_options"@.len() != "tool_choice"@.len());
    assert("stream_options"@.len() != "parallel_tool_calls"@.len());
    assert("stream_options"@.len() != "response_format"@.len());
    assert("stream_options"@.len() != "reasoning_effort"@.len());
    assert("stream_options"@.len() != "max_completion_tokens"@.len());
    assert("tool_choice"@.len() != "parallel_tool_calls"@.len());
    assert("tool_choice"@.len() != "response_format"@.len());
    assert("tool_choice"@.len() != "reasoning_effort"@.len());
    assert("tool_choice"@.len() != "max_completion_tokens"@.len());
    assert("parallel_tool_calls"@.len() != "response_format"@.len());
    assert("parallel_tool_calls"@.len() != "reasoning_effort"@.len());
    assert("parallel_tool_calls"@.len() != "max_completion_tokens"@.len());
    assert("response_format"@.len() != "reasoning_effort"@.len());
    assert("response_format"@.len() != "max_completion_tokens"@.len());
    assert("reasoning_effort"@.len() != "max_completion_tokens"@.len());
}

/// What the fields of a rendered request are, where nothing was kept for them.
#[verifier::rlimit(40)]
proof fn lemma_body(request: ChatRequestView, provider: Seq<char>)
    requires
        merged(Protocol::OpenAiCompat, request.ext, provider) == no_fields(),
        rendered_request(request, provider) is Ok,
    ensures
        ({
            let body = rendered_request(request, provider)->Ok_0;
            &&& body is Object
            &&& refusal(request) is None
            &&& !lacks_a_schema(request.tools)
            &&& body.get("model"@) == Some(JsonView::String(request.model))
            &&& body.get("messages"@) == Some(
                JsonView::Array(rendered_messages(request.messages, provider)),
            )
            &&& body.get("stream"@) == (if request.stream {
                Some(JsonView::Bool(true))
            } else {
                None
            })
            &&& body.get("tools"@) == (if request.tools.len() == 0 {
                None
            } else {
                Some(JsonView::Array(rendered_tools(request.tools)))
            })
            &&& body.get("temperature"@) == opt_number(request.params.temperature)
            &&& body.get("max_tokens"@) == opt_u32(request.params.max_tokens)
            &&& body.get("top_p"@) == opt_number(request.params.top_p)
            &&& body.get("top_k"@) == opt_u32(request.params.top_k)
            &&& body.get("stop"@) == (if request.params.stop.len() == 0 {
                None
            } else {
                Some(JsonView::Array(strings(request.params.stop)))
            })
            &&& body.get("stream_options"@) == stream_options_field(request.stream_include_usage)
            &&& body.get("tool_choice"@) == (match request.tool_choice {
                Some(choice) => Some(rendered_tool_choice(choice)),
                None => None,
            })
            &&& body.get("parallel_tool_calls"@) == opt_bool(request.parallel_tool_calls)
            &&& body.get("response_format"@) == (match request.response_format {
                Some(format) => Some(rendered_response_format(format)),
                None => None,
            })
            &&& body.get("reasoning_effort"@) == (match request.reasoning {
                Some(reasoning) => opt_string(reasoning.effort),
                None => None,
            })
        }),
{
    broadcast use group_find;

    lemma_body_keys();
}

proof fn lemma_nothing_kept(request: JsonView, model: Seq<char>, provider: Seq<char>)
    ensures
        merged(
            Protocol::OpenAiCompat,
            anthropic::request::ingested_request(request, model).ext,
            provider,
        ) == no_fields(),
{
    law_another_protocol_reads_nothing(
        Protocol::OpenAiCompat,
        Protocol::Anthropic,
        anthropic::request::request_residue(request.fields()),
        provider,
    );
}

/// The words for a choice of tools differ.
proof fn lemma_choice_words()
    ensures
        "auto"@ != "none"@,
        "auto"@ != "any"@,
        "auto"@ != "tool"@,
        "auto"@ != "required"@,
        "none"@ != "any"@,
        "none"@ != "tool"@,
        "none"@ != "required"@,
        "any"@ != "tool"@,
        "any"@ != "required"@,
        "tool"@ != "required"@,
{
    reveal_strlit("auto");
    reveal_strlit("none");
    reveal_strlit("any");
    reveal_strlit("tool");
    reveal_strlit("required");
    assert("auto"@[0] != "none"@[0]);
    assert("auto"@.len() != "any"@.len());
    assert("auto"@[0] != "tool"@[0]);
    assert("auto"@.len() != "required"@.len());
    assert("none"@.len() != "any"@.len());
    assert("none"@[0] != "tool"@[0]);
    assert("none"@.len() != "required"@.len());
    assert("any"@.len() != "tool"@.len());
    assert("any"@.len() != "required"@.len());
    assert("tool"@.len() != "required"@.len());
}

/// The names within a choice differ.
proof fn lemma_choice_keys()
    ensures
        "type"@ != "name"@,
        "type"@ != "function"@,
        "type"@ != "include_usage"@,
        "name"@ != "function"@,
        "name"@ != "include_usage"@,
        "function"@ != "include_usage"@,
{
    reveal_strlit("type");
    reveal_strlit("name");
    reveal_strlit("function");
    reveal_strlit("include_usage");
    assert("type"@[0] != "name"@[0]);
    assert("type"@.len() != "function"@.len());
    assert("type"@.len() != "include_usage"@.len());
    assert("name"@.len() != "function"@.len());
    assert("name"@.len() != "include_usage"@.len());
    assert("function"@.len() != "include_usage"@.len());
}

/// How to sample, the limit, the sequences to stop at and whether to stream are carried
/// over; a stream asks for its token counts, which Anthropic always gives.
#[verifier::rlimit(40)]
pub proof fn law_how_to_sample_is_carried_over(
    request: JsonView,
    model: Seq<char>,
    provider: Seq<char>,
)
    ensures
        translated(request, model, provider) matches Ok(body) ==> {
            let streams = request.get("stream"@) == Some(JsonView::Bool(true));
            &&& body.get("model"@) == Some(JsonView::String(model))
            &&& body.get("temperature"@) == (match request.get("temperature"@) {
                Some(JsonView::Number(n)) => Some(JsonView::Number(n)),
                _ => None,
            })
            &&& body.get("top_p"@) == (match request.get("top_p"@) {
                Some(JsonView::Number(n)) => Some(JsonView::Number(n)),
                _ => None,
            })
            &&& body.get("top_k"@) == (match request.get("top_k"@) {
                Some(JsonView::Number(NumberView::Unsigned(n))) => if n <= u32::MAX {
                    Some(JsonView::Number(NumberView::Unsigned(n)))
                } else {
                    None
                },
                _ => None,
            })
            &&& body.get("max_tokens"@) == (match request.get("max_tokens"@) {
                Some(JsonView::Number(NumberView::Unsigned(n))) => if n <= u32::MAX {
                    Some(JsonView::Number(NumberView::Unsigned(n)))
                } else {
                    None
                },
                _ => None,
            })
            &&& request.get("stop_sequences"@) is None ==> body.get("stop"@) is None
            &&& request.get("stop_sequences"@) is Some
                && anthropic::translation::texts_only(request.get("stop_sequences"@)->0)
                ==> body.get("stop"@) == request.get("stop_sequences"@)
            &&& body.get("stream"@) == (if streams {
                Some(JsonView::Bool(true))
            } else {
                None
            })
            &&& streams ==> body.get("stream_options"@) is Some && body.get(
                "stream_options"@,
            )->0.get("include_usage"@) == Some(JsonView::Bool(true))
            &&& !streams ==> body.get("stream_options"@) is None
        },
{
    broadcast use group_find;

    let view = anthropic::request::ingested_request(request, model);
    lemma_nothing_kept(request, model, provider);
    if translated(request, model, provider) is Ok {
        lemma_body(view, provider);
        if let Some(JsonView::Array(items)) = request.get("stop_sequences"@) {
            if anthropic::translation::texts_only(JsonView::Array(items)) {
                assert(super::wire::all_strings(items));
                assert forall|i: int| 0 <= i < items.len() implies strings(view.params.stop)[i]
                    == items[i] by {
                    assert(items[i] is String);
                }
                assert(strings(view.params.stop) =~= items);
            }
        }
    }
}

/// The choice of tools is carried over, and so is whether several may be called at
/// once.
#[verifier::rlimit(40)]
pub proof fn law_the_choice_of_tools_is_carried_over(
    request: JsonView,
    model: Seq<char>,
    provider: Seq<char>,
    name: Seq<char>,
)
    ensures
        translated(request, model, provider) matches Ok(body) ==> {
            let asked = request.get("tool_choice"@);
            let kind = asked->0.get("type"@);
            let sent = body.get("tool_choice"@);
            &&& asked is None ==> sent is None && body.get("parallel_tool_calls"@) is None
            &&& asked is Some && kind == Some(JsonView::String("auto"@)) ==> sent == Some(
                JsonView::String("auto"@),
            )
            &&& asked is Some && kind == Some(JsonView::String("none"@)) ==> sent == Some(
                JsonView::String("none"@),
            )
            &&& asked is Some && kind == Some(JsonView::String("any"@)) ==> sent == Some(
                JsonView::String("required"@),
            )
            &&& asked is Some && kind == Some(JsonView::String("tool"@)) && asked->0.get("name"@)
                == Some(JsonView::String(name)) ==> {
                &&& sent is Some
                &&& sent->0.get("type"@) == Some(JsonView::String("function"@))
                &&& sent->0.get("function"@) is Some
                &&& sent->0.get("function"@)->0.get("name"@) == Some(JsonView::String(name))
            }
            &&& asked is Some && asked->0.get("disable_parallel_tool_use"@) == Some(
                JsonView::Bool(true),
            ) ==> body.get("parallel_tool_calls"@) == Some(JsonView::Bool(false))
            &&& asked is Some && asked->0.get("disable_parallel_tool_use"@) is None ==> body.get(
                "parallel_tool_calls"@,
            ) is None
        },
{
    lemma_choice_words();
    lemma_named_choice(name);
    lemma_nothing_kept(request, model, provider);
    if translated(request, model, provider) is Ok {
        lemma_body(anthropic::request::ingested_request(request, model), provider);
    }
}

proof fn lemma_named_choice(name: Seq<char>)
    ensures
        ({
            let sent = rendered_tool_choice(ToolChoiceView::Tool { name });
            &&& sent.get("type"@) == Some(JsonView::String("function"@))
            &&& sent.get("function"@) is Some
            &&& sent.get("function"@)->0.get("name"@) == Some(JsonView::String(name))
        }),
{
    broadcast use group_find;

    lemma_choice_keys();
}

/// A rendered choice of tools reads back.
pub proof fn law_a_choice_of_tools_reads_back(choice: ToolChoiceView)
    ensures
        ingested_tool_choice(rendered_tool_choice(choice)) == Some(choice),
{
    broadcast use group_find;

    lemma_choice_words();
    lemma_choice_keys();
}

/// The names within a form of reply differ.
proof fn lemma_format_keys()
    ensures
        "type"@ != "json_schema"@,
        "type"@ != "name"@,
        "type"@ != "schema"@,
        "type"@ != "strict"@,
        "json_schema"@ != "name"@,
        "json_schema"@ != "schema"@,
        "json_schema"@ != "strict"@,
        "name"@ != "schema"@,
        "name"@ != "strict"@,
        "schema"@ != "strict"@,
{
    reveal_strlit("type");
    reveal_strlit("json_schema");
    reveal_strlit("name");
    reveal_strlit("schema");
    reveal_strlit("strict");
    assert("type"@.len() != "json_schema"@.len());
    assert("type"@[0] != "name"@[0]);
    assert("type"@.len() != "schema"@.len());
    assert("type"@.len() != "strict"@.len());
    assert("json_schema"@.len() != "name"@.len());
    assert("json_schema"@.len() != "schema"@.len());
    assert("json_schema"@.len() != "strict"@.len());
    assert("name"@.len() != "schema"@.len());
    assert("name"@.len() != "strict"@.len());
    assert("schema"@[1] != "strict"@[1]);
}

/// The words for forms of reply differ.
proof fn lemma_format_words()
    ensures
        "text"@ != "json_object"@,
        "text"@ != "json_schema"@,
        "json_object"@ != "json_schema"@,
{
    reveal_strlit("text");
    reveal_strlit("json_object");
    reveal_strlit("json_schema");
    assert("text"@.len() != "json_object"@.len());
    assert("text"@.len() != "json_schema"@.len());
    assert("json_object"@[5] != "json_schema"@[5]);
}

/// The names within a tool differ.
proof fn lemma_tool_keys()
    ensures
        "type"@ != "function"@,
        "type"@ != "name"@,
        "type"@ != "description"@,
        "type"@ != "parameters"@,
        "type"@ != "strict"@,
        "function"@ != "name"@,
        "function"@ != "description"@,
        "function"@ != "parameters"@,
        "function"@ != "strict"@,
        "name"@ != "description"@,
        "name"@ != "parameters"@,
        "name"@ != "strict"@,
        "description"@ != "parameters"@,
        "description"@ != "strict"@,
        "parameters"@ != "strict"@,
{
    reveal_strlit("type");
    reveal_strlit("function");
    reveal_strlit("name");
    reveal_strlit("description");
    reveal_strlit("parameters");
    reveal_strlit("strict");
    assert("type"@.len() != "function"@.len());
    assert("type"@[0] != "name"@[0]);
    assert("type"@.len() != "description"@.len());
    assert("type"@.len() != "parameters"@.len());
    assert("type"@.len() != "strict"@.len());
    assert("function"@.len() != "name"@.len());
    assert("function"@.len() != "description"@.len());
    assert("function"@.len() != "parameters"@.len());
    assert("function"@.len() != "strict"@.len());
    assert("name"@.len() != "description"@.len());
    assert("name"@.len() != "parameters"@.len());
    assert("name"@.len() != "strict"@.len());
    assert("description"@.len() != "parameters"@.len());
    assert("description"@.len() != "strict"@.len());
    assert("parameters"@.len() != "strict"@.len());
}

/// A rendered form of reply reads back.
pub proof fn law_a_form_of_reply_reads_back(format: ResponseFormatView)
    ensures
        ingested_response_format(rendered_response_format(format)) == Some(format),
        format matches ResponseFormatView::JsonSchema { name, schema, strict } ==> {
            let sent = rendered_response_format(format);
            &&& sent.get("type"@) == Some(JsonView::String("json_schema"@))
            &&& sent.get("json_schema"@) is Some
            &&& sent.get("json_schema"@)->0.get("name"@) == Some(JsonView::String(name))
            &&& sent.get("json_schema"@)->0.get("schema"@) == Some(schema)
        },
        format is JsonObject ==> rendered_response_format(format).get("type"@) == Some(
            JsonView::String("json_object"@),
        ),
        format is Text ==> rendered_response_format(format).get("type"@) == Some(
            JsonView::String("text"@),
        ),
{
    broadcast use group_find;

    lemma_format_keys();
    lemma_format_words();
}

/// A rendered tool is a function, and reads back: its name, what it does, its schema
/// and whether its arguments are held to it.
pub proof fn law_a_tool_reads_back(tool: ToolDefView)
    ensures
        ({
            let sent = rendered_tool(tool);
            let read = ingested_tool(sent);
            &&& sent.get("type"@) == Some(JsonView::String("function"@))
            &&& sent.get("function"@) is Some
            &&& sent.get("function"@)->0.get("name"@) == Some(JsonView::String(tool.name))
            &&& sent.get("function"@)->0.get("parameters"@) == Some(tool.input_schema)
            &&& read.name == tool.name
            &&& read.description == tool.description
            &&& read.input_schema == tool.input_schema
            &&& read.strict == tool.strict
        }),
{
    broadcast use group_find;

    lemma_tool_keys();
}

/// Every tool that is offered with a schema is offered as a function, in order.
pub proof fn law_tools_are_carried_over(
    request: JsonView,
    model: Seq<char>,
    provider: Seq<char>,
    tools: Seq<JsonView>,
    i: int,
    name: Seq<char>,
)
    requires
        request.get("tools"@) == Some(JsonView::Array(tools)),
        0 <= i < tools.len(),
        tools[i] is Object,
        tools[i].get("name"@) == Some(JsonView::String(name)),
        tools[i].get("input_schema"@) is Some,
        tools[i].get("description"@) is None || (tools[i].get("description"@) matches Some(
            JsonView::String(_),
        )),
        tools[i].get("strict"@) is None,
        tools[i].get("cache_control"@) is None,
    ensures
        translated(request, model, provider) matches Ok(body) ==> {
            let sent = body.get("tools"@);
            let function = sent->0->Array_0[i].get("function"@);
            &&& sent is Some
            &&& sent->0 is Array
            &&& sent->0->Array_0.len() == tools.len()
            &&& sent->0->Array_0[i].get("type"@) == Some(JsonView::String("function"@))
            &&& function is Some
            &&& function->0.get("name"@) == Some(JsonView::String(name))
            &&& function->0.get("description"@) == tools[i].get("description"@)
            &&& function->0.get("parameters"@) == tools[i].get("input_schema"@)
        },
{
    broadcast use group_find;

    lemma_tool_keys();
    lemma_nothing_kept(request, model, provider);
    let view = anthropic::request::ingested_request(request, model);
    if translated(request, model, provider) is Ok {
        lemma_body(view, provider);
        assert(view.tools[i] == anthropic::request::ingested_tool(tools[i]));
        assert(rendered_tools(view.tools)[i] == rendered_tool(view.tools[i]));
    }
}

/// The messages of a rendered request.
pub open spec fn messages_of(body: JsonView) -> Seq<JsonView> {
    match body.get("messages"@) {
        Some(JsonView::Array(messages)) => messages,
        _ => Seq::empty(),
    }
}

/// The names within a message differ.
proof fn lemma_message_keys()
    ensures
        "role"@ != "content"@,
        "role"@ != "tool_calls"@,
        "role"@ != "tool_call_id"@,
        "content"@ != "tool_calls"@,
        "content"@ != "tool_call_id"@,
        "tool_calls"@ != "tool_call_id"@,
{
    reveal_strlit("role");
    reveal_strlit("content");
    reveal_strlit("tool_calls");
    reveal_strlit("tool_call_id");
    assert("role"@.len() != "content"@.len());
    assert("role"@.len() != "tool_calls"@.len());
    assert("role"@.len() != "tool_call_id"@.len());
    assert("content"@.len() != "tool_calls"@.len());
    assert("content"@.len() != "tool_call_id"@.len());
    assert("tool_calls"@.len() != "tool_call_id"@.len());
}

/// The words for roles differ.
proof fn lemma_role_words()
    ensures
        "system"@ != "user"@,
        "system"@ != "assistant"@,
        "system"@ != "tool"@,
        "user"@ != "assistant"@,
        "user"@ != "tool"@,
        "assistant"@ != "tool"@,
{
    reveal_strlit("system");
    reveal_strlit("user");
    reveal_strlit("assistant");
    reveal_strlit("tool");
    assert("system"@.len() != "user"@.len());
    assert("system"@.len() != "assistant"@.len());
    assert("system"@.len() != "tool"@.len());
    assert("user"@.len() != "assistant"@.len());
    assert("user"@[0] != "tool"@[0]);
    assert("assistant"@.len() != "tool"@.len());
}

/// The tags of blocks differ.
proof fn lemma_tags()
    ensures
        "text"@ != "image"@,
        "text"@ != "document"@,
        "text"@ != "tool_use"@,
        "text"@ != "tool_result"@,
        "text"@ != "thinking"@,
        "text"@ != "redacted_thinking"@,
        "image"@ != "document"@,
        "image"@ != "tool_use"@,
        "image"@ != "tool_result"@,
        "image"@ != "thinking"@,
        "image"@ != "redacted_thinking"@,
        "document"@ != "tool_use"@,
        "document"@ != "tool_result"@,
        "document"@ != "thinking"@,
        "document"@ != "redacted_thinking"@,
        "tool_use"@ != "tool_result"@,
        "tool_use"@ != "thinking"@,
        "tool_use"@ != "redacted_thinking"@,
        "tool_result"@ != "thinking"@,
        "tool_result"@ != "redacted_thinking"@,
        "thinking"@ != "redacted_thinking"@,
{
    reveal_strlit("text");
    reveal_strlit("image");
    reveal_strlit("document");
    reveal_strlit("tool_use");
    reveal_strlit("tool_result");
    reveal_strlit("thinking");
    reveal_strlit("redacted_thinking");
    assert("text"@.len() != "image"@.len());
    assert("text"@.len() != "document"@.len());
    assert("text"@.len() != "tool_use"@.len());
    assert("text"@.len() != "tool_result"@.len());
    assert("text"@.len() != "thinking"@.len());
    assert("text"@.len() != "redacted_thinking"@.len());
    assert("image"@.len() != "document"@.len());
    assert("image"@.len() != "tool_use"@.len());
    assert("image"@.len() != "tool_result"@.len());
    assert("image"@.len() != "thinking"@.len());
    assert("image"@.len() != "redacted_thinking"@.len());
    assert("document"@[0] != "tool_use"@[0]);
    assert("document"@.len() != "tool_result"@.len());
    assert("document"@[0] != "thinking"@[0]);
    assert("document"@.len() != "redacted_thinking"@.len());
    assert("tool_use"@.len() != "tool_result"@.len());
    assert("tool_use"@[1] != "thinking"@[1]);
    assert("tool_use"@.len() != "redacted_thinking"@.len());
    assert("tool_result"@.len() != "thinking"@.len());
    assert("tool_result"@.len() != "redacted_thinking"@.len());
    assert("thinking"@.len() != "redacted_thinking"@.len());
}

/// What a message is told as, where nothing was kept for it and it holds no more than
/// one result.
#[verifier::rlimit(40)]
proof fn lemma_told_message(message: MessageView, provider: Seq<char>)
    requires
        merged(Protocol::OpenAiCompat, message.ext, provider) == no_fields(),
    ensures
        ({
            let results = results_of(message.content);
            let told = rendered_message(message, provider);
            let calls = calls_of(message.content);
            &&& results.len() <= 1 ==> {
                &&& told.len() == 1
                &&& told[0].get("role"@) == Some(JsonView::String(super::role_word(message.role)))
                &&& told[0].get("content"@) == rendered_content(message.content, false)
                &&& told[0].get("tool_calls"@) == (if calls.len() == 0 {
                    None
                } else {
                    Some(JsonView::Array(calls))
                })
                &&& told[0].get("tool_call_id"@) == (if results.len() == 0 {
                    None
                } else {
                    Some(JsonView::String(results[0].0))
                })
            }
            &&& results.len() > 1 ==> {
                &&& told.len() == results.len()
                &&& forall|i: int|
                    0 <= i < results.len() ==> {
                        &&& (#[trigger] told[i]).get("role"@) == Some(
                            JsonView::String(super::role_word(message.role)),
                        )
                        &&& told[i].get("content"@) == rendered_content(results[i].1, false)
                        &&& told[i].get("tool_call_id"@) == Some(JsonView::String(results[i].0))
                        &&& told[i].get("tool_calls"@) is None
                    }
            }
        }),
{
    broadcast use group_find;

    lemma_message_keys();
}

/// What a conversation is told as with one message more.
proof fn lemma_added(
    request: JsonView,
    later: JsonView,
    model: Seq<char>,
    provider: Seq<char>,
    messages: Seq<JsonView>,
    message: JsonView,
)
    requires
        request.get("messages"@) == Some(JsonView::Array(messages)),
        later.get("messages"@) == Some(JsonView::Array(messages.push(message))),
        later.get("system"@) == request.get("system"@),
        translated(request, model, provider) is Ok,
        translated(later, model, provider) is Ok,
    ensures
        ({
            let before = messages_of(translated(request, model, provider)->Ok_0);
            let after = messages_of(translated(later, model, provider)->Ok_0);
            let said = anthropic::request::ingested_message(message);
            &&& after == before + rendered_message(said, provider)
            &&& merged(Protocol::OpenAiCompat, said.ext, provider) == no_fields()
        }),
{
    lemma_nothing_kept(request, model, provider);
    lemma_nothing_kept(later, model, provider);
    let first = anthropic::request::ingested_request(request, model);
    let second = anthropic::request::ingested_request(later, model);
    lemma_body(first, provider);
    lemma_body(second, provider);
    let said = anthropic::request::ingested_message(message);
    assert(second.messages =~= first.messages.push(said));
    assert(first.messages.push(said).drop_last() =~= first.messages);
    law_another_protocol_reads_nothing(
        Protocol::OpenAiCompat,
        Protocol::Anthropic,
        anthropic::request::message_residue(message.fields()),
        provider,
    );
}

/// A turn of bare text is a message of that very text, in the role it was said in.
pub proof fn law_a_text_is_told_as_it_is(
    request: JsonView,
    later: JsonView,
    model: Seq<char>,
    provider: Seq<char>,
    messages: Seq<JsonView>,
    message: JsonView,
    role: Seq<char>,
    text: Seq<char>,
)
    requires
        request.get("messages"@) == Some(JsonView::Array(messages)),
        later.get("messages"@) == Some(JsonView::Array(messages.push(message))),
        later.get("system"@) == request.get("system"@),
        translated(request, model, provider) is Ok,
        translated(later, model, provider) is Ok,
        role == "user"@ || role == "assistant"@,
        message.get("role"@) == Some(JsonView::String(role)),
        message.get("content"@) == Some(JsonView::String(text)),
    ensures
        ({
            let before = messages_of(translated(request, model, provider)->Ok_0);
            let after = messages_of(translated(later, model, provider)->Ok_0);
            &&& after.len() == before.len() + 1
            &&& after.drop_last() == before
            &&& after.last().get("role"@) == Some(JsonView::String(role))
            &&& after.last().get("content"@) == Some(JsonView::String(text))
            &&& after.last().get("tool_calls"@) is None
            &&& after.last().get("tool_call_id"@) is None
        }),
{
    lemma_role_words();
    lemma_added(request, later, model, provider, messages, message);
    let said = anthropic::request::ingested_message(message);
    let block = ContentBlockView::Text { text, cache: None };
    assert(said.content =~= seq![block]);
    lemma_told_message(said, provider);
    lemma_bare_text(text);
    let before = messages_of(translated(request, model, provider)->Ok_0);
    let told = rendered_message(said, provider);
    assert((before + told).drop_last() =~= before);
    assert((before + told).last() == told[0]);
}

proof fn lemma_bare_text(text: Seq<char>)
    ensures
        ({
            let blocks = seq![ContentBlockView::Text { text, cache: None }];
            &&& rendered_content(blocks, false) == Some(JsonView::String(text))
            &&& results_of(blocks).len() == 0
            &&& calls_of(blocks).len() == 0
        }),
{
    let block = ContentBlockView::Text { text, cache: None };
    let blocks = seq![block];
    let none = Seq::<ContentBlockView>::empty();
    assert(blocks.drop_last() =~= none);
    assert(blocks.drop_first() =~= none);
    assert(blocks.last() == block);
    assert(blocks[0] == block);
    assert(super::request::result_at(none) == 0);
    assert(super::request::result_at(blocks) == 1);
    assert(super::request::content_of(none, false) =~= none);
    assert(super::request::content_of(blocks, false) =~= blocks);
    assert(results_of(none).len() == 0);
    assert(calls_of(none).len() == 0);
}

/// The system prompt is the first message, and the system's.
pub proof fn law_the_system_prompt_is_carried_over(
    request: JsonView,
    model: Seq<char>,
    provider: Seq<char>,
    text: Seq<char>,
)
    requires
        request.get("system"@) == Some(JsonView::String(text)),
        request.get("messages"@) matches Some(JsonView::Array(_)),
    ensures
        translated(request, model, provider) matches Ok(body) ==> {
            &&& messages_of(body).len() > 0
            &&& messages_of(body)[0].get("role"@) == Some(JsonView::String("system"@))
            &&& messages_of(body)[0].get("content"@) == Some(JsonView::String(text))
        },
{
    lemma_nothing_kept(request, model, provider);
    if translated(request, model, provider) is Ok {
        let view = anthropic::request::ingested_request(request, model);
        lemma_body(view, provider);
        let prompt = anthropic::request::ingested_system(JsonView::String(text));
        assert(view.messages[0] == prompt);
        law_another_protocol_reads_nothing(
            Protocol::OpenAiCompat,
            Protocol::Anthropic,
            no_fields(),
            provider,
        );
        lemma_told_message(prompt, provider);
        assert(prompt.content =~= seq![ContentBlockView::Text { text, cache: None }]);
        lemma_bare_text(text);
        lemma_first_message(view.messages, provider);
    }
}

proof fn lemma_first_message(messages: Seq<MessageView>, provider: Seq<char>)
    requires
        messages.len() > 0,
        rendered_message(messages[0], provider).len() > 0,
    ensures
        rendered_messages(messages, provider).len() > 0,
        rendered_messages(messages, provider)[0] == rendered_message(messages[0], provider)[0],
    decreases messages.len(),
{
    if messages.len() > 1 {
        lemma_first_message(messages.drop_last(), provider);
    } else {
        assert(rendered_messages(messages.drop_last(), provider) =~= Seq::<JsonView>::empty());
    }
}

/// The results of a turn are as many messages of the tool's, in order, each under the
/// id of the call it answers.
#[verifier::rlimit(40)]
pub proof fn law_results_are_told_one_by_one(
    request: JsonView,
    later: JsonView,
    model: Seq<char>,
    provider: Seq<char>,
    messages: Seq<JsonView>,
    message: JsonView,
    blocks: Seq<JsonView>,
    i: int,
    call_id: Seq<char>,
    text: Seq<char>,
)
    requires
        request.get("messages"@) == Some(JsonView::Array(messages)),
        later.get("messages"@) == Some(JsonView::Array(messages.push(message))),
        later.get("system"@) == request.get("system"@),
        translated(request, model, provider) is Ok,
        translated(later, model, provider) is Ok,
        message.get("role"@) == Some(JsonView::String("user"@)),
        message.get("content"@) == Some(JsonView::Array(blocks)),
        forall|k: int|
            0 <= k < blocks.len() ==> (#[trigger] blocks[k]).get("type"@) == Some(
                JsonView::String("tool_result"@),
            ) && blocks[k].get("tool_use_id"@) is Some && blocks[k].get("tool_use_id"@)->0
                is String,
        0 <= i < blocks.len(),
        blocks[i].get("tool_use_id"@) == Some(JsonView::String(call_id)),
        blocks[i].get("content"@) == Some(JsonView::String(text)),
    ensures
        ({
            let before = messages_of(translated(request, model, provider)->Ok_0);
            let after = messages_of(translated(later, model, provider)->Ok_0);
            let told = after[before.len() + i];
            &&& after.len() == before.len() + blocks.len()
            &&& told.get("role"@) == Some(JsonView::String("tool"@))
            &&& told.get("tool_call_id"@) == Some(JsonView::String(call_id))
            &&& told.get("content"@) == Some(JsonView::String(text))
        }),
{
    lemma_role_words();
    lemma_tags();
    lemma_added(request, later, model, provider, messages, message);
    let said = anthropic::request::ingested_message(message);
    let content = anthropic::response::ingested_blocks(blocks);
    assert(said.content == content);
    assert forall|k: int| 0 <= k < content.len() implies (#[trigger] content[k]) is ToolResult by {
        assert(content[k] == anthropic::response::ingested_block(blocks[k]));
        assert(blocks[k].get("tool_use_id"@) is Some);
    }
    lemma_results(content);
    assert(anthropic::request::only_results(content));
    assert(said.role == Role::Tool);
    lemma_told_message(said, provider);
    let results = results_of(content);
    assert(content[i] == anthropic::response::ingested_block(blocks[i]));
    assert(results[i] == (content[i]->call_id, content[i]->ToolResult_content));
    crate::json::lemma_index_of_bounds(blocks[i].fields(), "content"@);
    assert(anthropic::response::ingested_result_content(blocks[i]) =~= seq![
        ContentBlockView::Text { text, cache: None },
    ]);
    lemma_bare_text(text);
    if blocks.len() == 1 {
        lemma_sole_result(content);
    }
}

/// The content of a single result is what the tool answered.
proof fn lemma_sole_result(blocks: Seq<ContentBlockView>)
    requires
        blocks.len() == 1,
        blocks[0] is ToolResult,
    ensures
        rendered_content(blocks, false) == rendered_content(
            blocks[0]->ToolResult_content,
            false,
        ),
{
    assert(super::request::result_at(blocks) == 0);
}

proof fn lemma_results(blocks: Seq<ContentBlockView>)
    requires
        forall|k: int| 0 <= k < blocks.len() ==> (#[trigger] blocks[k]) is ToolResult,
    ensures
        results_of(blocks).len() == blocks.len(),
        forall|k: int|
            0 <= k < blocks.len() ==> #[trigger] results_of(blocks)[k] == (
                blocks[k]->call_id,
                blocks[k]->ToolResult_content,
            ),
    decreases blocks.len(),
{
    if blocks.len() > 0 {
        let rest = blocks.drop_last();
        assert forall|k: int| 0 <= k < rest.len() implies (#[trigger] rest[k]) is ToolResult by {
            assert(rest[k] == blocks[k]);
        }
        lemma_results(rest);
        assert(blocks[blocks.len() - 1] is ToolResult);
        assert forall|k: int| 0 <= k < blocks.len() implies #[trigger] results_of(blocks)[k] == (
            blocks[k]->call_id,
            blocks[k]->ToolResult_content,
        ) by {
            if k < rest.len() {
                assert(results_of(blocks)[k] == results_of(rest)[k]);
                assert(rest[k] == blocks[k]);
            }
        }
    }
}

/// The uses of tools in a turn are calls of functions, in order, each under its id and
/// with its input written out.
pub proof fn law_calls_are_told_in_order(blocks: Seq<JsonView>, block: JsonView)
    requires
        block.get("type"@) == Some(JsonView::String("tool_use"@)),
        block.get("id"@) is Some && block.get("id"@)->0 is String,
        block.get("name"@) is Some && block.get("name"@)->0 is String,
        block.get("input"@) is Some,
    ensures
        ({
            let before = calls_of(anthropic::response::ingested_blocks(blocks));
            let after = calls_of(anthropic::response::ingested_blocks(blocks.push(block)));
            let made = after.last();
            &&& after.len() == before.len() + 1
            &&& after.drop_last() == before
            &&& made.get("id"@) == block.get("id"@)
            &&& made.get("type"@) == Some(JsonView::String("function"@))
            &&& made.get("function"@) is Some
            &&& made.get("function"@)->0.get("name"@) == block.get("name"@)
            &&& made.get("function"@)->0.get("arguments"@) == Some(
                JsonView::String(text_of_json(block.get("input"@)->0)),
            )
        }),
{
    broadcast use group_find;

    lemma_tags();
    lemma_call_keys();
    let before = anthropic::response::ingested_blocks(blocks);
    let after = anthropic::response::ingested_blocks(blocks.push(block));
    assert(after =~= before.push(anthropic::response::ingested_block(block)));
    assert(after.drop_last() =~= before);
    assert(calls_of(after).drop_last() =~= calls_of(before));
}

/// The names within a call differ.
proof fn lemma_call_keys()
    ensures
        "id"@ != "type"@,
        "id"@ != "function"@,
        "id"@ != "arguments"@,
        "id"@ != "name"@,
        "type"@ != "function"@,
        "type"@ != "arguments"@,
        "type"@ != "name"@,
        "function"@ != "arguments"@,
        "function"@ != "name"@,
        "arguments"@ != "name"@,
{
    reveal_strlit("id");
    reveal_strlit("type");
    reveal_strlit("function");
    reveal_strlit("arguments");
    reveal_strlit("name");
    assert("id"@.len() != "type"@.len());
    assert("id"@.len() != "function"@.len());
    assert("id"@.len() != "arguments"@.len());
    assert("id"@.len() != "name"@.len());
    assert("type"@.len() != "function"@.len());
    assert("type"@.len() != "arguments"@.len());
    assert("type"@[0] != "name"@[0]);
    assert("function"@.len() != "arguments"@.len());
    assert("function"@.len() != "name"@.len());
    assert("arguments"@.len() != "name"@.len());
}

/// Hints to cache, results of calls that failed, and a budget for reasoning have no form
/// in chat completions. They are refused, wherever they stand, never dropped.
pub proof fn law_what_has_no_form_is_refused(
    request: JsonView,
    model: Seq<char>,
    provider: Seq<char>,
    messages: Seq<JsonView>,
    m: int,
    blocks: Seq<JsonView>,
    i: int,
)
    requires
        request.get("messages"@) == Some(JsonView::Array(messages)),
        0 <= m < messages.len(),
        messages[m].get("content"@) == Some(JsonView::Array(blocks)),
        0 <= i < blocks.len(),
        ({
            let block = blocks[i];
            let thinking = request.get("thinking"@);
            ||| block.get("type"@) == Some(JsonView::String("text"@)) && (block.get("text"@) matches Some(
                JsonView::String(_),
            )) && (block.get("cache_control"@) matches Some(JsonView::Object(_)))
            ||| block.get("type"@) == Some(JsonView::String("tool_result"@)) && (block.get(
                "tool_use_id"@,
            ) matches Some(JsonView::String(_))) && block.get("is_error"@) == Some(
                JsonView::Bool(true),
            )
            ||| thinking is Some && thinking->0.get("type"@) == Some(JsonView::String("enabled"@))
                && (thinking->0.get("budget_tokens"@) matches Some(
                JsonView::Number(NumberView::Unsigned(n)),
            ) && n <= u32::MAX)
        }),
    ensures
        translated(request, model, provider) matches Err(ErrorView::NotImplemented(_)),
{
    lemma_tags();
    let view = anthropic::request::ingested_request(request, model);
    let all = messages.map_values(
        |message: JsonView| anthropic::request::ingested_message(message),
    );
    let start = view.messages.len() - all.len();
    let said = anthropic::request::ingested_message(messages[m]);
    assert(view.messages[start + m] == all[m]);
    assert(said.content[i] == anthropic::response::ingested_block(blocks[i]));
    if blocks[i].get("type"@) == Some(JsonView::String("text"@)) && (blocks[i].get(
        "cache_control"@,
    ) matches Some(JsonView::Object(_))) && (blocks[i].get("text"@) matches Some(
        JsonView::String(_),
    )) {
        assert(super::request::cache_hinted(said.content[i]));
        assert(super::request::any_cache_hinted(view.messages[start + m].content));
    }
    if blocks[i].get("type"@) == Some(JsonView::String("tool_result"@)) && blocks[i].get(
        "is_error"@,
    ) == Some(JsonView::Bool(true)) && (blocks[i].get("tool_use_id"@) matches Some(
        JsonView::String(_),
    )) {
        assert(super::request::failed_result(said.content[i]));
        assert(super::request::any_failed_result(view.messages[start + m].content));
    }
}

/// An image of Anthropic's is a part of an image: by its URL where it is linked, by a
/// data URL with its type and its bytes where they are at hand.
pub proof fn law_an_image_is_told_as_a_part(
    block: JsonView,
    url: Seq<char>,
    media_type: Seq<char>,
    data: Seq<char>,
)
    requires
        block.get("type"@) == Some(JsonView::String("image"@)),
        block.get("source"@) is Some,
    ensures
        ({
            let source = block.get("source"@)->0;
            let part = super::request::rendered_part(anthropic::response::ingested_block(block));
            let image = part->0.get("image_url"@);
            let linked = source.get("type"@) == Some(JsonView::String("url"@)) && source.get("url"@)
                == Some(JsonView::String(url));
            let held = source.get("type"@) == Some(JsonView::String("base64"@)) && source.get(
                "media_type"@,
            ) == Some(JsonView::String(media_type)) && source.get("data"@) == Some(
                JsonView::String(data),
            );
            &&& linked || held ==> part is Some && part->0.get("type"@) == Some(
                JsonView::String("image_url"@),
            ) && image is Some
            &&& linked ==> image->0.get("url"@) == Some(JsonView::String(url))
            &&& held ==> image->0.get("url"@) == Some(
                JsonView::String("data:"@ + media_type + ";base64,"@ + data),
            )
        }),
{
    broadcast use group_find;

    lemma_tags();
    lemma_image_keys();
}

/// The names and words within an image differ.
proof fn lemma_image_keys()
    ensures
        "type"@ != "image_url"@,
        "url"@ != "detail"@,
        "url"@ != "base64"@,
{
    reveal_strlit("type");
    reveal_strlit("image_url");
    reveal_strlit("url");
    reveal_strlit("detail");
    reveal_strlit("base64");
    assert("type"@.len() != "image_url"@.len());
    assert("url"@.len() != "detail"@.len());
    assert("url"@.len() != "base64"@.len());
}

/// Why a reply ended is read from the protocol's own words, on a whole reply and on a
/// chunk alike; a word that it does not have means something else, and is kept.
pub proof fn law_why_a_reply_ended_is_read(choice: JsonView, word: Seq<char>)
    requires
        choice.get("finish_reason"@) == Some(JsonView::String(word)),
    ensures
        ({
            let whole = super::response::ingested_choice(choice);
            let piece = super::stream::ingested_stream_choice(choice);
            let reason = whole.finish_reason;
            &&& whole.finish_reason_raw == word
            &&& piece.finish_reason_raw == Some(word)
            &&& piece.finish_reason == Some(reason)
            &&& word == "stop"@ ==> reason == FinishReason::Stop
            &&& word == "length"@ ==> reason == FinishReason::Length
            &&& word == "tool_calls"@ ==> reason == FinishReason::ToolCalls
            &&& word == "content_filter"@ ==> reason == FinishReason::ContentFilter
        }),
{
    lemma_end_words();
}

/// The words for why a reply ends differ.
proof fn lemma_end_words()
    ensures
        "stop"@ != "length"@,
        "stop"@ != "tool_calls"@,
        "stop"@ != "content_filter"@,
        "length"@ != "tool_calls"@,
        "length"@ != "content_filter"@,
        "tool_calls"@ != "content_filter"@,
{
    reveal_strlit("stop");
    reveal_strlit("length");
    reveal_strlit("tool_calls");
    reveal_strlit("content_filter");
    assert("stop"@.len() != "length"@.len());
    assert("stop"@.len() != "tool_calls"@.len());
    assert("stop"@.len() != "content_filter"@.len());
    assert("length"@.len() != "tool_calls"@.len());
    assert("length"@.len() != "content_filter"@.len());
    assert("tool_calls"@.len() != "content_filter"@.len());
}

/// A reply is read as what it shows of its reasoning, then what it says, then the calls
/// it makes, each as it came.
pub proof fn law_what_a_reply_says_is_read(
    message: JsonView,
    thought: Seq<char>,
    text: Seq<char>,
    calls: Seq<JsonView>,
    i: int,
)
    requires
        message.get("reasoning_content"@) == Some(JsonView::String(thought)),
        thought.len() > 0,
        message.get("content"@) == Some(JsonView::String(text)),
        message.get("tool_calls"@) == Some(JsonView::Array(calls)),
        0 <= i < calls.len(),
        super::response::plain_call(calls[i]),
    ensures
        ({
            let blocks = super::response::ingested_reply_message(message).content;
            let call = calls[i];
            &&& blocks.len() == calls.len() + 2
            &&& blocks[0] == (ContentBlockView::Reasoning {
                detail: ReasoningDetailView::Text { text: thought, signature: None },
                provenance: Some("openai_compat"@),
                id: None,
            })
            &&& blocks[1] == (ContentBlockView::Text { text, cache: None })
            &&& blocks[i + 2] matches ContentBlockView::ToolCall { id, name, arguments }
                && call.get("id"@) == Some(JsonView::String(id)) && call.get("function"@)->0.get(
                "name"@,
            ) == Some(JsonView::String(name)) && call.get("function"@)->0.get("arguments"@) == Some(
                JsonView::String(arguments),
            )
        }),
{
    let made = calls.map_values(
        |call: JsonView| super::response::ingested_reply_call(call),
    );
    let blocks = super::response::reply_blocks(message);
    assert(blocks[i + 2] == made[i]);
}

/// A chunk is read as the reasoning it shows, then the text it adds, each as it came.
pub proof fn law_what_a_chunk_adds_is_read(delta: JsonView, thought: Seq<char>, text: Seq<char>)
    requires
        delta.get("reasoning_content"@) == Some(JsonView::String(thought)),
        delta.get("content"@) == Some(JsonView::String(text)),
        delta.get("tool_calls"@) is None,
    ensures
        super::stream::ingested_delta(delta).content == seq![
            ContentDeltaView::Reasoning { text: thought, provenance: Some("openai_compat"@) },
            ContentDeltaView::Text { text },
        ],
{
    assert(super::stream::ingested_delta(delta).content =~= seq![
        ContentDeltaView::Reasoning { text: thought, provenance: Some("openai_compat"@) },
        ContentDeltaView::Text { text },
    ]);
}

/// Token counts are read each from its own field.
pub proof fn law_token_counts_are_read(
    usage: JsonView,
    prompt: u32,
    completion: u32,
    total: u32,
    thought: u64,
)
    requires
        usage.get("prompt_tokens"@) == Some(
            JsonView::Number(NumberView::Unsigned(prompt as u64)),
        ),
        usage.get("completion_tokens"@) == Some(
            JsonView::Number(NumberView::Unsigned(completion as u64)),
        ),
        usage.get("total_tokens"@) == Some(JsonView::Number(NumberView::Unsigned(total as u64))),
        usage.get("completion_tokens_details"@) matches Some(JsonView::Object(_)),
        usage.get("completion_tokens_details"@)->0.get("reasoning_tokens"@) == Some(
            JsonView::Number(NumberView::Unsigned(thought)),
        ),
    ensures
        ({
            let read = super::response::ingested_usage(usage);
            &&& read.input_tokens == Some(prompt as u64)
            &&& read.output_tokens == Some(completion as u64)
            &&& read.total_tokens == Some(total as u64)
            &&& read.reasoning_tokens == Some(thought)
        }),
{
}

/// A block of plain text.
pub open spec fn plain_text(block: JsonView) -> bool {
    &&& block.get("type"@) == Some(JsonView::String("text"@))
    &&& block.get("text"@) matches Some(JsonView::String(_))
    &&& block.get("cache_control"@) is None
}

/// What a turn or a prompt says: a text, or blocks of plain text.
pub open spec fn plain_content(content: JsonView) -> bool {
    content is String || (content matches JsonView::Array(blocks) && forall|i: int|
        0 <= i < blocks.len() ==> plain_text(#[trigger] blocks[i]))
}

proof fn lemma_plain_content(content: JsonView)
    requires
        plain_content(content),
    ensures
        !super::request::any_cache_hinted(anthropic::request::content_blocks(content)),
        !super::request::any_failed_result(anthropic::request::content_blocks(content)),
{
    let blocks = anthropic::request::content_blocks(content);
    assert forall|i: int| 0 <= i < blocks.len() implies !super::request::cache_hinted(
        #[trigger] blocks[i],
    ) && !super::request::failed_result(blocks[i]) by {
        if let JsonView::Array(items) = content {
            assert(plain_text(items[i]));
            assert(blocks[i] == anthropic::response::ingested_block(items[i]));
        }
    }
}

/// An ordinary request of Anthropic's is never refused: turns and a prompt of plain text,
/// tools that have a schema and no hint, and no word on thinking.
#[verifier::rlimit(40)]
pub proof fn law_an_ordinary_request_is_rendered(
    request: JsonView,
    model: Seq<char>,
    provider: Seq<char>,
    messages: Seq<JsonView>,
)
    requires
        request.get("messages"@) == Some(JsonView::Array(messages)),
        forall|i: int|
            0 <= i < messages.len() ==> (#[trigger] messages[i]).get("content"@) is Some
                && plain_content(messages[i].get("content"@)->0),
        request.get("system"@) is None || plain_content(request.get("system"@)->0),
        request.get("tools"@) matches Some(JsonView::Array(tools)) ==> forall|i: int|
            0 <= i < tools.len() ==> (#[trigger] tools[i]) is Object && (tools[i].get(
                "name"@,
            ) matches Some(JsonView::String(_))) && tools[i].get("input_schema"@) is Some && !(
            tools[i].get("input_schema"@)->0 is Null) && tools[i].get("description"@) is None
                && tools[i].get("strict"@) is None && tools[i].get("cache_control"@) is None,
        request.get("thinking"@) is None,
    ensures
        translated(request, model, provider) is Ok,
{
    lemma_nothing_kept(request, model, provider);
    let view = anthropic::request::ingested_request(request, model);
    let all = messages.map_values(
        |message: JsonView| anthropic::request::ingested_message(message),
    );
    let start = view.messages.len() - all.len();
    assert forall|i: int| 0 <= i < view.messages.len() implies !super::request::any_cache_hinted(
        (#[trigger] view.messages[i]).content,
    ) && !super::request::any_failed_result(view.messages[i].content) by {
        if i >= start {
            assert(view.messages[i] == all[i - start]);
            assert(messages[i - start].get("content"@) is Some);
            lemma_plain_content(messages[i - start].get("content"@)->0);
        } else {
            lemma_plain_content(request.get("system"@)->0);
        }
    }
    assert forall|i: int| 0 <= i < view.tools.len() implies (#[trigger] view.tools[i]).cache is None
        && !(view.tools[i].input_schema is Null) by {
        let tool = request.items_at("tools"@)[i];
        assert(view.tools[i] == anthropic::request::ingested_tool(tool));
        assert(tool is Object);
    }
    assert(refusal(view) is None);
}

} // verus!
