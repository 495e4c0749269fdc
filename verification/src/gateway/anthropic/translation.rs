//! What a chat-completions request is to Anthropic: laws from the one wire to the
//! other.
use vstd::prelude::*;

use crate::error::ErrorView;
use crate::gateway::ext::{kept_under, law_another_protocol_reads_nothing, merged};
use crate::gateway::openai_compat;
use crate::gateway::openai_compat::request::lacks_a_schema;
use crate::gateway::types::request::{ChatRequestView, ToolChoiceView};
use crate::json::{
    group_find, no_fields, opt_number, opt_u32, strings, FieldsView, JsonView, NumberView,
};
use crate::types::Protocol;

use super::request::{
    ingested_parallel, ingested_tool_choice, refusal, rendered_conversation, rendered_output_config,
    rendered_request, rendered_thinking, rendered_tool_choice, rendered_tools, resolved_limit,
};

verus! {

/// A chat-completions request, rendered for Anthropic.
pub open spec fn translated(
    request: JsonView,
    model: Seq<char>,
    provider: Seq<char>,
    ceiling: Option<u32>,
) -> Result<JsonView, ErrorView> {
    rendered_request(openai_compat::request::ingested_request(request, model), provider, ceiling)
}

/// The names within a rendered request differ.
proof fn lemma_body_keys()
    ensures
        "model"@ != "max_tokens"@,
        "model"@ != "messages"@,
        "model"@ != "stream"@,
        "model"@ != "tools"@,
        "model"@ != "system"@,
        "model"@ != "temperature"@,
        "model"@ != "top_p"@,
        "model"@ != "top_k"@,
        "model"@ != "stop_sequences"@,
        "model"@ != "tool_choice"@,
        "model"@ != "thinking"@,
        "model"@ != "output_config"@,
        "max_tokens"@ != "messages"@,
        "max_tokens"@ != "stream"@,
        "max_tokens"@ != "tools"@,
        "max_tokens"@ != "system"@,
        "max_tokens"@ != "temperature"@,
        "max_tokens"@ != "top_p"@,
        "max_tokens"@ != "top_k"@,
        "max_tokens"@ != "stop_sequences"@,
        "max_tokens"@ != "tool_choice"@,
        "max_tokens"@ != "thinking"@,
        "max_tokens"@ != "output_config"@,
        "messages"@ != "stream"@,
        "messages"@ != "tools"@,
        "messages"@ != "system"@,
        "messages"@ != "temperature"@,
        "messages"@ != "top_p"@,
        "messages"@ != "top_k"@,
        "messages"@ != "stop_sequences"@,
        "messages"@ != "tool_choice"@,
        "messages"@ != "thinking"@,
        "messages"@ != "output_config"@,
        "stream"@ != "tools"@,
        "stream"@ != "system"@,
        "stream"@ != "temperature"@,
        "stream"@ != "top_p"@,
        "stream"@ != "top_k"@,
        "stream"@ != "stop_sequences"@,
        "stream"@ != "tool_choice"@,
        "stream"@ != "thinking"@,
        "stream"@ != "output_config"@,
        "tools"@ != "system"@,
        "tools"@ != "temperature"@,
        "tools"@ != "top_p"@,
        "tools"@ != "top_k"@,
        "tools"@ != "stop_sequences"@,
        "tools"@ != "tool_choice"@,
        "tools"@ != "thinking"@,
        "tools"@ != "output_config"@,
        "system"@ != "temperature"@,
        "system"@ != "top_p"@,
        "system"@ != "top_k"@,
        "system"@ != "stop_sequences"@,
        "system"@ != "tool_choice"@,
        "system"@ != "thinking"@,
        "system"@ != "output_config"@,
        "temperature"@ != "top_p"@,
        "temperature"@ != "top_k"@,
        "temperature"@ != "stop_sequences"@,
        "temperature"@ != "tool_choice"@,
        "temperature"@ != "thinking"@,
        "temperature"@ != "output_config"@,
        "top_p"@ != "top_k"@,
        "top_p"@ != "stop_sequences"@,
        "top_p"@ != "tool_choice"@,
        "top_p"@ != "thinking"@,
        "top_p"@ != "output_config"@,
        "top_k"@ != "stop_sequences"@,
        "top_k"@ != "tool_choice"@,
        "top_k"@ != "thinking"@,
        "top_k"@ != "output_config"@,
        "stop_sequences"@ != "tool_choice"@,
        "stop_sequences"@ != "thinking"@,
        "stop_sequences"@ != "output_config"@,
        "tool_choice"@ != "thinking"@,
        "tool_choice"@ != "output_config"@,
        "thinking"@ != "output_config"@,
{
    reveal_strlit("model");
    reveal_strlit("max_tokens");
    reveal_strlit("messages");
    reveal_strlit("stream");
    reveal_strlit("tools");
    reveal_strlit("system");
    reveal_strlit("temperature");
    reveal_strlit("top_p");
    reveal_strlit("top_k");
    reveal_strlit("stop_sequences");
    reveal_strlit("tool_choice");
    reveal_strlit("thinking");
    reveal_strlit("output_config");
    assert("model"@.len() != "max_tokens"@.len());
    assert("model"@.len() != "messages"@.len());
    assert("model"@.len() != "stream"@.len());
    assert("model"@[0] != "tools"@[0]);
    assert("model"@.len() != "system"@.len());
    assert("model"@.len() != "temperature"@.len());
    assert("model"@[0] != "top_p"@[0]);
    assert("model"@[0] != "top_k"@[0]);
    assert("model"@.len() != "stop_sequences"@.len());
    assert("model"@.len() != "tool_choice"@.len());
    assert("model"@.len() != "thinking"@.len());
    assert("model"@.len() != "output_config"@.len());
    assert("max_tokens"@.len() != "messages"@.len());
    assert("max_tokens"@.len() != "stream"@.len());
    assert("max_tokens"@.len() != "tools"@.len());
    assert("max_tokens"@.len() != "system"@.len());
    assert("max_tokens"@.len() != "temperature"@.len());
    assert("max_tokens"@.len() != "top_p"@.len());
    assert("max_tokens"@.len() != "top_k"@.len());
    assert("max_tokens"@.len() != "stop_sequences"@.len());
    assert("max_tokens"@.len() != "tool_choice"@.len());
    assert("max_tokens"@.len() != "thinking"@.len());
    assert("max_tokens"@.len() != "output_config"@.len());
    assert("messages"@.len() != "stream"@.len());
    assert("messages"@.len() != "tools"@.len());
    assert("messages"@.len() != "system"@.len());
    assert("messages"@.len() != "temperature"@.len());
    assert("messages"@.len() != "top_p"@.len());
    assert("messages"@.len() != "top_k"@.len());
    assert("messages"@.len() != "stop_sequences"@.len());
    assert("messages"@.len() != "tool_choice"@.len());
    assert("messages"@[0] != "thinking"@[0]);
    assert("messages"@.len() != "output_config"@.len());
    assert("stream"@.len() != "tools"@.len());
    assert("stream"@[1] != "system"@[1]);
    assert("stream"@.len() != "temperature"@.len());
    assert("stream"@.len() != "top_p"@.len());
    assert("stream"@.len() != "top_k"@.len());
    assert("stream"@.len() != "stop_sequences"@.len());
    assert("stream"@.len() != "tool_choice"@.len());
    assert("stream"@.len() != "thinking"@.len());
    assert("stream"@.len() != "output_config"@.len());
    assert("tools"@.len() != "system"@.len());
    assert("tools"@.len() != "temperature"@.len());
    assert("tools"@[2] != "top_p"@[2]);
    assert("tools"@[2] != "top_k"@[2]);
    assert("tools"@.len() != "stop_sequences"@.len());
    assert("tools"@.len() != "tool_choice"@.len());
    assert("tools"@.len() != "thinking"@.len());
    assert("tools"@.len() != "output_config"@.len());
    assert("system"@.len() != "temperature"@.len());
    assert("system"@.len() != "top_p"@.len());
    assert("system"@.len() != "top_k"@.len());
    assert("system"@.len() != "stop_sequences"@.len());
    assert("system"@.len() != "tool_choice"@.len());
    assert("system"@.len() != "thinking"@.len());
    assert("system"@.len() != "output_config"@.len());
    assert("temperature"@.len() != "top_p"@.len());
    assert("temperature"@.len() != "top_k"@.len());
    assert("temperature"@.len() != "stop_sequences"@.len());
    assert("temperature"@[1] != "tool_choice"@[1]);
    assert("temperature"@.len() != "thinking"@.len());
    assert("temperature"@.len() != "output_config"@.len());
    assert("top_p"@[4] != "top_k"@[4]);
    assert("top_p"@.len() != "stop_sequences"@.len());
    assert("top_p"@.len() != "tool_choice"@.len());
    assert("top_p"@.len() != "thinking"@.len());
    assert("top_p"@.len() != "output_config"@.len());
    assert("top_k"@.len() != "stop_sequences"@.len());
    assert("top_k"@.len() != "tool_choice"@.len());
    assert("top_k"@.len() != "thinking"@.len());
    assert("top_k"@.len() != "output_config"@.len());
    assert("stop_sequences"@.len() != "tool_choice"@.len());
    assert("stop_sequences"@.len() != "thinking"@.len());
    assert("stop_sequences"@.len() != "output_config"@.len());
    assert("tool_choice"@.len() != "thinking"@.len());
    assert("tool_choice"@.len() != "output_config"@.len());
    assert("thinking"@.len() != "output_config"@.len());
}

/// What one protocol kept is nothing to the other, whatever the provider.
pub proof fn lemma_nothing_kept(fields: FieldsView, provider: Seq<char>)
    ensures
        merged(Protocol::Anthropic, kept_under(Protocol::OpenAiCompat, fields), provider)
            == no_fields(),
{
    law_another_protocol_reads_nothing(
        Protocol::Anthropic,
        Protocol::OpenAiCompat,
        fields,
        provider,
    );
}

/// What the fields of a rendered request are, where nothing was kept for them.
#[verifier::rlimit(40)]
pub proof fn lemma_body(request: ChatRequestView, provider: Seq<char>, ceiling: Option<u32>)
    requires
        merged(Protocol::Anthropic, request.ext, provider) == no_fields(),
        rendered_request(request, provider, ceiling) is Ok,
    ensures
        ({
            let body = rendered_request(request, provider, ceiling)->Ok_0;
            let said = rendered_conversation(request.messages, provider, false);
            &&& body is Object
            &&& refusal(request) is None
            &&& said is Ok
            &&& !lacks_a_schema(request.tools)
            &&& resolved_limit(request, ceiling) is Some
            &&& rendered_output_config(request, no_fields()) is Ok
            &&& body.get("model"@) == Some(JsonView::String(request.model))
            &&& body.get("max_tokens"@) == opt_u32(resolved_limit(request, ceiling))
            &&& body.get("messages"@) == Some(JsonView::Array(said->Ok_0.1))
            &&& body.get("stream"@) == (if request.stream {
                Some(JsonView::Bool(true))
            } else {
                None
            })
            &&& body.get("tools"@) == (if request.tools.len() == 0 {
                None
            } else {
                Some(JsonView::Array(rendered_tools(request.tools)))
            })
            &&& body.get("system"@) == said->Ok_0.0
            &&& body.get("temperature"@) == opt_number(request.params.temperature)
            &&& body.get("top_p"@) == opt_number(request.params.top_p)
            &&& body.get("top_k"@) == opt_u32(request.params.top_k)
            &&& body.get("stop_sequences"@) == (if request.params.stop.len() == 0 {
                None
            } else {
                Some(JsonView::Array(strings(request.params.stop)))
            })
            &&& body.get("tool_choice"@) == rendered_tool_choice(
                request.tool_choice,
                request.parallel_tool_calls,
            )
            &&& body.get("thinking"@) == (match request.reasoning {
                Some(reasoning) => rendered_thinking(reasoning),
                None => None,
            })
            &&& body.get("output_config"@) == rendered_output_config(request, no_fields())->Ok_0
        }),
{
    broadcast use group_find;

    lemma_body_keys();
}

/// A request holds what Anthropic documents and nothing else.
proof fn lemma_body_others(
    request: ChatRequestView,
    provider: Seq<char>,
    ceiling: Option<u32>,
    key: Seq<char>,
)
    requires
        merged(Protocol::Anthropic, request.ext, provider) == no_fields(),
        rendered_request(request, provider, ceiling) is Ok,
        rendered_request(request, provider, ceiling)->Ok_0.get(key) is Some,
    ensures
        key == "model"@
            || key == "max_tokens"@
            || key == "messages"@
            || key == "stream"@
            || key == "tools"@
            || key == "system"@
            || key == "temperature"@
            || key == "top_p"@
            || key == "top_k"@
            || key == "stop_sequences"@
            || key == "tool_choice"@
            || key == "thinking"@
            || key == "output_config"@,
{
    broadcast use group_find;

}

/// Whether a value is a list of texts.
pub open spec fn texts_only(value: JsonView) -> bool {
    value matches JsonView::Array(items) && items.len() > 0 && forall|i: int|
        0 <= i < items.len() ==> #[trigger] items[i] is String
}

/// How to sample is carried over as it was said: each number as it stands, the
/// sequences to stop at as a list, and whether to stream. The model is the one
/// the request was routed to. Nothing that only chat completions knows goes with
/// them.
#[verifier::rlimit(40)]
pub proof fn law_how_to_sample_is_carried_over(
    request: JsonView,
    model: Seq<char>,
    provider: Seq<char>,
    ceiling: Option<u32>,
)
    ensures
        translated(request, model, provider, ceiling) matches Ok(body) ==> {
            &&& body.get("model"@) == Some(JsonView::String(model))
            &&& body.get("temperature"@) == (match request.get("temperature"@) {
                Some(JsonView::Number(n)) => Some(JsonView::Number(n)),
                _ => None,
            })
            &&& body.get("top_p"@) == (match request.get("top_p"@) {
                Some(JsonView::Number(n)) => Some(JsonView::Number(n)),
                _ => None,
            })
            &&& body.get("top_k"@) == (match request.get("top_k"@) {
                Some(JsonView::Number(NumberView::Unsigned(n))) => if n <= u32::MAX {
                    Some(JsonView::Number(NumberView::Unsigned(n)))
                } else {
                    None
                },
                _ => None,
            })
            &&& body.get("stream"@) == (if request.get("stream"@) == Some(JsonView::Bool(true)) {
                Some(JsonView::Bool(true))
            } else {
                None
            })
            &&& request.get("stop"@) is None ==> body.get("stop_sequences"@) is None
            &&& request.get("stop"@) matches Some(JsonView::String(text)) ==> body.get(
                "stop_sequences"@,
            ) == Some(JsonView::Array(seq![JsonView::String(text)]))
            &&& request.get("stop"@) is Some && texts_only(request.get("stop"@)->0) ==> body.get(
                "stop_sequences"@,
            ) == request.get("stop"@)
        },
{
    let view = openai_compat::request::ingested_request(request, model);
    lemma_nothing_kept(openai_compat::request::request_residue(request.fields()), provider);
    if translated(request, model, provider, ceiling) is Ok {
        lemma_body(view, provider, ceiling);
        match request.get("stop"@) {
            Some(JsonView::String(text)) => {
                assert(strings(seq![text]) =~= seq![JsonView::String(text)]);
            },
            Some(JsonView::Array(items)) => {
                if texts_only(JsonView::Array(items)) {
                    assert(openai_compat::wire::all_strings(items));
                    assert forall|i: int| 0 <= i < items.len() implies strings(
                        view.params.stop,
                    )[i] == items[i] by {
                        assert(items[i] is String);
                    }
                    assert(strings(view.params.stop) =~= items);
                }
            },
            _ => {},
        }
    }
}

/// A request rendered for Anthropic holds no field but those that Anthropic
/// documents, whatever the caller sent.
pub proof fn law_nothing_foreign_is_sent(
    request: JsonView,
    model: Seq<char>,
    provider: Seq<char>,
    ceiling: Option<u32>,
    key: Seq<char>,
)
    requires
        translated(request, model, provider, ceiling) matches Ok(body) && body.get(key) is Some,
    ensures
        key == "model"@
            || key == "max_tokens"@
            || key == "messages"@
            || key == "stream"@
            || key == "tools"@
            || key == "system"@
            || key == "temperature"@
            || key == "top_p"@
            || key == "top_k"@
            || key == "stop_sequences"@
            || key == "tool_choice"@
            || key == "output_config"@,
{
    lemma_nothing_kept(openai_compat::request::request_residue(request.fields()), provider);
    let view = openai_compat::request::ingested_request(request, model);
    lemma_body(view, provider, ceiling);
    lemma_body_others(view, provider, ceiling, key);
}

/// The limit on the reply is the caller's, by the older name or else by the newer
/// one; where the caller gives none it is the roster's; where that gives none
/// either, nothing is sent and the caller is told so.
pub proof fn law_the_limit_is_carried_over(
    request: JsonView,
    model: Seq<char>,
    provider: Seq<char>,
    ceiling: Option<u32>,
    n: u32,
)
    ensures
        translated(request, model, provider, ceiling) matches Ok(body) ==> {
            let limit = Some(JsonView::Number(NumberView::Unsigned(n as u64)));
            &&& request.get("max_tokens"@) == limit ==> body.get("max_tokens"@) == limit
            &&& request.get("max_tokens"@) is None && request.get("max_completion_tokens"@)
                == limit ==> body.get("max_tokens"@) == limit
            &&& request.get("max_tokens"@) is None && request.get("max_completion_tokens"@) is None
                && ceiling == Some(n) ==> body.get("max_tokens"@) == limit
        },
        request.get("max_tokens"@) is None && request.get("max_completion_tokens"@) is None && (
        translated(request, model, provider, ceiling) is Ok) ==> translated(
            request,
            model,
            provider,
            None,
        ) == Err::<JsonView, ErrorView>(
            ErrorView::InvalidInput(
                "'"@ + model
                    + "' needs a max_tokens: Anthropic requires one and the roster documents no output ceiling for this model"@,
            ),
        ),
{
    lemma_nothing_kept(openai_compat::request::request_residue(request.fields()), provider);
    let view = openai_compat::request::ingested_request(request, model);
    if translated(request, model, provider, ceiling) is Ok {
        lemma_body(view, provider, ceiling);
    }
}

/// The names within a tool differ.
proof fn lemma_tool_keys()
    ensures
        "name"@ != "description"@,
        "name"@ != "input_schema"@,
        "name"@ != "strict"@,
        "name"@ != "cache_control"@,
        "name"@ != "type"@,
        "name"@ != "function"@,
        "name"@ != "parameters"@,
        "description"@ != "input_schema"@,
        "description"@ != "strict"@,
        "description"@ != "cache_control"@,
        "description"@ != "type"@,
        "description"@ != "function"@,
        "description"@ != "parameters"@,
        "input_schema"@ != "strict"@,
        "input_schema"@ != "cache_control"@,
        "input_schema"@ != "type"@,
        "input_schema"@ != "function"@,
        "input_schema"@ != "parameters"@,
        "strict"@ != "cache_control"@,
        "strict"@ != "type"@,
        "strict"@ != "function"@,
        "strict"@ != "parameters"@,
        "cache_control"@ != "type"@,
        "cache_control"@ != "function"@,
        "cache_control"@ != "parameters"@,
        "type"@ != "function"@,
        "type"@ != "parameters"@,
        "function"@ != "parameters"@,
{
    reveal_strlit("name");
    reveal_strlit("description");
    reveal_strlit("input_schema");
    reveal_strlit("strict");
    reveal_strlit("cache_control");
    reveal_strlit("type");
    reveal_strlit("function");
    reveal_strlit("parameters");
    assert("name"@.len() != "description"@.len());
    assert("name"@.len() != "input_schema"@.len());
    assert("name"@.len() != "strict"@.len());
    assert("name"@.len() != "cache_control"@.len());
    assert("name"@[0] != "type"@[0]);
    assert("name"@.len() != "function"@.len());
    assert("name"@.len() != "parameters"@.len());
    assert("description"@.len() != "input_schema"@.len());
    assert("description"@.len() != "strict"@.len());
    assert("description"@.len() != "cache_control"@.len());
    assert("description"@.len() != "type"@.len());
    assert("description"@.len() != "function"@.len());
    assert("description"@.len() != "parameters"@.len());
    assert("input_schema"@.len() != "strict"@.len());
    assert("input_schema"@.len() != "cache_control"@.len());
    assert("input_schema"@.len() != "type"@.len());
    assert("input_schema"@.len() != "function"@.len());
    assert("input_schema"@.len() != "parameters"@.len());
    assert("strict"@.len() != "cache_control"@.len());
    assert("strict"@.len() != "type"@.len());
    assert("strict"@.len() != "function"@.len());
    assert("strict"@.len() != "parameters"@.len());
    assert("cache_control"@.len() != "type"@.len());
    assert("cache_control"@.len() != "function"@.len());
    assert("cache_control"@.len() != "parameters"@.len());
    assert("type"@.len() != "function"@.len());
    assert("type"@.len() != "parameters"@.len());
    assert("function"@.len() != "parameters"@.len());
}

/// Every function the caller offers is offered, in order: its name, what it does,
/// the schema of its arguments and whether they are held to it. Where the caller
/// offers none, none is. A tool that is no function, or has no schema, is refused.
#[verifier::rlimit(40)]
pub proof fn law_tools_are_carried_over(
    request: JsonView,
    model: Seq<char>,
    provider: Seq<char>,
    ceiling: Option<u32>,
    tools: Seq<JsonView>,
    i: int,
)
    requires
        request.get("tools"@) == Some(JsonView::Array(tools)),
    ensures
        match translated(request, model, provider, ceiling) {
            Ok(body) => {
                &&& tools.len() == 0 ==> body.get("tools"@) is None
                &&& tools.len() > 0 ==> (body.get("tools"@) matches Some(JsonView::Array(sent))
                    && sent.len() == tools.len())
                &&& 0 <= i < tools.len() ==> {
                    let function = tools[i].get("function"@);
                    let sent = body.get("tools"@)->0->Array_0[i];
                    &&& function matches Some(JsonView::Object(_))
                    &&& function->0.get("name"@) matches Some(JsonView::String(name)) ==> sent.get(
                        "name"@,
                    ) == Some(JsonView::String(name))
                    &&& function->0.get("description"@) matches Some(JsonView::String(text))
                        ==> sent.get("description"@) == Some(JsonView::String(text))
                    &&& function->0.get("description"@) is None ==> sent.get("description"@) is None
                    &&& sent.get("input_schema"@) is Some
                    &&& sent.get("input_schema"@) == function->0.get("parameters"@)
                    &&& function->0.get("strict"@) matches Some(JsonView::Bool(strict))
                        ==> sent.get("strict"@) == Some(JsonView::Bool(strict))
                    &&& function->0.get("strict"@) is None ==> sent.get("strict"@) is None
                }
            },
            Err(_) => true,
        },
{
    broadcast use group_find;

    lemma_nothing_kept(openai_compat::request::request_residue(request.fields()), provider);
    let view = openai_compat::request::ingested_request(request, model);
    if translated(request, model, provider, ceiling) is Ok {
        lemma_body(view, provider, ceiling);
        if 0 <= i < tools.len() {
            lemma_tool_keys();
            assert(view.tools[i] == openai_compat::request::ingested_tool(tools[i]));
            assert(!(view.tools[i].input_schema is Null));
            assert(rendered_tools(view.tools)[i] == super::request::rendered_tool(view.tools[i]));
        }
    }
}

/// A tool that is offered holds its name, what it does, its schema and whether its
/// arguments are held to it, and nothing else.
pub proof fn law_nothing_foreign_is_offered(
    request: JsonView,
    model: Seq<char>,
    provider: Seq<char>,
    ceiling: Option<u32>,
    tools: Seq<JsonView>,
    i: int,
    key: Seq<char>,
)
    requires
        request.get("tools"@) == Some(JsonView::Array(tools)),
        0 <= i < tools.len(),
    ensures
        translated(request, model, provider, ceiling) matches Ok(body) ==> (body.get(
            "tools"@,
        )->0->Array_0[i].get(key) is Some ==> key == "name"@ || key == "description"@ || key
            == "input_schema"@ || key == "strict"@),
{
    broadcast use group_find;

    lemma_nothing_kept(openai_compat::request::request_residue(request.fields()), provider);
    let view = openai_compat::request::ingested_request(request, model);
    if translated(request, model, provider, ceiling) is Ok {
        lemma_body(view, provider, ceiling);
        lemma_tool_keys();
        assert(view.tools[i] == openai_compat::request::ingested_tool(tools[i]));
        assert(rendered_tools(view.tools)[i] == super::request::rendered_tool(view.tools[i]));
    }
}

/// Where the request offers no tools, none are offered.
pub proof fn law_no_tools_are_made_up(
    request: JsonView,
    model: Seq<char>,
    provider: Seq<char>,
    ceiling: Option<u32>,
)
    requires
        request.get("tools"@) is None,
    ensures
        translated(request, model, provider, ceiling) matches Ok(body) ==> body.get("tools"@)
            is None,
{
    lemma_nothing_kept(openai_compat::request::request_residue(request.fields()), provider);
    if translated(request, model, provider, ceiling) is Ok {
        lemma_body(
            openai_compat::request::ingested_request(request, model),
            provider,
            ceiling,
        );
    }
}

/// The names within a choice of tools differ.
proof fn lemma_choice_keys()
    ensures
        "type"@ != "name"@,
        "type"@ != "disable_parallel_tool_use"@,
        "name"@ != "disable_parallel_tool_use"@,
{
    reveal_strlit("type");
    reveal_strlit("name");
    reveal_strlit("disable_parallel_tool_use");
    assert("type"@[0] != "name"@[0]);
    assert("type"@.len() != "disable_parallel_tool_use"@.len());
    assert("name"@.len() != "disable_parallel_tool_use"@.len());
}

/// The words for a choice of tools differ.
proof fn lemma_choice_words()
    ensures
        "auto"@ != "none"@,
        "auto"@ != "any"@,
        "auto"@ != "tool"@,
        "auto"@ != "required"@,
        "none"@ != "any"@,
        "none"@ != "tool"@,
        "none"@ != "required"@,
        "any"@ != "tool"@,
        "any"@ != "required"@,
        "tool"@ != "required"@,
{
    reveal_strlit("auto");
    reveal_strlit("none");
    reveal_strlit("any");
    reveal_strlit("tool");
    reveal_strlit("required");
    assert("auto"@[0] != "none"@[0]);
    assert("auto"@.len() != "any"@.len());
    assert("auto"@[0] != "tool"@[0]);
    assert("auto"@.len() != "required"@.len());
    assert("none"@.len() != "any"@.len());
    assert("none"@[0] != "tool"@[0]);
    assert("none"@.len() != "required"@.len());
    assert("any"@.len() != "tool"@.len());
    assert("any"@.len() != "required"@.len());
    assert("tool"@.len() != "required"@.len());
}

/// The choice of tools is carried over: a function that is named is the tool that
/// must be called, `required` is any of them, `auto` leaves it to the model and
/// `none` forbids it. Where the caller says nothing of it, nothing is said.
#[verifier::rlimit(40)]
pub proof fn law_the_choice_of_tools_is_carried_over(
    request: JsonView,
    model: Seq<char>,
    provider: Seq<char>,
    ceiling: Option<u32>,
    name: Seq<char>,
)
    ensures
        translated(request, model, provider, ceiling) matches Ok(body) ==> {
            let asked = request.get("tool_choice"@);
            let sent = body.get("tool_choice"@);
            let kind = sent->0.get("type"@);
            let named = Some(JsonView::String(name));
            &&& asked is Some && asked->0 is Object && asked->0.get("type"@) is Some
                && asked->0.get("type"@)->0 is String && asked->0.get("function"@) is Some
                && asked->0.get("function"@)->0.get("name"@) == named ==> sent is Some && kind
                == Some(JsonView::String("tool"@)) && sent->0.get("name"@)
                == named
            &&& asked == Some(JsonView::String("required"@)) ==> sent is Some && kind == Some(
                JsonView::String("any"@),
            ) && sent->0.get("name"@) is None
            &&& asked == Some(JsonView::String("auto"@)) ==> sent is Some && kind == Some(
                JsonView::String("auto"@),
            ) && sent->0.get("name"@) is None
            &&& asked == Some(JsonView::String("none"@)) ==> sent is Some && kind == Some(
                JsonView::String("none"@),
            ) && sent->0.get("name"@) is None && sent->0.get("disable_parallel_tool_use"@) is None
            &&& asked is None && request.get("parallel_tool_calls"@) != Some(
                JsonView::Bool(false),
            ) ==> sent is None
        },
{
    broadcast use group_find;

    lemma_nothing_kept(openai_compat::request::request_residue(request.fields()), provider);
    lemma_choice_keys();
    lemma_choice_words();
    if translated(request, model, provider, ceiling) is Ok {
        lemma_body(
            openai_compat::request::ingested_request(request, model),
            provider,
            ceiling,
        );
    }
}

/// That tools are to be called one at a time is said with every choice that lets
/// any be called, and with an open choice where the caller made none; otherwise
/// it is not said.
#[verifier::rlimit(40)]
pub proof fn law_one_call_at_a_time_is_carried_over(
    request: JsonView,
    model: Seq<char>,
    provider: Seq<char>,
    ceiling: Option<u32>,
)
    ensures
        translated(request, model, provider, ceiling) matches Ok(body) ==> {
            let sent = body.get("tool_choice"@);
            let one = request.get("parallel_tool_calls"@) == Some(JsonView::Bool(false));
            let asked = request.get("tool_choice"@);
            &&& one && asked != Some(JsonView::String("none"@)) ==> sent is Some && sent->0.get(
                "disable_parallel_tool_use"@,
            ) == Some(JsonView::Bool(true))
            &&& one && asked is None ==> sent->0.get("type"@) == Some(JsonView::String("auto"@))
            &&& !one && sent is Some ==> sent->0.get("disable_parallel_tool_use"@) is None
        },
{
    broadcast use group_find;

    lemma_nothing_kept(openai_compat::request::request_residue(request.fields()), provider);
    lemma_choice_keys();
    lemma_choice_words();
    if translated(request, model, provider, ceiling) is Ok {
        lemma_body(
            openai_compat::request::ingested_request(request, model),
            provider,
            ceiling,
        );
    }
}

/// A rendered choice of tools reads back: the choice that was made, and whether
/// several tools may be called at once where that was forbidden.
pub proof fn law_a_choice_of_tools_reads_back(
    choice: ToolChoiceView,
    parallel: Option<bool>,
    request: JsonView,
)
    requires
        request.get("tool_choice"@) == rendered_tool_choice(Some(choice), parallel),
    ensures
        request.get("tool_choice"@) is Some,
        ingested_tool_choice(request.get("tool_choice"@)->0) == Some(choice),
        ingested_parallel(request) == (if parallel == Some(false) && !(choice is Never) {
            Some(false)
        } else {
            None
        }),
        choice matches ToolChoiceView::Tool { name } ==> request.get("tool_choice"@)->0.get(
            "type"@,
        ) == Some(JsonView::String("tool"@)) && request.get("tool_choice"@)->0.get("name"@)
            == Some(JsonView::String(name)),
{
    broadcast use group_find;

    lemma_choice_keys();
    lemma_choice_words();
}

/// The names within a form of output differ.
proof fn lemma_config_keys()
    ensures
        "format"@ != "effort"@,
        "format"@ != "type"@,
        "format"@ != "schema"@,
        "format"@ != "json_schema"@,
        "format"@ != "name"@,
        "effort"@ != "type"@,
        "effort"@ != "schema"@,
        "effort"@ != "json_schema"@,
        "effort"@ != "name"@,
        "type"@ != "schema"@,
        "type"@ != "json_schema"@,
        "type"@ != "name"@,
        "schema"@ != "json_schema"@,
        "schema"@ != "name"@,
        "json_schema"@ != "name"@,
{
    reveal_strlit("format");
    reveal_strlit("effort");
    reveal_strlit("type");
    reveal_strlit("schema");
    reveal_strlit("json_schema");
    reveal_strlit("name");
    assert("format"@[0] != "effort"@[0]);
    assert("format"@.len() != "type"@.len());
    assert("format"@[0] != "schema"@[0]);
    assert("format"@.len() != "json_schema"@.len());
    assert("format"@.len() != "name"@.len());
    assert("effort"@.len() != "type"@.len());
    assert("effort"@[0] != "schema"@[0]);
    assert("effort"@.len() != "json_schema"@.len());
    assert("effort"@.len() != "name"@.len());
    assert("type"@.len() != "schema"@.len());
    assert("type"@.len() != "json_schema"@.len());
    assert("type"@[0] != "name"@[0]);
    assert("schema"@.len() != "json_schema"@.len());
    assert("schema"@.len() != "name"@.len());
    assert("json_schema"@.len() != "name"@.len());
}

/// The words for a form of reply differ.
proof fn lemma_format_words()
    ensures
        "json_schema"@ != "text"@,
        "json_schema"@ != "json_object"@,
        "text"@ != "json_object"@,
{
    reveal_strlit("json_schema");
    reveal_strlit("text");
    reveal_strlit("json_object");
    assert("json_schema"@.len() != "text"@.len());
    assert("json_schema"@[5] != "json_object"@[5]);
    assert("text"@.len() != "json_object"@.len());
}

/// A reply held to a schema is asked for by that schema; how much to reason is
/// carried over as it was said; where the caller says neither, nothing is said of
/// the output. A reply that is any JSON at all has no form here and is refused.
#[verifier::rlimit(40)]
pub proof fn law_the_form_of_the_output_is_carried_over(
    request: JsonView,
    model: Seq<char>,
    provider: Seq<char>,
    ceiling: Option<u32>,
)
    ensures
        ({
            let asked = request.get("response_format"@);
            let effort = request.get("reasoning_effort"@);
            match translated(request, model, provider, ceiling) {
                Ok(body) => {
                    let config = body.get("output_config"@);
                    &&& asked is Some && asked->0.get("json_schema"@) is Some && (asked->0.get(
                        "json_schema"@,
                    )->0.get("name"@) matches Some(JsonView::String(_))) && asked->0.get(
                        "json_schema"@,
                    )->0.get("schema"@) is Some ==> {
                        &&& config is Some
                        &&& config->0.get("format"@) is Some
                        &&& config->0.get("format"@)->0.get("type"@) == Some(
                            JsonView::String("json_schema"@),
                        )
                        &&& config->0.get("format"@)->0.get("schema"@) == asked->0.get(
                            "json_schema"@,
                        )->0.get("schema"@)
                    }
                    &&& effort matches Some(JsonView::String(word)) ==> config is Some
                        && config->0.get("effort"@) == Some(JsonView::String(word))
                    &&& effort is None && config is Some ==> config->0.get("effort"@) is None
                    &&& asked is None && effort is None ==> config is None
                    &&& asked is None && config is Some ==> config->0.get("format"@) is None
                    &&& body.get("thinking"@) is None
                    &&& asked is Some && asked->0.get("json_schema"@) is None ==> asked->0.get(
                        "type"@,
                    ) != Some(JsonView::String("json_object"@))
                },
                Err(_) => true,
            }
        }),
{
    broadcast use group_find;

    lemma_nothing_kept(openai_compat::request::request_residue(request.fields()), provider);
    lemma_config_keys();
    lemma_format_words();
    if translated(request, model, provider, ceiling) is Ok {
        lemma_body(
            openai_compat::request::ingested_request(request, model),
            provider,
            ceiling,
        );
    }
}

} // verus!
