//! What a reply in chat completions is to Anthropic's callers, and how reasoning is
//! asked for: laws from the one wire to the other.
use vstd::prelude::*;

use crate::error::ErrorView;
use crate::gateway::ext::law_another_protocol_reads_nothing;
use crate::gateway::openai_compat;
use crate::gateway::types::message::{CacheHintView, ContentBlockView, MediaSourceView};
use crate::gateway::types::request::{ChatRequestView, ReasoningConfigView};
use crate::gateway::types::response::FinishReason;
use crate::gateway::types::stream::ContentDeltaView;
use crate::json::{group_find, JsonView};
use crate::replies::counted;
use crate::types::Protocol;

use super::request::{checked_block, ingested_reasoning, rendered_request, rendered_thinking};
use super::response::{
    ingested_block, rendered_block, rendered_blocks, rendered_response, rendered_up_to,
    rendered_usage,
};
use super::stream::rendered_event;

verus! {

/// The names within a mode of thinking differ.
proof fn lemma_thinking_keys()
    ensures
        "type"@ != "budget_tokens"@,
        "type"@ != "display"@,
        "budget_tokens"@ != "display"@,
{
    reveal_strlit("type");
    reveal_strlit("budget_tokens");
    reveal_strlit("display");
    assert("type"@.len() != "budget_tokens"@.len());
    assert("type"@.len() != "display"@.len());
    assert("budget_tokens"@.len() != "display"@.len());
}

/// The modes of thinking differ.
proof fn lemma_thinking_words()
    ensures
        "enabled"@ != "adaptive"@,
        "enabled"@ != "disabled"@,
        "adaptive"@ != "disabled"@,
{
    reveal_strlit("enabled");
    reveal_strlit("adaptive");
    reveal_strlit("disabled");
    assert("enabled"@.len() != "adaptive"@.len());
    assert("enabled"@.len() != "disabled"@.len());
    assert("adaptive"@[0] != "disabled"@[0]);
}

/// The words for what is shown differ.
proof fn lemma_display_words()
    ensures
        "omitted"@ != "summarized"@,
{
    reveal_strlit("omitted");
    reveal_strlit("summarized");
    assert("omitted"@.len() != "summarized"@.len());
}

/// Reasoning is asked for as thinking: switched off where it is off, with its budget
/// where it has one, left to the model where it is on without one; and nothing is
/// said where nothing was. What is shown of it is said only where it is on.
pub proof fn law_how_reasoning_is_asked_for(reasoning: ReasoningConfigView)
    ensures
        ({
            let sent = rendered_thinking(reasoning);
            let kind = sent->0.get("type"@);
            let display = sent->0.get("display"@);
            let off = reasoning.enabled == Some(false);
            &&& off ==> sent is Some && kind == Some(JsonView::String("disabled"@)) && sent->0.get(
                "budget_tokens"@,
            ) is None && display is None
            &&& !off && reasoning.budget_tokens is Some ==> sent is Some && kind == Some(
                JsonView::String("enabled"@),
            ) && sent->0.get("budget_tokens"@) == counted(reasoning.budget_tokens->0 as int)
            &&& reasoning.enabled == Some(true) && reasoning.budget_tokens is None ==> sent is Some
                && kind == Some(JsonView::String("adaptive"@)) && sent->0.get("budget_tokens"@)
                is None
            &&& reasoning.enabled is None && reasoning.budget_tokens is None ==> sent is None
            &&& !off && sent is Some ==> {
                &&& reasoning.exclude == Some(true) ==> display == Some(
                    JsonView::String("omitted"@),
                )
                &&& reasoning.exclude == Some(false) ==> display == Some(
                    JsonView::String("summarized"@),
                )
                &&& reasoning.exclude is None ==> display is None
            }
        }),
{
    broadcast use group_find;

    lemma_thinking_keys();
}

/// How Anthropic's callers ask for reasoning is read as it is meant: on with a budget,
/// on without one, or off; with the effort that is asked for; and left out of the
/// reply or not.
pub proof fn law_how_reasoning_is_read(request: JsonView, budget: u32)
    ensures
        ({
            let thinking = request.get("thinking"@);
            let kind = thinking->0.get("type"@);
            let shown = thinking->0.get("display"@);
            let read = ingested_reasoning(request);
            let config = request.get("output_config"@);
            &&& thinking is Some && kind == Some(JsonView::String("enabled"@)) && thinking->0.get(
                "budget_tokens"@,
            ) == counted(budget as int) ==> read is Some && read->0.enabled == Some(true)
                && read->0.budget_tokens == Some(budget)
            &&& thinking is Some && kind == Some(JsonView::String("adaptive"@)) ==> read is Some
                && read->0.enabled == Some(true) && read->0.budget_tokens is None
            &&& thinking is Some && kind == Some(JsonView::String("disabled"@)) ==> read is Some
                && read->0.enabled == Some(false) && read->0.budget_tokens is None
            &&& thinking is Some && kind == Some(JsonView::String("adaptive"@)) && shown == Some(
                JsonView::String("omitted"@),
            ) ==> read->0.exclude == Some(true)
            &&& thinking is Some && kind == Some(JsonView::String("adaptive"@)) && shown == Some(
                JsonView::String("summarized"@),
            ) ==> read->0.exclude == Some(false)
            &&& thinking is Some && kind == Some(JsonView::String("adaptive"@)) && shown is None
                ==> read->0.exclude is None
            &&& config is Some && config->0.get("effort"@) is Some ==> (config->0.get("effort"@)
                matches Some(JsonView::String(effort)) ==> read is Some && read->0.effort == Some(
                effort,
            ))
            &&& thinking is None && config is None ==> read is None
        }),
{
    lemma_thinking_words();
    lemma_display_words();
    broadcast use group_find;

}

/// A hint to cache the whole request, and reasoning to be left out where none is on,
/// have no form here: they are refused, never dropped.
pub proof fn law_what_has_no_form_is_refused(
    request: ChatRequestView,
    provider: Seq<char>,
    ceiling: Option<u32>,
)
    ensures
        request.cache is Some ==> (rendered_request(request, provider, ceiling) matches Err(
            ErrorView::NotImplemented(_),
        )),
        request.reasoning is Some && request.reasoning->0.exclude is Some && (
        request.reasoning->0.enabled == Some(false) || (request.reasoning->0.enabled is None
            && request.reasoning->0.budget_tokens is None)) ==> (rendered_request(
            request,
            provider,
            ceiling,
        ) matches Err(ErrorView::NotImplemented(_))),
{
}

/// One reply in chat completions, rendered for one of Anthropic's callers.
pub open spec fn retold(reply: JsonView, provider: Seq<char>) -> JsonView {
    rendered_response(openai_compat::response::ingested_response(reply), provider)
}

/// The names within a reply differ.
proof fn lemma_reply_keys()
    ensures
        "type"@ != "id"@,
        "type"@ != "role"@,
        "type"@ != "content"@,
        "type"@ != "model"@,
        "type"@ != "stop_reason"@,
        "type"@ != "stop_sequence"@,
        "type"@ != "usage"@,
        "id"@ != "role"@,
        "id"@ != "content"@,
        "id"@ != "model"@,
        "id"@ != "stop_reason"@,
        "id"@ != "stop_sequence"@,
        "id"@ != "usage"@,
        "role"@ != "content"@,
        "role"@ != "model"@,
        "role"@ != "stop_reason"@,
        "role"@ != "stop_sequence"@,
        "role"@ != "usage"@,
        "content"@ != "model"@,
        "content"@ != "stop_reason"@,
        "content"@ != "stop_sequence"@,
        "content"@ != "usage"@,
        "model"@ != "stop_reason"@,
        "model"@ != "stop_sequence"@,
        "model"@ != "usage"@,
        "stop_reason"@ != "stop_sequence"@,
        "stop_reason"@ != "usage"@,
        "stop_sequence"@ != "usage"@,
{
    reveal_strlit("type");
    reveal_strlit("id");
    reveal_strlit("role");
    reveal_strlit("content");
    reveal_strlit("model");
    reveal_strlit("stop_reason");
    reveal_strlit("stop_sequence");
    reveal_strlit("usage");
    assert("type"@.len() != "id"@.len());
    assert("type"@[0] != "role"@[0]);
    assert("type"@.len() != "content"@.len());
    assert("type"@.len() != "model"@.len());
    assert("type"@.len() != "stop_reason"@.len());
    assert("type"@.len() != "stop_sequence"@.len());
    assert("type"@.len() != "usage"@.len());
    assert("id"@.len() != "role"@.len());
    assert("id"@.len() != "content"@.len());
    assert("id"@.len() != "model"@.len());
    assert("id"@.len() != "stop_reason"@.len());
    assert("id"@.len() != "stop_sequence"@.len());
    assert("id"@.len() != "usage"@.len());
    assert("role"@.len() != "content"@.len());
    assert("role"@.len() != "model"@.len());
    assert("role"@.len() != "stop_reason"@.len());
    assert("role"@.len() != "stop_sequence"@.len());
    assert("role"@.len() != "usage"@.len());
    assert("content"@.len() != "model"@.len());
    assert("content"@.len() != "stop_reason"@.len());
    assert("content"@.len() != "stop_sequence"@.len());
    assert("content"@.len() != "usage"@.len());
    assert("model"@.len() != "stop_reason"@.len());
    assert("model"@.len() != "stop_sequence"@.len());
    assert("model"@[0] != "usage"@[0]);
    assert("stop_reason"@.len() != "stop_sequence"@.len());
    assert("stop_reason"@.len() != "usage"@.len());
    assert("stop_sequence"@.len() != "usage"@.len());
}

/// The names within a block differ.
proof fn lemma_block_keys()
    ensures
        "type"@ != "text"@,
        "type"@ != "cache_control"@,
        "type"@ != "id"@,
        "type"@ != "name"@,
        "type"@ != "input"@,
        "text"@ != "cache_control"@,
        "text"@ != "id"@,
        "text"@ != "name"@,
        "text"@ != "input"@,
        "cache_control"@ != "id"@,
        "cache_control"@ != "name"@,
        "cache_control"@ != "input"@,
        "id"@ != "name"@,
        "id"@ != "input"@,
        "name"@ != "input"@,
{
    reveal_strlit("type");
    reveal_strlit("text");
    reveal_strlit("cache_control");
    reveal_strlit("id");
    reveal_strlit("name");
    reveal_strlit("input");
    assert("type"@[1] != "text"@[1]);
    assert("type"@.len() != "cache_control"@.len());
    assert("type"@.len() != "id"@.len());
    assert("type"@[0] != "name"@[0]);
    assert("type"@.len() != "input"@.len());
    assert("text"@.len() != "cache_control"@.len());
    assert("text"@.len() != "id"@.len());
    assert("text"@[0] != "name"@[0]);
    assert("text"@.len() != "input"@.len());
    assert("cache_control"@.len() != "id"@.len());
    assert("cache_control"@.len() != "name"@.len());
    assert("cache_control"@.len() != "input"@.len());
    assert("id"@.len() != "name"@.len());
    assert("id"@.len() != "input"@.len());
    assert("name"@.len() != "input"@.len());
}

/// The names within token counts differ.
proof fn lemma_usage_keys()
    ensures
        "input_tokens"@ != "output_tokens"@,
        "input_tokens"@ != "cache_creation_input_tokens"@,
        "input_tokens"@ != "cache_read_input_tokens"@,
        "input_tokens"@ != "output_tokens_details"@,
        "input_tokens"@ != "thinking_tokens"@,
        "output_tokens"@ != "cache_creation_input_tokens"@,
        "output_tokens"@ != "cache_read_input_tokens"@,
        "output_tokens"@ != "output_tokens_details"@,
        "output_tokens"@ != "thinking_tokens"@,
        "cache_creation_input_tokens"@ != "cache_read_input_tokens"@,
        "cache_creation_input_tokens"@ != "output_tokens_details"@,
        "cache_creation_input_tokens"@ != "thinking_tokens"@,
        "cache_read_input_tokens"@ != "output_tokens_details"@,
        "cache_read_input_tokens"@ != "thinking_tokens"@,
        "output_tokens_details"@ != "thinking_tokens"@,
{
    reveal_strlit("input_tokens");
    reveal_strlit("output_tokens");
    reveal_strlit("cache_creation_input_tokens");
    reveal_strlit("cache_read_input_tokens");
    reveal_strlit("output_tokens_details");
    reveal_strlit("thinking_tokens");
    assert("input_tokens"@.len() != "output_tokens"@.len());
    assert("input_tokens"@.len() != "cache_creation_input_tokens"@.len());
    assert("input_tokens"@.len() != "cache_read_input_tokens"@.len());
    assert("input_tokens"@.len() != "output_tokens_details"@.len());
    assert("input_tokens"@.len() != "thinking_tokens"@.len());
    assert("output_tokens"@.len() != "cache_creation_input_tokens"@.len());
    assert("output_tokens"@.len() != "cache_read_input_tokens"@.len());
    assert("output_tokens"@.len() != "output_tokens_details"@.len());
    assert("output_tokens"@.len() != "thinking_tokens"@.len());
    assert("cache_creation_input_tokens"@.len() != "cache_read_input_tokens"@.len());
    assert("cache_creation_input_tokens"@.len() != "output_tokens_details"@.len());
    assert("cache_creation_input_tokens"@.len() != "thinking_tokens"@.len());
    assert("cache_read_input_tokens"@.len() != "output_tokens_details"@.len());
    assert("cache_read_input_tokens"@.len() != "thinking_tokens"@.len());
    assert("output_tokens_details"@.len() != "thinking_tokens"@.len());
}

/// A reply of one choice.
pub open spec fn one_choice(reply: JsonView, choice: JsonView) -> bool {
    &&& reply.get("choices"@) == Some(JsonView::Array(seq![choice]))
    &&& choice.get("message"@) is Some
    &&& choice.get("message"@)->0.get("role"@) == Some(JsonView::String("assistant"@))
}

#[verifier::rlimit(40)]
proof fn lemma_retold(reply: JsonView, choice: JsonView, provider: Seq<char>)
    requires
        one_choice(reply, choice),
    ensures
        ({
            let out = retold(reply, provider);
            let message = choice.get("message"@)->0;
            let blocks = openai_compat::response::reply_blocks(message);
            let raw = match choice.get("finish_reason"@) {
                Some(JsonView::String(raw)) => raw,
                _ => Seq::empty(),
            };
            &&& out.get("type"@) == Some(JsonView::String("message"@))
            &&& reply.get("id"@) matches Some(JsonView::String(id)) ==> out.get("id"@) == Some(
                JsonView::String(id),
            )
            &&& reply.get("model"@) matches Some(JsonView::String(model)) ==> out.get("model"@)
                == Some(JsonView::String(model))
            &&& out.get("role"@) == Some(JsonView::String("assistant"@))
            &&& out.get("content"@) == Some(JsonView::Array(rendered_blocks(blocks)))
            &&& out.get("stop_reason"@) == Some(
                if raw.len() > 0 {
                    JsonView::String(raw)
                } else {
                    JsonView::Null
                },
            )
            &&& out.get("stop_sequence"@) == Some(JsonView::Null)
            &&& out.get("usage"@) is Some
            &&& reply.get("usage"@) matches Some(JsonView::Object(fields)) ==> out.get("usage"@)
                == Some(
                rendered_usage(
                    openai_compat::response::ingested_usage(JsonView::Object(fields)),
                    provider,
                ),
            )
        }),
{
    broadcast use group_find;

    lemma_reply_keys();
    reveal_strlit("assistant");
    reveal_strlit("system");
    reveal_strlit("user");
    assert("assistant"@.len() != "system"@.len());
    assert("assistant"@.len() != "user"@.len());
    law_another_protocol_reads_nothing(
        Protocol::Anthropic,
        Protocol::OpenAiCompat,
        openai_compat::response::response_residue(reply),
        provider,
    );
    law_another_protocol_reads_nothing(
        Protocol::Anthropic,
        Protocol::OpenAiCompat,
        openai_compat::response::reply_residue(choice.get("message"@)->0),
        provider,
    );
    let view = openai_compat::response::ingested_response(reply);
    assert(seq![choice][0] == choice);
    assert(view.completions.len() == 1);
    assert(view.completions[0] == openai_compat::response::ingested_choice(choice));
}

proof fn lemma_each_block(blocks: Seq<ContentBlockView>, n: nat)
    requires
        n <= blocks.len(),
        forall|i: int| 0 <= i < n ==> rendered_block(#[trigger] blocks[i]) is Some,
    ensures
        rendered_up_to(blocks, n).len() == n,
        forall|i: int|
            0 <= i < n ==> rendered_block(#[trigger] blocks[i]) == Some(
                rendered_up_to(blocks, n)[i],
            ),
    decreases n,
{
    if n > 0 {
        lemma_each_block(blocks, (n - 1) as nat);
    }
}

/// A reply in chat completions is one of Anthropic's messages: the assistant's, under
/// the same id and by the same model, with the provider's word for why it ended. Its
/// text is its first block, and each of its calls a use of that tool, in order.
#[verifier::rlimit(40)]
pub proof fn law_a_reply_is_retold(
    reply: JsonView,
    choice: JsonView,
    provider: Seq<char>,
    text: Seq<char>,
    calls: Seq<JsonView>,
    i: int,
)
    requires
        one_choice(reply, choice),
        choice.get("message"@)->0.get("content"@) == Some(JsonView::String(text)),
        choice.get("message"@)->0.get("reasoning_content"@) is None,
        choice.get("message"@)->0.get("tool_calls"@) == Some(JsonView::Array(calls)),
        0 <= i < calls.len(),
        openai_compat::response::plain_call(calls[i]),
    ensures
        ({
            let out = retold(reply, provider);
            let content = out.get("content"@);
            let block = content->0->Array_0[i + 1];
            let function = calls[i].get("function"@)->0;
            &&& out.get("type"@) == Some(JsonView::String("message"@))
            &&& out.get("role"@) == Some(JsonView::String("assistant"@))
            &&& reply.get("id"@) is Some && reply.get("id"@)->0 is String ==> out.get("id"@)
                == reply.get("id"@)
            &&& reply.get("model"@) is Some && reply.get("model"@)->0 is String ==> out.get(
                "model"@,
            ) == reply.get("model"@)
            &&& content is Some
            &&& content->0 is Array
            &&& content->0->Array_0.len() == calls.len() + 1
            &&& content->0->Array_0[0].get("type"@) == Some(JsonView::String("text"@))
            &&& content->0->Array_0[0].get("text"@) == Some(JsonView::String(text))
            &&& block.get("type"@) == Some(JsonView::String("tool_use"@))
            &&& block.get("id"@) == calls[i].get("id"@)
            &&& block.get("name"@) == function.get("name"@)
            &&& crate::gateway::types::raw_value(function.get("arguments"@)->0->String_0) matches Some(
                input,
            ) ==> block.get("input"@) == Some(input)
        }),
{
    lemma_retold(reply, choice, provider);
    let message = choice.get("message"@)->0;
    let blocks = openai_compat::response::reply_blocks(message);
    let made = calls.map_values(
        |call: JsonView| openai_compat::response::ingested_reply_call(call),
    );
    let first = ContentBlockView::Text { text, cache: None };
    assert(blocks =~= seq![first] + made);
    assert forall|k: int| 0 <= k < blocks.len() implies rendered_block(#[trigger] blocks[k])
        is Some by {
        if k > 0 {
            assert(blocks[k] == made[k - 1]);
        }
    }
    lemma_each_block(blocks, blocks.len());
    assert(blocks[i + 1] == made[i]);
    assert(blocks[0] == first);
    lemma_text(text);
    lemma_call(calls[i]);
}

proof fn lemma_text(text: Seq<char>)
    ensures
        ({
            let block = rendered_block(ContentBlockView::Text { text, cache: None });
            &&& block is Some
            &&& block->0.get("type"@) == Some(JsonView::String("text"@))
            &&& block->0.get("text"@) == Some(JsonView::String(text))
        }),
{
    broadcast use group_find;

    lemma_block_keys();
}

proof fn lemma_call(call: JsonView)
    requires
        openai_compat::response::plain_call(call),
    ensures
        ({
            let block = rendered_block(openai_compat::response::ingested_reply_call(call));
            let function = call.get("function"@)->0;
            &&& block is Some
            &&& block->0.get("type"@) == Some(JsonView::String("tool_use"@))
            &&& block->0.get("id"@) == call.get("id"@)
            &&& block->0.get("name"@) == function.get("name"@)
            &&& crate::gateway::types::raw_value(function.get("arguments"@)->0->String_0) matches Some(
                input,
            ) ==> block->0.get("input"@) == Some(input)
        }),
{
    broadcast use group_find;

    lemma_block_keys();
}

/// The prompt is retold without the tokens that were read from a cache or written to
/// one, which are counted apart.
pub proof fn law_token_counts_are_retold(
    reply: JsonView,
    choice: JsonView,
    provider: Seq<char>,
    prompt: u32,
    completion: u32,
    cached: u32,
)
    requires
        one_choice(reply, choice),
        reply.get("usage"@) matches Some(JsonView::Object(_)),
        reply.get("usage"@)->0.get("prompt_tokens"@) == counted(prompt as int),
        reply.get("usage"@)->0.get("completion_tokens"@) == counted(completion as int),
        reply.get("usage"@)->0.get("prompt_tokens_details"@) matches Some(JsonView::Object(_)),
        reply.get("usage"@)->0.get("prompt_tokens_details"@)->0.get("cached_tokens"@) == counted(
            cached as int,
        ),
        reply.get("usage"@)->0.get("prompt_tokens_details"@)->0.get("cache_write_tokens"@) is None,
        cached <= prompt,
    ensures
        ({
            let usage = retold(reply, provider).get("usage"@);
            &&& usage is Some
            &&& usage->0.get("input_tokens"@) == counted(prompt - cached)
            &&& usage->0.get("output_tokens"@) == counted(completion as int)
            &&& usage->0.get("cache_read_input_tokens"@) == counted(cached as int)
            &&& usage->0.get("cache_creation_input_tokens"@) is None
        }),
{
    lemma_retold(reply, choice, provider);
    lemma_usage(reply.get("usage"@)->0, provider, prompt, completion, cached);
}

#[verifier::rlimit(40)]
proof fn lemma_usage(
    usage: JsonView,
    provider: Seq<char>,
    prompt: u32,
    completion: u32,
    cached: u32,
)
    requires
        usage is Object,
        usage.get("prompt_tokens"@) == counted(prompt as int),
        usage.get("completion_tokens"@) == counted(completion as int),
        usage.get("prompt_tokens_details"@) matches Some(JsonView::Object(_)),
        usage.get("prompt_tokens_details"@)->0.get("cached_tokens"@) == counted(cached as int),
        usage.get("prompt_tokens_details"@)->0.get("cache_write_tokens"@) is None,
        cached <= prompt,
    ensures
        ({
            let out = rendered_usage(openai_compat::response::ingested_usage(usage), provider);
            &&& out.get("input_tokens"@) == counted(prompt - cached)
            &&& out.get("output_tokens"@) == counted(completion as int)
            &&& out.get("cache_read_input_tokens"@) == counted(cached as int)
            &&& out.get("cache_creation_input_tokens"@) is None
        }),
{
    broadcast use group_find;

    lemma_usage_keys();
    law_another_protocol_reads_nothing(
        Protocol::Anthropic,
        Protocol::OpenAiCompat,
        openai_compat::response::usage_residue(usage.fields()),
        provider,
    );
}

/// A chunk of one choice.
pub open spec fn one_piece(chunk: JsonView, choice: JsonView) -> bool {
    &&& chunk.get("choices"@) == Some(JsonView::Array(seq![choice]))
    &&& choice.get("delta"@) is Some
    &&& choice.get("finish_reason"@) is None || choice.get("finish_reason"@) == Some(JsonView::Null)
}

/// The names within an event differ.
proof fn lemma_event_keys()
    ensures
        "type"@ != "index"@,
        "type"@ != "delta"@,
        "type"@ != "content_block"@,
        "type"@ != "event"@,
        "type"@ != "message"@,
        "type"@ != "usage"@,
        "type"@ != "text"@,
        "index"@ != "delta"@,
        "index"@ != "content_block"@,
        "index"@ != "event"@,
        "index"@ != "message"@,
        "index"@ != "usage"@,
        "index"@ != "text"@,
        "delta"@ != "content_block"@,
        "delta"@ != "event"@,
        "delta"@ != "message"@,
        "delta"@ != "usage"@,
        "delta"@ != "text"@,
        "content_block"@ != "event"@,
        "content_block"@ != "message"@,
        "content_block"@ != "usage"@,
        "content_block"@ != "text"@,
        "event"@ != "message"@,
        "event"@ != "usage"@,
        "event"@ != "text"@,
        "message"@ != "usage"@,
        "message"@ != "text"@,
        "usage"@ != "text"@,
{
    reveal_strlit("type");
    reveal_strlit("index");
    reveal_strlit("delta");
    reveal_strlit("content_block");
    reveal_strlit("event");
    reveal_strlit("message");
    reveal_strlit("usage");
    reveal_strlit("text");
    assert("type"@.len() != "index"@.len());
    assert("type"@.len() != "delta"@.len());
    assert("type"@.len() != "content_block"@.len());
    assert("type"@.len() != "event"@.len());
    assert("type"@.len() != "message"@.len());
    assert("type"@.len() != "usage"@.len());
    assert("type"@[1] != "text"@[1]);
    assert("index"@[0] != "delta"@[0]);
    assert("index"@.len() != "content_block"@.len());
    assert("index"@[0] != "event"@[0]);
    assert("index"@.len() != "message"@.len());
    assert("index"@[0] != "usage"@[0]);
    assert("index"@.len() != "text"@.len());
    assert("delta"@.len() != "content_block"@.len());
    assert("delta"@[0] != "event"@[0]);
    assert("delta"@.len() != "message"@.len());
    assert("delta"@[0] != "usage"@[0]);
    assert("delta"@.len() != "text"@.len());
    assert("content_block"@.len() != "event"@.len());
    assert("content_block"@.len() != "message"@.len());
    assert("content_block"@.len() != "usage"@.len());
    assert("content_block"@.len() != "text"@.len());
    assert("event"@.len() != "message"@.len());
    assert("event"@[0] != "usage"@[0]);
    assert("event"@.len() != "text"@.len());
    assert("message"@.len() != "usage"@.len());
    assert("message"@.len() != "text"@.len());
    assert("usage"@.len() != "text"@.len());
}

/// A chunk of text in chat completions is an event that adds that very text to a block.
#[verifier::rlimit(40)]
pub proof fn law_a_text_is_retold_as_an_event(
    chunk: JsonView,
    choice: JsonView,
    provider: Seq<char>,
    text: Seq<char>,
)
    requires
        one_piece(chunk, choice),
        choice.get("delta"@)->0.get("content"@) == Some(JsonView::String(text)),
        choice.get("delta"@)->0.get("reasoning_content"@) is None,
        choice.get("delta"@)->0.get("tool_calls"@) is None,
    ensures
        ({
            let event = rendered_event(openai_compat::stream::ingested_chunk(chunk), provider);
            let delta = event->0.get("delta"@);
            &&& event is Some
            &&& event->0.get("type"@) == Some(JsonView::String("content_block_delta"@))
            &&& event->0.get("index"@) == counted(0)
            &&& delta is Some
            &&& delta->0.get("type"@) == Some(JsonView::String("text_delta"@))
            &&& delta->0.get("text"@) == Some(JsonView::String(text))
        }),
{
    broadcast use group_find;

    lemma_event_keys();
    let view = openai_compat::stream::ingested_chunk(chunk);
    assert(seq![choice][0] == choice);
    assert(view.completions.len() == 1);
    let completion = view.completions[0];
    assert(completion == openai_compat::stream::ingested_stream_choice(choice));
    assert(completion.delta.content =~= seq![ContentDeltaView::Text { text }]);
    law_another_protocol_reads_nothing(
        Protocol::Anthropic,
        Protocol::OpenAiCompat,
        openai_compat::response::response_residue(chunk),
        provider,
    );
    law_another_protocol_reads_nothing(
        Protocol::Anthropic,
        Protocol::OpenAiCompat,
        openai_compat::stream::delta_residue(choice.get("delta"@)->0),
        provider,
    );
}

/// Why a message stopped is read from Anthropic's own words, on a whole message and at the
/// end of a stream alike; a word of another meaning is kept.
pub proof fn law_why_a_message_stopped_is_read(message: JsonView, word: Seq<char>)
    requires
        message.get("stop_reason"@) == Some(JsonView::String(word)),
    ensures
        ({
            let completion = super::response::ingested_response(message).completions[0];
            let reason = completion.finish_reason;
            &&& completion.finish_reason_raw == word
            &&& word == "end_turn"@ || word == "stop_sequence"@ ==> reason == FinishReason::Stop
            &&& word == "max_tokens"@ || word == "model_context_window_exceeded"@ ==> reason
                == FinishReason::Length
            &&& word == "tool_use"@ ==> reason == FinishReason::ToolCalls
            &&& word == "refusal"@ ==> reason == FinishReason::ContentFilter
            &&& word != "end_turn"@ && word != "stop_sequence"@ && word != "max_tokens"@ && word
                != "model_context_window_exceeded"@ && word != "tool_use"@ && word != "refusal"@
                ==> reason == FinishReason::Other
        }),
{
    lemma_stop_words();
}

/// The words for why a message stops differ.
proof fn lemma_stop_words()
    ensures
        "end_turn"@ != "stop_sequence"@,
        "end_turn"@ != "max_tokens"@,
        "end_turn"@ != "model_context_window_exceeded"@,
        "end_turn"@ != "tool_use"@,
        "end_turn"@ != "refusal"@,
        "stop_sequence"@ != "max_tokens"@,
        "stop_sequence"@ != "model_context_window_exceeded"@,
        "stop_sequence"@ != "tool_use"@,
        "stop_sequence"@ != "refusal"@,
        "max_tokens"@ != "model_context_window_exceeded"@,
        "max_tokens"@ != "tool_use"@,
        "max_tokens"@ != "refusal"@,
        "model_context_window_exceeded"@ != "tool_use"@,
        "model_context_window_exceeded"@ != "refusal"@,
        "tool_use"@ != "refusal"@,
{
    reveal_strlit("end_turn");
    reveal_strlit("stop_sequence");
    reveal_strlit("max_tokens");
    reveal_strlit("model_context_window_exceeded");
    reveal_strlit("tool_use");
    reveal_strlit("refusal");
    assert("end_turn"@.len() != "stop_sequence"@.len());
    assert("end_turn"@.len() != "max_tokens"@.len());
    assert("end_turn"@.len() != "model_context_window_exceeded"@.len());
    assert("end_turn"@[0] != "tool_use"@[0]);
    assert("end_turn"@.len() != "refusal"@.len());
    assert("stop_sequence"@.len() != "max_tokens"@.len());
    assert("stop_sequence"@.len() != "model_context_window_exceeded"@.len());
    assert("stop_sequence"@.len() != "tool_use"@.len());
    assert("stop_sequence"@.len() != "refusal"@.len());
    assert("max_tokens"@.len() != "model_context_window_exceeded"@.len());
    assert("max_tokens"@.len() != "tool_use"@.len());
    assert("max_tokens"@.len() != "refusal"@.len());
    assert("model_context_window_exceeded"@.len() != "tool_use"@.len());
    assert("model_context_window_exceeded"@.len() != "refusal"@.len());
    assert("tool_use"@.len() != "refusal"@.len());
}

/// The names within a block of media differ.
proof fn lemma_media_keys()
    ensures
        "type"@ != "text"@,
        "type"@ != "cache_control"@,
        "type"@ != "source"@,
        "type"@ != "title"@,
        "type"@ != "media_type"@,
        "type"@ != "data"@,
        "type"@ != "url"@,
        "type"@ != "ttl"@,
        "text"@ != "cache_control"@,
        "text"@ != "source"@,
        "text"@ != "title"@,
        "text"@ != "media_type"@,
        "text"@ != "data"@,
        "text"@ != "url"@,
        "text"@ != "ttl"@,
        "cache_control"@ != "source"@,
        "cache_control"@ != "title"@,
        "cache_control"@ != "media_type"@,
        "cache_control"@ != "data"@,
        "cache_control"@ != "url"@,
        "cache_control"@ != "ttl"@,
        "source"@ != "title"@,
        "source"@ != "media_type"@,
        "source"@ != "data"@,
        "source"@ != "url"@,
        "source"@ != "ttl"@,
        "title"@ != "media_type"@,
        "title"@ != "data"@,
        "title"@ != "url"@,
        "title"@ != "ttl"@,
        "media_type"@ != "data"@,
        "media_type"@ != "url"@,
        "media_type"@ != "ttl"@,
        "data"@ != "url"@,
        "data"@ != "ttl"@,
        "url"@ != "ttl"@,
{
    reveal_strlit("type");
    reveal_strlit("text");
    reveal_strlit("cache_control");
    reveal_strlit("source");
    reveal_strlit("title");
    reveal_strlit("media_type");
    reveal_strlit("data");
    reveal_strlit("url");
    reveal_strlit("ttl");
    assert("type"@[1] != "text"@[1]);
    assert("type"@.len() != "cache_control"@.len());
    assert("type"@.len() != "source"@.len());
    assert("type"@.len() != "title"@.len());
    assert("type"@.len() != "media_type"@.len());
    assert("type"@[0] != "data"@[0]);
    assert("type"@.len() != "url"@.len());
    assert("type"@.len() != "ttl"@.len());
    assert("text"@.len() != "cache_control"@.len());
    assert("text"@.len() != "source"@.len());
    assert("text"@.len() != "title"@.len());
    assert("text"@.len() != "media_type"@.len());
    assert("text"@[0] != "data"@[0]);
    assert("text"@.len() != "url"@.len());
    assert("text"@.len() != "ttl"@.len());
    assert("cache_control"@.len() != "source"@.len());
    assert("cache_control"@.len() != "title"@.len());
    assert("cache_control"@.len() != "media_type"@.len());
    assert("cache_control"@.len() != "data"@.len());
    assert("cache_control"@.len() != "url"@.len());
    assert("cache_control"@.len() != "ttl"@.len());
    assert("source"@.len() != "title"@.len());
    assert("source"@.len() != "media_type"@.len());
    assert("source"@.len() != "data"@.len());
    assert("source"@.len() != "url"@.len());
    assert("source"@.len() != "ttl"@.len());
    assert("title"@.len() != "media_type"@.len());
    assert("title"@.len() != "data"@.len());
    assert("title"@.len() != "url"@.len());
    assert("title"@.len() != "ttl"@.len());
    assert("media_type"@.len() != "data"@.len());
    assert("media_type"@.len() != "url"@.len());
    assert("media_type"@.len() != "ttl"@.len());
    assert("data"@.len() != "url"@.len());
    assert("data"@.len() != "ttl"@.len());
    assert("url"@[0] != "ttl"@[0]);
}

/// The tags of blocks differ.
proof fn lemma_media_words()
    ensures
        "text"@ != "image"@,
        "text"@ != "document"@,
        "image"@ != "document"@,
{
    reveal_strlit("text");
    reveal_strlit("image");
    reveal_strlit("document");
    assert("text"@.len() != "image"@.len());
    assert("text"@.len() != "document"@.len());
    assert("image"@.len() != "document"@.len());
}

/// The tags of sources differ.
proof fn lemma_source_words()
    ensures
        "base64"@ != "url"@,
        "base64"@ != "file"@,
        "url"@ != "file"@,
{
    reveal_strlit("base64");
    reveal_strlit("url");
    reveal_strlit("file");
    assert("base64"@.len() != "url"@.len());
    assert("base64"@.len() != "file"@.len());
    assert("url"@.len() != "file"@.len());
}

/// Where the bytes of a block are is read back from what is rendered of it.
proof fn lemma_source_reads_back(source: MediaSourceView)
    requires
        !(source is ProviderFile),
    ensures
        super::response::source_in(super::response::rendered_source(source)) == Some(source),
{
    broadcast use group_find;

    lemma_media_keys();
    lemma_source_words();
}

proof fn lemma_hint_reads_back(value: JsonView, hint: Option<CacheHintView>)
    requires
        value.get("cache_control"@) == super::response::control_field(hint),
    ensures
        super::response::hint_at(value) == hint,
        hint is Some ==> value.get("cache_control"@)->0.get("type"@) == Some(
            JsonView::String("ephemeral"@),
        ),
{
    broadcast use group_find;

    lemma_media_keys();
}

/// A text, an image or a document of a request is rendered under its own kind, and read
/// back as it was: its text, where its bytes are, its title and its hint to cache. A
/// file that only another provider knows is refused.
pub proof fn law_a_block_of_a_request_reads_back(
    text: Seq<char>,
    source: MediaSourceView,
    title: Option<Seq<char>>,
    cache: Option<CacheHintView>,
)
    ensures
        ({
            let words = ContentBlockView::Text { text, cache };
            let image = ContentBlockView::Image { source, detail: None, cache };
            let document = ContentBlockView::Document { source, title, cache };
            &&& checked_block(words) matches Ok(Some(sent)) && sent.get("type"@) == Some(
                JsonView::String("text"@),
            ) && ingested_block(sent) == words
            &&& !(source is ProviderFile) ==> (checked_block(image) matches Ok(Some(sent))
                && sent.get("type"@) == Some(JsonView::String("image"@)) && ingested_block(sent)
                == image)
            &&& !(source is ProviderFile) ==> (checked_block(document) matches Ok(Some(sent))
                && sent.get("type"@) == Some(JsonView::String("document"@)) && ingested_block(sent)
                == document)
            &&& source is ProviderFile ==> (checked_block(image) matches Err(
                ErrorView::InvalidInput(_),
            )) && (checked_block(document) matches Err(ErrorView::InvalidInput(_)))
        }),
{
    let words = super::response::text_block(text, cache);
    lemma_words(text, cache);
    lemma_hint_reads_back(words, cache);
    if !(source is ProviderFile) {
        let wire = super::response::rendered_source(source);
        lemma_source_reads_back(source);
        lemma_media(wire, title, cache);
        lemma_hint_reads_back(super::response::image_block(wire, cache), cache);
        lemma_hint_reads_back(super::response::document_block(wire, title, cache), cache);
        lemma_media_words();
    }
}

proof fn lemma_words(text: Seq<char>, cache: Option<CacheHintView>)
    ensures
        ({
            let words = super::response::text_block(text, cache);
            &&& words.get("type"@) == Some(JsonView::String("text"@))
            &&& words.get("text"@) == Some(JsonView::String(text))
            &&& words.get("cache_control"@) == super::response::control_field(cache)
        }),
{
    broadcast use group_find;

    lemma_media_keys();
}

proof fn lemma_media(source: JsonView, title: Option<Seq<char>>, cache: Option<CacheHintView>)
    ensures
        ({
            let image = super::response::image_block(source, cache);
            let document = super::response::document_block(source, title, cache);
            &&& image.get("type"@) == Some(JsonView::String("image"@))
            &&& image.get("source"@) == Some(source)
            &&& image.get("cache_control"@) == super::response::control_field(cache)
            &&& document.get("type"@) == Some(JsonView::String("document"@))
            &&& document.get("source"@) == Some(source)
            &&& document.str_at("title"@) == title
            &&& document.get("cache_control"@) == super::response::control_field(cache)
        }),
{
    broadcast use group_find;

    lemma_media_keys();
}

} // verus!
