//! What a caller is told of a streamed reply: laws from a provider's wire to the
//! caller's.
use vstd::prelude::*;

use crate::error::ErrorView;
use crate::gateway::anthropic::stream::{ingested_event, kind_of, EventKind};
use crate::gateway::ext::{law_another_protocol_reads_nothing, merged};
use crate::gateway::openai_compat::ordinals::{noted, rank};
use crate::gateway::openai_compat::response::rendered_usage;
use crate::gateway::openai_compat::stream::{
    call_chunk, rendered_chunk, rendered_delta_reason, rendered_fragments, rendered_stream_choice,
    rendered_stream_choices,
};
use crate::gateway::types::stream::{ChatResponseChunkView, CompletionDeltaView, ContentDeltaView};
use crate::json::{group_find, no_fields, JsonView, NumberView};
use crate::json_client::{next_of, JsonChatStreamView};
use crate::replies::{count_if_any, counted, not_said, text_if_any, tokens, whole_message};
use crate::types::Protocol;

verus! {

/// A stream from Anthropic that no failure has ended.
pub open spec fn running(stream: JsonChatStreamView) -> bool {
    !stream.ended && stream.protocol == Protocol::Anthropic
}

/// An event of this type.
pub open spec fn is_event(event: JsonView, tag: Seq<char>) -> bool {
    event.get("type"@) == Some(JsonView::String(tag))
}

/// The event tells which block it is about.
pub open spec fn has_index(event: JsonView) -> bool {
    !not_said(event, "index"@) && count_if_any(event, "index"@)
}

/// What the caller is given for an event.
pub open spec fn heard(stream: JsonChatStreamView, event: JsonView) -> Option<
    Result<JsonView, ErrorView>,
> {
    next_of(stream, Some(event)).0
}

/// The stream after an event.
pub open spec fn beyond(stream: JsonChatStreamView, event: JsonView) -> JsonChatStreamView {
    next_of(stream, Some(event)).1
}

/// The caller is given a chunk.
pub open spec fn chunked(given: Option<Result<JsonView, ErrorView>>) -> bool {
    given matches Some(Ok(_))
}

/// The choices of the chunk that the caller is given.
pub open spec fn choices_in(given: Option<Result<JsonView, ErrorView>>) -> Seq<JsonView> {
    match given->0->Ok_0.get("choices"@) {
        Some(JsonView::Array(choices)) => choices,
        _ => Seq::empty(),
    }
}

/// What the one choice of a chunk adds.
pub open spec fn added_by(given: Option<Result<JsonView, ErrorView>>) -> JsonView {
    choices_in(given)[0].get("delta"@)->0
}

/// The types of events differ.
proof fn lemma_tags()
    ensures
        "message_start"@ != "content_block_start"@,
        "message_start"@ != "content_block_delta"@,
        "message_start"@ != "message_delta"@,
        "message_start"@ != "message_stop"@,
        "message_start"@ != "content_block_stop"@,
        "message_start"@ != "ping"@,
        "message_start"@ != "error"@,
        "content_block_start"@ != "content_block_delta"@,
        "content_block_start"@ != "message_delta"@,
        "content_block_start"@ != "message_stop"@,
        "content_block_start"@ != "content_block_stop"@,
        "content_block_start"@ != "ping"@,
        "content_block_start"@ != "error"@,
        "content_block_delta"@ != "message_delta"@,
        "content_block_delta"@ != "message_stop"@,
        "content_block_delta"@ != "content_block_stop"@,
        "content_block_delta"@ != "ping"@,
        "content_block_delta"@ != "error"@,
        "message_delta"@ != "message_stop"@,
        "message_delta"@ != "content_block_stop"@,
        "message_delta"@ != "ping"@,
        "message_delta"@ != "error"@,
        "message_stop"@ != "content_block_stop"@,
        "message_stop"@ != "ping"@,
        "message_stop"@ != "error"@,
        "content_block_stop"@ != "ping"@,
        "content_block_stop"@ != "error"@,
        "ping"@ != "error"@,
{
    reveal_strlit("message_start");
    reveal_strlit("content_block_start");
    reveal_strlit("content_block_delta");
    reveal_strlit("message_delta");
    reveal_strlit("message_stop");
    reveal_strlit("content_block_stop");
    reveal_strlit("ping");
    reveal_strlit("error");
    assert("message_start"@.len() != "content_block_start"@.len());
    assert("message_start"@.len() != "content_block_delta"@.len());
    assert("message_start"@[8] != "message_delta"@[8]);
    assert("message_start"@.len() != "message_stop"@.len());
    assert("message_start"@.len() != "content_block_stop"@.len());
    assert("message_start"@.len() != "ping"@.len());
    assert("message_start"@.len() != "error"@.len());
    assert("content_block_start"@[14] != "content_block_delta"@[14]);
    assert("content_block_start"@.len() != "message_delta"@.len());
    assert("content_block_start"@.len() != "message_stop"@.len());
    assert("content_block_start"@.len() != "content_block_stop"@.len());
    assert("content_block_start"@.len() != "ping"@.len());
    assert("content_block_start"@.len() != "error"@.len());
    assert("content_block_delta"@.len() != "message_delta"@.len());
    assert("content_block_delta"@.len() != "message_stop"@.len());
    assert("content_block_delta"@.len() != "content_block_stop"@.len());
    assert("content_block_delta"@.len() != "ping"@.len());
    assert("content_block_delta"@.len() != "error"@.len());
    assert("message_delta"@.len() != "message_stop"@.len());
    assert("message_delta"@.len() != "content_block_stop"@.len());
    assert("message_delta"@.len() != "ping"@.len());
    assert("message_delta"@.len() != "error"@.len());
    assert("message_stop"@.len() != "content_block_stop"@.len());
    assert("message_stop"@.len() != "ping"@.len());
    assert("message_stop"@.len() != "error"@.len());
    assert("content_block_stop"@.len() != "ping"@.len());
    assert("content_block_stop"@.len() != "error"@.len());
    assert("ping"@.len() != "error"@.len());
}

/// The names within a chunk differ.
proof fn lemma_chunk_keys()
    ensures
        "id"@ != "model"@,
        "id"@ != "object"@,
        "id"@ != "created"@,
        "id"@ != "choices"@,
        "id"@ != "usage"@,
        "id"@ != "moderation"@,
        "id"@ != "service_tier"@,
        "id"@ != "system_fingerprint"@,
        "model"@ != "object"@,
        "model"@ != "created"@,
        "model"@ != "choices"@,
        "model"@ != "usage"@,
        "model"@ != "moderation"@,
        "model"@ != "service_tier"@,
        "model"@ != "system_fingerprint"@,
        "object"@ != "created"@,
        "object"@ != "choices"@,
        "object"@ != "usage"@,
        "object"@ != "moderation"@,
        "object"@ != "service_tier"@,
        "object"@ != "system_fingerprint"@,
        "created"@ != "choices"@,
        "created"@ != "usage"@,
        "created"@ != "moderation"@,
        "created"@ != "service_tier"@,
        "created"@ != "system_fingerprint"@,
        "choices"@ != "usage"@,
        "choices"@ != "moderation"@,
        "choices"@ != "service_tier"@,
        "choices"@ != "system_fingerprint"@,
        "usage"@ != "moderation"@,
        "usage"@ != "service_tier"@,
        "usage"@ != "system_fingerprint"@,
        "moderation"@ != "service_tier"@,
        "moderation"@ != "system_fingerprint"@,
        "service_tier"@ != "system_fingerprint"@,
{
    reveal_strlit("id");
    reveal_strlit("model");
    reveal_strlit("object");
    reveal_strlit("created");
    reveal_strlit("choices");
    reveal_strlit("usage");
    reveal_strlit("moderation");
    reveal_strlit("service_tier");
    reveal_strlit("system_fingerprint");
    assert("id"@.len() != "model"@.len());
    assert("id"@.len() != "object"@.len());
    assert("id"@.len() != "created"@.len());
    assert("id"@.len() != "choices"@.len());
    assert("id"@.len() != "usage"@.len());
    assert("id"@.len() != "moderation"@.len());
    assert("id"@.len() != "service_tier"@.len());
    assert("id"@.len() != "system_fingerprint"@.len());
    assert("model"@.len() != "object"@.len());
    assert("model"@.len() != "created"@.len());
    assert("model"@.len() != "choices"@.len());
    assert("model"@[0] != "usage"@[0]);
    assert("model"@.len() != "moderation"@.len());
    assert("model"@.len() != "service_tier"@.len());
    assert("model"@.len() != "system_fingerprint"@.len());
    assert("object"@.len() != "created"@.len());
    assert("object"@.len() != "choices"@.len());
    assert("object"@.len() != "usage"@.len());
    assert("object"@.len() != "moderation"@.len());
    assert("object"@.len() != "service_tier"@.len());
    assert("object"@.len() != "system_fingerprint"@.len());
    assert("created"@[1] != "choices"@[1]);
    assert("created"@.len() != "usage"@.len());
    assert("created"@.len() != "moderation"@.len());
    assert("created"@.len() != "service_tier"@.len());
    assert("created"@.len() != "system_fingerprint"@.len());
    assert("choices"@.len() != "usage"@.len());
    assert("choices"@.len() != "moderation"@.len());
    assert("choices"@.len() != "service_tier"@.len());
    assert("choices"@.len() != "system_fingerprint"@.len());
    assert("usage"@.len() != "moderation"@.len());
    assert("usage"@.len() != "service_tier"@.len());
    assert("usage"@.len() != "system_fingerprint"@.len());
    assert("moderation"@.len() != "service_tier"@.len());
    assert("moderation"@.len() != "system_fingerprint"@.len());
    assert("service_tier"@.len() != "system_fingerprint"@.len());
}

/// The names within a choice differ.
proof fn lemma_choice_keys()
    ensures
        "index"@ != "logprobs"@,
        "index"@ != "finish_reason"@,
        "index"@ != "delta"@,
        "logprobs"@ != "finish_reason"@,
        "logprobs"@ != "delta"@,
        "finish_reason"@ != "delta"@,
{
    reveal_strlit("index");
    reveal_strlit("logprobs");
    reveal_strlit("finish_reason");
    reveal_strlit("delta");
    assert("index"@.len() != "logprobs"@.len());
    assert("index"@.len() != "finish_reason"@.len());
    assert("index"@[0] != "delta"@[0]);
    assert("logprobs"@.len() != "finish_reason"@.len());
    assert("logprobs"@.len() != "delta"@.len());
    assert("finish_reason"@.len() != "delta"@.len());
}

/// The names within a delta differ.
proof fn lemma_delta_keys()
    ensures
        "role"@ != "content"@,
        "role"@ != "refusal"@,
        "role"@ != "function_call"@,
        "role"@ != "tool_calls"@,
        "content"@ != "refusal"@,
        "content"@ != "function_call"@,
        "content"@ != "tool_calls"@,
        "refusal"@ != "function_call"@,
        "refusal"@ != "tool_calls"@,
        "function_call"@ != "tool_calls"@,
{
    reveal_strlit("role");
    reveal_strlit("content");
    reveal_strlit("refusal");
    reveal_strlit("function_call");
    reveal_strlit("tool_calls");
    assert("role"@.len() != "content"@.len());
    assert("role"@.len() != "refusal"@.len());
    assert("role"@.len() != "function_call"@.len());
    assert("role"@.len() != "tool_calls"@.len());
    assert("content"@[0] != "refusal"@[0]);
    assert("content"@.len() != "function_call"@.len());
    assert("content"@.len() != "tool_calls"@.len());
    assert("refusal"@.len() != "function_call"@.len());
    assert("refusal"@.len() != "tool_calls"@.len());
    assert("function_call"@.len() != "tool_calls"@.len());
}

/// The names within a piece of a call differ.
proof fn lemma_call_keys()
    ensures
        "index"@ != "id"@,
        "index"@ != "function"@,
        "index"@ != "type"@,
        "index"@ != "arguments"@,
        "index"@ != "name"@,
        "id"@ != "function"@,
        "id"@ != "type"@,
        "id"@ != "arguments"@,
        "id"@ != "name"@,
        "function"@ != "type"@,
        "function"@ != "arguments"@,
        "function"@ != "name"@,
        "type"@ != "arguments"@,
        "type"@ != "name"@,
        "arguments"@ != "name"@,
{
    reveal_strlit("index");
    reveal_strlit("id");
    reveal_strlit("function");
    reveal_strlit("type");
    reveal_strlit("arguments");
    reveal_strlit("name");
    assert("index"@.len() != "id"@.len());
    assert("index"@.len() != "function"@.len());
    assert("index"@.len() != "type"@.len());
    assert("index"@.len() != "arguments"@.len());
    assert("index"@.len() != "name"@.len());
    assert("id"@.len() != "function"@.len());
    assert("id"@.len() != "type"@.len());
    assert("id"@.len() != "arguments"@.len());
    assert("id"@.len() != "name"@.len());
    assert("function"@.len() != "type"@.len());
    assert("function"@.len() != "arguments"@.len());
    assert("function"@.len() != "name"@.len());
    assert("type"@.len() != "arguments"@.len());
    assert("type"@[0] != "name"@[0]);
    assert("arguments"@.len() != "name"@.len());
}

/// A chunk of one choice that nothing was kept for by the caller's protocol.
spec fn bare(
    chunk: ChatResponseChunkView,
    choice: CompletionDeltaView,
    provider: Seq<char>,
) -> bool {
    &&& chunk.completions == seq![choice]
    &&& merged(Protocol::OpenAiCompat, chunk.ext, provider) == no_fields()
    &&& merged(Protocol::OpenAiCompat, choice.ext, provider) == no_fields()
    &&& merged(Protocol::OpenAiCompat, choice.delta.ext, provider) == no_fields()
}

/// What a chunk of one choice is told as.
#[verifier::rlimit(40)]
proof fn lemma_one_choice(
    chunk: ChatResponseChunkView,
    choice: CompletionDeltaView,
    provider: Seq<char>,
    seen: Seq<(u32, u32)>,
)
    requires
        bare(chunk, choice, provider),
    ensures
        ({
            let (value, after) = rendered_chunk(chunk, provider, seen);
            let made = rendered_stream_choice(choice, 0, provider, seen);
            &&& value.get("choices"@) == Some(JsonView::Array(seq![made.0]))
            &&& after == made.1
            &&& value.get("id"@) == Some(JsonView::String(chunk.id))
            &&& value.get("object"@) == Some(JsonView::String("chat.completion.chunk"@))
            &&& value.get("usage"@) == (match chunk.usage {
                Some(usage) => Some(rendered_usage(usage, provider)),
                None => None,
            })
        }),
{
    broadcast use group_find;

    lemma_chunk_keys();
    let all = seq![choice];
    assert(all.drop_last() =~= Seq::<CompletionDeltaView>::empty());
    assert(all.last() == choice);
    assert(rendered_stream_choices(all.drop_last(), provider, seen) == (
        Seq::<JsonView>::empty(),
        seen,
    ));
    let made = rendered_stream_choice(choice, 0, provider, seen);
    assert(Seq::<JsonView>::empty().push(made.0) =~= seq![made.0]);
}

/// What the one choice of a chunk is told as.
#[verifier::rlimit(40)]
proof fn lemma_told_choice(
    choice: CompletionDeltaView,
    provider: Seq<char>,
    seen: Seq<(u32, u32)>,
)
    requires
        merged(Protocol::OpenAiCompat, choice.ext, provider) == no_fields(),
        merged(Protocol::OpenAiCompat, choice.delta.ext, provider) == no_fields(),
    ensures
        ({
            let (made, after) = rendered_stream_choice(choice, 0, provider, seen);
            let fragments = rendered_fragments(choice.delta.content, 0, seen);
            let delta = made.get("delta"@);
            &&& after == fragments.seen
            &&& made.get("index"@) == counted(0)
            &&& made.get("finish_reason"@) == Some(rendered_delta_reason(choice))
            &&& delta is Some
            &&& delta->0.get("role"@) == (match choice.delta.role {
                Some(role) => Some(
                    JsonView::String(crate::gateway::openai_compat::role_word(role)),
                ),
                None => None,
            })
            &&& delta->0.get("content"@) == (match fragments.text {
                Some(text) => Some(JsonView::String(text)),
                None => None,
            })
            &&& delta->0.get("tool_calls"@) == (if fragments.calls.len() > 0 {
                Some(JsonView::Array(fragments.calls))
            } else {
                None
            })
        }),
{
    broadcast use group_find;

    lemma_choice_keys();
    lemma_delta_keys();
}

/// What one fragment is told as.
proof fn lemma_one_fragment(fragment: ContentDeltaView, seen: Seq<(u32, u32)>)
    ensures
        ({
            let fragments = rendered_fragments(seq![fragment], 0, seen);
            match fragment {
                ContentDeltaView::Text { text } => fragments.text == Some(text)
                    && fragments.calls.len() == 0 && fragments.seen == seen,
                ContentDeltaView::ToolCall { index, id, kind, name, arguments } => {
                    &&& fragments.text is None
                    &&& fragments.calls == seq![
                        call_chunk(rank(seen, 0, index), id, kind, name, arguments),
                    ]
                    &&& fragments.seen == noted(seen, 0, index)
                },
                ContentDeltaView::Reasoning { .. } => fragments.text is None
                    && fragments.calls.len() == 0 && fragments.seen == seen,
                ContentDeltaView::Unknown(_) => fragments.text is None,
            }
        }),
{
    let all = seq![fragment];
    assert(all.drop_last() =~= Seq::<ContentDeltaView>::empty());
    assert(all.last() == fragment);
    let none = rendered_fragments(all.drop_last(), 0, seen);
    assert(none.text is None && none.seen == seen && none.calls == Seq::<JsonView>::empty());
    match fragment {
        ContentDeltaView::ToolCall { index, id, kind, name, arguments } => {
            let call = call_chunk(rank(seen, 0, index), id, kind, name, arguments);
            assert(none.calls.push(call) =~= seq![call]);
        },
        _ => {},
    }
}

/// An event that is no failure is told as the chunk that it stands for.
#[verifier::rlimit(40)]
proof fn lemma_heard(stream: JsonChatStreamView, event: JsonView)
    requires
        running(stream),
        !is_event(event, "error"@),
    ensures
        ({
            let (chunk, state) = ingested_event(event, stream.inner.state);
            match chunk {
                Some(chunk) => {
                    let (value, seen) = rendered_chunk(chunk, stream.provider, stream.seen);
                    &&& chunked(heard(stream, event))
                    &&& heard(stream, event)->0->Ok_0.get("choices"@) == value.get("choices"@)
                    &&& heard(stream, event)->0->Ok_0.get("id"@) == value.get("id"@)
                    &&& heard(stream, event)->0->Ok_0.get("object"@) == value.get("object"@)
                    &&& heard(stream, event)->0->Ok_0.get("usage"@) == value.get("usage"@)
                    &&& heard(stream, event)->0->Ok_0.get("model"@) == Some(
                        JsonView::String(stream.model),
                    )
                    &&& beyond(stream, event).seen == seen
                },
                None => heard(stream, event) is None && beyond(stream, event).seen == stream.seen,
            }
        }),
        running(beyond(stream, event)),
        beyond(stream, event).model == stream.model,
        beyond(stream, event).provider == stream.provider,
        beyond(stream, event).inner.provider == stream.inner.provider,
        beyond(stream, event).inner.state == ingested_event(event, stream.inner.state).1,
{
    broadcast use group_find;

    lemma_chunk_keys();
    lemma_tags();
    assert(kind_of(event) != EventKind::Failure);
}

/// The chunk that an event about a block stands for.
#[verifier::rlimit(40)]
proof fn lemma_fragment(stream: JsonChatStreamView, event: JsonView, fragment: ContentDeltaView)
    requires
        running(stream),
        has_index(event),
        is_event(event, "content_block_delta"@) && event.get("delta"@) is Some && fragment
            == crate::gateway::anthropic::stream::delta_fragment(
            event.get("delta"@)->0,
            tokens(event, "index"@) as u32,
        ) || is_event(event, "content_block_start"@) && event.get("content_block"@) is Some
            && fragment == crate::gateway::anthropic::stream::block_fragment(
            event.get("content_block"@)->0,
            tokens(event, "index"@) as u32,
        ),
    ensures
        ({
            let (chunk, state) = ingested_event(event, stream.inner.state);
            let fragments = rendered_fragments(seq![fragment], 0, stream.seen);
            let given = heard(stream, event);
            let delta = added_by(given);
            &&& state == stream.inner.state
            &&& chunk is Some
            &&& chunk->0.completions.len() == 1
            &&& chunk->0.completions[0].delta.content == seq![fragment]
            &&& chunked(given)
            &&& choices_in(given).len() == 1
            &&& choices_in(given)[0].get("index"@) == counted(0)
            &&& choices_in(given)[0].get("finish_reason"@) == Some(JsonView::Null)
            &&& choices_in(given)[0].get("delta"@) is Some
            &&& delta.get("role"@) is None
            &&& delta.get("content"@) == (match fragments.text {
                Some(text) => Some(JsonView::String(text)),
                None => None,
            })
            &&& delta.get("tool_calls"@) == (if fragments.calls.len() > 0 {
                Some(JsonView::Array(fragments.calls))
            } else {
                None
            })
            &&& given->0->Ok_0.get("id"@) == Some(JsonView::String(stream.inner.state.id))
            &&& given->0->Ok_0.get("usage"@) is None
            &&& running(beyond(stream, event))
            &&& beyond(stream, event) == JsonChatStreamView { seen: fragments.seen, ..stream }
        }),
{
    lemma_tags();
    lemma_heard(stream, event);
    let kept = crate::json::without(event.fields(), "type"@);
    law_another_protocol_reads_nothing(
        Protocol::OpenAiCompat,
        Protocol::Anthropic,
        kept,
        stream.provider,
    );
    law_another_protocol_reads_nothing(
        Protocol::OpenAiCompat,
        Protocol::Anthropic,
        no_fields(),
        stream.provider,
    );
    let chunk = crate::gateway::anthropic::stream::fragment_chunk(
        stream.inner.state,
        fragment,
        kept,
    );
    assert(ingested_event(event, stream.inner.state) == (Some(chunk), stream.inner.state));
    let choice = chunk.completions[0];
    assert(chunk.completions =~= seq![choice]);
    assert(bare(chunk, choice, stream.provider));
    lemma_one_choice(chunk, choice, stream.provider, stream.seen);
    lemma_told_choice(choice, stream.provider, stream.seen);
    assert(beyond(stream, event) =~= JsonChatStreamView {
        seen: rendered_fragments(seq![fragment], 0, stream.seen).seen,
        ..stream
    });
}

/// The types of deltas differ.
proof fn lemma_delta_words()
    ensures
        "text_delta"@ != "thinking_delta"@,
        "text_delta"@ != "input_json_delta"@,
        "text_delta"@ != "signature_delta"@,
        "thinking_delta"@ != "input_json_delta"@,
        "thinking_delta"@ != "signature_delta"@,
        "input_json_delta"@ != "signature_delta"@,
{
    reveal_strlit("text_delta");
    reveal_strlit("thinking_delta");
    reveal_strlit("input_json_delta");
    reveal_strlit("signature_delta");
    assert("text_delta"@.len() != "thinking_delta"@.len());
    assert("text_delta"@.len() != "input_json_delta"@.len());
    assert("text_delta"@.len() != "signature_delta"@.len());
    assert("thinking_delta"@.len() != "input_json_delta"@.len());
    assert("thinking_delta"@.len() != "signature_delta"@.len());
    assert("input_json_delta"@.len() != "signature_delta"@.len());
}

/// The types of blocks differ.
proof fn lemma_block_words()
    ensures
        "text"@ != "tool_use"@,
        "text"@ != "thinking"@,
        "tool_use"@ != "thinking"@,
{
    reveal_strlit("text");
    reveal_strlit("tool_use");
    reveal_strlit("thinking");
    assert("text"@.len() != "tool_use"@.len());
    assert("text"@.len() != "thinking"@.len());
    assert("tool_use"@[1] != "thinking"@[1]);
}

/// Every text that is added to a block is told, whatever the text: one chunk, whose
/// one choice adds that very text and nothing else. The stream goes on as it was.
pub proof fn law_every_text_is_streamed(
    stream: JsonChatStreamView,
    event: JsonView,
    text: Seq<char>,
)
    requires
        running(stream),
        is_event(event, "content_block_delta"@),
        has_index(event),
        event.get("delta"@) is Some,
        event.get("delta"@)->0.get("type"@) == Some(JsonView::String("text_delta"@)),
        event.get("delta"@)->0.get("text"@) == Some(JsonView::String(text)),
    ensures
        ({
            let common = ingested_event(event, stream.inner.state).0;
            &&& common is Some
            &&& common->0.completions.len() == 1
            &&& common->0.completions[0].delta.content == seq![ContentDeltaView::Text { text }]
        }),
        chunked(heard(stream, event)),
        choices_in(heard(stream, event)).len() == 1,
        added_by(heard(stream, event)).get("content"@) == Some(JsonView::String(text)),
        added_by(heard(stream, event)).get("tool_calls"@) is None,
        choices_in(heard(stream, event))[0].get("finish_reason"@) == Some(JsonView::Null),
        beyond(stream, event) == stream,
{
    lemma_delta_words();
    let fragment = ContentDeltaView::Text { text };
    lemma_one_fragment(fragment, stream.seen);
    lemma_fragment(stream, event, fragment);
}

/// A block of text that starts is told with the text it starts with.
pub proof fn law_a_text_that_starts_is_streamed(
    stream: JsonChatStreamView,
    event: JsonView,
    text: Seq<char>,
)
    requires
        running(stream),
        is_event(event, "content_block_start"@),
        has_index(event),
        event.get("content_block"@) is Some,
        event.get("content_block"@)->0.get("type"@) == Some(JsonView::String("text"@)),
        event.get("content_block"@)->0.get("text"@) == Some(JsonView::String(text)),
    ensures
        chunked(heard(stream, event)),
        choices_in(heard(stream, event)).len() == 1,
        added_by(heard(stream, event)).get("content"@) == Some(JsonView::String(text)),
        added_by(heard(stream, event)).get("tool_calls"@) is None,
        choices_in(heard(stream, event))[0].get("finish_reason"@) == Some(JsonView::Null),
        beyond(stream, event) == stream,
{
    lemma_block_words();
    let fragment = ContentDeltaView::Text { text };
    lemma_one_fragment(fragment, stream.seen);
    lemma_fragment(stream, event, fragment);
}

/// What the model thinks is not told as text, nor as a call; it is kept apart as
/// reasoning.
pub proof fn law_thinking_is_not_streamed_as_text(
    stream: JsonChatStreamView,
    event: JsonView,
    text: Seq<char>,
)
    requires
        running(stream),
        is_event(event, "content_block_delta"@),
        has_index(event),
        event.get("delta"@) is Some,
        event.get("delta"@)->0.get("type"@) == Some(JsonView::String("thinking_delta"@)),
        event.get("delta"@)->0.get("thinking"@) == Some(JsonView::String(text)),
    ensures
        ({
            let common = ingested_event(event, stream.inner.state).0;
            &&& common is Some
            &&& common->0.completions.len() == 1
            &&& common->0.completions[0].delta.content == seq![
                ContentDeltaView::Reasoning { text, provenance: Some("anthropic"@) },
            ]
        }),
        chunked(heard(stream, event)),
        choices_in(heard(stream, event)).len() == 1,
        added_by(heard(stream, event)).get("content"@) is None,
        added_by(heard(stream, event)).get("tool_calls"@) is None,
        beyond(stream, event) == stream,
{
    lemma_delta_words();
    let fragment = ContentDeltaView::Reasoning { text, provenance: Some("anthropic"@) };
    lemma_one_fragment(fragment, stream.seen);
    lemma_fragment(stream, event, fragment);
}

/// The start of a call to a tool: under this index, with this id and name.
pub open spec fn starts_call(
    event: JsonView,
    index: u32,
    id: Seq<char>,
    name: Seq<char>,
) -> bool {
    let block = event.get("content_block"@);
    &&& is_event(event, "content_block_start"@)
    &&& event.get("index"@) == counted(index as int)
    &&& block is Some
    &&& block->0.get("type"@) == Some(JsonView::String("tool_use"@))
    &&& block->0.get("id"@) == Some(JsonView::String(id))
    &&& block->0.get("name"@) == Some(JsonView::String(name))
}

/// A piece of the arguments of a call.
pub open spec fn adds_arguments(event: JsonView, index: u32, json: Seq<char>) -> bool {
    let delta = event.get("delta"@);
    &&& is_event(event, "content_block_delta"@)
    &&& event.get("index"@) == counted(index as int)
    &&& delta is Some
    &&& delta->0.get("type"@) == Some(JsonView::String("input_json_delta"@))
    &&& delta->0.get("partial_json"@) == Some(JsonView::String(json))
}

/// The one piece of a call in a chunk.
pub open spec fn piece_in(given: Option<Result<JsonView, ErrorView>>) -> JsonView {
    added_by(given).get("tool_calls"@)->0->Array_0[0]
}

/// A chunk of one piece of a call and nothing else.
pub open spec fn one_piece(given: Option<Result<JsonView, ErrorView>>) -> bool {
    let calls = added_by(given).get("tool_calls"@);
    &&& chunked(given)
    &&& choices_in(given).len() == 1
    &&& added_by(given).get("content"@) is None
    &&& calls is Some
    &&& calls->0 is Array
    &&& calls->0->Array_0.len() == 1
    &&& choices_in(given)[0].get("finish_reason"@) == Some(JsonView::Null)
}

proof fn lemma_piece(
    position: nat,
    id: Option<Seq<char>>,
    kind: Option<Seq<char>>,
    name: Option<Seq<char>>,
    arguments: Option<Seq<char>>,
)
    requires
        kind is None || kind == Some("tool_use"@),
    ensures
        ({
            let piece = call_chunk(position, id, kind, name, arguments);
            let function = piece.get("function"@);
            &&& piece.get("index"@) == Some(
                JsonView::Number(NumberView::Unsigned(position as u64)),
            )
            &&& piece.get("id"@) == (match id {
                Some(id) => Some(JsonView::String(id)),
                None => None,
            })
            &&& piece.get("type"@) == (match kind {
                Some(_) => Some(JsonView::String("function"@)),
                None => None,
            })
            &&& function is Some
            &&& function->0.get("name"@) == (match name {
                Some(name) => Some(JsonView::String(name)),
                None => None,
            })
            &&& function->0.get("arguments"@) == (match arguments {
                Some(arguments) => Some(JsonView::String(arguments)),
                None => None,
            })
        }),
{
    broadcast use group_find;

    lemma_call_keys();
}

/// A call to a tool that starts is told as a call of the function of that name,
/// under its id.
pub proof fn law_a_call_that_starts_is_streamed(
    stream: JsonChatStreamView,
    event: JsonView,
    index: u32,
    id: Seq<char>,
    name: Seq<char>,
)
    requires
        running(stream),
        starts_call(event, index, id, name),
    ensures
        one_piece(heard(stream, event)),
        piece_in(heard(stream, event)).get("id"@) == Some(JsonView::String(id)),
        piece_in(heard(stream, event)).get("type"@) == Some(JsonView::String("function"@)),
        piece_in(heard(stream, event)).get("function"@) is Some,
        piece_in(heard(stream, event)).get("function"@)->0.get("name"@) == Some(
            JsonView::String(name),
        ),
        piece_in(heard(stream, event)).get("function"@)->0.get("arguments"@) is None,
        piece_in(heard(stream, event)).get("index"@) == counted(
            rank(stream.seen, 0, index) as int,
        ),
        beyond(stream, event) == (JsonChatStreamView {
            seen: noted(stream.seen, 0, index),
            ..stream
        }),
{
    lemma_block_words();
    let fragment = ContentDeltaView::ToolCall {
        index,
        id: Some(id),
        kind: Some("tool_use"@),
        name: Some(name),
        arguments: None,
    };
    lemma_one_fragment(fragment, stream.seen);
    lemma_fragment(stream, event, fragment);
    lemma_piece(
        rank(stream.seen, 0, index),
        Some(id),
        Some("tool_use"@),
        Some(name),
        None,
    );
}

/// A piece of the arguments of a call is told as it is, and names no call anew.
pub proof fn law_arguments_are_streamed(
    stream: JsonChatStreamView,
    event: JsonView,
    index: u32,
    json: Seq<char>,
)
    requires
        running(stream),
        adds_arguments(event, index, json),
    ensures
        one_piece(heard(stream, event)),
        piece_in(heard(stream, event)).get("id"@) is None,
        piece_in(heard(stream, event)).get("type"@) is None,
        piece_in(heard(stream, event)).get("function"@) is Some,
        piece_in(heard(stream, event)).get("function"@)->0.get("name"@) is None,
        piece_in(heard(stream, event)).get("function"@)->0.get("arguments"@) == Some(
            JsonView::String(json),
        ),
        piece_in(heard(stream, event)).get("index"@) == counted(
            rank(stream.seen, 0, index) as int,
        ),
        beyond(stream, event) == (JsonChatStreamView {
            seen: noted(stream.seen, 0, index),
            ..stream
        }),
{
    lemma_delta_words();
    let fragment = ContentDeltaView::ToolCall {
        index,
        id: None,
        kind: None,
        name: None,
        arguments: Some(json),
    };
    lemma_one_fragment(fragment, stream.seen);
    lemma_fragment(stream, event, fragment);
    lemma_piece(rank(stream.seen, 0, index), None, None, None, Some(json));
}

/// The arguments of a call are told under the number that the call was told under,
/// though another call starts between them, and that one is told under another
/// number.
#[verifier::rlimit(40)]
pub proof fn law_arguments_go_to_their_call(
    stream: JsonChatStreamView,
    start: JsonView,
    between: JsonView,
    event: JsonView,
    index: u32,
    id: Seq<char>,
    name: Seq<char>,
    other: u32,
    other_id: Seq<char>,
    other_name: Seq<char>,
    json: Seq<char>,
)
    requires
        running(stream),
        starts_call(start, index, id, name),
        starts_call(between, other, other_id, other_name),
        adds_arguments(event, index, json),
        index != other,
        stream.seen.len() < u32::MAX,
    ensures
        ({
            let started = beyond(stream, start);
            let later = beyond(started, between);
            let number = piece_in(heard(stream, start)).get("index"@);
            &&& piece_in(heard(started, event)).get("index"@) == number
            &&& piece_in(heard(later, event)).get("index"@) == number
            &&& piece_in(heard(started, between)).get("index"@) != number
        }),
{
    let started = beyond(stream, start);
    let later = beyond(started, between);
    law_a_call_that_starts_is_streamed(stream, start, index, id, name);
    law_a_call_that_starts_is_streamed(started, between, other, other_id, other_name);
    law_arguments_are_streamed(started, event, index, json);
    law_arguments_are_streamed(later, event, index, json);
    lemma_rank_noted(stream.seen, index);
    lemma_rank_noted(started.seen, index);
    lemma_rank_noted(started.seen, other);
    lemma_noted_keeps(started.seen, index, other);
    lemma_rank_bound(stream.seen, index);
    lemma_rank_bound(started.seen, other);
    crate::gateway::openai_compat::ordinals::law_no_two_calls_share_a_position(
        later.seen,
        0,
        index,
        other,
    );
}

proof fn lemma_rank_bound(seen: Seq<(u32, u32)>, key: u32)
    ensures
        rank(seen, 0, key) <= seen.len(),
    decreases seen.len(),
{
    if seen.len() > 0 && seen[0] != (0u32, key) {
        lemma_rank_bound(seen.drop_first(), key);
    }
}

proof fn lemma_rank_noted(seen: Seq<(u32, u32)>, key: u32)
    ensures
        noted(seen, 0, key).contains((0u32, key)),
        rank(noted(seen, 0, key), 0, key) == rank(seen, 0, key),
        noted(seen, 0, key).len() <= seen.len() + 1,
    decreases seen.len(),
{
    if !seen.contains((0u32, key)) {
        let after = seen.push((0u32, key));
        assert(after.last() == (0u32, key));
        lemma_rank_push(seen, key);
    }
}

proof fn lemma_rank_push(seen: Seq<(u32, u32)>, key: u32)
    ensures
        rank(seen.push((0u32, key)), 0, key) == rank(seen, 0, key),
    decreases seen.len(),
{
    let after = seen.push((0u32, key));
    if seen.len() > 0 {
        assert(after[0] == seen[0]);
        assert(after.drop_first() =~= seen.drop_first().push((0u32, key)));
        lemma_rank_push(seen.drop_first(), key);
    } else {
        assert(after[0] == (0u32, key));
    }
}

proof fn lemma_noted_keeps(seen: Seq<(u32, u32)>, key: u32, other: u32)
    requires
        seen.contains((0u32, key)),
    ensures
        noted(seen, 0, other).contains((0u32, key)),
        rank(noted(seen, 0, other), 0, key) == rank(seen, 0, key),
{
    if !seen.contains((0u32, other)) {
        let i = choose|i: int| 0 <= i < seen.len() && seen[i] == (0u32, key);
        let after = seen.push((0u32, other));
        assert(after[i] == (0u32, key));
        assert(after =~= seen + seq![(0u32, other)]);
        crate::gateway::openai_compat::ordinals::law_a_position_is_kept(
            seen,
            seq![(0u32, other)],
            0,
            key,
        );
    }
}

/// The start of a message is told as the assistant's; from then on every chunk
/// bears the message's id.
#[verifier::rlimit(40)]
pub proof fn law_the_start_is_streamed(
    stream: JsonChatStreamView,
    event: JsonView,
    message: JsonView,
    content: Seq<JsonView>,
)
    requires
        running(stream),
        is_event(event, "message_start"@),
        event.get("message"@) == Some(message),
        whole_message(message, content),
    ensures
        ({
            let given = heard(stream, event);
            let after = beyond(stream, event);
            &&& chunked(given)
            &&& choices_in(given).len() == 1
            &&& added_by(given).get("role"@) == Some(JsonView::String("assistant"@))
            &&& added_by(given).get("content"@) is None
            &&& added_by(given).get("tool_calls"@) is None
            &&& choices_in(given)[0].get("finish_reason"@) == Some(JsonView::Null)
            &&& given->0->Ok_0.get("id"@) == message.get("id"@)
            &&& given->0->Ok_0.get("object"@) == Some(JsonView::String("chat.completion.chunk"@))
            &&& given->0->Ok_0.get("model"@) == Some(JsonView::String(stream.model))
            &&& running(after)
            &&& message.get("id"@) == Some(JsonView::String(after.inner.state.id))
            &&& after.seen == stream.seen
            &&& after.provider == stream.provider
            &&& after.model == stream.model
            &&& after.inner.state.report_usage == stream.inner.state.report_usage
            &&& after.inner.state.totals == stream.inner.state.totals
        }),
{
    lemma_tags();
    lemma_heard(stream, event);
    lemma_message(message, content);
    reveal_strlit("assistant");
    reveal_strlit("user");
    assert("assistant"@.len() != "user"@.len());
    let provider = stream.provider;
    let chunk = crate::gateway::anthropic::stream::start_chunk(event, stream.inner.state);
    assert(kind_of(event) == EventKind::MessageStart);
    assert(ingested_event(event, stream.inner.state).0 == Some(chunk));
    let choice = chunk.completions[0];
    assert(chunk.completions =~= seq![choice]);
    law_another_protocol_reads_nothing(
        Protocol::OpenAiCompat,
        Protocol::Anthropic,
        crate::json::without(event.fields(), "type"@),
        provider,
    );
    law_another_protocol_reads_nothing(
        Protocol::OpenAiCompat,
        Protocol::Anthropic,
        no_fields(),
        provider,
    );
    law_another_protocol_reads_nothing(
        Protocol::OpenAiCompat,
        Protocol::Anthropic,
        crate::json::assigned(
            no_fields(),
            "role"@,
            crate::json::opt_string(crate::gateway::anthropic::response::strange_role(message)),
        ),
        provider,
    );
    assert(bare(chunk, choice, provider));
    lemma_one_choice(chunk, choice, provider, stream.seen);
    lemma_told_choice(choice, provider, stream.seen);
    assert(choice.delta.content =~= Seq::<ContentDeltaView>::empty());
    assert(rendered_fragments(choice.delta.content, 0, stream.seen).calls.len() == 0);
}

proof fn lemma_message(message: JsonView, content: Seq<JsonView>)
    requires
        whole_message(message, content),
    ensures
        crate::gateway::anthropic::wire::message_shape(message),
{
    assert(crate::gateway::anthropic::wire::usage_shape(message.get("usage"@)->0));
}

/// An event that ends a message, with token counts.
pub open spec fn ends_message(event: JsonView) -> bool {
    let delta = event.get("delta"@);
    let usage = event.get("usage"@);
    &&& is_event(event, "message_delta"@)
    &&& delta is Some
    &&& delta->0 is Object
    &&& text_if_any(delta->0, "stop_reason"@)
    &&& text_if_any(delta->0, "stop_sequence"@)
    &&& usage is Some
    &&& usage->0 is Object
    &&& count_if_any(usage->0, "output_tokens"@) && !not_said(usage->0, "output_tokens"@)
    &&& count_if_any(usage->0, "input_tokens"@)
    &&& count_if_any(usage->0, "cache_creation_input_tokens"@)
    &&& count_if_any(usage->0, "cache_read_input_tokens"@)
}

#[verifier::rlimit(40)]
proof fn lemma_end(stream: JsonChatStreamView, event: JsonView)
    requires
        running(stream),
        ends_message(event),
    ensures
        ({
            let given = heard(stream, event);
            let state = stream.inner.state;
            let raw = event.get("delta"@)->0.str_at("stop_reason"@);
            &&& chunked(given)
            &&& choices_in(given).len() == 1
            &&& choices_in(given)[0].get("delta"@) is Some
            &&& added_by(given).get("content"@) is None
            &&& added_by(given).get("tool_calls"@) is None
            &&& given->0->Ok_0.get("usage"@) is None
            &&& choices_in(given)[0].get("finish_reason"@) == Some(match raw {
                Some(raw) => JsonView::String(
                    crate::gateway::openai_compat::response::rendered_reason(
                        raw,
                        crate::gateway::anthropic::response::reason_for(Some(raw)),
                    ),
                ),
                None => JsonView::Null,
            })
            &&& running(beyond(stream, event))
            &&& beyond(stream, event).provider == stream.provider
            &&& beyond(stream, event).inner.state == crate::gateway::anthropic::stream::ended(
                event,
                state,
            )
        }),
{
    lemma_tags();
    lemma_heard(stream, event);
    let provider = stream.provider;
    let delta = event.get("delta"@)->0;
    assert(crate::gateway::anthropic::stream::ending_shape(delta));
    assert(crate::gateway::anthropic::stream::delta_usage_shape(event.get("usage"@)->0));
    assert(kind_of(event) == EventKind::MessageDelta);
    let chunk = crate::gateway::anthropic::stream::end_chunk(event, stream.inner.state);
    assert(ingested_event(event, stream.inner.state).0 == Some(chunk));
    let choice = chunk.completions[0];
    assert(chunk.completions =~= seq![choice]);
    law_another_protocol_reads_nothing(
        Protocol::OpenAiCompat,
        Protocol::Anthropic,
        crate::json::without(crate::json::without(event.fields(), "type"@), "delta"@),
        provider,
    );
    law_another_protocol_reads_nothing(
        Protocol::OpenAiCompat,
        Protocol::Anthropic,
        no_fields(),
        provider,
    );
    law_another_protocol_reads_nothing(
        Protocol::OpenAiCompat,
        Protocol::Anthropic,
        crate::gateway::anthropic::stream::ending_residue(delta),
        provider,
    );
    assert(bare(chunk, choice, provider));
    lemma_one_choice(chunk, choice, provider, stream.seen);
    lemma_told_choice(choice, provider, stream.seen);
    assert(choice.delta.content =~= Seq::<ContentDeltaView>::empty());
    assert(rendered_fragments(choice.delta.content, 0, stream.seen).calls.len() == 0);
}

/// The words for why a message stops differ.
proof fn lemma_stop_words()
    ensures
        "end_turn"@ != "stop_sequence"@,
        "end_turn"@ != "max_tokens"@,
        "end_turn"@ != "model_context_window_exceeded"@,
        "end_turn"@ != "tool_use"@,
        "end_turn"@ != "refusal"@,
        "stop_sequence"@ != "max_tokens"@,
        "stop_sequence"@ != "model_context_window_exceeded"@,
        "stop_sequence"@ != "tool_use"@,
        "stop_sequence"@ != "refusal"@,
        "max_tokens"@ != "model_context_window_exceeded"@,
        "max_tokens"@ != "tool_use"@,
        "max_tokens"@ != "refusal"@,
        "model_context_window_exceeded"@ != "tool_use"@,
        "model_context_window_exceeded"@ != "refusal"@,
        "tool_use"@ != "refusal"@,
{
    reveal_strlit("end_turn");
    reveal_strlit("stop_sequence");
    reveal_strlit("max_tokens");
    reveal_strlit("model_context_window_exceeded");
    reveal_strlit("tool_use");
    reveal_strlit("refusal");
    assert("end_turn"@.len() != "stop_sequence"@.len());
    assert("end_turn"@.len() != "max_tokens"@.len());
    assert("end_turn"@.len() != "model_context_window_exceeded"@.len());
    assert("end_turn"@[0] != "tool_use"@[0]);
    assert("end_turn"@.len() != "refusal"@.len());
    assert("stop_sequence"@.len() != "max_tokens"@.len());
    assert("stop_sequence"@.len() != "model_context_window_exceeded"@.len());
    assert("stop_sequence"@.len() != "tool_use"@.len());
    assert("stop_sequence"@.len() != "refusal"@.len());
    assert("max_tokens"@.len() != "model_context_window_exceeded"@.len());
    assert("max_tokens"@.len() != "tool_use"@.len());
    assert("max_tokens"@.len() != "refusal"@.len());
    assert("model_context_window_exceeded"@.len() != "tool_use"@.len());
    assert("model_context_window_exceeded"@.len() != "refusal"@.len());
    assert("tool_use"@.len() != "refusal"@.len());
}

/// Why a stream ended is told in the caller's words, as it is of a whole reply; while
/// it goes on there is no reason.
pub proof fn law_why_a_stream_ended_is_told(
    stream: JsonChatStreamView,
    event: JsonView,
    word: Seq<char>,
)
    requires
        running(stream),
        ends_message(event),
    ensures
        ({
            let given = heard(stream, event);
            let reason = choices_in(given)[0].get("finish_reason"@);
            let asked = event.get("delta"@)->0.get("stop_reason"@);
            &&& chunked(given)
            &&& choices_in(given).len() == 1
            &&& added_by(given).get("content"@) is None
            &&& added_by(given).get("tool_calls"@) is None
            &&& given->0->Ok_0.get("usage"@) is None
            &&& not_said(event.get("delta"@)->0, "stop_reason"@) ==> reason == Some(JsonView::Null)
            &&& asked == Some(JsonView::String("end_turn"@)) || asked == Some(
                JsonView::String("stop_sequence"@),
            ) ==> reason == Some(JsonView::String("stop"@))
            &&& asked == Some(JsonView::String("max_tokens"@)) || asked == Some(
                JsonView::String("model_context_window_exceeded"@),
            ) ==> reason == Some(JsonView::String("length"@))
            &&& asked == Some(JsonView::String("tool_use"@)) ==> reason == Some(
                JsonView::String("tool_calls"@),
            )
            &&& asked == Some(JsonView::String("refusal"@)) ==> reason == Some(
                JsonView::String("content_filter"@),
            )
            &&& asked == Some(JsonView::String(word)) && word != "end_turn"@ && word
                != "stop_sequence"@ && word != "max_tokens"@ && word
                != "model_context_window_exceeded"@ && word != "tool_use"@ && word != "refusal"@
                ==> reason == Some(JsonView::String(word))
        }),
{
    lemma_stop_words();
    lemma_end(stream, event);
}

/// The count an event gives, else the one that the stream started with.
pub open spec fn last_told(event: JsonView, message: JsonView, key: Seq<char>) -> int {
    if not_said(event.get("usage"@)->0, key) {
        tokens(message.get("usage"@)->0, key)
    } else {
        tokens(event.get("usage"@)->0, key)
    }
}

/// A caller who asks for token counts is told them once, when the stream stops, in a
/// chunk of no choice: the prompt with its cached tokens, which the start of the
/// message tells unless its end does again; the reply; and both together. A caller
/// who does not ask is not told, and then the stop is silent.
#[verifier::rlimit(40)]
#[verifier::spinoff_prover]
pub proof fn law_token_counts_end_a_stream(
    stream: JsonChatStreamView,
    start: JsonView,
    message: JsonView,
    content: Seq<JsonView>,
    end: JsonView,
    stop: JsonView,
)
    requires
        running(stream),
        stream.inner.state.totals is None,
        is_event(start, "message_start"@),
        start.get("message"@) == Some(message),
        whole_message(message, content),
        ends_message(end),
        is_event(stop, "message_stop"@),
        last_told(end, message, "input_tokens"@) + last_told(
            end,
            message,
            "cache_read_input_tokens"@,
        ) + last_told(end, message, "cache_creation_input_tokens"@) + tokens(
            end.get("usage"@)->0,
            "output_tokens"@,
        ) <= u32::MAX,
    ensures
        ({
            let after = beyond(beyond(stream, start), end);
            let given = heard(after, stop);
            let input = last_told(end, message, "input_tokens"@);
            let read = last_told(end, message, "cache_read_input_tokens"@);
            let written = last_told(end, message, "cache_creation_input_tokens"@);
            let output = tokens(end.get("usage"@)->0, "output_tokens"@);
            let usage = given->0->Ok_0.get("usage"@);
            &&& !stream.inner.state.report_usage ==> given is None
            &&& stream.inner.state.report_usage ==> {
                &&& chunked(given)
                &&& given->0->Ok_0.get("choices"@) == Some(JsonView::Array(Seq::empty()))
                &&& usage is Some
                &&& usage->0.get("prompt_tokens"@) == counted(input + read + written)
                &&& usage->0.get("completion_tokens"@) == counted(output)
                &&& usage->0.get("total_tokens"@) == counted(input + read + written + output)
            }
            &&& heard(beyond(after, stop), stop) is None
        }),
{
    lemma_tags();
    let started = beyond(stream, start);
    law_the_start_is_streamed(stream, start, message, content);
    lemma_heard(stream, start);
    lemma_message(message, content);
    assert(kind_of(start) == EventKind::MessageStart);
    assert(started.inner.state == crate::gateway::anthropic::stream::started(
        message,
        stream.inner.state,
    ));
    lemma_end(started, end);
    let after = beyond(started, end);
    lemma_heard(after, stop);
    assert(kind_of(stop) == EventKind::MessageStop);
    lemma_heard(beyond(after, stop), stop);
    lemma_held(stream.inner.state, message, content, end);
    if stream.inner.state.report_usage {
        let totals = after.inner.state.totals->0;
        let chunk = ingested_event(stop, after.inner.state).0->0;
        lemma_no_choice(chunk, after.provider, after.seen);
        lemma_totals(totals, after.provider);
    }
}

/// The token counts that are held once a message has ended.
proof fn lemma_held(
    state: crate::gateway::anthropic::stream::StreamStateView,
    message: JsonView,
    content: Seq<JsonView>,
    end: JsonView,
)
    requires
        whole_message(message, content),
        ends_message(end),
        last_told(end, message, "input_tokens"@) + last_told(
            end,
            message,
            "cache_read_input_tokens"@,
        ) + last_told(end, message, "cache_creation_input_tokens"@) + tokens(
            end.get("usage"@)->0,
            "output_tokens"@,
        ) <= u32::MAX,
    ensures
        ({
            let started = crate::gateway::anthropic::stream::started(message, state);
            let held = crate::gateway::anthropic::stream::ended(end, started);
            let input = last_told(end, message, "input_tokens"@) + last_told(
                end,
                message,
                "cache_read_input_tokens"@,
            ) + last_told(end, message, "cache_creation_input_tokens"@);
            let output = tokens(end.get("usage"@)->0, "output_tokens"@);
            &&& held.report_usage == state.report_usage
            &&& !state.report_usage ==> held.totals == state.totals
            &&& state.report_usage ==> {
                &&& held.totals is Some
                &&& held.totals->0.input_tokens == Some(input as u64)
                &&& held.totals->0.output_tokens == Some(output as u64)
                &&& held.totals->0.total_tokens == Some((input + output) as u64)
            }
        }),
{
}

proof fn lemma_no_choice(
    chunk: ChatResponseChunkView,
    provider: Seq<char>,
    seen: Seq<(u32, u32)>,
)
    requires
        chunk.completions.len() == 0,
        chunk.ext == no_fields(),
        chunk.usage is Some,
    ensures
        ({
            let value = rendered_chunk(chunk, provider, seen).0;
            &&& value.get("choices"@) == Some(JsonView::Array(Seq::empty()))
            &&& value.get("usage"@) == Some(rendered_usage(chunk.usage->0, provider))
        }),
{
    broadcast use group_find;

    lemma_chunk_keys();
    law_another_protocol_reads_nothing(
        Protocol::OpenAiCompat,
        Protocol::Anthropic,
        no_fields(),
        provider,
    );
    assert(chunk.ext == crate::gateway::ext::kept_under(Protocol::Anthropic, no_fields()));
}

/// The names within token counts differ.
proof fn lemma_usage_keys()
    ensures
        "prompt_tokens"@ != "completion_tokens"@,
        "prompt_tokens"@ != "total_tokens"@,
        "prompt_tokens"@ != "prompt_tokens_details"@,
        "prompt_tokens"@ != "completion_tokens_details"@,
        "completion_tokens"@ != "total_tokens"@,
        "completion_tokens"@ != "prompt_tokens_details"@,
        "completion_tokens"@ != "completion_tokens_details"@,
        "total_tokens"@ != "prompt_tokens_details"@,
        "total_tokens"@ != "completion_tokens_details"@,
        "prompt_tokens_details"@ != "completion_tokens_details"@,
{
    reveal_strlit("prompt_tokens");
    reveal_strlit("completion_tokens");
    reveal_strlit("total_tokens");
    reveal_strlit("prompt_tokens_details");
    reveal_strlit("completion_tokens_details");
    assert("prompt_tokens"@.len() != "completion_tokens"@.len());
    assert("prompt_tokens"@.len() != "total_tokens"@.len());
    assert("prompt_tokens"@.len() != "prompt_tokens_details"@.len());
    assert("prompt_tokens"@.len() != "completion_tokens_details"@.len());
    assert("completion_tokens"@.len() != "total_tokens"@.len());
    assert("completion_tokens"@.len() != "prompt_tokens_details"@.len());
    assert("completion_tokens"@.len() != "completion_tokens_details"@.len());
    assert("total_tokens"@.len() != "prompt_tokens_details"@.len());
    assert("total_tokens"@.len() != "completion_tokens_details"@.len());
    assert("prompt_tokens_details"@.len() != "completion_tokens_details"@.len());
}

proof fn lemma_totals(usage: crate::gateway::types::response::UsageView, provider: Seq<char>)
    requires
        usage.input_tokens is Some,
        usage.output_tokens is Some,
        usage.total_tokens is Some,
        usage.input_tokens->0 <= u32::MAX,
        usage.output_tokens->0 <= u32::MAX,
        usage.total_tokens->0 <= u32::MAX,
    ensures
        ({
            let value = rendered_usage(usage, provider);
            &&& value.get("prompt_tokens"@) == counted(usage.input_tokens->0 as int)
            &&& value.get("completion_tokens"@) == counted(usage.output_tokens->0 as int)
            &&& value.get("total_tokens"@) == counted(usage.total_tokens->0 as int)
        }),
{
    broadcast use group_find;

    lemma_usage_keys();
}

/// A sign of life and the end of a block are told as nothing, and change nothing.
pub proof fn law_signs_of_life_are_not_streamed(stream: JsonChatStreamView, event: JsonView)
    requires
        running(stream),
        is_event(event, "ping"@) || is_event(event, "content_block_stop"@),
    ensures
        heard(stream, event) is None,
        beyond(stream, event) == stream,
{
    lemma_tags();
    lemma_heard(stream, event);
    assert(kind_of(event) == EventKind::Silent);
    assert(beyond(stream, event) =~= stream);
}

/// The text that an event carries; none where it carries none.
pub open spec fn text_carried(event: JsonView) -> Seq<char> {
    let delta = event.get("delta"@);
    let block = event.get("content_block"@);
    if is_event(event, "content_block_delta"@) && has_index(event) && delta is Some
        && delta->0.get("type"@) == Some(JsonView::String("text_delta"@)) {
        match delta->0.get("text"@) {
            Some(JsonView::String(text)) => text,
            _ => Seq::empty(),
        }
    } else if is_event(event, "content_block_start"@) && has_index(event) && block is Some
        && block->0.get("type"@) == Some(JsonView::String("text"@)) {
        match block->0.get("text"@) {
            Some(JsonView::String(text)) => text,
            _ => Seq::empty(),
        }
    } else {
        Seq::empty()
    }
}

/// The text that the caller is told.
pub open spec fn text_told(given: Option<Result<JsonView, ErrorView>>) -> Seq<char> {
    match given {
        Some(Ok(chunk)) => if choices_in(given).len() == 0 {
            Seq::empty()
        } else {
            match added_by(given).get("content"@) {
                Some(JsonView::String(text)) => text,
                _ => Seq::empty(),
            }
        },
        _ => Seq::empty(),
    }
}

/// The text that events carry, in a row.
pub open spec fn all_carried(events: Seq<JsonView>) -> Seq<char>
    decreases events.len(),
{
    if events.len() == 0 {
        Seq::empty()
    } else {
        text_carried(events[0]) + all_carried(events.drop_first())
    }
}

/// The text that the caller is told for events, in a row.
pub open spec fn all_told(stream: JsonChatStreamView, events: Seq<JsonView>) -> Seq<char>
    decreases events.len(),
{
    if events.len() == 0 {
        Seq::empty()
    } else {
        text_told(heard(stream, events[0])) + all_told(
            beyond(stream, events[0]),
            events.drop_first(),
        )
    }
}

/// The text that the caller is told for an event is the text it carries.
#[verifier::rlimit(40)]
proof fn lemma_text_told(stream: JsonChatStreamView, event: JsonView)
    requires
        running(stream),
        !is_event(event, "error"@),
    ensures
        text_told(heard(stream, event)) == text_carried(event),
        running(beyond(stream, event)),
{
    lemma_tags();
    lemma_heard(stream, event);
    lemma_block_words();
    lemma_delta_words();
    let state = stream.inner.state;
    let provider = stream.provider;
    match kind_of(event) {
        EventKind::BlockDelta => {
            let fragment = crate::gateway::anthropic::stream::delta_fragment(
                event.get("delta"@)->0,
                tokens(event, "index"@) as u32,
            );
            lemma_one_fragment(fragment, stream.seen);
            lemma_fragment(stream, event, fragment);
        },
        EventKind::BlockStart => {
            let fragment = crate::gateway::anthropic::stream::block_fragment(
                event.get("content_block"@)->0,
                tokens(event, "index"@) as u32,
            );
            lemma_one_fragment(fragment, stream.seen);
            lemma_fragment(stream, event, fragment);
        },
        EventKind::MessageStart => {
            let message = event.get("message"@)->0;
            let chunk = crate::gateway::anthropic::stream::start_chunk(event, state);
            let choice = chunk.completions[0];
            assert(chunk.completions =~= seq![choice]);
            law_another_protocol_reads_nothing(
                Protocol::OpenAiCompat,
                Protocol::Anthropic,
                crate::json::without(event.fields(), "type"@),
                provider,
            );
            law_another_protocol_reads_nothing(
                Protocol::OpenAiCompat,
                Protocol::Anthropic,
                no_fields(),
                provider,
            );
            law_another_protocol_reads_nothing(
                Protocol::OpenAiCompat,
                Protocol::Anthropic,
                crate::json::assigned(
                    no_fields(),
                    "role"@,
                    crate::json::opt_string(
                        crate::gateway::anthropic::response::strange_role(message),
                    ),
                ),
                provider,
            );
            assert(bare(chunk, choice, provider));
            lemma_one_choice(chunk, choice, provider, stream.seen);
            lemma_told_choice(choice, provider, stream.seen);
            assert(choice.delta.content =~= Seq::<ContentDeltaView>::empty());
        },
        EventKind::MessageDelta => {
            let delta = event.get("delta"@)->0;
            let chunk = crate::gateway::anthropic::stream::end_chunk(event, state);
            let choice = chunk.completions[0];
            assert(chunk.completions =~= seq![choice]);
            law_another_protocol_reads_nothing(
                Protocol::OpenAiCompat,
                Protocol::Anthropic,
                crate::json::without(crate::json::without(event.fields(), "type"@), "delta"@),
                provider,
            );
            law_another_protocol_reads_nothing(
                Protocol::OpenAiCompat,
                Protocol::Anthropic,
                no_fields(),
                provider,
            );
            law_another_protocol_reads_nothing(
                Protocol::OpenAiCompat,
                Protocol::Anthropic,
                crate::gateway::anthropic::stream::ending_residue(delta),
                provider,
            );
            assert(bare(chunk, choice, provider));
            lemma_one_choice(chunk, choice, provider, stream.seen);
            lemma_told_choice(choice, provider, stream.seen);
            assert(choice.delta.content =~= Seq::<ContentDeltaView>::empty());
        },
        EventKind::MessageStop => {
            let chunk = ingested_event(event, state).0;
            if chunk is Some {
                lemma_empty(chunk->0, provider, stream.seen);
            }
        },
        EventKind::Unknown => {
            let chunk = crate::gateway::anthropic::stream::unknown_event_chunk(event, state);
            law_another_protocol_reads_nothing(
                Protocol::OpenAiCompat,
                Protocol::Anthropic,
                crate::json::fields1("event"@, event),
                provider,
            );
            lemma_empty(chunk, provider, stream.seen);
        },
        _ => {},
    }
}

proof fn lemma_empty(chunk: ChatResponseChunkView, provider: Seq<char>, seen: Seq<(u32, u32)>)
    requires
        chunk.completions.len() == 0,
    ensures
        rendered_chunk(chunk, provider, seen).0.get("choices"@) == Some(
            JsonView::Array(Seq::empty()),
        ),
{
    broadcast use group_find;

    lemma_chunk_keys();
}

/// The text that a caller is told, chunk after chunk, is the text that the events
/// carry, event after event: nothing of it is lost, added or told twice.
pub proof fn law_the_streamed_text_is_the_text(stream: JsonChatStreamView, events: Seq<JsonView>)
    requires
        running(stream),
        forall|i: int| 0 <= i < events.len() ==> !is_event(#[trigger] events[i], "error"@),
    ensures
        all_told(stream, events) == all_carried(events),
    decreases events.len(),
{
    if events.len() > 0 {
        assert(!is_event(events[0], "error"@));
        lemma_text_told(stream, events[0]);
        let rest = events.drop_first();
        assert forall|i: int| 0 <= i < rest.len() implies !is_event(
            #[trigger] rest[i],
            "error"@,
        ) by {
            assert(rest[i] == events[i + 1]);
        }
        law_the_streamed_text_is_the_text(beyond(stream, events[0]), rest);
    }
}

/// An error within a stream is told as the failure that it is, and ends the stream;
/// so does a payload that is no JSON.
pub proof fn law_a_failure_ends_a_stream(stream: JsonChatStreamView, event: JsonView)
    requires
        running(stream),
        is_event(event, "error"@),
    ensures
        heard(stream, event) matches Some(Err(error)) && (crate::error::said(error) matches Some(
            detail,
        ) && detail.provider == stream.inner.provider && detail.error_type == (match event.get(
            "error"@,
        ) {
            Some(error) => match error.get("type"@) {
                Some(JsonView::String(family)) => Some(family),
                _ => None,
            },
            None => None,
        })),
        heard(stream, event) == Some(
            Err::<JsonView, ErrorView>(
                crate::gateway::anthropic::error::reported(
                    stream.inner.provider,
                    200,
                    crate::json_text::text_of_json(event),
                    Some(event),
                    None,
                    None,
                ),
            ),
        ),
        beyond(stream, event).ended,
        next_of(stream, None).0 matches Some(Err(ErrorView::Decode { .. })),
        next_of(stream, None).1.ended,
{
    lemma_tags();
    assert(kind_of(event) == EventKind::Failure);
}

proof fn lemma_no_other_field(
    chunk: ChatResponseChunkView,
    choice: CompletionDeltaView,
    provider: Seq<char>,
    seen: Seq<(u32, u32)>,
    key: Seq<char>,
)
    requires
        bare(chunk, choice, provider),
    ensures
        ({
            let value = rendered_chunk(chunk, provider, seen).0;
            &&& value.get(key) is Some ==> key == "id"@ || key == "object"@ || key == "created"@ || key
                == "model"@ || key == "choices"@ || key == "usage"@
        }),
{
    broadcast use group_find;

    lemma_chunk_keys();
}

proof fn lemma_no_other_part(
    choice: CompletionDeltaView,
    provider: Seq<char>,
    seen: Seq<(u32, u32)>,
    key: Seq<char>,
)
    requires
        merged(Protocol::OpenAiCompat, choice.ext, provider) == no_fields(),
        merged(Protocol::OpenAiCompat, choice.delta.ext, provider) == no_fields(),
    ensures
        ({
            let made = rendered_stream_choice(choice, 0, provider, seen).0;
            &&& made.get(key) is Some ==> key == "index"@ || key == "finish_reason"@ || key
                == "delta"@
            &&& made.get("delta"@) is Some
            &&& made.get("delta"@)->0.get(key) is Some ==> key == "role"@ || key == "content"@ || key
                == "tool_calls"@
        }),
{
    broadcast use group_find;

    lemma_choice_keys();
    lemma_delta_keys();
}

/// What an event adds to a block is told with the fields of a chunk and no other:
/// nothing that only Anthropic knows goes with them.
#[verifier::rlimit(40)]
pub proof fn law_nothing_foreign_is_streamed(
    stream: JsonChatStreamView,
    event: JsonView,
    key: Seq<char>,
)
    requires
        running(stream),
        is_event(event, "content_block_delta"@),
        has_index(event),
        event.get("delta"@) is Some,
    ensures
        ({
            let given = heard(stream, event);
            &&& chunked(given)
            &&& choices_in(given).len() == 1
            &&& given->0->Ok_0.get(key) is Some ==> key == "id"@ || key == "object"@ || key
                == "created"@ || key == "model"@ || key == "choices"@ || key == "usage"@
            &&& choices_in(given)[0].get(key) is Some ==> key == "index"@ || key
                == "finish_reason"@ || key == "delta"@
            &&& added_by(given).get(key) is Some ==> key == "role"@ || key == "content"@ || key
                == "tool_calls"@
        }),
{
    lemma_tags();
    let fragment = crate::gateway::anthropic::stream::delta_fragment(
        event.get("delta"@)->0,
        tokens(event, "index"@) as u32,
    );
    lemma_fragment(stream, event, fragment);
    lemma_heard(stream, event);
    let kept = crate::json::without(event.fields(), "type"@);
    law_another_protocol_reads_nothing(
        Protocol::OpenAiCompat,
        Protocol::Anthropic,
        kept,
        stream.provider,
    );
    law_another_protocol_reads_nothing(
        Protocol::OpenAiCompat,
        Protocol::Anthropic,
        no_fields(),
        stream.provider,
    );
    let chunk = crate::gateway::anthropic::stream::fragment_chunk(
        stream.inner.state,
        fragment,
        kept,
    );
    assert(ingested_event(event, stream.inner.state) == (Some(chunk), stream.inner.state));
    let choice = chunk.completions[0];
    assert(chunk.completions =~= seq![choice]);
    assert(bare(chunk, choice, stream.provider));
    lemma_one_choice(chunk, choice, stream.provider, stream.seen);
    lemma_no_other_field(chunk, choice, stream.provider, stream.seen, key);
    lemma_no_other_part(choice, stream.provider, stream.seen, key);
    lemma_named(stream, event, chunk, key);
}

proof fn lemma_named(
    stream: JsonChatStreamView,
    event: JsonView,
    chunk: ChatResponseChunkView,
    key: Seq<char>,
)
    requires
        running(stream),
        !is_event(event, "error"@),
        ingested_event(event, stream.inner.state).0 == Some(chunk),
    ensures
        heard(stream, event)->0->Ok_0.get(key) is Some ==> key == "model"@ || rendered_chunk(
            chunk,
            stream.provider,
            stream.seen,
        ).0.get(key) is Some,
{
    broadcast use group_find;

    lemma_tags();
    assert(kind_of(event) != EventKind::Failure);
}

} // verus!
