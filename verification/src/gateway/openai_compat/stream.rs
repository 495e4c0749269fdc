//! Streamed replies, between chat completions and the common form.
use vstd::prelude::*;

use crate::gateway::ext::{kept_under, merged, merged_ext, namespaced};
use crate::gateway::types::message::Role;
use crate::gateway::types::response::{reason_of, FinishReason};
use crate::gateway::types::stream::{
    ChatResponseChunk, ChatResponseChunkView, CompletionDelta, CompletionDeltaView, ContentDelta,
    ContentDeltaView, MessageDelta, MessageDeltaView,
};
use crate::gateway::types::{IngestSource, IngestSourceView};
use crate::json::{
    assigned, count, fields1, find, json_string, models, no_fields, object1, opt_string, put,
    sans_null, settled, string, without, Fields, FieldsView, Json, JsonView,
};
use crate::text::same_text;
use crate::types::{protocol_name, Protocol};

use super::ordinals::{noted, rank, ToolCallOrdinals};
use super::request::{role_residue, take_role, take_string, text_at, wire_role};
use super::response::{
    choice_index, has_only, keep_response, only_named, put_envelope, put_usage, read_usage,
    render_finish_reason, rendered_index, rendered_reason, response_residue, str_or_empty,
    text_or_empty, usage_in, with_envelope, with_usage,
};
use super::wire::{
    call_chunk_shape, is_call_chunk, is_legacy_call, is_logprobs, is_nullable_string,
    legacy_call_shape, logprobs_shape, nullable_string, present, typed,
};
use super::{role_to_wire, role_word};

verus! {

// ---------------------------------------------------------------------------
// Reading
// ---------------------------------------------------------------------------

/// The field is absent, or a text.
pub open spec fn text_if_any(value: JsonView, key: Seq<char>) -> bool {
    value.get(key) is None || value.str_at(key) is Some
}

fn is_text_if_any(value: &Json, key: &str) -> (r: bool)
    ensures
        r == text_if_any(value@, key@),
{
    match value.get(key) {
        Some(Json::String(_)) => true,
        Some(_) => false,
        None => true,
    }
}

/// A piece of a function call that holds nothing beyond what the common form
/// has.
pub open spec fn plain_chunk(call: JsonView) -> bool {
    let function = call.get("function"@);
    &&& call.u32_at("index"@) is Some
    &&& text_if_any(call, "id"@)
    &&& call.get("type"@) is None || call.str_at("type"@) == Some("function"@)
    &&& function is Some
    &&& function->0 is Object
    &&& text_if_any(function->0, "name"@)
    &&& text_if_any(function->0, "arguments"@)
    &&& function->0.get("name"@) is Some || function->0.get("arguments"@) is Some
    &&& only_named(without(call.fields(), "index"@), "id"@, "type"@, "function"@)
    &&& only_named(function->0.fields(), "arguments"@, "name"@, "name"@)
}

fn is_plain_chunk(call: &Json) -> (r: bool)
    ensures
        r == plain_chunk(call@),
{
    let typed = match call.get("type") {
        Some(Json::String(kind)) => same_text(kind.as_str(), "function"),
        Some(_) => false,
        None => true,
    };
    let bare = match call.get("function") {
        Some(function @ Json::Object(_)) => is_text_if_any(function, "name") && is_text_if_any(
            function,
            "arguments",
        ) && (function.get("name").is_some() || function.get("arguments").is_some()) && has_only(
            function,
            "arguments",
            "name",
            "name",
        ),
        _ => false,
    };
    let mut rest = call.fields();
    rest.remove("index");
    call.u32_at("index").is_some() && is_text_if_any(call, "id") && typed && bare && has_only(
        &Json::Object(rest),
        "id",
        "type",
        "function",
    )
}

/// The fragment a piece of a tool call stands for. One that holds more than the
/// common form has is kept whole.
pub open spec fn ingested_call_chunk(call: JsonView) -> ContentDeltaView {
    if plain_chunk(call) {
        ContentDeltaView::ToolCall {
            index: call.u32_at("index"@)->0,
            id: call.str_at("id"@),
            kind: call.str_at("type"@),
            name: call.str_in("function"@, "name"@),
            arguments: call.str_in("function"@, "arguments"@),
        }
    } else {
        ContentDeltaView::Unknown(call)
    }
}

fn ingest_tool_call_chunk(call: &Json) -> (r: ContentDelta)
    ensures
        r@ == ingested_call_chunk(call@),
{
    if is_plain_chunk(call) {
        if let Some(index) = call.u32_at("index") {
            return ContentDelta::ToolCall {
                index,
                id: call.str_at("id"),
                kind: call.str_at("type"),
                name: call.str_in("function", "name"),
                arguments: call.str_in("function", "arguments"),
            };
        }
    }
    ContentDelta::Unknown(call.clone())
}

/// The reasoning a delta shows, if any.
pub open spec fn reasoning_deltas(delta: JsonView) -> Seq<ContentDeltaView> {
    match delta.str_at("reasoning_content"@) {
        Some(text) => seq![
            ContentDeltaView::Reasoning {
                text,
                provenance: Some(protocol_name(Protocol::OpenAiCompat)),
            },
        ],
        None => Seq::empty(),
    }
}

fn reasoning_delta(delta: &Json) -> (r: Option<ContentDelta>)
    ensures
        reasoning_deltas(delta@) == (match r.deep_view() {
            Some(fragment) => seq![fragment],
            None => Seq::empty(),
        }),
{
    match delta.str_at("reasoning_content") {
        Some(text) => Some(
            ContentDelta::Reasoning {
                text,
                provenance: Some(Protocol::OpenAiCompat.as_str().to_owned()),
            },
        ),
        None => None,
    }
}

/// The text a delta adds, if any.
pub open spec fn text_deltas(delta: JsonView) -> Seq<ContentDeltaView> {
    match delta.str_at("content"@) {
        Some(text) => seq![ContentDeltaView::Text { text }],
        None => Seq::empty(),
    }
}

/// The fragments a delta stands for: reasoning, text and pieces of calls, in
/// that order.
pub open spec fn fragments_of(delta: JsonView) -> Seq<ContentDeltaView> {
    reasoning_deltas(delta) + text_deltas(delta) + delta.items_at("tool_calls"@).map_values(
        |call: JsonView| ingested_call_chunk(call),
    )
}

/// What a delta keeps. A text is in its fragments; a `null` in its place is not,
/// and is kept, and so is an empty list of calls.
pub open spec fn delta_residue(delta: JsonView) -> FieldsView {
    let f = role_residue(delta.fields());
    let f = if delta.str_at("content"@) is Some {
        without(f, "content"@)
    } else {
        f
    };
    let f = sans_null(f, "tool_calls"@);
    if delta.items_at("tool_calls"@).len() > 0 {
        without(f, "tool_calls"@)
    } else {
        f
    }
}

/// What a wire delta adds to a message.
pub open spec fn ingested_delta(delta: JsonView) -> MessageDeltaView {
    MessageDeltaView {
        role: if delta.str_at("role"@) is Some {
            Some(wire_role(delta))
        } else {
            None
        },
        content: fragments_of(delta),
        ext: kept_under(Protocol::OpenAiCompat, delta_residue(delta)),
    }
}

fn ingest_delta(delta: &Json) -> (r: MessageDelta)
    ensures
        r@ == ingested_delta(delta@),
{
    let mut fields = delta.fields();
    let wire = take_role(delta, &mut fields);
    let role: Option<Role> = if delta.str_at("role").is_some() {
        Some(wire)
    } else {
        None
    };
    let mut fragments: Vec<ContentDelta> = Vec::new();
    if let Some(fragment) = reasoning_delta(delta) {
        fragments.push(fragment);
    }
    assert(fragments.deep_view() =~= reasoning_deltas(delta@));
    if let Some(text) = delta.str_at("content") {
        fields.remove("content");
        fragments.push(ContentDelta::Text { text });
    }
    fields.drop_null("tool_calls");
    let ghost said = fragments.deep_view();
    assert(said =~= reasoning_deltas(delta@) + text_deltas(delta@));
    if let Some(calls) = delta.items_at("tool_calls") {
        if calls.len() > 0 {
            fields.remove("tool_calls");
        }
        let ghost start = fragments@;
        for i in 0..calls.len()
            invariant
                fragments.len() == start.len() + i,
                forall|k: int| 0 <= k < start.len() ==> fragments@[k] == start[k],
                forall|k: int|
                    0 <= k < i ==> fragments@[start.len() + k]@ == ingested_call_chunk(
                        calls@[k]@,
                    ),
        {
            fragments.push(ingest_tool_call_chunk(&calls[i]));
        }
        assert(fragments.deep_view() =~= said + models(calls@).map_values(
            |call: JsonView| ingested_call_chunk(call),
        ));
    }
    assert(fragments.deep_view() =~= fragments_of(delta@));
    MessageDelta { role, content: fragments, ext: namespaced(Protocol::OpenAiCompat, fields) }
}

/// What a wire choice adds to a reply. It has a reason to end only where the
/// provider gives one.
pub open spec fn ingested_stream_choice(choice: JsonView) -> CompletionDeltaView {
    let raw = choice.str_at("finish_reason"@);
    CompletionDeltaView {
        delta: ingested_delta(
            match choice.get("delta"@) {
                Some(delta) => delta,
                None => JsonView::Null,
            },
        ),
        finish_reason: match raw {
            Some(raw) => Some(reason_of(raw)),
            None => None,
        },
        finish_reason_raw: raw,
        ext: kept_under(
            Protocol::OpenAiCompat,
            without(without(choice.fields(), "finish_reason"@), "delta"@),
        ),
    }
}

fn ingest_stream_choice(choice: &Json) -> (r: CompletionDelta)
    ensures
        r@ == ingested_stream_choice(choice@),
{
    let raw = choice.str_at("finish_reason");
    let mut fields = choice.fields();
    fields.remove("finish_reason");
    fields.remove("delta");
    CompletionDelta {
        delta: match choice.get("delta") {
            Some(delta) => ingest_delta(delta),
            None => ingest_delta(&Json::Null),
        },
        finish_reason: match &raw {
            Some(raw) => Some(FinishReason::from_raw(raw.as_str())),
            None => None,
        },
        finish_reason_raw: raw,
        ext: namespaced(Protocol::OpenAiCompat, fields),
    }
}

/// The chunk a wire chunk stands for.
pub open spec fn ingested_chunk(chunk: JsonView) -> ChatResponseChunkView {
    ChatResponseChunkView {
        id: text_or_empty(chunk, "id"@),
        model: text_or_empty(chunk, "model"@),
        created: chunk.u64_at("created"@),
        completions: chunk.items_at("choices"@).map_values(
            |choice: JsonView| ingested_stream_choice(choice),
        ),
        usage: usage_in(chunk),
        ext: kept_under(Protocol::OpenAiCompat, response_residue(chunk)),
        source: Some(IngestSourceView { protocol: Protocol::OpenAiCompat, body: chunk }),
    }
}

/// Reads one chunk of a streamed reply.
pub fn ingest_chunk(chunk: &Json) -> (r: ChatResponseChunk)
    ensures
        r@ == ingested_chunk(chunk@),
{
    let mut completions: Vec<CompletionDelta> = Vec::new();
    if let Some(choices) = chunk.items_at("choices") {
        for i in 0..choices.len()
            invariant
                completions.len() == i,
                forall|k: int|
                    0 <= k < i ==> completions@[k]@ == ingested_stream_choice(choices@[k]@),
        {
            completions.push(ingest_stream_choice(&choices[i]));
        }
    }
    assert(completions.deep_view() =~= chunk@.items_at("choices"@).map_values(
        |choice: JsonView| ingested_stream_choice(choice),
    ));
    ChatResponseChunk {
        id: str_or_empty(chunk, "id"),
        model: str_or_empty(chunk, "model"),
        created: chunk.u64_at("created"),
        completions,
        usage: read_usage(chunk),
        ext: namespaced(Protocol::OpenAiCompat, keep_response(chunk)),
        source: Some(IngestSource { protocol: Protocol::OpenAiCompat, body: chunk.clone() }),
    }
}

// ---------------------------------------------------------------------------
// Rendering
// ---------------------------------------------------------------------------

/// The protocol's word for the kind of a call, where one is given.
pub open spec fn rendered_kind(kind: Option<Seq<char>>) -> Option<Seq<char>> {
    match kind {
        Some(kind) => if kind == "tool_use"@ {
            Some("function"@)
        } else {
            Some(kind)
        },
        None => None,
    }
}

fn render_tool_call_kind(kind: &Option<String>) -> (r: Option<String>)
    ensures
        r.deep_view() == rendered_kind(kind.deep_view()),
{
    match kind {
        Some(kind) => if same_text(kind.as_str(), "tool_use") {
            Some("function".to_owned())
        } else {
            Some(kind.clone())
        },
        None => None,
    }
}

/// A piece of a tool call on the wire.
pub open spec fn call_chunk(
    position: nat,
    id: Option<Seq<char>>,
    kind: Option<Seq<char>>,
    name: Option<Seq<char>>,
    arguments: Option<Seq<char>>,
) -> JsonView {
    let function = assigned(
        assigned(no_fields(), "arguments"@, opt_string(arguments)),
        "name"@,
        opt_string(name),
    );
    let f = assigned(fields1("index"@, count(position as u64)), "id"@, opt_string(id));
    let f = put(f, "function"@, JsonView::Object(function));
    JsonView::Object(assigned(f, "type"@, opt_string(rendered_kind(kind))))
}

fn render_call_chunk(
    position: u32,
    id: &Option<String>,
    kind: &Option<String>,
    name: &Option<String>,
    arguments: &Option<String>,
) -> (r: Json)
    ensures
        r@ == call_chunk(
            position as nat,
            id.deep_view(),
            kind.deep_view(),
            name.deep_view(),
            arguments.deep_view(),
        ),
{
    let mut function = Fields::new();
    function.set("arguments", json_string(arguments));
    function.set("name", json_string(name));
    let mut fields = object1("index", Json::count(position as u64)).fields();
    fields.set("id", json_string(id));
    fields.put("function", Json::Object(function));
    fields.set("type", json_string(&render_tool_call_kind(kind)));
    Json::Object(fields)
}

/// What the fragments of a delta are rendered as: the last text, the pieces of
/// calls, and the calls seen after them.
pub struct Fragments {
    pub text: Option<Seq<char>>,
    pub calls: Seq<JsonView>,
    pub seen: Seq<(u32, u32)>,
}

/// The fragments with one more. A call that is kept whole is rendered where it
/// has the shape of one; reasoning is rendered from what the delta keeps.
pub open spec fn with_fragment(
    before: Fragments,
    fragment: ContentDeltaView,
    choice: u32,
) -> Fragments {
    match fragment {
        ContentDeltaView::Text { text } => Fragments { text: Some(text), ..before },
        ContentDeltaView::ToolCall { index, id, kind, name, arguments } => Fragments {
            calls: before.calls.push(
                call_chunk(rank(before.seen, choice, index), id, kind, name, arguments),
            ),
            seen: noted(before.seen, choice, index),
            ..before
        },
        ContentDeltaView::Unknown(value) => if call_chunk_shape(value) {
            let index = value.u32_at("index"@)->0;
            Fragments {
                calls: before.calls.push(
                    JsonView::Object(
                        put(
                            value.fields(),
                            "index"@,
                            count(rank(before.seen, choice, index) as u64),
                        ),
                    ),
                ),
                seen: noted(before.seen, choice, index),
                ..before
            }
        } else {
            before
        },
        ContentDeltaView::Reasoning { .. } => before,
    }
}

/// What several fragments are rendered as.
pub open spec fn rendered_fragments(
    content: Seq<ContentDeltaView>,
    choice: u32,
    seen: Seq<(u32, u32)>,
) -> Fragments
    decreases content.len(),
{
    if content.len() == 0 {
        Fragments { text: None, calls: Seq::empty(), seen }
    } else {
        with_fragment(
            rendered_fragments(content.drop_last(), choice, seen),
            content.last(),
            choice,
        )
    }
}

fn render_fragments(
    content: &Vec<ContentDelta>,
    choice: u32,
    ordinals: &mut ToolCallOrdinals,
) -> (r: (Option<String>, Vec<Json>))
    ensures
        ({
            let rendered = rendered_fragments(content.deep_view(), choice, old(ordinals)@);
            &&& r.0.deep_view() == rendered.text
            &&& models(r.1@) == rendered.calls
            &&& final(ordinals)@ == rendered.seen
        }),
{
    let ghost all = content.deep_view();
    let ghost seen = ordinals@;
    let mut text: Option<String> = None;
    let mut calls: Vec<Json> = Vec::new();
    assert(models(calls@) =~= Seq::<JsonView>::empty());
    for i in 0..content.len()
        invariant
            all == content.deep_view(),
            seen == old(ordinals)@,
            text.deep_view() == rendered_fragments(all.take(i as int), choice, seen).text,
            models(calls@) == rendered_fragments(all.take(i as int), choice, seen).calls,
            ordinals@ == rendered_fragments(all.take(i as int), choice, seen).seen,
    {
        let ghost here = all.take(i + 1);
        assert(here.drop_last() =~= all.take(i as int));
        assert(here.last() == content@[i as int]@);
        let ghost before = calls@;
        match &content[i] {
            ContentDelta::Text { text: fragment } => {
                text = Some(fragment.clone());
            },
            ContentDelta::ToolCall { index, id, kind, name, arguments } => {
                let position: u32 = ordinals.ordinal(choice, *index);
                calls.push(render_call_chunk(position, id, kind, name, arguments));
                assert(models(calls@) =~= models(before).push(calls@.last()@));
            },
            ContentDelta::Unknown(value) => {
                if is_call_chunk(value) {
                    if let Some(index) = value.u32_at("index") {
                        let position: u32 = ordinals.ordinal(choice, index);
                        let mut fields = value.fields();
                        fields.put("index", Json::count(position as u64));
                        calls.push(Json::Object(fields));
                        assert(models(calls@) =~= models(before).push(calls@.last()@));
                    }
                }
            },
            ContentDelta::Reasoning { .. } => {},
        }
    }
    assert(all.take(all.len() as int) =~= all);
    (text, calls)
}

/// The fields of a rendered delta.
pub open spec fn delta_fields(
    kept: FieldsView,
    role: Option<Role>,
    text: Option<Seq<char>>,
    calls: Seq<JsonView>,
) -> FieldsView {
    let f = assigned(
        kept,
        "role"@,
        match text_at(kept, "role"@) {
            Some(raw) => Some(string(raw)),
            None => match role {
                Some(role) => Some(string(role_word(role))),
                None => None,
            },
        },
    );
    let f = match text {
        Some(text) => put(f, "content"@, string(text)),
        None => if find(f, "content"@) == Some(JsonView::Null) {
            f
        } else {
            without(f, "content"@)
        },
    };
    let f = settled(
        f,
        "refusal"@,
        present(f, "refusal"@, |v: JsonView| nullable_string(v)),
        None,
    );
    let f = typed(f, "function_call"@, |v: JsonView| legacy_call_shape(v));
    if calls.len() > 0 {
        put(f, "tool_calls"@, JsonView::Array(calls))
    } else {
        f
    }
}

/// A delta on the wire, and the calls seen after it.
pub open spec fn rendered_delta(
    delta: MessageDeltaView,
    provider: Seq<char>,
    choice: u32,
    seen: Seq<(u32, u32)>,
) -> (JsonView, Seq<(u32, u32)>) {
    let fragments = rendered_fragments(delta.content, choice, seen);
    (
        JsonView::Object(
            delta_fields(
                merged(Protocol::OpenAiCompat, delta.ext, provider),
                delta.role,
                fragments.text,
                fragments.calls,
            ),
        ),
        fragments.seen,
    )
}

fn render_delta(
    delta: &MessageDelta,
    provider: &str,
    choice: u32,
    ordinals: &mut ToolCallOrdinals,
) -> (r: Json)
    ensures
        (r@, final(ordinals)@) == rendered_delta(delta@, provider@, choice, old(ordinals)@),
{
    let mut fields = merged_ext(Protocol::OpenAiCompat, &delta.ext, provider);
    let role: Option<Json> = match take_string(&fields, "role") {
        Some(raw) => Some(Json::String(raw)),
        None => match delta.role {
            Some(role) => Some(Json::text(role_to_wire(role))),
            None => None,
        },
    };
    let (text, calls) = render_fragments(&delta.content, choice, ordinals);
    assert(models(calls@).len() == calls@.len());
    fields.set("role", role);
    match text {
        Some(text) => {
            fields.put("content", Json::String(text));
        },
        None => {
            let null = match fields.get("content") {
                Some(value) => value.is_null(),
                None => false,
            };
            if !null {
                fields.remove("content");
            }
        },
    }
    let keep = match fields.get("refusal") {
        Some(value) => is_nullable_string(value),
        None => false,
    };
    fields.settle("refusal", keep, None);
    let keep = match fields.get("function_call") {
        Some(value) => is_legacy_call(value),
        None => false,
    };
    fields.settle("function_call", keep, None);
    if calls.len() > 0 {
        fields.put("tool_calls", Json::Array(calls));
    }
    Json::Object(fields)
}

/// Why a choice ends, on the wire; `null` where it goes on.
pub open spec fn rendered_delta_reason(completion: CompletionDeltaView) -> JsonView {
    match completion.finish_reason_raw {
        Some(raw) => string(
            rendered_reason(
                raw,
                match completion.finish_reason {
                    Some(reason) => reason,
                    None => FinishReason::Other,
                },
            ),
        ),
        None => JsonView::Null,
    }
}

fn render_delta_finish_reason(completion: &CompletionDelta) -> (r: Json)
    ensures
        r@ == rendered_delta_reason(completion@),
{
    match &completion.finish_reason_raw {
        Some(raw) => {
            let reason = match completion.finish_reason {
                Some(reason) => reason,
                None => FinishReason::Other,
            };
            Json::String(render_finish_reason(raw.as_str(), reason))
        },
        None => Json::Null,
    }
}

/// A choice of a rendered chunk, and the calls seen after it.
pub open spec fn rendered_stream_choice(
    completion: CompletionDeltaView,
    position: int,
    provider: Seq<char>,
    seen: Seq<(u32, u32)>,
) -> (JsonView, Seq<(u32, u32)>) {
    let fields = merged(Protocol::OpenAiCompat, completion.ext, provider);
    let index = rendered_index(fields, position);
    let (delta, after) = rendered_delta(completion.delta, provider, index, seen);
    let f = put(fields, "index"@, count(index as u64));
    let f = typed(f, "logprobs"@, |v: JsonView| logprobs_shape(v));
    let f = put(f, "finish_reason"@, rendered_delta_reason(completion));
    (JsonView::Object(put(f, "delta"@, delta)), after)
}

fn render_stream_choice(
    completion: &CompletionDelta,
    position: usize,
    provider: &str,
    ordinals: &mut ToolCallOrdinals,
) -> (r: Json)
    ensures
        (r@, final(ordinals)@) == rendered_stream_choice(
            completion@,
            position as int,
            provider@,
            old(ordinals)@,
        ),
{
    let mut fields = merged_ext(Protocol::OpenAiCompat, &completion.ext, provider);
    let index: u32 = choice_index(&fields, position);
    let delta = render_delta(&completion.delta, provider, index, ordinals);
    fields.put("index", Json::count(index as u64));
    let keep = match fields.get("logprobs") {
        Some(value) => is_logprobs(value),
        None => false,
    };
    fields.settle("logprobs", keep, None);
    fields.put("finish_reason", render_delta_finish_reason(completion));
    fields.put("delta", delta);
    Json::Object(fields)
}

/// The choices of a rendered chunk, and the calls seen after them.
pub open spec fn rendered_stream_choices(
    completions: Seq<CompletionDeltaView>,
    provider: Seq<char>,
    seen: Seq<(u32, u32)>,
) -> (Seq<JsonView>, Seq<(u32, u32)>)
    decreases completions.len(),
{
    if completions.len() == 0 {
        (Seq::empty(), seen)
    } else {
        let (before, between) = rendered_stream_choices(completions.drop_last(), provider, seen);
        let (choice, after) = rendered_stream_choice(
            completions.last(),
            completions.len() - 1,
            provider,
            between,
        );
        (before.push(choice), after)
    }
}

fn render_stream_choices(
    completions: &Vec<CompletionDelta>,
    provider: &str,
    ordinals: &mut ToolCallOrdinals,
) -> (r: Vec<Json>)
    ensures
        (models(r@), final(ordinals)@) == rendered_stream_choices(
            completions.deep_view(),
            provider@,
            old(ordinals)@,
        ),
{
    let ghost all = completions.deep_view();
    let ghost seen = ordinals@;
    let mut choices: Vec<Json> = Vec::new();
    assert(models(choices@) =~= Seq::<JsonView>::empty());
    for i in 0..completions.len()
        invariant
            all == completions.deep_view(),
            seen == old(ordinals)@,
            (models(choices@), ordinals@) == rendered_stream_choices(
                all.take(i as int),
                provider@,
                seen,
            ),
    {
        let ghost here = all.take(i + 1);
        assert(here.drop_last() =~= all.take(i as int));
        assert(here.last() == completions@[i as int]@);
        let ghost before = choices@;
        choices.push(render_stream_choice(&completions[i], i, provider, ordinals));
        assert(models(choices@) =~= models(before).push(choices@.last()@));
    }
    assert(all.take(all.len() as int) =~= all);
    choices
}

/// The chunk on the wire, and the calls seen after it.
pub open spec fn rendered_chunk(
    chunk: ChatResponseChunkView,
    provider: Seq<char>,
    seen: Seq<(u32, u32)>,
) -> (JsonView, Seq<(u32, u32)>) {
    let fields = merged(Protocol::OpenAiCompat, chunk.ext, provider);
    let (choices, after) = rendered_stream_choices(chunk.completions, provider, seen);
    (
        JsonView::Object(
            with_envelope(
                with_usage(fields, chunk.usage, provider),
                "chat.completion.chunk"@,
                chunk.id,
                chunk.model,
                chunk.created,
                choices,
            ),
        ),
        after,
    )
}

/// Renders one chunk of a streamed reply. The tool calls in it are numbered with
/// those of the chunks before it.
pub fn render_chunk(
    chunk: &ChatResponseChunk,
    provider: &str,
    ordinals: &mut ToolCallOrdinals,
) -> (r: Json)
    ensures
        (r@, final(ordinals)@) == rendered_chunk(chunk@, provider@, old(ordinals)@),
{
    let mut fields = merged_ext(Protocol::OpenAiCompat, &chunk.ext, provider);
    let choices = render_stream_choices(&chunk.completions, provider, ordinals);
    put_usage(&mut fields, &chunk.usage, provider);
    put_envelope(
        &mut fields,
        "chat.completion.chunk",
        &chunk.id,
        &chunk.model,
        chunk.created,
        choices,
    );
    Json::Object(fields)
}

} // verus!
