//! Streamed replies, between Anthropic's events and the common form.
use vstd::prelude::*;

use crate::gateway::ext::{kept_under, merged, merged_ext, namespaced};
use crate::gateway::openai_compat::request::field_if;
use crate::gateway::openai_compat::response::{str_or_empty, text_or_empty, widen, widened};
use crate::gateway::openai_compat::wire::{
    absent_or, is_nullable_string, is_nullable_u32, nullable_string, nullable_u32, present,
};
use crate::gateway::types::response::{FinishReason, Usage, UsageView};
use crate::gateway::types::stream::{
    ChatResponseChunk, ChatResponseChunkView, CompletionDelta, CompletionDeltaView, ContentDelta,
    ContentDeltaView, MessageDelta, MessageDeltaView,
};
use crate::json::{
    assigned, count, fields1, fields2, find, json_string, no_fields, object1, object2, opt_string,
    put, settled, string, without, Fields, FieldsView, Json, JsonView,
};
use crate::text::same_text;
use crate::types::{protocol_name, Protocol};

use super::response::{
    finish_reason, minus, or_zero, read_role, reason_for, render_tool_use, strange_role,
    tool_use_block, u32_or_zero, wire_role,
};
use super::wire::{is_message, message_shape};

verus! {

/// What a stream has said so far that later events leave out.
#[derive(Debug)]
pub struct StreamState {
    id: String,
    model: String,
    input_tokens: Option<u32>,
    cache_read_tokens: Option<u32>,
    cache_write_tokens: Option<u32>,
    report_usage: bool,
    totals: Option<Usage>,
}

/// The value of a [`StreamState`].
#[verifier::ext_equal]
pub struct StreamStateView {
    pub id: Seq<char>,
    pub model: Seq<char>,
    pub input_tokens: Option<u32>,
    pub cache_read_tokens: Option<u32>,
    pub cache_write_tokens: Option<u32>,
    /// Whether token counts are to be reported at the end.
    pub report_usage: bool,
    /// The token counts to report.
    pub totals: Option<UsageView>,
}

impl View for StreamState {
    type V = StreamStateView;

    closed spec fn view(&self) -> StreamStateView {
        StreamStateView {
            id: self.id@,
            model: self.model@,
            input_tokens: self.input_tokens,
            cache_read_tokens: self.cache_read_tokens,
            cache_write_tokens: self.cache_write_tokens,
            report_usage: self.report_usage,
            totals: self.totals.deep_view(),
        }
    }
}

impl StreamState {
    /// The start of a stream, at whose end token counts are reported or not.
    pub fn new(report_usage: bool) -> (r: Self)
        ensures
            r@ == fresh(report_usage),
    {
        StreamState {
            id: String::new(),
            model: String::new(),
            input_tokens: None,
            cache_read_tokens: None,
            cache_write_tokens: None,
            report_usage,
            totals: None,
        }
    }
}

/// The start of a stream.
pub open spec fn fresh(report_usage: bool) -> StreamStateView {
    StreamStateView {
        id: Seq::empty(),
        model: Seq::empty(),
        input_tokens: None,
        cache_read_tokens: None,
        cache_write_tokens: None,
        report_usage,
        totals: None,
    }
}

// ---------------------------------------------------------------------------
// Reading
// ---------------------------------------------------------------------------

/// The kinds of event.
#[derive(Debug, Clone, Copy, PartialEq, Eq, Structural)]
pub enum EventKind {
    MessageStart,
    BlockStart,
    BlockDelta,
    MessageDelta,
    MessageStop,
    /// The end of a block, or a sign of life.
    Silent,
    Failure,
    Unknown,
}

/// The token counts of an event that ends a message.
pub open spec fn delta_usage_shape(value: JsonView) -> bool {
    &&& value is Object
    &&& value.u32_at("output_tokens"@) is Some
    &&& absent_or(value, "input_tokens"@, |v: JsonView| nullable_u32(v))
    &&& absent_or(value, "cache_creation_input_tokens"@, |v: JsonView| nullable_u32(v))
    &&& absent_or(value, "cache_read_input_tokens"@, |v: JsonView| nullable_u32(v))
}

/// Whether [`delta_usage_shape`] holds of the value.
pub fn is_delta_usage(value: &Json) -> (r: bool)
    ensures
        r == delta_usage_shape(value@),
{
    let input = match value.get("input_tokens") {
        Some(v) => is_nullable_u32(v),
        None => true,
    };
    let written = match value.get("cache_creation_input_tokens") {
        Some(v) => is_nullable_u32(v),
        None => true,
    };
    let read = match value.get("cache_read_input_tokens") {
        Some(v) => is_nullable_u32(v),
        None => true,
    };
    value.as_object().is_some() && value.u32_at("output_tokens").is_some() && input && written
        && read
}

/// How an event that ends a message ends it.
pub open spec fn ending_shape(value: JsonView) -> bool {
    &&& value is Object
    &&& absent_or(value, "stop_reason"@, |v: JsonView| nullable_string(v))
    &&& absent_or(value, "stop_sequence"@, |v: JsonView| nullable_string(v))
}

fn is_ending(value: &Json) -> (r: bool)
    ensures
        r == ending_shape(value@),
{
    let reason = match value.get("stop_reason") {
        Some(v) => is_nullable_string(v),
        None => true,
    };
    let sequence = match value.get("stop_sequence") {
        Some(v) => is_nullable_string(v),
        None => true,
    };
    value.as_object().is_some() && reason && sequence
}

/// The kind of an event. One that is not what its type says is of no known kind.
pub open spec fn kind_of(event: JsonView) -> EventKind {
    let tag = event.str_at("type"@);
    if tag == Some("message_start"@) && present(
        event.fields(),
        "message"@,
        |v: JsonView| message_shape(v),
    ) {
        EventKind::MessageStart
    } else if tag == Some("content_block_start"@) && event.u32_at("index"@) is Some && event.get(
        "content_block"@,
    ) is Some {
        EventKind::BlockStart
    } else if tag == Some("content_block_delta"@) && event.u32_at("index"@) is Some && event.get(
        "delta"@,
    ) is Some {
        EventKind::BlockDelta
    } else if tag == Some("message_delta"@) && present(
        event.fields(),
        "delta"@,
        |v: JsonView| ending_shape(v),
    ) && present(event.fields(), "usage"@, |v: JsonView| delta_usage_shape(v)) {
        EventKind::MessageDelta
    } else if tag == Some("message_stop"@) {
        EventKind::MessageStop
    } else if tag == Some("content_block_stop"@) || tag == Some("ping"@) {
        EventKind::Silent
    } else if tag == Some("error"@) {
        EventKind::Failure
    } else {
        EventKind::Unknown
    }
}

/// Tells the kind of an event.
pub fn event_kind(event: &Json) -> (r: EventKind)
    ensures
        r == kind_of(event@),
{
    let Some(tag) = event.str_at("type") else {
        return EventKind::Unknown;
    };
    let tag = tag.as_str();
    if same_text(tag, "message_start") {
        if let Some(message) = event.get("message") {
            if is_message(message) {
                return EventKind::MessageStart;
            }
        }
    }
    if same_text(tag, "content_block_start") && event.u32_at("index").is_some() && event.get(
        "content_block",
    ).is_some() {
        return EventKind::BlockStart;
    }
    if same_text(tag, "content_block_delta") && event.u32_at("index").is_some() && event.get(
        "delta",
    ).is_some() {
        return EventKind::BlockDelta;
    }
    if same_text(tag, "message_delta") {
        if let (Some(delta), Some(usage)) = (event.get("delta"), event.get("usage")) {
            if is_ending(delta) && is_delta_usage(usage) {
                return EventKind::MessageDelta;
            }
        }
    }
    if same_text(tag, "message_stop") {
        EventKind::MessageStop
    } else if same_text(tag, "content_block_stop") || same_text(tag, "ping") {
        EventKind::Silent
    } else if same_text(tag, "error") {
        EventKind::Failure
    } else {
        EventKind::Unknown
    }
}

/// A field, or `null`.
pub open spec fn part(value: JsonView, key: Seq<char>) -> JsonView {
    match value.get(key) {
        Some(part) => part,
        None => JsonView::Null,
    }
}

fn read_part(value: &Json, key: &str) -> (r: Json)
    ensures
        r@ == part(value@, key@),
{
    match value.get(key) {
        Some(part) => part.clone(),
        None => Json::Null,
    }
}

/// A chunk that says nothing yet.
pub open spec fn blank_chunk(state: StreamStateView) -> ChatResponseChunkView {
    ChatResponseChunkView {
        id: state.id,
        model: state.model,
        created: None,
        completions: Seq::empty(),
        usage: None,
        ext: no_fields(),
        source: None,
    }
}

/// What is told of a stream when its message starts.
pub open spec fn started(message: JsonView, state: StreamStateView) -> StreamStateView {
    let usage = part(message, "usage"@);
    StreamStateView {
        id: text_or_empty(message, "id"@),
        model: text_or_empty(message, "model"@),
        input_tokens: usage.u32_at("input_tokens"@),
        cache_read_tokens: usage.u32_at("cache_read_input_tokens"@),
        cache_write_tokens: usage.u32_at("cache_creation_input_tokens"@),
        ..state
    }
}

/// The chunk for the start of a message.
pub open spec fn start_chunk(event: JsonView, state: StreamStateView) -> ChatResponseChunkView {
    let message = part(event, "message"@);
    ChatResponseChunkView {
        completions: seq![
            CompletionDeltaView {
                delta: MessageDeltaView {
                    role: Some(wire_role(message)),
                    content: Seq::empty(),
                    ext: kept_under(
                        Protocol::Anthropic,
                        assigned(no_fields(), "role"@, opt_string(strange_role(message))),
                    ),
                },
                finish_reason: None,
                finish_reason_raw: None,
                ext: no_fields(),
            },
        ],
        ext: kept_under(Protocol::Anthropic, without(event.fields(), "type"@)),
        ..blank_chunk(started(message, state))
    }
}

fn ingest_message_start(event: &Json, state: &mut StreamState) -> (r: ChatResponseChunk)
    ensures
        r@ == start_chunk(event@, old(state)@),
        final(state)@ == started(part(event@, "message"@), old(state)@),
{
    let message = read_part(event, "message");
    let usage = read_part(&message, "usage");
    state.id = str_or_empty(&message, "id");
    state.model = str_or_empty(&message, "model");
    state.input_tokens = usage.u32_at("input_tokens");
    state.cache_read_tokens = usage.u32_at("cache_read_input_tokens");
    state.cache_write_tokens = usage.u32_at("cache_creation_input_tokens");
    let (role, strange) = read_role(&message);
    let mut beside = Fields::new();
    beside.set("role", json_string(&strange));
    let mut fields = event.fields();
    fields.remove("type");
    let r = ChatResponseChunk {
        id: state.id.clone(),
        model: state.model.clone(),
        created: None,
        completions: vec![
            CompletionDelta {
                delta: MessageDelta {
                    role: Some(role),
                    content: Vec::new(),
                    ext: namespaced(Protocol::Anthropic, beside),
                },
                finish_reason: None,
                finish_reason_raw: None,
                ext: Fields::new(),
            },
        ],
        usage: None,
        ext: namespaced(Protocol::Anthropic, fields),
        source: None,
    };
    assert(r.completions@[0].delta.content.deep_view() =~= Seq::<ContentDeltaView>::empty());
    assert(r.completions.deep_view() =~= start_chunk(event@, old(state)@).completions);
    r
}

/// The fragment that the start of a block stands for.
pub open spec fn block_fragment(block: JsonView, index: u32) -> ContentDeltaView {
    let tag = block.str_at("type"@);
    let text = block.str_at("text"@);
    let thinking = block.str_at("thinking"@);
    let id = block.str_at("id"@);
    let name = block.str_at("name"@);
    if tag == Some("text"@) && text is Some {
        ContentDeltaView::Text { text: text->0 }
    } else if tag == Some("tool_use"@) && id is Some && name is Some {
        ContentDeltaView::ToolCall { index, id, kind: Some("tool_use"@), name, arguments: None }
    } else if tag == Some("thinking"@) && thinking is Some {
        ContentDeltaView::Reasoning {
            text: thinking->0,
            provenance: Some(protocol_name(Protocol::Anthropic)),
        }
    } else {
        ContentDeltaView::Unknown(block)
    }
}

fn read_block_fragment(block: &Json, index: u32) -> (r: ContentDelta)
    ensures
        r@ == block_fragment(block@, index),
{
    if let Some(tag) = block.str_at("type") {
        if same_text(tag.as_str(), "text") {
            if let Some(text) = block.str_at("text") {
                return ContentDelta::Text { text };
            }
        }
        if same_text(tag.as_str(), "tool_use") {
            if let (Some(id), Some(name)) = (block.str_at("id"), block.str_at("name")) {
                return ContentDelta::ToolCall {
                    index,
                    id: Some(id),
                    kind: Some("tool_use".to_owned()),
                    name: Some(name),
                    arguments: None,
                };
            }
        }
        if same_text(tag.as_str(), "thinking") {
            if let Some(text) = block.str_at("thinking") {
                return ContentDelta::Reasoning {
                    text,
                    provenance: Some(Protocol::Anthropic.as_str().to_owned()),
                };
            }
        }
    }
    ContentDelta::Unknown(block.clone())
}

/// The fragment that a delta of a block stands for.
pub open spec fn delta_fragment(delta: JsonView, index: u32) -> ContentDeltaView {
    let tag = delta.str_at("type"@);
    let text = delta.str_at("text"@);
    let thinking = delta.str_at("thinking"@);
    let json = delta.str_at("partial_json"@);
    if tag == Some("text_delta"@) && text is Some {
        ContentDeltaView::Text { text: text->0 }
    } else if tag == Some("thinking_delta"@) && thinking is Some {
        ContentDeltaView::Reasoning {
            text: thinking->0,
            provenance: Some(protocol_name(Protocol::Anthropic)),
        }
    } else if tag == Some("input_json_delta"@) && json is Some {
        ContentDeltaView::ToolCall { index, id: None, kind: None, name: None, arguments: json }
    } else {
        ContentDeltaView::Unknown(delta)
    }
}

fn read_delta_fragment(delta: &Json, index: u32) -> (r: ContentDelta)
    ensures
        r@ == delta_fragment(delta@, index),
{
    if let Some(tag) = delta.str_at("type") {
        if same_text(tag.as_str(), "text_delta") {
            if let Some(text) = delta.str_at("text") {
                return ContentDelta::Text { text };
            }
        }
        if same_text(tag.as_str(), "thinking_delta") {
            if let Some(text) = delta.str_at("thinking") {
                return ContentDelta::Reasoning {
                    text,
                    provenance: Some(Protocol::Anthropic.as_str().to_owned()),
                };
            }
        }
        if same_text(tag.as_str(), "input_json_delta") {
            if let Some(json) = delta.str_at("partial_json") {
                return ContentDelta::ToolCall {
                    index,
                    id: None,
                    kind: None,
                    name: None,
                    arguments: Some(json),
                };
            }
        }
    }
    ContentDelta::Unknown(delta.clone())
}

/// A chunk of one fragment.
pub open spec fn fragment_chunk(
    state: StreamStateView,
    fragment: ContentDeltaView,
    kept: FieldsView,
) -> ChatResponseChunkView {
    ChatResponseChunkView {
        completions: seq![
            CompletionDeltaView {
                delta: MessageDeltaView {
                    role: None,
                    content: seq![fragment],
                    ext: kept_under(Protocol::Anthropic, kept),
                },
                finish_reason: None,
                finish_reason_raw: None,
                ext: no_fields(),
            },
        ],
        ..blank_chunk(state)
    }
}

fn chunk(state: &StreamState, fragment: ContentDelta, kept: Fields) -> (r: ChatResponseChunk)
    ensures
        r@ == fragment_chunk(state@, fragment@, kept@),
{
    let r = ChatResponseChunk {
        id: state.id.clone(),
        model: state.model.clone(),
        created: None,
        completions: vec![
            CompletionDelta {
                delta: MessageDelta {
                    role: None,
                    content: vec![fragment],
                    ext: namespaced(Protocol::Anthropic, kept),
                },
                finish_reason: None,
                finish_reason_raw: None,
                ext: Fields::new(),
            },
        ],
        usage: None,
        ext: Fields::new(),
        source: None,
    };
    assert(r.completions@[0].delta.content.deep_view() =~= seq![fragment@]);
    assert(r.completions.deep_view() =~= fragment_chunk(state@, fragment@, kept@).completions);
    r
}

/// The chunk for the start of a block.
pub open spec fn block_start_chunk(
    event: JsonView,
    state: StreamStateView,
) -> ChatResponseChunkView {
    fragment_chunk(
        state,
        block_fragment(part(event, "content_block"@), u32_or_zero(event, "index"@)),
        without(event.fields(), "type"@),
    )
}

fn read_index(event: &Json) -> (r: u32)
    ensures
        r == u32_or_zero(event@, "index"@),
{
    match event.u32_at("index") {
        Some(n) => n,
        None => 0,
    }
}

fn ingest_block_start(event: &Json, state: &StreamState) -> (r: ChatResponseChunk)
    ensures
        r@ == block_start_chunk(event@, state@),
{
    let block = read_part(event, "content_block");
    let mut fields = event.fields();
    fields.remove("type");
    chunk(state, read_block_fragment(&block, read_index(event)), fields)
}

/// The chunk for a delta of a block.
pub open spec fn block_delta_chunk(
    event: JsonView,
    state: StreamStateView,
) -> ChatResponseChunkView {
    fragment_chunk(
        state,
        delta_fragment(part(event, "delta"@), u32_or_zero(event, "index"@)),
        without(event.fields(), "type"@),
    )
}

fn ingest_block_delta(event: &Json, state: &StreamState) -> (r: ChatResponseChunk)
    ensures
        r@ == block_delta_chunk(event@, state@),
{
    let delta = read_part(event, "delta");
    let mut fields = event.fields();
    fields.remove("type");
    chunk(state, read_delta_fragment(&delta, read_index(event)), fields)
}

/// The first of two counts that is there.
pub open spec fn latest(now: Option<u32>, before: Option<u32>) -> Option<u32> {
    match now {
        Some(n) => Some(n),
        None => before,
    }
}

fn take_latest(now: Option<u32>, before: Option<u32>) -> (r: Option<u32>)
    ensures
        r == latest(now, before),
{
    match now {
        Some(n) => Some(n),
        None => before,
    }
}

/// The token counts of a stream: those its last event gives, and for the rest
/// those it started with. The input counts cached tokens.
pub open spec fn stream_usage(usage: JsonView, state: StreamStateView) -> UsageView {
    let input = latest(usage.u32_at("input_tokens"@), state.input_tokens);
    let read = latest(usage.u32_at("cache_read_input_tokens"@), state.cache_read_tokens);
    let written = latest(usage.u32_at("cache_creation_input_tokens"@), state.cache_write_tokens);
    let cached = or_zero(widened(read)) + or_zero(widened(written));
    let output = u32_or_zero(usage, "output_tokens"@);
    UsageView {
        input_tokens: match input {
            Some(n) => Some((n + cached) as u64),
            None => None,
        },
        output_tokens: Some(output as u64),
        total_tokens: match input {
            Some(n) => Some((n + cached + output) as u64),
            None => None,
        },
        reasoning_tokens: None,
        cache_read_tokens: widened(read),
        cache_write_tokens: widened(written),
        ext: no_fields(),
    }
}

fn delta_usage(usage: &Json, state: &StreamState) -> (r: Usage)
    ensures
        r@ == stream_usage(usage@, state@),
{
    let input: Option<u32> = take_latest(usage.u32_at("input_tokens"), state.input_tokens);
    let read: Option<u32> = take_latest(
        usage.u32_at("cache_read_input_tokens"),
        state.cache_read_tokens,
    );
    let written: Option<u32> = take_latest(
        usage.u32_at("cache_creation_input_tokens"),
        state.cache_write_tokens,
    );
    let cached: u64 = read.unwrap_or(0) as u64 + written.unwrap_or(0) as u64;
    let output: u32 = match usage.u32_at("output_tokens") {
        Some(n) => n,
        None => 0,
    };
    let (input_tokens, total_tokens): (Option<u64>, Option<u64>) = match input {
        Some(n) => (Some(n as u64 + cached), Some(n as u64 + cached + output as u64)),
        None => (None, None),
    };
    Usage {
        input_tokens,
        output_tokens: Some(output as u64),
        total_tokens,
        reasoning_tokens: None,
        cache_read_tokens: widen(read),
        cache_write_tokens: widen(written),
        ext: Fields::new(),
    }
}

/// What the end of a message keeps: all of it but a reason to stop.
pub open spec fn ending_residue(delta: JsonView) -> FieldsView {
    if delta.str_at("stop_reason"@) is Some {
        without(delta.fields(), "stop_reason"@)
    } else {
        delta.fields()
    }
}

/// The chunk for the end of a message.
pub open spec fn end_chunk(event: JsonView, state: StreamStateView) -> ChatResponseChunkView {
    let delta = part(event, "delta"@);
    let raw = delta.str_at("stop_reason"@);
    ChatResponseChunkView {
        completions: seq![
            CompletionDeltaView {
                delta: MessageDeltaView { role: None, content: Seq::empty(), ext: no_fields() },
                finish_reason: match raw {
                    Some(raw) => Some(reason_for(Some(raw))),
                    None => None,
                },
                finish_reason_raw: raw,
                ext: kept_under(Protocol::Anthropic, ending_residue(delta)),
            },
        ],
        ext: kept_under(
            Protocol::Anthropic,
            without(without(event.fields(), "type"@), "delta"@),
        ),
        ..blank_chunk(state)
    }
}

/// What is told of a stream when its message ends.
pub open spec fn ended(event: JsonView, state: StreamStateView) -> StreamStateView {
    StreamStateView {
        totals: if state.report_usage {
            Some(stream_usage(part(event, "usage"@), state))
        } else {
            state.totals
        },
        ..state
    }
}

fn ingest_message_delta(event: &Json, state: &mut StreamState) -> (r: ChatResponseChunk)
    ensures
        r@ == end_chunk(event@, old(state)@),
        final(state)@ == ended(event@, old(state)@),
{
    let delta = read_part(event, "delta");
    let usage = read_part(event, "usage");
    let raw = delta.str_at("stop_reason");
    let mut beside = delta.fields();
    if raw.is_some() {
        beside.remove("stop_reason");
    }
    let mut fields = event.fields();
    fields.remove("type");
    fields.remove("delta");
    if state.report_usage {
        let totals = delta_usage(&usage, state);
        state.totals = Some(totals);
    }
    let reason: Option<FinishReason> = match &raw {
        Some(raw) => Some(finish_reason(Some(raw.as_str()))),
        None => None,
    };
    let r = ChatResponseChunk {
        id: state.id.clone(),
        model: state.model.clone(),
        created: None,
        completions: vec![
            CompletionDelta {
                delta: MessageDelta { role: None, content: Vec::new(), ext: Fields::new() },
                finish_reason: reason,
                finish_reason_raw: raw,
                ext: namespaced(Protocol::Anthropic, beside),
            },
        ],
        usage: None,
        ext: namespaced(Protocol::Anthropic, fields),
        source: None,
    };
    assert(r.completions@[0].delta.content.deep_view() =~= Seq::<ContentDeltaView>::empty());
    assert(r.completions.deep_view() =~= end_chunk(event@, old(state)@).completions);
    r
}

/// The chunk that reports the token counts, where there are any to report.
pub open spec fn totals_chunk(state: StreamStateView) -> Option<ChatResponseChunkView> {
    match state.totals {
        Some(usage) => Some(
            ChatResponseChunkView { usage: Some(usage), ..blank_chunk(state) },
        ),
        None => None,
    }
}

fn ingest_message_stop(state: &mut StreamState) -> (r: Option<ChatResponseChunk>)
    ensures
        r.deep_view() == totals_chunk(old(state)@),
        final(state)@ == (StreamStateView { totals: None, ..old(state)@ }),
{
    let mut totals: Option<Usage> = None;
    std::mem::swap(&mut totals, &mut state.totals);
    match totals {
        Some(usage) => {
            let r = ChatResponseChunk {
                id: state.id.clone(),
                model: state.model.clone(),
                created: None,
                completions: Vec::new(),
                usage: Some(usage),
                ext: Fields::new(),
                source: None,
            };
            assert(r.completions.deep_view() =~= Seq::<CompletionDeltaView>::empty());
            Some(r)
        },
        None => None,
    }
}

/// The chunk for an event of no known kind, which is kept whole.
pub open spec fn unknown_event_chunk(
    event: JsonView,
    state: StreamStateView,
) -> ChatResponseChunkView {
    ChatResponseChunkView {
        ext: kept_under(Protocol::Anthropic, fields1("event"@, event)),
        ..blank_chunk(state)
    }
}

fn unknown_chunk(event: &Json, state: &StreamState) -> (r: ChatResponseChunk)
    ensures
        r@ == unknown_event_chunk(event@, state@),
{
    let r = ChatResponseChunk {
        id: state.id.clone(),
        model: state.model.clone(),
        created: None,
        completions: Vec::new(),
        usage: None,
        ext: namespaced(Protocol::Anthropic, object1("event", event.clone()).fields()),
        source: None,
    };
    assert(r.completions.deep_view() =~= Seq::<CompletionDeltaView>::empty());
    r
}

/// The chunk an event stands for, if any, and what is told of the stream after
/// it.
pub open spec fn ingested_event(event: JsonView, state: StreamStateView) -> (
    Option<ChatResponseChunkView>,
    StreamStateView,
) {
    match kind_of(event) {
        EventKind::MessageStart => (
            Some(start_chunk(event, state)),
            started(part(event, "message"@), state),
        ),
        EventKind::BlockStart => (Some(block_start_chunk(event, state)), state),
        EventKind::BlockDelta => (Some(block_delta_chunk(event, state)), state),
        EventKind::MessageDelta => (Some(end_chunk(event, state)), ended(event, state)),
        EventKind::MessageStop => (
            totals_chunk(state),
            StreamStateView { totals: None, ..state },
        ),
        EventKind::Silent => (None, state),
        EventKind::Failure => (None, state),
        EventKind::Unknown => (Some(unknown_event_chunk(event, state)), state),
    }
}

/// Reads one event of a stream.
pub fn ingest_event(event: &Json, state: &mut StreamState) -> (r: Option<ChatResponseChunk>)
    ensures
        (r.deep_view(), final(state)@) == ingested_event(event@, old(state)@),
{
    match event_kind(event) {
        EventKind::MessageStart => Some(ingest_message_start(event, state)),
        EventKind::BlockStart => Some(ingest_block_start(event, state)),
        EventKind::BlockDelta => Some(ingest_block_delta(event, state)),
        EventKind::MessageDelta => Some(ingest_message_delta(event, state)),
        EventKind::MessageStop => ingest_message_stop(state),
        EventKind::Silent => None,
        EventKind::Failure => None,
        EventKind::Unknown => Some(unknown_chunk(event, state)),
    }
}

// ---------------------------------------------------------------------------
// Rendering
// ---------------------------------------------------------------------------

/// The cached tokens of a usage can be counted together.
pub open spec fn countable(usage: Option<UsageView>) -> bool {
    match usage {
        Some(usage) => or_zero(usage.cache_read_tokens) + or_zero(usage.cache_write_tokens)
            <= u64::MAX,
        None => true,
    }
}

/// A count that fits in 32 bits, of one that need not.
pub open spec fn narrowed(n: Option<u64>) -> Option<JsonView> {
    match n {
        Some(n) => Some(count((n as u32) as u64)),
        None => None,
    }
}

fn narrow(n: Option<u64>) -> (r: Option<Json>)
    ensures
        r.deep_view() == narrowed(n),
{
    match n {
        Some(n) => {
            let n: u32 = #[verifier::truncate] (n as u32);
            Some(Json::count(n as u64))
        },
        None => None,
    }
}

/// The token counts of a rendered end of a message.
pub open spec fn rendered_delta_usage(usage: UsageView) -> JsonView {
    let cached = or_zero(usage.cache_read_tokens) + or_zero(usage.cache_write_tokens);
    let f = fields1("output_tokens"@, count((or_zero(usage.output_tokens) as u32) as u64));
    let f = assigned(
        f,
        "input_tokens"@,
        match usage.input_tokens {
            Some(n) => narrowed(Some(minus(n, cached as u64))),
            None => None,
        },
    );
    let f = assigned(f, "cache_creation_input_tokens"@, narrowed(usage.cache_write_tokens));
    JsonView::Object(
        assigned(f, "cache_read_input_tokens"@, narrowed(usage.cache_read_tokens)),
    )
}

fn delta_usage_of(usage: &Usage) -> (r: Json)
    requires
        countable(Some(usage@)),
    ensures
        r@ == rendered_delta_usage(usage@),
{
    let cached: u64 = usage.cache_read_tokens.unwrap_or(0) + usage.cache_write_tokens.unwrap_or(0);
    let output: u64 = usage.output_tokens.unwrap_or(0);
    let output: u32 = #[verifier::truncate] (output as u32);
    let mut fields = object1("output_tokens", Json::count(output as u64)).fields();
    let input = match usage.input_tokens {
        Some(n) => narrow(Some(n.saturating_sub(cached))),
        None => None,
    };
    fields.set("input_tokens", input);
    fields.set("cache_creation_input_tokens", narrow(usage.cache_write_tokens));
    fields.set("cache_read_input_tokens", narrow(usage.cache_read_tokens));
    Json::Object(fields)
}

/// The token counts of an end of a message that gives none.
pub open spec fn unknown_usage_json() -> JsonView {
    JsonView::Object(fields1("output_tokens"@, count(0)))
}

fn unknown_usage() -> (r: Json)
    ensures
        r@ == unknown_usage_json(),
{
    object1("output_tokens", Json::count(0))
}

/// How a rendered end of a message ends it.
pub open spec fn rendered_ending(
    completion: CompletionDeltaView,
    provider: Seq<char>,
) -> FieldsView {
    let f = merged(Protocol::Anthropic, completion.ext, provider);
    let f = assigned(
        f,
        "stop_reason"@,
        match completion.finish_reason_raw {
            Some(raw) => Some(string(raw)),
            None => if find(f, "stop_reason"@) is Some {
                Some(JsonView::Null)
            } else {
                None
            },
        },
    );
    settled(
        f,
        "stop_sequence"@,
        present(f, "stop_sequence"@, |v: JsonView| nullable_string(v)),
        None,
    )
}

/// The event that ends a message.
pub open spec fn rendered_message_delta(
    chunk: ChatResponseChunkView,
    completion: CompletionDeltaView,
    kept: FieldsView,
    provider: Seq<char>,
) -> JsonView {
    let usage = match field_if(kept, "usage"@, |v: JsonView| delta_usage_shape(v)) {
        Some(usage) => usage,
        None => match chunk.usage {
            Some(usage) => rendered_delta_usage(usage),
            None => unknown_usage_json(),
        },
    };
    let f = put(kept, "type"@, string("message_delta"@));
    let f = put(f, "delta"@, JsonView::Object(rendered_ending(completion, provider)));
    JsonView::Object(put(f, "usage"@, usage))
}

fn render_ending(completion: &CompletionDelta, provider: &str) -> (r: Json)
    ensures
        r@ == JsonView::Object(rendered_ending(completion@, provider@)),
{
    let mut fields = merged_ext(Protocol::Anthropic, &completion.ext, provider);
    let reason: Option<Json> = match &completion.finish_reason_raw {
        Some(raw) => Some(Json::String(raw.clone())),
        None => if fields.has("stop_reason") {
            Some(Json::Null)
        } else {
            None
        },
    };
    fields.set("stop_reason", reason);
    let keep = match fields.get("stop_sequence") {
        Some(v) => is_nullable_string(v),
        None => false,
    };
    fields.settle("stop_sequence", keep, None);
    Json::Object(fields)
}

fn render_message_delta(
    chunk: &ChatResponseChunk,
    completion: &CompletionDelta,
    kept: Fields,
    provider: &str,
) -> (r: Json)
    requires
        countable(chunk@.usage),
    ensures
        r@ == rendered_message_delta(chunk@, completion@, kept@, provider@),
{
    let mut fields = kept;
    let retained: Option<Json> = match fields.get("usage") {
        Some(usage) => if is_delta_usage(usage) {
            Some(usage.clone())
        } else {
            None
        },
        None => None,
    };
    let usage = match retained {
        Some(usage) => usage,
        None => match &chunk.usage {
            Some(usage) => delta_usage_of(usage),
            None => unknown_usage(),
        },
    };
    fields.put("type", Json::text("message_delta"));
    fields.put("delta", render_ending(completion, provider));
    fields.put("usage", usage);
    Json::Object(fields)
}

/// The index of the call that a completion begins with; zero where it begins
/// with none.
pub open spec fn call_index(completion: CompletionDeltaView) -> u32 {
    if completion.delta.content.len() > 0 {
        match completion.delta.content[0] {
            ContentDeltaView::ToolCall { index, .. } => index,
            _ => 0,
        }
    } else {
        0
    }
}

fn delta_index(completion: &CompletionDelta) -> (r: u32)
    ensures
        r == call_index(completion@),
{
    if completion.delta.content.len() > 0 {
        match &completion.delta.content[0] {
            ContentDelta::ToolCall { index, .. } => *index,
            _ => 0,
        }
    } else {
        0
    }
}

/// A fragment as a delta of a block, where it is one.
pub open spec fn rendered_fragment(fragment: ContentDeltaView) -> Option<JsonView> {
    match fragment {
        ContentDeltaView::Text { text } => Some(
            JsonView::Object(
                fields2("type"@, string("text_delta"@), "text"@, string(text)),
            ),
        ),
        ContentDeltaView::Reasoning { text, .. } => Some(
            JsonView::Object(
                fields2("type"@, string("thinking_delta"@), "thinking"@, string(text)),
            ),
        ),
        ContentDeltaView::ToolCall { arguments, .. } => match arguments {
            Some(json) => Some(
                JsonView::Object(
                    fields2(
                        "type"@,
                        string("input_json_delta"@),
                        "partial_json"@,
                        string(json),
                    ),
                ),
            ),
            None => None,
        },
        ContentDeltaView::Unknown(value) => Some(value),
    }
}

fn render_delta(fragment: &ContentDelta) -> (r: Option<Json>)
    ensures
        r.deep_view() == rendered_fragment(fragment@),
{
    match fragment {
        ContentDelta::Text { text } => Some(
            object2("type", Json::text("text_delta"), "text", Json::String(text.clone())),
        ),
        ContentDelta::Reasoning { text, .. } => Some(
            object2("type", Json::text("thinking_delta"), "thinking", Json::String(text.clone())),
        ),
        ContentDelta::ToolCall { arguments, .. } => match arguments {
            Some(json) => Some(
                object2(
                    "type",
                    Json::text("input_json_delta"),
                    "partial_json",
                    Json::String(json.clone()),
                ),
            ),
            None => None,
        },
        ContentDelta::Unknown(value) => Some(value.clone()),
    }
}

/// The event that starts a block.
pub open spec fn wire_block_start(index: u32, block: JsonView, rest: FieldsView) -> JsonView {
    let f = put(rest, "type"@, string("content_block_start"@));
    let f = put(f, "index"@, count(index as u64));
    JsonView::Object(put(f, "content_block"@, block))
}

fn build_block_start(index: u32, block: Json, rest: Fields) -> (r: Json)
    ensures
        r@ == wire_block_start(index, block@, rest@),
{
    let mut fields = rest;
    fields.put("type", Json::text("content_block_start"));
    fields.put("index", Json::count(index as u64));
    fields.put("content_block", block);
    Json::Object(fields)
}

/// The event that adds to a block.
pub open spec fn wire_block_delta(index: u32, delta: JsonView, rest: FieldsView) -> JsonView {
    let f = put(rest, "type"@, string("content_block_delta"@));
    let f = put(f, "index"@, count(index as u64));
    JsonView::Object(put(f, "delta"@, delta))
}

fn build_block_delta(index: u32, delta: Json, rest: Fields) -> (r: Json)
    ensures
        r@ == wire_block_delta(index, delta@, rest@),
{
    let mut fields = rest;
    fields.put("type", Json::text("content_block_delta"));
    fields.put("index", Json::count(index as u64));
    fields.put("delta", delta);
    Json::Object(fields)
}

/// The event for a fragment of another protocol. A call that is named starts a
/// block.
pub open spec fn rendered_foreign_event(
    fragment: ContentDeltaView,
    index: u32,
    rest: FieldsView,
) -> Option<JsonView> {
    match fragment {
        ContentDeltaView::ToolCall { id: Some(id), name: Some(name), .. } => Some(
            wire_block_start(
                index,
                tool_use_block(id, name, JsonView::Object(no_fields())),
                rest,
            ),
        ),
        _ => match rendered_fragment(fragment) {
            Some(delta) => Some(wire_block_delta(index, delta, rest)),
            None => None,
        },
    }
}

fn render_foreign_event(fragment: &ContentDelta, index: u32, rest: Fields) -> (r: Option<Json>)
    ensures
        r.deep_view() == rendered_foreign_event(fragment@, index, rest@),
{
    if let ContentDelta::ToolCall { id: Some(id), name: Some(name), .. } = fragment {
        let block = render_tool_use(id, name, Json::Object(Fields::new()));
        return Some(build_block_start(index, block, rest));
    }
    match render_delta(fragment) {
        Some(delta) => Some(build_block_delta(index, delta, rest)),
        None => None,
    }
}

/// The index that an event of a block came with.
pub open spec fn kept_index(kept: FieldsView) -> Option<u32> {
    match find(kept, "index"@) {
        Some(value) => match value.as_u64() {
            Some(n) => Some(n as u32),
            None => None,
        },
        None => None,
    }
}

fn read_kept_index(kept: &Fields) -> (r: Option<u32>)
    ensures
        r == kept_index(kept@),
{
    match kept.get("index") {
        Some(value) => match value.as_u64() {
            Some(n) => Some(#[verifier::truncate] (n as u32)),
            None => None,
        },
        None => None,
    }
}

/// The event for what a completion adds: as it came, else from its first
/// fragment.
pub open spec fn rendered_content_event(
    completion: CompletionDeltaView,
    provider: Seq<char>,
) -> Option<JsonView> {
    let kept = merged(Protocol::Anthropic, completion.delta.ext, provider);
    let rest = without(kept, "index"@);
    let fallback = match kept_index(kept) {
        Some(n) => n,
        None => call_index(completion),
    };
    match find(rest, "content_block"@) {
        Some(block) => Some(
            wire_block_start(
                match kept_index(kept) {
                    Some(n) => n,
                    None => 0,
                },
                block,
                rest,
            ),
        ),
        None => match find(rest, "delta"@) {
            Some(delta) => Some(wire_block_delta(fallback, delta, rest)),
            None => if completion.delta.content.len() > 0 {
                rendered_foreign_event(completion.delta.content[0], fallback, rest)
            } else {
                None
            },
        },
    }
}

fn render_content_event(completion: &CompletionDelta, provider: &str) -> (r: Option<Json>)
    ensures
        r.deep_view() == rendered_content_event(completion@, provider@),
{
    let mut fields = merged_ext(Protocol::Anthropic, &completion.delta.ext, provider);
    let index: Option<u32> = read_kept_index(&fields);
    fields.remove("index");
    let block: Option<Json> = match fields.get("content_block") {
        Some(block) => Some(block.clone()),
        None => None,
    };
    if let Some(block) = block {
        return Some(build_block_start(index.unwrap_or(0), block, fields));
    }
    let fallback: u32 = match index {
        Some(n) => n,
        None => delta_index(completion),
    };
    let delta: Option<Json> = match fields.get("delta") {
        Some(delta) => Some(delta.clone()),
        None => None,
    };
    if let Some(delta) = delta {
        return Some(build_block_delta(fallback, delta, fields));
    }
    if completion.delta.content.len() > 0 {
        render_foreign_event(&completion.delta.content[0], fallback, fields)
    } else {
        None
    }
}

/// The event for a chunk, if it is one.
pub open spec fn rendered_event(chunk: ChatResponseChunkView, provider: Seq<char>) -> Option<
    JsonView,
> {
    let kept = merged(Protocol::Anthropic, chunk.ext, provider);
    match find(kept, "event"@) {
        Some(event) => Some(event),
        None => if present(kept, "message"@, |v: JsonView| message_shape(v)) {
            Some(JsonView::Object(put(kept, "type"@, string("message_start"@))))
        } else if chunk.completions.len() == 0 {
            None
        } else {
            let completion = chunk.completions[0];
            if completion.finish_reason_raw is Some || find(kept, "usage"@) is Some {
                Some(
                    rendered_message_delta(
                        chunk,
                        completion,
                        without(kept, "message"@),
                        provider,
                    ),
                )
            } else {
                rendered_content_event(completion, provider)
            }
        },
    }
}

/// Renders a chunk as an event. A chunk that holds nothing an event would say is
/// none.
pub fn render_event(chunk: &ChatResponseChunk, provider: &str) -> (r: Option<Json>)
    requires
        countable(chunk@.usage),
    ensures
        r.deep_view() == rendered_event(chunk@, provider@),
{
    let mut fields = merged_ext(Protocol::Anthropic, &chunk.ext, provider);
    if let Some(event) = fields.get("event") {
        return Some(event.clone());
    }
    let starts = match fields.get("message") {
        Some(message) => is_message(message),
        None => false,
    };
    if starts {
        fields.put("type", Json::text("message_start"));
        return Some(Json::Object(fields));
    }
    if chunk.completions.len() == 0 {
        return None;
    }
    let completion = &chunk.completions[0];
    if completion.finish_reason_raw.is_some() || fields.has("usage") {
        fields.remove("message");
        return Some(render_message_delta(chunk, completion, fields, provider));
    }
    render_content_event(completion, provider)
}

} // verus!
