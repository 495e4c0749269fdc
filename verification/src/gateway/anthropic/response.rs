//! Whole replies, between Anthropic's messages and the common form.
use vstd::prelude::*;

use crate::gateway::ext::{kept_under, merged, merged_ext, namespaced};
use crate::gateway::openai_compat::request::{field_if, take_string, text_at};
use crate::gateway::openai_compat::response::{
    json_or_null, sans_count, str_or_empty, string_or_null, text_or_empty, widen, widened,
    with_count,
};
use crate::gateway::openai_compat::wire::present;
use crate::gateway::types::message::{
    block_models, CacheHint, CacheHintView, ContentBlock, ContentBlockView, MediaSource,
    MediaSourceView, Message, MessageView, ReasoningDetail, ReasoningDetailView, Role,
};
use crate::gateway::types::response::{
    ChatResponse, ChatResponseView, Completion, CompletionView, FinishReason, Usage, UsageView,
};
use crate::gateway::types::{raw_value, IngestSource, IngestSourceView, RawJson};
use crate::json::{
    assigned, count, fields1, fields2, fields3, find, index_of, json_string, models, no_fields,
    object1, object2, object3, opt_string, put, settled, string, without, Fields, FieldsView, Json,
    JsonView,
};
use crate::json_text::{deepest, reads_back, text_of_json};
use crate::text::same_text;
use crate::types::{protocol_name, Protocol};

use super::{
    cache_control, cache_hint, control_for, hint_in, known_role, role_from_wire, role_to_wire,
    role_word,
};

verus! {

// ---------------------------------------------------------------------------
// Reading
// ---------------------------------------------------------------------------

/// Why a reply ended. A paused turn is not a stop.
pub open spec fn reason_for(stop_reason: Option<Seq<char>>) -> FinishReason {
    match stop_reason {
        Some(word) => if word == "end_turn"@ || word == "stop_sequence"@ {
            FinishReason::Stop
        } else if word == "max_tokens"@ || word == "model_context_window_exceeded"@ {
            FinishReason::Length
        } else if word == "tool_use"@ {
            FinishReason::ToolCalls
        } else if word == "refusal"@ {
            FinishReason::ContentFilter
        } else {
            FinishReason::Other
        },
        None => FinishReason::Other,
    }
}

/// Reads why a reply ended.
pub fn finish_reason(stop_reason: Option<&str>) -> (r: FinishReason)
    ensures
        r == reason_for(stop_reason.deep_view()),
{
    let Some(word) = stop_reason else {
        return FinishReason::Other;
    };
    if same_text(word, "end_turn") || same_text(word, "stop_sequence") {
        FinishReason::Stop
    } else if same_text(word, "max_tokens") || same_text(word, "model_context_window_exceeded") {
        FinishReason::Length
    } else if same_text(word, "tool_use") {
        FinishReason::ToolCalls
    } else if same_text(word, "refusal") {
        FinishReason::ContentFilter
    } else {
        FinishReason::Other
    }
}

/// The hint in a cache control, where one is given.
pub open spec fn hint_at(value: JsonView) -> Option<CacheHintView> {
    match value.get("cache_control"@) {
        Some(JsonView::Object(fields)) => Some(hint_in(JsonView::Object(fields))),
        _ => None,
    }
}

/// Reads a cache control, where one is given.
pub fn hint_of(value: &Json) -> (r: Option<CacheHint>)
    ensures
        r.deep_view() == hint_at(value@),
{
    match value.get("cache_control") {
        Some(control @ Json::Object(_)) => Some(cache_hint(control)),
        _ => None,
    }
}

/// Where the bytes of a block are, if that has a form of its own.
pub open spec fn source_in(source: JsonView) -> Option<MediaSourceView> {
    let tag = source.str_at("type"@);
    let media_type = source.str_at("media_type"@);
    let data = source.str_at("data"@);
    let url = source.str_at("url"@);
    let file_id = source.str_at("file_id"@);
    if tag == Some("base64"@) && media_type is Some && data is Some {
        Some(MediaSourceView::Base64 { media_type: media_type->0, data: data->0 })
    } else if tag == Some("url"@) && url is Some {
        Some(MediaSourceView::Url { url: url->0 })
    } else if tag == Some("file"@) && file_id is Some {
        Some(MediaSourceView::ProviderFile { id: file_id->0 })
    } else {
        None
    }
}

fn media_source(source: &Json) -> (r: Option<MediaSource>)
    ensures
        r.deep_view() == source_in(source@),
{
    let Some(tag) = source.str_at("type") else {
        return None;
    };
    if same_text(tag.as_str(), "base64") {
        if let (Some(media_type), Some(data)) = (
            source.str_at("media_type"),
            source.str_at("data"),
        ) {
            return Some(MediaSource::Base64 { media_type, data });
        }
    }
    if same_text(tag.as_str(), "url") {
        if let Some(url) = source.str_at("url") {
            return Some(MediaSource::Url { url });
        }
    }
    if same_text(tag.as_str(), "file") {
        if let Some(id) = source.str_at("file_id") {
            return Some(MediaSource::ProviderFile { id });
        }
    }
    None
}

/// Where the bytes of a block are, if it says so in a known form.
pub open spec fn source_at(block: JsonView) -> Option<MediaSourceView> {
    match block.get("source"@) {
        Some(source) => source_in(source),
        None => None,
    }
}

fn source_of(block: &Json) -> (r: Option<MediaSource>)
    ensures
        r.deep_view() == source_at(block@),
{
    match block.get("source") {
        Some(source) => media_source(source),
        None => None,
    }
}

/// Reasoning that Anthropic showed.
pub open spec fn own_reasoning(detail: ReasoningDetailView) -> ContentBlockView {
    ContentBlockView::Reasoning {
        detail,
        provenance: Some(protocol_name(Protocol::Anthropic)),
        id: None,
    }
}

fn ingest_reasoning(detail: ReasoningDetail) -> (r: ContentBlock)
    ensures
        r@ == own_reasoning(detail@),
{
    ContentBlock::Reasoning {
        detail,
        provenance: Some(Protocol::Anthropic.as_str().to_owned()),
        id: None,
    }
}

/// What a tool answered: text, or blocks.
pub open spec fn ingested_result_content(block: JsonView) -> Seq<ContentBlockView>
    decreases block, 0nat,
{
    match block {
        JsonView::Object(fields) => {
            let i = index_of(fields, "content"@) as int;
            if 0 <= i < fields.len() {
                match fields[i].1 {
                    JsonView::String(text) => seq![ContentBlockView::Text { text, cache: None }],
                    JsonView::Array(items) => ingested_blocks(items),
                    _ => Seq::empty(),
                }
            } else {
                Seq::empty()
            }
        },
        _ => Seq::empty(),
    }
}

/// The blocks that several wire blocks stand for.
pub open spec fn ingested_blocks(items: Seq<JsonView>) -> Seq<ContentBlockView>
    decreases items, 0nat,
{
    Seq::new(
        items.len(),
        |i: int|
            if 0 <= i < items.len() {
                ingested_block(items[i])
            } else {
                ContentBlockView::Unknown(JsonView::Null)
            },
    )
}

/// The block a wire block stands for. One with no form of its own is kept whole.
pub open spec fn ingested_block(block: JsonView) -> ContentBlockView
    decreases block, 1nat,
{
    let tag = block.str_at("type"@);
    let text = block.str_at("text"@);
    let id = block.str_at("id"@);
    let name = block.str_at("name"@);
    let input = block.get("input"@);
    let call_id = block.str_at("tool_use_id"@);
    let thinking = block.str_at("thinking"@);
    let data = block.str_at("data"@);
    if tag == Some("text"@) && text is Some {
        ContentBlockView::Text { text: text->0, cache: hint_at(block) }
    } else if tag == Some("image"@) && source_at(block) is Some {
        ContentBlockView::Image {
            source: source_at(block)->0,
            detail: None,
            cache: hint_at(block),
        }
    } else if tag == Some("document"@) && source_at(block) is Some {
        ContentBlockView::Document {
            source: source_at(block)->0,
            title: block.str_at("title"@),
            cache: hint_at(block),
        }
    } else if tag == Some("tool_use"@) && id is Some && name is Some && input is Some {
        ContentBlockView::ToolCall {
            id: id->0,
            name: name->0,
            arguments: text_of_json(input->0),
        }
    } else if tag == Some("tool_result"@) && call_id is Some {
        ContentBlockView::ToolResult {
            call_id: call_id->0,
            content: ingested_result_content(block),
            is_error: block.bool_at("is_error"@) == Some(true),
        }
    } else if tag == Some("thinking"@) && thinking is Some {
        own_reasoning(
            ReasoningDetailView::Text { text: thinking->0, signature: block.str_at("signature"@) },
        )
    } else if tag == Some("redacted_thinking"@) && data is Some {
        own_reasoning(ReasoningDetailView::Encrypted { data: data->0 })
    } else {
        ContentBlockView::Unknown(block)
    }
}

/// Reads several blocks.
pub fn ingest_blocks(items: &Vec<Json>) -> (r: Vec<ContentBlock>)
    ensures
        block_models(r@) == ingested_blocks(models(items@)),
    decreases items,
{
    let mut out: Vec<ContentBlock> = Vec::new();
    for i in 0..items.len()
        invariant
            out.len() == i,
            forall|k: int| 0 <= k < i ==> out@[k]@ == ingested_block(items@[k]@),
    {
        out.push(ingest_block(&items[i]));
    }
    assert(block_models(out@) =~= ingested_blocks(models(items@)));
    out
}

fn ingest_result_content(block: &Json) -> (r: Vec<ContentBlock>)
    ensures
        block_models(r@) == ingested_result_content(block@),
    decreases block, 0nat,
{
    match block {
        Json::Object(fields) => {
            for i in 0..fields.entries.len()
                invariant
                    block@ == JsonView::Object(fields@),
                    *block == Json::Object(*fields),
                    forall|j: int| 0 <= j < i ==> fields@[j].0 != "content"@,
            {
                if same_text(fields.entries[i].0.as_str(), "content") {
                    proof {
                        crate::json::lemma_index_of(fields@, "content"@, i as nat);
                    }
                    let out = match &fields.entries[i].1 {
                        Json::String(text) => vec![
                            ContentBlock::Text { text: text.clone(), cache: None },
                        ],
                        Json::Array(items) => ingest_blocks(items),
                        _ => Vec::new(),
                    };
                    assert(block_models(out@) =~= ingested_result_content(block@));
                    return out;
                }
            }
            proof {
                crate::json::lemma_index_of(fields@, "content"@, fields@.len());
            }
        },
        _ => {},
    }
    let out: Vec<ContentBlock> = Vec::new();
    assert(block_models(out@) =~= ingested_result_content(block@));
    out
}

/// Reads one block. The arguments of a call read back as its input.
pub fn ingest_block(block: &Json) -> (r: ContentBlock)
    ensures
        r@ == ingested_block(block@),
        (r@ matches ContentBlockView::ToolCall { arguments, .. }) && reads_back(
            block@.get("input"@)->0,
            deepest(),
        ) ==> raw_value(r@->arguments) == block@.get("input"@),
    decreases block, 1nat,
{
    if let Some(tag) = block.str_at("type") {
        if same_text(tag.as_str(), "text") {
            if let Some(text) = block.str_at("text") {
                return ContentBlock::Text { text, cache: hint_of(block) };
            }
        }
        if same_text(tag.as_str(), "image") {
            if let Some(source) = source_of(block) {
                return ContentBlock::Image { source, detail: None, cache: hint_of(block) };
            }
        }
        if same_text(tag.as_str(), "document") {
            if let Some(source) = source_of(block) {
                return ContentBlock::Document {
                    source,
                    title: block.str_at("title"),
                    cache: hint_of(block),
                };
            }
        }
        if same_text(tag.as_str(), "tool_use") {
            if let (Some(id), Some(name), Some(input)) = (
                block.str_at("id"),
                block.str_at("name"),
                block.get("input"),
            ) {
                return ContentBlock::ToolCall { id, name, arguments: RawJson::from_value(input) };
            }
        }
        if same_text(tag.as_str(), "tool_result") {
            if let Some(call_id) = block.str_at("tool_use_id") {
                let is_error = match block.bool_at("is_error") {
                    Some(flag) => flag,
                    None => false,
                };
                return ContentBlock::ToolResult {
                    call_id,
                    content: ingest_result_content(block),
                    is_error,
                };
            }
        }
        if same_text(tag.as_str(), "thinking") {
            if let Some(text) = block.str_at("thinking") {
                return ingest_reasoning(
                    ReasoningDetail::Text { text, signature: block.str_at("signature") },
                );
            }
        }
        if same_text(tag.as_str(), "redacted_thinking") {
            if let Some(data) = block.str_at("data") {
                return ingest_reasoning(ReasoningDetail::Encrypted { data });
            }
        }
    }
    ContentBlock::Unknown(block.clone())
}

/// The role of a message; one that the protocol does not know is the user's.
pub open spec fn wire_role(value: JsonView) -> Role {
    match value.str_at("role"@) {
        Some(word) => match known_role(word) {
            Some(role) => role,
            None => Role::User,
        },
        None => Role::User,
    }
}

/// The role as it was spelled, where the protocol does not know it.
pub open spec fn strange_role(value: JsonView) -> Option<Seq<char>> {
    match value.str_at("role"@) {
        Some(word) => if known_role(word) is Some {
            None
        } else {
            Some(word)
        },
        None => None,
    }
}

/// Reads a role.
pub fn read_role(value: &Json) -> (r: (Role, Option<String>))
    ensures
        r.0 == wire_role(value@),
        r.1.deep_view() == strange_role(value@),
{
    match value.str_at("role") {
        Some(word) => role_from_wire(word),
        None => (Role::User, None),
    }
}

/// The fields without `key` where it holds a count of 32 bits.
pub open spec fn sans_u32(fields: FieldsView, key: Seq<char>) -> FieldsView {
    match find(fields, key) {
        Some(value) => if value.as_u32() is Some {
            without(fields, key)
        } else {
            fields
        },
        None => fields,
    }
}

/// Reads a count and takes it out.
fn lift_count(fields: &mut Fields, key: &str) -> (r: Option<u64>)
    ensures
        r == widened(JsonView::Object(old(fields)@).u32_at(key@)),
        final(fields)@ == sans_u32(old(fields)@, key@),
{
    let lifted: Option<u32> = match fields.get(key) {
        Some(value) => value.as_u32(),
        None => None,
    };
    if lifted.is_some() {
        fields.remove(key);
    }
    widen(lifted)
}

/// The details without the count that is lifted out of them.
pub open spec fn sans_thinking(fields: FieldsView) -> FieldsView {
    match find(fields, "output_tokens_details"@) {
        Some(JsonView::Object(inner)) => put(
            fields,
            "output_tokens_details"@,
            JsonView::Object(sans_count(inner, "thinking_tokens"@)),
        ),
        _ => fields,
    }
}

/// What thinking cost.
pub open spec fn thinking_count(fields: FieldsView) -> Option<u64> {
    match find(fields, "output_tokens_details"@) {
        Some(JsonView::Object(inner)) => match find(inner, "thinking_tokens"@) {
            Some(value) => value.as_u64(),
            None => None,
        },
        _ => None,
    }
}

fn lift_thinking(fields: &mut Fields) -> (r: Option<u64>)
    ensures
        r == thinking_count(old(fields)@),
        final(fields)@ == sans_thinking(old(fields)@),
{
    let inner: Option<Fields> = match fields.get("output_tokens_details") {
        Some(Json::Object(inner)) => Some(inner.clone()),
        _ => None,
    };
    match inner {
        Some(mut inner) => {
            let lifted: Option<u64> = match inner.get("thinking_tokens") {
                Some(value) => value.as_u64(),
                None => None,
            };
            if lifted.is_some() {
                inner.remove("thinking_tokens");
            }
            fields.put("output_tokens_details", Json::Object(inner));
            lifted
        },
        None => None,
    }
}

/// The tokens of the prompt that were read from a cache or written to one.
pub open spec fn cached_tokens(usage: JsonView) -> int {
    let read = match usage.u32_at("cache_read_input_tokens"@) {
        Some(n) => n as int,
        None => 0,
    };
    let written = match usage.u32_at("cache_creation_input_tokens"@) {
        Some(n) => n as int,
        None => 0,
    };
    read + written
}

/// The count in a field; zero where there is none.
pub open spec fn u32_or_zero(value: JsonView, key: Seq<char>) -> u32 {
    match value.u32_at(key) {
        Some(n) => n,
        None => 0,
    }
}

/// What a usage keeps. The count of input is kept as it came where it leaves
/// cached tokens out.
pub open spec fn usage_residue(usage: JsonView) -> FieldsView {
    let f = without(without(usage.fields(), "input_tokens"@), "output_tokens"@);
    let f = sans_u32(
        sans_u32(f, "cache_creation_input_tokens"@),
        "cache_read_input_tokens"@,
    );
    let f = sans_thinking(f);
    if cached_tokens(usage) > 0 {
        put(f, "input_tokens"@, count(u32_or_zero(usage, "input_tokens"@) as u64))
    } else {
        f
    }
}

/// The token counts a usage stands for. Anthropic counts cached tokens apart
/// from the input; here the input counts all of them.
pub open spec fn ingested_usage(usage: JsonView) -> UsageView {
    let input = u32_or_zero(usage, "input_tokens"@) + cached_tokens(usage);
    let output = u32_or_zero(usage, "output_tokens"@);
    UsageView {
        input_tokens: Some(input as u64),
        output_tokens: Some(output as u64),
        total_tokens: Some((input + output) as u64),
        reasoning_tokens: thinking_count(usage.fields()),
        cache_read_tokens: widened(usage.u32_at("cache_read_input_tokens"@)),
        cache_write_tokens: widened(usage.u32_at("cache_creation_input_tokens"@)),
        ext: kept_under(Protocol::Anthropic, usage_residue(usage)),
    }
}

/// Reads the token counts of a reply.
pub fn ingest_usage(usage: &Json) -> (r: Usage)
    ensures
        r@ == ingested_usage(usage@),
{
    broadcast use crate::json::group_find;

    proof {
        lemma_usage_keys();
    }
    let mut fields = usage.fields();
    let ghost all = fields@;
    fields.remove("input_tokens");
    fields.remove("output_tokens");
    let ghost rest = fields@;
    assert(find(rest, "cache_creation_input_tokens"@) == find(
        all,
        "cache_creation_input_tokens"@,
    ));
    let written: Option<u64> = lift_count(&mut fields, "cache_creation_input_tokens");
    assert(find(fields@, "cache_read_input_tokens"@) == find(all, "cache_read_input_tokens"@));
    let read: Option<u64> = lift_count(&mut fields, "cache_read_input_tokens");
    assert(find(fields@, "output_tokens_details"@) == find(all, "output_tokens_details"@));
    let thinking: Option<u64> = lift_thinking(&mut fields);
    let input: u32 = match usage.u32_at("input_tokens") {
        Some(n) => n,
        None => 0,
    };
    let output: u32 = match usage.u32_at("output_tokens") {
        Some(n) => n,
        None => 0,
    };
    let cached: u64 = (match read {
        Some(n) => n,
        None => 0,
    }) + (match written {
        Some(n) => n,
        None => 0,
    });
    assert(cached == cached_tokens(usage@));
    let total: u64 = input as u64 + cached;
    if cached > 0 {
        fields.put("input_tokens", Json::count(input as u64));
    }
    Usage {
        input_tokens: Some(total),
        output_tokens: Some(output as u64),
        total_tokens: Some(total + output as u64),
        reasoning_tokens: thinking,
        cache_read_tokens: read,
        cache_write_tokens: written,
        ext: namespaced(Protocol::Anthropic, fields),
    }
}

/// The names of the counts differ.
pub proof fn lemma_usage_keys()
    ensures
        "input_tokens"@ != "output_tokens"@,
        "input_tokens"@ != "cache_creation_input_tokens"@,
        "input_tokens"@ != "cache_read_input_tokens"@,
        "input_tokens"@ != "output_tokens_details"@,
        "output_tokens"@ != "cache_creation_input_tokens"@,
        "output_tokens"@ != "cache_read_input_tokens"@,
        "output_tokens"@ != "output_tokens_details"@,
        "cache_creation_input_tokens"@ != "cache_read_input_tokens"@,
        "cache_creation_input_tokens"@ != "output_tokens_details"@,
        "cache_read_input_tokens"@ != "output_tokens_details"@,
{
    reveal_strlit("input_tokens");
    reveal_strlit("output_tokens");
    reveal_strlit("cache_creation_input_tokens");
    reveal_strlit("cache_read_input_tokens");
    reveal_strlit("output_tokens_details");
    assert("input_tokens"@.len() != "output_tokens"@.len());
    assert("input_tokens"@.len() != "cache_creation_input_tokens"@.len());
    assert("input_tokens"@.len() != "cache_read_input_tokens"@.len());
    assert("input_tokens"@.len() != "output_tokens_details"@.len());
    assert("output_tokens"@.len() != "cache_creation_input_tokens"@.len());
    assert("output_tokens"@.len() != "cache_read_input_tokens"@.len());
    assert("output_tokens"@.len() != "output_tokens_details"@.len());
    assert("cache_creation_input_tokens"@.len() != "cache_read_input_tokens"@.len());
    assert("cache_creation_input_tokens"@.len() != "output_tokens_details"@.len());
    assert("cache_read_input_tokens"@.len() != "output_tokens_details"@.len());
}

/// What a reply keeps. The sequence it stopped at is kept, though it be `null`.
pub open spec fn response_residue(response: JsonView) -> FieldsView {
    let f = without(without(without(response.fields(), "id"@), "role"@), "content"@);
    let f = without(without(without(f, "model"@), "stop_reason"@), "usage"@);
    settled(
        f,
        "stop_sequence"@,
        find(f, "stop_sequence"@) is Some,
        Some(JsonView::Null),
    )
}

/// What the message of a reply keeps: its content as it came, and a role that
/// the protocol does not know.
pub open spec fn message_residue(response: JsonView) -> FieldsView {
    assigned(
        assigned(no_fields(), "content"@, response.get("content"@)),
        "role"@,
        opt_string(strange_role(response)),
    )
}

/// The reply a wire message stands for.
pub open spec fn ingested_response(response: JsonView) -> ChatResponseView {
    let raw = response.str_at("stop_reason"@);
    ChatResponseView {
        id: text_or_empty(response, "id"@),
        model: text_or_empty(response, "model"@),
        created: None,
        completions: seq![
            CompletionView {
                message: MessageView {
                    role: wire_role(response),
                    content: ingested_blocks(response.items_at("content"@)),
                    ext: kept_under(Protocol::Anthropic, message_residue(response)),
                },
                finish_reason: reason_for(raw),
                finish_reason_raw: match raw {
                    Some(raw) => raw,
                    None => Seq::empty(),
                },
                ext: no_fields(),
            },
        ],
        usage: Some(
            ingested_usage(
                match response.get("usage"@) {
                    Some(usage) => usage,
                    None => JsonView::Null,
                },
            ),
        ),
        ext: kept_under(Protocol::Anthropic, response_residue(response)),
        source: Some(IngestSourceView { protocol: Protocol::Anthropic, body: response }),
    }
}

/// Reads a whole reply.
pub fn ingest_response(response: &Json) -> (r: ChatResponse)
    ensures
        r@ == ingested_response(response@),
{
    let mut fields = response.fields();
    fields.remove("id");
    fields.remove("role");
    fields.remove("content");
    fields.remove("model");
    fields.remove("stop_reason");
    fields.remove("usage");
    let keep = fields.has("stop_sequence");
    fields.settle("stop_sequence", keep, Some(Json::Null));
    let (role, strange) = read_role(response);
    let mut beside = Fields::new();
    let content = match response.get("content") {
        Some(content) => Some(content.clone()),
        None => None,
    };
    beside.set("content", content);
    beside.set("role", json_string(&strange));
    let blocks = match response.items_at("content") {
        Some(items) => ingest_blocks(items),
        None => Vec::new(),
    };
    assert(block_models(blocks@) =~= ingested_blocks(response@.items_at("content"@)));
    let raw = response.str_at("stop_reason");
    let reason = match &raw {
        Some(raw) => finish_reason(Some(raw.as_str())),
        None => finish_reason(None),
    };
    let completion = Completion {
        message: Message { role, content: blocks, ext: namespaced(Protocol::Anthropic, beside) },
        finish_reason: reason,
        finish_reason_raw: match raw {
            Some(raw) => raw,
            None => String::new(),
        },
        ext: Fields::new(),
    };
    let completions = vec![completion];
    let usage = match response.get("usage") {
        Some(usage) => ingest_usage(usage),
        None => ingest_usage(&Json::Null),
    };
    let r = ChatResponse {
        id: str_or_empty(response, "id"),
        model: str_or_empty(response, "model"),
        created: None,
        completions,
        usage: Some(usage),
        ext: namespaced(Protocol::Anthropic, fields),
        source: Some(IngestSource { protocol: Protocol::Anthropic, body: response.clone() }),
    };
    assert(r@.completions =~= ingested_response(response@).completions);
    r
}

// ---------------------------------------------------------------------------
// Rendering
// ---------------------------------------------------------------------------

/// The cache control for a hint, where there is one.
pub open spec fn control_field(hint: Option<CacheHintView>) -> Option<JsonView> {
    match hint {
        Some(hint) => Some(control_for(hint)),
        None => None,
    }
}

/// Writes a cache control, where there is a hint.
pub fn control_of(hint: &Option<CacheHint>) -> (r: Option<Json>)
    ensures
        r.deep_view() == control_field(hint.deep_view()),
{
    match hint {
        Some(hint) => Some(cache_control(hint)),
        None => None,
    }
}

/// A source on the wire.
pub open spec fn rendered_source(source: MediaSourceView) -> JsonView {
    JsonView::Object(
        match source {
            MediaSourceView::Base64 { media_type, data } => fields3(
                "type"@,
                string("base64"@),
                "media_type"@,
                string(media_type),
                "data"@,
                string(data),
            ),
            MediaSourceView::Url { url } => fields2(
                "type"@,
                string("url"@),
                "url"@,
                string(url),
            ),
            MediaSourceView::ProviderFile { id } => fields2(
                "type"@,
                string("file"@),
                "file_id"@,
                string(id),
            ),
        },
    )
}

/// Writes a source.
pub fn render_source(source: &MediaSource) -> (r: Json)
    ensures
        r@ == rendered_source(source@),
{
    match source {
        MediaSource::Base64 { media_type, data } => object3(
            "type",
            Json::text("base64"),
            "media_type",
            Json::String(media_type.clone()),
            "data",
            Json::String(data.clone()),
        ),
        MediaSource::Url { url } => object2(
            "type",
            Json::text("url"),
            "url",
            Json::String(url.clone()),
        ),
        MediaSource::ProviderFile { id } => object2(
            "type",
            Json::text("file"),
            "file_id",
            Json::String(id.clone()),
        ),
    }
}

/// A text block on the wire.
pub open spec fn text_block(text: Seq<char>, cache: Option<CacheHintView>) -> JsonView {
    JsonView::Object(
        assigned(
            fields2("type"@, string("text"@), "text"@, string(text)),
            "cache_control"@,
            control_field(cache),
        ),
    )
}

/// Writes a text block.
pub fn render_text(text: &String, cache: &Option<CacheHint>) -> (r: Json)
    ensures
        r@ == text_block(text@, cache.deep_view()),
{
    let mut fields = object2(
        "type",
        Json::text("text"),
        "text",
        Json::String(text.clone()),
    ).fields();
    fields.set("cache_control", control_of(cache));
    Json::Object(fields)
}

/// An image block on the wire.
pub open spec fn image_block(source: JsonView, cache: Option<CacheHintView>) -> JsonView {
    JsonView::Object(
        assigned(
            fields2("type"@, string("image"@), "source"@, source),
            "cache_control"@,
            control_field(cache),
        ),
    )
}

/// Writes an image block.
pub fn render_image(source: Json, cache: &Option<CacheHint>) -> (r: Json)
    ensures
        r@ == image_block(source@, cache.deep_view()),
{
    let mut fields = object2("type", Json::text("image"), "source", source).fields();
    fields.set("cache_control", control_of(cache));
    Json::Object(fields)
}

/// A document block on the wire.
pub open spec fn document_block(
    source: JsonView,
    title: Option<Seq<char>>,
    cache: Option<CacheHintView>,
) -> JsonView {
    JsonView::Object(
        assigned(
            assigned(
                fields2("type"@, string("document"@), "source"@, source),
                "title"@,
                opt_string(title),
            ),
            "cache_control"@,
            control_field(cache),
        ),
    )
}

/// Writes a document block.
pub fn render_document(source: Json, title: &Option<String>, cache: &Option<CacheHint>) -> (r: Json)
    ensures
        r@ == document_block(source@, title.deep_view(), cache.deep_view()),
{
    let mut fields = object2("type", Json::text("document"), "source", source).fields();
    fields.set("title", json_string(title));
    fields.set("cache_control", control_of(cache));
    Json::Object(fields)
}

/// A tool call on the wire.
pub open spec fn tool_use_block(id: Seq<char>, name: Seq<char>, input: JsonView) -> JsonView {
    JsonView::Object(
        put(
            fields3("type"@, string("tool_use"@), "id"@, string(id), "name"@, string(name)),
            "input"@,
            input,
        ),
    )
}

/// Writes a tool call.
pub fn render_tool_use(id: &String, name: &String, input: Json) -> (r: Json)
    ensures
        r@ == tool_use_block(id@, name@, input@),
{
    let mut fields = object3(
        "type",
        Json::text("tool_use"),
        "id",
        Json::String(id.clone()),
        "name",
        Json::String(name.clone()),
    ).fields();
    fields.put("input", input);
    Json::Object(fields)
}

/// A tool's result on the wire.
pub open spec fn tool_result_block(
    call_id: Seq<char>,
    content: JsonView,
    is_error: bool,
) -> JsonView {
    JsonView::Object(
        assigned(
            fields3(
                "type"@,
                string("tool_result"@),
                "tool_use_id"@,
                string(call_id),
                "content"@,
                content,
            ),
            "is_error"@,
            if is_error {
                Some(JsonView::Bool(true))
            } else {
                None
            },
        ),
    )
}

/// Writes a tool's result.
pub fn render_tool_result(call_id: &String, content: Json, is_error: bool) -> (r: Json)
    ensures
        r@ == tool_result_block(call_id@, content@, is_error),
{
    let mut fields = object3(
        "type",
        Json::text("tool_result"),
        "tool_use_id",
        Json::String(call_id.clone()),
        "content",
        content,
    ).fields();
    let flag = if is_error {
        Some(Json::Bool(true))
    } else {
        None
    };
    fields.set("is_error", flag);
    Json::Object(fields)
}

/// Reasoning on the wire. Only Anthropic's own is rendered: it signs what it
/// shows, and refuses what it did not.
pub open spec fn rendered_reasoning(
    detail: ReasoningDetailView,
    provenance: Option<Seq<char>>,
) -> Option<JsonView> {
    if provenance != Some(protocol_name(Protocol::Anthropic)) {
        None
    } else {
        match detail {
            ReasoningDetailView::Text { text, signature } => Some(
                JsonView::Object(
                    assigned(
                        fields2("type"@, string("thinking"@), "thinking"@, string(text)),
                        "signature"@,
                        opt_string(signature),
                    ),
                ),
            ),
            ReasoningDetailView::Encrypted { data } => Some(
                JsonView::Object(
                    fields2("type"@, string("redacted_thinking"@), "data"@, string(data)),
                ),
            ),
            ReasoningDetailView::Summary { .. } => None,
        }
    }
}

/// Writes reasoning, where it is Anthropic's own.
pub fn render_reasoning(detail: &ReasoningDetail, provenance: &Option<String>) -> (r: Option<Json>)
    ensures
        r.deep_view() == rendered_reasoning(detail@, provenance.deep_view()),
{
    let own = match provenance {
        Some(name) => same_text(name.as_str(), Protocol::Anthropic.as_str()),
        None => false,
    };
    if !own {
        return None;
    }
    match detail {
        ReasoningDetail::Text { text, signature } => {
            let mut fields = object2(
                "type",
                Json::text("thinking"),
                "thinking",
                Json::String(text.clone()),
            ).fields();
            fields.set("signature", json_string(signature));
            Some(Json::Object(fields))
        },
        ReasoningDetail::Encrypted { data } => Some(
            object2("type", Json::text("redacted_thinking"), "data", Json::String(data.clone())),
        ),
        ReasoningDetail::Summary { .. } => None,
    }
}

/// The text of a single block that is one, without a cache hint.
pub open spec fn sole_text(blocks: Seq<ContentBlockView>) -> Option<Seq<char>> {
    if blocks.len() == 1 {
        match blocks[0] {
            ContentBlockView::Text { text, cache: None } => Some(text),
            _ => None,
        }
    } else {
        None
    }
}

/// Reads the text of a single block that is one.
pub fn read_sole_text(blocks: &Vec<ContentBlock>) -> (r: Option<String>)
    ensures
        r.deep_view() == sole_text(block_models(blocks@)),
{
    if blocks.len() == 1 {
        assert(block_models(blocks@)[0] == blocks@[0]@);
        match &blocks[0] {
            ContentBlock::Text { text, cache: None } => Some(text.clone()),
            _ => None,
        }
    } else {
        None
    }
}

/// A block of a rendered reply; none for what the protocol has no form for.
pub open spec fn rendered_block(block: ContentBlockView) -> Option<JsonView>
    decreases block, 1nat,
{
    match block {
        ContentBlockView::Text { text, cache } => Some(text_block(text, cache)),
        ContentBlockView::Image { source, cache, .. } => Some(
            image_block(rendered_source(source), cache),
        ),
        ContentBlockView::Document { source, title, cache } => Some(
            document_block(rendered_source(source), title, cache),
        ),
        ContentBlockView::ToolCall { id, name, arguments } => Some(
            tool_use_block(
                id,
                name,
                match raw_value(arguments) {
                    Some(input) => input,
                    None => JsonView::Null,
                },
            ),
        ),
        ContentBlockView::ToolResult { call_id, content, is_error } => Some(
            tool_result_block(
                call_id,
                match sole_text(content) {
                    Some(text) => string(text),
                    None => JsonView::Array(rendered_blocks(content)),
                },
                is_error,
            ),
        ),
        ContentBlockView::Reasoning { detail, provenance, .. } => rendered_reasoning(
            detail,
            provenance,
        ),
        ContentBlockView::Unknown(value) => Some(value),
        ContentBlockView::Audio { .. } => None,
    }
}

/// The blocks of a rendered reply.
pub open spec fn rendered_blocks(blocks: Seq<ContentBlockView>) -> Seq<JsonView>
    decreases blocks, blocks.len() + 1,
{
    rendered_up_to(blocks, blocks.len())
}

/// The first `n` blocks of a rendered reply.
pub open spec fn rendered_up_to(blocks: Seq<ContentBlockView>, n: nat) -> Seq<JsonView>
    decreases blocks, n,
{
    if n == 0 || n > blocks.len() {
        Seq::empty()
    } else {
        let before = rendered_up_to(blocks, (n - 1) as nat);
        match rendered_block(blocks[n - 1]) {
            Some(block) => before.push(block),
            None => before,
        }
    }
}

fn render_block(block: &ContentBlock) -> (r: Option<Json>)
    ensures
        r.deep_view() == rendered_block(block@),
    decreases block,
{
    match block {
        ContentBlock::Text { text, cache } => Some(render_text(text, cache)),
        ContentBlock::Image { source, cache, .. } => Some(
            render_image(render_source(source), cache),
        ),
        ContentBlock::Document { source, title, cache } => Some(
            render_document(render_source(source), title, cache),
        ),
        ContentBlock::ToolCall { id, name, arguments } => {
            let input = match arguments.parse() {
                Some(input) => input,
                None => Json::Null,
            };
            Some(render_tool_use(id, name, input))
        },
        ContentBlock::ToolResult { call_id, content, is_error } => {
            let content = match read_sole_text(content) {
                Some(text) => Json::String(text),
                None => Json::Array(render_blocks(content)),
            };
            Some(render_tool_result(call_id, content, *is_error))
        },
        ContentBlock::Reasoning { detail, provenance, .. } => render_reasoning(detail, provenance),
        ContentBlock::Unknown(value) => Some(value.clone()),
        ContentBlock::Audio { .. } => None,
    }
}

fn render_blocks(blocks: &Vec<ContentBlock>) -> (r: Vec<Json>)
    ensures
        models(r@) == rendered_blocks(block_models(blocks@)),
    decreases blocks,
{
    let ghost all = block_models(blocks@);
    let mut out: Vec<Json> = Vec::new();
    assert(models(out@) =~= Seq::<JsonView>::empty());
    for i in 0..blocks.len()
        invariant
            all == block_models(blocks@),
            models(out@) == rendered_up_to(all, i as nat),
    {
        assert(all[i as int] == blocks@[i as int]@);
        let ghost before = out@;
        if let Some(block) = render_block(&blocks[i]) {
            out.push(block);
            assert(models(out@) =~= models(before).push(out@.last()@));
        }
    }
    out
}

/// The fields with a count restored: the count, or the `null` that stood for it.
pub open spec fn with_restored(fields: FieldsView, key: Seq<char>, n: Option<u64>) -> FieldsView {
    match n {
        Some(n) => put(fields, key, count((n as u32) as u64)),
        None => if find(fields, key) == Some(JsonView::Null) {
            fields
        } else {
            without(fields, key)
        },
    }
}

fn restore_count(fields: &mut Fields, key: &str, n: Option<u64>)
    ensures
        final(fields)@ == with_restored(old(fields)@, key@, n),
{
    match n {
        Some(n) => {
            let n: u32 = #[verifier::truncate] (n as u32);
            fields.put(key, Json::count(n as u64));
        },
        None => {
            let null = match fields.get(key) {
                Some(value) => value.is_null(),
                None => false,
            };
            if !null {
                fields.remove(key);
            }
        },
    }
}

/// The fields with what thinking cost restored.
pub open spec fn with_thinking(fields: FieldsView, thinking: Option<u64>) -> FieldsView {
    match find(fields, "output_tokens_details"@) {
        Some(JsonView::Object(inner)) => put(
            fields,
            "output_tokens_details"@,
            JsonView::Object(with_count(inner, "thinking_tokens"@, thinking)),
        ),
        Some(JsonView::Null) => fields,
        _ => assigned(
            fields,
            "output_tokens_details"@,
            match thinking {
                Some(n) => Some(
                    JsonView::Object(fields1("thinking_tokens"@, count((n as u32) as u64))),
                ),
                None => None,
            },
        ),
    }
}

fn restore_thinking(fields: &mut Fields, thinking: Option<u64>)
    ensures
        final(fields)@ == with_thinking(old(fields)@, thinking),
{
    let kept: Option<Json> = match fields.get("output_tokens_details") {
        Some(details) => Some(details.clone()),
        None => None,
    };
    match kept {
        Some(Json::Object(mut inner)) => {
            if let Some(n) = thinking {
                inner.put("thinking_tokens", Json::count(n));
            }
            fields.put("output_tokens_details", Json::Object(inner));
        },
        Some(Json::Null) => {},
        _ => {
            let details = match thinking {
                Some(n) => {
                    let n: u32 = #[verifier::truncate] (n as u32);
                    Some(object1("thinking_tokens", Json::count(n as u64)))
                },
                None => None,
            };
            fields.set("output_tokens_details", details);
        },
    }
}

/// A count; zero where there is none.
pub open spec fn or_zero(n: Option<u64>) -> u64 {
    match n {
        Some(n) => n,
        None => 0,
    }
}

/// The difference, or zero where it would be below.
pub open spec fn minus(a: u64, b: u64) -> u64 {
    if a >= b {
        (a - b) as u64
    } else {
        0
    }
}

/// The input without the tokens that were read from a cache or written to one,
/// as Anthropic counts it.
pub open spec fn uncached_input(usage: UsageView) -> u64 {
    minus(
        minus(or_zero(usage.input_tokens), or_zero(usage.cache_read_tokens)),
        or_zero(usage.cache_write_tokens),
    )
}

/// The usage of a rendered reply.
pub open spec fn rendered_usage(usage: UsageView, provider: Seq<char>) -> JsonView {
    let f = merged(Protocol::Anthropic, usage.ext, provider);
    let kept = match find(f, "input_tokens"@) {
        Some(value) => value.as_u64(),
        None => None,
    };
    let f = with_thinking(f, usage.reasoning_tokens);
    let f = put(
        f,
        "input_tokens"@,
        count(
            match kept {
                Some(n) => (n as u32) as u64,
                None => (uncached_input(usage) as u32) as u64,
            },
        ),
    );
    let f = put(f, "output_tokens"@, count((or_zero(usage.output_tokens) as u32) as u64));
    let f = with_restored(f, "cache_creation_input_tokens"@, usage.cache_write_tokens);
    JsonView::Object(with_restored(f, "cache_read_input_tokens"@, usage.cache_read_tokens))
}

fn render_usage(usage: &Usage, provider: &str) -> (r: Json)
    ensures
        r@ == rendered_usage(usage@, provider@),
{
    let mut fields = merged_ext(Protocol::Anthropic, &usage.ext, provider);
    let kept: Option<u64> = match fields.get("input_tokens") {
        Some(value) => value.as_u64(),
        None => None,
    };
    restore_thinking(&mut fields, usage.reasoning_tokens);
    let input: u64 = match kept {
        Some(n) => n,
        None => {
            let all: u64 = usage.input_tokens.unwrap_or(0);
            let unread: u64 = all.saturating_sub(usage.cache_read_tokens.unwrap_or(0));
            unread.saturating_sub(usage.cache_write_tokens.unwrap_or(0))
        },
    };
    let input: u32 = #[verifier::truncate] (input as u32);
    let output: u64 = usage.output_tokens.unwrap_or(0);
    let output: u32 = #[verifier::truncate] (output as u32);
    fields.put("input_tokens", Json::count(input as u64));
    fields.put("output_tokens", Json::count(output as u64));
    restore_count(&mut fields, "cache_creation_input_tokens", usage.cache_write_tokens);
    restore_count(&mut fields, "cache_read_input_tokens", usage.cache_read_tokens);
    Json::Object(fields)
}

/// The usage of a reply that gives none.
pub open spec fn zero_usage_json() -> JsonView {
    JsonView::Object(fields2("input_tokens"@, count(0), "output_tokens"@, count(0)))
}

fn zero_usage() -> (r: Json)
    ensures
        r@ == zero_usage_json(),
{
    object2("input_tokens", Json::count(0), "output_tokens", Json::count(0))
}

/// The message within a reply: the first of its completions.
pub open spec fn first_completion(response: ChatResponseView) -> Option<CompletionView> {
    if response.completions.len() > 0 {
        Some(response.completions[0])
    } else {
        None
    }
}

/// What the message of a reply keeps.
pub open spec fn kept_beside(completion: Option<CompletionView>, provider: Seq<char>) -> FieldsView {
    match completion {
        Some(completion) => merged(Protocol::Anthropic, completion.message.ext, provider),
        None => no_fields(),
    }
}

/// The role of a rendered reply.
pub open spec fn reply_role(completion: Option<CompletionView>, beside: FieldsView) -> Seq<char> {
    match text_at(beside, "role"@) {
        Some(raw) => raw,
        None => match completion {
            Some(completion) => role_word(completion.message.role),
            None => "assistant"@,
        },
    }
}

/// The content of a rendered reply: as it came, else from its blocks.
pub open spec fn reply_content(
    completion: Option<CompletionView>,
    beside: FieldsView,
) -> JsonView {
    match field_if(beside, "content"@, |v: JsonView| v is Array) {
        Some(content) => content,
        None => match completion {
            Some(completion) => JsonView::Array(rendered_blocks(completion.message.content)),
            None => JsonView::Array(Seq::empty()),
        },
    }
}

/// Why a rendered reply stopped; `null` where nothing says so.
pub open spec fn reply_stop(completion: Option<CompletionView>) -> JsonView {
    match completion {
        Some(completion) => if completion.finish_reason_raw.len() > 0 {
            string(completion.finish_reason_raw)
        } else {
            JsonView::Null
        },
        None => JsonView::Null,
    }
}

/// The fields of a rendered reply.
pub open spec fn reply_fields(
    kept: FieldsView,
    id: Seq<char>,
    role: Seq<char>,
    content: JsonView,
    model: Seq<char>,
    stop: JsonView,
    usage: JsonView,
) -> FieldsView {
    let f = settled(
        kept,
        "type"@,
        present(kept, "type"@, |v: JsonView| v is String),
        Some(string("message"@)),
    );
    let f = put(f, "id"@, string(id));
    let f = put(f, "role"@, string(role));
    let f = put(f, "content"@, content);
    let f = put(f, "model"@, string(model));
    let f = put(f, "stop_reason"@, stop);
    let f = put(f, "stop_sequence"@, string_or_null(text_at(kept, "stop_sequence"@)));
    put(f, "usage"@, usage)
}

/// The usage of a rendered reply; zero where it has none.
pub open spec fn reply_usage(usage: Option<UsageView>, provider: Seq<char>) -> JsonView {
    match usage {
        Some(usage) => rendered_usage(usage, provider),
        None => zero_usage_json(),
    }
}

/// The reply on the wire.
pub open spec fn rendered_response(response: ChatResponseView, provider: Seq<char>) -> JsonView {
    let completion = first_completion(response);
    let beside = kept_beside(completion, provider);
    JsonView::Object(
        reply_fields(
            merged(Protocol::Anthropic, response.ext, provider),
            response.id,
            reply_role(completion, beside),
            reply_content(completion, beside),
            response.model,
            reply_stop(completion),
            reply_usage(response.usage, provider),
        ),
    )
}

fn render_reply_role(completion: Option<&Completion>, beside: &Fields) -> (r: Json)
    ensures
        r@ == string(reply_role(completion.deep_view(), beside@)),
{
    match take_string(beside, "role") {
        Some(raw) => Json::String(raw),
        None => match completion {
            Some(completion) => Json::text(role_to_wire(completion.message.role)),
            None => Json::text("assistant"),
        },
    }
}

fn render_reply_content(completion: Option<&Completion>, beside: &Fields) -> (r: Json)
    ensures
        r@ == reply_content(completion.deep_view(), beside@),
{
    if let Some(content) = beside.get("content") {
        if let Json::Array(_) = content {
            return content.clone();
        }
    }
    match completion {
        Some(completion) => Json::Array(render_blocks(&completion.message.content)),
        None => Json::Array(crate::json::no_items()),
    }
}

fn render_reply_stop(completion: Option<&Completion>) -> (r: Json)
    ensures
        r@ == reply_stop(completion.deep_view()),
{
    match completion {
        Some(completion) => if completion.finish_reason_raw.as_str().is_empty() {
            Json::Null
        } else {
            Json::String(completion.finish_reason_raw.clone())
        },
        None => Json::Null,
    }
}

/// Renders a whole reply.
pub fn render_response(response: &ChatResponse, provider: &str) -> (r: Json)
    ensures
        r@ == rendered_response(response@, provider@),
{
    let mut fields = merged_ext(Protocol::Anthropic, &response.ext, provider);
    let stop_sequence = take_string(&fields, "stop_sequence");
    let completion: Option<&Completion> = if response.completions.len() > 0 {
        Some(&response.completions[0])
    } else {
        None
    };
    assert(completion.deep_view() == first_completion(response@));
    let beside = match completion {
        Some(completion) => merged_ext(Protocol::Anthropic, &completion.message.ext, provider),
        None => Fields::new(),
    };
    let keep = match fields.get("type") {
        Some(Json::String(_)) => true,
        _ => false,
    };
    fields.settle("type", keep, Some(Json::text("message")));
    fields.put("id", Json::String(response.id.clone()));
    fields.put("role", render_reply_role(completion, &beside));
    fields.put("content", render_reply_content(completion, &beside));
    fields.put("model", Json::String(response.model.clone()));
    fields.put("stop_reason", render_reply_stop(completion));
    fields.put("stop_sequence", json_or_null(stop_sequence));
    let usage = match &response.usage {
        Some(usage) => render_usage(usage, provider),
        None => zero_usage(),
    };
    fields.put("usage", usage);
    Json::Object(fields)
}

} // verus!
