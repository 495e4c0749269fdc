//! The canonical JSON form of a request.
use vstd::prelude::*;

use crate::json::{
    assigned, fields1, fields2, fields3, group_find, index_of, json_bool, json_number, json_string,
    json_strings, json_u32, lemma_index_of, models, no_fields, object1, object2, object3, opt_bool,
    opt_number, opt_string, opt_u32, put, string, strings, Fields, FieldsView, Json, JsonView,
    Number, NumberView,
};
use crate::text::same_text;

use super::canonical::{
    ext_form, find_role, held_ext, held_text, items_form, read_ext, read_text, role_name,
    role_of_word, role_word, write_ext, write_items,
};
use super::message::{
    block_models, CacheHint, CacheHintView, ContentBlock, ContentBlockView, MediaSource,
    MediaSourceView, Message, MessageView, ReasoningDetail, ReasoningDetailView,
};
use super::request::{
    ChatRequest, ChatRequestView, GenerationParams, GenerationParamsView, ReasoningConfig,
    ReasoningConfigView, ResponseFormat, ResponseFormatView, ToolChoice, ToolChoiceView, ToolDef,
    ToolDefView,
};
use super::RawJson;

verus! {

// ---------------------------------------------------------------------------
// Fields that may be absent
// ---------------------------------------------------------------------------

/// The boolean in a field, if there is one; nothing where the field holds
/// something else.
pub open spec fn held_bool(value: JsonView, key: Seq<char>) -> Option<Option<bool>> {
    match value.get(key) {
        None => Some(None),
        Some(JsonView::Null) => Some(None),
        Some(JsonView::Bool(flag)) => Some(Some(flag)),
        Some(_) => None,
    }
}

fn read_bool(value: &Json, key: &str) -> (r: Option<Option<bool>>)
    ensures
        r == held_bool(value@, key@),
{
    match value.get(key) {
        None => Some(None),
        Some(Json::Null) => Some(None),
        Some(Json::Bool(flag)) => Some(Some(*flag)),
        Some(_) => None,
    }
}

/// The count of 32 bits in a field, if there is one; nothing where the field
/// holds something else.
pub open spec fn held_u32(value: JsonView, key: Seq<char>) -> Option<Option<u32>> {
    match value.get(key) {
        None => Some(None),
        Some(JsonView::Null) => Some(None),
        Some(held) => match held.as_u32() {
            Some(n) => Some(Some(n)),
            None => None,
        },
    }
}

fn read_u32(value: &Json, key: &str) -> (r: Option<Option<u32>>)
    ensures
        r == held_u32(value@, key@),
{
    match value.get(key) {
        None => Some(None),
        Some(Json::Null) => Some(None),
        Some(held) => match held.as_u32() {
            Some(n) => Some(Some(n)),
            None => None,
        },
    }
}

/// The number in a field, if there is one; nothing where the field holds
/// something else.
pub open spec fn held_number(value: JsonView, key: Seq<char>) -> Option<Option<NumberView>> {
    match value.get(key) {
        None => Some(None),
        Some(JsonView::Null) => Some(None),
        Some(JsonView::Number(n)) => Some(Some(n)),
        Some(_) => None,
    }
}

fn read_number(value: &Json, key: &str) -> (r: Option<Option<Number>>)
    ensures
        r.deep_view() == held_number(value@, key@),
{
    match value.get(key) {
        None => Some(None),
        Some(Json::Null) => Some(None),
        Some(Json::Number(n)) => Some(Some(n.clone())),
        Some(_) => None,
    }
}

/// A value, or `null`.
pub open spec fn or_null(value: Option<JsonView>) -> JsonView {
    match value {
        Some(value) => value,
        None => JsonView::Null,
    }
}

fn write_or_null(value: Option<Json>) -> (r: Json)
    ensures
        r@ == or_null(value.deep_view()),
{
    match value {
        Some(value) => value,
        None => Json::Null,
    }
}

// ---------------------------------------------------------------------------
// Blocks
// ---------------------------------------------------------------------------

/// A cache hint that may be absent.
pub open spec fn cache_form(cache: Option<CacheHintView>) -> Option<JsonView> {
    match cache {
        Some(hint) => Some(JsonView::Object(assigned(no_fields(), "ttl"@, opt_string(hint.ttl)))),
        None => None,
    }
}

fn write_cache(cache: &Option<CacheHint>) -> (r: Option<Json>)
    ensures
        r.deep_view() == cache_form(cache.deep_view()),
{
    match cache {
        Some(hint) => {
            let mut fields = Fields::new();
            fields.set("ttl", json_string(&hint.ttl));
            Some(Json::Object(fields))
        },
        None => None,
    }
}

/// The cache hint a value holds, if any; nothing where its field holds something
/// else.
pub open spec fn held_cache(value: JsonView) -> Option<Option<CacheHintView>> {
    match value.get("cache"@) {
        None => Some(None),
        Some(JsonView::Null) => Some(None),
        Some(JsonView::Object(fields)) => match held_text(JsonView::Object(fields), "ttl"@) {
            Some(ttl) => Some(Some(CacheHintView { ttl })),
            None => None,
        },
        Some(_) => None,
    }
}

fn read_cache(value: &Json) -> (r: Option<Option<CacheHint>>)
    ensures
        r.deep_view() == held_cache(value@),
{
    match value.get("cache") {
        None => Some(None),
        Some(Json::Null) => Some(None),
        Some(held @ Json::Object(_)) => match read_text(held, "ttl") {
            Some(ttl) => Some(Some(CacheHint { ttl })),
            None => None,
        },
        Some(_) => None,
    }
}

/// Where some bytes are, in JSON.
pub open spec fn source_form(source: MediaSourceView) -> JsonView {
    JsonView::Object(
        match source {
            MediaSourceView::Url { url } => fields2(
                "type"@,
                string("url"@),
                "url"@,
                string(url),
            ),
            MediaSourceView::Base64 { media_type, data } => fields3(
                "type"@,
                string("base64"@),
                "media_type"@,
                string(media_type),
                "data"@,
                string(data),
            ),
            MediaSourceView::ProviderFile { id } => fields2(
                "type"@,
                string("provider_file"@),
                "id"@,
                string(id),
            ),
        },
    )
}

/// Writes where some bytes are.
pub fn write_source(source: &MediaSource) -> (r: Json)
    ensures
        r@ == source_form(source@),
{
    match source {
        MediaSource::Url { url } => object2(
            "type",
            Json::text("url"),
            "url",
            Json::String(url.clone()),
        ),
        MediaSource::Base64 { media_type, data } => object3(
            "type",
            Json::text("base64"),
            "media_type",
            Json::String(media_type.clone()),
            "data",
            Json::String(data.clone()),
        ),
        MediaSource::ProviderFile { id } => object2(
            "type",
            Json::text("provider_file"),
            "id",
            Json::String(id.clone()),
        ),
    }
}

/// Where the bytes of a block are, if its JSON says.
pub open spec fn held_source(block: JsonView) -> Option<MediaSourceView> {
    match block.get("source"@) {
        None => None,
        Some(source) => {
            let tag = source.str_at("type"@);
            let url = source.str_at("url"@);
            let media_type = source.str_at("media_type"@);
            let data = source.str_at("data"@);
            let id = source.str_at("id"@);
            if tag == Some("url"@) && url is Some {
                Some(MediaSourceView::Url { url: url->0 })
            } else if tag == Some("base64"@) && media_type is Some && data is Some {
                Some(MediaSourceView::Base64 { media_type: media_type->0, data: data->0 })
            } else if tag == Some("provider_file"@) && id is Some {
                Some(MediaSourceView::ProviderFile { id: id->0 })
            } else {
                None
            }
        },
    }
}

fn read_source(block: &Json) -> (r: Option<MediaSource>)
    ensures
        r.deep_view() == held_source(block@),
{
    let Some(source) = block.get("source") else {
        return None;
    };
    let Some(tag) = source.str_at("type") else {
        return None;
    };
    if same_text(tag.as_str(), "url") {
        if let Some(url) = source.str_at("url") {
            return Some(MediaSource::Url { url });
        }
    }
    if same_text(tag.as_str(), "base64") {
        if let (Some(media_type), Some(data)) = (
            source.str_at("media_type"),
            source.str_at("data"),
        ) {
            return Some(MediaSource::Base64 { media_type, data });
        }
    }
    if same_text(tag.as_str(), "provider_file") {
        if let Some(id) = source.str_at("id") {
            return Some(MediaSource::ProviderFile { id });
        }
    }
    None
}

/// Reasoning in JSON.
pub open spec fn detail_form(detail: ReasoningDetailView) -> JsonView {
    JsonView::Object(
        match detail {
            ReasoningDetailView::Text { text, signature } => assigned(
                fields2("type"@, string("text"@), "text"@, string(text)),
                "signature"@,
                opt_string(signature),
            ),
            ReasoningDetailView::Encrypted { data } => fields2(
                "type"@,
                string("encrypted"@),
                "data"@,
                string(data),
            ),
            ReasoningDetailView::Summary { summary } => fields2(
                "type"@,
                string("summary"@),
                "summary"@,
                string(summary),
            ),
        },
    )
}

fn write_detail(detail: &ReasoningDetail) -> (r: Json)
    ensures
        r@ == detail_form(detail@),
{
    match detail {
        ReasoningDetail::Text { text, signature } => {
            let mut fields = object2(
                "type",
                Json::text("text"),
                "text",
                Json::String(text.clone()),
            ).fields();
            fields.set("signature", json_string(signature));
            Json::Object(fields)
        },
        ReasoningDetail::Encrypted { data } => object2(
            "type",
            Json::text("encrypted"),
            "data",
            Json::String(data.clone()),
        ),
        ReasoningDetail::Summary { summary } => object2(
            "type",
            Json::text("summary"),
            "summary",
            Json::String(summary.clone()),
        ),
    }
}

/// The reasoning of a block, if its JSON holds any.
pub open spec fn held_detail(block: JsonView) -> Option<ReasoningDetailView> {
    match block.get("detail"@) {
        None => None,
        Some(detail) => {
            let tag = detail.str_at("type"@);
            let text = detail.str_at("text"@);
            let signature = held_text(detail, "signature"@);
            let data = detail.str_at("data"@);
            let summary = detail.str_at("summary"@);
            if tag == Some("text"@) && text is Some && signature is Some {
                Some(ReasoningDetailView::Text { text: text->0, signature: signature->0 })
            } else if tag == Some("encrypted"@) && data is Some {
                Some(ReasoningDetailView::Encrypted { data: data->0 })
            } else if tag == Some("summary"@) && summary is Some {
                Some(ReasoningDetailView::Summary { summary: summary->0 })
            } else {
                None
            }
        },
    }
}

fn read_detail(block: &Json) -> (r: Option<ReasoningDetail>)
    ensures
        r.deep_view() == held_detail(block@),
{
    let Some(detail) = block.get("detail") else {
        return None;
    };
    let Some(tag) = detail.str_at("type") else {
        return None;
    };
    if same_text(tag.as_str(), "text") {
        if let (Some(text), Some(signature)) = (
            detail.str_at("text"),
            read_text(detail, "signature"),
        ) {
            return Some(ReasoningDetail::Text { text, signature });
        }
    }
    if same_text(tag.as_str(), "encrypted") {
        if let Some(data) = detail.str_at("data") {
            return Some(ReasoningDetail::Encrypted { data });
        }
    }
    if same_text(tag.as_str(), "summary") {
        if let Some(summary) = detail.str_at("summary") {
            return Some(ReasoningDetail::Summary { summary });
        }
    }
    None
}

/// An object that tells its kind.
pub open spec fn tagged(tag: Seq<char>) -> FieldsView {
    fields1("type"@, string(tag))
}

/// A block in JSON. What is absent is not written; what no variant knows is
/// written as it is.
pub open spec fn block_form(block: ContentBlockView) -> JsonView
    decreases block,
{
    match block {
        ContentBlockView::Text { text, cache } => {
            let f = put(tagged("text"@), "text"@, string(text));
            JsonView::Object(assigned(f, "cache"@, cache_form(cache)))
        },
        ContentBlockView::Image { source, detail, cache } => {
            let f = put(tagged("image"@), "source"@, source_form(source));
            let f = assigned(f, "detail"@, opt_string(detail));
            JsonView::Object(assigned(f, "cache"@, cache_form(cache)))
        },
        ContentBlockView::Audio { source, format } => {
            let f = put(tagged("audio"@), "source"@, source_form(source));
            JsonView::Object(assigned(f, "format"@, opt_string(format)))
        },
        ContentBlockView::Document { source, title, cache } => {
            let f = put(tagged("document"@), "source"@, source_form(source));
            let f = assigned(f, "title"@, opt_string(title));
            JsonView::Object(assigned(f, "cache"@, cache_form(cache)))
        },
        ContentBlockView::ToolCall { id, name, arguments } => {
            let f = put(put(tagged("tool_call"@), "id"@, string(id)), "name"@, string(name));
            JsonView::Object(put(f, "arguments"@, string(arguments)))
        },
        ContentBlockView::ToolResult { call_id, content, is_error } => {
            let f = put(tagged("tool_result"@), "call_id"@, string(call_id));
            let f = put(f, "content"@, JsonView::Array(blocks_form(content)));
            JsonView::Object(put(f, "is_error"@, JsonView::Bool(is_error)))
        },
        ContentBlockView::Reasoning { detail, provenance, id } => {
            let f = put(tagged("reasoning"@), "detail"@, detail_form(detail));
            let f = assigned(f, "provenance"@, opt_string(provenance));
            JsonView::Object(assigned(f, "id"@, opt_string(id)))
        },
        ContentBlockView::Unknown(value) => value,
    }
}

/// Several blocks in JSON.
pub open spec fn blocks_form(blocks: Seq<ContentBlockView>) -> Seq<JsonView>
    decreases blocks,
{
    Seq::new(
        blocks.len(),
        |i: int|
            if 0 <= i < blocks.len() {
                block_form(blocks[i])
            } else {
                JsonView::Null
            },
    )
}

fn write_blocks(blocks: &Vec<ContentBlock>) -> (r: Vec<Json>)
    ensures
        models(r@) == blocks_form(block_models(blocks@)),
    decreases blocks,
{
    let mut out: Vec<Json> = Vec::new();
    for i in 0..blocks.len()
        invariant
            out.len() == i,
            forall|k: int| 0 <= k < i ==> out@[k]@ == block_form(blocks@[k]@),
    {
        out.push(blocks[i].to_json());
    }
    assert(models(out@) =~= blocks_form(block_models(blocks@)));
    out
}

/// Text in JSON.
pub open spec fn text_block_in(value: JsonView) -> Option<ContentBlockView> {
    match (value.str_at("text"@), held_cache(value)) {
        (Some(text), Some(cache)) => Some(ContentBlockView::Text { text, cache }),
        _ => None,
    }
}

/// An image in JSON.
pub open spec fn image_in(value: JsonView) -> Option<ContentBlockView> {
    match (held_source(value), held_text(value, "detail"@), held_cache(value)) {
        (Some(source), Some(detail), Some(cache)) => Some(
            ContentBlockView::Image { source, detail, cache },
        ),
        _ => None,
    }
}

/// Sound in JSON.
pub open spec fn audio_in(value: JsonView) -> Option<ContentBlockView> {
    match (held_source(value), held_text(value, "format"@)) {
        (Some(source), Some(format)) => Some(ContentBlockView::Audio { source, format }),
        _ => None,
    }
}

/// A document in JSON.
pub open spec fn document_in(value: JsonView) -> Option<ContentBlockView> {
    match (held_source(value), held_text(value, "title"@), held_cache(value)) {
        (Some(source), Some(title), Some(cache)) => Some(
            ContentBlockView::Document { source, title, cache },
        ),
        _ => None,
    }
}

/// A tool call in JSON.
pub open spec fn tool_call_in(value: JsonView) -> Option<ContentBlockView> {
    match (value.str_at("id"@), value.str_at("name"@), value.str_at("arguments"@)) {
        (Some(id), Some(name), Some(arguments)) => Some(
            ContentBlockView::ToolCall { id, name, arguments },
        ),
        _ => None,
    }
}

/// Reasoning in JSON.
pub open spec fn reasoning_block_in(value: JsonView) -> Option<ContentBlockView> {
    match (held_detail(value), held_text(value, "provenance"@), held_text(value, "id"@)) {
        (Some(detail), Some(provenance), Some(id)) => Some(
            ContentBlockView::Reasoning { detail, provenance, id },
        ),
        _ => None,
    }
}

/// The blocks within the JSON of a tool's result; nothing where they are no list.
pub open spec fn inner_blocks(value: JsonView) -> Option<Seq<ContentBlockView>>
    decreases value, 0nat,
{
    match value {
        JsonView::Object(fields) => {
            let i = index_of(fields, "content"@) as int;
            if 0 <= i < fields.len() {
                match fields[i].1 {
                    JsonView::Array(items) => Some(blocks_in(items)),
                    _ => None,
                }
            } else {
                None
            }
        },
        _ => None,
    }
}

/// The blocks that several JSON values are.
pub open spec fn blocks_in(items: Seq<JsonView>) -> Seq<ContentBlockView>
    decreases items, 0nat,
{
    Seq::new(
        items.len(),
        |i: int|
            if 0 <= i < items.len() {
                block_in(items[i])
            } else {
                ContentBlockView::Unknown(JsonView::Null)
            },
    )
}

/// The block that a JSON value is; one that no variant knows is kept whole.
pub open spec fn block_in(value: JsonView) -> ContentBlockView
    decreases value, 1nat,
{
    let tag = value.str_at("type"@);
    let known = if tag == Some("text"@) {
        text_block_in(value)
    } else if tag == Some("image"@) {
        image_in(value)
    } else if tag == Some("audio"@) {
        audio_in(value)
    } else if tag == Some("document"@) {
        document_in(value)
    } else if tag == Some("tool_call"@) {
        tool_call_in(value)
    } else if tag == Some("reasoning"@) {
        reasoning_block_in(value)
    } else if tag == Some("tool_result"@) {
        match (value.str_at("call_id"@), inner_blocks(value), value.bool_at("is_error"@)) {
            (Some(call_id), Some(content), Some(is_error)) => Some(
                ContentBlockView::ToolResult { call_id, content, is_error },
            ),
            _ => None,
        }
    } else {
        None
    };
    match known {
        Some(block) => block,
        None => ContentBlockView::Unknown(value),
    }
}

fn read_blocks(items: &Vec<Json>) -> (r: Vec<ContentBlock>)
    ensures
        block_models(r@) == blocks_in(models(items@)),
    decreases items,
{
    let mut out: Vec<ContentBlock> = Vec::new();
    for i in 0..items.len()
        invariant
            out.len() == i,
            forall|k: int| 0 <= k < i ==> out@[k]@ == block_in(items@[k]@),
    {
        out.push(ContentBlock::from_json(&items[i]));
    }
    assert(block_models(out@) =~= blocks_in(models(items@)));
    out
}

/// The value of blocks that may be absent.
pub open spec fn block_models_if_any(blocks: Option<Vec<ContentBlock>>) -> Option<
    Seq<ContentBlockView>,
> {
    match blocks {
        Some(blocks) => Some(block_models(blocks@)),
        None => None,
    }
}

fn read_inner(value: &Json) -> (r: Option<Vec<ContentBlock>>)
    ensures
        block_models_if_any(r) == inner_blocks(value@),
    decreases value, 0nat,
{
    match value {
        Json::Object(fields) => {
            for i in 0..fields.entries.len()
                invariant
                    value@ == JsonView::Object(fields@),
                    *value == Json::Object(*fields),
                    forall|j: int| 0 <= j < i ==> fields@[j].0 != "content"@,
            {
                if same_text(fields.entries[i].0.as_str(), "content") {
                    proof {
                        lemma_index_of(fields@, "content"@, i as nat);
                    }
                    return match &fields.entries[i].1 {
                        Json::Array(items) => Some(read_blocks(items)),
                        _ => None,
                    };
                }
            }
            proof {
                lemma_index_of(fields@, "content"@, fields@.len());
            }
            None
        },
        _ => None,
    }
}

fn read_media(value: &Json, tag: &str) -> (r: Option<ContentBlock>)
    ensures
        r.deep_view() == (if tag@ == "image"@ {
            image_in(value@)
        } else if tag@ == "audio"@ {
            audio_in(value@)
        } else if tag@ == "document"@ {
            document_in(value@)
        } else {
            None
        }),
{
    if same_text(tag, "image") {
        return match (read_source(value), read_text(value, "detail"), read_cache(value)) {
            (Some(source), Some(detail), Some(cache)) => Some(
                ContentBlock::Image { source, detail, cache },
            ),
            _ => None,
        };
    }
    if same_text(tag, "audio") {
        return match (read_source(value), read_text(value, "format")) {
            (Some(source), Some(format)) => Some(ContentBlock::Audio { source, format }),
            _ => None,
        };
    }
    if same_text(tag, "document") {
        return match (read_source(value), read_text(value, "title"), read_cache(value)) {
            (Some(source), Some(title), Some(cache)) => Some(
                ContentBlock::Document { source, title, cache },
            ),
            _ => None,
        };
    }
    None
}

fn read_text_block(value: &Json) -> (r: Option<ContentBlock>)
    ensures
        r.deep_view() == text_block_in(value@),
{
    match (value.str_at("text"), read_cache(value)) {
        (Some(text), Some(cache)) => Some(ContentBlock::Text { text, cache }),
        _ => None,
    }
}

fn read_tool_call(value: &Json) -> (r: Option<ContentBlock>)
    ensures
        r.deep_view() == tool_call_in(value@),
{
    match (value.str_at("id"), value.str_at("name"), value.str_at("arguments")) {
        (Some(id), Some(name), Some(text)) => Some(
            ContentBlock::ToolCall { id, name, arguments: RawJson { text } },
        ),
        _ => None,
    }
}

fn read_reasoning_block(value: &Json) -> (r: Option<ContentBlock>)
    ensures
        r.deep_view() == reasoning_block_in(value@),
{
    match (read_detail(value), read_text(value, "provenance"), read_text(value, "id")) {
        (Some(detail), Some(provenance), Some(id)) => Some(
            ContentBlock::Reasoning { detail, provenance, id },
        ),
        _ => None,
    }
}

impl ContentBlock {
    /// Writes the block in JSON.
    pub fn to_json(&self) -> (r: Json)
        ensures
            r@ == block_form(self@),
        decreases self,
    {
        match self {
            ContentBlock::Text { text, cache } => {
                let mut fields = object1("type", Json::text("text")).fields();
                fields.put("text", Json::String(text.clone()));
                fields.set("cache", write_cache(cache));
                Json::Object(fields)
            },
            ContentBlock::Image { source, detail, cache } => {
                let mut fields = object1("type", Json::text("image")).fields();
                fields.put("source", write_source(source));
                fields.set("detail", json_string(detail));
                fields.set("cache", write_cache(cache));
                Json::Object(fields)
            },
            ContentBlock::Audio { source, format } => {
                let mut fields = object1("type", Json::text("audio")).fields();
                fields.put("source", write_source(source));
                fields.set("format", json_string(format));
                Json::Object(fields)
            },
            ContentBlock::Document { source, title, cache } => {
                let mut fields = object1("type", Json::text("document")).fields();
                fields.put("source", write_source(source));
                fields.set("title", json_string(title));
                fields.set("cache", write_cache(cache));
                Json::Object(fields)
            },
            ContentBlock::ToolCall { id, name, arguments } => {
                let mut fields = object1("type", Json::text("tool_call")).fields();
                fields.put("id", Json::String(id.clone()));
                fields.put("name", Json::String(name.clone()));
                fields.put("arguments", Json::text(arguments.as_str()));
                Json::Object(fields)
            },
            ContentBlock::ToolResult { call_id, content, is_error } => {
                let mut fields = object1("type", Json::text("tool_result")).fields();
                fields.put("call_id", Json::String(call_id.clone()));
                fields.put("content", Json::Array(write_blocks(content)));
                fields.put("is_error", Json::Bool(*is_error));
                Json::Object(fields)
            },
            ContentBlock::Reasoning { detail, provenance, id } => {
                let mut fields = object1("type", Json::text("reasoning")).fields();
                fields.put("detail", write_detail(detail));
                fields.set("provenance", json_string(provenance));
                fields.set("id", json_string(id));
                Json::Object(fields)
            },
            ContentBlock::Unknown(value) => value.clone(),
        }
    }

    /// Reads a block. Nothing is refused.
    pub fn from_json(value: &Json) -> (r: ContentBlock)
        ensures
            r@ == block_in(value@),
        decreases value, 1nat,
    {
        let Some(tag) = value.str_at("type") else {
            return ContentBlock::Unknown(value.clone());
        };
        proof {
            lemma_block_tags();
        }
        let tag = tag.as_str();
        let known = if same_text(tag, "text") {
            read_text_block(value)
        } else if same_text(tag, "tool_call") {
            read_tool_call(value)
        } else if same_text(tag, "reasoning") {
            read_reasoning_block(value)
        } else if same_text(tag, "tool_result") {
            match (value.str_at("call_id"), read_inner(value), value.bool_at("is_error")) {
                (Some(call_id), Some(content), Some(is_error)) => Some(
                    ContentBlock::ToolResult { call_id, content, is_error },
                ),
                _ => None,
            }
        } else {
            read_media(value, tag)
        };
        match known {
            Some(block) => block,
            None => ContentBlock::Unknown(value.clone()),
        }
    }
}

// ---------------------------------------------------------------------------
// Messages and tools
// ---------------------------------------------------------------------------

/// A message in JSON.
pub open spec fn message_form(message: MessageView) -> JsonView {
    let f = fields2(
        "role"@,
        string(role_word(message.role)),
        "content"@,
        JsonView::Array(blocks_form(message.content)),
    );
    JsonView::Object(assigned(f, "ext"@, ext_form(message.ext)))
}

/// The message that a JSON value is, if it is one.
pub open spec fn message_in(value: JsonView) -> Option<MessageView> {
    match (value.str_at("role"@), inner_blocks(value), held_ext(value)) {
        (Some(word), Some(content), Some(ext)) => match role_of_word(word) {
            Some(role) => Some(MessageView { role, content, ext }),
            None => None,
        },
        _ => None,
    }
}

impl Message {
    /// Writes the message in JSON.
    pub fn to_json(&self) -> (r: Json)
        ensures
            r@ == message_form(self@),
    {
        let mut fields = object2(
            "role",
            Json::text(role_name(self.role)),
            "content",
            Json::Array(write_blocks(&self.content)),
        ).fields();
        fields.set("ext", write_ext(&self.ext));
        Json::Object(fields)
    }

    /// Reads a message.
    pub fn from_json(value: &Json) -> (r: Option<Message>)
        ensures
            r.deep_view() == message_in(value@),
    {
        match (value.str_at("role"), read_inner(value), read_ext(value)) {
            (Some(word), Some(content), Some(ext)) => match find_role(word.as_str()) {
                Some(role) => Some(Message { role, content, ext }),
                None => None,
            },
            _ => None,
        }
    }
}

/// A tool in JSON.
pub open spec fn tool_form(tool: ToolDefView) -> JsonView {
    let f = assigned(
        fields1("name"@, string(tool.name)),
        "description"@,
        opt_string(tool.description),
    );
    let f = assigned(put(f, "input_schema"@, tool.input_schema), "strict"@, opt_bool(tool.strict));
    JsonView::Object(
        assigned(assigned(f, "cache"@, cache_form(tool.cache)), "ext"@, ext_form(tool.ext)),
    )
}

/// The tool that a JSON value is, if it is one.
pub open spec fn tool_in(value: JsonView) -> Option<ToolDefView> {
    match (
        value.str_at("name"@),
        held_text(value, "description"@),
        value.get("input_schema"@),
        held_bool(value, "strict"@),
        held_cache(value),
        held_ext(value),
    ) {
        (
            Some(name),
            Some(description),
            Some(input_schema),
            Some(strict),
            Some(cache),
            Some(ext),
        ) => Some(ToolDefView { name, description, input_schema, strict, cache, ext }),
        _ => None,
    }
}

impl ToolDef {
    /// Writes the tool in JSON.
    pub fn to_json(&self) -> (r: Json)
        ensures
            r@ == tool_form(self@),
    {
        let mut fields = object1("name", Json::String(self.name.clone())).fields();
        fields.set("description", json_string(&self.description));
        fields.put("input_schema", self.input_schema.clone());
        fields.set("strict", json_bool(self.strict));
        fields.set("cache", write_cache(&self.cache));
        fields.set("ext", write_ext(&self.ext));
        Json::Object(fields)
    }

    /// Reads a tool.
    pub fn from_json(value: &Json) -> (r: Option<ToolDef>)
        ensures
            r.deep_view() == tool_in(value@),
    {
        match (
            value.str_at("name"),
            read_text(value, "description"),
            value.get("input_schema"),
            read_bool(value, "strict"),
            read_cache(value),
            read_ext(value),
        ) {
            (
                Some(name),
                Some(description),
                Some(input_schema),
                Some(strict),
                Some(cache),
                Some(ext),
            ) => Some(
                ToolDef {
                    name,
                    description,
                    input_schema: input_schema.clone(),
                    strict,
                    cache,
                    ext,
                },
            ),
            _ => None,
        }
    }
}

/// A choice of tools that may be absent.
pub open spec fn choice_form(choice: Option<ToolChoiceView>) -> Option<JsonView> {
    match choice {
        None => None,
        Some(ToolChoiceView::Auto) => Some(JsonView::Object(fields1("mode"@, string("auto"@)))),
        Some(ToolChoiceView::Never) => Some(JsonView::Object(fields1("mode"@, string("none"@)))),
        Some(ToolChoiceView::Required) => Some(
            JsonView::Object(fields1("mode"@, string("required"@))),
        ),
        Some(ToolChoiceView::Tool { name }) => Some(
            JsonView::Object(fields2("mode"@, string("tool"@), "name"@, string(name))),
        ),
    }
}

fn write_choice(choice: &Option<ToolChoice>) -> (r: Option<Json>)
    ensures
        r.deep_view() == choice_form(choice.deep_view()),
{
    match choice {
        None => None,
        Some(ToolChoice::Auto) => Some(object1("mode", Json::text("auto"))),
        Some(ToolChoice::Never) => Some(object1("mode", Json::text("none"))),
        Some(ToolChoice::Required) => Some(object1("mode", Json::text("required"))),
        Some(ToolChoice::Tool { name }) => Some(
            object2("mode", Json::text("tool"), "name", Json::String(name.clone())),
        ),
    }
}

/// The choice of tools a request holds, if any; nothing where its field holds
/// something else.
pub open spec fn held_choice(value: JsonView) -> Option<Option<ToolChoiceView>> {
    match value.get("tool_choice"@) {
        None => Some(None),
        Some(JsonView::Null) => Some(None),
        Some(choice) => {
            let mode = choice.str_at("mode"@);
            let name = choice.str_at("name"@);
            if mode == Some("auto"@) {
                Some(Some(ToolChoiceView::Auto))
            } else if mode == Some("none"@) {
                Some(Some(ToolChoiceView::Never))
            } else if mode == Some("required"@) {
                Some(Some(ToolChoiceView::Required))
            } else if mode == Some("tool"@) && name is Some {
                Some(Some(ToolChoiceView::Tool { name: name->0 }))
            } else {
                None
            }
        },
    }
}

fn read_choice(value: &Json) -> (r: Option<Option<ToolChoice>>)
    ensures
        r.deep_view() == held_choice(value@),
{
    match value.get("tool_choice") {
        None => Some(None),
        Some(Json::Null) => Some(None),
        Some(choice) => {
            let Some(mode) = choice.str_at("mode") else {
                return None;
            };
            if same_text(mode.as_str(), "auto") {
                return Some(Some(ToolChoice::Auto));
            }
            if same_text(mode.as_str(), "none") {
                return Some(Some(ToolChoice::Never));
            }
            if same_text(mode.as_str(), "required") {
                return Some(Some(ToolChoice::Required));
            }
            if same_text(mode.as_str(), "tool") {
                if let Some(name) = choice.str_at("name") {
                    return Some(Some(ToolChoice::Tool { name }));
                }
            }
            None
        },
    }
}

/// A form of reply that may be absent.
pub open spec fn format_form(format: Option<ResponseFormatView>) -> Option<JsonView> {
    match format {
        None => None,
        Some(ResponseFormatView::Text) => Some(JsonView::Object(tagged("text"@))),
        Some(ResponseFormatView::JsonObject) => Some(JsonView::Object(tagged("json_object"@))),
        Some(ResponseFormatView::JsonSchema { name, schema, strict }) => Some(
            JsonView::Object(
                assigned(
                    put(
                        put(tagged("json_schema"@), "name"@, string(name)),
                        "schema"@,
                        schema,
                    ),
                    "strict"@,
                    opt_bool(strict),
                ),
            ),
        ),
    }
}

fn write_format(format: &Option<ResponseFormat>) -> (r: Option<Json>)
    ensures
        r.deep_view() == format_form(format.deep_view()),
{
    match format {
        None => None,
        Some(ResponseFormat::Text) => Some(object1("type", Json::text("text"))),
        Some(ResponseFormat::JsonObject) => Some(object1("type", Json::text("json_object"))),
        Some(ResponseFormat::JsonSchema { name, schema, strict }) => {
            let mut fields = object1("type", Json::text("json_schema")).fields();
            fields.put("name", Json::String(name.clone()));
            fields.put("schema", schema.clone());
            fields.set("strict", json_bool(*strict));
            Some(Json::Object(fields))
        },
    }
}

/// The form of reply a request holds, if any; nothing where its field holds
/// something else.
pub open spec fn held_format(value: JsonView) -> Option<Option<ResponseFormatView>> {
    match value.get("response_format"@) {
        None => Some(None),
        Some(JsonView::Null) => Some(None),
        Some(format) => {
            let tag = format.str_at("type"@);
            let name = format.str_at("name"@);
            let schema = format.get("schema"@);
            let strict = held_bool(format, "strict"@);
            if tag == Some("text"@) {
                Some(Some(ResponseFormatView::Text))
            } else if tag == Some("json_object"@) {
                Some(Some(ResponseFormatView::JsonObject))
            } else if tag == Some("json_schema"@) && name is Some && schema is Some && strict
                is Some {
                Some(
                    Some(
                        ResponseFormatView::JsonSchema {
                            name: name->0,
                            schema: schema->0,
                            strict: strict->0,
                        },
                    ),
                )
            } else {
                None
            }
        },
    }
}

fn read_format(value: &Json) -> (r: Option<Option<ResponseFormat>>)
    ensures
        r.deep_view() == held_format(value@),
{
    match value.get("response_format") {
        None => Some(None),
        Some(Json::Null) => Some(None),
        Some(format) => {
            let Some(tag) = format.str_at("type") else {
                return None;
            };
            if same_text(tag.as_str(), "text") {
                return Some(Some(ResponseFormat::Text));
            }
            if same_text(tag.as_str(), "json_object") {
                return Some(Some(ResponseFormat::JsonObject));
            }
            if same_text(tag.as_str(), "json_schema") {
                if let (Some(name), Some(schema), Some(strict)) = (
                    format.str_at("name"),
                    format.get("schema"),
                    read_bool(format, "strict"),
                ) {
                    return Some(
                        Some(
                            ResponseFormat::JsonSchema { name, schema: schema.clone(), strict },
                        ),
                    );
                }
            }
            None
        },
    }
}

/// How to reason, where that is said.
pub open spec fn reasoning_form(reasoning: Option<ReasoningConfigView>) -> Option<JsonView> {
    match reasoning {
        None => None,
        Some(reasoning) => {
            let f = assigned(no_fields(), "enabled"@, opt_bool(reasoning.enabled));
            let f = assigned(f, "effort"@, opt_string(reasoning.effort));
            let f = assigned(f, "budget_tokens"@, opt_u32(reasoning.budget_tokens));
            Some(JsonView::Object(assigned(f, "exclude"@, opt_bool(reasoning.exclude))))
        },
    }
}

fn write_reasoning(reasoning: &Option<ReasoningConfig>) -> (r: Option<Json>)
    ensures
        r.deep_view() == reasoning_form(reasoning.deep_view()),
{
    match reasoning {
        None => None,
        Some(reasoning) => {
            let mut fields = Fields::new();
            fields.set("enabled", json_bool(reasoning.enabled));
            fields.set("effort", json_string(&reasoning.effort));
            fields.set("budget_tokens", json_u32(reasoning.budget_tokens));
            fields.set("exclude", json_bool(reasoning.exclude));
            Some(Json::Object(fields))
        },
    }
}

/// How to reason, if a request says; nothing where its field holds something
/// else.
pub open spec fn held_reasoning(value: JsonView) -> Option<Option<ReasoningConfigView>> {
    match value.get("reasoning"@) {
        None => Some(None),
        Some(JsonView::Null) => Some(None),
        Some(JsonView::Object(fields)) => {
            let held = JsonView::Object(fields);
            match (
                held_bool(held, "enabled"@),
                held_text(held, "effort"@),
                held_u32(held, "budget_tokens"@),
                held_bool(held, "exclude"@),
            ) {
                (Some(enabled), Some(effort), Some(budget_tokens), Some(exclude)) => Some(
                    Some(ReasoningConfigView { enabled, effort, budget_tokens, exclude }),
                ),
                _ => None,
            }
        },
        Some(_) => None,
    }
}

fn read_reasoning(value: &Json) -> (r: Option<Option<ReasoningConfig>>)
    ensures
        r.deep_view() == held_reasoning(value@),
{
    match value.get("reasoning") {
        None => Some(None),
        Some(Json::Null) => Some(None),
        Some(held @ Json::Object(_)) => match (
            read_bool(held, "enabled"),
            read_text(held, "effort"),
            read_u32(held, "budget_tokens"),
            read_bool(held, "exclude"),
        ) {
            (Some(enabled), Some(effort), Some(budget_tokens), Some(exclude)) => Some(
                Some(ReasoningConfig { enabled, effort, budget_tokens, exclude }),
            ),
            _ => None,
        },
        Some(_) => None,
    }
}

/// How to sample, in JSON. What is not said is `null`, but for the sequences to
/// stop at.
pub open spec fn params_form(params: GenerationParamsView) -> JsonView {
    let f = fields2(
        "max_tokens"@,
        or_null(opt_u32(params.max_tokens)),
        "temperature"@,
        or_null(opt_number(params.temperature)),
    );
    let f = put(f, "top_p"@, or_null(opt_number(params.top_p)));
    let f = put(f, "top_k"@, or_null(opt_u32(params.top_k)));
    JsonView::Object(assigned(f, "stop"@, items_form(strings(params.stop))))
}

impl GenerationParams {
    /// Writes how to sample in JSON.
    pub fn to_json(&self) -> (r: Json)
        ensures
            r@ == params_form(self@),
    {
        let mut fields = object2(
            "max_tokens",
            write_or_null(json_u32(self.max_tokens)),
            "temperature",
            write_or_null(json_number(&self.temperature)),
        ).fields();
        fields.put("top_p", write_or_null(json_number(&self.top_p)));
        fields.put("top_k", write_or_null(json_u32(self.top_k)));
        fields.set("stop", write_items(json_strings(&self.stop)));
        Json::Object(fields)
    }
}

/// Nothing said of how to sample.
pub open spec fn no_params() -> GenerationParamsView {
    GenerationParamsView {
        max_tokens: None,
        temperature: None,
        top_p: None,
        top_k: None,
        stop: Seq::empty(),
    }
}

/// The text a value is; an empty one where it is none.
pub open spec fn text_of(value: JsonView) -> Seq<char> {
    match value.as_str() {
        Some(text) => text,
        None => Seq::empty(),
    }
}

/// The texts in a list, if each item is one.
pub open spec fn held_stop(value: JsonView) -> Option<Seq<Seq<char>>> {
    match value.get("stop"@) {
        None => Some(Seq::empty()),
        Some(JsonView::Array(items)) => if forall|i: int|
            0 <= i < items.len() ==> #[trigger] items[i] is String {
            Some(items.map_values(|item: JsonView| text_of(item)))
        } else {
            None
        },
        Some(_) => None,
    }
}

fn read_stop(value: &Json) -> (r: Option<Vec<String>>)
    ensures
        r.deep_view() == held_stop(value@),
{
    let mut out: Vec<String> = Vec::new();
    match value.get("stop") {
        None => {},
        Some(Json::Array(items)) => {
            let ghost all = models(items@);
            for i in 0..items.len()
                invariant
                    all == models(items@),
                    value@.get("stop"@) == Some(JsonView::Array(all)),
                    out.len() == i,
                    forall|k: int| 0 <= k < i ==> #[trigger] all[k] == string(out@[k]@),
            {
                assert(all[i as int] == items@[i as int]@);
                match items[i].as_str() {
                    Some(text) => {
                        out.push(text.to_owned());
                    },
                    None => {
                        assert(!(all[i as int] is String));
                        return None;
                    },
                }
            }
        },
        Some(_) => {
            return None;
        },
    }
    assert(out.deep_view() =~= held_stop(value@)->0);
    Some(out)
}

/// How to sample, as a JSON value says it, if it does.
pub open spec fn params_in(value: JsonView) -> Option<GenerationParamsView> {
    if !(value is Object) {
        None
    } else {
        match (
            held_u32(value, "max_tokens"@),
            held_number(value, "temperature"@),
            held_number(value, "top_p"@),
            held_u32(value, "top_k"@),
            held_stop(value),
        ) {
            (Some(max_tokens), Some(temperature), Some(top_p), Some(top_k), Some(stop)) => Some(
                GenerationParamsView { max_tokens, temperature, top_p, top_k, stop },
            ),
            _ => None,
        }
    }
}

impl GenerationParams {
    /// Reads how to sample.
    pub fn from_json(value: &Json) -> (r: Option<GenerationParams>)
        ensures
            r.deep_view() == params_in(value@),
    {
        if value.as_object().is_none() {
            return None;
        }
        match (
            read_u32(value, "max_tokens"),
            read_number(value, "temperature"),
            read_number(value, "top_p"),
            read_u32(value, "top_k"),
            read_stop(value),
        ) {
            (Some(max_tokens), Some(temperature), Some(top_p), Some(top_k), Some(stop)) => Some(
                GenerationParams { max_tokens, temperature, top_p, top_k, stop },
            ),
            _ => None,
        }
    }
}

/// How to sample, as a request says it; nothing where its field holds something
/// else.
pub open spec fn held_params(value: JsonView) -> Option<GenerationParamsView> {
    match value.get("params"@) {
        None => Some(no_params()),
        Some(params) => params_in(params),
    }
}

fn read_params(value: &Json) -> (r: Option<GenerationParams>)
    ensures
        r.deep_view() == held_params(value@),
{
    match value.get("params") {
        None => {
            let stop: Vec<String> = Vec::new();
            assert(stop.deep_view() =~= Seq::<Seq<char>>::empty());
            Some(
                GenerationParams {
                    max_tokens: None,
                    temperature: None,
                    top_p: None,
                    top_k: None,
                    stop,
                },
            )
        },
        Some(params) => GenerationParams::from_json(params),
    }
}

// ---------------------------------------------------------------------------
// Requests
// ---------------------------------------------------------------------------

/// Every item is one of the messages.
pub open spec fn all_messages(items: Seq<JsonView>) -> bool {
    forall|i: int| 0 <= i < items.len() ==> message_in(#[trigger] items[i]) is Some
}

/// The messages a request holds; nothing where they are no list of them.
pub open spec fn held_messages(value: JsonView) -> Option<Seq<MessageView>> {
    match value.get("messages"@) {
        None => None,
        Some(JsonView::Array(items)) => if all_messages(items) {
            Some(items.map_values(|item: JsonView| message_in(item)->0))
        } else {
            None
        },
        Some(_) => None,
    }
}

fn read_messages(value: &Json) -> (r: Option<Vec<Message>>)
    ensures
        r.deep_view() == held_messages(value@),
{
    let mut out: Vec<Message> = Vec::new();
    match value.get("messages") {
        None => {
            return None;
        },
        Some(Json::Array(items)) => {
            let ghost all = models(items@);
            for i in 0..items.len()
                invariant
                    all == models(items@),
                    value@.get("messages"@) == Some(JsonView::Array(all)),
                    out.len() == i,
                    forall|k: int| 0 <= k < i ==> message_in(#[trigger] all[k]) == Some(out@[k]@),
            {
                assert(all[i as int] == items@[i as int]@);
                match Message::from_json(&items[i]) {
                    Some(item) => {
                        out.push(item);
                    },
                    None => {
                        assert(message_in(all[i as int]) is None);
                        return None;
                    },
                }
            }
            assert(all_messages(all));
        },
        Some(_) => {
            return None;
        },
    }
    assert(out.deep_view() =~= held_messages(value@)->0);
    Some(out)
}

fn write_messages(items: &Vec<Message>) -> (r: Vec<Json>)
    ensures
        models(r@) == items.deep_view().map_values(|item: MessageView| message_form(item)),
{
    let mut out: Vec<Json> = Vec::new();
    for i in 0..items.len()
        invariant
            out.len() == i,
            forall|k: int| 0 <= k < i ==> out@[k]@ == message_form(items@[k]@),
    {
        out.push(items[i].to_json());
    }
    assert(models(out@) =~= items.deep_view().map_values(|item: MessageView| message_form(item)));
    out
}

/// Every item is one of the tools.
pub open spec fn all_tools(items: Seq<JsonView>) -> bool {
    forall|i: int| 0 <= i < items.len() ==> tool_in(#[trigger] items[i]) is Some
}

/// The tools a request holds; nothing where they are no list of them.
pub open spec fn held_tools(value: JsonView) -> Option<Seq<ToolDefView>> {
    match value.get("tools"@) {
        None => Some(Seq::empty()),
        Some(JsonView::Array(items)) => if all_tools(items) {
            Some(items.map_values(|item: JsonView| tool_in(item)->0))
        } else {
            None
        },
        Some(_) => None,
    }
}

fn read_tools(value: &Json) -> (r: Option<Vec<ToolDef>>)
    ensures
        r.deep_view() == held_tools(value@),
{
    let mut out: Vec<ToolDef> = Vec::new();
    match value.get("tools") {
        None => {},
        Some(Json::Array(items)) => {
            let ghost all = models(items@);
            for i in 0..items.len()
                invariant
                    all == models(items@),
                    value@.get("tools"@) == Some(JsonView::Array(all)),
                    out.len() == i,
                    forall|k: int| 0 <= k < i ==> tool_in(#[trigger] all[k]) == Some(out@[k]@),
            {
                assert(all[i as int] == items@[i as int]@);
                match ToolDef::from_json(&items[i]) {
                    Some(item) => {
                        out.push(item);
                    },
                    None => {
                        assert(tool_in(all[i as int]) is None);
                        return None;
                    },
                }
            }
            assert(all_tools(all));
        },
        Some(_) => {
            return None;
        },
    }
    assert(out.deep_view() =~= held_tools(value@)->0);
    Some(out)
}

fn write_tools(items: &Vec<ToolDef>) -> (r: Vec<Json>)
    ensures
        models(r@) == items.deep_view().map_values(|item: ToolDefView| tool_form(item)),
{
    let mut out: Vec<Json> = Vec::new();
    for i in 0..items.len()
        invariant
            out.len() == i,
            forall|k: int| 0 <= k < i ==> out@[k]@ == tool_form(items@[k]@),
    {
        out.push(items[i].to_json());
    }
    assert(models(out@) =~= items.deep_view().map_values(|item: ToolDefView| tool_form(item)));
    out
}

/// A request in JSON. Where it came from is not written.
pub open spec fn request_form(request: ChatRequestView) -> JsonView {
    let messages = request.messages.map_values(|item: MessageView| message_form(item));
    let tools = request.tools.map_values(|item: ToolDefView| tool_form(item));
    let f = fields2("model"@, string(request.model), "messages"@, JsonView::Array(messages));
    let f = assigned(f, "tools"@, items_form(tools));
    let f = assigned(f, "tool_choice"@, choice_form(request.tool_choice));
    let f = assigned(f, "parallel_tool_calls"@, opt_bool(request.parallel_tool_calls));
    let f = put(f, "params"@, params_form(request.params));
    let f = assigned(f, "response_format"@, format_form(request.response_format));
    let f = assigned(f, "reasoning"@, reasoning_form(request.reasoning));
    let f = assigned(f, "cache"@, cache_form(request.cache));
    let f = put(f, "stream"@, JsonView::Bool(request.stream));
    let f = assigned(f, "stream_include_usage"@, opt_bool(request.stream_include_usage));
    JsonView::Object(assigned(f, "ext"@, ext_form(request.ext)))
}

/// Whether a request asks for a stream; nothing where its field holds something
/// else.
pub open spec fn held_stream(value: JsonView) -> Option<bool> {
    match value.get("stream"@) {
        None => Some(false),
        Some(held) => held.as_bool(),
    }
}

fn read_stream(value: &Json) -> (r: Option<bool>)
    ensures
        r == held_stream(value@),
{
    match value.get("stream") {
        None => Some(false),
        Some(Json::Bool(flag)) => Some(*flag),
        Some(_) => None,
    }
}

/// The request that a JSON value is, if it is one.
pub open spec fn request_in(value: JsonView) -> Option<ChatRequestView> {
    match (
        value.str_at("model"@),
        held_messages(value),
        held_tools(value),
        held_choice(value),
        held_bool(value, "parallel_tool_calls"@),
        held_params(value),
    ) {
        (
            Some(model),
            Some(messages),
            Some(tools),
            Some(tool_choice),
            Some(parallel_tool_calls),
            Some(params),
        ) => match (
            held_format(value),
            held_reasoning(value),
            held_cache(value),
            held_stream(value),
            held_bool(value, "stream_include_usage"@),
            held_ext(value),
        ) {
            (
                Some(response_format),
                Some(reasoning),
                Some(cache),
                Some(stream),
                Some(stream_include_usage),
                Some(ext),
            ) => Some(
                ChatRequestView {
                    model,
                    messages,
                    tools,
                    tool_choice,
                    parallel_tool_calls,
                    params,
                    response_format,
                    reasoning,
                    cache,
                    stream,
                    stream_include_usage,
                    ext,
                    source: None,
                },
            ),
            _ => None,
        },
        _ => None,
    }
}

impl ChatRequest {
    /// Writes the request in JSON. Where it came from is not written.
    pub fn to_json(&self) -> (r: Json)
        ensures
            r@ == request_form(self@),
    {
        let mut fields = object2(
            "model",
            Json::String(self.model.clone()),
            "messages",
            Json::Array(write_messages(&self.messages)),
        ).fields();
        fields.set("tools", write_items(write_tools(&self.tools)));
        fields.set("tool_choice", write_choice(&self.tool_choice));
        fields.set("parallel_tool_calls", json_bool(self.parallel_tool_calls));
        fields.put("params", self.params.to_json());
        fields.set("response_format", write_format(&self.response_format));
        fields.set("reasoning", write_reasoning(&self.reasoning));
        fields.set("cache", write_cache(&self.cache));
        fields.put("stream", Json::Bool(self.stream));
        fields.set("stream_include_usage", json_bool(self.stream_include_usage));
        fields.set("ext", write_ext(&self.ext));
        Json::Object(fields)
    }

    /// Reads a request.
    pub fn from_json(value: &Json) -> (r: Option<ChatRequest>)
        ensures
            r.deep_view() == request_in(value@),
    {
        match (
            value.str_at("model"),
            read_messages(value),
            read_tools(value),
            read_choice(value),
            read_bool(value, "parallel_tool_calls"),
            read_params(value),
        ) {
            (
                Some(model),
                Some(messages),
                Some(tools),
                Some(tool_choice),
                Some(parallel_tool_calls),
                Some(params),
            ) => match (
                read_format(value),
                read_reasoning(value),
                read_cache(value),
                read_stream(value),
                read_bool(value, "stream_include_usage"),
                read_ext(value),
            ) {
                (
                    Some(response_format),
                    Some(reasoning),
                    Some(cache),
                    Some(stream),
                    Some(stream_include_usage),
                    Some(ext),
                ) => Some(
                    ChatRequest {
                        model,
                        messages,
                        tools,
                        tool_choice,
                        parallel_tool_calls,
                        params,
                        response_format,
                        reasoning,
                        cache,
                        stream,
                        stream_include_usage,
                        ext,
                        source: None,
                    },
                ),
                _ => None,
            },
            _ => None,
        }
    }
}

// ---------------------------------------------------------------------------
// Reading back
// ---------------------------------------------------------------------------

/// The names within a block differ.
proof fn lemma_block_keys()
    ensures
        "type"@ != "text"@,
        "type"@ != "cache"@,
        "type"@ != "source"@,
        "type"@ != "detail"@,
        "type"@ != "format"@,
        "type"@ != "title"@,
        "type"@ != "id"@,
        "type"@ != "name"@,
        "type"@ != "arguments"@,
        "type"@ != "call_id"@,
        "type"@ != "content"@,
        "type"@ != "is_error"@,
        "type"@ != "provenance"@,
        "text"@ != "cache"@,
        "text"@ != "source"@,
        "text"@ != "detail"@,
        "text"@ != "format"@,
        "text"@ != "title"@,
        "text"@ != "id"@,
        "text"@ != "name"@,
        "text"@ != "arguments"@,
        "text"@ != "call_id"@,
        "text"@ != "content"@,
        "text"@ != "is_error"@,
        "text"@ != "provenance"@,
        "cache"@ != "source"@,
        "cache"@ != "detail"@,
        "cache"@ != "format"@,
        "cache"@ != "title"@,
        "cache"@ != "id"@,
        "cache"@ != "name"@,
        "cache"@ != "arguments"@,
        "cache"@ != "call_id"@,
        "cache"@ != "content"@,
        "cache"@ != "is_error"@,
        "cache"@ != "provenance"@,
        "source"@ != "detail"@,
        "source"@ != "format"@,
        "source"@ != "title"@,
        "source"@ != "id"@,
        "source"@ != "name"@,
        "source"@ != "arguments"@,
        "source"@ != "call_id"@,
        "source"@ != "content"@,
        "source"@ != "is_error"@,
        "source"@ != "provenance"@,
        "detail"@ != "format"@,
        "detail"@ != "title"@,
        "detail"@ != "id"@,
        "detail"@ != "name"@,
        "detail"@ != "arguments"@,
        "detail"@ != "call_id"@,
        "detail"@ != "content"@,
        "detail"@ != "is_error"@,
        "detail"@ != "provenance"@,
        "format"@ != "title"@,
        "format"@ != "id"@,
        "format"@ != "name"@,
        "format"@ != "arguments"@,
        "format"@ != "call_id"@,
        "format"@ != "content"@,
        "format"@ != "is_error"@,
        "format"@ != "provenance"@,
        "title"@ != "id"@,
        "title"@ != "name"@,
        "title"@ != "arguments"@,
        "title"@ != "call_id"@,
        "title"@ != "content"@,
        "title"@ != "is_error"@,
        "title"@ != "provenance"@,
        "id"@ != "name"@,
        "id"@ != "arguments"@,
        "id"@ != "call_id"@,
        "id"@ != "content"@,
        "id"@ != "is_error"@,
        "id"@ != "provenance"@,
        "name"@ != "arguments"@,
        "name"@ != "call_id"@,
        "name"@ != "content"@,
        "name"@ != "is_error"@,
        "name"@ != "provenance"@,
        "arguments"@ != "call_id"@,
        "arguments"@ != "content"@,
        "arguments"@ != "is_error"@,
        "arguments"@ != "provenance"@,
        "call_id"@ != "content"@,
        "call_id"@ != "is_error"@,
        "call_id"@ != "provenance"@,
        "content"@ != "is_error"@,
        "content"@ != "provenance"@,
        "is_error"@ != "provenance"@,
{
    reveal_strlit("type");
    reveal_strlit("text");
    reveal_strlit("cache");
    reveal_strlit("source");
    reveal_strlit("detail");
    reveal_strlit("format");
    reveal_strlit("title");
    reveal_strlit("id");
    reveal_strlit("name");
    reveal_strlit("arguments");
    reveal_strlit("call_id");
    reveal_strlit("content");
    reveal_strlit("is_error");
    reveal_strlit("provenance");
    assert("type"@[1] != "text"@[1]);
    assert("type"@.len() != "cache"@.len());
    assert("type"@.len() != "source"@.len());
    assert("type"@.len() != "detail"@.len());
    assert("type"@.len() != "format"@.len());
    assert("type"@.len() != "title"@.len());
    assert("type"@.len() != "id"@.len());
    assert("type"@[0] != "name"@[0]);
    assert("type"@.len() != "arguments"@.len());
    assert("type"@.len() != "call_id"@.len());
    assert("type"@.len() != "content"@.len());
    assert("type"@.len() != "is_error"@.len());
    assert("type"@.len() != "provenance"@.len());
    assert("text"@.len() != "cache"@.len());
    assert("text"@.len() != "source"@.len());
    assert("text"@.len() != "detail"@.len());
    assert("text"@.len() != "format"@.len());
    assert("text"@.len() != "title"@.len());
    assert("text"@.len() != "id"@.len());
    assert("text"@[0] != "name"@[0]);
    assert("text"@.len() != "arguments"@.len());
    assert("text"@.len() != "call_id"@.len());
    assert("text"@.len() != "content"@.len());
    assert("text"@.len() != "is_error"@.len());
    assert("text"@.len() != "provenance"@.len());
    assert("cache"@.len() != "source"@.len());
    assert("cache"@.len() != "detail"@.len());
    assert("cache"@.len() != "format"@.len());
    assert("cache"@[0] != "title"@[0]);
    assert("cache"@.len() != "id"@.len());
    assert("cache"@.len() != "name"@.len());
    assert("cache"@.len() != "arguments"@.len());
    assert("cache"@.len() != "call_id"@.len());
    assert("cache"@.len() != "content"@.len());
    assert("cache"@.len() != "is_error"@.len());
    assert("cache"@.len() != "provenance"@.len());
    assert("source"@[0] != "detail"@[0]);
    assert("source"@[0] != "format"@[0]);
    assert("source"@.len() != "title"@.len());
    assert("source"@.len() != "id"@.len());
    assert("source"@.len() != "name"@.len());
    assert("source"@.len() != "arguments"@.len());
    assert("source"@.len() != "call_id"@.len());
    assert("source"@.len() != "content"@.len());
    assert("source"@.len() != "is_error"@.len());
    assert("source"@.len() != "provenance"@.len());
    assert("detail"@[0] != "format"@[0]);
    assert("detail"@.len() != "title"@.len());
    assert("detail"@.len() != "id"@.len());
    assert("detail"@.len() != "name"@.len());
    assert("detail"@.len() != "arguments"@.len());
    assert("detail"@.len() != "call_id"@.len());
    assert("detail"@.len() != "content"@.len());
    assert("detail"@.len() != "is_error"@.len());
    assert("detail"@.len() != "provenance"@.len());
    assert("format"@.len() != "title"@.len());
    assert("format"@.len() != "id"@.len());
    assert("format"@.len() != "name"@.len());
    assert("format"@.len() != "arguments"@.len());
    assert("format"@.len() != "call_id"@.len());
    assert("format"@.len() != "content"@.len());
    assert("format"@.len() != "is_error"@.len());
    assert("format"@.len() != "provenance"@.len());
    assert("title"@.len() != "id"@.len());
    assert("title"@.len() != "name"@.len());
    assert("title"@.len() != "arguments"@.len());
    assert("title"@.len() != "call_id"@.len());
    assert("title"@.len() != "content"@.len());
    assert("title"@.len() != "is_error"@.len());
    assert("title"@.len() != "provenance"@.len());
    assert("id"@.len() != "name"@.len());
    assert("id"@.len() != "arguments"@.len());
    assert("id"@.len() != "call_id"@.len());
    assert("id"@.len() != "content"@.len());
    assert("id"@.len() != "is_error"@.len());
    assert("id"@.len() != "provenance"@.len());
    assert("name"@.len() != "arguments"@.len());
    assert("name"@.len() != "call_id"@.len());
    assert("name"@.len() != "content"@.len());
    assert("name"@.len() != "is_error"@.len());
    assert("name"@.len() != "provenance"@.len());
    assert("arguments"@.len() != "call_id"@.len());
    assert("arguments"@.len() != "content"@.len());
    assert("arguments"@.len() != "is_error"@.len());
    assert("arguments"@.len() != "provenance"@.len());
    assert("call_id"@[1] != "content"@[1]);
    assert("call_id"@.len() != "is_error"@.len());
    assert("call_id"@.len() != "provenance"@.len());
    assert("content"@.len() != "is_error"@.len());
    assert("content"@.len() != "provenance"@.len());
    assert("is_error"@.len() != "provenance"@.len());
}

/// The tags of blocks differ.
proof fn lemma_block_tags()
    ensures
        "text"@ != "image"@,
        "text"@ != "audio"@,
        "text"@ != "document"@,
        "text"@ != "tool_call"@,
        "text"@ != "tool_result"@,
        "text"@ != "reasoning"@,
        "image"@ != "audio"@,
        "image"@ != "document"@,
        "image"@ != "tool_call"@,
        "image"@ != "tool_result"@,
        "image"@ != "reasoning"@,
        "audio"@ != "document"@,
        "audio"@ != "tool_call"@,
        "audio"@ != "tool_result"@,
        "audio"@ != "reasoning"@,
        "document"@ != "tool_call"@,
        "document"@ != "tool_result"@,
        "document"@ != "reasoning"@,
        "tool_call"@ != "tool_result"@,
        "tool_call"@ != "reasoning"@,
        "tool_result"@ != "reasoning"@,
{
    reveal_strlit("text");
    reveal_strlit("image");
    reveal_strlit("audio");
    reveal_strlit("document");
    reveal_strlit("tool_call");
    reveal_strlit("tool_result");
    reveal_strlit("reasoning");
    assert("text"@.len() != "image"@.len());
    assert("text"@.len() != "audio"@.len());
    assert("text"@.len() != "document"@.len());
    assert("text"@.len() != "tool_call"@.len());
    assert("text"@.len() != "tool_result"@.len());
    assert("text"@.len() != "reasoning"@.len());
    assert("image"@[0] != "audio"@[0]);
    assert("image"@.len() != "document"@.len());
    assert("image"@.len() != "tool_call"@.len());
    assert("image"@.len() != "tool_result"@.len());
    assert("image"@.len() != "reasoning"@.len());
    assert("audio"@.len() != "document"@.len());
    assert("audio"@.len() != "tool_call"@.len());
    assert("audio"@.len() != "tool_result"@.len());
    assert("audio"@.len() != "reasoning"@.len());
    assert("document"@.len() != "tool_call"@.len());
    assert("document"@.len() != "tool_result"@.len());
    assert("document"@.len() != "reasoning"@.len());
    assert("tool_call"@.len() != "tool_result"@.len());
    assert("tool_call"@[0] != "reasoning"@[0]);
    assert("tool_result"@.len() != "reasoning"@.len());
}

/// The names within a source differ.
proof fn lemma_source_keys()
    ensures
        "type"@ != "url"@,
        "type"@ != "media_type"@,
        "type"@ != "data"@,
        "type"@ != "id"@,
        "url"@ != "media_type"@,
        "url"@ != "data"@,
        "url"@ != "id"@,
        "media_type"@ != "data"@,
        "media_type"@ != "id"@,
        "data"@ != "id"@,
{
    reveal_strlit("type");
    reveal_strlit("url");
    reveal_strlit("media_type");
    reveal_strlit("data");
    reveal_strlit("id");
    assert("type"@.len() != "url"@.len());
    assert("type"@.len() != "media_type"@.len());
    assert("type"@[0] != "data"@[0]);
    assert("type"@.len() != "id"@.len());
    assert("url"@.len() != "media_type"@.len());
    assert("url"@.len() != "data"@.len());
    assert("url"@.len() != "id"@.len());
    assert("media_type"@.len() != "data"@.len());
    assert("media_type"@.len() != "id"@.len());
    assert("data"@.len() != "id"@.len());
}

/// The tags of sources differ.
proof fn lemma_source_tags()
    ensures
        "url"@ != "base64"@,
        "url"@ != "provider_file"@,
        "base64"@ != "provider_file"@,
{
    reveal_strlit("url");
    reveal_strlit("base64");
    reveal_strlit("provider_file");
    assert("url"@.len() != "base64"@.len());
    assert("url"@.len() != "provider_file"@.len());
    assert("base64"@.len() != "provider_file"@.len());
}

/// The names within reasoning differ.
proof fn lemma_detail_keys()
    ensures
        "type"@ != "text"@,
        "type"@ != "signature"@,
        "type"@ != "data"@,
        "type"@ != "summary"@,
        "text"@ != "signature"@,
        "text"@ != "data"@,
        "text"@ != "summary"@,
        "signature"@ != "data"@,
        "signature"@ != "summary"@,
        "data"@ != "summary"@,
{
    reveal_strlit("type");
    reveal_strlit("text");
    reveal_strlit("signature");
    reveal_strlit("data");
    reveal_strlit("summary");
    assert("type"@[1] != "text"@[1]);
    assert("type"@.len() != "signature"@.len());
    assert("type"@[0] != "data"@[0]);
    assert("type"@.len() != "summary"@.len());
    assert("text"@.len() != "signature"@.len());
    assert("text"@[0] != "data"@[0]);
    assert("text"@.len() != "summary"@.len());
    assert("signature"@.len() != "data"@.len());
    assert("signature"@.len() != "summary"@.len());
    assert("data"@.len() != "summary"@.len());
}

/// The tags of reasoning differ.
proof fn lemma_detail_tags()
    ensures
        "text"@ != "encrypted"@,
        "text"@ != "summary"@,
        "encrypted"@ != "summary"@,
{
    reveal_strlit("text");
    reveal_strlit("encrypted");
    reveal_strlit("summary");
    assert("text"@.len() != "encrypted"@.len());
    assert("text"@.len() != "summary"@.len());
    assert("encrypted"@.len() != "summary"@.len());
}

/// The names within a message differ.
proof fn lemma_message_keys()
    ensures
        "role"@ != "content"@,
        "role"@ != "ext"@,
        "content"@ != "ext"@,
{
    reveal_strlit("role");
    reveal_strlit("content");
    reveal_strlit("ext");
    assert("role"@.len() != "content"@.len());
    assert("role"@.len() != "ext"@.len());
    assert("content"@.len() != "ext"@.len());
}

/// The words for roles differ.
proof fn lemma_role_words()
    ensures
        "system"@ != "user"@,
        "system"@ != "assistant"@,
        "system"@ != "tool"@,
        "user"@ != "assistant"@,
        "user"@ != "tool"@,
        "assistant"@ != "tool"@,
{
    reveal_strlit("system");
    reveal_strlit("user");
    reveal_strlit("assistant");
    reveal_strlit("tool");
    assert("system"@.len() != "user"@.len());
    assert("system"@.len() != "assistant"@.len());
    assert("system"@.len() != "tool"@.len());
    assert("user"@.len() != "assistant"@.len());
    assert("user"@[0] != "tool"@[0]);
    assert("assistant"@.len() != "tool"@.len());
}

/// The names within a tool differ.
proof fn lemma_tool_keys()
    ensures
        "name"@ != "description"@,
        "name"@ != "input_schema"@,
        "name"@ != "strict"@,
        "name"@ != "cache"@,
        "name"@ != "ext"@,
        "description"@ != "input_schema"@,
        "description"@ != "strict"@,
        "description"@ != "cache"@,
        "description"@ != "ext"@,
        "input_schema"@ != "strict"@,
        "input_schema"@ != "cache"@,
        "input_schema"@ != "ext"@,
        "strict"@ != "cache"@,
        "strict"@ != "ext"@,
        "cache"@ != "ext"@,
{
    reveal_strlit("name");
    reveal_strlit("description");
    reveal_strlit("input_schema");
    reveal_strlit("strict");
    reveal_strlit("cache");
    reveal_strlit("ext");
    assert("name"@.len() != "description"@.len());
    assert("name"@.len() != "input_schema"@.len());
    assert("name"@.len() != "strict"@.len());
    assert("name"@.len() != "cache"@.len());
    assert("name"@.len() != "ext"@.len());
    assert("description"@.len() != "input_schema"@.len());
    assert("description"@.len() != "strict"@.len());
    assert("description"@.len() != "cache"@.len());
    assert("description"@.len() != "ext"@.len());
    assert("input_schema"@.len() != "strict"@.len());
    assert("input_schema"@.len() != "cache"@.len());
    assert("input_schema"@.len() != "ext"@.len());
    assert("strict"@.len() != "cache"@.len());
    assert("strict"@.len() != "ext"@.len());
    assert("cache"@.len() != "ext"@.len());
}

/// The names within a choice differ.
proof fn lemma_choice_words()
    ensures
        "mode"@ != "name"@,
{
    reveal_strlit("mode");
    reveal_strlit("name");
    assert("mode"@[0] != "name"@[0]);
}

/// The modes of a choice differ.
proof fn lemma_modes()
    ensures
        "auto"@ != "none"@,
        "auto"@ != "required"@,
        "auto"@ != "tool"@,
        "none"@ != "required"@,
        "none"@ != "tool"@,
        "required"@ != "tool"@,
{
    reveal_strlit("auto");
    reveal_strlit("none");
    reveal_strlit("required");
    reveal_strlit("tool");
    assert("auto"@[0] != "none"@[0]);
    assert("auto"@.len() != "required"@.len());
    assert("auto"@[0] != "tool"@[0]);
    assert("none"@.len() != "required"@.len());
    assert("none"@[0] != "tool"@[0]);
    assert("required"@.len() != "tool"@.len());
}

/// The names within a form of reply differ.
proof fn lemma_format_keys()
    ensures
        "type"@ != "name"@,
        "type"@ != "schema"@,
        "type"@ != "strict"@,
        "name"@ != "schema"@,
        "name"@ != "strict"@,
        "schema"@ != "strict"@,
{
    reveal_strlit("type");
    reveal_strlit("name");
    reveal_strlit("schema");
    reveal_strlit("strict");
    assert("type"@[0] != "name"@[0]);
    assert("type"@.len() != "schema"@.len());
    assert("type"@.len() != "strict"@.len());
    assert("name"@.len() != "schema"@.len());
    assert("name"@.len() != "strict"@.len());
    assert("schema"@[1] != "strict"@[1]);
}

/// The tags of forms of reply differ.
proof fn lemma_format_tags()
    ensures
        "text"@ != "json_object"@,
        "text"@ != "json_schema"@,
        "json_object"@ != "json_schema"@,
{
    reveal_strlit("text");
    reveal_strlit("json_object");
    reveal_strlit("json_schema");
    assert("text"@.len() != "json_object"@.len());
    assert("text"@.len() != "json_schema"@.len());
    assert("json_object"@[5] != "json_schema"@[5]);
}

/// The names within how to reason differ.
proof fn lemma_reasoning_keys()
    ensures
        "enabled"@ != "effort"@,
        "enabled"@ != "budget_tokens"@,
        "enabled"@ != "exclude"@,
        "effort"@ != "budget_tokens"@,
        "effort"@ != "exclude"@,
        "budget_tokens"@ != "exclude"@,
{
    reveal_strlit("enabled");
    reveal_strlit("effort");
    reveal_strlit("budget_tokens");
    reveal_strlit("exclude");
    assert("enabled"@.len() != "effort"@.len());
    assert("enabled"@.len() != "budget_tokens"@.len());
    assert("enabled"@[1] != "exclude"@[1]);
    assert("effort"@.len() != "budget_tokens"@.len());
    assert("effort"@.len() != "exclude"@.len());
    assert("budget_tokens"@.len() != "exclude"@.len());
}

/// The names within how to sample differ.
proof fn lemma_param_keys()
    ensures
        "max_tokens"@ != "temperature"@,
        "max_tokens"@ != "top_p"@,
        "max_tokens"@ != "top_k"@,
        "max_tokens"@ != "stop"@,
        "temperature"@ != "top_p"@,
        "temperature"@ != "top_k"@,
        "temperature"@ != "stop"@,
        "top_p"@ != "top_k"@,
        "top_p"@ != "stop"@,
        "top_k"@ != "stop"@,
{
    reveal_strlit("max_tokens");
    reveal_strlit("temperature");
    reveal_strlit("top_p");
    reveal_strlit("top_k");
    reveal_strlit("stop");
    assert("max_tokens"@.len() != "temperature"@.len());
    assert("max_tokens"@.len() != "top_p"@.len());
    assert("max_tokens"@.len() != "top_k"@.len());
    assert("max_tokens"@.len() != "stop"@.len());
    assert("temperature"@.len() != "top_p"@.len());
    assert("temperature"@.len() != "top_k"@.len());
    assert("temperature"@.len() != "stop"@.len());
    assert("top_p"@[4] != "top_k"@[4]);
    assert("top_p"@.len() != "stop"@.len());
    assert("top_k"@.len() != "stop"@.len());
}

/// The names within a request differ.
proof fn lemma_request_keys()
    ensures
        "model"@ != "messages"@,
        "model"@ != "tools"@,
        "model"@ != "tool_choice"@,
        "model"@ != "parallel_tool_calls"@,
        "model"@ != "params"@,
        "model"@ != "response_format"@,
        "model"@ != "reasoning"@,
        "model"@ != "cache"@,
        "model"@ != "stream"@,
        "model"@ != "stream_include_usage"@,
        "model"@ != "ext"@,
        "messages"@ != "tools"@,
        "messages"@ != "tool_choice"@,
        "messages"@ != "parallel_tool_calls"@,
        "messages"@ != "params"@,
        "messages"@ != "response_format"@,
        "messages"@ != "reasoning"@,
        "messages"@ != "cache"@,
        "messages"@ != "stream"@,
        "messages"@ != "stream_include_usage"@,
        "messages"@ != "ext"@,
        "tools"@ != "tool_choice"@,
        "tools"@ != "parallel_tool_calls"@,
        "tools"@ != "params"@,
        "tools"@ != "response_format"@,
        "tools"@ != "reasoning"@,
        "tools"@ != "cache"@,
        "tools"@ != "stream"@,
        "tools"@ != "stream_include_usage"@,
        "tools"@ != "ext"@,
        "tool_choice"@ != "parallel_tool_calls"@,
        "tool_choice"@ != "params"@,
        "tool_choice"@ != "response_format"@,
        "tool_choice"@ != "reasoning"@,
        "tool_choice"@ != "cache"@,
        "tool_choice"@ != "stream"@,
        "tool_choice"@ != "stream_include_usage"@,
        "tool_choice"@ != "ext"@,
        "parallel_tool_calls"@ != "params"@,
        "parallel_tool_calls"@ != "response_format"@,
        "parallel_tool_calls"@ != "reasoning"@,
        "parallel_tool_calls"@ != "cache"@,
        "parallel_tool_calls"@ != "stream"@,
        "parallel_tool_calls"@ != "stream_include_usage"@,
        "parallel_tool_calls"@ != "ext"@,
        "params"@ != "response_format"@,
        "params"@ != "reasoning"@,
        "params"@ != "cache"@,
        "params"@ != "stream"@,
        "params"@ != "stream_include_usage"@,
        "params"@ != "ext"@,
        "response_format"@ != "reasoning"@,
        "response_format"@ != "cache"@,
        "response_format"@ != "stream"@,
        "response_format"@ != "stream_include_usage"@,
        "response_format"@ != "ext"@,
        "reasoning"@ != "cache"@,
        "reasoning"@ != "stream"@,
        "reasoning"@ != "stream_include_usage"@,
        "reasoning"@ != "ext"@,
        "cache"@ != "stream"@,
        "cache"@ != "stream_include_usage"@,
        "cache"@ != "ext"@,
        "stream"@ != "stream_include_usage"@,
        "stream"@ != "ext"@,
        "stream_include_usage"@ != "ext"@,
{
    reveal_strlit("model");
    reveal_strlit("messages");
    reveal_strlit("tools");
    reveal_strlit("tool_choice");
    reveal_strlit("parallel_tool_calls");
    reveal_strlit("params");
    reveal_strlit("response_format");
    reveal_strlit("reasoning");
    reveal_strlit("cache");
    reveal_strlit("stream");
    reveal_strlit("stream_include_usage");
    reveal_strlit("ext");
    assert("model"@.len() != "messages"@.len());
    assert("model"@[0] != "tools"@[0]);
    assert("model"@.len() != "tool_choice"@.len());
    assert("model"@.len() != "parallel_tool_calls"@.len());
    assert("model"@.len() != "params"@.len());
    assert("model"@.len() != "response_format"@.len());
    assert("model"@.len() != "reasoning"@.len());
    assert("model"@[0] != "cache"@[0]);
    assert("model"@.len() != "stream"@.len());
    assert("model"@.len() != "stream_include_usage"@.len());
    assert("model"@.len() != "ext"@.len());
    assert("messages"@.len() != "tools"@.len());
    assert("messages"@.len() != "tool_choice"@.len());
    assert("messages"@.len() != "parallel_tool_calls"@.len());
    assert("messages"@.len() != "params"@.len());
    assert("messages"@.len() != "response_format"@.len());
    assert("messages"@.len() != "reasoning"@.len());
    assert("messages"@.len() != "cache"@.len());
    assert("messages"@.len() != "stream"@.len());
    assert("messages"@.len() != "stream_include_usage"@.len());
    assert("messages"@.len() != "ext"@.len());
    assert("tools"@.len() != "tool_choice"@.len());
    assert("tools"@.len() != "parallel_tool_calls"@.len());
    assert("tools"@.len() != "params"@.len());
    assert("tools"@.len() != "response_format"@.len());
    assert("tools"@.len() != "reasoning"@.len());
    assert("tools"@[0] != "cache"@[0]);
    assert("tools"@.len() != "stream"@.len());
    assert("tools"@.len() != "stream_include_usage"@.len());
    assert("tools"@.len() != "ext"@.len());
    assert("tool_choice"@.len() != "parallel_tool_calls"@.len());
    assert("tool_choice"@.len() != "params"@.len());
    assert("tool_choice"@.len() != "response_format"@.len());
    assert("tool_choice"@.len() != "reasoning"@.len());
    assert("tool_choice"@.len() != "cache"@.len());
    assert("tool_choice"@.len() != "stream"@.len());
    assert("tool_choice"@.len() != "stream_include_usage"@.len());
    assert("tool_choice"@.len() != "ext"@.len());
    assert("parallel_tool_calls"@.len() != "params"@.len());
    assert("parallel_tool_calls"@.len() != "response_format"@.len());
    assert("parallel_tool_calls"@.len() != "reasoning"@.len());
    assert("parallel_tool_calls"@.len() != "cache"@.len());
    assert("parallel_tool_calls"@.len() != "stream"@.len());
    assert("parallel_tool_calls"@.len() != "stream_include_usage"@.len());
    assert("parallel_tool_calls"@.len() != "ext"@.len());
    assert("params"@.len() != "response_format"@.len());
    assert("params"@.len() != "reasoning"@.len());
    assert("params"@.len() != "cache"@.len());
    assert("params"@[0] != "stream"@[0]);
    assert("params"@.len() != "stream_include_usage"@.len());
    assert("params"@.len() != "ext"@.len());
    assert("response_format"@.len() != "reasoning"@.len());
    assert("response_format"@.len() != "cache"@.len());
    assert("response_format"@.len() != "stream"@.len());
    assert("response_format"@.len() != "stream_include_usage"@.len());
    assert("response_format"@.len() != "ext"@.len());
    assert("reasoning"@.len() != "cache"@.len());
    assert("reasoning"@.len() != "stream"@.len());
    assert("reasoning"@.len() != "stream_include_usage"@.len());
    assert("reasoning"@.len() != "ext"@.len());
    assert("cache"@.len() != "stream"@.len());
    assert("cache"@.len() != "stream_include_usage"@.len());
    assert("cache"@.len() != "ext"@.len());
    assert("stream"@.len() != "stream_include_usage"@.len());
    assert("stream"@.len() != "ext"@.len());
    assert("stream_include_usage"@.len() != "ext"@.len());
}

/// A block that its JSON tells from the others, and so does every block within:
/// a known one, or one that no variant knows.
pub open spec fn told(block: ContentBlockView) -> bool
    decreases block,
{
    match block {
        ContentBlockView::Unknown(value) => block_in(value) == block,
        ContentBlockView::ToolResult { content, .. } => all_told(content),
        _ => true,
    }
}

/// Every block is told from the others.
pub open spec fn all_told(blocks: Seq<ContentBlockView>) -> bool
    decreases blocks,
{
    forall|i: int| 0 <= i < blocks.len() ==> told(#[trigger] blocks[i])
}

proof fn lemma_cache_reads_back(value: JsonView, cache: Option<CacheHintView>)
    requires
        value.get("cache"@) == cache_form(cache),
    ensures
        held_cache(value) == Some(cache),
{
    broadcast use group_find;

}

proof fn lemma_source_reads_back(value: JsonView, source: MediaSourceView)
    requires
        value.get("source"@) == Some(source_form(source)),
    ensures
        held_source(value) == Some(source),
{
    broadcast use group_find;

    lemma_source_keys();
    lemma_source_tags();
}

proof fn lemma_detail_reads_back(value: JsonView, detail: ReasoningDetailView)
    requires
        value.get("detail"@) == Some(detail_form(detail)),
    ensures
        held_detail(value) == Some(detail),
{
    broadcast use group_find;

    lemma_detail_keys();
    lemma_detail_tags();
}

proof fn lemma_inner_reads_back(value: JsonView, blocks: Seq<ContentBlockView>)
    requires
        value is Object,
        value.get("content"@) == Some(JsonView::Array(blocks_form(blocks))),
        forall|i: int|
            0 <= i < blocks.len() ==> block_in(block_form(#[trigger] blocks[i])) == blocks[i],
    ensures
        inner_blocks(value) == Some(blocks),
{
    let forms = blocks_form(blocks);
    assert(blocks_in(forms) =~= blocks);
}

/// A block is read back from its JSON. The one exception is a value that was taken
/// for unknown although a variant knows it.
pub proof fn law_a_block_reads_back(block: ContentBlockView)
    requires
        told(block),
    ensures
        block_in(block_form(block)) == block,
    decreases block,
{
    broadcast use group_find;

    lemma_block_keys();
    lemma_block_tags();
    let value = block_form(block);
    match block {
        ContentBlockView::Text { cache, .. } => {
            lemma_cache_reads_back(value, cache);
        },
        ContentBlockView::Image { source, cache, .. } => {
            lemma_source_reads_back(value, source);
            lemma_cache_reads_back(value, cache);
        },
        ContentBlockView::Audio { source, .. } => {
            lemma_source_reads_back(value, source);
        },
        ContentBlockView::Document { source, cache, .. } => {
            lemma_source_reads_back(value, source);
            lemma_cache_reads_back(value, cache);
        },
        ContentBlockView::ToolCall { .. } => {},
        ContentBlockView::ToolResult { content, .. } => {
            assert forall|i: int| 0 <= i < content.len() implies block_in(
                block_form(#[trigger] content[i]),
            ) == content[i] by {
                assert(told(content[i]));
                law_a_block_reads_back(content[i]);
            }
            lemma_inner_reads_back(value, content);
        },
        ContentBlockView::Reasoning { detail, .. } => {
            lemma_detail_reads_back(value, detail);
        },
        ContentBlockView::Unknown(_) => {},
    }
}

/// A message is read back from its JSON.
pub proof fn law_a_message_reads_back(message: MessageView)
    requires
        all_told(message.content),
    ensures
        message_in(message_form(message)) == Some(message),
{
    broadcast use group_find;

    lemma_message_keys();
    lemma_role_words();
    let value = message_form(message);
    let content = message.content;
    assert forall|i: int| 0 <= i < content.len() implies block_in(
        block_form(#[trigger] content[i]),
    ) == content[i] by {
        law_a_block_reads_back(content[i]);
    }
    lemma_inner_reads_back(value, content);
    assert(held_ext(value)->0 =~= message.ext);
}

/// A tool is read back from its JSON.
pub proof fn law_a_tool_reads_back(tool: ToolDefView)
    ensures
        tool_in(tool_form(tool)) == Some(tool),
{
    broadcast use group_find;

    lemma_tool_keys();
    let value = tool_form(tool);
    lemma_cache_reads_back(value, tool.cache);
    assert(held_ext(value)->0 =~= tool.ext);
}

proof fn lemma_choice_reads_back(value: JsonView, choice: Option<ToolChoiceView>)
    requires
        value.get("tool_choice"@) == choice_form(choice),
    ensures
        held_choice(value) == Some(choice),
{
    broadcast use group_find;

    lemma_choice_words();
    lemma_modes();
}

proof fn lemma_format_reads_back(value: JsonView, format: Option<ResponseFormatView>)
    requires
        value.get("response_format"@) == format_form(format),
    ensures
        held_format(value) == Some(format),
{
    broadcast use group_find;

    lemma_format_keys();
    lemma_format_tags();
}

proof fn lemma_reasoning_reads_back(value: JsonView, reasoning: Option<ReasoningConfigView>)
    requires
        value.get("reasoning"@) == reasoning_form(reasoning),
    ensures
        held_reasoning(value) == Some(reasoning),
{
    broadcast use group_find;

    lemma_reasoning_keys();
}

proof fn lemma_params_read_back(params: GenerationParamsView)
    ensures
        params_in(params_form(params)) == Some(params),
{
    broadcast use group_find;

    lemma_param_keys();
    let value = params_form(params);
    let items = strings(params.stop);
    assert(held_u32(value, "max_tokens"@) == Some(params.max_tokens));
    assert(held_number(value, "temperature"@) == Some(params.temperature));
    assert(held_number(value, "top_p"@) == Some(params.top_p));
    assert(held_u32(value, "top_k"@) == Some(params.top_k));
    assert forall|i: int| 0 <= i < items.len() implies #[trigger] items[i] is String by {
        assert(items[i] == string(params.stop[i]));
    }
    assert(held_stop(value)->0 =~= params.stop);
}

/// What the JSON of a request holds.
proof fn lemma_request_fields(request: ChatRequestView)
    ensures
        ({
            let value = request_form(request);
            let messages = request.messages.map_values(|item: MessageView| message_form(item));
            let tools = request.tools.map_values(|item: ToolDefView| tool_form(item));
            &&& value.get("model"@) == Some(string(request.model))
            &&& value.get("messages"@) == Some(JsonView::Array(messages))
            &&& value.get("tools"@) == items_form(tools)
            &&& value.get("tool_choice"@) == choice_form(request.tool_choice)
            &&& value.get("parallel_tool_calls"@) == opt_bool(request.parallel_tool_calls)
            &&& value.get("params"@) == Some(params_form(request.params))
            &&& value.get("response_format"@) == format_form(request.response_format)
            &&& value.get("reasoning"@) == reasoning_form(request.reasoning)
            &&& value.get("cache"@) == cache_form(request.cache)
            &&& value.get("stream"@) == Some(JsonView::Bool(request.stream))
            &&& value.get("stream_include_usage"@) == opt_bool(request.stream_include_usage)
            &&& value.get("ext"@) == ext_form(request.ext)
        }),
{
    broadcast use group_find;

    lemma_request_keys();
}

/// Where a request came from is not in its JSON.
pub proof fn law_the_source_is_not_written(request: ChatRequestView)
    ensures
        request_form(request).get("source"@) is None,
        request_form(request) == request_form(ChatRequestView { source: None, ..request }),
{
    broadcast use group_find;

    reveal_strlit("source");
    reveal_strlit("model");
    reveal_strlit("messages");
    reveal_strlit("tools");
    reveal_strlit("tool_choice");
    reveal_strlit("parallel_tool_calls");
    reveal_strlit("params");
    reveal_strlit("response_format");
    reveal_strlit("reasoning");
    reveal_strlit("cache");
    reveal_strlit("stream");
    reveal_strlit("stream_include_usage");
    reveal_strlit("ext");
    assert("source"@.len() != "model"@.len());
    assert("source"@.len() != "messages"@.len());
    assert("source"@.len() != "tools"@.len());
    assert("source"@.len() != "tool_choice"@.len());
    assert("source"@.len() != "parallel_tool_calls"@.len());
    assert("source"@[0] != "params"@[0]);
    assert("source"@.len() != "response_format"@.len());
    assert("source"@.len() != "reasoning"@.len());
    assert("source"@.len() != "cache"@.len());
    assert("source"@[1] != "stream"@[1]);
    assert("source"@.len() != "stream_include_usage"@.len());
    assert("source"@.len() != "ext"@.len());
}

/// A request is read back from its JSON, but for where it came from.
pub proof fn law_a_request_reads_back(request: ChatRequestView)
    requires
        forall|i: int|
            0 <= i < request.messages.len() ==> all_told((#[trigger] request.messages[i]).content),
    ensures
        request_in(request_form(request)) == Some(ChatRequestView { source: None, ..request }),
{
    lemma_request_fields(request);
    let value = request_form(request);
    let messages = request.messages.map_values(|item: MessageView| message_form(item));
    let tools = request.tools.map_values(|item: ToolDefView| tool_form(item));
    assert forall|i: int| 0 <= i < messages.len() implies message_in(#[trigger] messages[i])
        == Some(request.messages[i]) by {
        assert(all_told(request.messages[i].content));
        law_a_message_reads_back(request.messages[i]);
    }
    assert forall|i: int| 0 <= i < tools.len() implies tool_in(#[trigger] tools[i]) == Some(
        request.tools[i],
    ) by {
        law_a_tool_reads_back(request.tools[i]);
    }
    assert(held_messages(value)->0 =~= request.messages);
    assert(held_tools(value)->0 =~= request.tools);
    lemma_choice_reads_back(value, request.tool_choice);
    lemma_params_read_back(request.params);
    lemma_format_reads_back(value, request.response_format);
    lemma_reasoning_reads_back(value, request.reasoning);
    lemma_cache_reads_back(value, request.cache);
    assert(held_ext(value)->0 =~= request.ext);
}

} // verus!
