//! Requests, between chat completions and the common form.
use vstd::prelude::*;

use crate::error::{outcome, Error, ErrorView};
use crate::gateway::ext::{kept_under, merged, merged_ext, namespaced};
use crate::gateway::types::canonical_request::{source_form, write_source};
use crate::gateway::types::message::{
    block_models, ContentBlock, ContentBlockView, MediaSource, MediaSourceView, Message,
    MessageView, Role,
};
use crate::gateway::types::request::{
    ChatRequest, ChatRequestView, GenerationParams, GenerationParamsView, ReasoningConfig,
    ReasoningConfigView, ResponseFormat, ResponseFormatView, ToolChoice, ToolChoiceView, ToolDef,
    ToolDefView,
};
use crate::gateway::types::{IngestSource, IngestSourceView, RawJson};
use crate::json::{
    assigned, fields1, fields2, fields3, find, json_bool, json_number, json_string, json_strings,
    json_u32, models, no_fields, object1, object2, object3, opt_bool, opt_number, opt_string,
    opt_u32, put, sans_null, settled, string, strings, without, Fields, FieldsView, Json, JsonView,
};
use crate::text::{halves, join2, join3, same_text, split_once, strip_prefix, stripped};
use crate::types::Protocol;

use super::wire::{
    all_strings, are_calls, are_strings, call_shape, calls_shape, content_shape,
    function_call_shape, is_call, is_content, is_function_call, is_nullable_number,
    is_nullable_string, is_nullable_u32, is_response_format, is_stop, is_stream_options, is_tools,
    nullable_number, nullable_string, nullable_u32, present, response_format_shape, stop_shape,
    stream_options_shape, tools_shape,
};
use super::{known_role, role_from_wire, role_to_wire, role_word};

verus! {

// ---------------------------------------------------------------------------
// Reading
// ---------------------------------------------------------------------------

/// The place of some bytes, from the URL of a part: a data URL holds them.
pub open spec fn media_source_of(url: Seq<char>) -> MediaSourceView {
    match stripped(url, "data:"@) {
        Some(rest) => match halves(rest, ";base64,"@) {
            Some((media_type, data)) => MediaSourceView::Base64 { media_type, data },
            None => MediaSourceView::Url { url },
        },
        None => MediaSourceView::Url { url },
    }
}

/// Reads the URL of a part.
pub fn media_source(url: &str) -> (r: MediaSource)
    ensures
        r@ == media_source_of(url@),
{
    if let Some(rest) = strip_prefix(url, "data:") {
        if let Some((media_type, data)) = split_once(rest.as_str(), ";base64,") {
            return MediaSource::Base64 { media_type, data };
        }
    }
    MediaSource::Url { url: url.to_owned() }
}

/// The block a part of a message's content stands for.
pub open spec fn ingested_part(part: JsonView) -> ContentBlockView {
    let tag = part.str_at("type"@);
    let text = part.str_at("text"@);
    let url = part.str_in("image_url"@, "url"@);
    let data = part.str_in("input_audio"@, "data"@);
    let format = part.str_in("input_audio"@, "format"@);
    let file_id = part.str_in("file"@, "file_id"@);
    let file_data = part.str_in("file"@, "file_data"@);
    if tag == Some("text"@) && text is Some {
        ContentBlockView::Text { text: text->0, cache: None }
    } else if tag == Some("image_url"@) && url is Some {
        ContentBlockView::Image {
            source: media_source_of(url->0),
            detail: part.str_in("image_url"@, "detail"@),
            cache: None,
        }
    } else if tag == Some("input_audio"@) && data is Some && format is Some {
        ContentBlockView::Audio {
            source: MediaSourceView::Base64 {
                media_type: "audio/"@ + format->0,
                data: data->0,
            },
            format,
        }
    } else if tag == Some("file"@) && file_id is Some {
        ContentBlockView::Document {
            source: MediaSourceView::ProviderFile { id: file_id->0 },
            title: part.str_in("file"@, "filename"@),
            cache: None,
        }
    } else if tag == Some("file"@) && file_data is Some {
        ContentBlockView::Document {
            source: MediaSourceView::Base64 { media_type: Seq::empty(), data: file_data->0 },
            title: part.str_in("file"@, "filename"@),
            cache: None,
        }
    } else {
        ContentBlockView::Unknown(part)
    }
}

/// Reads one part of the content. One that the protocol has no block for is kept
/// whole.
pub fn ingest_part(part: &Json) -> (r: ContentBlock)
    ensures
        r@ == ingested_part(part@),
{
    if let Some(tag) = part.str_at("type") {
        if same_text(tag.as_str(), "text") {
            if let Some(text) = part.str_at("text") {
                return ContentBlock::Text { text, cache: None };
            }
        }
        if same_text(tag.as_str(), "image_url") {
            if let Some(url) = part.str_in("image_url", "url") {
                return ContentBlock::Image {
                    source: media_source(url.as_str()),
                    detail: part.str_in("image_url", "detail"),
                    cache: None,
                };
            }
        }
        if same_text(tag.as_str(), "input_audio") {
            if let (Some(data), Some(format)) = (
                part.str_in("input_audio", "data"),
                part.str_in("input_audio", "format"),
            ) {
                return ContentBlock::Audio {
                    source: MediaSource::Base64 {
                        media_type: join2("audio/", format.as_str()),
                        data,
                    },
                    format: Some(format),
                };
            }
        }
        if same_text(tag.as_str(), "file") {
            if let Some(id) = part.str_in("file", "file_id") {
                return ContentBlock::Document {
                    source: MediaSource::ProviderFile { id },
                    title: part.str_in("file", "filename"),
                    cache: None,
                };
            }
            if let Some(data) = part.str_in("file", "file_data") {
                return ContentBlock::Document {
                    source: MediaSource::Base64 { media_type: String::new(), data },
                    title: part.str_in("file", "filename"),
                    cache: None,
                };
            }
        }
    }
    ContentBlock::Unknown(part.clone())
}

/// The block a tool call of a request's message stands for.
pub open spec fn ingested_call(call: JsonView) -> ContentBlockView {
    if function_call_shape(call) {
        ContentBlockView::ToolCall {
            id: call.str_at("id"@)->0,
            name: call.str_in("function"@, "name"@)->0,
            arguments: call.str_in("function"@, "arguments"@)->0,
        }
    } else {
        ContentBlockView::Unknown(call)
    }
}

fn ingest_tool_call(call: &Json) -> (r: ContentBlock)
    ensures
        r@ == ingested_call(call@),
{
    if is_function_call(call) {
        if let (Some(id), Some(name), Some(arguments)) = (
            call.str_at("id"),
            call.str_in("function", "name"),
            call.str_in("function", "arguments"),
        ) {
            return ContentBlock::ToolCall { id, name, arguments: RawJson { text: arguments } };
        }
    }
    ContentBlock::Unknown(call.clone())
}

/// The blocks a message's content stands for.
pub open spec fn content_blocks(message: JsonView) -> Seq<ContentBlockView> {
    match message.get("content"@) {
        Some(JsonView::String(text)) => seq![ContentBlockView::Text { text, cache: None }],
        Some(JsonView::Array(parts)) => parts.map_values(|part: JsonView| ingested_part(part)),
        _ => Seq::empty(),
    }
}

fn ingest_content(message: &Json) -> (r: Vec<ContentBlock>)
    ensures
        block_models(r@) == content_blocks(message@),
{
    let mut blocks: Vec<ContentBlock> = Vec::new();
    match message.get("content") {
        Some(Json::String(text)) => {
            blocks.push(ContentBlock::Text { text: text.clone(), cache: None });
        },
        Some(Json::Array(parts)) => {
            for i in 0..parts.len()
                invariant
                    blocks.len() == i,
                    forall|k: int| 0 <= k < i ==> blocks@[k]@ == ingested_part(parts@[k]@),
            {
                blocks.push(ingest_part(&parts[i]));
            }
        },
        _ => {},
    }
    assert(block_models(blocks@) =~= content_blocks(message@));
    blocks
}

/// The blocks a message stands for: its content, as a tool's result where it
/// answers a call, and the calls it makes.
pub open spec fn message_blocks(message: JsonView) -> Seq<ContentBlockView> {
    let content = content_blocks(message);
    let said = match message.str_at("tool_call_id"@) {
        Some(call_id) => seq![
            ContentBlockView::ToolResult { call_id, content, is_error: false },
        ],
        None => content,
    };
    said + message.items_at("tool_calls"@).map_values(|call: JsonView| ingested_call(call))
}

/// The role of a message; one that the protocol does not know is the user's.
pub open spec fn wire_role(value: JsonView) -> Role {
    match value.str_at("role"@) {
        Some(word) => match known_role(word) {
            Some(role) => role,
            None => Role::User,
        },
        None => Role::User,
    }
}

/// The fields without a role that the protocol knows.
pub open spec fn role_residue(fields: FieldsView) -> FieldsView {
    match find(fields, "role"@) {
        Some(JsonView::String(word)) => if known_role(word) is Some {
            without(fields, "role"@)
        } else {
            fields
        },
        _ => fields,
    }
}

/// What a message keeps: everything but a role that the protocol knows, since
/// the content it was made of is what it is rendered from again.
pub open spec fn message_residue(fields: FieldsView) -> FieldsView {
    sans_null(sans_null(role_residue(fields), "tool_calls"@), "tool_call_id"@)
}

/// The message a wire message stands for.
pub open spec fn ingested_message(message: JsonView) -> MessageView {
    MessageView {
        role: wire_role(message),
        content: message_blocks(message),
        ext: kept_under(Protocol::OpenAiCompat, message_residue(message.fields())),
    }
}

/// Reads a role and takes it out of the fields where the protocol knows it.
pub fn take_role(message: &Json, fields: &mut Fields) -> (r: Role)
    requires
        old(fields)@ == message@.fields(),
    ensures
        r == wire_role(message@),
        final(fields)@ == role_residue(old(fields)@),
{
    match message.str_at("role") {
        Some(word) => {
            let (role, raw) = role_from_wire(word);
            if raw.is_none() {
                fields.remove("role");
            }
            role
        },
        None => Role::User,
    }
}

fn ingest_message(message: &Json) -> (r: Message)
    ensures
        r@ == ingested_message(message@),
{
    let mut fields = message.fields();
    let role = take_role(message, &mut fields);
    fields.drop_null("tool_calls");
    fields.drop_null("tool_call_id");
    let mut blocks = ingest_content(message);
    let ghost content = block_models(blocks@);
    if let Some(call_id) = message.str_at("tool_call_id") {
        blocks = vec![ContentBlock::ToolResult { call_id, content: blocks, is_error: false }];
    }
    let ghost said = block_models(blocks@);
    assert(said =~= match message@.str_at("tool_call_id"@) {
        Some(call_id) => seq![ContentBlockView::ToolResult { call_id, content, is_error: false }],
        None => content,
    });
    if let Some(calls) = message.items_at("tool_calls") {
        let ghost start = blocks@;
        for i in 0..calls.len()
            invariant
                blocks.len() == start.len() + i,
                forall|k: int| 0 <= k < start.len() ==> blocks@[k] == start[k],
                forall|k: int|
                    0 <= k < i ==> blocks@[start.len() + k]@ == ingested_call(calls@[k]@),
        {
            blocks.push(ingest_tool_call(&calls[i]));
        }
        assert(block_models(blocks@) =~= said + models(calls@).map_values(
            |call: JsonView| ingested_call(call),
        ));
    }
    assert(block_models(blocks@) =~= message_blocks(message@));
    Message { role, content: blocks, ext: namespaced(Protocol::OpenAiCompat, fields) }
}

/// The tool a wire tool stands for. One that is no function is known by its type
/// alone and keeps its whole description.
pub open spec fn ingested_tool(tool: JsonView) -> ToolDefView {
    let kind = match tool.str_at("type"@) {
        Some(kind) => kind,
        None => Seq::empty(),
    };
    match tool.get("function"@) {
        Some(JsonView::Object(function)) => {
            let function = JsonView::Object(function);
            ToolDefView {
                name: match function.str_at("name"@) {
                    Some(name) => name,
                    None => Seq::empty(),
                },
                description: function.str_at("description"@),
                input_schema: match function.get("parameters"@) {
                    Some(schema) => schema,
                    None => JsonView::Null,
                },
                strict: function.bool_at("strict"@),
                cache: None,
                ext: kept_under(Protocol::OpenAiCompat, fields1("type"@, string(kind))),
            }
        },
        _ => ToolDefView {
            name: kind,
            description: None,
            input_schema: JsonView::Null,
            strict: None,
            cache: None,
            ext: kept_under(Protocol::OpenAiCompat, tool.fields()),
        },
    }
}

/// The text, or an empty one.
fn or_empty(text: Option<String>) -> (r: String)
    ensures
        r@ == (match text.deep_view() {
            Some(text) => text,
            None => Seq::empty(),
        }),
{
    match text {
        Some(text) => text,
        None => String::new(),
    }
}

fn ingest_tool(tool: &Json) -> (r: ToolDef)
    ensures
        r@ == ingested_tool(tool@),
{
    let kind = or_empty(tool.str_at("type"));
    match tool.get("function") {
        Some(function @ Json::Object(_)) => {
            let ext = object1("type", Json::String(kind)).fields();
            ToolDef {
                name: or_empty(function.str_at("name")),
                description: function.str_at("description"),
                input_schema: match function.get("parameters") {
                    Some(schema) => schema.clone(),
                    None => Json::Null,
                },
                strict: function.bool_at("strict"),
                cache: None,
                ext: namespaced(Protocol::OpenAiCompat, ext),
            }
        },
        _ => ToolDef {
            name: kind,
            description: None,
            input_schema: Json::Null,
            strict: None,
            cache: None,
            ext: namespaced(Protocol::OpenAiCompat, tool.fields()),
        },
    }
}

/// The choice of tools a wire choice stands for, if any.
pub open spec fn ingested_tool_choice(choice: JsonView) -> Option<ToolChoiceView> {
    match choice {
        JsonView::String(mode) => if mode == "auto"@ {
            Some(ToolChoiceView::Auto)
        } else if mode == "none"@ {
            Some(ToolChoiceView::Never)
        } else if mode == "required"@ {
            Some(ToolChoiceView::Required)
        } else {
            None
        },
        _ => match choice.str_in("function"@, "name"@) {
            Some(name) => if choice.str_at("type"@) is Some {
                Some(ToolChoiceView::Tool { name })
            } else {
                None
            },
            None => None,
        },
    }
}

fn ingest_tool_choice(choice: &Json) -> (r: Option<ToolChoice>)
    ensures
        r.deep_view() == ingested_tool_choice(choice@),
{
    match choice {
        Json::String(mode) => if same_text(mode.as_str(), "auto") {
            Some(ToolChoice::Auto)
        } else if same_text(mode.as_str(), "none") {
            Some(ToolChoice::Never)
        } else if same_text(mode.as_str(), "required") {
            Some(ToolChoice::Required)
        } else {
            None
        },
        _ => match choice.str_in("function", "name") {
            Some(name) => if choice.str_at("type").is_some() {
                Some(ToolChoice::Tool { name })
            } else {
                None
            },
            None => None,
        },
    }
}

/// The form of reply a wire format stands for, if any.
pub open spec fn ingested_response_format(format: JsonView) -> Option<ResponseFormatView> {
    match format.str_in("json_schema"@, "name"@) {
        Some(name) => Some(
            ResponseFormatView::JsonSchema {
                name,
                schema: match format.get("json_schema"@)->0.get("schema"@) {
                    Some(schema) => schema,
                    None => JsonView::Null,
                },
                strict: format.get("json_schema"@)->0.bool_at("strict"@),
            },
        ),
        None => if format.str_at("type"@) == Some("text"@) {
            Some(ResponseFormatView::Text)
        } else if format.str_at("type"@) == Some("json_object"@) {
            Some(ResponseFormatView::JsonObject)
        } else {
            None
        },
    }
}

fn ingest_response_format(format: &Json) -> (r: Option<ResponseFormat>)
    ensures
        r.deep_view() == ingested_response_format(format@),
{
    if let Some(definition) = format.get("json_schema") {
        if let Some(name) = definition.str_at("name") {
            return Some(
                ResponseFormat::JsonSchema {
                    name,
                    schema: match definition.get("schema") {
                        Some(schema) => schema.clone(),
                        None => Json::Null,
                    },
                    strict: definition.bool_at("strict"),
                },
            );
        }
    }
    if let Some(kind) = format.str_at("type") {
        if same_text(kind.as_str(), "text") {
            return Some(ResponseFormat::Text);
        }
        if same_text(kind.as_str(), "json_object") {
            return Some(ResponseFormat::JsonObject);
        }
    }
    None
}

/// The text an item holds.
pub open spec fn text_in(item: JsonView) -> Seq<char> {
    match item.as_str() {
        Some(text) => text,
        None => Seq::empty(),
    }
}

/// The sequences to stop at.
pub open spec fn stop_sequences(stop: Option<JsonView>) -> Seq<Seq<char>> {
    match stop {
        Some(JsonView::String(text)) => seq![text],
        Some(JsonView::Array(items)) => if all_strings(items) {
            items.map_values(|item: JsonView| text_in(item))
        } else {
            Seq::empty()
        },
        _ => Seq::empty(),
    }
}

/// Reads the sequences to stop at.
pub fn read_stop(stop: Option<&Json>) -> (r: Vec<String>)
    ensures
        r.deep_view() == stop_sequences(stop.deep_view()),
{
    let mut out: Vec<String> = Vec::new();
    match stop {
        Some(Json::String(text)) => {
            out.push(text.clone());
        },
        Some(Json::Array(items)) => if are_strings(items) {
            for i in 0..items.len()
                invariant
                    out.len() == i,
                    forall|k: int| 0 <= k < i ==> out@[k]@ == text_in(items@[k]@),
            {
                out.push(
                    match items[i].as_str() {
                        Some(text) => text.to_owned(),
                        None => String::new(),
                    },
                );
            }
        },
        _ => {},
    }
    assert(out.deep_view() =~= stop_sequences(stop.deep_view()));
    out
}

/// How to sample, as a request says it. A limit given by its newer name counts
/// where the older one gives none.
pub open spec fn ingested_params(request: JsonView) -> GenerationParamsView {
    GenerationParamsView {
        max_tokens: match request.u32_at("max_tokens"@) {
            Some(n) => Some(n),
            None => request.u32_at("max_completion_tokens"@),
        },
        temperature: request.number_at("temperature"@),
        top_p: request.number_at("top_p"@),
        top_k: request.u32_at("top_k"@),
        stop: stop_sequences(request.get("stop"@)),
    }
}

/// What a request keeps: everything but the model, the messages and whether to
/// stream.
pub open spec fn request_residue(fields: FieldsView) -> FieldsView {
    let rest = without(without(without(fields, "model"@), "messages"@), "stream"@);
    sans_null(sans_null(sans_null(rest, "tools"@), "tool_choice"@), "response_format"@)
}

/// The request a wire request stands for, with the model it was routed to.
pub open spec fn ingested_request(request: JsonView, model: Seq<char>) -> ChatRequestView {
    ChatRequestView {
        model,
        messages: request.items_at("messages"@).map_values(
            |message: JsonView| ingested_message(message),
        ),
        tools: request.items_at("tools"@).map_values(|tool: JsonView| ingested_tool(tool)),
        tool_choice: match request.get("tool_choice"@) {
            Some(choice) => ingested_tool_choice(choice),
            None => None,
        },
        parallel_tool_calls: request.bool_at("parallel_tool_calls"@),
        params: ingested_params(request),
        response_format: match request.get("response_format"@) {
            Some(format) => ingested_response_format(format),
            None => None,
        },
        reasoning: match request.str_at("reasoning_effort"@) {
            Some(effort) => Some(
                ReasoningConfigView {
                    enabled: None,
                    effort: Some(effort),
                    budget_tokens: None,
                    exclude: None,
                },
            ),
            None => None,
        },
        cache: None,
        stream: request.bool_at("stream"@) == Some(true),
        stream_include_usage: match request.get("stream_options"@) {
            Some(options) => options.bool_at("include_usage"@),
            None => None,
        },
        ext: kept_under(Protocol::OpenAiCompat, request_residue(request.fields())),
        source: Some(IngestSourceView { protocol: Protocol::OpenAiCompat, body: request }),
    }
}

fn ingest_messages(request: &Json) -> (r: Vec<Message>)
    ensures
        r.deep_view() == request@.items_at("messages"@).map_values(
            |message: JsonView| ingested_message(message),
        ),
{
    let mut out: Vec<Message> = Vec::new();
    if let Some(messages) = request.items_at("messages") {
        for i in 0..messages.len()
            invariant
                out.len() == i,
                forall|k: int| 0 <= k < i ==> out@[k]@ == ingested_message(messages@[k]@),
        {
            out.push(ingest_message(&messages[i]));
        }
    }
    assert(out.deep_view() =~= request@.items_at("messages"@).map_values(
        |message: JsonView| ingested_message(message),
    ));
    out
}

fn ingest_tools(request: &Json) -> (r: Vec<ToolDef>)
    ensures
        r.deep_view() == request@.items_at("tools"@).map_values(
            |tool: JsonView| ingested_tool(tool),
        ),
{
    let mut out: Vec<ToolDef> = Vec::new();
    if let Some(tools) = request.items_at("tools") {
        for i in 0..tools.len()
            invariant
                out.len() == i,
                forall|k: int| 0 <= k < i ==> out@[k]@ == ingested_tool(tools@[k]@),
        {
            out.push(ingest_tool(&tools[i]));
        }
    }
    assert(out.deep_view() =~= request@.items_at("tools"@).map_values(
        |tool: JsonView| ingested_tool(tool),
    ));
    out
}

/// Reads a request. Nothing is refused and nothing is lost: what has a place in
/// the common form is put there, and all of it is kept.
pub fn ingest_request(request: &Json, model: &str) -> (r: ChatRequest)
    ensures
        r@ == ingested_request(request@, model@),
{
    let mut residue = request.fields();
    residue.remove("model");
    residue.remove("messages");
    residue.remove("stream");
    residue.drop_null("tools");
    residue.drop_null("tool_choice");
    residue.drop_null("response_format");
    ChatRequest {
        model: model.to_owned(),
        messages: ingest_messages(request),
        tools: ingest_tools(request),
        tool_choice: match request.get("tool_choice") {
            Some(choice) => ingest_tool_choice(choice),
            None => None,
        },
        parallel_tool_calls: request.bool_at("parallel_tool_calls"),
        params: GenerationParams {
            max_tokens: match request.u32_at("max_tokens") {
                Some(n) => Some(n),
                None => request.u32_at("max_completion_tokens"),
            },
            temperature: request.number_at("temperature"),
            top_p: request.number_at("top_p"),
            top_k: request.u32_at("top_k"),
            stop: read_stop(request.get("stop")),
        },
        response_format: match request.get("response_format") {
            Some(format) => ingest_response_format(format),
            None => None,
        },
        reasoning: match request.str_at("reasoning_effort") {
            Some(effort) => Some(
                ReasoningConfig {
                    enabled: None,
                    effort: Some(effort),
                    budget_tokens: None,
                    exclude: None,
                },
            ),
            None => None,
        },
        cache: None,
        stream: match request.bool_at("stream") {
            Some(stream) => stream,
            None => false,
        },
        stream_include_usage: match request.get("stream_options") {
            Some(options) => options.bool_at("include_usage"),
            None => None,
        },
        ext: namespaced(Protocol::OpenAiCompat, residue),
        source: Some(
            IngestSource { protocol: Protocol::OpenAiCompat, body: request.clone() },
        ),
    }
}

// ---------------------------------------------------------------------------
// Rendering
// ---------------------------------------------------------------------------

/// A block asks for caching, itself or within.
pub open spec fn cache_hinted(block: ContentBlockView) -> bool
    decreases block,
{
    match block {
        ContentBlockView::Text { cache, .. } => cache is Some,
        ContentBlockView::Image { cache, .. } => cache is Some,
        ContentBlockView::Document { cache, .. } => cache is Some,
        ContentBlockView::ToolResult { content, .. } => any_cache_hinted(content),
        _ => false,
    }
}

/// One of the blocks asks for caching.
pub open spec fn any_cache_hinted(blocks: Seq<ContentBlockView>) -> bool
    decreases blocks,
{
    exists|i: int| 0 <= i < blocks.len() && cache_hinted(#[trigger] blocks[i])
}

/// A block is the result of a call that failed, or holds one.
pub open spec fn failed_result(block: ContentBlockView) -> bool
    decreases block,
{
    match block {
        ContentBlockView::ToolResult { is_error, content, .. } => is_error || any_failed_result(
            content,
        ),
        _ => false,
    }
}

/// One of the blocks is the result of a call that failed.
pub open spec fn any_failed_result(blocks: Seq<ContentBlockView>) -> bool
    decreases blocks,
{
    exists|i: int| 0 <= i < blocks.len() && failed_result(#[trigger] blocks[i])
}

fn has_cache_hint(block: &ContentBlock) -> (r: bool)
    ensures
        r == cache_hinted(block@),
    decreases block,
{
    match block {
        ContentBlock::Text { cache, .. } => cache.is_some(),
        ContentBlock::Image { cache, .. } => cache.is_some(),
        ContentBlock::Document { cache, .. } => cache.is_some(),
        ContentBlock::ToolResult { content, .. } => any_cache_hint(content),
        _ => false,
    }
}

fn any_cache_hint(blocks: &Vec<ContentBlock>) -> (r: bool)
    ensures
        r == any_cache_hinted(block_models(blocks@)),
    decreases blocks,
{
    let ghost all = block_models(blocks@);
    for i in 0..blocks.len()
        invariant
            all == block_models(blocks@),
            forall|k: int| 0 <= k < i ==> !cache_hinted(#[trigger] all[k]),
    {
        if has_cache_hint(&blocks[i]) {
            assert(cache_hinted(all[i as int]));
            return true;
        }
    }
    false
}

fn has_failed_result(block: &ContentBlock) -> (r: bool)
    ensures
        r == failed_result(block@),
    decreases block,
{
    match block {
        ContentBlock::ToolResult { is_error, content, .. } => *is_error || any_failed(content),
        _ => false,
    }
}

fn any_failed(blocks: &Vec<ContentBlock>) -> (r: bool)
    ensures
        r == any_failed_result(block_models(blocks@)),
    decreases blocks,
{
    let ghost all = block_models(blocks@);
    for i in 0..blocks.len()
        invariant
            all == block_models(blocks@),
            forall|k: int| 0 <= k < i ==> !failed_result(#[trigger] all[k]),
    {
        if has_failed_result(&blocks[i]) {
            assert(failed_result(all[i as int]));
            return true;
        }
    }
    false
}

/// Something in the request asks for caching.
pub open spec fn asks_for_caching(request: ChatRequestView) -> bool {
    ||| request.cache is Some
    ||| exists|i: int|
        0 <= i < request.tools.len() && (#[trigger] request.tools[i]).cache is Some
    ||| exists|i: int|
        0 <= i < request.messages.len() && any_cache_hinted(
            (#[trigger] request.messages[i]).content,
        )
}

/// The request carries the result of a call that failed.
pub open spec fn carries_a_failure(request: ChatRequestView) -> bool {
    exists|i: int|
        0 <= i < request.messages.len() && any_failed_result(
            (#[trigger] request.messages[i]).content,
        )
}

/// What the protocol has no form for, if the request holds any of it.
pub open spec fn refusal(request: ChatRequestView) -> Option<ErrorView> {
    if asks_for_caching(request) {
        Some(ErrorView::NotImplemented("cache hints on the openai_compat renderer"@))
    } else if carries_a_failure(request) {
        Some(ErrorView::NotImplemented("a failed tool result on the openai_compat renderer"@))
    } else {
        match request.reasoning {
            Some(reasoning) => if reasoning.budget_tokens is Some || reasoning.exclude is Some {
                Some(
                    ErrorView::NotImplemented(
                        "a reasoning budget or exclusion on the openai_compat renderer"@,
                    ),
                )
            } else if reasoning.enabled is Some && reasoning.effort is None {
                Some(
                    ErrorView::NotImplemented(
                        "reasoning without an effort on the openai_compat renderer"@,
                    ),
                )
            } else {
                None
            },
            None => None,
        }
    }
}

fn wants_caching(request: &ChatRequest) -> (r: bool)
    ensures
        r == asks_for_caching(request@),
{
    if request.cache.is_some() {
        return true;
    }
    for i in 0..request.tools.len()
        invariant
            forall|k: int| 0 <= k < i ==> (#[trigger] request@.tools[k]).cache is None,
    {
        if request.tools[i].cache.is_some() {
            assert(request@.tools[i as int].cache is Some);
            return true;
        }
    }
    for i in 0..request.messages.len()
        invariant
            forall|k: int|
                0 <= k < i ==> !any_cache_hinted((#[trigger] request@.messages[k]).content),
    {
        if any_cache_hint(&request.messages[i].content) {
            assert(any_cache_hinted(request@.messages[i as int].content));
            return true;
        }
    }
    false
}

fn has_failure(request: &ChatRequest) -> (r: bool)
    ensures
        r == carries_a_failure(request@),
{
    for i in 0..request.messages.len()
        invariant
            forall|k: int|
                0 <= k < i ==> !any_failed_result((#[trigger] request@.messages[k]).content),
    {
        if any_failed(&request.messages[i].content) {
            assert(any_failed_result(request@.messages[i as int].content));
            return true;
        }
    }
    false
}

/// Refuses what the protocol has no form for, rather than dropping it.
fn ensure_renderable(request: &ChatRequest) -> (r: Result<(), Error>)
    ensures
        match refusal(request@) {
            Some(error) => r matches Err(e) && e@ == error,
            None => r is Ok,
        },
{
    if wants_caching(request) {
        return Err(Error::NotImplemented("cache hints on the openai_compat renderer".to_owned()));
    }
    if has_failure(request) {
        return Err(
            Error::NotImplemented("a failed tool result on the openai_compat renderer".to_owned()),
        );
    }
    if let Some(reasoning) = &request.reasoning {
        if reasoning.budget_tokens.is_some() || reasoning.exclude.is_some() {
            return Err(
                Error::NotImplemented(
                    "a reasoning budget or exclusion on the openai_compat renderer".to_owned(),
                ),
            );
        }
        if reasoning.enabled.is_some() && reasoning.effort.is_none() {
            return Err(
                Error::NotImplemented(
                    "reasoning without an effort on the openai_compat renderer".to_owned(),
                ),
            );
        }
    }
    Ok(())
}

/// The URL of some bytes: a data URL where they are at hand.
pub open spec fn url_of(source: MediaSourceView) -> Seq<char> {
    match source {
        MediaSourceView::Url { url } => url,
        MediaSourceView::Base64 { media_type, data } => "data:"@ + media_type + ";base64,"@ + data,
        MediaSourceView::ProviderFile { id } => id,
    }
}

/// Writes the URL of some bytes.
pub fn media_url(source: &MediaSource) -> (r: String)
    ensures
        r@ == url_of(source@),
{
    match source {
        MediaSource::Url { url } => url.clone(),
        MediaSource::Base64 { media_type, data } => {
            let head = join3("data:", media_type.as_str(), ";base64,");
            join2(head.as_str(), data.as_str())
        },
        MediaSource::ProviderFile { id } => id.clone(),
    }
}

/// What follows the slash of a media type; all of it where there is none.
pub open spec fn subtype_of(media_type: Seq<char>) -> Seq<char> {
    match halves(media_type, "/"@) {
        Some((_, sub)) => sub,
        None => media_type,
    }
}

fn subtype(media_type: &str) -> (r: String)
    ensures
        r@ == subtype_of(media_type@),
{
    match split_once(media_type, "/") {
        Some((_, sub)) => sub,
        None => media_type.to_owned(),
    }
}

/// Media that the protocol has no part for, in plain JSON.
pub open spec fn plain_media(
    tag: Seq<char>,
    source: MediaSourceView,
    key: Seq<char>,
    value: Option<Seq<char>>,
) -> JsonView {
    JsonView::Object(
        assigned(
            fields2("type"@, string(tag), "source"@, source_form(source)),
            key,
            opt_string(value),
        ),
    )
}

fn unknown_part(tag: &str, source: &MediaSource, key: &str, value: &Option<String>) -> (r: Json)
    ensures
        r@ == plain_media(tag@, source@, key@, value.deep_view()),
{
    let mut fields = object2("type", Json::text(tag), "source", write_source(source)).fields();
    fields.set(key, json_string(value));
    Json::Object(fields)
}

/// The file of a part.
pub open spec fn file_fields(
    key: Seq<char>,
    value: Seq<char>,
    title: Option<Seq<char>>,
) -> FieldsView {
    assigned(fields1(key, string(value)), "filename"@, opt_string(title))
}

fn file_part(key: &str, value: &String, title: &Option<String>) -> (r: Json)
    ensures
        r@ == JsonView::Object(
            fields2(
                "type"@,
                string("file"@),
                "file"@,
                JsonView::Object(file_fields(key@, value@, title.deep_view())),
            ),
        ),
{
    let mut file = object1(key, Json::String(value.clone())).fields();
    file.set("filename", json_string(title));
    object2("type", Json::text("file"), "file", Json::Object(file))
}

/// The part a block is rendered as; none for what is no part of the content.
pub open spec fn rendered_part(block: ContentBlockView) -> Option<JsonView> {
    match block {
        ContentBlockView::Text { text, .. } => Some(
            JsonView::Object(fields2("type"@, string("text"@), "text"@, string(text))),
        ),
        ContentBlockView::Image { source, detail, .. } => Some(
            JsonView::Object(
                fields2(
                    "type"@,
                    string("image_url"@),
                    "image_url"@,
                    JsonView::Object(
                        assigned(
                            fields1("url"@, string(url_of(source))),
                            "detail"@,
                            opt_string(detail),
                        ),
                    ),
                ),
            ),
        ),
        ContentBlockView::Audio { source, format } => match source {
            MediaSourceView::Base64 { media_type, data } => Some(
                JsonView::Object(
                    fields2(
                        "type"@,
                        string("input_audio"@),
                        "input_audio"@,
                        JsonView::Object(
                            fields2(
                                "data"@,
                                string(data),
                                "format"@,
                                string(
                                    match format {
                                        Some(format) => format,
                                        None => subtype_of(media_type),
                                    },
                                ),
                            ),
                        ),
                    ),
                ),
            ),
            _ => Some(plain_media("audio"@, source, "format"@, format)),
        },
        ContentBlockView::Document { source, title, .. } => match source {
            MediaSourceView::ProviderFile { id } => Some(
                JsonView::Object(
                    fields2(
                        "type"@,
                        string("file"@),
                        "file"@,
                        JsonView::Object(file_fields("file_id"@, id, title)),
                    ),
                ),
            ),
            MediaSourceView::Base64 { data, .. } => Some(
                JsonView::Object(
                    fields2(
                        "type"@,
                        string("file"@),
                        "file"@,
                        JsonView::Object(file_fields("file_data"@, data, title)),
                    ),
                ),
            ),
            MediaSourceView::Url { .. } => Some(
                plain_media("document"@, source, "title"@, title),
            ),
        },
        ContentBlockView::Unknown(value) => Some(value),
        ContentBlockView::ToolCall { .. } => None,
        ContentBlockView::ToolResult { .. } => None,
        ContentBlockView::Reasoning { .. } => None,
    }
}

/// Renders one block as a part of the content, if it is one.
pub fn render_part(block: &ContentBlock) -> (r: Option<Json>)
    ensures
        r.deep_view() == rendered_part(block@),
{
    match block {
        ContentBlock::Text { text, .. } => Some(
            object2("type", Json::text("text"), "text", Json::String(text.clone())),
        ),
        ContentBlock::Image { source, detail, .. } => {
            let mut image = object1("url", Json::String(media_url(source))).fields();
            image.set("detail", json_string(detail));
            Some(object2("type", Json::text("image_url"), "image_url", Json::Object(image)))
        },
        ContentBlock::Audio { source, format } => match source {
            MediaSource::Base64 { media_type, data } => {
                let format = match format {
                    Some(format) => format.clone(),
                    None => subtype(media_type.as_str()),
                };
                let audio = object2(
                    "data",
                    Json::String(data.clone()),
                    "format",
                    Json::String(format),
                );
                Some(object2("type", Json::text("input_audio"), "input_audio", audio))
            },
            _ => Some(unknown_part("audio", source, "format", format)),
        },
        ContentBlock::Document { source, title, .. } => match source {
            MediaSource::ProviderFile { id } => Some(file_part("file_id", id, title)),
            MediaSource::Base64 { data, .. } => Some(file_part("file_data", data, title)),
            MediaSource::Url { .. } => Some(unknown_part("document", source, "title", title)),
        },
        ContentBlock::Unknown(value) => Some(value.clone()),
        ContentBlock::ToolCall { .. } => None,
        ContentBlock::ToolResult { .. } => None,
        ContentBlock::Reasoning { .. } => None,
    }
}

/// A call that is kept whole, since the common form has no word for it.
pub open spec fn whole_call(block: ContentBlockView) -> bool {
    block matches ContentBlockView::Unknown(value) && call_shape(value)
}

fn is_whole_call(block: &ContentBlock) -> (r: bool)
    ensures
        r == whole_call(block@),
{
    match block {
        ContentBlock::Unknown(value) => is_call(value),
        _ => false,
    }
}

/// The blocks that are part of the content. Where the message's calls are
/// rendered as they came, a call that is kept whole is one of them and no content.
pub open spec fn content_of(blocks: Seq<ContentBlockView>, called: bool) -> Seq<ContentBlockView>
    decreases blocks.len(),
{
    if blocks.len() == 0 {
        blocks
    } else {
        let rest = content_of(blocks.drop_last(), called);
        if rendered_part(blocks.last()) is Some && !(called && whole_call(blocks.last())) {
            rest.push(blocks.last())
        } else {
            rest
        }
    }
}

/// Where the first tool result stands, or the number of blocks where there is
/// none.
pub open spec fn result_at(blocks: Seq<ContentBlockView>) -> nat
    decreases blocks.len(),
{
    if blocks.len() == 0 {
        0
    } else if blocks[0] is ToolResult {
        0
    } else {
        1 + result_at(blocks.drop_first())
    }
}

proof fn lemma_result_at(blocks: Seq<ContentBlockView>, i: nat)
    requires
        i <= blocks.len(),
        i < blocks.len() ==> blocks[i as int] is ToolResult,
        forall|j: int| 0 <= j < i ==> !(blocks[j] is ToolResult),
    ensures
        result_at(blocks) == i,
    decreases blocks.len(),
{
    if i > 0 {
        let rest = blocks.drop_first();
        assert forall|j: int| 0 <= j < i - 1 implies !(rest[j] is ToolResult) by {
            assert(rest[j] == blocks[j + 1]);
        }
        assert(i < blocks.len() ==> rest[i - 1] == blocks[i as int]);
        lemma_result_at(rest, (i - 1) as nat);
    }
}

/// The content of a message: the first tool's result where there is one, else a
/// bare text where that is all, else parts; none where there is nothing.
pub open spec fn rendered_content(blocks: Seq<ContentBlockView>, called: bool) -> Option<JsonView>
    decreases blocks,
{
    let i = result_at(blocks) as int;
    if 0 <= i < blocks.len() {
        match blocks[i] {
            ContentBlockView::ToolResult { content, .. } => rendered_content(content, false),
            _ => None,
        }
    } else {
        let kept = content_of(blocks, called);
        if kept.len() == 0 {
            None
        } else if kept.len() == 1 && kept[0] is Text {
            Some(string(kept[0]->Text_text))
        } else {
            Some(
                JsonView::Array(
                    kept.map_values(|block: ContentBlockView| rendered_part(block)->0),
                ),
            )
        }
    }
}

fn render_content(blocks: &Vec<ContentBlock>, called: bool) -> (r: Option<Json>)
    ensures
        r.deep_view() == rendered_content(block_models(blocks@), called),
    decreases blocks,
{
    let ghost all = block_models(blocks@);
    for i in 0..blocks.len()
        invariant
            all == block_models(blocks@),
            forall|k: int| 0 <= k < i ==> !(all[k] is ToolResult),
    {
        assert(all[i as int] == blocks@[i as int]@);
        if let ContentBlock::ToolResult { content, .. } = &blocks[i] {
            proof {
                lemma_result_at(all, i as nat);
            }
            return render_content(content, false);
        }
    }
    proof {
        lemma_result_at(all, all.len());
    }
    let mut parts: Vec<Json> = Vec::new();
    let mut text: Option<String> = None;
    for i in 0..blocks.len()
        invariant
            all == block_models(blocks@),
            parts.len() == content_of(all.take(i as int), called).len(),
            forall|k: int|
                0 <= k < parts.len() ==> rendered_part(
                    content_of(all.take(i as int), called)[k],
                ) == Some(#[trigger] parts@[k]@),
            parts.len() == 1 ==> text.deep_view() == (match content_of(
                all.take(i as int),
                called,
            )[0] {
                ContentBlockView::Text { text, .. } => Some(text),
                _ => None,
            }),
    {
        let ghost here = all.take(i + 1);
        assert(here.drop_last() =~= all.take(i as int));
        assert(here.last() == blocks@[i as int]@);
        if !(called && is_whole_call(&blocks[i])) {
            if let Some(part) = render_part(&blocks[i]) {
                text = match &blocks[i] {
                    ContentBlock::Text { text, .. } => Some(text.clone()),
                    _ => None,
                };
                parts.push(part);
            }
        }
    }
    assert(all.take(all.len() as int) =~= all);
    let ghost kept = content_of(all, called);
    if parts.len() == 0 {
        return None;
    }
    if parts.len() == 1 {
        if let Some(text) = text {
            return Some(Json::String(text));
        }
    }
    let ghost rendered = kept.map_values(|block: ContentBlockView| rendered_part(block)->0);
    assert forall|k: int| 0 <= k < parts@.len() implies models(parts@)[k] == rendered[k] by {
        assert(rendered_part(kept[k]) == Some(parts@[k]@));
    }
    assert(models(parts@) =~= rendered);
    Some(Json::Array(parts))
}

/// A function call.
pub open spec fn function_call(id: Seq<char>, name: Seq<char>, arguments: Seq<char>) -> JsonView {
    JsonView::Object(
        fields3(
            "id"@,
            string(id),
            "type"@,
            string("function"@),
            "function"@,
            JsonView::Object(
                fields2("arguments"@, string(arguments), "name"@, string(name)),
            ),
        ),
    )
}

/// Writes a function call.
pub fn render_function_call(id: &str, name: &str, arguments: &str) -> (r: Json)
    ensures
        r@ == function_call(id@, name@, arguments@),
{
    let function = object2("arguments", Json::text(arguments), "name", Json::text(name));
    object3("id", Json::text(id), "type", Json::text("function"), "function", function)
}

/// The function calls among the blocks.
pub open spec fn calls_of(blocks: Seq<ContentBlockView>) -> Seq<JsonView>
    decreases blocks.len(),
{
    if blocks.len() == 0 {
        Seq::empty()
    } else {
        let rest = calls_of(blocks.drop_last());
        match blocks.last() {
            ContentBlockView::ToolCall { id, name, arguments } => rest.push(
                function_call(id, name, arguments),
            ),
            _ => rest,
        }
    }
}

/// The calls of a message; none where it makes none.
pub open spec fn rendered_calls(blocks: Seq<ContentBlockView>) -> Option<JsonView> {
    let calls = calls_of(blocks);
    if calls.len() == 0 {
        None
    } else {
        Some(JsonView::Array(calls))
    }
}

fn render_tool_calls(blocks: &Vec<ContentBlock>) -> (r: Option<Json>)
    ensures
        r.deep_view() == rendered_calls(block_models(blocks@)),
{
    let ghost all = block_models(blocks@);
    let mut calls: Vec<Json> = Vec::new();
    for i in 0..blocks.len()
        invariant
            all == block_models(blocks@),
            models(calls@) == calls_of(all.take(i as int)),
    {
        let ghost here = all.take(i + 1);
        assert(here.drop_last() =~= all.take(i as int));
        assert(here.last() == blocks@[i as int]@);
        if let ContentBlock::ToolCall { id, name, arguments } = &blocks[i] {
            calls.push(render_function_call(id.as_str(), name.as_str(), arguments.as_str()));
            assert(models(calls@) =~= calls_of(here));
        }
    }
    assert(all.take(all.len() as int) =~= all);
    if calls.len() == 0 {
        None
    } else {
        Some(Json::Array(calls))
    }
}

/// The tool results among the blocks: what each answers, and with what.
pub open spec fn results_of(blocks: Seq<ContentBlockView>) -> Seq<
    (Seq<char>, Seq<ContentBlockView>),
>
    decreases blocks.len(),
{
    if blocks.len() == 0 {
        Seq::empty()
    } else {
        let rest = results_of(blocks.drop_last());
        match blocks.last() {
            ContentBlockView::ToolResult { call_id, content, .. } => rest.push((call_id, content)),
            _ => rest,
        }
    }
}

/// A message on the wire.
pub open spec fn wire_message(
    role: Seq<char>,
    content: Option<JsonView>,
    calls: Option<JsonView>,
    call_id: Option<JsonView>,
    rest: FieldsView,
) -> JsonView {
    JsonView::Object(
        assigned(
            assigned(
                assigned(put(rest, "role"@, string(role)), "content"@, content),
                "tool_calls"@,
                calls,
            ),
            "tool_call_id"@,
            call_id,
        ),
    )
}

fn build_message(
    role: &str,
    content: Option<Json>,
    calls: Option<Json>,
    call_id: Option<Json>,
    rest: Fields,
) -> (r: Json)
    ensures
        r@ == wire_message(
            role@,
            content.deep_view(),
            calls.deep_view(),
            call_id.deep_view(),
            rest@,
        ),
{
    let mut fields = rest;
    fields.put("role", Json::text(role));
    fields.set("content", content);
    fields.set("tool_calls", calls);
    fields.set("tool_call_id", call_id);
    Json::Object(fields)
}

/// The role a message is rendered with: the word it came with, else the word for
/// its role.
pub open spec fn rendered_role(fields: FieldsView, role: Role) -> Seq<char> {
    match find(fields, "role"@) {
        Some(JsonView::String(raw)) => raw,
        _ => role_word(role),
    }
}

/// The text a field holds.
pub open spec fn text_at(fields: FieldsView, key: Seq<char>) -> Option<Seq<char>> {
    match find(fields, key) {
        Some(JsonView::String(text)) => Some(text),
        _ => None,
    }
}

/// Reads the text a field holds.
pub fn take_string(fields: &Fields, key: &str) -> (r: Option<String>)
    ensures
        r.deep_view() == text_at(fields@, key@),
{
    match fields.get(key) {
        Some(Json::String(text)) => Some(text.clone()),
        _ => None,
    }
}

/// A field, where what it holds passes.
pub open spec fn field_if(
    fields: FieldsView,
    key: Seq<char>,
    ok: spec_fn(JsonView) -> bool,
) -> Option<JsonView> {
    if present(fields, key, ok) {
        find(fields, key)
    } else {
        None
    }
}

/// The fields a message keeps beside its typed ones.
pub open spec fn message_rest(fields: FieldsView) -> FieldsView {
    without(
        without(without(without(fields, "role"@), "content"@), "tool_calls"@),
        "tool_call_id"@,
    )
}

/// The message for one tool result; what else the turn carried goes with the
/// first.
pub open spec fn result_message(
    role: Seq<char>,
    result: (Seq<char>, Seq<ContentBlockView>),
    first: bool,
    rest: FieldsView,
) -> JsonView {
    wire_message(
        role,
        rendered_content(result.1, false),
        None,
        Some(string(result.0)),
        if first {
            rest
        } else {
            no_fields()
        },
    )
}

/// A message for each tool result.
pub open spec fn split_results(
    role: Seq<char>,
    results: Seq<(Seq<char>, Seq<ContentBlockView>)>,
    rest: FieldsView,
) -> Seq<JsonView> {
    Seq::new(results.len(), |i: int| result_message(role, results[i], i == 0, rest))
}

/// The messages a message is rendered as. What it came with is what it leaves
/// with; otherwise it is made from its blocks, one message for each tool result.
pub open spec fn rendered_message(message: MessageView, provider: Seq<char>) -> Seq<JsonView> {
    let fields = merged(Protocol::OpenAiCompat, message.ext, provider);
    let role = rendered_role(fields, message.role);
    let rest = message_rest(fields);
    let results = results_of(message.content);
    let called = present(fields, "tool_calls"@, |v: JsonView| calls_shape(v));
    if results.len() > 1 {
        split_results(role, results, rest)
    } else {
        seq![
            wire_message(
                role,
                match field_if(fields, "content"@, |v: JsonView| content_shape(v)) {
                    Some(content) => Some(content),
                    None => rendered_content(message.content, called),
                },
                match field_if(fields, "tool_calls"@, |v: JsonView| calls_shape(v)) {
                    Some(calls) => Some(calls),
                    None => rendered_calls(message.content),
                },
                match text_at(fields, "tool_call_id"@) {
                    Some(id) => Some(string(id)),
                    None => if results.len() > 0 {
                        Some(string(results[0].0))
                    } else {
                        None
                    },
                },
                rest,
            ),
        ]
    }
}

fn count_results(blocks: &Vec<ContentBlock>) -> (r: usize)
    ensures
        r == results_of(block_models(blocks@)).len(),
{
    let ghost all = block_models(blocks@);
    let mut n: usize = 0;
    for i in 0..blocks.len()
        invariant
            all == block_models(blocks@),
            n == results_of(all.take(i as int)).len(),
            n <= i,
    {
        let ghost here = all.take(i + 1);
        assert(here.drop_last() =~= all.take(i as int));
        assert(here.last() == blocks@[i as int]@);
        if let ContentBlock::ToolResult { .. } = &blocks[i] {
            n = n + 1;
        }
    }
    assert(all.take(all.len() as int) =~= all);
    n
}

fn first_result_id(blocks: &Vec<ContentBlock>) -> (r: Option<String>)
    ensures
        r.deep_view() == (if results_of(block_models(blocks@)).len() > 0 {
            Some(results_of(block_models(blocks@))[0].0)
        } else {
            None
        }),
{
    let ghost all = block_models(blocks@);
    let mut id: Option<String> = None;
    for i in 0..blocks.len()
        invariant
            all == block_models(blocks@),
            id.deep_view() == (if results_of(all.take(i as int)).len() > 0 {
                Some(results_of(all.take(i as int))[0].0)
            } else {
                None
            }),
    {
        let ghost here = all.take(i + 1);
        assert(here.drop_last() =~= all.take(i as int));
        assert(here.last() == blocks@[i as int]@);
        if let ContentBlock::ToolResult { call_id, .. } = &blocks[i] {
            if id.is_none() {
                id = Some(call_id.clone());
            }
        }
    }
    assert(all.take(all.len() as int) =~= all);
    id
}

fn render_result(
    role: &str,
    call_id: &String,
    content: &Vec<ContentBlock>,
    first: bool,
    rest: &Fields,
) -> (r: Json)
    ensures
        r@ == result_message(role@, (call_id@, block_models(content@)), first, rest@),
{
    let beside = if first {
        rest.clone()
    } else {
        Fields::new()
    };
    let content = render_content(content, false);
    build_message(role, content, None, Some(Json::String(call_id.clone())), beside)
}

fn render_results(role: &str, blocks: &Vec<ContentBlock>, rest: Fields) -> (r: Vec<Json>)
    ensures
        models(r@) == split_results(role@, results_of(block_models(blocks@)), rest@),
{
    let ghost all = block_models(blocks@);
    let mut out: Vec<Json> = Vec::new();
    for i in 0..blocks.len()
        invariant
            all == block_models(blocks@),
            out.len() == results_of(all.take(i as int)).len(),
            forall|k: int|
                0 <= k < out.len() ==> (#[trigger] out@[k])@ == result_message(
                    role@,
                    results_of(all.take(i as int))[k],
                    k == 0,
                    rest@,
                ),
    {
        let ghost here = all.take(i + 1);
        assert(here.drop_last() =~= all.take(i as int));
        assert(here.last() == blocks@[i as int]@);
        if let ContentBlock::ToolResult { call_id, content, .. } = &blocks[i] {
            let first = out.len() == 0;
            out.push(render_result(role, call_id, content, first, &rest));
        }
    }
    assert(all.take(all.len() as int) =~= all);
    assert(models(out@) =~= split_results(role@, results_of(all), rest@));
    out
}

fn render_message(message: &Message, provider: &str) -> (r: Vec<Json>)
    ensures
        models(r@) == rendered_message(message@, provider@),
{
    let fields = merged_ext(Protocol::OpenAiCompat, &message.ext, provider);
    let role = match take_string(&fields, "role") {
        Some(raw) => raw,
        None => role_to_wire(message.role).to_owned(),
    };
    let mut rest = fields.clone();
    rest.remove("role");
    rest.remove("content");
    rest.remove("tool_calls");
    rest.remove("tool_call_id");
    if count_results(&message.content) > 1 {
        return render_results(role.as_str(), &message.content, rest);
    }
    let retained_content: Option<Json> = match fields.get("content") {
        Some(content) => if is_content(content) {
            Some(content.clone())
        } else {
            None
        },
        None => None,
    };
    let retained_calls: Option<Json> = match fields.get("tool_calls") {
        Some(calls) => if are_calls(calls) {
            Some(calls.clone())
        } else {
            None
        },
        None => None,
    };
    let content = match retained_content {
        Some(content) => Some(content),
        None => render_content(&message.content, retained_calls.is_some()),
    };
    let calls = match retained_calls {
        Some(calls) => Some(calls),
        None => render_tool_calls(&message.content),
    };
    let call_id = match take_string(&fields, "tool_call_id") {
        Some(id) => Some(Json::String(id)),
        None => json_string(&first_result_id(&message.content)),
    };
    let r = vec![build_message(role.as_str(), content, calls, call_id, rest)];
    assert(models(r@) =~= rendered_message(message@, provider@));
    r
}

/// The messages of a request.
pub open spec fn rendered_messages(messages: Seq<MessageView>, provider: Seq<char>) -> Seq<JsonView>
    decreases messages.len(),
{
    if messages.len() == 0 {
        Seq::empty()
    } else {
        rendered_messages(messages.drop_last(), provider) + rendered_message(
            messages.last(),
            provider,
        )
    }
}

fn render_messages(messages: &Vec<Message>, provider: &str) -> (r: Vec<Json>)
    ensures
        models(r@) == rendered_messages(messages.deep_view(), provider@),
{
    let ghost all = messages.deep_view();
    let mut out: Vec<Json> = Vec::new();
    for i in 0..messages.len()
        invariant
            all == messages.deep_view(),
            models(out@) == rendered_messages(all.take(i as int), provider@),
    {
        let ghost here = all.take(i + 1);
        assert(here.drop_last() =~= all.take(i as int));
        assert(here.last() == messages@[i as int]@);
        let ghost before = out@;
        let mut more = render_message(&messages[i], provider);
        let ghost added = more@;
        out.append(&mut more);
        assert(models(out@) =~= models(before) + models(added));
    }
    assert(all.take(all.len() as int) =~= all);
    out
}

/// A tool on the wire.
pub open spec fn rendered_tool(tool: ToolDefView) -> JsonView {
    JsonView::Object(
        fields2(
            "type"@,
            string("function"@),
            "function"@,
            JsonView::Object(
                assigned(
                    put(
                        assigned(
                            fields1("name"@, string(tool.name)),
                            "description"@,
                            opt_string(tool.description),
                        ),
                        "parameters"@,
                        tool.input_schema,
                    ),
                    "strict"@,
                    opt_bool(tool.strict),
                ),
            ),
        ),
    )
}

/// A tool without a schema has no form on the wire.
pub open spec fn no_schema() -> ErrorView {
    ErrorView::NotImplemented("a tool with no arguments schema on the openai_compat renderer"@)
}

fn render_tool(tool: &ToolDef) -> (r: Result<Json, Error>)
    ensures
        outcome(r) == (if tool@.input_schema is Null {
            Err(no_schema())
        } else {
            Ok(rendered_tool(tool@))
        }),
{
    if tool.input_schema.is_null() {
        return Err(
            Error::NotImplemented(
                "a tool with no arguments schema on the openai_compat renderer".to_owned(),
            ),
        );
    }
    let mut function = object1("name", Json::String(tool.name.clone())).fields();
    function.set("description", json_string(&tool.description));
    function.put("parameters", tool.input_schema.clone());
    function.set("strict", json_bool(tool.strict));
    Ok(object2("type", Json::text("function"), "function", Json::Object(function)))
}

/// Some tool has no schema.
pub open spec fn lacks_a_schema(tools: Seq<ToolDefView>) -> bool {
    exists|i: int| 0 <= i < tools.len() && (#[trigger] tools[i]).input_schema is Null
}

/// The tools on the wire.
pub open spec fn rendered_tools(tools: Seq<ToolDefView>) -> Seq<JsonView> {
    tools.map_values(|tool: ToolDefView| rendered_tool(tool))
}

fn render_tools(tools: &Vec<ToolDef>) -> (r: Result<Json, Error>)
    ensures
        outcome(r) == (if lacks_a_schema(tools.deep_view()) {
            Err(no_schema())
        } else {
            Ok(JsonView::Array(rendered_tools(tools.deep_view())))
        }),
{
    let ghost all = tools.deep_view();
    let mut out: Vec<Json> = Vec::new();
    for i in 0..tools.len()
        invariant
            all == tools.deep_view(),
            out.len() == i,
            forall|k: int|
                0 <= k < i ==> out@[k]@ == rendered_tool(#[trigger] all[k])
                    && !(all[k].input_schema is Null),
    {
        match render_tool(&tools[i]) {
            Ok(tool) => {
                out.push(tool);
            },
            Err(error) => {
                assert(all[i as int].input_schema is Null);
                return Err(error);
            },
        }
    }
    assert(models(out@) =~= rendered_tools(all));
    Ok(Json::Array(out))
}

/// A choice of tools on the wire.
pub open spec fn rendered_tool_choice(choice: ToolChoiceView) -> JsonView {
    match choice {
        ToolChoiceView::Auto => string("auto"@),
        ToolChoiceView::Never => string("none"@),
        ToolChoiceView::Required => string("required"@),
        ToolChoiceView::Tool { name } => JsonView::Object(
            fields2(
                "type"@,
                string("function"@),
                "function"@,
                JsonView::Object(fields1("name"@, string(name))),
            ),
        ),
    }
}

fn render_tool_choice(choice: &ToolChoice) -> (r: Json)
    ensures
        r@ == rendered_tool_choice(choice@),
{
    match choice {
        ToolChoice::Auto => Json::text("auto"),
        ToolChoice::Never => Json::text("none"),
        ToolChoice::Required => Json::text("required"),
        ToolChoice::Tool { name } => object2(
            "type",
            Json::text("function"),
            "function",
            object1("name", Json::String(name.clone())),
        ),
    }
}

/// The form of reply on the wire.
pub open spec fn rendered_response_format(format: ResponseFormatView) -> JsonView {
    match format {
        ResponseFormatView::Text => JsonView::Object(fields1("type"@, string("text"@))),
        ResponseFormatView::JsonObject => JsonView::Object(
            fields1("type"@, string("json_object"@)),
        ),
        ResponseFormatView::JsonSchema { name, schema, strict } => JsonView::Object(
            fields2(
                "type"@,
                string("json_schema"@),
                "json_schema"@,
                JsonView::Object(
                    assigned(
                        fields2("name"@, string(name), "schema"@, schema),
                        "strict"@,
                        opt_bool(strict),
                    ),
                ),
            ),
        ),
    }
}

fn render_response_format(format: &ResponseFormat) -> (r: Json)
    ensures
        r@ == rendered_response_format(format@),
{
    match format {
        ResponseFormat::Text => object1("type", Json::text("text")),
        ResponseFormat::JsonObject => object1("type", Json::text("json_object")),
        ResponseFormat::JsonSchema { name, schema, strict } => {
            let mut definition = object2(
                "name",
                Json::String(name.clone()),
                "schema",
                schema.clone(),
            ).fields();
            definition.set("strict", json_bool(*strict));
            object2("type", Json::text("json_schema"), "json_schema", Json::Object(definition))
        },
    }
}

/// The limit on tokens, unless what is kept gives it by its newer name.
pub open spec fn limit_of(params: GenerationParamsView, fields: FieldsView) -> Option<u32> {
    if find(fields, "max_completion_tokens"@) is Some {
        None
    } else {
        params.max_tokens
    }
}

/// The tools, where none of the right shape were kept.
pub open spec fn tools_field(tools: Seq<ToolDefView>) -> Option<JsonView> {
    if tools.len() == 0 {
        None
    } else {
        Some(JsonView::Array(rendered_tools(tools)))
    }
}

/// Sequences to stop at that are kept as they came: an empty list says no more
/// than that there are none.
pub open spec fn kept_stop(stop: JsonView) -> bool {
    stop_shape(stop) && !(stop matches JsonView::Array(items) && items.len() == 0)
}

fn keeps_stop(stop: &Json) -> (r: bool)
    ensures
        r == kept_stop(stop@),
{
    let empty = match stop {
        Json::Array(items) => items.len() == 0,
        _ => false,
    };
    is_stop(stop) && !empty
}

/// The sequences to stop at, where none were kept.
pub open spec fn stop_field(stop: Seq<Seq<char>>) -> Option<JsonView> {
    if stop.len() == 0 {
        None
    } else {
        Some(JsonView::Array(strings(stop)))
    }
}

/// The options for the stream, where none of the right shape were kept.
pub open spec fn stream_options_field(wanted: Option<bool>) -> Option<JsonView> {
    match wanted {
        Some(wanted) => Some(JsonView::Object(fields1("include_usage"@, JsonView::Bool(wanted)))),
        None => None,
    }
}

/// The fields with how to sample settled.
pub open spec fn with_params(params: GenerationParamsView, fields: FieldsView) -> FieldsView {
    let f = settled(
        fields,
        "temperature"@,
        present(fields, "temperature"@, |v: JsonView| nullable_number(v)),
        opt_number(params.temperature),
    );
    let f = settled(
        f,
        "max_tokens"@,
        present(f, "max_tokens"@, |v: JsonView| nullable_u32(v)),
        opt_u32(limit_of(params, f)),
    );
    let f = settled(
        f,
        "top_p"@,
        present(f, "top_p"@, |v: JsonView| nullable_number(v)),
        opt_number(params.top_p),
    );
    let f = settled(f, "top_k"@, find(f, "top_k"@) is Some, opt_u32(params.top_k));
    settled(
        f,
        "stop"@,
        present(f, "stop"@, |v: JsonView| kept_stop(v)),
        stop_field(params.stop),
    )
}

/// The fields with what the reply must be settled.
pub open spec fn with_form(request: ChatRequestView, fields: FieldsView) -> FieldsView {
    let f = settled(
        fields,
        "stream_options"@,
        present(fields, "stream_options"@, |v: JsonView| stream_options_shape(v)),
        stream_options_field(request.stream_include_usage),
    );
    let f = settled(
        f,
        "tool_choice"@,
        find(f, "tool_choice"@) is Some,
        match request.tool_choice {
            Some(choice) => Some(rendered_tool_choice(choice)),
            None => None,
        },
    );
    let f = settled(
        f,
        "parallel_tool_calls"@,
        find(f, "parallel_tool_calls"@) is Some,
        opt_bool(request.parallel_tool_calls),
    );
    let f = settled(
        f,
        "response_format"@,
        present(f, "response_format"@, |v: JsonView| response_format_shape(v)),
        match request.response_format {
            Some(format) => Some(rendered_response_format(format)),
            None => None,
        },
    );
    settled(
        f,
        "reasoning_effort"@,
        present(f, "reasoning_effort"@, |v: JsonView| nullable_string(v)),
        match request.reasoning {
            Some(reasoning) => opt_string(reasoning.effort),
            None => None,
        },
    )
}

/// The fields with the model, the messages and whether to stream.
pub open spec fn with_head(
    model: Seq<char>,
    messages: Seq<JsonView>,
    stream: bool,
    fields: FieldsView,
) -> FieldsView {
    assigned(
        put(put(fields, "model"@, string(model)), "messages"@, JsonView::Array(messages)),
        "stream"@,
        if stream {
            Some(JsonView::Bool(true))
        } else {
            None
        },
    )
}

/// The fields of a rendered request, from those it kept: each typed field is
/// what was kept, where that has the right shape, and otherwise what the common
/// form says.
pub open spec fn request_fields(
    request: ChatRequestView,
    kept: FieldsView,
    messages: Seq<JsonView>,
) -> FieldsView {
    let tooled = settled(
        kept,
        "tools"@,
        present(kept, "tools"@, |v: JsonView| tools_shape(v)),
        tools_field(request.tools),
    );
    with_head(
        request.model,
        messages,
        request.stream,
        with_form(request, with_params(request.params, tooled)),
    )
}

fn settle_params(params: &GenerationParams, fields: &mut Fields)
    ensures
        final(fields)@ == with_params(params@, old(fields)@),
{
    let keep = match fields.get("temperature") {
        Some(v) => is_nullable_number(v),
        None => false,
    };
    fields.settle("temperature", keep, json_number(&params.temperature));
    let keep = match fields.get("max_tokens") {
        Some(v) => is_nullable_u32(v),
        None => false,
    };
    let limit: Option<u32> = if fields.has("max_completion_tokens") {
        None
    } else {
        params.max_tokens
    };
    fields.settle("max_tokens", keep, json_u32(limit));
    let keep = match fields.get("top_p") {
        Some(v) => is_nullable_number(v),
        None => false,
    };
    fields.settle("top_p", keep, json_number(&params.top_p));
    let keep = fields.has("top_k");
    fields.settle("top_k", keep, json_u32(params.top_k));
    let keep = match fields.get("stop") {
        Some(v) => keeps_stop(v),
        None => false,
    };
    let stop = if params.stop.len() == 0 {
        None
    } else {
        Some(Json::Array(json_strings(&params.stop)))
    };
    fields.settle("stop", keep, stop);
}

fn settle_form(request: &ChatRequest, fields: &mut Fields)
    ensures
        final(fields)@ == with_form(request@, old(fields)@),
{
    let keep = match fields.get("stream_options") {
        Some(v) => is_stream_options(v),
        None => false,
    };
    let options = match request.stream_include_usage {
        Some(wanted) => Some(object1("include_usage", Json::Bool(wanted))),
        None => None,
    };
    fields.settle("stream_options", keep, options);
    let keep = fields.has("tool_choice");
    let choice = match &request.tool_choice {
        Some(choice) => Some(render_tool_choice(choice)),
        None => None,
    };
    fields.settle("tool_choice", keep, choice);
    let keep = fields.has("parallel_tool_calls");
    fields.settle("parallel_tool_calls", keep, json_bool(request.parallel_tool_calls));
    let keep = match fields.get("response_format") {
        Some(v) => is_response_format(v),
        None => false,
    };
    let format = match &request.response_format {
        Some(format) => Some(render_response_format(format)),
        None => None,
    };
    fields.settle("response_format", keep, format);
    let keep = match fields.get("reasoning_effort") {
        Some(v) => is_nullable_string(v),
        None => false,
    };
    let effort = match &request.reasoning {
        Some(reasoning) => json_string(&reasoning.effort),
        None => None,
    };
    fields.settle("reasoning_effort", keep, effort);
}

/// The request on the wire, or what the protocol has no form for.
pub open spec fn rendered_request(request: ChatRequestView, provider: Seq<char>) -> Result<
    JsonView,
    ErrorView,
> {
    let kept = merged(Protocol::OpenAiCompat, request.ext, provider);
    match refusal(request) {
        Some(error) => Err(error),
        None => if !present(kept, "tools"@, |v: JsonView| tools_shape(v)) && lacks_a_schema(
            request.tools,
        ) {
            Err(no_schema())
        } else {
            Ok(
                JsonView::Object(
                    request_fields(request, kept, rendered_messages(request.messages, provider)),
                ),
            )
        },
    }
}

/// Renders a request. What the request was read with by this protocol is
/// rendered as it came; the rest is made from the common form. What the protocol
/// has no form for is refused.
pub fn render_request(request: &ChatRequest, provider: &str) -> (r: Result<Json, Error>)
    ensures
        outcome(r) == rendered_request(request@, provider@),
{
    match ensure_renderable(request) {
        Err(error) => {
            return Err(error);
        },
        Ok(()) => {},
    }
    let mut fields = merged_ext(Protocol::OpenAiCompat, &request.ext, provider);
    let messages = render_messages(&request.messages, provider);
    let keep = match fields.get("tools") {
        Some(tools) => is_tools(tools),
        None => false,
    };
    if !keep {
        let tools = if request.tools.len() == 0 {
            None
        } else {
            match render_tools(&request.tools) {
                Ok(tools) => Some(tools),
                Err(error) => {
                    return Err(error);
                },
            }
        };
        fields.set("tools", tools);
    }
    settle_params(&request.params, &mut fields);
    settle_form(request, &mut fields);
    fields.put("model", Json::String(request.model.clone()));
    fields.put("messages", Json::Array(messages));
    let stream = if request.stream {
        Some(Json::Bool(true))
    } else {
        None
    };
    fields.set("stream", stream);
    Ok(Json::Object(fields))
}

} // verus!
