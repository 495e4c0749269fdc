//! Requests, between Anthropic's messages and the common form.
use vstd::prelude::*;
use vstd::string::*;

use crate::error::{outcome, Error, ErrorView};
use crate::gateway::ext::{kept_under, merged, merged_ext, namespaced};
use crate::gateway::openai_compat::request::{
    lacks_a_schema, read_stop, stop_sequences, take_string, text_at,
};
use crate::gateway::openai_compat::wire::present;
use crate::gateway::types::message::{
    block_models, ContentBlock, ContentBlockView, MediaSource, MediaSourceView, Message,
    MessageView, Role,
};
use crate::gateway::types::request::{
    ChatRequest, ChatRequestView, GenerationParams, GenerationParamsView, ReasoningConfig,
    ReasoningConfigView, ResponseFormat, ResponseFormatView, ToolChoice, ToolChoiceView, ToolDef,
    ToolDefView,
};
use crate::gateway::types::{raw_value, IngestSource, IngestSourceView, RawJson};
use crate::json::{
    assigned, count, fields1, fields2, find, json_bool, json_number, json_string, json_strings,
    json_u32, models, no_fields, object1, object2, opt_bool, opt_number, opt_string, opt_u32, put,
    sans_null, settled, string, strings, without, Fields, FieldsView, Json, JsonView,
};
use crate::json_text::text_of_json;
use crate::text::{join3, same_text};
use crate::types::Protocol;

use super::response::{
    control_field, control_of, document_block, hint_at, hint_of, image_block, ingest_blocks,
    ingested_blocks, read_role, read_sole_text, render_document, render_image, render_reasoning,
    render_source, render_text, render_tool_result, render_tool_use, rendered_reasoning,
    rendered_source, sole_text, text_block, tool_result_block, tool_use_block, wire_role,
};
use super::wire::{
    are_strings, content_shape, custom_tool_shape, is_content, is_custom_tool, is_output_config,
    output_config_shape, strings_shape,
};
use super::{known_role, role_to_wire, role_word};

verus! {

// ---------------------------------------------------------------------------
// Reading
// ---------------------------------------------------------------------------

/// The blocks that content stands for: text, or blocks.
pub open spec fn content_blocks(content: JsonView) -> Seq<ContentBlockView> {
    match content {
        JsonView::String(text) => seq![ContentBlockView::Text { text, cache: None }],
        JsonView::Array(items) => ingested_blocks(items),
        _ => Seq::empty(),
    }
}

fn ingest_content(content: &Json) -> (r: Vec<ContentBlock>)
    ensures
        block_models(r@) == content_blocks(content@),
{
    let out = match content {
        Json::String(text) => vec![ContentBlock::Text { text: text.clone(), cache: None }],
        Json::Array(items) => ingest_blocks(items),
        _ => Vec::new(),
    };
    assert(block_models(out@) =~= content_blocks(content@));
    out
}

/// The message that the system prompt stands for.
pub open spec fn ingested_system(prompt: JsonView) -> MessageView {
    MessageView { role: Role::System, content: content_blocks(prompt), ext: no_fields() }
}

fn ingest_system(prompt: &Json) -> (r: Message)
    ensures
        r@ == ingested_system(prompt@),
{
    Message { role: Role::System, content: ingest_content(prompt), ext: Fields::new() }
}

/// The blocks are tool results, and nothing else.
pub open spec fn only_results(blocks: Seq<ContentBlockView>) -> bool {
    blocks.len() > 0 && forall|i: int| 0 <= i < blocks.len() ==> #[trigger] blocks[i] is ToolResult
}

fn has_only_results(blocks: &Vec<ContentBlock>) -> (r: bool)
    ensures
        r == only_results(block_models(blocks@)),
{
    let ghost all = block_models(blocks@);
    for i in 0..blocks.len()
        invariant
            all == block_models(blocks@),
            forall|k: int| 0 <= k < i ==> #[trigger] all[k] is ToolResult,
    {
        assert(all[i as int] == blocks@[i as int]@);
        match &blocks[i] {
            ContentBlock::ToolResult { .. } => {},
            _ => {
                return false;
            },
        }
    }
    blocks.len() > 0
}

/// The blocks a message stands for.
pub open spec fn message_blocks(message: JsonView) -> Seq<ContentBlockView> {
    match message.get("content"@) {
        Some(content) => content_blocks(content),
        None => Seq::empty(),
    }
}

/// What a message keeps: everything but a role that the protocol knows.
pub open spec fn message_residue(fields: FieldsView) -> FieldsView {
    match find(fields, "role"@) {
        Some(JsonView::String(word)) => if known_role(word) is Some {
            without(fields, "role"@)
        } else {
            fields
        },
        _ => fields,
    }
}

/// The message a wire message stands for. A user's turn of nothing but tool
/// results is the tools'.
pub open spec fn ingested_message(message: JsonView) -> MessageView {
    let blocks = message_blocks(message);
    MessageView {
        role: if wire_role(message) == Role::User && only_results(blocks) {
            Role::Tool
        } else {
            wire_role(message)
        },
        content: blocks,
        ext: kept_under(Protocol::Anthropic, message_residue(message.fields())),
    }
}

fn ingest_message(message: &Json) -> (r: Message)
    ensures
        r@ == ingested_message(message@),
{
    let mut fields = message.fields();
    let (role, strange) = read_role(message);
    let known = match message.str_at("role") {
        Some(_) => strange.is_none(),
        None => false,
    };
    if known {
        fields.remove("role");
    }
    let blocks = match message.get("content") {
        Some(content) => ingest_content(content),
        None => Vec::new(),
    };
    assert(block_models(blocks@) =~= message_blocks(message@));
    let role = if role == Role::User && has_only_results(&blocks) {
        Role::Tool
    } else {
        role
    };
    Message { role, content: blocks, ext: namespaced(Protocol::Anthropic, fields) }
}

/// What a tool keeps beside what the common form has.
pub open spec fn tool_residue(fields: FieldsView) -> FieldsView {
    let f = without(without(without(fields, "name"@), "description"@), "input_schema"@);
    without(without(f, "strict"@), "cache_control"@)
}

/// The tool a wire tool stands for. One that the caller does not define is known
/// by its name alone and keeps its whole description.
pub open spec fn ingested_tool(tool: JsonView) -> ToolDefView {
    if custom_tool_shape(tool) {
        ToolDefView {
            name: tool.str_at("name"@)->0,
            description: tool.str_at("description"@),
            input_schema: tool.get("input_schema"@)->0,
            strict: tool.bool_at("strict"@),
            cache: hint_at(tool),
            ext: kept_under(Protocol::Anthropic, tool_residue(tool.fields())),
        }
    } else {
        ToolDefView {
            name: match tool.str_at("name"@) {
                Some(name) => name,
                None => match tool.str_at("type"@) {
                    Some(kind) => kind,
                    None => Seq::empty(),
                },
            },
            description: None,
            input_schema: JsonView::Null,
            strict: None,
            cache: None,
            ext: kept_under(Protocol::Anthropic, tool.fields()),
        }
    }
}

fn ingest_tool(tool: &Json) -> (r: ToolDef)
    ensures
        r@ == ingested_tool(tool@),
{
    if is_custom_tool(tool) {
        if let (Some(name), Some(schema)) = (tool.str_at("name"), tool.get("input_schema")) {
            let mut fields = tool.fields();
            fields.remove("name");
            fields.remove("description");
            fields.remove("input_schema");
            fields.remove("strict");
            fields.remove("cache_control");
            return ToolDef {
                name,
                description: tool.str_at("description"),
                input_schema: schema.clone(),
                strict: tool.bool_at("strict"),
                cache: hint_of(tool),
                ext: namespaced(Protocol::Anthropic, fields),
            };
        }
    }
    ToolDef {
        name: match tool.str_at("name") {
            Some(name) => name,
            None => match tool.str_at("type") {
                Some(kind) => kind,
                None => String::new(),
            },
        },
        description: None,
        input_schema: Json::Null,
        strict: None,
        cache: None,
        ext: namespaced(Protocol::Anthropic, tool.fields()),
    }
}

/// The choice of tools a wire choice stands for, if any.
pub open spec fn ingested_tool_choice(choice: JsonView) -> Option<ToolChoiceView> {
    let kind = choice.str_at("type"@);
    let name = choice.str_at("name"@);
    if kind == Some("auto"@) {
        Some(ToolChoiceView::Auto)
    } else if kind == Some("none"@) {
        Some(ToolChoiceView::Never)
    } else if kind == Some("any"@) {
        Some(ToolChoiceView::Required)
    } else if kind == Some("tool"@) && name is Some {
        Some(ToolChoiceView::Tool { name: name->0 })
    } else {
        None
    }
}

fn ingest_tool_choice(choice: &Json) -> (r: Option<ToolChoice>)
    ensures
        r.deep_view() == ingested_tool_choice(choice@),
{
    let Some(kind) = choice.str_at("type") else {
        return None;
    };
    if same_text(kind.as_str(), "auto") {
        return Some(ToolChoice::Auto);
    }
    if same_text(kind.as_str(), "none") {
        return Some(ToolChoice::Never);
    }
    if same_text(kind.as_str(), "any") {
        return Some(ToolChoice::Required);
    }
    if same_text(kind.as_str(), "tool") {
        if let Some(name) = choice.str_at("name") {
            return Some(ToolChoice::Tool { name });
        }
    }
    None
}

/// Whether several tools may be called at once, where the choice of tools says.
pub open spec fn ingested_parallel(request: JsonView) -> Option<bool> {
    match request.get("tool_choice"@) {
        Some(choice) => match choice.bool_at("disable_parallel_tool_use"@) {
            Some(disabled) => Some(!disabled),
            None => None,
        },
        None => None,
    }
}

fn ingest_parallel(request: &Json) -> (r: Option<bool>)
    ensures
        r == ingested_parallel(request@),
{
    match request.get("tool_choice") {
        Some(choice) => match choice.bool_at("disable_parallel_tool_use") {
            Some(disabled) => Some(!disabled),
            None => None,
        },
        None => None,
    }
}

/// The form of reply that the configuration of the output asks for, if any.
pub open spec fn ingested_output_format(request: JsonView) -> Option<ResponseFormatView> {
    match request.get("output_config"@) {
        Some(config) => match config.get("format"@) {
            Some(format) => if format.str_at("type"@) == Some("json_schema"@) {
                Some(
                    ResponseFormatView::JsonSchema {
                        name: Seq::empty(),
                        schema: match format.get("schema"@) {
                            Some(schema) => schema,
                            None => JsonView::Null,
                        },
                        strict: None,
                    },
                )
            } else {
                None
            },
            None => None,
        },
        None => None,
    }
}

fn ingest_output_format(request: &Json) -> (r: Option<ResponseFormat>)
    ensures
        r.deep_view() == ingested_output_format(request@),
{
    let Some(config) = request.get("output_config") else {
        return None;
    };
    let Some(format) = config.get("format") else {
        return None;
    };
    if let Some(kind) = format.str_at("type") {
        if same_text(kind.as_str(), "json_schema") {
            return Some(
                ResponseFormat::JsonSchema {
                    name: String::new(),
                    schema: match format.get("schema") {
                        Some(schema) => schema.clone(),
                        None => Json::Null,
                    },
                    strict: None,
                },
            );
        }
    }
    None
}

/// Whether reasoning is kept out of the reply, where that is said.
pub open spec fn exclusion_of(display: Option<Seq<char>>) -> Option<bool> {
    if display == Some("omitted"@) {
        Some(true)
    } else if display == Some("summarized"@) {
        Some(false)
    } else {
        None
    }
}

fn exclusion(display: Option<String>) -> (r: Option<bool>)
    ensures
        r == exclusion_of(display.deep_view()),
{
    match display {
        Some(word) => if same_text(word.as_str(), "omitted") {
            Some(true)
        } else if same_text(word.as_str(), "summarized") {
            Some(false)
        } else {
            None
        },
        None => None,
    }
}

/// How to reason, from the mode of thinking and the effort.
pub open spec fn reasoning_of(thinking: JsonView, effort: Option<Seq<char>>) -> ReasoningConfigView {
    let kind = thinking.str_at("type"@);
    let budget = thinking.u32_at("budget_tokens"@);
    if kind == Some("enabled"@) && budget is Some {
        ReasoningConfigView {
            enabled: Some(true),
            effort,
            budget_tokens: budget,
            exclude: exclusion_of(thinking.str_at("display"@)),
        }
    } else if kind == Some("adaptive"@) {
        ReasoningConfigView {
            enabled: Some(true),
            effort,
            budget_tokens: None,
            exclude: exclusion_of(thinking.str_at("display"@)),
        }
    } else {
        ReasoningConfigView {
            enabled: if kind == Some("disabled"@) {
                Some(false)
            } else {
                None
            },
            effort,
            budget_tokens: None,
            exclude: None,
        }
    }
}

/// How to reason, where the request says anything of it.
pub open spec fn ingested_reasoning(request: JsonView) -> Option<ReasoningConfigView> {
    let thinking = match request.get("thinking"@) {
        Some(thinking) => thinking,
        None => JsonView::Null,
    };
    let config = reasoning_of(thinking, request.str_in("output_config"@, "effort"@));
    if config.enabled is Some || config.effort is Some {
        Some(config)
    } else {
        None
    }
}

fn read_thinking(thinking: &Json, effort: Option<String>) -> (r: ReasoningConfig)
    ensures
        r@ == reasoning_of(thinking@, effort.deep_view()),
{
    let kind = match thinking.str_at("type") {
        Some(kind) => kind,
        None => {
            return ReasoningConfig {
                enabled: None,
                effort,
                budget_tokens: None,
                exclude: None,
            };
        },
    };
    if same_text(kind.as_str(), "enabled") {
        if let Some(budget) = thinking.u32_at("budget_tokens") {
            return ReasoningConfig {
                enabled: Some(true),
                effort,
                budget_tokens: Some(budget),
                exclude: exclusion(thinking.str_at("display")),
            };
        }
    }
    if same_text(kind.as_str(), "adaptive") {
        return ReasoningConfig {
            enabled: Some(true),
            effort,
            budget_tokens: None,
            exclude: exclusion(thinking.str_at("display")),
        };
    }
    let enabled: Option<bool> = if same_text(kind.as_str(), "disabled") {
        Some(false)
    } else {
        None
    };
    ReasoningConfig { enabled, effort, budget_tokens: None, exclude: None }
}

/// Reads how to reason.
pub fn ingest_reasoning(request: &Json) -> (r: Option<ReasoningConfig>)
    ensures
        r.deep_view() == ingested_reasoning(request@),
{
    let effort = request.str_in("output_config", "effort");
    let config = match request.get("thinking") {
        Some(thinking) => read_thinking(thinking, effort),
        None => read_thinking(&Json::Null, effort),
    };
    if config.enabled.is_some() || config.effort.is_some() {
        Some(config)
    } else {
        None
    }
}

/// What a request keeps: everything but the model, the messages, the plain
/// numbers of how to sample, and whether to stream.
pub open spec fn request_residue(fields: FieldsView) -> FieldsView {
    let f = without(without(without(fields, "model"@), "messages"@), "max_tokens"@);
    let f = without(without(without(f, "temperature"@), "top_p"@), "stream"@);
    let f = sans_null(sans_null(sans_null(f, "system"@), "stop_sequences"@), "tools"@);
    sans_null(sans_null(sans_null(f, "tool_choice"@), "thinking"@), "output_config"@)
}

fn keep_request(request: &Json) -> (r: Fields)
    ensures
        r@ == request_residue(request@.fields()),
{
    let mut fields = request.fields();
    fields.remove("model");
    fields.remove("messages");
    fields.remove("max_tokens");
    fields.remove("temperature");
    fields.remove("top_p");
    fields.remove("stream");
    fields.drop_null("system");
    fields.drop_null("stop_sequences");
    fields.drop_null("tools");
    fields.drop_null("tool_choice");
    fields.drop_null("thinking");
    fields.drop_null("output_config");
    fields
}

/// The messages a request stands for: the system prompt first, where there is
/// one.
pub open spec fn ingested_messages(request: JsonView) -> Seq<MessageView> {
    let said = request.items_at("messages"@).map_values(|m: JsonView| ingested_message(m));
    match request.get("system"@) {
        Some(prompt) => if content_shape(prompt) {
            seq![ingested_system(prompt)] + said
        } else {
            said
        },
        None => said,
    }
}

fn ingest_messages(request: &Json) -> (r: Vec<Message>)
    ensures
        r.deep_view() == ingested_messages(request@),
{
    let mut out: Vec<Message> = Vec::new();
    if let Some(prompt) = request.get("system") {
        if is_content(prompt) {
            out.push(ingest_system(prompt));
        }
    }
    let ghost start = out@;
    let ghost head = out.deep_view();
    let ghost said = request@.items_at("messages"@).map_values(
        |m: JsonView| ingested_message(m),
    );
    if let Some(messages) = request.items_at("messages") {
        for i in 0..messages.len()
            invariant
                out.len() == start.len() + i,
                forall|k: int| 0 <= k < start.len() ==> out@[k] == start[k],
                forall|k: int|
                    0 <= k < i ==> out@[start.len() + k]@ == ingested_message(messages@[k]@),
        {
            out.push(ingest_message(&messages[i]));
        }
        assert(models(messages@) == request@.items_at("messages"@));
        assert(out.deep_view() =~= head + said);
    }
    assert(out.deep_view() =~= head + said);
    assert(head.len() == 0 ==> head + said =~= said);
    assert(head.len() > 0 ==> head =~= seq![head[0]]);
    out
}

fn ingest_tools(request: &Json) -> (r: Vec<ToolDef>)
    ensures
        r.deep_view() == request@.items_at("tools"@).map_values(|t: JsonView| ingested_tool(t)),
{
    let mut out: Vec<ToolDef> = Vec::new();
    if let Some(tools) = request.items_at("tools") {
        for i in 0..tools.len()
            invariant
                out.len() == i,
                forall|k: int| 0 <= k < i ==> out@[k]@ == ingested_tool(tools@[k]@),
        {
            out.push(ingest_tool(&tools[i]));
        }
    }
    assert(out.deep_view() =~= request@.items_at("tools"@).map_values(
        |t: JsonView| ingested_tool(t),
    ));
    out
}

/// The request a wire request stands for, with the model it was routed to.
/// Anthropic reports token counts at the end of every stream, so a stream asks
/// for them.
pub open spec fn ingested_request(request: JsonView, model: Seq<char>) -> ChatRequestView {
    let stream = request.bool_at("stream"@) == Some(true);
    ChatRequestView {
        model,
        messages: ingested_messages(request),
        tools: request.items_at("tools"@).map_values(|t: JsonView| ingested_tool(t)),
        tool_choice: match request.get("tool_choice"@) {
            Some(choice) => ingested_tool_choice(choice),
            None => None,
        },
        parallel_tool_calls: ingested_parallel(request),
        params: GenerationParamsView {
            max_tokens: request.u32_at("max_tokens"@),
            temperature: request.number_at("temperature"@),
            top_p: request.number_at("top_p"@),
            top_k: request.u32_at("top_k"@),
            stop: stop_sequences(request.get("stop_sequences"@)),
        },
        response_format: ingested_output_format(request),
        reasoning: ingested_reasoning(request),
        cache: None,
        stream,
        stream_include_usage: if stream {
            Some(true)
        } else {
            None
        },
        ext: kept_under(Protocol::Anthropic, request_residue(request.fields())),
        source: Some(IngestSourceView { protocol: Protocol::Anthropic, body: request }),
    }
}

/// Reads a request. Nothing is refused and nothing is lost.
pub fn ingest_request(request: &Json, model: &str) -> (r: ChatRequest)
    ensures
        r@ == ingested_request(request@, model@),
{
    let stream = match request.bool_at("stream") {
        Some(stream) => stream,
        None => false,
    };
    ChatRequest {
        model: model.to_owned(),
        messages: ingest_messages(request),
        tools: ingest_tools(request),
        tool_choice: match request.get("tool_choice") {
            Some(choice) => ingest_tool_choice(choice),
            None => None,
        },
        parallel_tool_calls: ingest_parallel(request),
        params: GenerationParams {
            max_tokens: request.u32_at("max_tokens"),
            temperature: request.number_at("temperature"),
            top_p: request.number_at("top_p"),
            top_k: request.u32_at("top_k"),
            stop: read_stop(request.get("stop_sequences")),
        },
        response_format: ingest_output_format(request),
        reasoning: ingest_reasoning(request),
        cache: None,
        stream,
        stream_include_usage: if stream {
            Some(true)
        } else {
            None
        },
        ext: namespaced(Protocol::Anthropic, keep_request(request)),
        source: Some(IngestSource { protocol: Protocol::Anthropic, body: request.clone() }),
    }
}

// ---------------------------------------------------------------------------
// What cannot be rendered
// ---------------------------------------------------------------------------

/// A mode of thinking.
#[derive(Debug, Clone, Copy, PartialEq, Eq, Structural)]
pub enum Arm {
    Enabled(u32),
    Adaptive,
    Disabled,
}

/// The mode of thinking that a request for reasoning asks for, if any.
pub open spec fn arm_of(reasoning: ReasoningConfigView) -> Option<Arm> {
    if reasoning.enabled == Some(false) {
        Some(Arm::Disabled)
    } else {
        match reasoning.budget_tokens {
            Some(budget) => Some(Arm::Enabled(budget)),
            None => if reasoning.enabled == Some(true) {
                Some(Arm::Adaptive)
            } else {
                None
            },
        }
    }
}

fn thinking_arm(reasoning: &ReasoningConfig) -> (r: Option<Arm>)
    ensures
        r == arm_of(reasoning@),
{
    if let Some(false) = reasoning.enabled {
        return Some(Arm::Disabled);
    }
    if let Some(budget) = reasoning.budget_tokens {
        return Some(Arm::Enabled(budget));
    }
    match reasoning.enabled {
        Some(true) => Some(Arm::Adaptive),
        _ => None,
    }
}

/// A block of sound.
pub open spec fn is_sound(block: ContentBlockView) -> bool {
    block is Audio
}

/// Where the bytes of a block are, if it has any.
pub open spec fn bytes_of(block: ContentBlockView) -> Option<MediaSourceView> {
    match block {
        ContentBlockView::Image { source, .. } => Some(source),
        ContentBlockView::Document { source, .. } => Some(source),
        ContentBlockView::Audio { source, .. } => Some(source),
        _ => None,
    }
}

/// Bytes at hand, without a media type.
pub open spec fn is_untyped(block: ContentBlockView) -> bool {
    match bytes_of(block) {
        Some(MediaSourceView::Base64 { media_type, .. }) => media_type.len() == 0,
        _ => false,
    }
}

/// A block is such a block, or a tool's result that holds one at any depth.
pub open spec fn is_or_holds(
    block: ContentBlockView,
    such: spec_fn(ContentBlockView) -> bool,
) -> bool
    decreases block,
{
    such(block) || match block {
        ContentBlockView::ToolResult { content, .. } => any_is_or_holds(content, such),
        _ => false,
    }
}

/// One of the blocks is or holds such a block.
pub open spec fn any_is_or_holds(
    blocks: Seq<ContentBlockView>,
    such: spec_fn(ContentBlockView) -> bool,
) -> bool
    decreases blocks,
{
    exists|i: int| 0 <= i < blocks.len() && is_or_holds(#[trigger] blocks[i], such)
}

/// One of the blocks of a message is or holds such a block.
pub open spec fn message_has(
    message: MessageView,
    such: spec_fn(ContentBlockView) -> bool,
) -> bool {
    any_is_or_holds(message.content, such)
}

/// One of the messages has such a block.
pub open spec fn request_has(
    messages: Seq<MessageView>,
    such: spec_fn(ContentBlockView) -> bool,
) -> bool {
    exists|i: int| 0 <= i < messages.len() && message_has(#[trigger] messages[i], such)
}

fn test_block(block: &ContentBlock, sound: bool) -> (r: bool)
    ensures
        r == (if sound {
            is_sound(block@)
        } else {
            is_untyped(block@)
        }),
{
    let source = match block {
        ContentBlock::Audio { source, .. } => {
            if sound {
                return true;
            }
            source
        },
        ContentBlock::Image { source, .. } => source,
        ContentBlock::Document { source, .. } => source,
        _ => {
            return false;
        },
    };
    if sound {
        return false;
    }
    match source {
        MediaSource::Base64 { media_type, .. } => media_type.as_str().is_empty(),
        _ => false,
    }
}

/// The test for one of the two kinds of block.
pub open spec fn such_block(sound: bool) -> spec_fn(ContentBlockView) -> bool {
    |block: ContentBlockView|
        if sound {
            is_sound(block)
        } else {
            is_untyped(block)
        }
}

fn block_has(block: &ContentBlock, sound: bool) -> (r: bool)
    ensures
        r == is_or_holds(block@, such_block(sound)),
    decreases block,
{
    if test_block(block, sound) {
        return true;
    }
    match block {
        ContentBlock::ToolResult { content, .. } => any_block_has(content, sound),
        _ => false,
    }
}

fn any_block_has(blocks: &Vec<ContentBlock>, sound: bool) -> (r: bool)
    ensures
        r == any_is_or_holds(block_models(blocks@), such_block(sound)),
    decreases blocks,
{
    let ghost all = block_models(blocks@);
    for i in 0..blocks.len()
        invariant
            all == block_models(blocks@),
            forall|k: int| 0 <= k < i ==> !is_or_holds(#[trigger] all[k], such_block(sound)),
    {
        if block_has(&blocks[i], sound) {
            assert(is_or_holds(all[i as int], such_block(sound)));
            return true;
        }
    }
    false
}

fn any_message_has(messages: &Vec<Message>, sound: bool) -> (r: bool)
    ensures
        r == request_has(messages.deep_view(), such_block(sound)),
{
    let ghost all = messages.deep_view();
    for i in 0..messages.len()
        invariant
            all == messages.deep_view(),
            forall|k: int| 0 <= k < i ==> !message_has(#[trigger] all[k], such_block(sound)),
    {
        if any_block_has(&messages[i].content, sound) {
            assert(message_has(all[i as int], such_block(sound)));
            return true;
        }
    }
    false
}

/// What the protocol has no form for, if the request holds any of it.
pub open spec fn refusal(request: ChatRequestView) -> Option<ErrorView> {
    if request_has(request.messages, such_block(true)) {
        Some(ErrorView::NotImplemented("an audio block on the anthropic renderer"@))
    } else if request.cache is Some {
        Some(ErrorView::NotImplemented("a request-level cache hint on the anthropic renderer"@))
    } else if request_has(request.messages, such_block(false)) {
        Some(
            ErrorView::NotImplemented(
                "inline bytes with no media type on the anthropic renderer"@,
            ),
        )
    } else {
        match request.reasoning {
            Some(reasoning) => if reasoning.exclude is Some && !(arm_of(reasoning) matches Some(
                arm,
            ) && arm != Arm::Disabled) {
                Some(
                    ErrorView::NotImplemented(
                        "a reasoning exclusion with no thinking mode on the anthropic renderer"@,
                    ),
                )
            } else {
                None
            },
            None => None,
        }
    }
}

/// Refuses what the protocol has no form for, rather than dropping it.
fn ensure_renderable(request: &ChatRequest) -> (r: Result<(), Error>)
    ensures
        match refusal(request@) {
            Some(error) => r matches Err(e) && e@ == error,
            None => r is Ok,
        },
{
    if any_message_has(&request.messages, true) {
        return Err(Error::NotImplemented("an audio block on the anthropic renderer".to_owned()));
    }
    if request.cache.is_some() {
        return Err(
            Error::NotImplemented("a request-level cache hint on the anthropic renderer".to_owned()),
        );
    }
    if any_message_has(&request.messages, false) {
        return Err(
            Error::NotImplemented(
                "inline bytes with no media type on the anthropic renderer".to_owned(),
            ),
        );
    }
    if let Some(reasoning) = &request.reasoning {
        let thinks = match thinking_arm(reasoning) {
            Some(Arm::Enabled(_)) | Some(Arm::Adaptive) => true,
            _ => false,
        };
        if reasoning.exclude.is_some() && !thinks {
            return Err(
                Error::NotImplemented(
                    "a reasoning exclusion with no thinking mode on the anthropic renderer".to_owned(),
                ),
            );
        }
    }
    Ok(())
}

// ---------------------------------------------------------------------------
// Rendering
// ---------------------------------------------------------------------------

/// A file of one provider means nothing to another.
pub open spec fn foreign_file(id: Seq<char>) -> ErrorView {
    ErrorView::InvalidInput(
        "file reference '"@ + id
            + "' was issued by another provider's files API, which Anthropic cannot resolve"@,
    )
}

/// A source of a request, on the wire.
pub open spec fn checked_source(source: MediaSourceView) -> Result<JsonView, ErrorView> {
    match source {
        MediaSourceView::ProviderFile { id } => Err(foreign_file(id)),
        _ => Ok(rendered_source(source)),
    }
}

fn check_source(source: &MediaSource) -> (r: Result<Json, Error>)
    ensures
        outcome(r) == checked_source(source@),
{
    match source {
        MediaSource::ProviderFile { id } => Err(
            Error::InvalidInput(
                join3(
                    "file reference '",
                    id.as_str(),
                    "' was issued by another provider's files API, which Anthropic cannot resolve",
                ),
            ),
        ),
        _ => Ok(render_source(source)),
    }
}

/// Arguments that Anthropic would not take.
pub open spec fn bad_arguments(
    id: Seq<char>,
    name: Seq<char>,
    what: Seq<char>,
    arguments: Seq<char>,
) -> ErrorView {
    ErrorView::InvalidInput(
        "tool call '"@ + id + "' to '"@ + name + "' has arguments that are "@ + what
            + ", which Anthropic requires: "@ + arguments,
    )
}

fn refuse_arguments(id: &str, name: &str, what: &str, arguments: &str) -> (r: Error)
    ensures
        r@ == bad_arguments(id@, name@, what@, arguments@),
{
    let mut text = join3("tool call '", id, "' to '");
    text.append(name);
    text.append("' has arguments that are ");
    text.append(what);
    text.append(", which Anthropic requires: ");
    text.append(arguments);
    Error::InvalidInput(text)
}

/// The input of a tool call: what the text of its arguments reads as, given what
/// that is.
pub open spec fn checked_input(
    arguments: Seq<char>,
    parsed: Option<JsonView>,
    id: Seq<char>,
    name: Seq<char>,
) -> Result<JsonView, ErrorView> {
    match parsed {
        Some(input) => if input is Object {
            Ok(input)
        } else {
            Err(bad_arguments(id, name, "valid JSON but not an object"@, arguments))
        },
        None => Err(bad_arguments(id, name, "not JSON"@, arguments)),
    }
}

/// Checks the input of a tool call, once its arguments have been read.
pub fn check_input(arguments: &str, parsed: Option<Json>, id: &str, name: &str) -> (r: Result<
    Json,
    Error,
>)
    ensures
        outcome(r) == checked_input(arguments@, parsed.deep_view(), id@, name@),
{
    match parsed {
        Some(input) => if input.as_object().is_some() {
            Ok(input)
        } else {
            Err(refuse_arguments(id, name, "valid JSON but not an object", arguments))
        },
        None => Err(refuse_arguments(id, name, "not JSON", arguments)),
    }
}

fn render_tool_input(arguments: &RawJson, id: &str, name: &str) -> (r: Result<Json, Error>)
    ensures
        outcome(r) == checked_input(arguments@, raw_value(arguments@), id@, name@),
{
    check_input(arguments.as_str(), arguments.parse(), id, name)
}

/// The name of a block with no form here: its type, else its whole text.
pub open spec fn type_of_block(value: JsonView) -> Seq<char> {
    match value.get("type"@) {
        Some(JsonView::String(tag)) => tag,
        _ => text_of_json(value),
    }
}

fn block_type_of(value: &Json) -> (r: String)
    ensures
        r@ == type_of_block(value@),
{
    match value.get("type") {
        Some(Json::String(tag)) => tag.clone(),
        _ => value.to_text(),
    }
}

/// A block of another protocol.
pub open spec fn foreign_block(value: JsonView) -> ErrorView {
    ErrorView::InvalidInput(
        "a '"@ + type_of_block(value)
            + "' content block has no Anthropic form: it came from another protocol and Anthropic would reject it"@,
    )
}

/// A block of a request, on the wire: nothing for what is left out, or what
/// cannot be rendered.
pub open spec fn checked_block(block: ContentBlockView) -> Result<Option<JsonView>, ErrorView>
    decreases block, 1nat,
{
    match block {
        ContentBlockView::Text { text, cache } => Ok(Some(text_block(text, cache))),
        ContentBlockView::Image { source, cache, .. } => match checked_source(source) {
            Ok(source) => Ok(Some(image_block(source, cache))),
            Err(error) => Err(error),
        },
        ContentBlockView::Document { source, title, cache } => match checked_source(source) {
            Ok(source) => Ok(Some(document_block(source, title, cache))),
            Err(error) => Err(error),
        },
        ContentBlockView::ToolCall { id, name, arguments } => match checked_input(
            arguments,
            raw_value(arguments),
            id,
            name,
        ) {
            Ok(input) => Ok(Some(tool_use_block(id, name, input))),
            Err(error) => Err(error),
        },
        ContentBlockView::ToolResult { call_id, content, is_error } => match sole_text(content) {
            Some(text) => Ok(Some(tool_result_block(call_id, string(text), is_error))),
            None => match checked_blocks(content) {
                Ok(blocks) => Ok(
                    Some(tool_result_block(call_id, JsonView::Array(blocks), is_error)),
                ),
                Err(error) => Err(error),
            },
        },
        ContentBlockView::Reasoning { detail, provenance, .. } => Ok(
            rendered_reasoning(detail, provenance),
        ),
        ContentBlockView::Unknown(value) => Err(foreign_block(value)),
        ContentBlockView::Audio { .. } => Ok(None),
    }
}

/// Several blocks of a request, on the wire, or the first that cannot be
/// rendered.
pub open spec fn checked_blocks(blocks: Seq<ContentBlockView>) -> Result<Seq<JsonView>, ErrorView>
    decreases blocks, blocks.len() + 1,
{
    checked_up_to(blocks, blocks.len())
}

/// The first `n` blocks of a request, on the wire.
pub open spec fn checked_up_to(blocks: Seq<ContentBlockView>, n: nat) -> Result<
    Seq<JsonView>,
    ErrorView,
>
    decreases blocks, n,
{
    if n == 0 || n > blocks.len() {
        Ok(Seq::empty())
    } else {
        match checked_up_to(blocks, (n - 1) as nat) {
            Ok(before) => match checked_block(blocks[n - 1]) {
                Ok(Some(block)) => Ok(before.push(block)),
                Ok(None) => Ok(before),
                Err(error) => Err(error),
            },
            Err(error) => Err(error),
        }
    }
}

fn render_block(block: &ContentBlock) -> (r: Result<Option<Json>, Error>)
    ensures
        outcome(r) == checked_block(block@),
    decreases block,
{
    match block {
        ContentBlock::Text { text, cache } => Ok(Some(render_text(text, cache))),
        ContentBlock::Image { source, cache, .. } => match check_source(source) {
            Ok(source) => Ok(Some(render_image(source, cache))),
            Err(error) => Err(error),
        },
        ContentBlock::Document { source, title, cache } => match check_source(source) {
            Ok(source) => Ok(Some(render_document(source, title, cache))),
            Err(error) => Err(error),
        },
        ContentBlock::ToolCall { id, name, arguments } => match render_tool_input(
            arguments,
            id.as_str(),
            name.as_str(),
        ) {
            Ok(input) => Ok(Some(render_tool_use(id, name, input))),
            Err(error) => Err(error),
        },
        ContentBlock::ToolResult { call_id, content, is_error } => match read_sole_text(content) {
            Some(text) => Ok(
                Some(render_tool_result(call_id, Json::String(text), *is_error)),
            ),
            None => match render_blocks(content) {
                Ok(blocks) => Ok(
                    Some(render_tool_result(call_id, Json::Array(blocks), *is_error)),
                ),
                Err(error) => Err(error),
            },
        },
        ContentBlock::Reasoning { detail, provenance, .. } => Ok(
            render_reasoning(detail, provenance),
        ),
        ContentBlock::Unknown(value) => {
            let tag = block_type_of(value);
            Err(
                Error::InvalidInput(
                    join3(
                        "a '",
                        tag.as_str(),
                        "' content block has no Anthropic form: it came from another protocol and Anthropic would reject it",
                    ),
                ),
            )
        },
        ContentBlock::Audio { .. } => Ok(None),
    }
}

/// The value of what rendering several blocks gives.
pub open spec fn items_outcome(result: Result<Vec<Json>, Error>) -> Result<
    Seq<JsonView>,
    ErrorView,
> {
    match result {
        Ok(items) => Ok(models(items@)),
        Err(error) => Err(error@),
    }
}

/// Once a block cannot be rendered, no more blocks are.
proof fn lemma_checked_stops(blocks: Seq<ContentBlockView>, n: nat, m: nat)
    requires
        n <= m <= blocks.len(),
        checked_up_to(blocks, n) is Err,
    ensures
        checked_up_to(blocks, m) == checked_up_to(blocks, n),
    decreases m,
{
    if n < m {
        lemma_checked_stops(blocks, n, (m - 1) as nat);
    }
}

fn render_blocks(blocks: &Vec<ContentBlock>) -> (r: Result<Vec<Json>, Error>)
    ensures
        items_outcome(r) == checked_blocks(block_models(blocks@)),
    decreases blocks,
{
    let ghost all = block_models(blocks@);
    let mut out: Vec<Json> = Vec::new();
    assert(models(out@) =~= Seq::<JsonView>::empty());
    for i in 0..blocks.len()
        invariant
            all == block_models(blocks@),
            checked_up_to(all, i as nat) == Ok::<Seq<JsonView>, ErrorView>(models(out@)),
    {
        assert(all[i as int] == blocks@[i as int]@);
        let ghost before = out@;
        match render_block(&blocks[i]) {
            Ok(Some(block)) => {
                out.push(block);
                assert(models(out@) =~= models(before).push(out@.last()@));
            },
            Ok(None) => {},
            Err(error) => {
                proof {
                    lemma_checked_stops(all, (i + 1) as nat, all.len());
                }
                return Err(error);
            },
        }
    }
    Ok(out)
}

/// The blocks of several messages, on the wire.
pub open spec fn checked_messages(messages: Seq<MessageView>) -> Result<Seq<JsonView>, ErrorView>
    decreases messages.len(),
{
    if messages.len() == 0 {
        Ok(Seq::empty())
    } else {
        match checked_messages(messages.drop_last()) {
            Ok(before) => match checked_blocks(messages.last().content) {
                Ok(blocks) => Ok(before + blocks),
                Err(error) => Err(error),
            },
            Err(error) => Err(error),
        }
    }
}

proof fn lemma_checked_messages_stops(messages: Seq<MessageView>, n: int)
    requires
        0 <= n <= messages.len(),
        checked_messages(messages.take(n)) is Err,
    ensures
        checked_messages(messages) == checked_messages(messages.take(n)),
    decreases messages.len(),
{
    if n == messages.len() {
        assert(messages.take(n) =~= messages);
    } else {
        let rest = messages.drop_last();
        assert(rest.take(n) =~= messages.take(n));
        lemma_checked_messages_stops(rest, n);
    }
}

fn render_run(messages: &Vec<Message>, from: usize, to: usize) -> (r: Result<Vec<Json>, Error>)
    requires
        from <= to <= messages@.len(),
    ensures
        items_outcome(r) == checked_messages(
            messages.deep_view().subrange(from as int, to as int),
        ),
{
    let ghost all = messages.deep_view().subrange(from as int, to as int);
    let mut out: Vec<Json> = Vec::new();
    assert(models(out@) =~= Seq::<JsonView>::empty());
    assert(all.take(0) =~= Seq::<MessageView>::empty());
    for i in from..to
        invariant
            from <= to <= messages@.len(),
            all == messages.deep_view().subrange(from as int, to as int),
            checked_messages(all.take(i - from)) == Ok::<Seq<JsonView>, ErrorView>(models(out@)),
    {
        let ghost here = all.take(i - from + 1);
        assert(here.drop_last() =~= all.take(i - from));
        assert(here.last() == messages@[i as int]@);
        let ghost before = out@;
        match render_blocks(&messages[i].content) {
            Ok(blocks) => {
                let mut more = blocks;
                let ghost added = more@;
                out.append(&mut more);
                assert(models(out@) =~= models(before) + models(added));
            },
            Err(error) => {
                proof {
                    lemma_checked_messages_stops(all, i - from + 1);
                }
                return Err(error);
            },
        }
    }
    assert(all.take(to - from) =~= all);
    Ok(out)
}

/// The blocks of several messages, in a row.
pub open spec fn flat(messages: Seq<MessageView>) -> Seq<ContentBlockView>
    decreases messages.len(),
{
    if messages.len() == 0 {
        Seq::empty()
    } else {
        flat(messages.drop_last()) + messages.last().content
    }
}

/// What is known of the blocks in a row: how many, up to two, and the text of a
/// single one.
fn survey(messages: &Vec<Message>, to: usize) -> (r: (u8, Option<String>))
    requires
        to <= messages@.len(),
    ensures
        ({
            let blocks = flat(messages.deep_view().take(to as int));
            &&& r.0 == (if blocks.len() > 2 {
                2
            } else {
                blocks.len()
            })
            &&& r.1.deep_view() == sole_text(blocks)
        }),
{
    let ghost all = messages.deep_view();
    let mut n: u8 = 0;
    let mut text: Option<String> = None;
    assert(all.take(0) =~= Seq::<MessageView>::empty());
    for i in 0..to
        invariant
            to <= messages@.len(),
            all == messages.deep_view(),
            n == (if flat(all.take(i as int)).len() > 2 {
                2
            } else {
                flat(all.take(i as int)).len()
            }),
            text.deep_view() == sole_text(flat(all.take(i as int))),
    {
        let ghost here = all.take(i + 1);
        let ghost before = flat(all.take(i as int));
        assert(here.drop_last() =~= all.take(i as int));
        assert(here.last() == messages@[i as int]@);
        let blocks = &messages[i].content;
        let ghost content = block_models(blocks@);
        assert(flat(here) == before + content);
        if blocks.len() > 0 {
            if n == 0 {
                assert(before + content =~= content);
                text = read_sole_text(blocks);
                n = if blocks.len() > 1 {
                    2
                } else {
                    1
                };
            } else {
                text = None;
                n = 2;
            }
        } else {
            assert(before + content =~= before);
        }
    }
    (n, text)
}

/// The system prompt on the wire: none, a bare text, or blocks.
pub open spec fn rendered_system(messages: Seq<MessageView>) -> Result<
    Option<JsonView>,
    ErrorView,
> {
    let blocks = flat(messages);
    if blocks.len() == 0 {
        Ok(None)
    } else {
        match sole_text(blocks) {
            Some(text) => Ok(Some(string(text))),
            None => match checked_messages(messages) {
                Ok(blocks) => Ok(Some(JsonView::Array(blocks))),
                Err(error) => Err(error),
            },
        }
    }
}

fn render_system(messages: &Vec<Message>, to: usize) -> (r: Result<Option<Json>, Error>)
    requires
        to <= messages@.len(),
    ensures
        outcome(r) == rendered_system(messages.deep_view().take(to as int)),
{
    let (n, text) = survey(messages, to);
    if n == 0 {
        return Ok(None);
    }
    if let Some(text) = text {
        return Ok(Some(Json::String(text)));
    }
    assert(messages.deep_view().subrange(0, to as int) =~= messages.deep_view().take(to as int));
    match render_run(messages, 0, to) {
        Ok(blocks) => Ok(Some(Json::Array(blocks))),
        Err(error) => Err(error),
    }
}

/// The text of a single wire block that holds nothing else.
pub open spec fn bare_text(blocks: Seq<JsonView>) -> Option<Seq<char>> {
    if blocks.len() == 1 && blocks[0].str_at("type"@) == Some("text"@)
        && blocks[0].fields().len() == 2 {
        blocks[0].str_at("text"@)
    } else {
        None
    }
}

/// The content of a turn: a bare text where that is all, else blocks.
pub open spec fn rendered_content(blocks: Seq<JsonView>) -> JsonView {
    match bare_text(blocks) {
        Some(text) => string(text),
        None => JsonView::Array(blocks),
    }
}

fn render_content(blocks: Vec<Json>) -> (r: Json)
    ensures
        r@ == rendered_content(models(blocks@)),
{
    if blocks.len() == 1 {
        assert(models(blocks@)[0] == blocks@[0]@);
        let typed = match blocks[0].str_at("type") {
            Some(tag) => same_text(tag.as_str(), "text"),
            None => false,
        };
        let bare = match &blocks[0] {
            Json::Object(fields) => fields.len() == 2,
            _ => false,
        };
        if typed && bare {
            if let Some(text) = blocks[0].str_at("text") {
                return Json::String(text);
            }
        }
    }
    Json::Array(blocks)
}

/// What a message keeps for a turn.
pub open spec fn turn_fields(message: MessageView, provider: Seq<char>) -> FieldsView {
    merged(Protocol::Anthropic, message.ext, provider)
}

/// A message that keeps the content of its turn as it came is a turn by itself.
pub open spec fn whole_turn(message: MessageView, provider: Seq<char>) -> bool {
    find(turn_fields(message, provider), "content"@) is Some
}

fn describes_a_whole_turn(message: &Message, provider: &str) -> (r: bool)
    ensures
        r == whole_turn(message@, provider@),
{
    let fields = merged_ext(Protocol::Anthropic, &message.ext, provider);
    fields.has("content")
}

/// A turn on the wire.
pub open spec fn wire_turn(role: Seq<char>, content: JsonView, rest: FieldsView) -> JsonView {
    JsonView::Object(put(put(rest, "role"@, string(role)), "content"@, content))
}

/// A run of messages as one turn. What a single message came with is what it
/// leaves with.
pub open spec fn rendered_turn(run: Seq<MessageView>, provider: Seq<char>) -> Result<
    JsonView,
    ErrorView,
> {
    let fields = turn_fields(run[0], provider);
    let role = match text_at(fields, "role"@) {
        Some(raw) => raw,
        None => role_word(run[0].role),
    };
    let rest = without(without(fields, "role"@), "content"@);
    if run.len() == 1 && present(fields, "content"@, |v: JsonView| content_shape(v)) {
        Ok(wire_turn(role, find(fields, "content"@)->0, rest))
    } else {
        match checked_messages(run) {
            Ok(blocks) => Ok(wire_turn(role, rendered_content(blocks), rest)),
            Err(error) => Err(error),
        }
    }
}

fn render_turn(messages: &Vec<Message>, from: usize, to: usize, provider: &str) -> (r: Result<
    Json,
    Error,
>)
    requires
        from < to <= messages@.len(),
    ensures
        outcome(r) == rendered_turn(
            messages.deep_view().subrange(from as int, to as int),
            provider@,
        ),
{
    let ghost run = messages.deep_view().subrange(from as int, to as int);
    assert(run[0] == messages@[from as int]@);
    let first = &messages[from];
    let mut fields = merged_ext(Protocol::Anthropic, &first.ext, provider);
    let role = match take_string(&fields, "role") {
        Some(raw) => raw,
        None => role_to_wire(first.role).to_owned(),
    };
    let retained: Option<Json> = match fields.get("content") {
        Some(content) => if is_content(content) {
            Some(content.clone())
        } else {
            None
        },
        None => None,
    };
    fields.remove("role");
    fields.remove("content");
    if to - from == 1 {
        if let Some(content) = retained {
            fields.put("role", Json::String(role));
            fields.put("content", content);
            return Ok(Json::Object(fields));
        }
    }
    match render_run(messages, from, to) {
        Ok(blocks) => {
            let content = render_content(blocks);
            fields.put("role", Json::String(role));
            fields.put("content", content);
            Ok(Json::Object(fields))
        },
        Err(error) => Err(error),
    }
}

/// A message that is part of a turn of tool results.
pub open spec fn joins_results(message: MessageView, provider: Seq<char>) -> bool {
    message.role == Role::Tool && !whole_turn(message, provider)
}

/// How many of the first messages are part of a turn of tool results.
pub open spec fn results_run(messages: Seq<MessageView>, provider: Seq<char>) -> nat
    decreases messages.len(),
{
    if messages.len() > 0 && joins_results(messages[0], provider) {
        1 + results_run(messages.drop_first(), provider)
    } else {
        0
    }
}

/// How many of the first messages make one turn: a run of tool results, or one
/// message.
pub open spec fn turn_len(messages: Seq<MessageView>, provider: Seq<char>) -> nat {
    if joins_results(messages[0], provider) {
        results_run(messages, provider)
    } else {
        1
    }
}

/// A run is no longer than the messages there are.
pub proof fn lemma_results_run(messages: Seq<MessageView>, provider: Seq<char>)
    ensures
        results_run(messages, provider) <= messages.len(),
    decreases messages.len(),
{
    if messages.len() > 0 && joins_results(messages[0], provider) {
        lemma_results_run(messages.drop_first(), provider);
    }
}

/// The turns of a conversation, or the first that cannot be rendered.
pub open spec fn rendered_turns(messages: Seq<MessageView>, provider: Seq<char>) -> Result<
    Seq<JsonView>,
    ErrorView,
>
    decreases messages.len(),
{
    if messages.len() == 0 {
        Ok(Seq::empty())
    } else {
        proof {
            lemma_results_run(messages, provider);
        }
        let n = turn_len(messages, provider) as int;
        match rendered_turn(messages.take(n), provider) {
            Ok(turn) => match rendered_turns(messages.skip(n), provider) {
                Ok(rest) => Ok(seq![turn] + rest),
                Err(error) => Err(error),
            },
            Err(error) => Err(error),
        }
    }
}

/// What rendering gives, with turns before it.
pub open spec fn after(before: Seq<JsonView>, result: Result<Seq<JsonView>, ErrorView>) -> Result<
    Seq<JsonView>,
    ErrorView,
> {
    match result {
        Ok(rest) => Ok(before + rest),
        Err(error) => Err(error),
    }
}

fn run_length(messages: &Vec<Message>, from: usize, provider: &str) -> (r: usize)
    requires
        from < messages@.len(),
    ensures
        r == turn_len(messages.deep_view().skip(from as int), provider@),
        1 <= r <= messages@.len() - from,
{
    let ghost rest = messages.deep_view().skip(from as int);
    let n: usize = messages.len();
    assert(rest[0] == messages@[from as int]@);
    proof {
        lemma_results_run(rest, provider@);
    }
    let joins = match messages[from].role {
        Role::Tool => !describes_a_whole_turn(&messages[from], provider),
        _ => false,
    };
    if !joins {
        return 1;
    }
    let mut i: usize = from;
    assert(rest.skip(0) =~= rest);
    while i < n
        invariant
            from <= i <= n == messages@.len(),
            rest == messages.deep_view().skip(from as int),
            from < n,
            joins_results(rest[0], provider@),
            results_run(rest, provider@) == (i - from) + results_run(
                rest.skip(i - from),
                provider@,
            ),
        decreases n - i,
    {
        let ghost here = rest.skip(i - from);
        assert(here[0] == messages@[i as int]@);
        assert(here.drop_first() =~= rest.skip(i - from + 1));
        let joins = match messages[i].role {
            Role::Tool => !describes_a_whole_turn(&messages[i], provider),
            _ => false,
        };
        if !joins {
            return i - from;
        }
        i = i + 1;
    }
    n - from
}

fn render_turns(messages: &Vec<Message>, from: usize, provider: &str) -> (r: Result<
    Vec<Json>,
    Error,
>)
    requires
        from <= messages@.len(),
    ensures
        items_outcome(r) == rendered_turns(messages.deep_view().skip(from as int), provider@),
{
    let ghost all = messages.deep_view();
    let n: usize = messages.len();
    let mut out: Vec<Json> = Vec::new();
    let mut i: usize = from;
    assert(models(out@) =~= Seq::<JsonView>::empty());
    proof {
        let whole = rendered_turns(all.skip(from as int), provider@);
        if whole is Ok {
            assert(Seq::<JsonView>::empty() + whole->Ok_0 =~= whole->Ok_0);
        }
    }
    while i < n
        invariant
            from <= i <= n == messages@.len(),
            all == messages.deep_view(),
            rendered_turns(all.skip(from as int), provider@) == after(
                models(out@),
                rendered_turns(all.skip(i as int), provider@),
            ),
        decreases n - i,
    {
        let ghost here = all.skip(i as int);
        let run: usize = run_length(messages, i, provider);
        assert(here.take(run as int) =~= all.subrange(i as int, i + run));
        assert(here.skip(run as int) =~= all.skip(i + run));
        let ghost before = out@;
        match render_turn(messages, i, i + run, provider) {
            Ok(turn) => {
                out.push(turn);
                proof {
                    assert(models(out@) =~= models(before).push(out@.last()@));
                    let rest = rendered_turns(all.skip(i + run), provider@);
                    if rest is Ok {
                        assert(models(before) + (seq![out@.last()@] + rest->Ok_0) =~= models(out@)
                            + rest->Ok_0);
                    }
                }
            },
            Err(error) => {
                return Err(error);
            },
        }
        i = i + run;
    }
    assert(models(out@) + Seq::<JsonView>::empty() =~= models(out@));
    Ok(out)
}

/// How many of the first messages are the system's.
pub open spec fn leading(messages: Seq<MessageView>) -> nat
    decreases messages.len(),
{
    if messages.len() > 0 && messages[0].role == Role::System {
        1 + leading(messages.drop_first())
    } else {
        0
    }
}

/// A message of the system's comes after the conversation has started.
pub open spec fn late_system(messages: Seq<MessageView>) -> bool {
    exists|i: int|
        leading(messages) <= i < messages.len() && (#[trigger] messages[i]).role == Role::System
}

/// The system prompt and the turns of a conversation. A prompt that is rendered
/// as it came is not made again.
pub open spec fn rendered_conversation(
    messages: Seq<MessageView>,
    provider: Seq<char>,
    prompted: bool,
) -> Result<(Option<JsonView>, Seq<JsonView>), ErrorView> {
    let n = leading(messages) as int;
    if late_system(messages) {
        Err(
            ErrorView::NotImplemented(
                "a system message after the conversation has started on the anthropic renderer"@,
            ),
        )
    } else {
        match rendered_turns(messages.skip(n), provider) {
            Ok(turns) => if prompted {
                Ok((None, turns))
            } else {
                match rendered_system(messages.take(n)) {
                    Ok(system) => Ok((system, turns)),
                    Err(error) => Err(error),
                }
            },
            Err(error) => Err(error),
        }
    }
}

fn count_leading(messages: &Vec<Message>) -> (r: usize)
    ensures
        r == leading(messages.deep_view()),
        r <= messages@.len(),
{
    let ghost all = messages.deep_view();
    let n: usize = messages.len();
    let mut i: usize = 0;
    assert(all.skip(0) =~= all);
    while i < n
        invariant
            i <= n == messages@.len(),
            all == messages.deep_view(),
            leading(all) == i + leading(all.skip(i as int)),
        decreases n - i,
    {
        assert(all.skip(i as int)[0] == messages@[i as int]@);
        assert(all.skip(i as int).drop_first() =~= all.skip(i + 1));
        if messages[i].role != Role::System {
            return i;
        }
        i = i + 1;
    }
    n
}

fn render_messages(messages: &Vec<Message>, provider: &str, prompted: bool) -> (r: Result<
    (Option<Json>, Vec<Json>),
    Error,
>)
    ensures
        match r {
            Ok((system, turns)) => rendered_conversation(
                messages.deep_view(),
                provider@,
                prompted,
            ) == Ok::<(Option<JsonView>, Seq<JsonView>), ErrorView>(
                (system.deep_view(), models(turns@)),
            ),
            Err(error) => rendered_conversation(messages.deep_view(), provider@, prompted) == Err::<
                (Option<JsonView>, Seq<JsonView>),
                ErrorView,
            >(error@),
        },
{
    let ghost all = messages.deep_view();
    let start: usize = count_leading(messages);
    for i in start..messages.len()
        invariant
            all == messages.deep_view(),
            start == leading(all),
            forall|k: int| start <= k < i ==> (#[trigger] all[k]).role != Role::System,
    {
        if messages[i].role == Role::System {
            assert(all[i as int].role == Role::System);
            return Err(
                Error::NotImplemented(
                    "a system message after the conversation has started on the anthropic renderer".to_owned(),
                ),
            );
        }
    }
    assert(!late_system(all));
    let turns = match render_turns(messages, start, provider) {
        Ok(turns) => turns,
        Err(error) => {
            return Err(error);
        },
    };
    if prompted {
        return Ok((None, turns));
    }
    match render_system(messages, start) {
        Ok(system) => Ok((system, turns)),
        Err(error) => Err(error),
    }
}

/// A tool on the wire.
pub open spec fn rendered_tool(tool: ToolDefView) -> JsonView {
    let f = assigned(
        fields1("name"@, string(tool.name)),
        "description"@,
        opt_string(tool.description),
    );
    let f = put(f, "input_schema"@, tool.input_schema);
    let f = assigned(f, "strict"@, opt_bool(tool.strict));
    JsonView::Object(assigned(f, "cache_control"@, control_field(tool.cache)))
}

/// A tool without a schema has no form on the wire.
pub open spec fn no_schema() -> ErrorView {
    ErrorView::NotImplemented("a tool with no arguments schema on the anthropic renderer"@)
}

fn render_tool(tool: &ToolDef) -> (r: Result<Json, Error>)
    ensures
        outcome(r) == (if tool@.input_schema is Null {
            Err(no_schema())
        } else {
            Ok(rendered_tool(tool@))
        }),
{
    if tool.input_schema.is_null() {
        return Err(
            Error::NotImplemented(
                "a tool with no arguments schema on the anthropic renderer".to_owned(),
            ),
        );
    }
    let mut fields = object1("name", Json::String(tool.name.clone())).fields();
    fields.set("description", json_string(&tool.description));
    fields.put("input_schema", tool.input_schema.clone());
    fields.set("strict", json_bool(tool.strict));
    fields.set("cache_control", control_of(&tool.cache));
    Ok(Json::Object(fields))
}

/// The tools on the wire.
pub open spec fn rendered_tools(tools: Seq<ToolDefView>) -> Seq<JsonView> {
    tools.map_values(|tool: ToolDefView| rendered_tool(tool))
}

fn render_tools(tools: &Vec<ToolDef>) -> (r: Result<Json, Error>)
    ensures
        outcome(r) == (if lacks_a_schema(tools.deep_view()) {
            Err(no_schema())
        } else {
            Ok(JsonView::Array(rendered_tools(tools.deep_view())))
        }),
{
    let ghost all = tools.deep_view();
    let mut out: Vec<Json> = Vec::new();
    for i in 0..tools.len()
        invariant
            all == tools.deep_view(),
            out.len() == i,
            forall|k: int|
                0 <= k < i ==> out@[k]@ == rendered_tool(#[trigger] all[k])
                    && !(all[k].input_schema is Null),
    {
        match render_tool(&tools[i]) {
            Ok(tool) => {
                out.push(tool);
            },
            Err(error) => {
                assert(all[i as int].input_schema is Null);
                return Err(error);
            },
        }
    }
    assert(models(out@) =~= rendered_tools(all));
    Ok(Json::Array(out))
}

/// The fields of a choice of tools.
pub open spec fn choice_fields(choice: ToolChoiceView) -> FieldsView {
    match choice {
        ToolChoiceView::Auto => fields1("type"@, string("auto"@)),
        ToolChoiceView::Never => fields1("type"@, string("none"@)),
        ToolChoiceView::Required => fields1("type"@, string("any"@)),
        ToolChoiceView::Tool { name } => fields2(
            "type"@,
            string("tool"@),
            "name"@,
            string(name),
        ),
    }
}

/// A choice of tools on the wire. That several may not be called at once is said
/// there, and an open choice is made to say it where none was; a choice to call
/// none has nothing to say of it.
pub open spec fn rendered_tool_choice(
    choice: Option<ToolChoiceView>,
    parallel: Option<bool>,
) -> Option<JsonView> {
    let single = parallel == Some(false);
    match choice {
        Some(choice) => Some(
            JsonView::Object(
                if single && !(choice is Never) {
                    put(
                        choice_fields(choice),
                        "disable_parallel_tool_use"@,
                        JsonView::Bool(true),
                    )
                } else {
                    choice_fields(choice)
                },
            ),
        ),
        None => if single {
            Some(
                JsonView::Object(
                    put(
                        choice_fields(ToolChoiceView::Auto),
                        "disable_parallel_tool_use"@,
                        JsonView::Bool(true),
                    ),
                ),
            )
        } else {
            None
        },
    }
}

fn render_tool_choice(choice: &Option<ToolChoice>, parallel: Option<bool>) -> (r: Option<Json>)
    ensures
        r.deep_view() == rendered_tool_choice(choice.deep_view(), parallel),
{
    let single = match parallel {
        Some(parallel) => !parallel,
        None => false,
    };
    let (mut fields, open) = match choice {
        Some(ToolChoice::Auto) => (object1("type", Json::text("auto")).fields(), true),
        Some(ToolChoice::Never) => (object1("type", Json::text("none")).fields(), false),
        Some(ToolChoice::Required) => (object1("type", Json::text("any")).fields(), true),
        Some(ToolChoice::Tool { name }) => (
            object2("type", Json::text("tool"), "name", Json::String(name.clone())).fields(),
            true,
        ),
        None => {
            if !single {
                return None;
            }
            (object1("type", Json::text("auto")).fields(), true)
        },
    };
    if single && open {
        fields.put("disable_parallel_tool_use", Json::Bool(true));
    }
    Some(Json::Object(fields))
}

/// How reasoning is to be shown, where that is said.
pub open spec fn display_of(exclude: Option<bool>) -> Option<JsonView> {
    match exclude {
        Some(exclude) => Some(
            string(
                if exclude {
                    "omitted"@
                } else {
                    "summarized"@
                },
            ),
        ),
        None => None,
    }
}

/// The mode of thinking on the wire.
pub open spec fn rendered_thinking(reasoning: ReasoningConfigView) -> Option<JsonView> {
    let display = display_of(reasoning.exclude);
    match arm_of(reasoning) {
        Some(Arm::Enabled(budget)) => Some(
            JsonView::Object(
                assigned(
                    fields2(
                        "type"@,
                        string("enabled"@),
                        "budget_tokens"@,
                        count(budget as u64),
                    ),
                    "display"@,
                    display,
                ),
            ),
        ),
        Some(Arm::Adaptive) => Some(
            JsonView::Object(
                assigned(fields1("type"@, string("adaptive"@)), "display"@, display),
            ),
        ),
        Some(Arm::Disabled) => Some(
            JsonView::Object(fields1("type"@, string("disabled"@))),
        ),
        None => None,
    }
}

/// Renders the mode of thinking.
pub fn render_thinking(reasoning: &ReasoningConfig) -> (r: Option<Json>)
    ensures
        r.deep_view() == rendered_thinking(reasoning@),
{
    let display = match reasoning.exclude {
        Some(exclude) => Some(
            Json::text(
                if exclude {
                    "omitted"
                } else {
                    "summarized"
                },
            ),
        ),
        None => None,
    };
    match thinking_arm(reasoning) {
        Some(Arm::Enabled(budget)) => {
            let mut fields = object2(
                "type",
                Json::text("enabled"),
                "budget_tokens",
                Json::count(budget as u64),
            ).fields();
            fields.set("display", display);
            Some(Json::Object(fields))
        },
        Some(Arm::Adaptive) => {
            let mut fields = object1("type", Json::text("adaptive")).fields();
            fields.set("display", display);
            Some(Json::Object(fields))
        },
        Some(Arm::Disabled) => Some(object1("type", Json::text("disabled"))),
        None => None,
    }
}

/// The form of reply on the wire.
pub open spec fn rendered_output_format(format: ResponseFormatView) -> Result<
    Option<JsonView>,
    ErrorView,
> {
    match format {
        ResponseFormatView::Text => Ok(None),
        ResponseFormatView::JsonObject => Err(
            ErrorView::NotImplemented(
                "a schema-less json_object response format on the anthropic renderer"@,
            ),
        ),
        ResponseFormatView::JsonSchema { schema, .. } => Ok(
            Some(
                JsonView::Object(
                    fields2("type"@, string("json_schema"@), "schema"@, schema),
                ),
            ),
        ),
    }
}

fn render_output_format(format: &ResponseFormat) -> (r: Result<Option<Json>, Error>)
    ensures
        outcome(r) == rendered_output_format(format@),
{
    match format {
        ResponseFormat::Text => Ok(None),
        ResponseFormat::JsonObject => Err(
            Error::NotImplemented(
                "a schema-less json_object response format on the anthropic renderer".to_owned(),
            ),
        ),
        ResponseFormat::JsonSchema { schema, .. } => Ok(
            Some(object2("type", Json::text("json_schema"), "schema", schema.clone())),
        ),
    }
}

/// The configuration of the output: as it came, else from the form of reply and
/// the effort.
pub open spec fn rendered_output_config(request: ChatRequestView, kept: FieldsView) -> Result<
    Option<JsonView>,
    ErrorView,
> {
    if present(kept, "output_config"@, |v: JsonView| output_config_shape(v)) {
        Ok(find(kept, "output_config"@))
    } else {
        let effort = match request.reasoning {
            Some(reasoning) => reasoning.effort,
            None => None,
        };
        let format = match request.response_format {
            Some(format) => rendered_output_format(format),
            None => Ok(None),
        };
        match format {
            Ok(format) => if format is None && effort is None {
                Ok(None)
            } else {
                Ok(
                    Some(
                        JsonView::Object(
                            assigned(
                                assigned(no_fields(), "format"@, format),
                                "effort"@,
                                opt_string(effort),
                            ),
                        ),
                    ),
                )
            },
            Err(error) => Err(error),
        }
    }
}

fn render_output_config(request: &ChatRequest, kept: &Fields) -> (r: Result<Option<Json>, Error>)
    ensures
        outcome(r) == rendered_output_config(request@, kept@),
{
    if let Some(config) = kept.get("output_config") {
        if is_output_config(config) {
            return Ok(Some(config.clone()));
        }
    }
    let effort = match &request.reasoning {
        Some(reasoning) => json_string(&reasoning.effort),
        None => None,
    };
    let format = match &request.response_format {
        Some(format) => match render_output_format(format) {
            Ok(format) => format,
            Err(error) => {
                return Err(error);
            },
        },
        None => None,
    };
    if format.is_none() && effort.is_none() {
        return Ok(None);
    }
    let mut fields = Fields::new();
    fields.set("format", format);
    fields.set("effort", effort);
    Ok(Some(Json::Object(fields)))
}

/// The limit on the reply: the caller's, else the roster's. None is ever made up.
pub open spec fn resolved_limit(request: ChatRequestView, ceiling: Option<u32>) -> Option<u32> {
    match request.params.max_tokens {
        Some(n) => Some(n),
        None => ceiling,
    }
}

/// No limit is known, and Anthropic requires one.
pub open spec fn needs_a_limit(model: Seq<char>) -> ErrorView {
    ErrorView::InvalidInput(
        "'"@ + model
            + "' needs a max_tokens: Anthropic requires one and the roster documents no output ceiling for this model"@,
    )
}

fn resolve_max_tokens(request: &ChatRequest, ceiling: Option<u32>) -> (r: Result<u32, Error>)
    ensures
        outcome(r) == (match resolved_limit(request@, ceiling) {
            Some(limit) => Ok(limit),
            None => Err(needs_a_limit(request@.model)),
        }),
{
    if let Some(n) = request.params.max_tokens {
        return Ok(n);
    }
    match ceiling {
        Some(n) => Ok(n),
        None => Err(
            Error::InvalidInput(
                join3(
                    "'",
                    request.model.as_str(),
                    "' needs a max_tokens: Anthropic requires one and the roster documents no output ceiling for this model",
                ),
            ),
        ),
    }
}

/// The fields with the system prompt, the tools and how to sample.
pub open spec fn with_prompt(
    request: ChatRequestView,
    system: Option<JsonView>,
    fields: FieldsView,
) -> FieldsView {
    let f = settled(
        fields,
        "tools"@,
        present(fields, "tools"@, |v: JsonView| v is Array),
        if request.tools.len() == 0 {
            None
        } else {
            Some(JsonView::Array(rendered_tools(request.tools)))
        },
    );
    let f = settled(
        f,
        "system"@,
        present(f, "system"@, |v: JsonView| content_shape(v)),
        system,
    );
    let f = assigned(f, "temperature"@, opt_number(request.params.temperature));
    let f = assigned(f, "top_p"@, opt_number(request.params.top_p));
    let f = settled(f, "top_k"@, find(f, "top_k"@) is Some, opt_u32(request.params.top_k));
    settled(
        f,
        "stop_sequences"@,
        present(f, "stop_sequences"@, |v: JsonView| strings_shape(v)),
        if request.params.stop.len() == 0 {
            None
        } else {
            Some(JsonView::Array(strings(request.params.stop)))
        },
    )
}

/// The fields with the choice of tools, the mode of thinking and the form of the
/// output.
pub open spec fn with_form(
    request: ChatRequestView,
    config: Option<JsonView>,
    fields: FieldsView,
) -> FieldsView {
    let f = settled(
        fields,
        "tool_choice"@,
        find(fields, "tool_choice"@) is Some,
        rendered_tool_choice(request.tool_choice, request.parallel_tool_calls),
    );
    let f = settled(
        f,
        "thinking"@,
        find(f, "thinking"@) is Some,
        match request.reasoning {
            Some(reasoning) => rendered_thinking(reasoning),
            None => None,
        },
    );
    assigned(f, "output_config"@, config)
}

/// The fields with the model, the limit, the turns and whether to stream.
pub open spec fn with_head(
    request: ChatRequestView,
    limit: u32,
    turns: Seq<JsonView>,
    fields: FieldsView,
) -> FieldsView {
    let f = put(fields, "model"@, string(request.model));
    let f = put(f, "max_tokens"@, count(limit as u64));
    let f = put(f, "messages"@, JsonView::Array(turns));
    assigned(
        f,
        "stream"@,
        if request.stream {
            Some(JsonView::Bool(true))
        } else {
            None
        },
    )
}

/// The request on the wire, or why there is none.
pub open spec fn rendered_request(
    request: ChatRequestView,
    provider: Seq<char>,
    ceiling: Option<u32>,
) -> Result<JsonView, ErrorView> {
    let kept = merged(Protocol::Anthropic, request.ext, provider);
    match refusal(request) {
        Some(error) => Err(error),
        None => match rendered_conversation(
            request.messages,
            provider,
            present(kept, "system"@, |v: JsonView| content_shape(v)),
        ) {
            Err(error) => Err(error),
            Ok((system, turns)) => if !present(kept, "tools"@, |v: JsonView| v is Array)
                && lacks_a_schema(request.tools) {
                Err(no_schema())
            } else {
                match resolved_limit(request, ceiling) {
                    None => Err(needs_a_limit(request.model)),
                    Some(limit) => match rendered_output_config(request, kept) {
                        Err(error) => Err(error),
                        Ok(config) => Ok(
                            JsonView::Object(
                                with_head(
                                    request,
                                    limit,
                                    turns,
                                    with_form(
                                        request,
                                        config,
                                        with_prompt(request, system, kept),
                                    ),
                                ),
                            ),
                        ),
                    },
                }
            },
        },
    }
}

fn settle_prompt(request: &ChatRequest, system: Option<Json>, tools: Option<Json>, fields: &mut Fields)
    requires
        !present(old(fields)@, "tools"@, |v: JsonView| v is Array) ==> tools.deep_view() == (
        if request@.tools.len() == 0 {
            None
        } else {
            Some(JsonView::Array(rendered_tools(request@.tools)))
        }),
    ensures
        final(fields)@ == with_prompt(request@, system.deep_view(), old(fields)@),
{
    let keep = match fields.get("tools") {
        Some(Json::Array(_)) => true,
        _ => false,
    };
    fields.settle("tools", keep, tools);
    let keep = match fields.get("system") {
        Some(v) => is_content(v),
        None => false,
    };
    fields.settle("system", keep, system);
    fields.set("temperature", json_number(&request.params.temperature));
    fields.set("top_p", json_number(&request.params.top_p));
    let keep = fields.has("top_k");
    fields.settle("top_k", keep, json_u32(request.params.top_k));
    let keep = match fields.get("stop_sequences") {
        Some(v) => are_strings(v),
        None => false,
    };
    let stop = if request.params.stop.len() == 0 {
        None
    } else {
        Some(Json::Array(json_strings(&request.params.stop)))
    };
    fields.settle("stop_sequences", keep, stop);
}

fn settle_form(request: &ChatRequest, config: Option<Json>, fields: &mut Fields)
    ensures
        final(fields)@ == with_form(request@, config.deep_view(), old(fields)@),
{
    let keep = fields.has("tool_choice");
    let choice = render_tool_choice(&request.tool_choice, request.parallel_tool_calls);
    fields.settle("tool_choice", keep, choice);
    let keep = fields.has("thinking");
    let thinking = match &request.reasoning {
        Some(reasoning) => render_thinking(reasoning),
        None => None,
    };
    fields.settle("thinking", keep, thinking);
    fields.set("output_config", config);
}

/// Renders a request, given the most that the model can put out where that is
/// known. What the request was read with by this protocol is rendered as it
/// came; the rest is made from the common form. What the protocol has no form
/// for is refused.
pub fn render_request(request: &ChatRequest, provider: &str, ceiling: Option<u32>) -> (r: Result<
    Json,
    Error,
>)
    ensures
        outcome(r) == rendered_request(request@, provider@, ceiling),
{
    match ensure_renderable(request) {
        Err(error) => {
            return Err(error);
        },
        Ok(()) => {},
    }
    let mut fields = merged_ext(Protocol::Anthropic, &request.ext, provider);
    let prompted = match fields.get("system") {
        Some(prompt) => is_content(prompt),
        None => false,
    };
    let (system, turns) = match render_messages(&request.messages, provider, prompted) {
        Ok(parts) => parts,
        Err(error) => {
            return Err(error);
        },
    };
    let keep = match fields.get("tools") {
        Some(Json::Array(_)) => true,
        _ => false,
    };
    let tools = if keep || request.tools.len() == 0 {
        None
    } else {
        match render_tools(&request.tools) {
            Ok(tools) => Some(tools),
            Err(error) => {
                return Err(error);
            },
        }
    };
    let limit: u32 = match resolve_max_tokens(request, ceiling) {
        Ok(limit) => limit,
        Err(error) => {
            return Err(error);
        },
    };
    let config = match render_output_config(request, &fields) {
        Ok(config) => config,
        Err(error) => {
            return Err(error);
        },
    };
    settle_prompt(request, system, tools, &mut fields);
    settle_form(request, config, &mut fields);
    fields.put("model", Json::String(request.model.clone()));
    fields.put("max_tokens", Json::count(limit as u64));
    fields.put("messages", Json::Array(turns));
    let stream = if request.stream {
        Some(Json::Bool(true))
    } else {
        None
    };
    fields.set("stream", stream);
    Ok(Json::Object(fields))
}

} // verus!
