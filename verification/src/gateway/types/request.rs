//! A chat request, whatever protocol it came by.
use vstd::prelude::*;

use crate::json::{Fields, FieldsView, Json, JsonView, Number, NumberView};

use super::message::{CacheHint, CacheHintView, Message, MessageView};
use super::{IngestSource, IngestSourceView};

verus! {

/// A tool the model may call.
#[derive(Debug, PartialEq)]
pub struct ToolDef {
    pub name: String,
    pub description: Option<String>,
    /// The schema of the tool's arguments; `null` where it has none.
    pub input_schema: Json,
    pub strict: Option<bool>,
    pub cache: Option<CacheHint>,
    pub ext: Fields,
}

/// The value of a [`ToolDef`].
#[verifier::ext_equal]
pub struct ToolDefView {
    pub name: Seq<char>,
    pub description: Option<Seq<char>>,
    pub input_schema: JsonView,
    pub strict: Option<bool>,
    pub cache: Option<CacheHintView>,
    pub ext: FieldsView,
}

impl View for ToolDef {
    type V = ToolDefView;

    open spec fn view(&self) -> ToolDefView {
        ToolDefView {
            name: self.name@,
            description: self.description.deep_view(),
            input_schema: self.input_schema@,
            strict: self.strict,
            cache: self.cache.deep_view(),
            ext: self.ext@,
        }
    }
}

impl DeepView for ToolDef {
    type V = ToolDefView;

    open spec fn deep_view(&self) -> ToolDefView {
        self@
    }
}

/// Which tools the model may or must call.
#[derive(Debug, PartialEq)]
pub enum ToolChoice {
    Auto,
    /// Call no tool.
    Never,
    Required,
    Tool { name: String },
}

/// The value of a [`ToolChoice`].
#[verifier::ext_equal]
pub enum ToolChoiceView {
    Auto,
    Never,
    Required,
    Tool { name: Seq<char> },
}

impl View for ToolChoice {
    type V = ToolChoiceView;

    open spec fn view(&self) -> ToolChoiceView {
        match self {
            ToolChoice::Auto => ToolChoiceView::Auto,
            ToolChoice::Never => ToolChoiceView::Never,
            ToolChoice::Required => ToolChoiceView::Required,
            ToolChoice::Tool { name } => ToolChoiceView::Tool { name: name@ },
        }
    }
}

impl DeepView for ToolChoice {
    type V = ToolChoiceView;

    open spec fn deep_view(&self) -> ToolChoiceView {
        self@
    }
}

/// How to sample the reply.
#[derive(Debug, PartialEq, Default)]
pub struct GenerationParams {
    pub max_tokens: Option<u32>,
    pub temperature: Option<Number>,
    pub top_p: Option<Number>,
    /// Native to Anthropic; an extension elsewhere. Held here so that the
    /// protocol a request leaves by can honor it.
    pub top_k: Option<u32>,
    pub stop: Vec<String>,
}

/// The value of a [`GenerationParams`].
#[verifier::ext_equal]
pub struct GenerationParamsView {
    pub max_tokens: Option<u32>,
    pub temperature: Option<NumberView>,
    pub top_p: Option<NumberView>,
    pub top_k: Option<u32>,
    pub stop: Seq<Seq<char>>,
}

impl View for GenerationParams {
    type V = GenerationParamsView;

    open spec fn view(&self) -> GenerationParamsView {
        GenerationParamsView {
            max_tokens: self.max_tokens,
            temperature: self.temperature.deep_view(),
            top_p: self.top_p.deep_view(),
            top_k: self.top_k,
            stop: self.stop.deep_view(),
        }
    }
}

impl DeepView for GenerationParams {
    type V = GenerationParamsView;

    open spec fn deep_view(&self) -> GenerationParamsView {
        self@
    }
}

/// How much the model should reason, and whether to show it.
#[derive(Debug, PartialEq, Default)]
pub struct ReasoningConfig {
    pub enabled: Option<bool>,
    pub effort: Option<String>,
    pub budget_tokens: Option<u32>,
    pub exclude: Option<bool>,
}

/// The value of a [`ReasoningConfig`].
#[verifier::ext_equal]
pub struct ReasoningConfigView {
    pub enabled: Option<bool>,
    pub effort: Option<Seq<char>>,
    pub budget_tokens: Option<u32>,
    pub exclude: Option<bool>,
}

impl View for ReasoningConfig {
    type V = ReasoningConfigView;

    open spec fn view(&self) -> ReasoningConfigView {
        ReasoningConfigView {
            enabled: self.enabled,
            effort: self.effort.deep_view(),
            budget_tokens: self.budget_tokens,
            exclude: self.exclude,
        }
    }
}

impl DeepView for ReasoningConfig {
    type V = ReasoningConfigView;

    open spec fn deep_view(&self) -> ReasoningConfigView {
        self@
    }
}

/// What form the reply must have.
#[derive(Debug, PartialEq)]
pub enum ResponseFormat {
    Text,
    JsonObject,
    JsonSchema { name: String, schema: Json, strict: Option<bool> },
}

/// The value of a [`ResponseFormat`].
#[verifier::ext_equal]
pub enum ResponseFormatView {
    Text,
    JsonObject,
    JsonSchema { name: Seq<char>, schema: JsonView, strict: Option<bool> },
}

impl View for ResponseFormat {
    type V = ResponseFormatView;

    open spec fn view(&self) -> ResponseFormatView {
        match self {
            ResponseFormat::Text => ResponseFormatView::Text,
            ResponseFormat::JsonObject => ResponseFormatView::JsonObject,
            ResponseFormat::JsonSchema { name, schema, strict } => ResponseFormatView::JsonSchema { name: name@, schema: schema@, strict: *strict },
        }
    }
}

impl DeepView for ResponseFormat {
    type V = ResponseFormatView;

    open spec fn deep_view(&self) -> ResponseFormatView {
        self@
    }
}

/// A chat request.
#[derive(Debug, PartialEq, Default)]
pub struct ChatRequest {
    pub model: String,
    pub messages: Vec<Message>,
    pub tools: Vec<ToolDef>,
    pub tool_choice: Option<ToolChoice>,
    /// Whether the model may call several tools at once.
    pub parallel_tool_calls: Option<bool>,
    pub params: GenerationParams,
    pub response_format: Option<ResponseFormat>,
    pub reasoning: Option<ReasoningConfig>,
    pub cache: Option<CacheHint>,
    pub stream: bool,
    pub stream_include_usage: Option<bool>,
    /// What no field claims, by protocol and provider.
    pub ext: Fields,
    /// What the request was read from.
    pub source: Option<IngestSource>,
}

/// The value of a [`ChatRequest`].
#[verifier::ext_equal]
pub struct ChatRequestView {
    pub model: Seq<char>,
    pub messages: Seq<MessageView>,
    pub tools: Seq<ToolDefView>,
    pub tool_choice: Option<ToolChoiceView>,
    pub parallel_tool_calls: Option<bool>,
    pub params: GenerationParamsView,
    pub response_format: Option<ResponseFormatView>,
    pub reasoning: Option<ReasoningConfigView>,
    pub cache: Option<CacheHintView>,
    pub stream: bool,
    pub stream_include_usage: Option<bool>,
    pub ext: FieldsView,
    pub source: Option<IngestSourceView>,
}

impl View for ChatRequest {
    type V = ChatRequestView;

    open spec fn view(&self) -> ChatRequestView {
        ChatRequestView {
            model: self.model@,
            messages: self.messages.deep_view(),
            tools: self.tools.deep_view(),
            tool_choice: self.tool_choice.deep_view(),
            parallel_tool_calls: self.parallel_tool_calls,
            params: self.params@,
            response_format: self.response_format.deep_view(),
            reasoning: self.reasoning.deep_view(),
            cache: self.cache.deep_view(),
            stream: self.stream,
            stream_include_usage: self.stream_include_usage,
            ext: self.ext@,
            source: self.source.deep_view(),
        }
    }
}

impl DeepView for ChatRequest {
    type V = ChatRequestView;

    open spec fn deep_view(&self) -> ChatRequestView {
        self@
    }
}

} // verus!
