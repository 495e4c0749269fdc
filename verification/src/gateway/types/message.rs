//! Messages and the blocks they are made of.
use vstd::prelude::*;

use crate::json::{Fields, FieldsView, Json, JsonView};

use super::RawJson;

verus! {

/// Who a message is from.
#[derive(Debug, Clone, Copy, PartialEq, Eq, Structural)]
pub enum Role {
    System,
    User,
    Assistant,
    Tool,
}

/// Asks the provider to cache the prompt up to here.
#[derive(Debug, PartialEq)]
pub struct CacheHint {
    /// How long to keep it, as the provider spells durations.
    pub ttl: Option<String>,
}

/// The value of a [`CacheHint`].
#[verifier::ext_equal]
pub struct CacheHintView {
    pub ttl: Option<Seq<char>>,
}

impl View for CacheHint {
    type V = CacheHintView;

    open spec fn view(&self) -> CacheHintView {
        CacheHintView {
            ttl: self.ttl.deep_view(),
        }
    }
}

impl DeepView for CacheHint {
    type V = CacheHintView;

    open spec fn deep_view(&self) -> CacheHintView {
        self@
    }
}

/// Where the bytes of an image, a document or a sound are.
#[derive(Debug, PartialEq)]
pub enum MediaSource {
    Url { url: String },
    Base64 { media_type: String, data: String },
    /// A file held by one provider's files API, which no other can resolve.
    ProviderFile { id: String },
}

/// The value of a [`MediaSource`].
#[verifier::ext_equal]
pub enum MediaSourceView {
    Url { url: Seq<char> },
    Base64 { media_type: Seq<char>, data: Seq<char> },
    ProviderFile { id: Seq<char> },
}

impl View for MediaSource {
    type V = MediaSourceView;

    open spec fn view(&self) -> MediaSourceView {
        match self {
            MediaSource::Url { url } => MediaSourceView::Url { url: url@ },
            MediaSource::Base64 { media_type, data } => MediaSourceView::Base64 { media_type: media_type@, data: data@ },
            MediaSource::ProviderFile { id } => MediaSourceView::ProviderFile { id: id@ },
        }
    }
}

impl DeepView for MediaSource {
    type V = MediaSourceView;

    open spec fn deep_view(&self) -> MediaSourceView {
        self@
    }
}

/// What a model showed of its reasoning.
#[derive(Debug, PartialEq)]
pub enum ReasoningDetail {
    Text { text: String, signature: Option<String> },
    Encrypted { data: String },
    Summary { summary: String },
}

/// The value of a [`ReasoningDetail`].
#[verifier::ext_equal]
pub enum ReasoningDetailView {
    Text { text: Seq<char>, signature: Option<Seq<char>> },
    Encrypted { data: Seq<char> },
    Summary { summary: Seq<char> },
}

impl View for ReasoningDetail {
    type V = ReasoningDetailView;

    open spec fn view(&self) -> ReasoningDetailView {
        match self {
            ReasoningDetail::Text { text, signature } => ReasoningDetailView::Text { text: text@, signature: signature.deep_view() },
            ReasoningDetail::Encrypted { data } => ReasoningDetailView::Encrypted { data: data@ },
            ReasoningDetail::Summary { summary } => ReasoningDetailView::Summary { summary: summary@ },
        }
    }
}

impl DeepView for ReasoningDetail {
    type V = ReasoningDetailView;

    open spec fn deep_view(&self) -> ReasoningDetailView {
        self@
    }
}

/// A piece of a message.
#[derive(Debug, PartialEq)]
#[allow(inconsistent_fields)]
pub enum ContentBlock {
    Text { text: String, cache: Option<CacheHint> },
    Image { source: MediaSource, detail: Option<String>, cache: Option<CacheHint> },
    Audio { source: MediaSource, format: Option<String> },
    Document { source: MediaSource, title: Option<String>, cache: Option<CacheHint> },
    ToolCall { id: String, name: String, arguments: RawJson },
    ToolResult { call_id: String, content: Vec<ContentBlock>, is_error: bool },
    Reasoning { detail: ReasoningDetail, provenance: Option<String>, id: Option<String> },
    Unknown(Json),
}

/// The value of a [`ContentBlock`].
#[verifier::ext_equal]
#[allow(inconsistent_fields)]
pub enum ContentBlockView {
    Text { text: Seq<char>, cache: Option<CacheHintView> },
    Image { source: MediaSourceView, detail: Option<Seq<char>>, cache: Option<CacheHintView> },
    Audio { source: MediaSourceView, format: Option<Seq<char>> },
    Document { source: MediaSourceView, title: Option<Seq<char>>, cache: Option<CacheHintView> },
    ToolCall { id: Seq<char>, name: Seq<char>, arguments: Seq<char> },
    ToolResult { call_id: Seq<char>, content: Seq<ContentBlockView>, is_error: bool },
    Reasoning { detail: ReasoningDetailView, provenance: Option<Seq<char>>, id: Option<Seq<char>> },
    Unknown(JsonView),
}

impl ContentBlock {
    /// The value, as [`View::view`] gives it.
    pub open spec fn model(&self) -> ContentBlockView
        decreases self,
    {
        match self {
            ContentBlock::Text { text, cache } => ContentBlockView::Text { text: text@, cache: cache.deep_view() },
            ContentBlock::Image { source, detail, cache } => ContentBlockView::Image { source: source@, detail: detail.deep_view(), cache: cache.deep_view() },
            ContentBlock::Audio { source, format } => ContentBlockView::Audio { source: source@, format: format.deep_view() },
            ContentBlock::Document { source, title, cache } => ContentBlockView::Document { source: source@, title: title.deep_view(), cache: cache.deep_view() },
            ContentBlock::ToolCall { id, name, arguments } => ContentBlockView::ToolCall { id: id@, name: name@, arguments: arguments@ },
            ContentBlock::ToolResult { call_id, content, is_error } => ContentBlockView::ToolResult { call_id: call_id@, content: block_models(content@), is_error: *is_error },
            ContentBlock::Reasoning { detail, provenance, id } => ContentBlockView::Reasoning { detail: detail@, provenance: provenance.deep_view(), id: id.deep_view() },
            ContentBlock::Unknown(value) => ContentBlockView::Unknown(value@),
        }
    }
}

/// The value of each block.
pub open spec fn block_models(blocks: Seq<ContentBlock>) -> Seq<ContentBlockView>
    decreases blocks,
{
    Seq::new(
        blocks.len(),
        |i: int|
            if 0 <= i < blocks.len() {
                blocks[i].model()
            } else {
                ContentBlockView::Unknown(JsonView::Null)
            },
    )
}

impl View for ContentBlock {
    type V = ContentBlockView;

    open spec fn view(&self) -> ContentBlockView {
        self.model()
    }
}

impl DeepView for ContentBlock {
    type V = ContentBlockView;

    open spec fn deep_view(&self) -> ContentBlockView {
        self@
    }
}

/// One message of a conversation.
#[derive(Debug, PartialEq)]
pub struct Message {
    pub role: Role,
    pub content: Vec<ContentBlock>,
    /// What no field claims, by protocol and provider.
    pub ext: Fields,
}

/// The value of a [`Message`].
#[verifier::ext_equal]
pub struct MessageView {
    pub role: Role,
    pub content: Seq<ContentBlockView>,
    pub ext: FieldsView,
}

impl View for Message {
    type V = MessageView;

    open spec fn view(&self) -> MessageView {
        MessageView {
            role: self.role,
            content: block_models(self.content@),
            ext: self.ext@,
        }
    }
}

impl DeepView for Message {
    type V = MessageView;

    open spec fn deep_view(&self) -> MessageView {
        self@
    }
}

} // verus!
