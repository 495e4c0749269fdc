//! A streamed reply, chunk by chunk.
use vstd::prelude::*;

use crate::json::{Fields, FieldsView, Json, JsonView};

use super::message::Role;
use super::response::{FinishReason, Usage, UsageView};
use super::{IngestSource, IngestSourceView};

verus! {

/// A fragment of content.
#[derive(Debug, PartialEq)]
pub enum ContentDelta {
    Text { text: String },
    Reasoning { text: String, provenance: Option<String> },
    /// A piece of a tool call. `index` tells the calls of one reply apart.
    ToolCall { index: u32, id: Option<String>, kind: Option<String>, name: Option<String>, arguments: Option<String> },
    Unknown(Json),
}

/// The value of a [`ContentDelta`].
#[verifier::ext_equal]
pub enum ContentDeltaView {
    Text { text: Seq<char> },
    Reasoning { text: Seq<char>, provenance: Option<Seq<char>> },
    ToolCall { index: u32, id: Option<Seq<char>>, kind: Option<Seq<char>>, name: Option<Seq<char>>, arguments: Option<Seq<char>> },
    Unknown(JsonView),
}

impl View for ContentDelta {
    type V = ContentDeltaView;

    open spec fn view(&self) -> ContentDeltaView {
        match self {
            ContentDelta::Text { text } => ContentDeltaView::Text { text: text@ },
            ContentDelta::Reasoning { text, provenance } => ContentDeltaView::Reasoning { text: text@, provenance: provenance.deep_view() },
            ContentDelta::ToolCall { index, id, kind, name, arguments } => ContentDeltaView::ToolCall { index: *index, id: id.deep_view(), kind: kind.deep_view(), name: name.deep_view(), arguments: arguments.deep_view() },
            ContentDelta::Unknown(value) => ContentDeltaView::Unknown(value@),
        }
    }
}

impl DeepView for ContentDelta {
    type V = ContentDeltaView;

    open spec fn deep_view(&self) -> ContentDeltaView {
        self@
    }
}

/// What a chunk adds to one message.
#[derive(Debug, PartialEq, Default)]
pub struct MessageDelta {
    pub role: Option<Role>,
    pub content: Vec<ContentDelta>,
    pub ext: Fields,
}

/// The value of a [`MessageDelta`].
#[verifier::ext_equal]
pub struct MessageDeltaView {
    pub role: Option<Role>,
    pub content: Seq<ContentDeltaView>,
    pub ext: FieldsView,
}

impl View for MessageDelta {
    type V = MessageDeltaView;

    open spec fn view(&self) -> MessageDeltaView {
        MessageDeltaView {
            role: self.role,
            content: self.content.deep_view(),
            ext: self.ext@,
        }
    }
}

impl DeepView for MessageDelta {
    type V = MessageDeltaView;

    open spec fn deep_view(&self) -> MessageDeltaView {
        self@
    }
}

/// What a chunk adds to one of the replies.
#[derive(Debug, PartialEq)]
pub struct CompletionDelta {
    pub delta: MessageDelta,
    pub finish_reason: Option<FinishReason>,
    pub finish_reason_raw: Option<String>,
    pub ext: Fields,
}

/// The value of a [`CompletionDelta`].
#[verifier::ext_equal]
pub struct CompletionDeltaView {
    pub delta: MessageDeltaView,
    pub finish_reason: Option<FinishReason>,
    pub finish_reason_raw: Option<Seq<char>>,
    pub ext: FieldsView,
}

impl View for CompletionDelta {
    type V = CompletionDeltaView;

    open spec fn view(&self) -> CompletionDeltaView {
        CompletionDeltaView {
            delta: self.delta@,
            finish_reason: self.finish_reason,
            finish_reason_raw: self.finish_reason_raw.deep_view(),
            ext: self.ext@,
        }
    }
}

impl DeepView for CompletionDelta {
    type V = CompletionDeltaView;

    open spec fn deep_view(&self) -> CompletionDeltaView {
        self@
    }
}

/// One chunk of a streamed reply.
#[derive(Debug, PartialEq)]
pub struct ChatResponseChunk {
    pub id: String,
    pub model: String,
    pub created: Option<u64>,
    pub completions: Vec<CompletionDelta>,
    pub usage: Option<Usage>,
    pub ext: Fields,
    pub source: Option<IngestSource>,
}

/// The value of a [`ChatResponseChunk`].
#[verifier::ext_equal]
pub struct ChatResponseChunkView {
    pub id: Seq<char>,
    pub model: Seq<char>,
    pub created: Option<u64>,
    pub completions: Seq<CompletionDeltaView>,
    pub usage: Option<UsageView>,
    pub ext: FieldsView,
    pub source: Option<IngestSourceView>,
}

impl View for ChatResponseChunk {
    type V = ChatResponseChunkView;

    open spec fn view(&self) -> ChatResponseChunkView {
        ChatResponseChunkView {
            id: self.id@,
            model: self.model@,
            created: self.created,
            completions: self.completions.deep_view(),
            usage: self.usage.deep_view(),
            ext: self.ext@,
            source: self.source.deep_view(),
        }
    }
}

impl DeepView for ChatResponseChunk {
    type V = ChatResponseChunkView;

    open spec fn deep_view(&self) -> ChatResponseChunkView {
        self@
    }
}

} // verus!
