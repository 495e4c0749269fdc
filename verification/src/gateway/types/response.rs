//! A chat reply, whatever protocol it came by.
use vstd::prelude::*;

use crate::json::{Fields, FieldsView};
use crate::text::same_text;

use super::message::{Message, MessageView};
use super::{IngestSource, IngestSourceView};

verus! {

/// Why a reply ended.
#[derive(Debug, Clone, Copy, PartialEq, Eq, Structural)]
pub enum FinishReason {
    Stop,
    Length,
    ToolCalls,
    ContentFilter,
    /// A reason with no counterpart here; its own spelling is kept beside it.
    Other,
}

/// The reason a chat-completions word stands for.
pub open spec fn reason_of(raw: Seq<char>) -> FinishReason {
    if raw == "stop"@ {
        FinishReason::Stop
    } else if raw == "length"@ {
        FinishReason::Length
    } else if raw == "tool_calls"@ {
        FinishReason::ToolCalls
    } else if raw == "content_filter"@ {
        FinishReason::ContentFilter
    } else {
        FinishReason::Other
    }
}

impl FinishReason {
    /// Reads a chat-completions word.
    pub fn from_raw(raw: &str) -> (r: FinishReason)
        ensures
            r == reason_of(raw@),
    {
        if same_text(raw, "stop") {
            FinishReason::Stop
        } else if same_text(raw, "length") {
            FinishReason::Length
        } else if same_text(raw, "tool_calls") {
            FinishReason::ToolCalls
        } else if same_text(raw, "content_filter") {
            FinishReason::ContentFilter
        } else {
            FinishReason::Other
        }
    }
}

/// Token counts. Input counts every prompt token, cached ones included.
#[derive(Debug, PartialEq, Default)]
pub struct Usage {
    pub input_tokens: Option<u64>,
    pub output_tokens: Option<u64>,
    pub total_tokens: Option<u64>,
    pub reasoning_tokens: Option<u64>,
    pub cache_read_tokens: Option<u64>,
    pub cache_write_tokens: Option<u64>,
    pub ext: Fields,
}

/// The value of a [`Usage`].
#[verifier::ext_equal]
pub struct UsageView {
    pub input_tokens: Option<u64>,
    pub output_tokens: Option<u64>,
    pub total_tokens: Option<u64>,
    pub reasoning_tokens: Option<u64>,
    pub cache_read_tokens: Option<u64>,
    pub cache_write_tokens: Option<u64>,
    pub ext: FieldsView,
}

impl View for Usage {
    type V = UsageView;

    open spec fn view(&self) -> UsageView {
        UsageView {
            input_tokens: self.input_tokens,
            output_tokens: self.output_tokens,
            total_tokens: self.total_tokens,
            reasoning_tokens: self.reasoning_tokens,
            cache_read_tokens: self.cache_read_tokens,
            cache_write_tokens: self.cache_write_tokens,
            ext: self.ext@,
        }
    }
}

impl DeepView for Usage {
    type V = UsageView;

    open spec fn deep_view(&self) -> UsageView {
        self@
    }
}

/// One of the replies to a request.
#[derive(Debug, PartialEq)]
pub struct Completion {
    pub message: Message,
    pub finish_reason: FinishReason,
    /// The reason in the provider's own word.
    pub finish_reason_raw: String,
    pub ext: Fields,
}

/// The value of a [`Completion`].
#[verifier::ext_equal]
pub struct CompletionView {
    pub message: MessageView,
    pub finish_reason: FinishReason,
    pub finish_reason_raw: Seq<char>,
    pub ext: FieldsView,
}

impl View for Completion {
    type V = CompletionView;

    open spec fn view(&self) -> CompletionView {
        CompletionView {
            message: self.message@,
            finish_reason: self.finish_reason,
            finish_reason_raw: self.finish_reason_raw@,
            ext: self.ext@,
        }
    }
}

impl DeepView for Completion {
    type V = CompletionView;

    open spec fn deep_view(&self) -> CompletionView {
        self@
    }
}

/// A whole reply.
#[derive(Debug, PartialEq)]
pub struct ChatResponse {
    pub id: String,
    pub model: String,
    pub created: Option<u64>,
    pub completions: Vec<Completion>,
    pub usage: Option<Usage>,
    /// What no field claims, by protocol and provider.
    pub ext: Fields,
    /// What the reply was read from.
    pub source: Option<IngestSource>,
}

/// The value of a [`ChatResponse`].
#[verifier::ext_equal]
pub struct ChatResponseView {
    pub id: Seq<char>,
    pub model: Seq<char>,
    pub created: Option<u64>,
    pub completions: Seq<CompletionView>,
    pub usage: Option<UsageView>,
    pub ext: FieldsView,
    pub source: Option<IngestSourceView>,
}

impl View for ChatResponse {
    type V = ChatResponseView;

    open spec fn view(&self) -> ChatResponseView {
        ChatResponseView {
            id: self.id@,
            model: self.model@,
            created: self.created,
            completions: self.completions.deep_view(),
            usage: self.usage.deep_view(),
            ext: self.ext@,
            source: self.source.deep_view(),
        }
    }
}

impl DeepView for ChatResponse {
    type V = ChatResponseView;

    open spec fn deep_view(&self) -> ChatResponseView {
        self@
    }
}

} // verus!
