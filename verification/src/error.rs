//! Failures: this library's own, and those that providers report.
use vstd::prelude::*;
use vstd::string::*;

use crate::text::{cut, join2, join3};

verus! {

/// How many characters of an error body are kept.
pub const RAW_BODY_LIMIT: usize = 4096;

/// What a provider said of its failure.
#[derive(Debug, PartialEq)]
pub struct ProviderError {
    pub provider: String,
    pub status: u16,
    pub message: String,
    /// The family, in the provider's own spelling.
    pub error_type: Option<String>,
    /// The code, in the provider's own spelling.
    pub provider_code: Option<String>,
    /// How many seconds to wait, where the provider said so.
    pub retry_after: Option<u64>,
    pub request_id: Option<String>,
    /// The body, up to [`RAW_BODY_LIMIT`] characters.
    pub raw_body: String,
}

/// The value of a [`ProviderError`].
#[verifier::ext_equal]
pub struct ProviderErrorView {
    pub provider: Seq<char>,
    pub status: u16,
    pub message: Seq<char>,
    pub error_type: Option<Seq<char>>,
    pub provider_code: Option<Seq<char>>,
    pub retry_after: Option<u64>,
    pub request_id: Option<Seq<char>>,
    pub raw_body: Seq<char>,
}

impl View for ProviderError {
    type V = ProviderErrorView;

    open spec fn view(&self) -> ProviderErrorView {
        ProviderErrorView {
            provider: self.provider@,
            status: self.status,
            message: self.message@,
            error_type: self.error_type.deep_view(),
            provider_code: self.provider_code.deep_view(),
            retry_after: self.retry_after,
            request_id: self.request_id.deep_view(),
            raw_body: self.raw_body@,
        }
    }
}

impl DeepView for ProviderError {
    type V = ProviderErrorView;

    open spec fn deep_view(&self) -> ProviderErrorView {
        self@
    }
}

/// A body cut to [`RAW_BODY_LIMIT`] characters.
pub open spec fn bounded_body(body: Seq<char>) -> Seq<char> {
    if body.len() <= RAW_BODY_LIMIT {
        body
    } else {
        body.take(RAW_BODY_LIMIT as int)
    }
}

impl ProviderError {
    /// Cuts a body to [`RAW_BODY_LIMIT`] characters.
    pub fn bounded(body: &str) -> (r: String)
        ensures
            r@ == bounded_body(body@),
    {
        if body.unicode_len() <= RAW_BODY_LIMIT {
            body.to_owned()
        } else {
            let r = cut(body, 0, RAW_BODY_LIMIT);
            assert(r@ =~= body@.take(RAW_BODY_LIMIT as int));
            r
        }
    }
}

/// What a provider failure means.
#[derive(Debug, Clone, Copy, PartialEq, Eq, Structural)]
pub enum ErrorKind {
    /// Too many requests for now.
    RateLimited,
    /// The account has no credit left.
    QuotaExceeded,
    /// The provider has no capacity for now.
    Overloaded,
    /// The request is longer than the model takes.
    ContextLengthExceeded,
    /// The content was refused by policy.
    ContentFilter,
    /// The credentials were refused.
    Authentication,
    /// The provider has no such model.
    ModelNotFound,
    /// The credentials do not reach that far.
    PermissionDenied,
    /// The provider could not accept the request.
    InvalidRequest,
    /// The provider failed.
    ServerError,
    /// Nothing says what the failure was.
    Unknown,
}

/// A failure.
#[derive(Debug, PartialEq)]
#[allow(inconsistent_fields)]
pub enum Error {
    /// The request or the configuration cannot be used.
    InvalidInput(String),
    /// No registered model has that name.
    InvalidModel { given: String },
    /// The configuration does not declare the provider.
    ProviderNotDeclared { provider: String },
    /// No credentials for the provider.
    MissingApiKey { provider: String },
    /// No response came.
    Network { provider: String, cause: String },
    /// The response is not what the protocol promises.
    Decode { provider: String, cause: String },
    /// The stream ended early.
    StreamTruncated { provider: String },
    /// The stream went silent.
    StreamStalled { provider: String },
    /// Something a renderer has no form for.
    NotImplemented(String),
    Internal(String),
    InvalidRoster(String),
    /// Too many requests for now.
    RateLimited(ProviderError),
    /// The account has no credit left.
    QuotaExceeded(ProviderError),
    /// The provider has no capacity for now.
    Overloaded(ProviderError),
    /// The request is longer than the model takes.
    ContextLengthExceeded(ProviderError),
    /// The content was refused by policy.
    ContentFilter(ProviderError),
    /// The credentials were refused.
    Authentication(ProviderError),
    /// The provider has no such model.
    ModelNotFound(ProviderError),
    /// The credentials do not reach that far.
    PermissionDenied(ProviderError),
    /// The provider could not accept the request.
    InvalidRequest(ProviderError),
    /// The provider failed.
    ServerError(ProviderError),
    /// Nothing says what the failure was.
    Unknown(ProviderError),
    /// Every candidate failed.
    CandidatesExhausted { models: Vec<String>, tried: Vec<(String, Error)> },
    /// The time for all candidates together ran out.
    DeadlineExceeded { tried: Vec<(String, Error)> },
}

/// The value of a [`Error`].
#[verifier::ext_equal]
#[allow(inconsistent_fields)]
pub enum ErrorView {
    InvalidInput(Seq<char>),
    InvalidModel { given: Seq<char> },
    ProviderNotDeclared { provider: Seq<char> },
    MissingApiKey { provider: Seq<char> },
    Network { provider: Seq<char>, cause: Seq<char> },
    Decode { provider: Seq<char>, cause: Seq<char> },
    StreamTruncated { provider: Seq<char> },
    StreamStalled { provider: Seq<char> },
    NotImplemented(Seq<char>),
    Internal(Seq<char>),
    InvalidRoster(Seq<char>),
    RateLimited(ProviderErrorView),
    QuotaExceeded(ProviderErrorView),
    Overloaded(ProviderErrorView),
    ContextLengthExceeded(ProviderErrorView),
    ContentFilter(ProviderErrorView),
    Authentication(ProviderErrorView),
    ModelNotFound(ProviderErrorView),
    PermissionDenied(ProviderErrorView),
    InvalidRequest(ProviderErrorView),
    ServerError(ProviderErrorView),
    Unknown(ProviderErrorView),
    CandidatesExhausted { models: Seq<Seq<char>>, tried: Seq<(Seq<char>, ErrorView)> },
    DeadlineExceeded { tried: Seq<(Seq<char>, ErrorView)> },
}

impl Error {
    /// The value, as [`View::view`] gives it.
    pub open spec fn model(&self) -> ErrorView
        decreases self,
    {
        match self {
            Error::InvalidInput(value) => ErrorView::InvalidInput(value@),
            Error::InvalidModel { given } => ErrorView::InvalidModel { given: given@ },
            Error::ProviderNotDeclared { provider } => ErrorView::ProviderNotDeclared { provider: provider@ },
            Error::MissingApiKey { provider } => ErrorView::MissingApiKey { provider: provider@ },
            Error::Network { provider, cause } => ErrorView::Network { provider: provider@, cause: cause@ },
            Error::Decode { provider, cause } => ErrorView::Decode { provider: provider@, cause: cause@ },
            Error::StreamTruncated { provider } => ErrorView::StreamTruncated { provider: provider@ },
            Error::StreamStalled { provider } => ErrorView::StreamStalled { provider: provider@ },
            Error::NotImplemented(value) => ErrorView::NotImplemented(value@),
            Error::Internal(value) => ErrorView::Internal(value@),
            Error::InvalidRoster(value) => ErrorView::InvalidRoster(value@),
            Error::RateLimited(value) => ErrorView::RateLimited(value@),
            Error::QuotaExceeded(value) => ErrorView::QuotaExceeded(value@),
            Error::Overloaded(value) => ErrorView::Overloaded(value@),
            Error::ContextLengthExceeded(value) => ErrorView::ContextLengthExceeded(value@),
            Error::ContentFilter(value) => ErrorView::ContentFilter(value@),
            Error::Authentication(value) => ErrorView::Authentication(value@),
            Error::ModelNotFound(value) => ErrorView::ModelNotFound(value@),
            Error::PermissionDenied(value) => ErrorView::PermissionDenied(value@),
            Error::InvalidRequest(value) => ErrorView::InvalidRequest(value@),
            Error::ServerError(value) => ErrorView::ServerError(value@),
            Error::Unknown(value) => ErrorView::Unknown(value@),
            Error::CandidatesExhausted { models, tried } => ErrorView::CandidatesExhausted { models: models.deep_view(), tried: attempts(tried@) },
            Error::DeadlineExceeded { tried } => ErrorView::DeadlineExceeded { tried: attempts(tried@) },
        }
    }
}

/// The value of each attempt.
pub open spec fn attempts(tried: Seq<(String, Error)>) -> Seq<(Seq<char>, ErrorView)>
    decreases tried,
{
    Seq::new(
        tried.len(),
        |i: int|
            if 0 <= i < tried.len() {
                (tried[i].0@, tried[i].1.model())
            } else {
                (Seq::empty(), ErrorView::Internal(Seq::empty()))
            },
    )
}

impl View for Error {
    type V = ErrorView;

    open spec fn view(&self) -> ErrorView {
        self.model()
    }
}

impl DeepView for Error {
    type V = ErrorView;

    open spec fn deep_view(&self) -> ErrorView {
        self@
    }
}

/// The value of a result.
pub open spec fn outcome<T: DeepView>(result: Result<T, Error>) -> Result<T::V, ErrorView> {
    match result {
        Ok(value) => Ok(value.deep_view()),
        Err(error) => Err(error@),
    }
}

/// A provider failure of a kind.
pub open spec fn provider_failure(kind: ErrorKind, detail: ProviderErrorView) -> ErrorView {
    match kind {
        ErrorKind::RateLimited => ErrorView::RateLimited(detail),
        ErrorKind::QuotaExceeded => ErrorView::QuotaExceeded(detail),
        ErrorKind::Overloaded => ErrorView::Overloaded(detail),
        ErrorKind::ContextLengthExceeded => ErrorView::ContextLengthExceeded(detail),
        ErrorKind::ContentFilter => ErrorView::ContentFilter(detail),
        ErrorKind::Authentication => ErrorView::Authentication(detail),
        ErrorKind::ModelNotFound => ErrorView::ModelNotFound(detail),
        ErrorKind::PermissionDenied => ErrorView::PermissionDenied(detail),
        ErrorKind::InvalidRequest => ErrorView::InvalidRequest(detail),
        ErrorKind::ServerError => ErrorView::ServerError(detail),
        ErrorKind::Unknown => ErrorView::Unknown(detail),
    }
}

/// What a provider said, where the failure is a provider's.
pub open spec fn said(error: ErrorView) -> Option<ProviderErrorView> {
    match error {
        ErrorView::RateLimited(detail) => Some(detail),
        ErrorView::QuotaExceeded(detail) => Some(detail),
        ErrorView::Overloaded(detail) => Some(detail),
        ErrorView::ContextLengthExceeded(detail) => Some(detail),
        ErrorView::ContentFilter(detail) => Some(detail),
        ErrorView::Authentication(detail) => Some(detail),
        ErrorView::ModelNotFound(detail) => Some(detail),
        ErrorView::PermissionDenied(detail) => Some(detail),
        ErrorView::InvalidRequest(detail) => Some(detail),
        ErrorView::ServerError(detail) => Some(detail),
        ErrorView::Unknown(detail) => Some(detail),
        _ => None,
    }
}

/// Who a failure came from.
#[derive(Debug, Clone, Copy, PartialEq, Eq, Structural)]
pub enum Origin {
    Gateway,
    Provider,
}

/// The stable name of a failure.
pub open spec fn slug(error: ErrorView) -> Seq<char> {
    match error {
        ErrorView::InvalidInput(_) => "invalid_request"@,
        ErrorView::InvalidModel { .. } => "invalid_model"@,
        ErrorView::ProviderNotDeclared { .. } => "provider_not_declared"@,
        ErrorView::MissingApiKey { .. } => "missing_api_key"@,
        ErrorView::Network { .. } => "connection_error"@,
        ErrorView::Decode { .. } => "decode_error"@,
        ErrorView::StreamTruncated { .. } => "stream_truncated"@,
        ErrorView::StreamStalled { .. } => "stream_stalled"@,
        ErrorView::NotImplemented(_) => "not_implemented"@,
        ErrorView::Internal(_) => "internal_error"@,
        ErrorView::InvalidRoster(_) => "invalid_roster"@,
        ErrorView::RateLimited(_) => "rate_limited"@,
        ErrorView::QuotaExceeded(_) => "quota_exceeded"@,
        ErrorView::Overloaded(_) => "overloaded"@,
        ErrorView::ContextLengthExceeded(_) => "context_length_exceeded"@,
        ErrorView::ContentFilter(_) => "content_filter"@,
        ErrorView::Authentication(_) => "authentication"@,
        ErrorView::ModelNotFound(_) => "model_not_found"@,
        ErrorView::PermissionDenied(_) => "permission_denied"@,
        ErrorView::InvalidRequest(_) => "provider_invalid_request"@,
        ErrorView::ServerError(_) => "provider_server_error"@,
        ErrorView::Unknown(_) => "provider_unknown"@,
        ErrorView::CandidatesExhausted { .. } => "candidates_exhausted"@,
        ErrorView::DeadlineExceeded { .. } => "deadline_exceeded"@,
    }
}

/// A failure in words.
pub open spec fn words(error: ErrorView) -> Seq<char> {
    match error {
        ErrorView::InvalidInput(what) => what,
        ErrorView::InvalidModel { given } => "'"@ + given
            + "' is not a supported provider/model: no registered model has that name"@,
        ErrorView::ProviderNotDeclared { provider } => "provider '"@ + provider
            + "' is not declared in the configuration"@,
        ErrorView::MissingApiKey { provider } => "no API key for provider '"@ + provider + "'"@,
        ErrorView::Network { provider, cause } => provider + ": no response: "@ + cause,
        ErrorView::Decode { provider, cause } => provider + ": unreadable response: "@ + cause,
        ErrorView::StreamTruncated { provider } => provider + ": the stream ended early"@,
        ErrorView::StreamStalled { provider } => provider + ": the stream went silent"@,
        ErrorView::NotImplemented(what) => what + " is not implemented"@,
        ErrorView::Internal(what) => what,
        ErrorView::InvalidRoster(what) => what,
        ErrorView::RateLimited(detail) => detail.provider + ": "@ + detail.message,
        ErrorView::QuotaExceeded(detail) => detail.provider + ": "@ + detail.message,
        ErrorView::Overloaded(detail) => detail.provider + ": "@ + detail.message,
        ErrorView::ContextLengthExceeded(detail) => detail.provider + ": "@ + detail.message,
        ErrorView::ContentFilter(detail) => detail.provider + ": "@ + detail.message,
        ErrorView::Authentication(detail) => detail.provider + ": "@ + detail.message,
        ErrorView::ModelNotFound(detail) => detail.provider + ": "@ + detail.message,
        ErrorView::PermissionDenied(detail) => detail.provider + ": "@ + detail.message,
        ErrorView::InvalidRequest(detail) => detail.provider + ": "@ + detail.message,
        ErrorView::ServerError(detail) => detail.provider + ": "@ + detail.message,
        ErrorView::Unknown(detail) => detail.provider + ": "@ + detail.message,
        ErrorView::CandidatesExhausted { models, .. } => "every candidate failed: "@ + listed(
            models,
        ),
        ErrorView::DeadlineExceeded { .. } => "no candidate answered before the deadline"@,
    }
}

/// Texts in a row, with a comma between them.
pub open spec fn listed(texts: Seq<Seq<char>>) -> Seq<char>
    decreases texts.len(),
{
    if texts.len() == 0 {
        Seq::empty()
    } else if texts.len() == 1 {
        texts[0]
    } else {
        listed(texts.drop_last()) + ", "@ + texts.last()
    }
}

fn write_list(texts: &Vec<String>) -> (r: String)
    ensures
        r@ == listed(texts.deep_view()),
{
    let ghost all = texts.deep_view();
    let mut out = String::new();
    for i in 0..texts.len()
        invariant
            all == texts.deep_view(),
            out@ == listed(all.take(i as int)),
    {
        let ghost here = all.take(i + 1);
        assert(here.drop_last() =~= all.take(i as int));
        if i > 0 {
            out.append(", ");
        }
        out.append(texts[i].as_str());
        assert(out@ =~= listed(here));
    }
    assert(all.take(all.len() as int) =~= all);
    out
}

impl Error {
    /// The failure of a kind that a provider reported.
    pub fn classified(kind: ErrorKind, detail: ProviderError) -> (r: Error)
        ensures
            r@ == provider_failure(kind, detail@),
    {
        match kind {
            ErrorKind::RateLimited => Error::RateLimited(detail),
            ErrorKind::QuotaExceeded => Error::QuotaExceeded(detail),
            ErrorKind::Overloaded => Error::Overloaded(detail),
            ErrorKind::ContextLengthExceeded => Error::ContextLengthExceeded(detail),
            ErrorKind::ContentFilter => Error::ContentFilter(detail),
            ErrorKind::Authentication => Error::Authentication(detail),
            ErrorKind::ModelNotFound => Error::ModelNotFound(detail),
            ErrorKind::PermissionDenied => Error::PermissionDenied(detail),
            ErrorKind::InvalidRequest => Error::InvalidRequest(detail),
            ErrorKind::ServerError => Error::ServerError(detail),
            ErrorKind::Unknown => Error::Unknown(detail),
        }
    }

    /// What the provider said, where the failure is a provider's.
    pub fn provider_error(&self) -> (r: Option<&ProviderError>)
        ensures
            r.deep_view() == said(self@),
    {
        match self {
            Error::RateLimited(detail) => Some(detail),
            Error::QuotaExceeded(detail) => Some(detail),
            Error::Overloaded(detail) => Some(detail),
            Error::ContextLengthExceeded(detail) => Some(detail),
            Error::ContentFilter(detail) => Some(detail),
            Error::Authentication(detail) => Some(detail),
            Error::ModelNotFound(detail) => Some(detail),
            Error::PermissionDenied(detail) => Some(detail),
            Error::InvalidRequest(detail) => Some(detail),
            Error::ServerError(detail) => Some(detail),
            Error::Unknown(detail) => Some(detail),
            _ => None,
        }
    }

    /// Who the failure came from.
    pub fn origin(&self) -> (r: Origin)
        ensures
            r == (if said(self@) is Some {
                Origin::Provider
            } else {
                Origin::Gateway
            }),
    {
        match self.provider_error() {
            Some(_) => Origin::Provider,
            None => Origin::Gateway,
        }
    }

    /// The stable name of the failure.
    pub fn code(&self) -> (r: &'static str)
        ensures
            r@ == slug(self@),
    {
        match self {
            Error::InvalidInput(_) => "invalid_request",
            Error::InvalidModel { .. } => "invalid_model",
            Error::ProviderNotDeclared { .. } => "provider_not_declared",
            Error::MissingApiKey { .. } => "missing_api_key",
            Error::Network { .. } => "connection_error",
            Error::Decode { .. } => "decode_error",
            Error::StreamTruncated { .. } => "stream_truncated",
            Error::StreamStalled { .. } => "stream_stalled",
            Error::NotImplemented(_) => "not_implemented",
            Error::Internal(_) => "internal_error",
            Error::InvalidRoster(_) => "invalid_roster",
            Error::RateLimited(_) => "rate_limited",
            Error::QuotaExceeded(_) => "quota_exceeded",
            Error::Overloaded(_) => "overloaded",
            Error::ContextLengthExceeded(_) => "context_length_exceeded",
            Error::ContentFilter(_) => "content_filter",
            Error::Authentication(_) => "authentication",
            Error::ModelNotFound(_) => "model_not_found",
            Error::PermissionDenied(_) => "permission_denied",
            Error::InvalidRequest(_) => "provider_invalid_request",
            Error::ServerError(_) => "provider_server_error",
            Error::Unknown(_) => "provider_unknown",
            Error::CandidatesExhausted { .. } => "candidates_exhausted",
            Error::DeadlineExceeded { .. } => "deadline_exceeded",
        }
    }

    /// The failure in words.
    pub fn message(&self) -> (r: String)
        ensures
            r@ == words(self@),
    {
        match self {
            Error::InvalidInput(what) => what.clone(),
            Error::InvalidModel { given } => join3(
                "'",
                given.as_str(),
                "' is not a supported provider/model: no registered model has that name",
            ),
            Error::ProviderNotDeclared { provider } => join3(
                "provider '",
                provider.as_str(),
                "' is not declared in the configuration",
            ),
            Error::MissingApiKey { provider } => join3(
                "no API key for provider '",
                provider.as_str(),
                "'",
            ),
            Error::Network { provider, cause } => join3(
                provider.as_str(),
                ": no response: ",
                cause.as_str(),
            ),
            Error::Decode { provider, cause } => join3(
                provider.as_str(),
                ": unreadable response: ",
                cause.as_str(),
            ),
            Error::StreamTruncated { provider } => join2(
                provider.as_str(),
                ": the stream ended early",
            ),
            Error::StreamStalled { provider } => join2(
                provider.as_str(),
                ": the stream went silent",
            ),
            Error::NotImplemented(what) => join2(what.as_str(), " is not implemented"),
            Error::Internal(what) => what.clone(),
            Error::InvalidRoster(what) => what.clone(),
            Error::RateLimited(detail) => join3(
                detail.provider.as_str(),
                ": ",
                detail.message.as_str(),
            ),
            Error::QuotaExceeded(detail) => join3(
                detail.provider.as_str(),
                ": ",
                detail.message.as_str(),
            ),
            Error::Overloaded(detail) => join3(
                detail.provider.as_str(),
                ": ",
                detail.message.as_str(),
            ),
            Error::ContextLengthExceeded(detail) => join3(
                detail.provider.as_str(),
                ": ",
                detail.message.as_str(),
            ),
            Error::ContentFilter(detail) => join3(
                detail.provider.as_str(),
                ": ",
                detail.message.as_str(),
            ),
            Error::Authentication(detail) => join3(
                detail.provider.as_str(),
                ": ",
                detail.message.as_str(),
            ),
            Error::ModelNotFound(detail) => join3(
                detail.provider.as_str(),
                ": ",
                detail.message.as_str(),
            ),
            Error::PermissionDenied(detail) => join3(
                detail.provider.as_str(),
                ": ",
                detail.message.as_str(),
            ),
            Error::InvalidRequest(detail) => join3(
                detail.provider.as_str(),
                ": ",
                detail.message.as_str(),
            ),
            Error::ServerError(detail) => join3(
                detail.provider.as_str(),
                ": ",
                detail.message.as_str(),
            ),
            Error::Unknown(detail) => join3(
                detail.provider.as_str(),
                ": ",
                detail.message.as_str(),
            ),
            Error::CandidatesExhausted { models, .. } => {
                let list = write_list(models);
                join2("every candidate failed: ", list.as_str())
            },
            Error::DeadlineExceeded { .. } => "no candidate answered before the deadline".to_owned(),
        }
    }
}

} // verus!
