//! Failures as OpenAI-compatible providers report them, and as this library
//! reports its own in their words.
use vstd::prelude::*;

use crate::error::{bounded_body, provider_failure, said, slug, words, Error, ErrorKind, ErrorView};
use crate::error::{ProviderError, ProviderErrorView};
use crate::gateway::error::{classify, kind_of, ErrorMapper};
use crate::json::{Json, JsonView};
use crate::json_text::json_of_text;
use crate::text::{decimal, same_text, write_u64};

use super::provider_overrides::{error_mapper, override_of};

verus! {

/// The text of a field of the `error` object in an error body.
pub open spec fn error_field(body: Option<JsonView>, name: Seq<char>) -> Option<Seq<char>> {
    match body {
        Some(value) => match value.get("error"@) {
            Some(error) => error.str_at(name),
            None => None,
        },
        None => None,
    }
}

/// Reads the text of a field of the `error` object in an error body.
pub fn read_error_field(body: &Option<Json>, name: &str) -> (r: Option<String>)
    ensures
        r.deep_view() == error_field(body.deep_view(), name@),
{
    match body {
        Some(value) => match value.get("error") {
            Some(error) => error.str_at(name),
            None => None,
        },
        None => None,
    }
}

/// The failure an error body reports, once it has been read as JSON.
pub open spec fn reported(
    provider: Seq<char>,
    status: u16,
    body: Seq<char>,
    parsed: Option<JsonView>,
    retry_after: Option<u64>,
    request_id: Option<Seq<char>>,
) -> ErrorView {
    let error_type = error_field(parsed, "type"@);
    let code = error_field(parsed, "code"@);
    provider_failure(
        kind_of(override_of(provider), OpenAiCompat, status, error_type, code),
        ProviderErrorView {
            provider,
            status,
            message: match error_field(parsed, "message"@) {
                Some(message) => message,
                None => body,
            },
            error_type,
            provider_code: code,
            retry_after,
            request_id,
            raw_body: bounded_body(body),
        },
    )
}

/// Reads the failure that an error body reports. A body that is not JSON is its
/// own message.
pub fn error_from_body(
    provider: &str,
    status: u16,
    body: &str,
    retry_after: Option<u64>,
    request_id: Option<String>,
) -> (r: Error)
    ensures
        r@ == reported(
            provider@,
            status,
            body@,
            json_of_text(body@),
            retry_after,
            request_id.deep_view(),
        ),
{
    error_from_parsed(provider, status, body, Json::parse(body), retry_after, request_id)
}

/// Reads the failure that an error body reports, given the JSON it holds.
pub fn error_from_parsed(
    provider: &str,
    status: u16,
    body: &str,
    parsed: Option<Json>,
    retry_after: Option<u64>,
    request_id: Option<String>,
) -> (r: Error)
    ensures
        r@ == reported(
            provider@,
            status,
            body@,
            parsed.deep_view(),
            retry_after,
            request_id.deep_view(),
        ),
{
    let error_type = read_error_field(&parsed, "type");
    let code = read_error_field(&parsed, "code");
    let message = match read_error_field(&parsed, "message") {
        Some(message) => message,
        None => body.to_owned(),
    };
    let type_text: Option<&str> = match &error_type {
        Some(text) => Some(text.as_str()),
        None => None,
    };
    let code_text: Option<&str> = match &code {
        Some(text) => Some(text.as_str()),
        None => None,
    };
    let kind = classify(&error_mapper(provider), &OpenAiCompat, status, type_text, code_text);
    Error::classified(
        kind,
        ProviderError {
            provider: provider.to_owned(),
            status,
            message,
            error_type,
            provider_code: code,
            retry_after,
            request_id,
            raw_body: ProviderError::bounded(body),
        },
    )
}

/// The vocabulary that OpenAI documents.
pub struct OpenAiCompat;

impl ErrorMapper for OpenAiCompat {
    open spec fn code_rule(&self, code: Seq<char>) -> Option<ErrorKind> {
        if code == "context_length_exceeded"@ {
            Some(ErrorKind::ContextLengthExceeded)
        } else if code == "content_filter"@ || code == "content_policy_violation"@ {
            Some(ErrorKind::ContentFilter)
        } else if code == "model_not_found"@ {
            Some(ErrorKind::ModelNotFound)
        } else if code == "rate_limit_exceeded"@ {
            Some(ErrorKind::RateLimited)
        } else if code == "insufficient_quota"@ || code == "billing_hard_limit_reached"@ {
            Some(ErrorKind::QuotaExceeded)
        } else if code == "invalid_api_key"@ {
            Some(ErrorKind::Authentication)
        } else {
            None
        }
    }

    /// A status that means one thing decides over the family, which providers
    /// use as a catch-all.
    open spec fn envelope_rule(&self, status: u16, error_type: Option<Seq<char>>) -> Option<
        ErrorKind,
    > {
        if status == 401 {
            Some(ErrorKind::Authentication)
        } else if status == 403 {
            Some(ErrorKind::PermissionDenied)
        } else if status == 429 {
            Some(ErrorKind::RateLimited)
        } else if status == 503 {
            Some(ErrorKind::Overloaded)
        } else if error_type == Some("rate_limit_error"@) {
            Some(ErrorKind::RateLimited)
        } else if error_type == Some("overloaded_error"@) {
            Some(ErrorKind::Overloaded)
        } else if error_type == Some("authentication_error"@) {
            Some(ErrorKind::Authentication)
        } else if error_type == Some("permission_error"@) {
            Some(ErrorKind::PermissionDenied)
        } else if error_type == Some("not_found_error"@) {
            Some(ErrorKind::ModelNotFound)
        } else if error_type == Some("invalid_request_error"@) {
            Some(ErrorKind::InvalidRequest)
        } else if error_type == Some("api_error"@) {
            Some(ErrorKind::ServerError)
        } else {
            None
        }
    }

    fn from_code(&self, code: &str) -> (r: Option<ErrorKind>) {
        if same_text(code, "context_length_exceeded") {
            Some(ErrorKind::ContextLengthExceeded)
        } else if same_text(code, "content_filter") || same_text(code, "content_policy_violation") {
            Some(ErrorKind::ContentFilter)
        } else if same_text(code, "model_not_found") {
            Some(ErrorKind::ModelNotFound)
        } else if same_text(code, "rate_limit_exceeded") {
            Some(ErrorKind::RateLimited)
        } else if same_text(code, "insufficient_quota") || same_text(
            code,
            "billing_hard_limit_reached",
        ) {
            Some(ErrorKind::QuotaExceeded)
        } else if same_text(code, "invalid_api_key") {
            Some(ErrorKind::Authentication)
        } else {
            None
        }
    }

    fn from_status_and_type(&self, status: u16, error_type: Option<&str>) -> (r: Option<
        ErrorKind,
    >) {
        if status == 401 {
            return Some(ErrorKind::Authentication);
        }
        if status == 403 {
            return Some(ErrorKind::PermissionDenied);
        }
        if status == 429 {
            return Some(ErrorKind::RateLimited);
        }
        if status == 503 {
            return Some(ErrorKind::Overloaded);
        }
        let Some(family) = error_type else {
            return None;
        };
        if same_text(family, "rate_limit_error") {
            Some(ErrorKind::RateLimited)
        } else if same_text(family, "overloaded_error") {
            Some(ErrorKind::Overloaded)
        } else if same_text(family, "authentication_error") {
            Some(ErrorKind::Authentication)
        } else if same_text(family, "permission_error") {
            Some(ErrorKind::PermissionDenied)
        } else if same_text(family, "not_found_error") {
            Some(ErrorKind::ModelNotFound)
        } else if same_text(family, "invalid_request_error") {
            Some(ErrorKind::InvalidRequest)
        } else if same_text(family, "api_error") {
            Some(ErrorKind::ServerError)
        } else {
            None
        }
    }
}

/// What a failure means depends on the status, the family and the code alone:
/// no wording of the message changes it.
pub proof fn law_the_message_decides_nothing(
    provider: Seq<char>,
    status: u16,
    body1: Seq<char>,
    parsed1: Option<JsonView>,
    body2: Seq<char>,
    parsed2: Option<JsonView>,
    retry_after: Option<u64>,
    request_id: Option<Seq<char>>,
)
    requires
        error_field(parsed1, "type"@) == error_field(parsed2, "type"@),
        error_field(parsed1, "code"@) == error_field(parsed2, "code"@),
    ensures
        slug(reported(provider, status, body1, parsed1, retry_after, request_id)) == slug(
            reported(provider, status, body2, parsed2, retry_after, request_id),
        ),
{
}

/// Every failure read from a body is the provider's, and keeps what the provider
/// said: its family, its code, its status and what the headers held.
pub proof fn law_classifying_keeps_what_was_said(
    provider: Seq<char>,
    status: u16,
    body: Seq<char>,
    parsed: Option<JsonView>,
    retry_after: Option<u64>,
    request_id: Option<Seq<char>>,
)
    ensures
        ({
            let detail = said(reported(provider, status, body, parsed, retry_after, request_id));
            &&& detail is Some
            &&& detail->0.provider == provider
            &&& detail->0.status == status
            &&& detail->0.error_type == error_field(parsed, "type"@)
            &&& detail->0.provider_code == error_field(parsed, "code"@)
            &&& detail->0.retry_after == retry_after
            &&& detail->0.request_id == request_id
            &&& detail->0.raw_body == bounded_body(body)
        }),
{
}

/// What OpenAI answers for a failure. Where a part is absent, the provider's own
/// answer stands.
pub struct Opinion {
    pub status: OpinionStatus,
    pub error_type: Option<&'static str>,
    pub code: Option<&'static str>,
}

/// The status OpenAI answers a failure with.
#[derive(Debug, Clone, Copy, PartialEq, Eq, Structural)]
pub enum OpinionStatus {
    Is(u16),
    /// No exchange took place at all.
    NoResponse,
    /// The provider's own status stands.
    Upstream,
}

/// The value of an [`Opinion`].
#[verifier::ext_equal]
pub struct OpinionView {
    pub status: OpinionStatus,
    pub error_type: Option<Seq<char>>,
    pub code: Option<Seq<char>>,
}

impl View for Opinion {
    type V = OpinionView;

    open spec fn view(&self) -> OpinionView {
        OpinionView {
            status: self.status,
            error_type: self.error_type.deep_view(),
            code: self.code.deep_view(),
        }
    }
}

/// An opinion on the status, the family and the code.
pub open spec fn holds(status: u16, error_type: Seq<char>, code: Seq<char>) -> OpinionView {
    OpinionView {
        status: OpinionStatus::Is(status),
        error_type: Some(error_type),
        code: Some(code),
    }
}

/// What OpenAI answers for each failure.
pub open spec fn opinion_of(error: ErrorView) -> OpinionView {
    match error {
        ErrorView::InvalidInput(_) | ErrorView::InvalidModel { .. } => holds(
            400,
            "invalid_request_error"@,
            "invalid_request"@,
        ),
        ErrorView::ProviderNotDeclared { .. } => holds(
            400,
            "invalid_request_error"@,
            "provider_not_declared"@,
        ),
        ErrorView::MissingApiKey { .. } => holds(
            401,
            "invalid_request_error"@,
            "invalid_api_key"@,
        ),
        ErrorView::Network { .. } => OpinionView {
            status: OpinionStatus::NoResponse,
            error_type: Some("api_connection_error"@),
            code: Some("connection_error"@),
        },
        ErrorView::Decode { .. } => holds(
            502,
            "api_error"@,
            "decode_error"@,
        ),
        ErrorView::StreamTruncated { .. } => holds(
            502,
            "api_error"@,
            "stream_truncated"@,
        ),
        ErrorView::StreamStalled { .. } => holds(
            504,
            "api_error"@,
            "stream_stalled"@,
        ),
        ErrorView::NotImplemented(_) => holds(
            501,
            "api_error"@,
            "not_implemented"@,
        ),
        ErrorView::Internal(_) => holds(
            500,
            "server_error"@,
            "internal_error"@,
        ),
        ErrorView::InvalidRoster(_) => holds(
            500,
            "server_error"@,
            "invalid_roster"@,
        ),
        ErrorView::RateLimited(_) => holds(
            429,
            "rate_limit_error"@,
            "rate_limit_exceeded"@,
        ),
        ErrorView::QuotaExceeded(_) => holds(
            429,
            "insufficient_quota"@,
            "insufficient_quota"@,
        ),
        ErrorView::Overloaded(_) => holds(
            503,
            "server_error"@,
            "server_error"@,
        ),
        ErrorView::ContextLengthExceeded(_) => holds(
            400,
            "invalid_request_error"@,
            "context_length_exceeded"@,
        ),
        ErrorView::ContentFilter(_) => holds(
            400,
            "invalid_request_error"@,
            "content_filter"@,
        ),
        ErrorView::Authentication(_) => holds(
            401,
            "invalid_request_error"@,
            "invalid_api_key"@,
        ),
        ErrorView::ModelNotFound(_) => holds(
            404,
            "invalid_request_error"@,
            "model_not_found"@,
        ),
        ErrorView::PermissionDenied(_) => OpinionView {
            status: OpinionStatus::Is(403),
            error_type: Some("invalid_request_error"@),
            code: None,
        },
        ErrorView::InvalidRequest(_) => OpinionView {
            status: OpinionStatus::Is(400),
            error_type: Some("invalid_request_error"@),
            code: None,
        },
        ErrorView::ServerError(_) => OpinionView {
            status: OpinionStatus::Upstream,
            error_type: Some("server_error"@),
            code: None,
        },
        ErrorView::CandidatesExhausted { .. } => holds(
            503,
            "server_error"@,
            "candidates_exhausted"@,
        ),
        ErrorView::DeadlineExceeded { .. } => holds(
            504,
            "server_error"@,
            "deadline_exceeded"@,
        ),
        ErrorView::Unknown(_) => OpinionView {
            status: OpinionStatus::Upstream,
            error_type: None,
            code: None,
        },
    }
}

/// Says what OpenAI answers for a failure.
pub fn opinion(error: &Error) -> (r: Opinion)
    ensures
        r@ == opinion_of(error@),
{
    let (status, error_type, code): (OpinionStatus, Option<&'static str>, Option<&'static str>) =
        match error {
        Error::InvalidInput(_) | Error::InvalidModel { .. } => (
            OpinionStatus::Is(400),
            Some("invalid_request_error"),
            Some("invalid_request"),
        ),
        Error::ProviderNotDeclared { .. } => (
            OpinionStatus::Is(400),
            Some("invalid_request_error"),
            Some("provider_not_declared"),
        ),
        Error::MissingApiKey { .. } => (
            OpinionStatus::Is(401),
            Some("invalid_request_error"),
            Some("invalid_api_key"),
        ),
        Error::Network { .. } => (
            OpinionStatus::NoResponse,
            Some("api_connection_error"),
            Some("connection_error"),
        ),
        Error::Decode { .. } => (
            OpinionStatus::Is(502),
            Some("api_error"),
            Some("decode_error"),
        ),
        Error::StreamTruncated { .. } => (
            OpinionStatus::Is(502),
            Some("api_error"),
            Some("stream_truncated"),
        ),
        Error::StreamStalled { .. } => (
            OpinionStatus::Is(504),
            Some("api_error"),
            Some("stream_stalled"),
        ),
        Error::NotImplemented(_) => (
            OpinionStatus::Is(501),
            Some("api_error"),
            Some("not_implemented"),
        ),
        Error::Internal(_) => (
            OpinionStatus::Is(500),
            Some("server_error"),
            Some("internal_error"),
        ),
        Error::InvalidRoster(_) => (
            OpinionStatus::Is(500),
            Some("server_error"),
            Some("invalid_roster"),
        ),
        Error::RateLimited(_) => (
            OpinionStatus::Is(429),
            Some("rate_limit_error"),
            Some("rate_limit_exceeded"),
        ),
        Error::QuotaExceeded(_) => (
            OpinionStatus::Is(429),
            Some("insufficient_quota"),
            Some("insufficient_quota"),
        ),
        Error::Overloaded(_) => (
            OpinionStatus::Is(503),
            Some("server_error"),
            Some("server_error"),
        ),
        Error::ContextLengthExceeded(_) => (
            OpinionStatus::Is(400),
            Some("invalid_request_error"),
            Some("context_length_exceeded"),
        ),
        Error::ContentFilter(_) => (
            OpinionStatus::Is(400),
            Some("invalid_request_error"),
            Some("content_filter"),
        ),
        Error::Authentication(_) => (
            OpinionStatus::Is(401),
            Some("invalid_request_error"),
            Some("invalid_api_key"),
        ),
        Error::ModelNotFound(_) => (
            OpinionStatus::Is(404),
            Some("invalid_request_error"),
            Some("model_not_found"),
        ),
        Error::PermissionDenied(_) => (
            OpinionStatus::Is(403),
            Some("invalid_request_error"),
            None,
        ),
        Error::InvalidRequest(_) => (
            OpinionStatus::Is(400),
            Some("invalid_request_error"),
            None,
        ),
        Error::ServerError(_) => (
            OpinionStatus::Upstream,
            Some("server_error"),
            None,
        ),
        Error::CandidatesExhausted { .. } => (
            OpinionStatus::Is(503),
            Some("server_error"),
            Some("candidates_exhausted"),
        ),
        Error::DeadlineExceeded { .. } => (
            OpinionStatus::Is(504),
            Some("server_error"),
            Some("deadline_exceeded"),
        ),
        Error::Unknown(_) => (
            OpinionStatus::Upstream,
            None,
            None,
        ),
    };
    Opinion { status, error_type, code }
}

/// The class an OpenAI client raises for a status.
#[derive(Debug, Clone, Copy, PartialEq, Eq, Structural)]
pub enum ErrorClass {
    Connection,
    BadRequest,
    Authentication,
    PermissionDenied,
    NotFound,
    Conflict,
    UnprocessableEntity,
    RateLimit,
    InternalServer,
    Status,
}

/// The class an OpenAI client raises for a status; without one there was no
/// response.
pub open spec fn class_of(status: Option<u16>) -> ErrorClass {
    match status {
        None => ErrorClass::Connection,
        Some(status) => if status == 400 {
            ErrorClass::BadRequest
        } else if status == 401 {
            ErrorClass::Authentication
        } else if status == 403 {
            ErrorClass::PermissionDenied
        } else if status == 404 {
            ErrorClass::NotFound
        } else if status == 409 {
            ErrorClass::Conflict
        } else if status == 422 {
            ErrorClass::UnprocessableEntity
        } else if status == 429 {
            ErrorClass::RateLimit
        } else if status >= 500 {
            ErrorClass::InternalServer
        } else {
            ErrorClass::Status
        },
    }
}

impl ErrorClass {
    /// Finds the class of a status.
    pub fn from_status(status: Option<u16>) -> (r: ErrorClass)
        ensures
            r == class_of(status),
    {
        match status {
            None => ErrorClass::Connection,
            Some(status) => if status == 400 {
                ErrorClass::BadRequest
            } else if status == 401 {
                ErrorClass::Authentication
            } else if status == 403 {
                ErrorClass::PermissionDenied
            } else if status == 404 {
                ErrorClass::NotFound
            } else if status == 409 {
                ErrorClass::Conflict
            } else if status == 422 {
                ErrorClass::UnprocessableEntity
            } else if status == 429 {
                ErrorClass::RateLimit
            } else if status >= 500 {
                ErrorClass::InternalServer
            } else {
                ErrorClass::Status
            },
        }
    }
}

/// The body of an OpenAI error.
#[derive(Debug, PartialEq)]
pub struct ErrorBody {
    pub message: String,
    pub error_type: String,
    pub param: Option<String>,
    pub code: Option<String>,
}

/// The value of a [`ErrorBody`].
#[verifier::ext_equal]
pub struct ErrorBodyView {
    pub message: Seq<char>,
    pub error_type: Seq<char>,
    pub param: Option<Seq<char>>,
    pub code: Option<Seq<char>>,
}

impl View for ErrorBody {
    type V = ErrorBodyView;

    open spec fn view(&self) -> ErrorBodyView {
        ErrorBodyView {
            message: self.message@,
            error_type: self.error_type@,
            param: self.param.deep_view(),
            code: self.code.deep_view(),
        }
    }
}

impl DeepView for ErrorBody {
    type V = ErrorBodyView;

    open spec fn deep_view(&self) -> ErrorBodyView {
        self@
    }
}

/// An error in the form OpenAI reports it.
#[derive(Debug, PartialEq)]
pub struct OpenAiError {
    pub class: ErrorClass,
    pub status: Option<u16>,
    pub headers: Vec<(String, String)>,
    pub error: ErrorBody,
}

/// The value of a [`OpenAiError`].
#[verifier::ext_equal]
pub struct OpenAiErrorView {
    pub class: ErrorClass,
    pub status: Option<u16>,
    pub headers: Seq<(Seq<char>, Seq<char>)>,
    pub error: ErrorBodyView,
}

impl View for OpenAiError {
    type V = OpenAiErrorView;

    open spec fn view(&self) -> OpenAiErrorView {
        OpenAiErrorView {
            class: self.class,
            status: self.status,
            headers: self.headers.deep_view(),
            error: self.error@,
        }
    }
}

impl DeepView for OpenAiError {
    type V = OpenAiErrorView;

    open spec fn deep_view(&self) -> OpenAiErrorView {
        self@
    }
}

/// A failure as OpenAI would have reported it.
pub open spec fn openai_form(error: ErrorView) -> OpenAiErrorView {
    let opinion = opinion_of(error);
    let status = match opinion.status {
        OpinionStatus::Is(status) => Some(status),
        OpinionStatus::NoResponse => None,
        OpinionStatus::Upstream => match said(error) {
            Some(detail) => Some(detail.status),
            None => None,
        },
    };
    OpenAiErrorView {
        class: class_of(status),
        status,
        headers: evidence_headers(said(error)),
        error: ErrorBodyView {
            message: words(error),
            error_type: match opinion.error_type {
                Some(error_type) => error_type,
                None => match said(error) {
                    Some(ProviderErrorView { error_type: Some(error_type), .. }) => error_type,
                    _ => "api_error"@,
                },
            },
            param: None,
            code: match opinion.code {
                Some(code) => Some(code),
                None => match said(error) {
                    Some(detail) => detail.provider_code,
                    None => None,
                },
            },
        },
    }
}

/// The headers that carry what the provider said in its own.
pub open spec fn evidence_headers(said: Option<ProviderErrorView>) -> Seq<(Seq<char>, Seq<char>)> {
    match said {
        Some(detail) => {
            let wait = match detail.retry_after {
                Some(seconds) => seq![("retry-after"@, decimal(seconds as nat))],
                None => Seq::empty(),
            };
            match detail.request_id {
                Some(id) => wait.push(("x-request-id"@, id)),
                None => wait,
            }
        },
        None => Seq::empty(),
    }
}

fn write_evidence(error: &Error) -> (r: Vec<(String, String)>)
    ensures
        r.deep_view() == evidence_headers(said(error@)),
{
    let mut headers: Vec<(String, String)> = Vec::new();
    if let Some(detail) = error.provider_error() {
        if let Some(seconds) = detail.retry_after {
            headers.push(("retry-after".to_owned(), write_u64(seconds)));
        }
        if let Some(id) = &detail.request_id {
            headers.push(("x-request-id".to_owned(), id.clone()));
        }
    }
    assert(headers.deep_view() =~= evidence_headers(said(error@)));
    headers
}

/// Renders a failure as OpenAI would have reported it.
pub fn to_openai(error: &Error) -> (r: OpenAiError)
    ensures
        r@ == openai_form(error@),
{
    let opinion = opinion(error);
    let upstream = error.provider_error();
    let status: Option<u16> = match opinion.status {
        OpinionStatus::Is(status) => Some(status),
        OpinionStatus::NoResponse => None,
        OpinionStatus::Upstream => match upstream {
            Some(detail) => Some(detail.status),
            None => None,
        },
    };
    let error_type = match opinion.error_type {
        Some(error_type) => error_type.to_owned(),
        None => match upstream {
            Some(ProviderError { error_type: Some(error_type), .. }) => error_type.clone(),
            _ => "api_error".to_owned(),
        },
    };
    let code = match opinion.code {
        Some(code) => Some(code.to_owned()),
        None => match upstream {
            Some(ProviderError { provider_code: Some(code), .. }) => Some(code.clone()),
            _ => None,
        },
    };
    OpenAiError {
        class: ErrorClass::from_status(status),
        status,
        headers: write_evidence(error),
        error: ErrorBody { message: error.message(), error_type, param: None, code },
    }
}

impl Error {
    /// Renders this failure as OpenAI would have reported it.
    pub fn to_openai(&self) -> (r: OpenAiError)
        ensures
            r@ == openai_form(self@),
    {
        to_openai(self)
    }
}

/// A failure of this library's own carries no header of any provider.
pub proof fn law_only_a_provider_failure_carries_headers(error: ErrorView)
    requires
        said(error) is None,
    ensures
        openai_form(error).headers.len() == 0,
{
}

} // verus!
