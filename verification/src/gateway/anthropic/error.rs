//! Failures as Anthropic reports them.
use vstd::prelude::*;

use crate::error::{bounded_body, provider_failure, said, Error, ErrorKind, ErrorView};
use crate::error::{ProviderError, ProviderErrorView};
use crate::gateway::error::{classify, kind_of, ErrorMapper, MatchesProtocol};
use crate::gateway::openai_compat::error::{error_field, read_error_field};
use crate::json::{Json, JsonView};
use crate::json_text::json_of_text;
use crate::text::same_text;

verus! {

/// The id of the request: the one the headers gave, else the one in the body.
pub open spec fn request_id_of(given: Option<Seq<char>>, parsed: Option<JsonView>) -> Option<
    Seq<char>,
> {
    match given {
        Some(id) => Some(id),
        None => match parsed {
            Some(value) => value.str_at("request_id"@),
            None => None,
        },
    }
}

/// The failure an error body reports, once it has been read as JSON.
pub open spec fn reported(
    provider: Seq<char>,
    status: u16,
    body: Seq<char>,
    parsed: Option<JsonView>,
    retry_after: Option<u64>,
    request_id: Option<Seq<char>>,
) -> ErrorView {
    let error_type = error_field(parsed, "type"@);
    provider_failure(
        kind_of(MatchesProtocol, Anthropic, status, error_type, None),
        ProviderErrorView {
            provider,
            status,
            message: match error_field(parsed, "message"@) {
                Some(message) => message,
                None => body,
            },
            error_type,
            provider_code: None,
            retry_after,
            request_id: request_id_of(request_id, parsed),
            raw_body: bounded_body(body),
        },
    )
}

/// Reads the failure that an error body reports. A body that is not JSON is its
/// own message.
pub fn error_from_body(
    provider: &str,
    status: u16,
    body: &str,
    retry_after: Option<u64>,
    request_id: Option<String>,
) -> (r: Error)
    ensures
        r@ == reported(
            provider@,
            status,
            body@,
            json_of_text(body@),
            retry_after,
            request_id.deep_view(),
        ),
{
    error_from_parsed(provider, status, body, Json::parse(body), retry_after, request_id)
}

/// Reads the failure that an error body reports, given the JSON it holds.
pub fn error_from_parsed(
    provider: &str,
    status: u16,
    body: &str,
    parsed: Option<Json>,
    retry_after: Option<u64>,
    request_id: Option<String>,
) -> (r: Error)
    ensures
        r@ == reported(
            provider@,
            status,
            body@,
            parsed.deep_view(),
            retry_after,
            request_id.deep_view(),
        ),
{
    let error_type = read_error_field(&parsed, "type");
    let message = match read_error_field(&parsed, "message") {
        Some(message) => message,
        None => body.to_owned(),
    };
    let type_text: Option<&str> = match &error_type {
        Some(text) => Some(text.as_str()),
        None => None,
    };
    let id = match request_id {
        Some(id) => Some(id),
        None => match &parsed {
            Some(value) => value.str_at("request_id"),
            None => None,
        },
    };
    let kind = classify(&MatchesProtocol, &Anthropic, status, type_text, None);
    Error::classified(
        kind,
        ProviderError {
            provider: provider.to_owned(),
            status,
            message,
            error_type,
            provider_code: None,
            retry_after,
            request_id: id,
            raw_body: ProviderError::bounded(body),
        },
    )
}

/// The vocabulary that Anthropic documents.
pub struct Anthropic;

impl ErrorMapper for Anthropic {
    open spec fn code_rule(&self, code: Seq<char>) -> Option<ErrorKind> {
        None
    }

    /// Each status Anthropic documents means one thing, so it decides; an error
    /// within a stream has none of them and is told by its family.
    open spec fn envelope_rule(&self, status: u16, error_type: Option<Seq<char>>) -> Option<
        ErrorKind,
    > {
        if status == 401 {
            Some(ErrorKind::Authentication)
        } else if status == 402 {
            Some(ErrorKind::QuotaExceeded)
        } else if status == 403 {
            Some(ErrorKind::PermissionDenied)
        } else if status == 404 {
            Some(ErrorKind::ModelNotFound)
        } else if status == 413 {
            Some(ErrorKind::ContextLengthExceeded)
        } else if status == 429 {
            Some(ErrorKind::RateLimited)
        } else if status == 529 {
            Some(ErrorKind::Overloaded)
        } else if error_type == Some("authentication_error"@) {
            Some(ErrorKind::Authentication)
        } else if error_type == Some("billing_error"@) {
            Some(ErrorKind::QuotaExceeded)
        } else if error_type == Some("permission_error"@) {
            Some(ErrorKind::PermissionDenied)
        } else if error_type == Some("not_found_error"@) {
            Some(ErrorKind::ModelNotFound)
        } else if error_type == Some("request_too_large"@) {
            Some(ErrorKind::ContextLengthExceeded)
        } else if error_type == Some("rate_limit_error"@) {
            Some(ErrorKind::RateLimited)
        } else if error_type == Some("overloaded_error"@) {
            Some(ErrorKind::Overloaded)
        } else if error_type == Some("api_error"@) || error_type == Some("timeout_error"@) {
            Some(ErrorKind::ServerError)
        } else if error_type == Some("invalid_request_error"@) {
            Some(ErrorKind::InvalidRequest)
        } else {
            None
        }
    }

    fn from_code(&self, code: &str) -> (r: Option<ErrorKind>) {
        None
    }

    fn from_status_and_type(&self, status: u16, error_type: Option<&str>) -> (r: Option<
        ErrorKind,
    >) {
        if status == 401 {
            return Some(ErrorKind::Authentication);
        }
        if status == 402 {
            return Some(ErrorKind::QuotaExceeded);
        }
        if status == 403 {
            return Some(ErrorKind::PermissionDenied);
        }
        if status == 404 {
            return Some(ErrorKind::ModelNotFound);
        }
        if status == 413 {
            return Some(ErrorKind::ContextLengthExceeded);
        }
        if status == 429 {
            return Some(ErrorKind::RateLimited);
        }
        if status == 529 {
            return Some(ErrorKind::Overloaded);
        }
        let Some(family) = error_type else {
            return None;
        };
        if same_text(family, "authentication_error") {
            Some(ErrorKind::Authentication)
        } else if same_text(family, "billing_error") {
            Some(ErrorKind::QuotaExceeded)
        } else if same_text(family, "permission_error") {
            Some(ErrorKind::PermissionDenied)
        } else if same_text(family, "not_found_error") {
            Some(ErrorKind::ModelNotFound)
        } else if same_text(family, "request_too_large") {
            Some(ErrorKind::ContextLengthExceeded)
        } else if same_text(family, "rate_limit_error") {
            Some(ErrorKind::RateLimited)
        } else if same_text(family, "overloaded_error") {
            Some(ErrorKind::Overloaded)
        } else if same_text(family, "api_error") || same_text(family, "timeout_error") {
            Some(ErrorKind::ServerError)
        } else if same_text(family, "invalid_request_error") {
            Some(ErrorKind::InvalidRequest)
        } else {
            None
        }
    }
}

/// Every failure read from a body is the provider's, and keeps what the provider
/// said.
pub proof fn law_classifying_keeps_what_was_said(
    provider: Seq<char>,
    status: u16,
    body: Seq<char>,
    parsed: Option<JsonView>,
    retry_after: Option<u64>,
    request_id: Option<Seq<char>>,
)
    ensures
        ({
            let detail = said(reported(provider, status, body, parsed, retry_after, request_id));
            &&& detail is Some
            &&& detail->0.provider == provider
            &&& detail->0.status == status
            &&& detail->0.error_type == error_field(parsed, "type"@)
            &&& detail->0.retry_after == retry_after
            &&& request_id is Some ==> detail->0.request_id == request_id
            &&& detail->0.raw_body == bounded_body(body)
        }),
{
}

} // verus!
