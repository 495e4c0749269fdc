//! What a failure means, and how it is told: laws over what a provider answered.
use vstd::prelude::*;

use crate::error::{provider_failure, said, slug, words, ErrorKind, ErrorView, ProviderErrorView};
use crate::gateway::anthropic;
use crate::gateway::error::{kind_of, ErrorMapper};
use crate::gateway::openai_compat;
use crate::gateway::openai_compat::error::{openai_form, ErrorClass};
use crate::json::JsonView;
use crate::text::decimal;

verus! {

/// A failure that no vocabulary reads, by its code or by its envelope, means what
/// its status means in HTTP: 400 and 422 a request that was not accepted, every
/// status from 500 to 599 a provider that failed, any other nothing known.
pub proof fn law_an_unread_failure_means_its_status<P: ErrorMapper, Q: ErrorMapper>(
    provider: P,
    protocol: Q,
    status: u16,
    error_type: Option<Seq<char>>,
    code: Option<Seq<char>>,
)
    requires
        code matches Some(code) ==> provider.code_rule(code) is None && protocol.code_rule(code)
            is None,
        provider.envelope_rule(status, error_type) is None,
        protocol.envelope_rule(status, error_type) is None,
    ensures
        500 <= status <= 599 ==> kind_of(provider, protocol, status, error_type, code)
            == ErrorKind::ServerError,
        status == 400 || status == 422 ==> kind_of(provider, protocol, status, error_type, code)
            == ErrorKind::InvalidRequest,
        status != 400 && status != 422 && !(500 <= status <= 599) ==> kind_of(
            provider,
            protocol,
            status,
            error_type,
            code,
        ) == ErrorKind::Unknown,
{
}

/// What either vocabulary reads is what the failure means: a code before an
/// envelope, and the provider's reading before the protocol's.
pub proof fn law_a_vocabulary_is_heeded<P: ErrorMapper, Q: ErrorMapper>(
    provider: P,
    protocol: Q,
    status: u16,
    error_type: Option<Seq<char>>,
    code: Option<Seq<char>>,
    kind: ErrorKind,
)
    ensures
        code is Some && provider.code_rule(code->0) == Some(kind) ==> kind_of(
            provider,
            protocol,
            status,
            error_type,
            code,
        ) == kind,
        code is Some && provider.code_rule(code->0) is None && protocol.code_rule(code->0) == Some(
            kind,
        ) ==> kind_of(provider, protocol, status, error_type, code) == kind,
        (code is None || (provider.code_rule(code->0) is None && protocol.code_rule(code->0)
            is None)) && provider.envelope_rule(status, error_type) == Some(kind) ==> kind_of(
            provider,
            protocol,
            status,
            error_type,
            code,
        ) == kind,
        (code is None || (provider.code_rule(code->0) is None && protocol.code_rule(code->0)
            is None)) && provider.envelope_rule(status, error_type) is None
            && protocol.envelope_rule(status, error_type) == Some(kind) ==> kind_of(
            provider,
            protocol,
            status,
            error_type,
            code,
        ) == kind,
{
}

/// A text that an error body holds in its `error` object.
pub open spec fn body_says(parsed: Option<JsonView>, key: Seq<char>) -> Option<Seq<char>> {
    if parsed is Some && parsed->0.get("error"@) is Some {
        match parsed->0.get("error"@)->0.get(key) {
            Some(JsonView::String(text)) => Some(text),
            _ => None,
        }
    } else {
        None
    }
}

/// A failure as a provider that speaks chat completions answers it.
pub open spec fn failed(
    provider: Seq<char>,
    status: u16,
    body: Seq<char>,
    parsed: Option<JsonView>,
) -> ErrorView {
    openai_compat::error::reported(provider, status, body, parsed, None, None)
}

/// A failure as Anthropic answers it.
pub open spec fn refused(
    provider: Seq<char>,
    status: u16,
    body: Seq<char>,
    parsed: Option<JsonView>,
) -> ErrorView {
    anthropic::error::reported(provider, status, body, parsed, None, None)
}

/// The codes differ.
proof fn lemma_codes()
    ensures
        "context_length_exceeded"@ != "content_filter"@,
        "context_length_exceeded"@ != "content_policy_violation"@,
        "context_length_exceeded"@ != "model_not_found"@,
        "context_length_exceeded"@ != "rate_limit_exceeded"@,
        "context_length_exceeded"@ != "insufficient_quota"@,
        "context_length_exceeded"@ != "billing_hard_limit_reached"@,
        "context_length_exceeded"@ != "invalid_api_key"@,
        "content_filter"@ != "content_policy_violation"@,
        "content_filter"@ != "model_not_found"@,
        "content_filter"@ != "rate_limit_exceeded"@,
        "content_filter"@ != "insufficient_quota"@,
        "content_filter"@ != "billing_hard_limit_reached"@,
        "content_filter"@ != "invalid_api_key"@,
        "content_policy_violation"@ != "model_not_found"@,
        "content_policy_violation"@ != "rate_limit_exceeded"@,
        "content_policy_violation"@ != "insufficient_quota"@,
        "content_policy_violation"@ != "billing_hard_limit_reached"@,
        "content_policy_violation"@ != "invalid_api_key"@,
        "model_not_found"@ != "rate_limit_exceeded"@,
        "model_not_found"@ != "insufficient_quota"@,
        "model_not_found"@ != "billing_hard_limit_reached"@,
        "model_not_found"@ != "invalid_api_key"@,
        "rate_limit_exceeded"@ != "insufficient_quota"@,
        "rate_limit_exceeded"@ != "billing_hard_limit_reached"@,
        "rate_limit_exceeded"@ != "invalid_api_key"@,
        "insufficient_quota"@ != "billing_hard_limit_reached"@,
        "insufficient_quota"@ != "invalid_api_key"@,
        "billing_hard_limit_reached"@ != "invalid_api_key"@,
{
    reveal_strlit("context_length_exceeded");
    reveal_strlit("content_filter");
    reveal_strlit("content_policy_violation");
    reveal_strlit("model_not_found");
    reveal_strlit("rate_limit_exceeded");
    reveal_strlit("insufficient_quota");
    reveal_strlit("billing_hard_limit_reached");
    reveal_strlit("invalid_api_key");
    assert("context_length_exceeded"@.len() != "content_filter"@.len());
    assert("context_length_exceeded"@.len() != "content_policy_violation"@.len());
    assert("context_length_exceeded"@.len() != "model_not_found"@.len());
    assert("context_length_exceeded"@.len() != "rate_limit_exceeded"@.len());
    assert("context_length_exceeded"@.len() != "insufficient_quota"@.len());
    assert("context_length_exceeded"@.len() != "billing_hard_limit_reached"@.len());
    assert("context_length_exceeded"@.len() != "invalid_api_key"@.len());
    assert("content_filter"@.len() != "content_policy_violation"@.len());
    assert("content_filter"@.len() != "model_not_found"@.len());
    assert("content_filter"@.len() != "rate_limit_exceeded"@.len());
    assert("content_filter"@.len() != "insufficient_quota"@.len());
    assert("content_filter"@.len() != "billing_hard_limit_reached"@.len());
    assert("content_filter"@.len() != "invalid_api_key"@.len());
    assert("content_policy_violation"@.len() != "model_not_found"@.len());
    assert("content_policy_violation"@.len() != "rate_limit_exceeded"@.len());
    assert("content_policy_violation"@.len() != "insufficient_quota"@.len());
    assert("content_policy_violation"@.len() != "billing_hard_limit_reached"@.len());
    assert("content_policy_violation"@.len() != "invalid_api_key"@.len());
    assert("model_not_found"@.len() != "rate_limit_exceeded"@.len());
    assert("model_not_found"@.len() != "insufficient_quota"@.len());
    assert("model_not_found"@.len() != "billing_hard_limit_reached"@.len());
    assert("model_not_found"@[0] != "invalid_api_key"@[0]);
    assert("rate_limit_exceeded"@.len() != "insufficient_quota"@.len());
    assert("rate_limit_exceeded"@.len() != "billing_hard_limit_reached"@.len());
    assert("rate_limit_exceeded"@.len() != "invalid_api_key"@.len());
    assert("insufficient_quota"@.len() != "billing_hard_limit_reached"@.len());
    assert("insufficient_quota"@.len() != "invalid_api_key"@.len());
    assert("billing_hard_limit_reached"@.len() != "invalid_api_key"@.len());
}

/// The families differ.
proof fn lemma_families()
    ensures
        "CreditsError"@ != "api_error"@,
        "CreditsError"@ != "authentication_error"@,
        "CreditsError"@ != "billing_error"@,
        "CreditsError"@ != "invalid_request_error"@,
        "CreditsError"@ != "not_found_error"@,
        "CreditsError"@ != "overloaded_error"@,
        "CreditsError"@ != "permission_error"@,
        "CreditsError"@ != "rate_limit_error"@,
        "CreditsError"@ != "request_too_large"@,
        "CreditsError"@ != "timeout_error"@,
        "api_error"@ != "authentication_error"@,
        "api_error"@ != "billing_error"@,
        "api_error"@ != "invalid_request_error"@,
        "api_error"@ != "not_found_error"@,
        "api_error"@ != "overloaded_error"@,
        "api_error"@ != "permission_error"@,
        "api_error"@ != "rate_limit_error"@,
        "api_error"@ != "request_too_large"@,
        "api_error"@ != "timeout_error"@,
        "authentication_error"@ != "billing_error"@,
        "authentication_error"@ != "invalid_request_error"@,
        "authentication_error"@ != "not_found_error"@,
        "authentication_error"@ != "overloaded_error"@,
        "authentication_error"@ != "permission_error"@,
        "authentication_error"@ != "rate_limit_error"@,
        "authentication_error"@ != "request_too_large"@,
        "authentication_error"@ != "timeout_error"@,
        "billing_error"@ != "invalid_request_error"@,
        "billing_error"@ != "not_found_error"@,
        "billing_error"@ != "overloaded_error"@,
        "billing_error"@ != "permission_error"@,
        "billing_error"@ != "rate_limit_error"@,
        "billing_error"@ != "request_too_large"@,
        "billing_error"@ != "timeout_error"@,
        "invalid_request_error"@ != "not_found_error"@,
        "invalid_request_error"@ != "overloaded_error"@,
        "invalid_request_error"@ != "permission_error"@,
        "invalid_request_error"@ != "rate_limit_error"@,
        "invalid_request_error"@ != "request_too_large"@,
        "invalid_request_error"@ != "timeout_error"@,
        "not_found_error"@ != "overloaded_error"@,
        "not_found_error"@ != "permission_error"@,
        "not_found_error"@ != "rate_limit_error"@,
        "not_found_error"@ != "request_too_large"@,
        "not_found_error"@ != "timeout_error"@,
        "overloaded_error"@ != "permission_error"@,
        "overloaded_error"@ != "rate_limit_error"@,
        "overloaded_error"@ != "request_too_large"@,
        "overloaded_error"@ != "timeout_error"@,
        "permission_error"@ != "rate_limit_error"@,
        "permission_error"@ != "request_too_large"@,
        "permission_error"@ != "timeout_error"@,
        "rate_limit_error"@ != "request_too_large"@,
        "rate_limit_error"@ != "timeout_error"@,
        "request_too_large"@ != "timeout_error"@,
{
    reveal_strlit("CreditsError");
    reveal_strlit("api_error");
    reveal_strlit("authentication_error");
    reveal_strlit("billing_error");
    reveal_strlit("invalid_request_error");
    reveal_strlit("not_found_error");
    reveal_strlit("overloaded_error");
    reveal_strlit("permission_error");
    reveal_strlit("rate_limit_error");
    reveal_strlit("request_too_large");
    reveal_strlit("timeout_error");
    assert("CreditsError"@.len() != "api_error"@.len());
    assert("CreditsError"@.len() != "authentication_error"@.len());
    assert("CreditsError"@.len() != "billing_error"@.len());
    assert("CreditsError"@.len() != "invalid_request_error"@.len());
    assert("CreditsError"@.len() != "not_found_error"@.len());
    assert("CreditsError"@.len() != "overloaded_error"@.len());
    assert("CreditsError"@.len() != "permission_error"@.len());
    assert("CreditsError"@.len() != "rate_limit_error"@.len());
    assert("CreditsError"@.len() != "request_too_large"@.len());
    assert("CreditsError"@.len() != "timeout_error"@.len());
    assert("api_error"@.len() != "authentication_error"@.len());
    assert("api_error"@.len() != "billing_error"@.len());
    assert("api_error"@.len() != "invalid_request_error"@.len());
    assert("api_error"@.len() != "not_found_error"@.len());
    assert("api_error"@.len() != "overloaded_error"@.len());
    assert("api_error"@.len() != "permission_error"@.len());
    assert("api_error"@.len() != "rate_limit_error"@.len());
    assert("api_error"@.len() != "request_too_large"@.len());
    assert("api_error"@.len() != "timeout_error"@.len());
    assert("authentication_error"@.len() != "billing_error"@.len());
    assert("authentication_error"@.len() != "invalid_request_error"@.len());
    assert("authentication_error"@.len() != "not_found_error"@.len());
    assert("authentication_error"@.len() != "overloaded_error"@.len());
    assert("authentication_error"@.len() != "permission_error"@.len());
    assert("authentication_error"@.len() != "rate_limit_error"@.len());
    assert("authentication_error"@.len() != "request_too_large"@.len());
    assert("authentication_error"@.len() != "timeout_error"@.len());
    assert("billing_error"@.len() != "invalid_request_error"@.len());
    assert("billing_error"@.len() != "not_found_error"@.len());
    assert("billing_error"@.len() != "overloaded_error"@.len());
    assert("billing_error"@.len() != "permission_error"@.len());
    assert("billing_error"@.len() != "rate_limit_error"@.len());
    assert("billing_error"@.len() != "request_too_large"@.len());
    assert("billing_error"@[0] != "timeout_error"@[0]);
    assert("invalid_request_error"@.len() != "not_found_error"@.len());
    assert("invalid_request_error"@.len() != "overloaded_error"@.len());
    assert("invalid_request_error"@.len() != "permission_error"@.len());
    assert("invalid_request_error"@.len() != "rate_limit_error"@.len());
    assert("invalid_request_error"@.len() != "request_too_large"@.len());
    assert("invalid_request_error"@.len() != "timeout_error"@.len());
    assert("not_found_error"@.len() != "overloaded_error"@.len());
    assert("not_found_error"@.len() != "permission_error"@.len());
    assert("not_found_error"@.len() != "rate_limit_error"@.len());
    assert("not_found_error"@.len() != "request_too_large"@.len());
    assert("not_found_error"@.len() != "timeout_error"@.len());
    assert("overloaded_error"@[0] != "permission_error"@[0]);
    assert("overloaded_error"@[0] != "rate_limit_error"@[0]);
    assert("overloaded_error"@.len() != "request_too_large"@.len());
    assert("overloaded_error"@.len() != "timeout_error"@.len());
    assert("permission_error"@[0] != "rate_limit_error"@[0]);
    assert("permission_error"@.len() != "request_too_large"@.len());
    assert("permission_error"@.len() != "timeout_error"@.len());
    assert("rate_limit_error"@.len() != "request_too_large"@.len());
    assert("rate_limit_error"@.len() != "timeout_error"@.len());
    assert("request_too_large"@.len() != "timeout_error"@.len());
}

/// The names of providers differ.
proof fn lemma_providers()
    ensures
        "deepseek"@ != "opencode"@,
{
    reveal_strlit("deepseek");
    reveal_strlit("opencode");
    assert("deepseek"@[0] != "opencode"@[0]);
}

/// A code that OpenAI documents means what it says, whoever the provider is and
/// whatever the status and the family are.
pub proof fn law_a_documented_code_decides(
    provider: Seq<char>,
    status: u16,
    body: Seq<char>,
    parsed: Option<JsonView>,
    code: Seq<char>,
)
    requires
        body_says(parsed, "code"@) == Some(code),
    ensures
        code == "context_length_exceeded"@
            ==> (failed(provider, status, body, parsed)
            matches ErrorView::ContextLengthExceeded(_)),
        code == "content_filter"@
            ==> (failed(provider, status, body, parsed) matches ErrorView::ContentFilter(_)),
        code == "content_policy_violation"@
            ==> (failed(provider, status, body, parsed) matches ErrorView::ContentFilter(_)),
        code == "model_not_found"@
            ==> (failed(provider, status, body, parsed) matches ErrorView::ModelNotFound(_)),
        code == "rate_limit_exceeded"@
            ==> (failed(provider, status, body, parsed) matches ErrorView::RateLimited(_)),
        code == "insufficient_quota"@
            ==> (failed(provider, status, body, parsed) matches ErrorView::QuotaExceeded(_)),
        code == "billing_hard_limit_reached"@
            ==> (failed(provider, status, body, parsed) matches ErrorView::QuotaExceeded(_)),
        code == "invalid_api_key"@
            ==> (failed(provider, status, body, parsed) matches ErrorView::Authentication(_)),
{
    lemma_codes();
}

/// Where no documented code is given, a status that means one thing decides; then
/// the family; then HTTP's own meaning of the status. A provider may differ only
/// where it says so.
pub proof fn law_a_status_then_a_family_decides(
    provider: Seq<char>,
    status: u16,
    body: Seq<char>,
    parsed: Option<JsonView>,
)
    requires
        body_says(parsed, "code"@) is None
            || (body_says(parsed, "code"@) != Some("context_length_exceeded"@)
            && body_says(parsed, "code"@) != Some("content_filter"@)
            && body_says(parsed, "code"@) != Some("content_policy_violation"@)
            && body_says(parsed, "code"@) != Some("model_not_found"@)
            && body_says(parsed, "code"@) != Some("rate_limit_exceeded"@)
            && body_says(parsed, "code"@) != Some("insufficient_quota"@)
            && body_says(parsed, "code"@) != Some("billing_hard_limit_reached"@)
            && body_says(parsed, "code"@) != Some("invalid_api_key"@)),
        provider == "deepseek"@ ==> status != 402,
        provider == "opencode"@ ==> body_says(parsed, "type"@) != Some("CreditsError"@),
    ensures
        ({
            let family = body_says(parsed, "type"@);
            let failure = failed(provider, status, body, parsed);
            &&& status == 401 ==> (failure matches ErrorView::Authentication(_))
            &&& status == 403 ==> (failure matches ErrorView::PermissionDenied(_))
            &&& status == 429 ==> (failure matches ErrorView::RateLimited(_))
            &&& status == 503 ==> (failure matches ErrorView::Overloaded(_))
            &&& status != 401 && status != 403 && status != 429 && status != 503 ==> {
                &&& family == Some("rate_limit_error"@)
                    ==> (failure matches ErrorView::RateLimited(_))
                &&& family == Some("overloaded_error"@)
                    ==> (failure matches ErrorView::Overloaded(_))
                &&& family == Some("authentication_error"@)
                    ==> (failure matches ErrorView::Authentication(_))
                &&& family == Some("permission_error"@)
                    ==> (failure matches ErrorView::PermissionDenied(_))
                &&& family == Some("not_found_error"@)
                    ==> (failure matches ErrorView::ModelNotFound(_))
                &&& family == Some("invalid_request_error"@)
                    ==> (failure matches ErrorView::InvalidRequest(_))
                &&& family == Some("api_error"@) ==> (failure matches ErrorView::ServerError(_))
                &&& family != Some("rate_limit_error"@) && family != Some("overloaded_error"@)
                    && family != Some("authentication_error"@)
                    && family != Some("permission_error"@) && family != Some("not_found_error"@)
                    && family != Some("invalid_request_error"@) && family != Some("api_error"@)
                    ==> {
                    &&& status == 400 || status == 422 ==> (failure
                        matches ErrorView::InvalidRequest(_))
                    &&& 500 <= status <= 599 ==> (failure matches ErrorView::ServerError(_))
                    &&& status != 400 && status != 422 && !(500 <= status <= 599) ==> (failure
                        matches ErrorView::Unknown(_))
                }
            }
        }),
{
    lemma_families();
    lemma_providers();
}

/// DeepSeek answers 402 where the balance is used up, and OpenCode names an account
/// without credit by its family; both are a quota, unless a documented code says
/// otherwise. Elsewhere neither means that.
pub proof fn law_credit_that_is_used_up_is_a_quota(
    provider: Seq<char>,
    status: u16,
    body: Seq<char>,
    parsed: Option<JsonView>,
)
    requires
        body_says(parsed, "code"@) is None,
    ensures
        provider == "deepseek"@ && status == 402 ==> (failed(provider, status, body, parsed)
            matches ErrorView::QuotaExceeded(_)),
        provider == "opencode"@ && body_says(parsed, "type"@) == Some("CreditsError"@) ==> (failed(
            provider,
            status,
            body,
            parsed,
        ) matches ErrorView::QuotaExceeded(_)),
        provider != "deepseek"@ && status == 402 && body_says(parsed, "type"@) is None ==> (failed(
            provider,
            status,
            body,
            parsed,
        ) matches ErrorView::Unknown(_)),
{
    lemma_families();
    lemma_providers();
}

/// What Anthropic answers means what it documents: by the status where that is
/// enough, else by the family, else what the status means in HTTP.
pub proof fn law_anthropics_failures_mean_what_they_say(
    provider: Seq<char>,
    status: u16,
    body: Seq<char>,
    parsed: Option<JsonView>,
)
    ensures
        ({
            let family = body_says(parsed, "type"@);
            let failure = refused(provider, status, body, parsed);
            &&& status == 401 ==> (failure matches ErrorView::Authentication(_))
            &&& status == 402 ==> (failure matches ErrorView::QuotaExceeded(_))
            &&& status == 403 ==> (failure matches ErrorView::PermissionDenied(_))
            &&& status == 404 ==> (failure matches ErrorView::ModelNotFound(_))
            &&& status == 413 ==> (failure matches ErrorView::ContextLengthExceeded(_))
            &&& status == 429 ==> (failure matches ErrorView::RateLimited(_))
            &&& status == 529 ==> (failure matches ErrorView::Overloaded(_))
            &&& status != 401 && status != 402 && status != 403 && status != 404 && status != 413
                && status != 429 && status != 529 ==> {
                &&& family == Some("authentication_error"@)
                    ==> (failure matches ErrorView::Authentication(_))
                &&& family == Some("billing_error"@)
                    ==> (failure matches ErrorView::QuotaExceeded(_))
                &&& family == Some("permission_error"@)
                    ==> (failure matches ErrorView::PermissionDenied(_))
                &&& family == Some("not_found_error"@)
                    ==> (failure matches ErrorView::ModelNotFound(_))
                &&& family == Some("request_too_large"@)
                    ==> (failure matches ErrorView::ContextLengthExceeded(_))
                &&& family == Some("rate_limit_error"@)
                    ==> (failure matches ErrorView::RateLimited(_))
                &&& family == Some("overloaded_error"@)
                    ==> (failure matches ErrorView::Overloaded(_))
                &&& family == Some("api_error"@) ==> (failure matches ErrorView::ServerError(_))
                &&& family == Some("timeout_error"@) ==> (failure matches ErrorView::ServerError(_))
                &&& family == Some("invalid_request_error"@)
                    ==> (failure matches ErrorView::InvalidRequest(_))
                &&& family != Some("authentication_error"@) && family != Some("billing_error"@)
                    && family != Some("permission_error"@) && family != Some("not_found_error"@)
                    && family != Some("request_too_large"@) && family != Some("rate_limit_error"@)
                    && family != Some("overloaded_error"@) && family != Some("api_error"@)
                    && family != Some("timeout_error"@) && family != Some("invalid_request_error"@)
                    ==> {
                    &&& status == 400 || status == 422 ==> (failure
                        matches ErrorView::InvalidRequest(_))
                    &&& 500 <= status <= 599 ==> (failure matches ErrorView::ServerError(_))
                    &&& status != 400 && status != 422 && !(500 <= status <= 599) ==> (failure
                        matches ErrorView::Unknown(_))
                }
            }
        }),
{
    lemma_families();
}

/// A failure keeps everything the provider said: its own words where the body holds
/// them and the whole body where it does not, its family, its code, how long to
/// wait and the id of the request; and the body itself, cut short where it is long.
pub proof fn law_a_failure_keeps_what_was_said(
    provider: Seq<char>,
    status: u16,
    body: Seq<char>,
    parsed: Option<JsonView>,
    retry_after: Option<u64>,
    request_id: Option<Seq<char>>,
)
    ensures
        ({
            let spoken = said(
                openai_compat::error::reported(
                    provider,
                    status,
                    body,
                    parsed,
                    retry_after,
                    request_id,
                ),
            );
            let other = said(
                anthropic::error::reported(
                    provider,
                    status,
                    body,
                    parsed,
                    retry_after,
                    request_id,
                ),
            );
            let message = match body_says(parsed, "message"@) {
                Some(text) => text,
                None => body,
            };
            &&& spoken is Some
            &&& spoken->0.provider == provider
            &&& spoken->0.status == status
            &&& spoken->0.message == message
            &&& spoken->0.error_type == body_says(parsed, "type"@)
            &&& spoken->0.provider_code == body_says(parsed, "code"@)
            &&& spoken->0.retry_after == retry_after
            &&& spoken->0.request_id == request_id
            &&& body.len() <= 4096 ==> spoken->0.raw_body == body
            &&& body.len() > 4096 ==> spoken->0.raw_body.len() == 4096 && spoken->0.raw_body
                == body.take(4096)
            &&& other is Some
            &&& other->0.provider == provider
            &&& other->0.status == status
            &&& other->0.message == message
            &&& other->0.error_type == body_says(parsed, "type"@)
            &&& other->0.provider_code is None
            &&& other->0.retry_after == retry_after
            &&& request_id is Some ==> other->0.request_id == request_id
            &&& request_id is None ==> other->0.request_id == (if parsed is Some {
                match parsed->0.get("request_id"@) {
                    Some(JsonView::String(id)) => Some(id),
                    _ => None,
                }
            } else {
                None
            })
            &&& other->0.raw_body == spoken->0.raw_body
        }),
{
}

/// What is told of a failure with this status, family and code.
pub open spec fn answers(
    error: ErrorView,
    status: Option<u16>,
    error_type: Seq<char>,
    code: Option<Seq<char>>,
) -> bool {
    let form = openai_form(error);
    &&& form.status == status
    &&& form.error.error_type == error_type
    &&& form.error.code == code
    &&& form.error.param is None
}

/// A provider's failure is told as OpenAI tells that failure. Where OpenAI has no
/// answer of its own, the provider's status, family and code stand.
pub proof fn law_a_providers_failure_is_told_as_openai_tells_it(detail: ProviderErrorView)
    ensures
        answers(
            ErrorView::RateLimited(detail),
            Some(429),
            "rate_limit_error"@,
            Some("rate_limit_exceeded"@),
        ),
        answers(
            ErrorView::QuotaExceeded(detail),
            Some(429),
            "insufficient_quota"@,
            Some("insufficient_quota"@),
        ),
        answers(ErrorView::Overloaded(detail), Some(503), "server_error"@, Some("server_error"@)),
        answers(
            ErrorView::ContextLengthExceeded(detail),
            Some(400),
            "invalid_request_error"@,
            Some("context_length_exceeded"@),
        ),
        answers(
            ErrorView::ContentFilter(detail),
            Some(400),
            "invalid_request_error"@,
            Some("content_filter"@),
        ),
        answers(
            ErrorView::Authentication(detail),
            Some(401),
            "invalid_request_error"@,
            Some("invalid_api_key"@),
        ),
        answers(
            ErrorView::ModelNotFound(detail),
            Some(404),
            "invalid_request_error"@,
            Some("model_not_found"@),
        ),
        answers(
            ErrorView::PermissionDenied(detail),
            Some(403),
            "invalid_request_error"@,
            detail.provider_code,
        ),
        answers(
            ErrorView::InvalidRequest(detail),
            Some(400),
            "invalid_request_error"@,
            detail.provider_code,
        ),
        answers(
            ErrorView::ServerError(detail),
            Some(detail.status),
            "server_error"@,
            detail.provider_code,
        ),
        answers(
            ErrorView::Unknown(detail),
            Some(detail.status),
            match detail.error_type {
                Some(family) => family,
                None => "api_error"@,
            },
            detail.provider_code,
        ),
{
}

/// Each kind of provider failure has its own stable name, is told in the provider's
/// words under its name, and carries how long to wait and the id of the request.
pub proof fn law_a_providers_failure_is_named(kind: ErrorKind, detail: ProviderErrorView)
    ensures
        ({
            let error = provider_failure(kind, detail);
            let headers = openai_form(error).headers;
            let wait: int = if detail.retry_after is Some {
                1
            } else {
                0
            };
            &&& kind == ErrorKind::RateLimited ==> error == ErrorView::RateLimited(detail)
                && slug(error) == "rate_limited"@
            &&& kind == ErrorKind::QuotaExceeded ==> error == ErrorView::QuotaExceeded(detail)
                && slug(error) == "quota_exceeded"@
            &&& kind == ErrorKind::Overloaded ==> error == ErrorView::Overloaded(detail)
                && slug(error) == "overloaded"@
            &&& kind == ErrorKind::ContextLengthExceeded
                ==> error == ErrorView::ContextLengthExceeded(detail)
                && slug(error) == "context_length_exceeded"@
            &&& kind == ErrorKind::ContentFilter ==> error == ErrorView::ContentFilter(detail)
                && slug(error) == "content_filter"@
            &&& kind == ErrorKind::Authentication ==> error == ErrorView::Authentication(detail)
                && slug(error) == "authentication"@
            &&& kind == ErrorKind::ModelNotFound ==> error == ErrorView::ModelNotFound(detail)
                && slug(error) == "model_not_found"@
            &&& kind == ErrorKind::PermissionDenied ==> error == ErrorView::PermissionDenied(detail)
                && slug(error) == "permission_denied"@
            &&& kind == ErrorKind::InvalidRequest ==> error == ErrorView::InvalidRequest(detail)
                && slug(error) == "provider_invalid_request"@
            &&& kind == ErrorKind::ServerError ==> error == ErrorView::ServerError(detail)
                && slug(error) == "provider_server_error"@
            &&& kind == ErrorKind::Unknown ==> error == ErrorView::Unknown(detail)
                && slug(error) == "provider_unknown"@
            &&& said(error) == Some(detail)
            &&& words(error) == detail.provider + ": "@ + detail.message
            &&& openai_form(error).error.message == words(error)
            &&& detail.retry_after matches Some(seconds) ==> headers.len() > 0 && headers[0] == (
                "retry-after"@,
                decimal(seconds as nat),
            )
            &&& detail.request_id matches Some(id) ==> headers.len() == wait + 1 && headers[wait]
                == ("x-request-id"@, id)
            &&& detail.request_id is None ==> headers.len() == wait
        }),
{
}

/// A failure of the gateway's own is told with the status, the family and the code
/// that OpenAI has for it, under its own stable name and without any header.
pub proof fn law_a_failure_of_ones_own_is_told(text: Seq<char>, cause: Seq<char>)
    ensures
        answers(
            ErrorView::InvalidInput(text),
            Some(400),
            "invalid_request_error"@,
            Some("invalid_request"@),
        ),
        slug(ErrorView::InvalidInput(text)) == "invalid_request"@,
        openai_form(ErrorView::InvalidInput(text)).headers.len() == 0,
        answers(
            (ErrorView::InvalidModel { given: text }),
            Some(400),
            "invalid_request_error"@,
            Some("invalid_request"@),
        ),
        slug((ErrorView::InvalidModel { given: text })) == "invalid_model"@,
        openai_form((ErrorView::InvalidModel { given: text })).headers.len() == 0,
        answers(
            (ErrorView::ProviderNotDeclared { provider: text }),
            Some(400),
            "invalid_request_error"@,
            Some("provider_not_declared"@),
        ),
        slug((ErrorView::ProviderNotDeclared { provider: text })) == "provider_not_declared"@,
        openai_form((ErrorView::ProviderNotDeclared { provider: text })).headers.len() == 0,
        answers(
            (ErrorView::MissingApiKey { provider: text }),
            Some(401),
            "invalid_request_error"@,
            Some("invalid_api_key"@),
        ),
        slug((ErrorView::MissingApiKey { provider: text })) == "missing_api_key"@,
        openai_form((ErrorView::MissingApiKey { provider: text })).headers.len() == 0,
        answers(
            (ErrorView::Network { provider: text, cause }),
            None,
            "api_connection_error"@,
            Some("connection_error"@),
        ),
        slug((ErrorView::Network { provider: text, cause })) == "connection_error"@,
        openai_form((ErrorView::Network { provider: text, cause })).headers.len() == 0,
        answers(
            (ErrorView::Decode { provider: text, cause }),
            Some(502),
            "api_error"@,
            Some("decode_error"@),
        ),
        slug((ErrorView::Decode { provider: text, cause })) == "decode_error"@,
        openai_form((ErrorView::Decode { provider: text, cause })).headers.len() == 0,
        answers(
            (ErrorView::StreamTruncated { provider: text }),
            Some(502),
            "api_error"@,
            Some("stream_truncated"@),
        ),
        slug((ErrorView::StreamTruncated { provider: text })) == "stream_truncated"@,
        openai_form((ErrorView::StreamTruncated { provider: text })).headers.len() == 0,
        answers(
            (ErrorView::StreamStalled { provider: text }),
            Some(504),
            "api_error"@,
            Some("stream_stalled"@),
        ),
        slug((ErrorView::StreamStalled { provider: text })) == "stream_stalled"@,
        openai_form((ErrorView::StreamStalled { provider: text })).headers.len() == 0,
        answers(ErrorView::NotImplemented(text), Some(501), "api_error"@, Some("not_implemented"@)),
        slug(ErrorView::NotImplemented(text)) == "not_implemented"@,
        openai_form(ErrorView::NotImplemented(text)).headers.len() == 0,
        answers(ErrorView::Internal(text), Some(500), "server_error"@, Some("internal_error"@)),
        slug(ErrorView::Internal(text)) == "internal_error"@,
        openai_form(ErrorView::Internal(text)).headers.len() == 0,
        answers(
            ErrorView::InvalidRoster(text),
            Some(500),
            "server_error"@,
            Some("invalid_roster"@),
        ),
        slug(ErrorView::InvalidRoster(text)) == "invalid_roster"@,
        openai_form(ErrorView::InvalidRoster(text)).headers.len() == 0,
{
}

/// Candidates that have all failed, and time that has run out, are told as a server that
/// cannot answer, under their own stable names; the former name every candidate.
pub proof fn law_exhausted_candidates_are_told(
    models: Seq<Seq<char>>,
    tried: Seq<(Seq<char>, ErrorView)>,
    model: Seq<char>,
)
    ensures
        answers(
            (ErrorView::CandidatesExhausted { models, tried }),
            Some(503),
            "server_error"@,
            Some("candidates_exhausted"@),
        ),
        slug((ErrorView::CandidatesExhausted { models, tried })) == "candidates_exhausted"@,
        answers(
            (ErrorView::DeadlineExceeded { tried }),
            Some(504),
            "server_error"@,
            Some("deadline_exceeded"@),
        ),
        slug((ErrorView::DeadlineExceeded { tried })) == "deadline_exceeded"@,
        words((ErrorView::CandidatesExhausted { models: seq![model], tried }))
            == "every candidate failed: "@ + model,
        models.len() > 0 ==> words(
            (ErrorView::CandidatesExhausted { models: models.push(model), tried }),
        ) == words((ErrorView::CandidatesExhausted { models, tried })) + ", "@ + model,
{
    assert(models.push(model).drop_last() =~= models);
    let head = "every candidate failed: "@;
    let before = crate::error::listed(models);
    assert(head + (before + ", "@ + model) =~= head + before + ", "@ + model);
}

/// What went wrong is told in words that name the model, the provider or the thing.
pub proof fn law_a_failure_of_ones_own_names_what_it_is_about(text: Seq<char>, cause: Seq<char>)
    ensures
        words(ErrorView::InvalidInput(text)) == text,
        words(ErrorView::Internal(text)) == text,
        words(ErrorView::InvalidRoster(text)) == text,
        words(ErrorView::NotImplemented(text)) == text + " is not implemented"@,
        words((ErrorView::InvalidModel { given: text })) == "'"@ + text
            + "' is not a supported provider/model: no registered model has that name"@,
        words((ErrorView::ProviderNotDeclared { provider: text })) == "provider '"@ + text
            + "' is not declared in the configuration"@,
        words((ErrorView::MissingApiKey { provider: text })) == "no API key for provider '"@ + text
            + "'"@,
        words((ErrorView::Network { provider: text, cause })) == text + ": no response: "@ + cause,
        words((ErrorView::Decode { provider: text, cause })) == text + ": unreadable response: "@
            + cause,
        words((ErrorView::StreamTruncated { provider: text })) == text
            + ": the stream ended early"@,
        words((ErrorView::StreamStalled { provider: text })) == text + ": the stream went silent"@,
{
}

/// The class that an OpenAI client raises is the one for the status; without a status
/// there was no connection.
pub proof fn law_the_class_is_the_status(error: ErrorView)
    ensures
        ({
            let form = openai_form(error);
            &&& form.status is None ==> form.class == ErrorClass::Connection
            &&& form.status matches Some(status) ==> {
                &&& status == 400 ==> form.class == ErrorClass::BadRequest
                &&& status == 401 ==> form.class == ErrorClass::Authentication
                &&& status == 403 ==> form.class == ErrorClass::PermissionDenied
                &&& status == 404 ==> form.class == ErrorClass::NotFound
                &&& status == 409 ==> form.class == ErrorClass::Conflict
                &&& status == 422 ==> form.class == ErrorClass::UnprocessableEntity
                &&& status == 429 ==> form.class == ErrorClass::RateLimit
                &&& status >= 500 ==> form.class == ErrorClass::InternalServer
                &&& status < 500 && status != 400 && status != 401 && status != 403 && status != 404
                    && status != 409 && status != 422 && status != 429 ==> form.class
                    == ErrorClass::Status
            }
        }),
{
}

} // verus!
