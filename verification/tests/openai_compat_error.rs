use warpllm::error::{Error, Origin, ProviderError};
use warpllm::gateway::openai_compat::error::{error_from_body, to_openai};
use warpllm::http::find_header;

fn classified(status: u16, body: &str) -> Error {
    error_from_body("demo", status, body, None, None)
}
fn kind_of(status: u16, body: &str) -> &'static str {
    classified(status, body).code()
}

fn detail_of(error: &Error) -> &ProviderError {
    error
        .provider_error()
        .unwrap_or_else(|| panic!("expected a provider failure, got {error:?}"))
}

#[test]
fn unparseable_error_body_is_preserved() {
    let body = "x".repeat(1_024);
    let err = error_from_body("openai", 503, &body, None, None);
    assert_eq!(err.provider_error().unwrap().message, body);
}
#[test]
fn a_classified_failure_is_always_provider_driven() {
    for (status, body) in [(429, "{}"), (400, "not json"), (402, "{}")] {
        assert_eq!(
            classified(status, body).origin(),
            Origin::Provider,
            "{status}"
        );
    }
}
#[test]
fn a_providers_own_vocabulary_reaches_the_classifier() {
    assert!(matches!(
        error_from_body("deepseek", 402, "{}", None, None),
        Error::QuotaExceeded(_)
    ));
    // Anyone else gets the protocol, which says nothing about 402 and
    // falls to the HTTP residual.
    assert!(matches!(
        error_from_body("openai", 402, "{}", None, None),
        Error::Unknown(_)
    ));
}
#[test]
fn a_providers_status_rule_loses_to_a_code_it_did_not_claim() {
    let body = r#"{"error":{"message":"m","code":"invalid_api_key"}}"#;
    assert!(matches!(
        error_from_body("deepseek", 402, body, None, None),
        Error::Authentication(_)
    ));
}
#[test]
fn code_outranks_type_and_status() {
    for (status, error_type, code, expected) in [
        (
            400,
            "invalid_request_error",
            "context_length_exceeded",
            "context_length_exceeded",
        ),
        (
            400,
            "invalid_request_error",
            "content_filter",
            "content_filter",
        ),
        (
            404,
            "invalid_request_error",
            "model_not_found",
            "model_not_found",
        ),
        // The 429 says rate limit; the code says the account is out of
        // credit. The code wins, and the difference is the whole point —
        // one is worth waiting out, the other never is.
        (
            429,
            "invalid_request_error",
            "insufficient_quota",
            "quota_exceeded",
        ),
        (
            429,
            "invalid_request_error",
            "billing_hard_limit_reached",
            "quota_exceeded",
        ),
        (
            401,
            "invalid_request_error",
            "invalid_api_key",
            "authentication",
        ),
    ] {
        let body =
            format!(r#"{{"error":{{"message":"m","type":"{error_type}","code":"{code}"}}}}"#);
        assert_eq!(kind_of(status, &body), expected, "{code}");
    }
}
#[test]
fn an_unambiguous_status_outranks_the_catch_all_family() {
    for (status, expected) in [
        (401, "authentication"),
        (403, "permission_denied"),
        (429, "rate_limited"),
        (503, "overloaded"),
    ] {
        let body = r#"{"error":{"message":"m","type":"invalid_request_error"}}"#;
        assert_eq!(kind_of(status, body), expected, "{status}");
    }
    // ...but where the status says nothing specific, the family still
    // decides.
    let body = r#"{"error":{"message":"m","type":"invalid_request_error"}}"#;
    assert_eq!(kind_of(400, body), "provider_invalid_request");
}
#[test]
fn a_bare_404_is_not_read_as_a_missing_model() {
    assert_ne!(kind_of(404, "{}"), "model_not_found");
    // ...but a 404 that NAMES the failure is.
    let body = r#"{"error":{"message":"m","type":"not_found_error"}}"#;
    assert_eq!(kind_of(404, body), "model_not_found");
}
#[test]
fn type_outranks_a_non_decisive_status() {
    for (error_type, expected) in [
        ("rate_limit_error", "rate_limited"),
        ("overloaded_error", "overloaded"),
        ("authentication_error", "authentication"),
        ("permission_error", "permission_denied"),
        ("not_found_error", "model_not_found"),
        ("invalid_request_error", "provider_invalid_request"),
        ("api_error", "provider_server_error"),
    ] {
        // A status that would classify differently on its own.
        let body = format!(r#"{{"error":{{"message":"m","type":"{error_type}"}}}}"#);
        assert_eq!(kind_of(418, &body), expected, "{error_type}");
    }
}
#[test]
fn status_classifies_an_empty_envelope() {
    for (status, expected) in [
        (400, "provider_invalid_request"),
        (422, "provider_invalid_request"),
        (401, "authentication"),
        (403, "permission_denied"),
        (429, "rate_limited"),
        (503, "overloaded"),
        (500, "provider_server_error"),
        (502, "provider_server_error"),
    ] {
        assert_eq!(kind_of(status, "not json"), expected, "{status}");
    }
}
#[test]
fn an_unrecognized_envelope_is_unknown_and_keeps_the_raw_type() {
    let body = r#"{"error":{"message":"m","type":"vendor_specific_error","code":"weird"}}"#;
    assert!(matches!(classified(418, body), Error::Unknown(_)));
    let error = classified(418, body);
    let detail = detail_of(&error);
    assert_eq!(detail.status, 418);
    assert_eq!(detail.error_type.as_deref(), Some("vendor_specific_error"));
}
#[test]
fn classifying_retains_the_providers_own_spelling() {
    let body = r#"{"error":{"message":"slow down","type":"rate_limit_error"}}"#;
    assert!(matches!(classified(429, body), Error::RateLimited(_)));
    let error = classified(429, body);
    let detail = detail_of(&error);
    assert_eq!(detail.error_type.as_deref(), Some("rate_limit_error"));
    assert_eq!(detail.message, "slow down");
}
#[test]
fn the_message_never_influences_classification() {
    let body = r#"{"error":{"message":"rate limit exceeded, context length exceeded"}}"#;
    assert_eq!(kind_of(400, body), "provider_invalid_request");
}
#[test]
fn the_provider_code_survives_the_classification_it_produced() {
    let body = r#"{"error":{"message":"m","type":"invalid_request_error","code":"insufficient_quota"}}"#;
    let error = classified(429, body);
    let detail = detail_of(&error);
    assert_eq!(detail.provider_code.as_deref(), Some("insufficient_quota"));
    assert_eq!(detail.error_type.as_deref(), Some("invalid_request_error"));
    // ...and the whole envelope is there as a last resort.
    assert!(detail.raw_body.contains("insufficient_quota"));
}
#[test]
fn an_unrecognized_code_is_still_retained() {
    let body = r#"{"error":{"message":"m","type":"vendor_error","code":"tpm_exhausted_v2"}}"#;
    let error = classified(418, body);
    let detail = detail_of(&error);
    assert_eq!(detail.provider_code.as_deref(), Some("tpm_exhausted_v2"));
    assert!(detail.raw_body.contains("tpm_exhausted_v2"));
}
#[test]
fn header_evidence_reaches_the_error() {
    let err = error_from_body(
        "demo",
        429,
        r#"{"error":{"message":"slow down"}}"#,
        Some(42),
        Some("req-abc".into()),
    );
    assert!(matches!(err, Error::RateLimited(_)));
    let detail = err.provider_error().unwrap();
    assert_eq!(detail.retry_after, Some(42));
    assert_eq!(detail.request_id.as_deref(), Some("req-abc"));
}
#[test]
fn an_exhausted_chain_is_a_gateway_wide_503() {
    let err = Error::CandidatesExhausted {
        models: vec!["openai/gpt-5.6".into(), "deepseek/deepseek-v4-flash".into()],
        tried: vec![
            ("openai/gpt-5.6".into(), classified(429, "{}")),
            (
                "deepseek/deepseek-v4-flash".into(),
                classified(503, "{}"),
            ),
        ],
    };
    assert!(err.provider_error().is_none(), "no attempt IS the failure");
    let rendered = to_openai(&err);
    assert_eq!(rendered.status, Some(503));
    assert_eq!(rendered.error.error_type, "server_error");
    assert_eq!(rendered.error.code.as_deref(), Some("candidates_exhausted"));
    assert_eq!(
        find_header(&rendered.headers, "retry-after"),
        None,
        "one attempt's rate limit must not leak onto the gateway's verdict"
    );
    assert!(
        find_header(&rendered.headers, "x-request-id").is_none(),
        "same for a request id: several attempts, not one"
    );
}
#[test]
fn a_chain_deadline_is_a_gateway_504() {
    let err = Error::DeadlineExceeded {
        tried: vec![("openai/gpt-5.6".into(), classified(429, "{}"))],
    };
    let rendered = to_openai(&err);
    assert_eq!(rendered.status, Some(504));
    assert_eq!(rendered.error.error_type, "server_error");
    assert_eq!(rendered.error.code.as_deref(), Some("deadline_exceeded"));
    assert!(rendered.headers.is_empty(), "{:?}", rendered.headers);
}
