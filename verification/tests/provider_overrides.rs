use warpllm::error::{Error, ProviderError};
use warpllm::gateway::error::ErrorMapper;
use warpllm::gateway::openai_compat::error::error_from_body;
use warpllm::gateway::openai_compat::provider_overrides::{
    error_mapper, overridden_providers, DeepSeek, OpenCode,
};
use warpllm::registry::Roster;

#[test]
fn every_override_names_a_provider_the_roster_has() {
    let roster = Roster::builtin();
    for name in overridden_providers() {
        assert!(
            roster.provider(&name).is_some(),
            "`{name}` has error overrides but is not in the roster — a roster \
             rename would leave them silently unused"
        );
    }
}
#[test]
fn an_unlisted_provider_gets_nothing_of_its_own() {
    let mapper = error_mapper("openai");
    assert!(mapper.from_code("insufficient_quota").is_none());
    assert!(mapper.from_status_and_type(402, None).is_none());
    assert!(mapper.from_status_and_type(400, Some("api_error")).is_none());
}
#[test]
fn a_402_is_an_exhausted_balance_not_a_bad_request() {
    let classified = DeepSeek
        .from_status_and_type(402, None)
        .expect("402 is DeepSeek's");
    assert!(matches!(
        Error::classified(classified, ProviderError {
            provider: "deepseek".into(),
            status: 402,
            message: "Insufficient Balance".into(),
            error_type: None,
            provider_code: None,
            retry_after: None,
            request_id: None,
            raw_body: String::new(),
        }),
        Error::QuotaExceeded(_)
    ));
}
#[test]
fn no_other_status_is_claimed() {
    for status in [400, 401, 403, 404, 429, 500, 503] {
        assert!(
            DeepSeek.from_status_and_type(status, None).is_none(),
            "{status}"
        );
    }
}
#[test]
fn neither_code_nor_type_is_claimed() {
    for code in [
        "context_length_exceeded",
        "content_filter",
        "content_policy_violation",
        "model_not_found",
        "rate_limit_exceeded",
        "insufficient_quota",
        "billing_hard_limit_reached",
        "invalid_api_key",
    ] {
        assert!(DeepSeek.from_code(code).is_none(), "{code}");
    }
    for error_type in [
        "rate_limit_error",
        "overloaded_error",
        "authentication_error",
        "permission_error",
        "not_found_error",
        "invalid_request_error",
        "api_error",
    ] {
        // Under 400, which DeepSeek's own status rule does not claim, so
        // the family is all there is left for it to answer on.
        assert!(
            DeepSeek
                .from_status_and_type(400, Some(error_type))
                .is_none(),
            "{error_type}"
        );
    }
}
#[test]
fn protocol_codes_and_types_still_classify_for_deepseek() {
    
    for (code, expected) in [
        ("context_length_exceeded", "context_length_exceeded"),
        ("content_filter", "content_filter"),
        ("content_policy_violation", "content_filter"),
        ("model_not_found", "model_not_found"),
        ("rate_limit_exceeded", "rate_limited"),
        ("insufficient_quota", "quota_exceeded"),
        ("billing_hard_limit_reached", "quota_exceeded"),
        ("invalid_api_key", "authentication"),
    ] {
        let body = format!(r#"{{"error":{{"message":"m","code":"{code}"}}}}"#);
        let err = error_from_body("deepseek", 400, &body, None, None);
        assert_eq!(err.code(), expected, "code {code}");
    }

    for (error_type, expected) in [
        ("rate_limit_error", "rate_limited"),
        ("overloaded_error", "overloaded"),
        ("authentication_error", "authentication"),
        ("permission_error", "permission_denied"),
        ("not_found_error", "model_not_found"),
        ("invalid_request_error", "provider_invalid_request"),
        ("api_error", "provider_server_error"),
    ] {
        let body = format!(r#"{{"error":{{"message":"m","type":"{error_type}"}}}}"#);
        let err = error_from_body("deepseek", 400, &body, None, None);
        assert_eq!(err.code(), expected, "type {error_type}");
    }
}
#[test]
fn the_402_rule_loses_to_a_protocol_code_and_beats_a_protocol_type() {
    
    let with_code = r#"{"error":{"message":"m","code":"invalid_api_key"}}"#;
    assert_eq!(
        error_from_body("deepseek", 402, with_code, None, None).code(),
        "authentication",
        "a status rule outranked the failure the provider named"
    );

    // ...but a `type` is the weakest signal, so 402 still wins there.
    let with_type = r#"{"error":{"message":"m","type":"invalid_request_error"}}"#;
    assert_eq!(
        error_from_body("deepseek", 402, with_type, None, None).code(),
        "quota_exceeded"
    );
}
#[test]
fn the_published_error_table_resolves_end_to_end() {
    
    for (status, expected) in [
        (400, "provider_invalid_request"), // Invalid Format
        (401, "authentication"),           // Authentication Fails
        (402, "quota_exceeded"),           // Insufficient Balance — the delta
        (422, "provider_invalid_request"), // Invalid Parameters
        (429, "rate_limited"),             // Rate Limit Reached
        (500, "provider_server_error"),    // Server Error
        (503, "overloaded"),               // Server Overloaded
    ] {
        let err = error_from_body("deepseek", status, "{}", None, None);
        assert_eq!(err.code(), expected, "{status}");
    }
}
#[test]
fn only_the_402_differs_from_a_provider_with_no_overrides() {
    
    for status in [400, 401, 422, 429, 500, 503] {
        assert_eq!(
            error_from_body("deepseek", status, "{}", None, None).code(),
            error_from_body("openai", status, "{}", None, None).code(),
            "{status} diverged, but DeepSeek only overrides 402"
        );
    }
    assert_ne!(
        error_from_body("deepseek", 402, "{}", None, None).code(),
        error_from_body("openai", 402, "{}", None, None).code(),
    );
}
fn zen(error_type: &str, message: &str) -> String {
    format!(r#"{{"type":"error","error":{{"type":"{error_type}","message":"{message}"}}}}"#)
}

fn coded(status: u16, error_type: &str) -> &'static str {
    error_from_body("opencode", status, &zen(error_type, "m"), None, None).code()
}
#[test]
fn the_live_error_vocabulary_resolves_end_to_end() {
    // The delta: a 401 that is not an authentication failure.
    assert_eq!(coded(401, "CreditsError"), "quota_exceeded");
    // ...and a 401 that is, which the baseline already reads correctly.
    assert_eq!(coded(401, "AuthError"), "authentication");
    // The per-model free-tier limit. A real 429, and worth waiting out —
    // unlike the credit exhaustion above, which never is.
    assert_eq!(coded(429, "FreeUsageLimitError"), "rate_limited");
}
#[test]
fn one_401_separates_into_billing_and_credentials() {
    assert_ne!(
        coded(401, "CreditsError"),
        coded(401, "AuthError"),
        "an unpaid account and a bad key classified the same, and the \
         caller is sent after the wrong fix for one of them"
    );
}
#[test]
fn nothing_but_the_credits_family_is_claimed() {
    for error_type in ["AuthError", "FreeUsageLimitError", "ModelError"] {
        assert!(
            OpenCode
                .from_status_and_type(401, Some(error_type))
                .is_none(),
            "{error_type}"
        );
    }
    for status in [400, 401, 403, 404, 429, 500, 503] {
        assert!(
            OpenCode.from_status_and_type(status, None).is_none(),
            "{status}"
        );
    }
    for code in [
        "insufficient_quota",
        "invalid_api_key",
        "rate_limit_exceeded",
    ] {
        assert!(OpenCode.from_code(code).is_none(), "{code}");
    }
}
#[test]
fn a_code_still_outranks_the_credits_family() {
    let body = r#"{"error":{"type":"CreditsError","message":"m","code":"invalid_api_key"}}"#;
    assert_eq!(
        error_from_body("opencode", 401, body, None, None).code(),
        "authentication"
    );
}
#[test]
fn no_other_provider_reads_a_credits_family() {
    let body = zen("CreditsError", "no payment method");
    assert_eq!(
        error_from_body("openai", 401, &body, None, None).code(),
        "authentication"
    );
    assert_eq!(
        error_from_body("deepseek", 401, &body, None, None).code(),
        "authentication"
    );
}
#[test]
fn the_billing_message_survives_the_classification() {
    let body = zen(
        "CreditsError",
        "No payment method. Add a payment method here: \
         https://opencode.ai/workspace/wrk_redacted/billing",
    );
    let error = error_from_body("opencode", 401, &body, None, None);
    assert!(matches!(error, Error::QuotaExceeded(_)));
    let detail = error.provider_error().expect("a provider failure");
    assert_eq!(detail.error_type.as_deref(), Some("CreditsError"));
    assert_eq!(detail.provider_code, None);
    assert!(detail.message.contains("/billing"), "{}", detail.message);
}
