use warpllm::error::Error;
use warpllm::gateway::anthropic::error::error_from_body;
use warpllm::gateway::anthropic::request::render_request;
use warpllm::gateway::types::message::{ContentBlock, MediaSource, Message, Role};
use warpllm::gateway::types::request::ChatRequest;
use warpllm::json::Fields;

fn envelope(error_type: &str, message: &str) -> String {
    format!(
        r#"{{"type":"error","error":{{"type":"{error_type}","message":"{message}"}},"request_id":"req_body"}}"#
    )
}

fn coded(status: u16, body: &str) -> &'static str {
    error_from_body("anthropic", status, body, None, None).code()
}
#[test]
fn a_file_reference_cannot_reach_anthropic() {
        
    let request = ChatRequest {
        model: "opus-5".into(),
        messages: vec![Message {
            role: Role::User,
            content: vec![ContentBlock::Document {
                source: MediaSource::ProviderFile {
                    id: "file_011CNha8iCJcU1wXNR6q4V8w".into(),
                },
                title: None,
                cache: None,
            }],
            ext: Fields::new(),
        }],
        ..Default::default()
    };
    let error = render_request(&request, "anthropic", Some(64)).unwrap_err();
    assert!(
        matches!(error, Error::InvalidInput(_)),
        "a file reference reached the wire, so a 404 can no longer be read \
         as a missing MODEL: {error:?}"
    );
}
#[test]
fn the_documented_status_table() {
    let cases = [
        (400, "invalid_request_error", "provider_invalid_request"),
        (401, "authentication_error", "authentication"),
        (402, "billing_error", "quota_exceeded"),
        (403, "permission_error", "permission_denied"),
        (404, "not_found_error", "model_not_found"),
        // Deliberately unclassified — see `from_type`. Pinned so that
        // giving it a meaning later is a visible decision.
        (409, "conflict_error", "provider_unknown"),
        (413, "request_too_large", "context_length_exceeded"),
        (429, "rate_limit_error", "rate_limited"),
        (500, "api_error", "provider_server_error"),
        (504, "timeout_error", "provider_server_error"),
        (529, "overloaded_error", "overloaded"),
    ];
    for (status, error_type, expected) in cases {
        assert_eq!(
            coded(status, &envelope(error_type, "boom")),
            expected,
            "{status} {error_type}"
        );
    }
}
#[test]
fn a_529_is_an_overload_rather_than_a_server_fault() {
    assert_eq!(coded(529, "not json at all"), "overloaded");
}
#[test]
fn a_family_decides_a_failure_that_arrived_after_a_200() {
    assert_eq!(
        coded(200, &envelope("overloaded_error", "busy")),
        "overloaded"
    );
    assert_eq!(
        coded(200, &envelope("billing_error", "unpaid")),
        "quota_exceeded"
    );
}
#[test]
fn a_status_outranks_the_catch_all_family() {
    assert_eq!(
        coded(402, &envelope("invalid_request_error", "payment required")),
        "quota_exceeded"
    );
}
#[test]
fn an_unknown_family_falls_back_to_http_semantics() {
    let error = error_from_body(
        "anthropic",
        418,
        &envelope("quantum_error", "?"),
        None,
        None,
    );
    assert_eq!(error.code(), "provider_unknown");
    assert!(error.message().contains('?'), "{error:?}");
}
#[test]
fn an_unparseable_body_survives_as_the_message() {
    let error = error_from_body("anthropic", 502, "<html>bad gateway</html>", None, None);
    assert_eq!(error.code(), "provider_server_error");
    assert!(error.message().contains("bad gateway"), "{error:?}");
}
#[test]
fn no_code_is_invented_from_the_family() {
    let Error::RateLimited(details) = error_from_body(
        "anthropic",
        429,
        &envelope("rate_limit_error", "slow down"),
        None,
        None,
    ) else {
        panic!("expected a rate limit");
    };
    assert_eq!(details.error_type.as_deref(), Some("rate_limit_error"));
    assert_eq!(details.provider_code, None);
}
#[test]
fn the_request_id_falls_back_to_the_body() {
    let body = envelope("not_found_error", "nope");
    let from_body = error_from_body("anthropic", 404, &body, None, None);
    let Error::ModelNotFound(details) = from_body else {
        panic!("expected a model-not-found");
    };
    assert_eq!(details.request_id.as_deref(), Some("req_body"));

    let from_header = error_from_body("anthropic", 404, &body, None, Some("req_header".into()));
    let Error::ModelNotFound(details) = from_header else {
        panic!("expected a model-not-found");
    };
    assert_eq!(details.request_id.as_deref(), Some("req_header"));
}
