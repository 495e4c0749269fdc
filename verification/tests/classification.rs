use warpllm::error::{Error, ErrorKind, ProviderError};
use warpllm::gateway::error::{classify, ErrorMapper, MatchesProtocol};

struct Protocol;

impl ErrorMapper for Protocol {
    fn from_code(&self, code: &str) -> Option<ErrorKind> {
        (code == "known_code").then_some(ErrorKind::ContentFilter)
    }

    fn from_status_and_type(
        &self,
        status: u16,
        error_type: Option<&str>,
    ) -> Option<ErrorKind> {
        Some(match (status, error_type) {
            (429, _) => ErrorKind::RateLimited,
            (_, Some("known_type")) => ErrorKind::ServerError,
            _ => return None,
        })
    }
}
struct ProviderEnvelope;

impl ErrorMapper for ProviderEnvelope {
    fn from_code(&self, _code: &str) -> Option<ErrorKind> {
        None
    }

    fn from_status_and_type(
        &self,
        status: u16,
        error_type: Option<&str>,
    ) -> Option<ErrorKind> {
        Some(match (status, error_type) {
            (402, _) => ErrorKind::QuotaExceeded,
            (_, Some("provider_type")) => ErrorKind::ContextLengthExceeded,
            _ => return None,
        })
    }
}

fn code_of<P: ErrorMapper>(
    provider: &P,
    status: u16,
    error_type: Option<&str>,
    code: Option<&str>,
) -> &'static str {
    let kind = classify(provider, &Protocol, status, error_type, code);
    let detail = ProviderError {
        provider: "demo".to_string(),
        status,
        message: String::new(),
        error_type: None,
        provider_code: None,
        retry_after: None,
        request_id: None,
        raw_body: String::new(),
    };
    Error::classified(kind, detail).code()
}
#[test]
fn a_provider_with_no_vocabulary_inherits_the_protocol() {
    let none = &MatchesProtocol;
    assert_eq!(code_of(none, 429, None, None), "rate_limited");
    assert_eq!(
        code_of(none, 200, None, Some("known_code")),
        "content_filter"
    );
    assert_eq!(
        code_of(none, 200, Some("known_type"), None),
        "provider_server_error"
    );
}
#[test]
fn a_provider_rule_beats_the_protocol_at_the_same_tier() {
    assert_eq!(
        code_of(&ProviderEnvelope, 402, None, None),
        "quota_exceeded"
    );
}
#[test]
fn a_provider_envelope_rule_does_not_outrank_a_protocol_code() {
    assert_eq!(
        code_of(&ProviderEnvelope, 402, None, Some("known_code")),
        "content_filter",
        "a status guess outranked the failure the provider named"
    );
}
#[test]
fn a_provider_family_outranks_a_protocol_status() {
    assert_eq!(
        code_of(&ProviderEnvelope, 429, Some("provider_type"), None),
        "context_length_exceeded",
        "the protocol's status answered a failure the provider had named"
    );
    // ...and with nothing from the provider to read, that same status is
    // still the protocol's to answer.
    assert_eq!(code_of(&ProviderEnvelope, 429, None, None), "rate_limited");
}
#[test]
fn the_residual_is_http_semantics_and_nothing_more() {
    let none = &MatchesProtocol;
    assert_eq!(code_of(none, 400, None, None), "provider_invalid_request");
    assert_eq!(code_of(none, 422, None, None), "provider_invalid_request");
    assert_eq!(code_of(none, 500, None, None), "provider_server_error");
    assert_eq!(code_of(none, 502, None, None), "provider_server_error");
    // A status that means nothing in particular must not be guessed at.
    assert_eq!(code_of(none, 418, None, None), "provider_unknown");
}
