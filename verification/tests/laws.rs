use warpllm::balancer::{Balancer, Candidate};
use warpllm::client::Client;
use warpllm::config::{ClientConfig, ProviderConfig};
use warpllm::error::{Error, ErrorKind, Origin, ProviderError};
use warpllm::gateway::anthropic::request::{
    ingest_reasoning, render_request as render_messages, render_thinking,
};
use warpllm::gateway::openai_compat::error::{error_from_body, ErrorClass};
use warpllm::gateway::openai_compat::ordinals::ToolCallOrdinals;
use warpllm::gateway::openai_compat::request::{
    ingest_part, ingest_request, media_source, media_url, render_part,
};
use warpllm::gateway::types::message::{ContentBlock, MediaSource};
use warpllm::gateway::types::request::ReasoningConfig;
use warpllm::http::{find_header, read_response, SseFrames};
use warpllm::json::{object1, Json, Number};
use warpllm::json_client::parse_request;
use warpllm::registry::{ModelEntry, Roster};
use warpllm::types::Protocol;

fn json(text: &str) -> Json {
    Json::parse(text).unwrap()
}

// ---------------------------------------------------------------------------
// JSON texts
// ---------------------------------------------------------------------------

#[test]
fn a_text_is_written_in_the_order_it_was_read() {
    let text = r#"{"z":1,"a":[true,null,"\"x\"",-5,1.5],"m":{}}"#;
    assert_eq!(json(text).to_text(), text);
    assert_eq!(json(" { \"z\" : 1 } ").to_text(), r#"{"z":1}"#);
}

#[test]
fn a_repeated_field_counts_once_with_its_last_value() {
    assert_eq!(json(r#"{"a":1,"b":2,"a":3}"#).to_text(), r#"{"a":3,"b":2}"#);
}

#[test]
fn numbers_keep_their_kind() {
    assert_eq!(json("18446744073709551615"), Json::Number(Number::Unsigned(u64::MAX)));
    assert_eq!(json("-9223372036854775808"), Json::Number(Number::Negative(i64::MIN)));
    assert_eq!(json("1e3"), Json::Number(Number::Decimal("1000.0".into())));
    assert_eq!(json("0.7").to_text(), "0.7");
    assert_eq!(json("7").as_u64(), Some(7));
    assert_eq!(json("4294967296").as_u32(), None);
}

#[test]
fn a_text_that_is_no_json_is_refused() {
    for text in ["", "{", "{\"a\":}", "nul", "1 2", "'a'"] {
        assert!(Json::parse(text).is_none(), "{text}");
    }
}

#[test]
fn nesting_has_a_limit() {
    let nested = |depth: usize| format!("{}{}", "[".repeat(depth), "]".repeat(depth));
    let deepest = nested(127);
    assert_eq!(json(&deepest).to_text(), deepest);
    assert!(Json::parse(&nested(128)).is_none());
}

// ---------------------------------------------------------------------------
// Failures
// ---------------------------------------------------------------------------

fn detail() -> ProviderError {
    ProviderError {
        provider: "demo".into(),
        status: 500,
        message: "boom".into(),
        error_type: Some("odd".into()),
        provider_code: Some("odder".into()),
        retry_after: Some(u64::MAX),
        request_id: None,
        raw_body: String::new(),
    }
}

#[test]
fn every_kind_of_provider_failure_keeps_what_was_said() {
    for (kind, code, status, error_type, openai_code) in [
        (ErrorKind::RateLimited, "rate_limited", 429, "rate_limit_error", "rate_limit_exceeded"),
        (ErrorKind::QuotaExceeded, "quota_exceeded", 429, "insufficient_quota", "insufficient_quota"),
        (ErrorKind::Overloaded, "overloaded", 503, "server_error", "server_error"),
        (
            ErrorKind::ContextLengthExceeded,
            "context_length_exceeded",
            400,
            "invalid_request_error",
            "context_length_exceeded",
        ),
        (ErrorKind::ContentFilter, "content_filter", 400, "invalid_request_error", "content_filter"),
        (ErrorKind::Authentication, "authentication", 401, "invalid_request_error", "invalid_api_key"),
        (ErrorKind::ModelNotFound, "model_not_found", 404, "invalid_request_error", "model_not_found"),
        (ErrorKind::PermissionDenied, "permission_denied", 403, "invalid_request_error", "odder"),
        (ErrorKind::InvalidRequest, "provider_invalid_request", 400, "invalid_request_error", "odder"),
        (ErrorKind::ServerError, "provider_server_error", 500, "server_error", "odder"),
        (ErrorKind::Unknown, "provider_unknown", 500, "odd", "odder"),
    ] {
        let error = Error::classified(kind, detail());
        assert_eq!(error.code(), code);
        assert_eq!(error.message(), "demo: boom");
        assert_eq!(error.origin(), Origin::Provider);
        assert_eq!(error.provider_error(), Some(&detail()));
        let rendered = error.to_openai();
        assert_eq!(rendered.status, Some(status), "{code}");
        assert_eq!(rendered.error.error_type, error_type, "{code}");
        assert_eq!(rendered.error.code.as_deref(), Some(openai_code), "{code}");
        assert_eq!(rendered.error.message, "demo: boom");
        assert_eq!(rendered.error.param, None);
        assert_eq!(
            find_header(&rendered.headers, "retry-after").as_deref(),
            Some("18446744073709551615")
        );
    }
}

#[test]
fn every_failure_of_the_gateways_own_carries_no_header() {
    let provider = || "demo".to_string();
    for (error, code, status) in [
        (Error::InvalidInput("bad".into()), "invalid_request", Some(400)),
        (Error::InvalidModel { given: "x/y".into() }, "invalid_model", Some(400)),
        (Error::ProviderNotDeclared { provider: provider() }, "provider_not_declared", Some(400)),
        (Error::MissingApiKey { provider: provider() }, "missing_api_key", Some(401)),
        (
            Error::Network { provider: provider(), cause: "refused".into() },
            "connection_error",
            None,
        ),
        (Error::Decode { provider: provider(), cause: "odd".into() }, "decode_error", Some(502)),
        (Error::StreamTruncated { provider: provider() }, "stream_truncated", Some(502)),
        (Error::StreamStalled { provider: provider() }, "stream_stalled", Some(504)),
        (Error::NotImplemented("a thing".into()), "not_implemented", Some(501)),
        (Error::Internal("oops".into()), "internal_error", Some(500)),
        (Error::InvalidRoster("odd".into()), "invalid_roster", Some(500)),
    ] {
        assert_eq!(error.code(), code);
        assert_eq!(error.origin(), Origin::Gateway);
        assert!(error.provider_error().is_none());
        let rendered = error.to_openai();
        assert_eq!(rendered.status, status, "{code}");
        assert!(rendered.headers.is_empty());
    }
    assert_eq!(
        Error::Network { provider: provider(), cause: "refused".into() }.message(),
        "demo: no response: refused"
    );
    assert_eq!(
        Error::CandidatesExhausted { models: vec!["a/b".into(), "c/d".into()], tried: vec![] }
            .message(),
        "every candidate failed: a/b, c/d"
    );
}

#[test]
fn the_class_follows_the_status() {
    for (status, class) in [
        (None, ErrorClass::Connection),
        (Some(400), ErrorClass::BadRequest),
        (Some(401), ErrorClass::Authentication),
        (Some(403), ErrorClass::PermissionDenied),
        (Some(404), ErrorClass::NotFound),
        (Some(409), ErrorClass::Conflict),
        (Some(422), ErrorClass::UnprocessableEntity),
        (Some(429), ErrorClass::RateLimit),
        (Some(503), ErrorClass::InternalServer),
        (Some(418), ErrorClass::Status),
    ] {
        assert_eq!(ErrorClass::from_status(status), class);
    }
}

#[test]
fn a_long_body_is_kept_in_part() {
    let body = "é".repeat(5000);
    let error = error_from_body("demo", 500, &body, None, None);
    let detail = error.provider_error().unwrap();
    assert_eq!(detail.raw_body, "é".repeat(4096));
}

// ---------------------------------------------------------------------------
// Streams of bytes
// ---------------------------------------------------------------------------

fn payloads(frames: &mut SseFrames) -> Vec<String> {
    let mut out = Vec::new();
    while let Some(payload) = frames.next_payload().unwrap() {
        out.push(payload);
    }
    out
}

#[test]
fn read_boundaries_do_not_matter() {
    let bytes = "data: {\"a\":\"일\"}\r\n\r\n: ping\ndata: b\ndata: c\n\ndata: [DONE]\n\ndata: d\n\n"
        .as_bytes();
    for cut in 0..=bytes.len() {
        let mut frames = SseFrames::new(Some("[DONE]"));
        frames.push(&bytes[..cut]);
        let mut out = payloads(&mut frames);
        frames.push(&bytes[cut..]);
        out.extend(payloads(&mut frames));
        assert_eq!(out, ["{\"a\":\"일\"}", "b\nc"], "cut at {cut}");
        assert!(frames.done());
    }
}

#[test]
fn nothing_is_read_after_the_sentinel() {
    let mut frames = SseFrames::new(Some("[DONE]"));
    frames.push(b"data:  [DONE] \n\n");
    assert_eq!(frames.next_payload().unwrap(), None);
    frames.push(b"data: more\n\n");
    assert_eq!(frames.next_payload().unwrap(), None);
}

#[test]
fn a_line_that_is_no_text_is_taken_once() {
    let mut frames = SseFrames::new(None);
    frames.push(b"data: \xff\ndata: a\n\n");
    assert!(frames.next_payload().is_err());
    assert_eq!(frames.next_payload().unwrap().as_deref(), Some("a"));
}

#[test]
fn the_request_id_has_two_names() {
    let header = |name: &str, value: &str| (name.to_string(), value.to_string());
    let both = vec![header("request-id", "b"), header("x-request-id", "a")];
    assert_eq!(read_response(200, &both, String::new()).request_id.as_deref(), Some("a"));
    let one = vec![header("request-id", "b"), header("retry-after", "soon")];
    let parts = read_response(503, &one, "body".to_string());
    assert_eq!(parts.request_id.as_deref(), Some("b"));
    assert_eq!(parts.retry_after, None);
    assert_eq!((parts.status, parts.body.as_str()), (503, "body"));
}

// ---------------------------------------------------------------------------
// Positions of tool calls
// ---------------------------------------------------------------------------

#[test]
fn positions_are_kept_dense_and_apart() {
    let mut ordinals = ToolCallOrdinals::new();
    assert_eq!(ordinals.ordinal(0, 1), 0);
    assert_eq!(ordinals.ordinal(0, 4), 1);
    assert_eq!(ordinals.ordinal(0, 1), 0, "a position is kept");
    assert_eq!(ordinals.ordinal(1, 4), 0, "each choice counts for itself");
    assert_eq!(ordinals.ordinal(0, 0), 2, "a new call takes the next position");
    assert_eq!(ordinals.ordinal(0, 4), 1);

    let mut dense = ToolCallOrdinals::new();
    for index in [0, 1, 0, 2, 2, 1, 3] {
        assert_eq!(dense.ordinal(0, index), index, "dense numbers are kept");
    }
}

// ---------------------------------------------------------------------------
// What crosses from one protocol to the other
// ---------------------------------------------------------------------------

#[test]
fn promoted_parameters_reach_the_other_protocol() {
    let request = ingest_request(
        &json(
            r#"{
                "model": "m",
                "messages": [{"role": "user", "content": "hi"}],
                "max_completion_tokens": 99,
                "top_k": 40,
                "temperature": 0.5,
                "parallel_tool_calls": false,
                "tool_choice": "required",
                "seed": 7
            }"#,
        ),
        "opus-5",
    );
    let body = render_messages(&request, "anthropic", Some(8192)).unwrap();
    assert_eq!(body.u32_at("max_tokens"), Some(99), "the caller's limit, by its newer name");
    assert_eq!(body.u32_at("top_k"), Some(40));
    assert_eq!(body.get("temperature"), Some(&json("0.5")));
    assert_eq!(
        body.get("tool_choice"),
        Some(&json(r#"{"type":"any","disable_parallel_tool_use":true}"#))
    );
    assert_eq!(body.get("seed"), None, "what only one protocol knows stays with it");
}

// ---------------------------------------------------------------------------
// Rosters, configurations and rotations
// ---------------------------------------------------------------------------

fn entry(model: &str, protocol: Protocol) -> ModelEntry {
    ModelEntry { model: model.into(), protocol, max_output_tokens: Some(64) }
}

#[test]
fn a_roster_replaces_whole_providers() {
    let over = Roster::new(vec![entry("openai/new", Protocol::Anthropic)]).unwrap();
    let roster = Roster::builtin().merged(over);
    assert_eq!(roster.provider("openai"), Some(Protocol::Anthropic));
    assert!(matches!(roster.fetch_model("openai/gpt-5.6"), Err(Error::InvalidModel { .. })));
    let spec = roster.fetch_model("openai/new").unwrap();
    assert_eq!((spec.provider.as_str(), spec.name.as_str()), ("openai", "new"));
    assert_eq!(spec.max_output_tokens, Some(64));
    assert_eq!(roster.fetch_model("kimi/kimi-k3").unwrap().protocol, Protocol::OpenAiCompat);
}

#[test]
fn a_roster_has_the_providers_of_both() {
    let builtin = Roster::builtin();
    for provider in ["openai", "deepseek", "kimi", "opencode", "openrouter"] {
        assert_eq!(builtin.provider(provider), Some(Protocol::OpenAiCompat), "{provider}");
    }
    assert_eq!(builtin.provider("hub"), None);
    let over = Roster::new(vec![
        entry("openrouter/meta/llama-4", Protocol::OpenAiCompat),
        entry("hub/m", Protocol::Anthropic),
    ]);
    let roster = builtin.merged(over.unwrap());
    assert_eq!(roster.provider("openai"), Some(Protocol::OpenAiCompat));
    assert_eq!(roster.provider("openrouter"), Some(Protocol::OpenAiCompat));
    assert_eq!(roster.provider("hub"), Some(Protocol::Anthropic));
    let spec = roster.fetch_model("openrouter/meta/llama-4").unwrap();
    assert_eq!((spec.provider.as_str(), spec.name.as_str()), ("openrouter", "meta/llama-4"));
}

#[test]
fn a_configuration_may_declare_every_builtin_provider() {
    let text = r#"{"providers":{"openai":{},"deepseek":{},"kimi":{},"opencode":{},"openrouter":{"api_key":"k"}}}"#;
    let config = ClientConfig::from_text(text).unwrap();
    assert!(Client::new(config, Roster::builtin()).is_ok());
    let config = ClientConfig::from_text(r#"{"providers":{"hub":{}}}"#).unwrap();
    assert!(Client::new(config, Roster::builtin()).is_err());
}

#[test]
fn a_model_keeps_the_slashes_after_the_first() {
    let roster = Roster::new(vec![entry("hub/org/model", Protocol::OpenAiCompat)]).unwrap();
    let spec = roster.fetch_model("hub/org/model").unwrap();
    assert_eq!((spec.provider.as_str(), spec.name.as_str()), ("hub", "org/model"));
    assert_eq!(roster.provider("org"), None);
}

#[test]
fn an_entry_without_both_names_is_refused() {
    for model in ["bare", "/name", "provider/", ""] {
        assert!(matches!(
            Roster::new(vec![entry(model, Protocol::OpenAiCompat)]),
            Err(Error::InvalidRoster(_))
        ));
    }
}

#[test]
fn a_configuration_says_what_is_wrong_with_it() {
    for (text, expected) in [
        ("", "the configuration is not JSON"),
        ("[]", "the configuration is not an object"),
        (r#"{"provider":{}}"#, "unknown field 'provider' in the configuration"),
        (r#"{"providers":[]}"#, "'providers' in the configuration is not of the right form"),
        (r#"{"providers":{"openai":1}}"#, "'openai' in the configuration is not of the right form"),
        (r#"{"providers":{"openai":{"key":"k"}}}"#, "unknown field 'key' in the configuration"),
        (
            r#"{"providers":{"openai":{"api_key":1}}}"#,
            "'api_key' in the configuration is not of the right form",
        ),
    ] {
        assert_eq!(ClientConfig::from_text(text).unwrap_err().message(), expected);
    }
    let config = ClientConfig::from_text(r#"{"providers":{"openai":{"api_key":"k"},"kimi":{}}}"#);
    assert_eq!(
        config.unwrap().providers,
        Some(vec![
            ProviderConfig { name: "openai".into(), api_key: Some("k".into()) },
            ProviderConfig { name: "kimi".into(), api_key: None },
        ])
    );
}

#[test]
fn only_served_and_registered_models_are_called() {
    let config = ClientConfig::from_text(r#"{"providers":{"kimi":{}}}"#).unwrap();
    let client = Client::new(config, Roster::builtin()).unwrap();
    let prepared =
        |model: &str| client.prepare(&json(&format!(r#"{{"model":"{model}","messages":[]}}"#)));
    assert_eq!(prepared("kimi/kimi-k3").unwrap().provider, "kimi");
    assert!(matches!(prepared("openai/gpt-5.6"), Err(Error::ProviderNotDeclared { .. })));
    assert!(matches!(prepared("kimi/other"), Err(Error::InvalidModel { .. })));
    assert!(matches!(client.fetch_model("nope"), Err(Error::InvalidModel { .. })));
}

#[test]
fn a_rotation_repeats() {
    let candidate = |model: &str, weight: u32| Candidate { model: model.into(), weight };
    let mut balancer =
        Balancer::new(vec![candidate("a", 2), candidate("b", 0), candidate("c", 1)]).unwrap();
    let turns: Vec<String> = (0..6).map(|_| balancer.select()).collect();
    assert_eq!(turns, ["a", "a", "c", "a", "a", "c"]);

    let heavy = Balancer::new(vec![candidate("a", 1), candidate("b", 2147483648)]).unwrap_err();
    assert_eq!(heavy.message(), "weight 2147483648 exceeds the maximum of 2147483647");
    assert!(Balancer::new(vec![candidate("a", 2147483647)]).is_ok());
    assert!(Balancer::new(vec![]).is_err());
}

#[test]
fn a_request_is_told_from_other_documents() {
    let text = r#"{"model":"openai/gpt-5.6","messages":[]}"#;
    assert_eq!(parse_request(text).unwrap().to_text(), text);
    for text in ["nope", "{}", r#"{"model":"m","messages":{}}"#] {
        assert!(matches!(parse_request(text), Err(Error::InvalidInput(_))), "{text}");
    }
}

// ---------------------------------------------------------------------------
// Parts and reasoning
// ---------------------------------------------------------------------------

#[test]
fn a_part_round_trips() {
    for text in [
        r#"{"type":"text","text":"hi"}"#,
        r#"{"type":"image_url","image_url":{"url":"https://x/y.png","detail":"low"}}"#,
        r#"{"type":"image_url","image_url":{"url":"data:image/png;base64,AAAA"}}"#,
        r#"{"type":"input_audio","input_audio":{"data":"AAAA","format":"wav"}}"#,
        r#"{"type":"file","file":{"file_id":"f1","filename":"notes"}}"#,
        r#"{"type":"hologram","depth":3}"#,
    ] {
        let part = json(text);
        assert_eq!(render_part(&ingest_part(&part)), Some(part), "{text}");
    }
    let call = ContentBlock::ToolResult { call_id: "c".into(), content: vec![], is_error: false };
    assert_eq!(render_part(&call), None);
}

#[test]
fn a_data_url_holds_bytes() {
    let url = "data:image/png;base64,AAAA";
    let source = media_source(url);
    assert_eq!(
        source,
        MediaSource::Base64 { media_type: "image/png".into(), data: "AAAA".into() }
    );
    assert_eq!(media_url(&source), url);
    for url in ["https://x/y.png", "data:image/png,AAAA", ""] {
        let source = media_source(url);
        assert_eq!(source, MediaSource::Url { url: url.into() });
        assert_eq!(media_url(&source), url);
    }
    assert_eq!(media_url(&MediaSource::ProviderFile { id: "f1".into() }), "f1");
}

#[test]
fn reasoning_reads_back() {
    for (budget, exclude, wire) in [
        (Some(2048), None, r#"{"type":"enabled","budget_tokens":2048}"#),
        (None, None, r#"{"type":"adaptive"}"#),
        (Some(1024), Some(true), r#"{"type":"enabled","budget_tokens":1024,"display":"omitted"}"#),
    ] {
        let reasoning = ReasoningConfig {
            enabled: Some(true),
            effort: None,
            budget_tokens: budget,
            exclude,
        };
        let thinking = render_thinking(&reasoning).unwrap();
        assert_eq!(thinking.to_text(), wire);
        let request = object1("thinking", thinking);
        assert_eq!(ingest_reasoning(&request), Some(reasoning));
    }
    assert_eq!(ingest_reasoning(&json("{}")), None);
}
