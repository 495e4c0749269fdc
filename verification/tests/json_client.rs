use serde_json::Value;
use warpllm::client::Call;
use warpllm::error::Error;
use warpllm::http::{read_response, ResponseParts};
use warpllm::json::Json;
use warpllm::json_client::{reply, reply_text, JsonBalancedClient, JsonChatStream, JsonClient};
use warpllm::registry::{ModelEntry, Roster};
use warpllm::types::Protocol;

fn val(text: &str) -> Value {
    serde_json::from_str(text).unwrap()
}

fn to_value(json: &Json) -> Value {
    val(&json.to_text())
}

fn json_client(config_json: &str) -> Result<JsonClient, Error> {
    JsonClient::new(config_json)
}

/// A roster with one Anthropic model, of a documented ceiling.
fn anthropic_client() -> JsonClient {
    let roster = Roster::new(vec![ModelEntry {
        model: "anthropic/opus-5".into(),
        protocol: Protocol::Anthropic,
        max_output_tokens: Some(8192),
    }])
    .unwrap();
    JsonClient::from_parsed(Json::parse("{}"), Roster::builtin().merged(roster)).unwrap()
}

fn answered(status: u16, body: &str) -> ResponseParts {
    read_response(status, &vec![], body.to_string())
}

#[test]
fn invalid_config_is_a_core_error() {
    let error = json_client(r#"{"unknown": true}"#)
        .err()
        .expect("invalid configuration should fail");
    assert!(matches!(error, Error::InvalidInput(_)));
}

#[test]
fn a_declaration_narrows_the_json_boundary_too() {
    let client = json_client(r#"{"providers":{"openai":{"api_key":"sk-x"}}}"#).unwrap();
    let error = client
        .chat_completions(r#"{"model":"deepseek/deepseek-v4-flash","messages":[]}"#)
        .expect_err("this client does not serve deepseek");
    assert!(
        matches!(&error, Error::ProviderNotDeclared { provider, .. } if *provider == "deepseek"),
        "{error:?}"
    );
    assert_eq!(error.to_openai().status, Some(400));
}

#[test]
fn an_unknown_declared_provider_is_a_core_error() {
    let error = json_client(r#"{"providers":{"openia":{}}}"#)
        .err()
        .expect("the roster has no `openia`");
    assert!(
        matches!(&error, Error::InvalidInput(m) if m.contains("openia")),
        "{error:?}"
    );
}

#[test]
fn stream_true_is_refused_and_names_the_streaming_method() {
    let client = json_client("{}").unwrap();
    let error = client
        .chat_completions(r#"{"model":"openai/gpt-5.6","messages":[],"stream":true}"#)
        .expect_err("a whole reply cannot carry chunks");
    match &error {
        Error::InvalidInput(message) => assert!(
            message.contains("chat_completions_stream"),
            "the refusal must name where to go instead: {message}"
        ),
        other => panic!("{other:?}"),
    }
    assert_eq!(error.to_openai().status, Some(400));
}

#[test]
fn a_malformed_request_body_is_invalid_input_on_both_entrypoints() {
    let client = json_client("{}").unwrap();
    assert!(matches!(
        client.chat_completions("not json"),
        Err(Error::InvalidInput(_))
    ));
    assert!(matches!(
        client.chat_completions_stream("not json").err(),
        Some(Error::InvalidInput(_))
    ));
}

#[test]
fn an_unregistered_model_never_opens_a_stream() {
    let client = json_client("{}").unwrap();
    let error = client
        .chat_completions_stream(r#"{"model":"openai/not-a-model","messages":[]}"#)
        .expect_err("the roster is closed");
    assert!(
        matches!(&error, Error::InvalidModel { given } if given == "openai/not-a-model"),
        "{error:?}"
    );
}

#[test]
fn json_balanced_empty_candidates_rejected() {
    let error = JsonBalancedClient::new("{}", "[]").unwrap_err();
    assert!(error.message().contains("at least one candidate"));
}

#[test]
fn json_balanced_unknown_model_rejected() {
    let error = JsonBalancedClient::new("{}", r#"[{"model":"nope/nope","weight":1}]"#).unwrap_err();
    assert!(error.message().contains("no registered model"));
}

#[test]
fn json_balanced_all_zero_weight_rejected() {
    let error =
        JsonBalancedClient::new("{}", r#"[{"model":"openai/gpt-5.6","weight":0}]"#).unwrap_err();
    assert!(error.message().contains("weight 0"), "{error:?}");
}

#[test]
fn json_balanced_weight_exceeding_i32_max_rejected() {
    let error =
        JsonBalancedClient::new("{}", r#"[{"model":"openai/gpt-5.6","weight":4294967295}]"#)
            .unwrap_err();
    assert!(error.message().contains("exceeds the maximum"), "{error:?}");
}

#[test]
fn json_balanced_candidate_missing_weight_is_invalid_input() {
    let error = JsonBalancedClient::new("{}", r#"[{"model":"openai/gpt-5.6"}]"#).unwrap_err();
    assert!(matches!(error, Error::InvalidInput(_)), "{error:?}");
}

#[test]
fn json_balanced_stream_true_is_refused_after_selecting() {
    let mut client =
        JsonBalancedClient::new("{}", r#"[{"model":"openai/gpt-5.6","weight":1}]"#).unwrap();
    let error = client
        .chat_completions(r#"{"model":"ignored","messages":[],"stream":true}"#)
        .expect_err("a whole reply cannot carry chunks");
    match &error {
        Error::InvalidInput(message) => assert!(
            message.contains("chat_completions_stream"),
            "the refusal must name where to go instead: {message}"
        ),
        other => panic!("{other:?}"),
    }
}

// ---------------------------------------------------------------------------
// Calls
// ---------------------------------------------------------------------------

#[test]
fn a_call_carries_the_declared_key_and_the_bare_model() {
    let client = json_client(r#"{"providers":{"openai":{"api_key":"sk-x"}}}"#).unwrap();
    let call = client
        .chat_completions(
            r#"{"model":"openai/gpt-5.6","messages":[{"role":"user","content":"hi"}],"seed":7}"#,
        )
        .unwrap();
    assert_eq!(call.provider, "openai");
    assert_eq!(call.protocol, Protocol::OpenAiCompat);
    assert_eq!(call.api_key.as_deref(), Some("sk-x"));
    assert!(!call.report_usage);
    assert_eq!(
        to_value(&call.body),
        val(r#"{"model":"gpt-5.6","messages":[{"role":"user","content":"hi"}],"seed":7}"#)
    );
}

#[test]
fn an_undeclared_client_serves_every_provider_without_a_key() {
    let client = json_client("{}").unwrap();
    for (model, provider) in [
        ("openai/gpt-5-nano", "openai"),
        ("deepseek/deepseek-v4-flash", "deepseek"),
        ("kimi/kimi-k3", "kimi"),
        ("opencode/glm-5.2", "opencode"),
    ] {
        let call = client
            .chat_completions(&format!(r#"{{"model":"{model}","messages":[]}}"#))
            .unwrap();
        assert_eq!(call.provider, provider);
        assert_eq!(call.api_key, None);
    }
}

#[test]
fn a_streamed_call_says_so_on_the_wire() {
    let client = json_client("{}").unwrap();
    let call = client
        .chat_completions_stream(
            r#"{"model":"openai/gpt-5.6","messages":[],"stream_options":{"include_usage":true}}"#,
        )
        .unwrap();
    let body = to_value(&call.body);
    assert_eq!(body["stream"], true);
    assert_eq!(body["stream_options"], val(r#"{"include_usage":true}"#));
    assert!(call.report_usage);
}

#[test]
fn a_document_that_is_no_request_is_invalid_input() {
    let client = json_client("{}").unwrap();
    for body in ["[]", "{}", r#"{"model":"openai/gpt-5.6"}"#, r#"{"model":1,"messages":[]}"#] {
        assert!(
            matches!(client.chat_completions(body), Err(Error::InvalidInput(_))),
            "{body}"
        );
    }
}

#[test]
fn an_anthropic_model_gets_a_messages_body_with_the_rosters_ceiling() {
    let call = anthropic_client()
        .chat_completions(
            r#"{"model":"anthropic/opus-5","messages":[{"role":"system","content":"Be brief."},{"role":"user","content":"hi"}]}"#,
        )
        .unwrap();
    assert_eq!(call.protocol, Protocol::Anthropic);
    assert_eq!(
        to_value(&call.body),
        val(r#"{
            "model": "opus-5",
            "max_tokens": 8192,
            "system": "Be brief.",
            "messages": [{"role": "user", "content": "hi"}]
        }"#)
    );
}

// ---------------------------------------------------------------------------
// Replies
// ---------------------------------------------------------------------------

fn openai_call() -> Call {
    json_client("{}")
        .unwrap()
        .chat_completions(r#"{"model":"openai/gpt-5.6","messages":[]}"#)
        .unwrap()
}

fn anthropic_call(streamed: bool) -> Call {
    let request = r#"{"model":"anthropic/opus-5","messages":[{"role":"user","content":"hi"}],"stream_options":{"include_usage":true}}"#;
    let client = anthropic_client();
    if streamed {
        client.chat_completions_stream(request).unwrap()
    } else {
        client.chat_completions(request).unwrap()
    }
}

#[test]
fn a_reply_comes_back_as_it_was_sent_under_the_callers_model() {
    let body = r#"{"id":"chatcmpl-1","object":"chat.completion","created":1700000000,"model":"gpt-5.6","choices":[{"index":0,"message":{"role":"assistant","content":"hi","refusal":null},"logprobs":null,"finish_reason":"stop"}],"usage":{"prompt_tokens":1,"completion_tokens":2,"total_tokens":3},"system_fingerprint":"fp_1"}"#;
    let text = reply_text(&openai_call(), answered(200, body)).unwrap();
    let mut expected = val(body);
    expected["model"] = "openai/gpt-5.6".into();
    assert_eq!(val(&text), expected);
}

#[test]
fn an_anthropic_reply_comes_back_as_chat_completions() {
    let body = r#"{"id":"msg_1","type":"message","role":"assistant","model":"opus-5","content":[{"type":"text","text":"hi"}],"stop_reason":"end_turn","stop_sequence":null,"usage":{"input_tokens":10,"output_tokens":5}}"#;
    let reply = to_value(&reply(&anthropic_call(false), answered(200, body)).unwrap());
    assert_eq!(reply["choices"][0]["message"]["content"], "hi");
    assert_eq!(reply["choices"][0]["finish_reason"], "stop");
    assert_eq!(reply["usage"]["prompt_tokens"], 10);
    assert_eq!(reply["usage"]["total_tokens"], 15);
}

#[test]
fn a_refused_call_is_the_providers_failure() {
    let parts = read_response(
        429,
        &vec![
            ("retry-after".to_string(), " 42 ".to_string()),
            ("x-request-id".to_string(), "req-abc".to_string()),
        ],
        r#"{"error":{"message":"slow down","type":"rate_limit_error"}}"#.to_string(),
    );
    let error = reply_text(&openai_call(), parts).unwrap_err();
    assert!(matches!(error, Error::RateLimited(_)), "{error:?}");
    let detail = error.provider_error().unwrap();
    assert_eq!(detail.provider, "openai");
    assert_eq!(detail.retry_after, Some(42));
    assert_eq!(detail.request_id.as_deref(), Some("req-abc"));
    let rendered = error.to_openai();
    assert_eq!(rendered.status, Some(429));
    assert_eq!(
        rendered.headers,
        vec![
            ("retry-after".to_string(), "42".to_string()),
            ("x-request-id".to_string(), "req-abc".to_string()),
        ]
    );
}

#[test]
fn an_anthropic_refusal_is_read_by_its_own_table() {
    let body = r#"{"type":"error","error":{"type":"overloaded_error","message":"busy"}}"#;
    let error = reply(&anthropic_call(false), answered(529, body)).unwrap_err();
    assert!(matches!(error, Error::Overloaded(_)), "{error:?}");
}

#[test]
fn a_success_that_is_no_reply_does_not_decode() {
    for body in ["not json", "{}", "[]"] {
        assert!(matches!(
            reply(&openai_call(), answered(200, body)),
            Err(Error::Decode { .. })
        ));
        assert!(matches!(
            reply(&anthropic_call(false), answered(200, body)),
            Err(Error::Decode { .. })
        ));
    }
}

// ---------------------------------------------------------------------------
// Streams
// ---------------------------------------------------------------------------

#[test]
fn a_chunk_comes_back_as_it_was_sent_under_the_callers_model() {
    let mut stream = JsonChatStream::new(&openai_call());
    let body = r#"{"id":"chatcmpl-1","object":"chat.completion.chunk","created":1700000000,"model":"gpt-5.6","choices":[{"index":0,"delta":{"role":"assistant","content":"hi"},"logprobs":null,"finish_reason":null}]}"#;
    let text = stream.next(body).unwrap().unwrap();
    let mut expected = val(body);
    expected["model"] = "openai/gpt-5.6".into();
    assert_eq!(val(&text), expected);
}

#[test]
fn a_payload_that_is_no_chunk_does_not_decode() {
    for payload in ["not json", "{}"] {
        let mut stream = JsonChatStream::new(&openai_call());
        assert!(matches!(
            stream.next(payload),
            Some(Err(Error::Decode { .. }))
        ));
    }
}

#[test]
fn an_anthropic_stream_comes_back_as_chat_completions_chunks() {
    let mut stream = JsonChatStream::new(&anthropic_call(true));
    let first = stream
        .next(r#"{"type":"message_start","message":{"id":"msg_1","type":"message","role":"assistant","model":"opus-5","content":[],"stop_reason":null,"stop_sequence":null,"usage":{"input_tokens":4,"output_tokens":1}}}"#)
        .unwrap()
        .unwrap();
    assert_eq!(val(&first)["id"], "msg_1");
    assert_eq!(val(&first)["model"], "anthropic/opus-5");
    assert!(stream.next(r#"{"type":"ping"}"#).is_none());
    // Text holds block 0, so the first tool call is at block 1 and is numbered 0.
    let opener = stream
        .next(r#"{"type":"content_block_start","index":1,"content_block":{"type":"tool_use","id":"tu_1","name":"weather","input":{}}}"#)
        .unwrap()
        .unwrap();
    let call = &val(&opener)["choices"][0]["delta"]["tool_calls"][0];
    assert_eq!(call["index"], 0);
    assert_eq!(call["id"], "tu_1");
    let end = stream
        .next(r#"{"type":"message_delta","delta":{"stop_reason":"tool_use"},"usage":{"output_tokens":9}}"#)
        .unwrap()
        .unwrap();
    assert_eq!(val(&end)["choices"][0]["finish_reason"], "tool_calls");
    let totals = val(&stream.next(r#"{"type":"message_stop"}"#).unwrap().unwrap());
    assert_eq!(totals["choices"], val("[]"));
    assert_eq!(totals["usage"]["total_tokens"], 13);
}

#[test]
fn an_anthropic_stream_hands_a_failure_out() {
    let mut stream = JsonChatStream::new(&anthropic_call(true));
    let error = stream
        .next(r#"{"type":"error","error":{"type":"overloaded_error","message":"Overloaded"}}"#)
        .unwrap()
        .unwrap_err();
    assert!(matches!(error, Error::Overloaded(_)), "{error:?}");
}

const CHUNK: &str = r#"{"id":"chatcmpl-1","object":"chat.completion.chunk","created":1,"model":"gpt-5.6","choices":[]}"#;

#[test]
fn nothing_follows_a_failure() {
    let mut stream = JsonChatStream::new(&openai_call());
    assert!(stream.next(CHUNK).unwrap().is_ok());
    assert!(!stream.ended());
    assert!(stream.next("not json").unwrap().is_err());
    assert!(stream.ended());
    assert!(stream.next(CHUNK).is_none(), "an error item is terminal");
    assert!(stream.next("not json").is_none());

    let mut stream = JsonChatStream::new(&anthropic_call(true));
    let failure = r#"{"type":"error","error":{"type":"overloaded_error","message":"busy"}}"#;
    assert!(matches!(stream.next(failure), Some(Err(Error::Overloaded(_)))));
    assert!(stream.next(failure).is_none());
    assert!(stream
        .next(r#"{"type":"content_block_delta","index":0,"delta":{"type":"text_delta","text":"hi"}}"#)
        .is_none());
}

#[test]
fn a_failure_of_the_transport_ends_the_stream_too() {
    let mut stream = JsonChatStream::new(&openai_call());
    let stalled = || Error::StreamStalled { provider: "openai".into() };
    assert_eq!(stream.fail(stalled()), Some(stalled()));
    assert!(stream.ended());
    assert_eq!(stream.fail(stalled()), None);
    assert!(stream.next(CHUNK).is_none());
}

// ---------------------------------------------------------------------------
// The balanced client
// ---------------------------------------------------------------------------

#[test]
fn every_candidate_gets_its_weight_in_turns() {
    let mut client = JsonBalancedClient::new(
        "{}",
        r#"[
            {"model":"openai/gpt-5.6","weight":2},
            {"model":"kimi/kimi-k3","weight":0},
            {"model":"deepseek/deepseek-v4-flash","weight":1}
        ]"#,
    )
    .unwrap();
    let mut served = Vec::new();
    for _ in 0..6 {
        let call = client
            .chat_completions(r#"{"model":"ignored","messages":[]}"#)
            .unwrap();
        served.push(call.provider);
    }
    let count = |name: &str| served.iter().filter(|p| p.as_str() == name).count();
    assert_eq!(count("openai"), 4);
    assert_eq!(count("deepseek"), 2);
    assert_eq!(count("kimi"), 0, "weight 0 takes no turn");
}

#[test]
fn a_refused_stream_takes_its_turn_and_a_malformed_request_none() {
    let mut client = JsonBalancedClient::new(
        "{}",
        r#"[{"model":"openai/gpt-5.6","weight":1},{"model":"kimi/kimi-k3","weight":1}]"#,
    )
    .unwrap();
    let plain = r#"{"model":"ignored","messages":[]}"#;
    assert!(client.chat_completions("not json").is_err());
    assert_eq!(client.chat_completions(plain).unwrap().provider, "openai");
    assert!(client
        .chat_completions(r#"{"model":"ignored","messages":[],"stream":true}"#)
        .is_err());
    let call = client.chat_completions_stream(plain).unwrap();
    assert_eq!(call.provider, "openai");
    assert_eq!(to_value(&call.body)["model"], "gpt-5.6");
    assert_eq!(to_value(&call.body)["stream"], true);
}
