use serde_json::Value;

use warpllm::gateway::openai_compat::wire::is_response;
use warpllm::gateway::types::message::{ContentBlock, MediaSource, ReasoningDetail};
use warpllm::gateway::types::response::{ChatResponse, FinishReason};
use warpllm::json::{Fields, Json};
use warpllm::types::Protocol;

fn val(text: &str) -> Value {
    serde_json::from_str(text).unwrap()
}

fn js(value: &Value) -> Json {
    Json::parse(&value.to_string()).unwrap()
}

fn to_value(json: &Json) -> Value {
    val(&json.to_text())
}

fn ext(fields: &Fields) -> Value {
    to_value(&Json::Object(fields.clone()))
}

/// A document that is a whole reply.
fn parse(body: Value) -> Value {
    assert!(is_response(&js(&body)), "{body}");
    body
}

fn ingest_response(response: Value) -> ChatResponse {
    warpllm::gateway::openai_compat::response::ingest_response(&js(&response))
}

fn render_response(response: &ChatResponse, provider: &str) -> Value {
    to_value(&warpllm::gateway::openai_compat::response::render_response(response, provider))
}
fn maximal_body() -> Value {
    val(r#"{
        "id": "chatcmpl-123",
        "choices": [{
        "finish_reason": "tool_calls",
        "index": 3,
        "logprobs": {
        "content": [{
        "token": "Hi",
        "bytes": [72, 105],
        "logprob": -0.1,
        "top_logprobs": [{"token": "Hi", "bytes": null, "logprob": -0.1}]
        }],
        "refusal": []
        },
        "message": {
        "content": "Hello there!",
        "refusal": "no thanks",
        "role": "assistant",
        "annotations": [{
        "type": "url_citation",
        "url_citation": {
        "end_index": 5,
        "start_index": 0,
        "title": "Example",
        "url": "https://example.com"
        }
        }],
        "audio": {
        "id": "audio-1",
        "data": "aGk=",
        "expires_at": 1700000600,
        "transcript": "hi"
        },
        "function_call": {"arguments": "{}", "name": "legacy_fn"},
        "tool_calls": [
        {
        "id": "call-1",
        "type": "function",
        "function": {"arguments": "{\"z\":1,\"a\":2}", "name": "search"}
        },
        {
        "id": "call-2",
        "type": "custom",
        "custom": {"input": "raw text", "name": "my_tool"}
        },
        {
        "id": "call-3",
        "type": "function",
        "function": {"arguments": "{}", "name": "extended"},
        "vendor_extra": true
        }
        ],
        "reasoning_content": "step by step"
        },
        "new_choice_field": true
        }],
        "created": 1700000000,
        "model": "gpt-5.6-2024-08-06",
        "object": "chat.completion",
        "moderation": {
        "input": {
        "type": "moderation_results",
        "model": "omni-moderation-latest",
        "results": [{
        "categories": {"violence": false},
        "category_applied_input_types": {"violence": ["text"]},
        "category_scores": {"violence": 0.001},
        "flagged": false,
        "model": "omni-moderation-latest",
        "type": "moderation_result"
        }]
        },
        "output": {"type": "error", "code": "moderation_unavailable", "message": "try again"}
        },
        "service_tier": "default",
        "system_fingerprint": "fp_44709d6fcb",
        "usage": {
        "completion_tokens": 12,
        "prompt_tokens": 9,
        "total_tokens": 21,
        "completion_tokens_details": {
        "accepted_prediction_tokens": 0,
        "audio_tokens": 0,
        "reasoning_tokens": 5,
        "rejected_prediction_tokens": 0
        },
        "prompt_tokens_details": {
        "audio_tokens": 0,
        "cache_write_tokens": 2,
        "cached_tokens": 3
        },
        "new_usage_field": 7
        },
        "new_top_level_field": "surprise"
        }"#)
}
#[test]
fn openai_compat_response_round_trip_is_lossless() {
    let body = maximal_body();
    let normalized = ingest_response(parse(body.clone()));
    let rendered = render_response(&normalized, "openai");
    assert_eq!(serde_json::to_value(&rendered).unwrap(), body);

    // Spot-check the typed views the IR exposes along the way.
    assert_eq!(normalized.id, "chatcmpl-123");
    assert_eq!(normalized.model, "gpt-5.6-2024-08-06");
    assert_eq!(normalized.created, Some(1_700_000_000));
    let completion = &normalized.completions[0];
    assert_eq!(completion.finish_reason, FinishReason::ToolCalls);
    assert_eq!(completion.finish_reason_raw, "tool_calls");
    assert_eq!(ext(&completion.ext)["openai_compat"]["index"], val(r#"3"#));
}

#[test]
fn minimal_response_round_trips() {
    // Optional fields absent; content/refusal explicit null contrast.
    let body = val(r#"{
        "id": "chatcmpl-1",
        "choices": [{
        "finish_reason": "stop",
        "index": 0,
        "message": {"content": null, "refusal": null, "role": "assistant"}
        }],
        "created": 1700000000,
        "model": "deepseek-v4-flash",
        "object": "chat.completion"
        }"#);
    let normalized = ingest_response(parse(body.clone()));
    assert!(normalized.completions[0].message.content.is_empty());
    let rendered = render_response(&normalized, "deepseek");
    assert_eq!(serde_json::to_value(&rendered).unwrap(), body);
}

#[test]
fn plain_function_tool_call_becomes_toolcall_block() {
    let normalized = ingest_response(parse(maximal_body()));
    let content = &normalized.completions[0].message.content;
    // The block order this protocol produces: promoted reasoning, then the
    // text, then tool calls in array order.
    assert!(matches!(&content[0], ContentBlock::Reasoning { .. }));
    assert!(matches!(&content[1], ContentBlock::Text { text, .. } if text == "Hello there!"));
    match &content[2] {
        ContentBlock::ToolCall {
            id,
            name,
            arguments,
        } => {
            assert_eq!(id, "call-1");
            assert_eq!(name, "search");
            // Byte-exact, key order untouched.
            assert_eq!(arguments.as_str(), "{\"z\":1,\"a\":2}");
        }
        other => panic!("expected ToolCall, got {other:?}"),
    }
    // Custom and extended calls pass through as Unknown, verbatim.
    assert!(
        matches!(&content[3], ContentBlock::Unknown(v) if to_value(v)["id"] == "call-2" && to_value(v)["custom"]["input"] == "raw text")
    );
    assert!(
        matches!(&content[4], ContentBlock::Unknown(v) if to_value(v)["id"] == "call-3" && to_value(v)["vendor_extra"] == true)
    );
}

#[test]
fn empty_tool_calls_array_survives() {
    let body = val(r#"{
        "id": "chatcmpl-1",
        "choices": [{
        "finish_reason": "stop",
        "index": 0,
        "message": {
        "content": "hi",
        "refusal": null,
        "role": "assistant",
        "tool_calls": []
        }
        }],
        "created": 1700000000,
        "model": "gpt-5.6",
        "object": "chat.completion"
        }"#);
    let normalized = ingest_response(parse(body.clone()));
    let rendered = render_response(&normalized, "openai");
    assert_eq!(serde_json::to_value(&rendered).unwrap(), body);
}

#[test]
fn usage_maps_typed_token_fields() {
    let normalized = ingest_response(parse(maximal_body()));
    let usage = normalized.usage.as_ref().unwrap();
    assert_eq!(usage.input_tokens, Some(9));
    assert_eq!(usage.output_tokens, Some(12));
    assert_eq!(usage.total_tokens, Some(21));
    assert_eq!(usage.reasoning_tokens, Some(5));
    assert_eq!(usage.cache_read_tokens, Some(3));
    assert_eq!(usage.cache_write_tokens, Some(2));
    assert_eq!(ext(&usage.ext)["openai_compat"]["new_usage_field"], val(r#"7"#));
}

#[test]
fn empty_details_object_presence_survives() {
    let body = val(r#"{
        "id": "chatcmpl-1",
        "choices": [{
        "finish_reason": "stop",
        "index": 0,
        "message": {"content": "hi", "refusal": null, "role": "assistant"}
        }],
        "created": 1700000000,
        "model": "gpt-5.6",
        "object": "chat.completion",
        "usage": {
        "completion_tokens": 1,
        "prompt_tokens": 2,
        "total_tokens": 3,
        "prompt_tokens_details": {}
        }
        }"#);
    let normalized = ingest_response(parse(body.clone()));
    let rendered = render_response(&normalized, "openai");
    assert_eq!(serde_json::to_value(&rendered).unwrap(), body);
}
#[test]
fn reasoning_content_becomes_a_reasoning_block_before_the_answer() {
    let normalized = ingest_response(parse(maximal_body()));
    let content = &normalized.completions[0].message.content;

    match &content[0] {
        ContentBlock::Reasoning {
            detail: ReasoningDetail::Text { text, signature },
            provenance,
            id,
        } => {
            assert_eq!(text, "step by step");
            assert_eq!(*signature, None);
            assert_eq!(provenance.as_deref(), Some("openai_compat"));
            assert_eq!(*id, None);
        }
        other => panic!("expected a Reasoning block first, got {other:?}"),
    }
    assert!(
        matches!(&content[1], ContentBlock::Text { .. }),
        "the answer must still follow the reasoning: {content:?}"
    );
}
#[test]
fn only_a_non_empty_string_reasoning_content_is_promoted() {
    for value in [val(r#""""#), val(r#"null"#), val(r#"["not","a","string"]"#)] {
        let mut body = maximal_body();
        body["choices"][0]["message"]["reasoning_content"] = value.clone();
        let normalized = ingest_response(parse(body));
        let content = &normalized.completions[0].message.content;
        assert!(
            !matches!(content[0], ContentBlock::Reasoning { .. }),
            "{value} was promoted"
        );
    }
}
#[test]
fn a_message_without_reasoning_content_gains_no_block() {
    let mut body = maximal_body();
    body["choices"][0]["message"]
        .as_object_mut()
        .unwrap()
        .remove("reasoning_content");
    let normalized = ingest_response(parse(body));

    assert!(
        !normalized.completions[0]
            .message
            .content
            .iter()
            .any(|block| matches!(block, ContentBlock::Reasoning { .. }))
    );
}

#[test]
fn protocol_extras_land_in_ext() {
    let normalized = ingest_response(parse(maximal_body()));
    let bag = &ext(&normalized.ext)["openai_compat"];
    assert_eq!(bag["object"], "chat.completion");
    assert_eq!(bag["service_tier"], "default");
    assert_eq!(bag["system_fingerprint"], "fp_44709d6fcb");
    assert_eq!(bag["new_top_level_field"], "surprise");
    let message = &normalized.completions[0].message;
    assert_eq!(ext(&message.ext)["openai_compat"]["refusal"], "no thanks");
    assert_eq!(
        ext(&message.ext)["openai_compat"]["reasoning_content"],
        "step by step"
    );
}

#[test]
fn response_ingest_populates_source() {
    let wire = parse(maximal_body());
    let normalized = ingest_response(wire.clone());
    let source = normalized.source.as_ref().unwrap();
    assert_eq!(source.protocol, Protocol::OpenAiCompat);
    assert_eq!(to_value(&source.body), wire);
}
#[test]
fn a_block_with_no_rendering_is_dropped_and_the_rest_survives() {
    let mut normalized = ingest_response(parse(maximal_body()));
    normalized.completions[0].message.content = vec![
        ContentBlock::Text {
            text: "here it is".into(),
            cache: None,
        },
        ContentBlock::Image {
            source: MediaSource::Url {
                url: "https://example.com/a.png".into(),
            },
            detail: None,
            cache: None,
        },
    ];

    let rendered = render_response(&normalized, "openai");
    assert_eq!(
        rendered["choices"][0]["message"]["content"],
        "here it is"
    );
}
#[test]
fn a_dropped_reasoning_block_still_renders_from_ext() {
    let normalized = ingest_response(parse(maximal_body()));
    assert!(
        normalized.completions[0]
            .message
            .content
            .iter()
            .any(|block| matches!(block, ContentBlock::Reasoning { .. })),
        "the fixture no longer exercises the retained-reasoning path"
    );

    let rendered = render_response(&normalized, "openai");
    assert_eq!(
        rendered["choices"][0]["message"]["reasoning_content"],
        val(r#""step by step""#)
    );
}

#[test]
fn an_absent_refusal_is_rendered_as_null() {
    let body = val(
        r#"{"id":"1","created":5,"model":"m","object":"chat.completion","choices":[
            {"index":0,"finish_reason":"stop","message":{"role":"assistant","content":"hi"}}]}"#,
    );
    let rendered = render_response(&ingest_response(parse(body.clone())), "kimi");
    let mut expected = body;
    expected["choices"][0]["message"]["refusal"] = Value::Null;
    assert_eq!(rendered, expected);
}

#[test]
fn texts_are_joined_by_lines_and_foreign_calls_are_written_as_functions() {
    let mut normalized = ingest_response(parse(maximal_body()));
    normalized.completions[0].message.content = vec![
        ContentBlock::Text { text: "a".into(), cache: None },
        ContentBlock::Text { text: "b".into(), cache: None },
        ContentBlock::Unknown(js(&val(r#"{"type":"server_tool_use"}"#))),
        ContentBlock::ToolCall {
            id: "t1".into(),
            name: "f".into(),
            arguments: warpllm::gateway::types::RawJson::new("{}"),
        },
    ];
    let message = render_response(&normalized, "openai")["choices"][0]["message"].clone();
    assert_eq!(message["content"], "a\nb");
    assert_eq!(
        message["tool_calls"],
        val(r#"[{"id":"t1","type":"function","function":{"arguments":"{}","name":"f"}}]"#)
    );
}

#[test]
fn a_reply_without_an_envelope_is_given_one() {
    let reply = ChatResponse {
        id: "x".into(),
        model: "m".into(),
        created: None,
        completions: vec![],
        usage: Some(warpllm::gateway::types::response::Usage {
            input_tokens: Some(7),
            cache_read_tokens: Some(3),
            ..Default::default()
        }),
        ext: Fields::new(),
        source: None,
    };
    assert_eq!(
        render_response(&reply, "anthropic"),
        val(
            r#"{"id":"x","model":"m","created":0,"object":"chat.completion","choices":[],
                "usage":{"prompt_tokens":7,"completion_tokens":0,"total_tokens":0,
                "prompt_tokens_details":{"cached_tokens":3}}}"#
        )
    );
}

#[test]
fn a_document_of_another_shape_is_no_reply() {
    for text in [
        "[]",
        r#"{"id":"1"}"#,
        r#"{"id":"1","created":-1,"model":"m","object":"o","choices":[]}"#,
        r#"{"id":"1","created":1,"model":"m","object":"o","choices":[{"index":0}]}"#,
    ] {
        assert!(!is_response(&Json::parse(text).unwrap()), "{text}");
    }
}

#[test]
fn a_corrupted_stashed_field_is_dropped() {
    let spoil = |fields: &mut Fields, keys: &[&str]| {
        let mut bag = fields.get("openai_compat").unwrap().fields();
        for key in keys {
            bag.put(key, js(&val("7")));
        }
        fields.put("openai_compat", Json::Object(bag));
    };
    let mut response = ingest_response(parse(maximal_body()));
    spoil(&mut response.ext, &["moderation", "service_tier", "system_fingerprint", "object"]);
    spoil(&mut response.completions[0].ext, &["logprobs"]);
    spoil(
        &mut response.completions[0].message.ext,
        &["annotations", "audio", "function_call", "refusal"],
    );
    let usage = response.usage.as_mut().unwrap();
    spoil(&mut usage.ext, &["completion_tokens_details"]);
    usage.reasoning_tokens = None;
    let rendered = render_response(&response, "openai");
    for key in ["moderation", "service_tier", "system_fingerprint"] {
        assert!(rendered.get(key).is_none(), "{key}");
    }
    assert_eq!(rendered["object"], "chat.completion");
    assert!(rendered["choices"][0].get("logprobs").is_none());
    let message = &rendered["choices"][0]["message"];
    for key in ["annotations", "audio", "function_call"] {
        assert!(message.get(key).is_none(), "{key}");
    }
    assert_eq!(message["refusal"], val("null"));
    assert!(rendered["usage"].get("completion_tokens_details").is_none());
    // The rest is what it was.
    assert_eq!(rendered["new_top_level_field"], "surprise");
    assert_eq!(message["reasoning_content"], "step by step");
}

#[test]
fn a_typed_field_of_another_type_is_no_reply() {
    for (pointer, value) in [
        ("/moderation", "7"),
        ("/choices/0/logprobs", "[]"),
        ("/choices/0/message/annotations", "[1]"),
        ("/choices/0/message/audio", r#"{"id":1}"#),
        ("/choices/0/message/function_call", r#"{"name":1}"#),
    ] {
        let mut body = maximal_body();
        *body.pointer_mut(pointer).unwrap() = val(value);
        assert!(!is_response(&js(&body)), "{pointer}");
        *body.pointer_mut(pointer).unwrap() = val("null");
        assert!(is_response(&js(&body)), "{pointer}");
    }
}
