use serde_json::Value;

use warpllm::gateway::ext::namespaced;
use warpllm::gateway::openai_compat::ordinals::ToolCallOrdinals;
use warpllm::gateway::openai_compat::response::render_finish_reason;
use warpllm::gateway::openai_compat::wire::is_chunk;
use warpllm::gateway::types::message::Role;
use warpllm::gateway::types::response::FinishReason;
use warpllm::gateway::types::stream::{
    ChatResponseChunk, CompletionDelta, ContentDelta, MessageDelta,
};
use warpllm::json::{Fields, Json};
use warpllm::types::Protocol;

fn val(text: &str) -> Value {
    serde_json::from_str(text).unwrap()
}

fn js(value: &Value) -> Json {
    Json::parse(&value.to_string()).unwrap()
}

fn to_value(json: &Json) -> Value {
    val(&json.to_text())
}

fn ext(fields: &Fields) -> Value {
    to_value(&Json::Object(fields.clone()))
}

/// A document that is a chunk.
fn parse(body: Value) -> Value {
    assert!(is_chunk(&js(&body)), "{body}");
    body
}

fn ingest_chunk(chunk: Value) -> ChatResponseChunk {
    warpllm::gateway::openai_compat::stream::ingest_chunk(&js(&chunk))
}

fn render_chunk(
    chunk: &ChatResponseChunk,
    provider: &str,
    ordinals: &mut ToolCallOrdinals,
) -> Value {
    to_value(&warpllm::gateway::openai_compat::stream::render_chunk(chunk, provider, ordinals))
}

/// A chunk of one choice.
fn chunk_of(delta: Value, model: &str) -> Value {
    let mut body = val(r#"{
        "id": "chatcmpl-1",
        "choices": [{"delta": null, "finish_reason": null, "index": 0}],
        "created": 1700000000,
        "object": "chat.completion.chunk"
    }"#);
    body["model"] = Value::from(model);
    body["choices"][0]["delta"] = delta;
    body
}

/// A delta of one piece of a tool call.
fn calling(call: Value) -> Value {
    let mut delta = val("{}");
    delta["tool_calls"] = Value::Array(vec![call]);
    delta
}

fn ending_chunk(raw: &str, reason: FinishReason) -> ChatResponseChunk {
    ChatResponseChunk {
        id: "chunk-1".into(),
        model: "opus-5".into(),
        created: None,
        completions: vec![CompletionDelta {
            delta: MessageDelta::default(),
            finish_reason: Some(reason),
            finish_reason_raw: Some(raw.to_string()),
            ext: Fields::new(),
        }],
        usage: None,
        ext: Fields::new(),
        source: None,
    }
}
#[test]
fn a_foreign_finish_reason_is_rendered_in_this_protocols_words() {
    let rows = [
        ("tool_use", FinishReason::ToolCalls, "tool_calls"),
        ("end_turn", FinishReason::Stop, "stop"),
        ("max_tokens", FinishReason::Length, "length"),
        ("refusal", FinishReason::ContentFilter, "content_filter"),
    ];
    for (raw, reason, expected) in rows {
        let wire = render_chunk(
            &ending_chunk(raw, reason),
            "anthropic",
            &mut ToolCallOrdinals::new(),
        );
        assert_eq!(wire["choices"][0]["finish_reason"], expected, "{raw}");
    }
}
#[test]
fn a_chunk_and_a_whole_reply_end_the_same_way() {
    for (raw, reason) in [
        ("tool_use", FinishReason::ToolCalls),
        ("end_turn", FinishReason::Stop),
        ("stop", FinishReason::Stop),
        ("function_call", FinishReason::Other),
    ] {
        let chunk = render_chunk(
            &ending_chunk(raw, reason),
            "anthropic",
            &mut ToolCallOrdinals::new(),
        );
        assert_eq!(
            chunk["choices"][0]["finish_reason"],
            render_finish_reason(raw, reason),
            "{raw}"
        );
    }
}
#[test]
fn a_chunk_that_does_not_end_a_choice_carries_no_finish_reason() {
    let mut chunk = ending_chunk("stop", FinishReason::Stop);
    chunk.completions[0].finish_reason = None;
    chunk.completions[0].finish_reason_raw = None;
    assert_eq!(
        render_chunk(&chunk, "anthropic", &mut ToolCallOrdinals::new())["choices"][0]
            ["finish_reason"],
        Value::Null
    );
}

fn round_trip(body: Value, provider: &str) {
    let normalized = ingest_chunk(parse(body.clone()));
    let rendered = render_chunk(&normalized, provider, &mut ToolCallOrdinals::new());
    assert_eq!(serde_json::to_value(&rendered).unwrap(), body);
}
fn maximal_chunk() -> Value {
    val(r#"{
        "id": "chatcmpl-123",
        "choices": [{
        "delta": {
        "content": "Hello",
        "function_call": {"arguments": "{\"q\":", "name": "legacy_fn"},
        "refusal": null,
        "role": "assistant",
        "tool_calls": [{
        "index": 0,
        "id": "call-1",
        "function": {"arguments": "{\"z\":1,\"a\":2}", "name": "search"},
        "type": "function"
        }],
        "reasoning_content": "step by step"
        },
        "finish_reason": "tool_calls",
        "index": 3,
        "logprobs": {
        "content": [{
        "token": "Hello",
        "bytes": [72, 101, 108, 108, 111],
        "logprob": -0.1,
        "top_logprobs": [{"token": "Hello", "bytes": null, "logprob": -0.1}]
        }],
        "refusal": null
        },
        "new_choice_field": true
        }],
        "created": 1700000000,
        "model": "gpt-5.6",
        "object": "chat.completion.chunk",
        "service_tier": "default",
        "system_fingerprint": "fp_44709d6fcb",
        "usage": {
        "completion_tokens": 12,
        "prompt_tokens": 9,
        "total_tokens": 21,
        "prompt_tokens_details": {"cached_tokens": 3}
        },
        "obfuscation": "8Xk2p"
        }"#)
}
fn call_chunk(fragments: &[(u32, u32)]) -> ChatResponseChunk {
    ChatResponseChunk {
        id: "msg_1".into(),
        model: "opus-5".into(),
        created: None,
        completions: fragments
            .iter()
            .map(|&(choice, key)| {
                let mut kept = Fields::new();
                kept.put("index", Json::count(choice as u64));
                CompletionDelta {
                    delta: MessageDelta {
                        role: None,
                        content: vec![ContentDelta::ToolCall {
                            index: key,
                            id: Some(format!("tu_{key}")),
                            kind: Some("tool_use".into()),
                            name: Some("get_weather".into()),
                            arguments: None,
                        }],
                        ext: Fields::new(),
                    },
                    finish_reason: None,
                    finish_reason_raw: None,
                    ext: namespaced(Protocol::OpenAiCompat, kept),
                }
            })
            .collect(),
        usage: None,
        ext: Fields::new(),
        source: None,
    }
}
fn wire_indices(fragments: &[(u32, u32)], ordinals: &mut ToolCallOrdinals) -> Vec<Option<u32>> {
    render_chunk(&call_chunk(fragments), "anthropic", ordinals)
["choices"]
        .as_array()
        .unwrap()
        .iter()
        .map(|choice| choice["delta"]["tool_calls"][0]["index"].as_u64().map(|n| n as u32))
        .collect()
}
#[test]
fn a_tool_calls_index_is_an_ordinal_not_the_correlation_key() {
    let mut ordinals = ToolCallOrdinals::new();
    assert_eq!(
        wire_indices(&[(0, 1)], &mut ordinals),
        vec![Some(0)],
        "Anthropic's block index reached an OpenAI caller as an array index"
    );
}
#[test]
fn every_fragment_of_one_call_keeps_its_ordinal() {
    let mut ordinals = ToolCallOrdinals::new();
    for _ in 0..3 {
        assert_eq!(wire_indices(&[(0, 1)], &mut ordinals), vec![Some(0)]);
    }
}
#[test]
fn each_new_call_takes_the_next_slot() {
    let mut ordinals = ToolCallOrdinals::new();
    // Keys 5 then 2, deliberately not ascending: first-seen is the rule,
    // so a version that sorted or subtracted a base would answer 3 and 0.
    assert_eq!(wire_indices(&[(0, 5)], &mut ordinals), vec![Some(0)]);
    assert_eq!(wire_indices(&[(0, 2)], &mut ordinals), vec![Some(1)]);
    assert_eq!(wire_indices(&[(0, 5)], &mut ordinals), vec![Some(0)]);
}
#[test]
fn a_same_protocol_streams_indices_are_unchanged() {
    let mut ordinals = ToolCallOrdinals::new();
    for key in 0..4 {
        assert_eq!(
            wire_indices(&[(0, key)], &mut ordinals),
            vec![Some(key)],
            "key {key} was renumbered on a stream that needed no remap"
        );
    }
}
fn tool_call_chunk(call: Value) -> Value {
    let mut body = val(r#"{
        "id": "chatcmpl_1",
        "created": 1700000000,
        "model": "gpt-5.6",
        "object": "chat.completion.chunk",
        "choices": [{"index": 0, "delta": {}}]
    }"#);
    body["choices"][0]["delta"] = calling(call);
    body
}
fn round_tripped_index(call: Value, ordinals: &mut ToolCallOrdinals) -> u32 {
    render_chunk(
        &ingest_chunk(parse(tool_call_chunk(call))),
        "openai",
        ordinals,
    )
["choices"][0]["delta"]["tool_calls"][0]["index"]
        .as_u64()
        .expect("the chunk carried a tool call") as u32
}
#[test]
fn a_passthrough_tool_call_claims_its_ordinal() {
    let mut ordinals = ToolCallOrdinals::new();
    assert_eq!(
        round_tripped_index(
            val(r#"{"index":0,"id":"call_a","type":"custom","function":{"name":"run","arguments":"{}"}}"#),
            &mut ordinals
        ),
        0,
        "a verbatim replay renumbered the index it arrived with"
    );
    assert_eq!(
        round_tripped_index(
            val(r#"{
        "index": 1,
        "id": "call_b",
        "type": "function",
        "function": {"name": "get_weather", "arguments": ""}
        }"#),
            &mut ordinals
        ),
        1,
        "a typed call took the slot a passthrough call already held"
    );
}
#[test]
fn ordinals_are_numbered_within_a_choice() {
    let mut ordinals = ToolCallOrdinals::new();
    // DIFFERENT keys per choice, and that is the whole design of this test.
    // With the same key in both, a map that ignored the choice entirely
    // would still answer 0 twice — the second lookup would find the first
    // entry by key alone — and this would pass while proving nothing.
    // Distinct keys are what force the scoping to be real.
    assert_eq!(
        wire_indices(&[(0, 5), (1, 9)], &mut ordinals),
        vec![Some(0), Some(0)],
        "a per-stream map renumbered a call that belongs to another choice"
    );
    // And within each of those choices, numbering still advances.
    assert_eq!(
        wire_indices(&[(0, 6), (1, 5)], &mut ordinals),
        vec![Some(1), Some(1)]
    );
}
#[test]
fn openai_compat_chunk_round_trip_is_lossless() {
    round_trip(maximal_chunk(), "openai");

    // Spot-check the typed views the IR exposes along the way.
    let normalized = ingest_chunk(parse(maximal_chunk()));
    assert_eq!(normalized.id, "chatcmpl-123");
    assert_eq!(normalized.created, Some(1_700_000_000));
    let completion = &normalized.completions[0];
    assert_eq!(completion.finish_reason, Some(FinishReason::ToolCalls));
    assert_eq!(completion.finish_reason_raw.as_deref(), Some("tool_calls"));
    assert_eq!(ext(&completion.ext)["openai_compat"]["index"], val(r#"3"#));
    assert_eq!(completion.delta.role, Some(Role::Assistant));
    assert_eq!(
        normalized.usage.as_ref().unwrap().cache_read_tokens,
        Some(3)
    );
    assert_eq!(
        ext(&normalized.ext)["openai_compat"]["obfuscation"],
        val(r#""8Xk2p""#)
    );
}
#[test]
fn a_minimal_chunk_round_trips() {
    round_trip(
        val(r#"{
        "id": "chatcmpl-1",
        "choices": [{"delta": {}, "finish_reason": null, "index": 0}],
        "created": 1700000000,
        "model": "gpt-5.6",
        "object": "chat.completion.chunk"
        }"#),
        "openai",
    );
}
#[test]
fn absent_null_and_empty_content_stay_distinct() {
    let chunk = |delta: Value| {
        chunk_of(delta, "gpt-5.6")
    };

    for delta in [val(r#"{}"#), val(r#"{"content":null}"#), val(r#"{"content":""}"#)] {
        round_trip(chunk(delta), "openai");
    }

    // ...and the IR tells them apart, not merely the bytes.
    let absent = ingest_chunk(parse(chunk(val(r#"{}"#))));
    assert!(absent.completions[0].delta.content.is_empty());

    let nulled = ingest_chunk(parse(chunk(val(r#"{"content":null}"#))));
    assert!(nulled.completions[0].delta.content.is_empty());
    assert_eq!(
        ext(&nulled.completions[0].delta.ext)["openai_compat"]["content"],
        Value::Null
    );

    let empty = ingest_chunk(parse(chunk(val(r#"{"content":""}"#))));
    assert!(matches!(
        &empty.completions[0].delta.content[0],
        ContentDelta::Text { text } if text.is_empty()
    ));
}
#[test]
fn a_tool_calls_kind_is_translated_into_this_protocols_vocabulary() {
    let rendered = |kind: Option<&str>| {
        let chunk = ChatResponseChunk {
            id: "msg_1".into(),
            model: "opus-5".into(),
            created: None,
            completions: vec![CompletionDelta {
                delta: MessageDelta {
                    role: None,
                    content: vec![ContentDelta::ToolCall {
                        index: 0,
                        id: Some("tu_1".into()),
                        kind: kind.map(str::to_string),
                        name: Some("get_weather".into()),
                        arguments: None,
                    }],
                    ext: Fields::new(),
                },
                finish_reason: None,
                finish_reason_raw: None,
                ext: Fields::new(),
            }],
            usage: None,
            ext: Fields::new(),
            source: None,
        };
        render_chunk(
            &chunk,
            "anthropic",
            &mut ToolCallOrdinals::new(),
        )["choices"][0]["delta"]["tool_calls"][0]["type"]
            .clone()
    };

    assert_eq!(
        rendered(Some("tool_use")),
        val(r#""function""#),
        "Anthropic's spelling reached an OpenAI caller, whose SDK has no such value"
    );
    assert_eq!(
        rendered(Some("function")),
        val(r#""function""#),
        "this protocol's own spelling must survive unchanged"
    );
    assert_eq!(
        rendered(Some("custom")),
        val(r#""custom""#),
        "a word this protocol has must not be rewritten to `function`"
    );
    assert_eq!(
        rendered(None),
        val(r#"null"#),
        "a fragment that carried no type must not gain one"
    );
}
#[test]
fn tool_call_fragments_keep_their_shape() {
    let fragment = |call: Value| {
        chunk_of(calling(call), "deepseek-v4-flash")
    };
    let opener = val(r#"{
        "index": 0,
        "id": "call_0_5f3a91c2",
        "type": "function",
        "function": {"name": "get_weather", "arguments": ""}
        }"#);
    let continuation = val(r#"{"index":0,"function":{"arguments":"{\"city\":"}}"#);

    round_trip(fragment(opener.clone()), "deepseek");
    round_trip(fragment(continuation.clone()), "deepseek");

    let normalized = ingest_chunk(parse(fragment(opener)));
    assert!(matches!(
        &normalized.completions[0].delta.content[0],
        ContentDelta::ToolCall { index: 0, id: Some(id), name: Some(name), .. }
            if id == "call_0_5f3a91c2" && name == "get_weather"
    ));

    let normalized = ingest_chunk(parse(fragment(continuation)));
    assert!(matches!(
        &normalized.completions[0].delta.content[0],
        ContentDelta::ToolCall { index: 0, id: None, kind: None, name: None, arguments: Some(a) }
            if a == "{\"city\":"
    ));
}
#[test]
fn a_nonstandard_tool_call_fragment_passes_through_verbatim() {
    let chunk = |call: Value| {
        chunk_of(calling(call), "gpt-5.6")
    };
    let odd = [
        val(r#"{"index":0,"type":"custom","function":{"arguments":"x"}}"#),
        val(r#"{"index":0,"function":{"arguments":"x"},"vendor_extra":true}"#),
        val(r#"{"index":0,"function":{}}"#),
        val(r#"{"index":0,"id":"call-1"}"#),
    ];
    for call in odd {
        round_trip(chunk(call.clone()), "openai");
        let normalized = ingest_chunk(parse(chunk(call.clone())));
        assert!(
            matches!(&normalized.completions[0].delta.content[0], ContentDelta::Unknown(v) if to_value(v) == call),
            "{call} was not passed through verbatim"
        );
    }
}
#[test]
fn a_null_usage_is_not_an_absent_one() {
    let chunk = |usage: Value| {
        let mut body = val(r#"{
        "id": "chatcmpl-1",
        "choices": [],
        "created": 1700000000,
        "model": "gpt-5.6",
        "object": "chat.completion.chunk"
        }"#);
        if !usage.is_null() {
            body.as_object_mut().unwrap().insert("usage".into(), usage);
        }
        body
    };

    round_trip(chunk(Value::Null), "openai");
    round_trip(chunk(val(r#"null"#)), "openai");
    round_trip(
        chunk(val(r#"{"completion_tokens":3,"prompt_tokens":11,"total_tokens":14}"#)),
        "openai",
    );

    let mut nulled = chunk(Value::Null);
    nulled
        .as_object_mut()
        .unwrap()
        .insert("usage".into(), Value::Null);
    let normalized = ingest_chunk(parse(nulled.clone()));
    assert!(normalized.usage.is_none());
    assert_eq!(ext(&normalized.ext)["openai_compat"]["usage"], Value::Null);
    assert_eq!(
        render_chunk(&normalized, "openai", &mut ToolCallOrdinals::new()),
        nulled
    );
}
#[test]
fn a_usage_only_chunk_round_trips() {
    round_trip(
        val(r#"{
        "id": "chatcmpl-1",
        "choices": [],
        "created": 1700000000,
        "model": "gpt-5.6",
        "object": "chat.completion.chunk",
        "usage": {
        "completion_tokens": 3,
        "prompt_tokens": 11,
        "total_tokens": 14,
        "completion_tokens_details": {"reasoning_tokens": 0},
        "prompt_tokens_details": {"cached_tokens": 0}
        }
        }"#),
        "openai",
    );
}
#[test]
fn reasoning_content_becomes_a_delta_before_the_answer() {
    let normalized = ingest_chunk(parse(maximal_chunk()));
    let content = &normalized.completions[0].delta.content;

    assert!(matches!(
        &content[0],
        ContentDelta::Reasoning { text, provenance }
            if text == "step by step" && provenance.as_deref() == Some("openai_compat")
    ));
    assert!(
        matches!(&content[1], ContentDelta::Text { .. }),
        "the answer must still follow the reasoning: {content:?}"
    );

    let rendered = render_chunk(&normalized, "deepseek", &mut ToolCallOrdinals::new());
    assert_eq!(
        rendered["choices"][0]["delta"]["reasoning_content"],
        val(r#""step by step""#)
    );
}
#[test]
fn only_a_string_reasoning_content_is_promoted() {
    for value in [val(r#"null"#), val(r#"["not","a","string"]"#), val(r#"7"#)] {
        let mut body = maximal_chunk();
        body["choices"][0]["delta"]["reasoning_content"] = value.clone();
        let normalized = ingest_chunk(parse(body.clone()));
        assert!(
            !matches!(
                normalized.completions[0].delta.content[0],
                ContentDelta::Reasoning { .. }
            ),
            "{value} was promoted"
        );
        round_trip(body, "deepseek");
    }
}
#[test]
fn an_empty_tool_calls_array_survives() {
    round_trip(
        val(r#"{
        "id": "chatcmpl-1",
        "choices": [{
        "delta": {"content": "hi", "tool_calls": []},
        "finish_reason": null,
        "index": 0
        }],
        "created": 1700000000,
        "model": "gpt-5.6",
        "object": "chat.completion.chunk"
        }"#),
        "openai",
    );
}
#[test]
fn an_unknown_role_keeps_its_spelling() {
    let body = val(r#"{
        "id": "chatcmpl-1",
        "choices": [{
        "delta": {"role": "critic"},
        "finish_reason": null,
        "index": 0
        }],
        "created": 1700000000,
        "model": "gpt-5.6",
        "object": "chat.completion.chunk"
        }"#);
    round_trip(body.clone(), "openai");
    assert_eq!(
        ext(&ingest_chunk(parse(body)).completions[0].delta.ext)["openai_compat"]["role"],
        val(r#""critic""#)
    );
}

#[test]
fn stream_ingest_populates_source() {
    let wire = parse(maximal_chunk());
    let normalized = ingest_chunk(wire.clone());
    let source = normalized.source.as_ref().unwrap();
    assert_eq!(source.protocol, Protocol::OpenAiCompat);
    assert_eq!(to_value(&source.body), wire);
}

#[test]
fn a_position_is_counted_within_its_choice_and_kept() {
    let mut ordinals = ToolCallOrdinals::new();
    assert_eq!(ordinals.ordinal(0, u32::MAX), 0);
    assert_eq!(ordinals.ordinal(1, u32::MAX), 0);
    assert_eq!(ordinals.ordinal(0, 0), 1);
    assert_eq!(ordinals.ordinal(0, u32::MAX), 0);
    assert_eq!(ordinals.ordinal(1, 7), 1);
}

#[test]
fn an_index_that_is_not_kept_is_the_place_in_the_list() {
    let mut chunk = ending_chunk("stop", FinishReason::Stop);
    chunk.completions.push(CompletionDelta {
        delta: MessageDelta::default(),
        finish_reason: None,
        finish_reason_raw: None,
        ext: Fields::new(),
    });
    let rendered = render_chunk(&chunk, "openai", &mut ToolCallOrdinals::new());
    assert_eq!(rendered["choices"][1]["index"], 1);
    assert_eq!(rendered["created"], 0);
    assert_eq!(rendered["object"], "chat.completion.chunk");
}
