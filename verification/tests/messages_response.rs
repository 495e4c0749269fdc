use serde_json::Value;
use warpllm::gateway::anthropic::response::{
    finish_reason, ingest_response, ingest_usage, render_reasoning, render_response,
};
use warpllm::gateway::anthropic::wire::is_message;
use warpllm::gateway::openai_compat::response::render_response as render_openai;
use warpllm::gateway::types::message::{ContentBlock, Message, ReasoningDetail, Role};
use warpllm::gateway::types::response::{ChatResponse, Completion, FinishReason, Usage};
use warpllm::gateway::types::RawJson;
use warpllm::json::{Fields, Json};

fn val(text: &str) -> Value {
    serde_json::from_str(text).unwrap()
}

fn js(value: &Value) -> Json {
    Json::parse(&value.to_string()).unwrap()
}

fn to_value(json: &Json) -> Value {
    val(&json.to_text())
}

/// A document that is a reply.
fn parse(body: Value) -> Json {
    assert!(is_message(&js(&body)), "{body}");
    js(&body)
}

fn round_trip(body: Value) -> Value {
    to_value(&render_response(&ingest_response(&parse(body)), "anthropic"))
}
fn maximal_body() -> Value {
    val(r#"{
        "id": "msg_013Zva2CMHLNnXjNJJKqJ2EF",
        "type": "message",
        "role": "assistant",
        "model": "opus-5",
        "content": [
        {"type": "thinking", "thinking": "Let me count.", "signature": "sig_abc"},
        {"type": "redacted_thinking", "data": "EncryptedBase64=="},
        {"type": "text", "text": "There are 3."},
        {"type": "tool_use", "id": "toolu_01", "name": "counter", "input": {"z": 1, "a": 2}},
        {"type": "server_tool_use", "id": "srvtoolu_01", "name": "web_search"}
        ],
        "stop_reason": "tool_use",
        "stop_sequence": null,
        "usage": {
        "input_tokens": 2095,
        "output_tokens": 503,
        "cache_creation_input_tokens": 2051,
        "cache_read_input_tokens": null,
        "output_tokens_details": {"thinking_tokens": 120},
        "service_tier": "standard",
        "cache_creation": {"ephemeral_5m_input_tokens": 2051}
        },
        "container": null
        }"#)
}

#[test]
fn a_maximal_reply_round_trips_byte_for_byte() {
    let body = maximal_body();
    assert_eq!(round_trip(body.clone()), body);
}
#[test]
fn the_gateway_view_of_a_maximal_reply() {
    let response = ingest_response(&parse(maximal_body()));
    assert_eq!(response.id, "msg_013Zva2CMHLNnXjNJJKqJ2EF");
    assert!(response.created.is_none(), "Anthropic stamps no timestamp");
    assert_eq!(response.completions.len(), 1, "one reply, one completion");

    let completion = &response.completions[0];
    assert_eq!(completion.finish_reason, FinishReason::ToolCalls);
    assert_eq!(completion.finish_reason_raw, "tool_use");
    assert_eq!(completion.message.role, Role::Assistant);

    let blocks = &completion.message.content;
    assert!(matches!(
        &blocks[0],
        ContentBlock::Reasoning {
            detail: ReasoningDetail::Text { signature: Some(sig), .. },
            provenance: Some(p),
            ..
        } if sig == "sig_abc" && p == "anthropic"
    ));
    assert!(matches!(
        &blocks[1],
        ContentBlock::Reasoning {
            detail: ReasoningDetail::Encrypted { data },
            ..
        } if data == "EncryptedBase64=="
    ));
    assert!(matches!(&blocks[2], ContentBlock::Text { text, .. } if text == "There are 3."));
    // Key order survives the object → text conversion (preserve_order).
    assert!(matches!(
        &blocks[3],
        ContentBlock::ToolCall { id, arguments, .. }
            if id == "toolu_01" && arguments.as_str() == r#"{"z":1,"a":2}"#
    ));
    // A block warpllm does not model stays whole rather than being
    // approximated as something it is not.
    assert!(
        matches!(&blocks[4], ContentBlock::Unknown(value) if to_value(value)["type"] == "server_tool_use")
    );
}
#[test]
fn the_input_count_is_normalized_to_include_the_cached_tokens() {
    let usage = ingest_usage(
        &js(&val(r#"{
        "input_tokens": 10,
        "output_tokens": 20,
        "cache_creation_input_tokens": 300,
        "cache_read_input_tokens": 4000,
        "output_tokens_details": {"thinking_tokens": 7}
        }"#)),
    );
    assert_eq!(usage.input_tokens, Some(4310), "10 + 300 + 4000");
    assert_eq!(usage.output_tokens, Some(20));
    assert_eq!(usage.cache_write_tokens, Some(300));
    assert_eq!(usage.cache_read_tokens, Some(4000));
    // Input plus output and nothing else: the cache counts are already
    // inside the input, so adding them again would double-count them.
    assert_eq!(usage.total_tokens, Some(4330));
    // Likewise a breakdown of `output_tokens`, already inside it.
    assert_eq!(usage.reasoning_tokens, Some(7));
}
#[test]
fn a_cached_reply_reports_consistent_openai_usage() {
    let reply = ingest_response(&parse(val(r#"{
        "id": "msg_1", "type": "message", "role": "assistant",
        "model": "opus-5", "content": [{"type": "text", "text": "hi"}],
        "stop_reason": "end_turn", "stop_sequence": null,
        "usage": {
        "input_tokens": 21,
        "output_tokens": 16,
        "cache_creation_input_tokens": 1024,
        "cache_read_input_tokens": 8192
        }
        }"#)));
    let openai = to_value(&render_openai(&reply, "anthropic"));
    let usage = &openai["usage"];
    assert_eq!(usage["prompt_tokens"], val(r#"9237"#), "21 + 1024 + 8192");
    assert_eq!(usage["completion_tokens"], val(r#"16"#));
    assert_eq!(
        usage["total_tokens"],
        val(r#"9253"#),
        "OpenAI's total is prompt + completion"
    );
    assert_eq!(
        usage["total_tokens"].as_u64().unwrap(),
        usage["prompt_tokens"].as_u64().unwrap() + usage["completion_tokens"].as_u64().unwrap()
    );
    // The cached count is a SUBSET of the prompt, so it cannot exceed it.
    let cached = usage["prompt_tokens_details"]["cached_tokens"]
        .as_u64()
        .unwrap();
    assert_eq!(cached, 8192);
    assert!(cached <= usage["prompt_tokens"].as_u64().unwrap());
}
#[test]
fn the_wire_input_count_survives_the_normalization() {
    let body = val(r#"{
        "id": "msg_1", "type": "message", "role": "assistant",
        "model": "opus-5", "content": [],
        "stop_reason": "end_turn", "stop_sequence": null,
        "usage": {
        "input_tokens": 21, "output_tokens": 16,
        "cache_creation_input_tokens": 1024,
        "cache_read_input_tokens": 8192
        }
        }"#);
    assert_eq!(round_trip(body.clone()), body);
}
#[test]
fn an_explicit_null_count_survives_the_round_trip() {
    let body = val(r#"{
        "id": "msg_1", "type": "message", "role": "assistant", "model": "opus-5",
        "content": [], "stop_reason": "end_turn", "stop_sequence": null,
        "usage": {
        "input_tokens": 1, "output_tokens": 2,
        "cache_creation_input_tokens": null,
        "cache_read_input_tokens": null,
        "output_tokens_details": {"thinking_tokens": null}
        }
        }"#);
    assert_eq!(round_trip(body.clone()), body);
}
#[test]
fn an_absent_breakdown_stays_absent() {
    let body = val(r#"{
        "id": "msg_1", "type": "message", "role": "assistant", "model": "opus-5",
        "content": [{"type": "text", "text": "hi"}],
        "stop_reason": "end_turn", "stop_sequence": null,
        "usage": {"input_tokens": 1, "output_tokens": 2}
        }"#);
    assert_eq!(round_trip(body.clone()), body);
}
#[test]
fn the_stop_reason_table() {
    let rows = [
        ("end_turn", FinishReason::Stop),
        ("stop_sequence", FinishReason::Stop),
        ("max_tokens", FinishReason::Length),
        ("model_context_window_exceeded", FinishReason::Length),
        ("tool_use", FinishReason::ToolCalls),
        ("refusal", FinishReason::ContentFilter),
        ("pause_turn", FinishReason::Other),
        ("something_new", FinishReason::Other),
    ];
    for (raw, expected) in rows {
        assert_eq!(finish_reason(Some(raw)), expected, "{raw}");
    }
    assert_eq!(finish_reason(None), FinishReason::Other);
}
#[test]
fn a_paused_turn_is_not_a_stop() {
    assert_ne!(finish_reason(Some("pause_turn")), FinishReason::Stop);
}
#[test]
fn an_unknown_stop_reason_keeps_its_spelling() {
    let body = val(r#"{
        "id": "msg_1", "type": "message", "role": "assistant", "model": "opus-5",
        "content": [], "stop_reason": "model_context_window_exceeded", "stop_sequence": null,
        "usage": {"input_tokens": 1, "output_tokens": 2}
        }"#);
    let response = ingest_response(&parse(body.clone()));
    assert_eq!(
        response.completions[0].finish_reason_raw,
        "model_context_window_exceeded"
    );
    assert_eq!(round_trip(body.clone()), body);
}
#[test]
fn only_anthropics_own_reasoning_renders_back() {
    let detail = ReasoningDetail::Text {
        text: "thinking".into(),
        signature: Some("sig".into()),
    };
    assert!(render_reasoning(&detail, &Some("anthropic".into())).is_some());
    assert!(render_reasoning(&detail, &Some("openai_compat".into())).is_none());
    assert!(render_reasoning(&detail, &None).is_none());
    assert!(
        render_reasoning(
            &ReasoningDetail::Summary {
                summary: "s".into()
            },
            &Some("anthropic".into())
        )
        .is_none()
    );
}
#[test]
fn residue_on_a_known_block_survives_the_round_trip() {
    let body = val(r#"{
        "id": "msg_1", "type": "message", "role": "assistant", "model": "opus-5",
        "content": [
        {
        "type": "text",
        "text": "The grass is green.",
        "citations": [{
        "type": "char_location",
        "cited_text": "The grass is green.",
        "document_index": 0,
        "start_char_index": 0,
        "end_char_index": 19
        }]
        },
        {
        "type": "image",
        "source": {"type": "url", "url": "https://e.com/a.png", "vendor_hint": 1},
        "cache_control": null
        },
        {"type": "text", "text": "and more", "cache_control": null}
        ],
        "stop_reason": "end_turn", "stop_sequence": null,
        "usage": {"input_tokens": 1, "output_tokens": 2}
        }"#);
    assert_eq!(round_trip(body.clone()), body);
}
#[test]
fn a_reply_with_no_retained_content_still_renders_its_blocks() {
    let response = ChatResponse {
        id: "msg_1".into(),
        model: "opus-5".into(),
        created: None,
        completions: vec![Completion {
            message: Message {
                role: Role::Assistant,
                content: vec![
                    ContentBlock::Text {
                        text: "hi".into(),
                        cache: None,
                    },
                    ContentBlock::ToolCall {
                        id: "toolu_1".into(),
                        name: "counter".into(),
                        arguments: RawJson::new(r#"{"z":1}"#),
                    },
                ],
                ext: Fields::new(),
            },
            finish_reason: FinishReason::ToolCalls,
            finish_reason_raw: "tool_use".into(),
            ext: Fields::new(),
        }],
        usage: None,
        ext: Fields::new(),
        source: None,
    };
    assert_eq!(
        to_value(&render_response(&response, "anthropic"))["content"],
        val(r#"[
        {"type": "text", "text": "hi"},
        {"type": "tool_use", "id": "toolu_1", "name": "counter", "input": {"z": 1}}
        ]"#)
    );
}
#[test]
fn a_text_source_document_stays_whole() {
    let body = val(r#"{
        "id": "msg_1", "type": "message", "role": "assistant", "model": "opus-5",
        "content": [{
        "type": "document",
        "source": {"type": "text", "media_type": "text/plain", "data": "grass is green"},
        "title": "notes"
        }],
        "stop_reason": "end_turn", "stop_sequence": null,
        "usage": {"input_tokens": 1, "output_tokens": 2}
        }"#);
    let response = ingest_response(&parse(body.clone()));
    assert!(matches!(
        &response.completions[0].message.content[0],
        ContentBlock::Unknown(value) if to_value(value)["source"]["type"] == "text"
    ));
    assert_eq!(round_trip(body.clone()), body);
}

#[test]
fn foreign_token_counts_are_rendered_without_the_cached_ones() {
    let rendered_input = |input: u64, read: u64, written: u64| {
        let mut response = ingest_response(&parse(maximal_body()));
        response.usage = Some(Usage {
            input_tokens: Some(input),
            output_tokens: Some(1),
            cache_read_tokens: Some(read),
            cache_write_tokens: Some(written),
            ..Default::default()
        });
        to_value(&render_response(&response, "anthropic"))["usage"]["input_tokens"].clone()
    };
    assert_eq!(rendered_input(9237, 8192, 1024), 21);
    assert_eq!(rendered_input(10, 8, 4), 0, "zero rather than less");
}
