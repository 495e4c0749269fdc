use serde_json::Value;
use warpllm::gateway::anthropic::stream::{ingest_event, render_event, StreamState};
use warpllm::gateway::types::message::Role;
use warpllm::gateway::types::response::{FinishReason, Usage};
use warpllm::gateway::types::stream::{
    ChatResponseChunk, CompletionDelta, ContentDelta, MessageDelta,
};
use warpllm::json::{Fields, Json};

fn val(text: &str) -> Value {
    serde_json::from_str(text).unwrap()
}

fn js(value: &Value) -> Json {
    Json::parse(&value.to_string()).unwrap()
}

fn to_value(json: &Json) -> Value {
    val(&json.to_text())
}

fn event(body: Value) -> Json {
    js(&body)
}

fn started() -> (StreamState, ChatResponseChunk) {
    start(false)
}
fn started_asking() -> (StreamState, ChatResponseChunk) {
    start(true)
}

fn start(report_usage: bool) -> (StreamState, ChatResponseChunk) {
    let mut state = StreamState::new(report_usage);
    let chunk = ingest_event(
        &event(val(r#"{
        "type": "message_start",
        "message": {
        "id": "msg_1", "type": "message", "role": "assistant",
        "model": "opus-5", "content": [],
        "stop_reason": null, "stop_sequence": null,
        "usage": {"input_tokens": 21, "output_tokens": 0,
        "cache_read_input_tokens": 8192,
        "cache_creation_input_tokens": 1024}
        }
        }"#)),
        &mut state,
    )
    .expect("message_start is a chunk");
    (state, chunk)
}

fn ingest(body: Value, state: &mut StreamState) -> Option<ChatResponseChunk> {
    ingest_event(&event(body), state)
}
#[test]
fn message_start_establishes_identity_for_every_later_chunk() {
    let (mut state, first) = started();
    assert_eq!(first.id, "msg_1");
    assert_eq!(first.model, "opus-5");
    assert_eq!(
        first.completions[0].delta.role,
        Some(Role::Assistant)
    );

    let later = ingest(
        val(r#"{"type":"content_block_delta","index":0,"delta":{"type":"text_delta","text":"hi"}}"#),
        &mut state,
    )
    .unwrap();
    assert_eq!(later.id, "msg_1");
    assert_eq!(later.model, "opus-5");
}
#[test]
fn the_contentless_events_produce_no_chunk() {
    let (mut state, _) = started();
    for body in [
        val(r#"{"type":"content_block_stop","index":0}"#),
        val(r#"{"type":"message_stop"}"#),
        val(r#"{"type":"ping"}"#),
    ] {
        assert!(ingest(body.clone(), &mut state).is_none(), "{body}");
    }
}
#[test]
fn an_error_event_is_not_a_chunk() {
    let (mut state, _) = started();
    assert!(
        ingest(
            val(r#"{"type":"error","error":{"type":"overloaded_error","message":"overloaded"}}"#),
            &mut state
        )
        .is_none()
    );
}
#[test]
fn the_content_event_table() {
    let (mut state, _) = started();

    let text = ingest(
        val(r#"{"type":"content_block_start","index":0,"content_block":{"type":"text","text":""}}"#),
        &mut state,
    )
    .unwrap();
    assert!(matches!(
        &text.completions[0].delta.content[0],
        ContentDelta::Text { text } if text.is_empty()
    ));

    let call = ingest(
        val(r#"{"type": "content_block_start", "index": 1,
        "content_block": {"type": "tool_use", "id": "tu_1",
        "name": "weather", "input": {}}}"#),
        &mut state,
    )
    .unwrap();
    assert!(matches!(
        &call.completions[0].delta.content[0],
        ContentDelta::ToolCall { index: 1, id: Some(id), name: Some(name), arguments: None, .. }
            if id == "tu_1" && name == "weather"
    ));

    let fragment = ingest(
        val(r#"{"type": "content_block_delta", "index": 1,
        "delta": {"type": "input_json_delta", "partial_json": "{\"city\":"}}"#),
        &mut state,
    )
    .unwrap();
    assert!(matches!(
        &fragment.completions[0].delta.content[0],
        ContentDelta::ToolCall { index: 1, id: None, name: None, arguments: Some(text), .. }
            if text == "{\"city\":"
    ));

    let thinking = ingest(
        val(r#"{"type": "content_block_delta", "index": 0,
        "delta": {"type": "thinking_delta", "thinking": "step"}}"#),
        &mut state,
    )
    .unwrap();
    assert!(matches!(
        &thinking.completions[0].delta.content[0],
        ContentDelta::Reasoning { text, provenance: Some(p) }
            if text == "step" && p == "anthropic"
    ));

    // A signature covers a whole block, so it is not a fragment of one and
    // no `ContentDelta` holds it. It rides residue instead of being lost.
    let signature = ingest(
        val(r#"{"type": "content_block_delta", "index": 0,
        "delta": {"type": "signature_delta", "signature": "sig"}}"#),
        &mut state,
    )
    .unwrap();
    assert!(matches!(
        &signature.completions[0].delta.content[0],
        ContentDelta::Unknown(_)
    ));
}
#[test]
fn the_block_index_is_anthropics_not_remapped() {
    let (mut state, _) = started();
    // Text at 0, so the FIRST tool call is at 1 — a chat-completions
    // reader would have called it 0.
    let call = ingest(
        val(r#"{"type": "content_block_start", "index": 1,
        "content_block": {"type": "tool_use", "id": "tu_1",
        "name": "w", "input": {}}}"#),
        &mut state,
    )
    .unwrap();
    assert!(matches!(
        call.completions[0].delta.content[0],
        ContentDelta::ToolCall { index: 1, .. }
    ));
}
#[test]
fn usage_is_reported_once_and_includes_the_cached_input() {
    let (mut state, first) = started_asking();
    assert!(first.usage.is_none(), "partial totals were reported early");

    assert!(
        ingest(
            val(r#"{"type": "message_delta",
        "delta": {"stop_reason": "end_turn", "stop_sequence": null},
        "usage": {"output_tokens": 16}}"#),
            &mut state,
        )
        .unwrap()
        .usage
        .is_none(),
        "the totals rode the chunk that carries the stop reason"
    );

    let usage = ingest(val(r#"{"type":"message_stop"}"#), &mut state)
        .expect("a caller who asked gets a chunk for the totals")
        .usage
        .unwrap();
    // 21 uncached + 8192 read + 1024 written, per the IR's rule that the
    // cached counts are a BREAKDOWN of the input, never addends to it.
    assert_eq!(usage.input_tokens, Some(9237));
    assert_eq!(usage.output_tokens, Some(16));
    assert_eq!(usage.total_tokens, Some(9253));
    assert_eq!(usage.cache_read_tokens, Some(8192));
    assert_eq!(usage.cache_write_tokens, Some(1024));
}
#[test]
fn a_restated_input_count_wins_over_the_remembered_one() {
    let (mut state, _) = started_asking();
    ingest(
        val(r#"{"type": "message_delta",
        "delta": {"stop_reason": "end_turn"},
        "usage": {"output_tokens": 16, "input_tokens": 30,
        "cache_read_input_tokens": 0,
        "cache_creation_input_tokens": 0}}"#),
        &mut state,
    )
    .unwrap();
    let end = ingest(val(r#"{"type":"message_stop"}"#), &mut state).unwrap();
    assert_eq!(end.usage.unwrap().input_tokens, Some(30));
}
#[test]
fn the_totals_stay_off_the_stream_when_nobody_asked() {
    let (mut state, _) = started();
    let end = ingest(
        val(r#"{"type":"message_delta","delta":{"stop_reason":"end_turn"},"usage":{"output_tokens":16}}"#),
        &mut state,
    )
    .unwrap();
    assert!(end.usage.is_none(), "unasked-for totals reached the caller");
    assert!(
        ingest(val(r#"{"type":"message_stop"}"#), &mut state).is_none(),
        "a chunk was invented for totals nobody asked for"
    );
}
#[test]
fn the_totals_ride_a_chunk_that_carries_nothing_else() {
    let (mut state, _) = started_asking();
    ingest(
        val(r#"{"type":"message_delta","delta":{"stop_reason":"end_turn"},"usage":{"output_tokens":16}}"#),
        &mut state,
    )
    .unwrap();
    let totals = ingest(val(r#"{"type":"message_stop"}"#), &mut state).unwrap();
    assert!(totals.completions.is_empty());
    assert!(totals.usage.is_some());
    assert_eq!(totals.id, "msg_1");
    assert_eq!(totals.model, "opus-5");
    // Taken, not copied: a stream reports its totals once however many
    // times the event that carries them arrives.
    assert!(ingest(val(r#"{"type":"message_stop"}"#), &mut state).is_none());
}
#[test]
fn a_message_delta_replays_its_usage_even_when_nobody_asked() {
    let (mut state, _) = started();
    let end = ingest(
        val(r#"{"type": "message_delta", "delta": {"stop_reason": "end_turn"},
        "usage": {"output_tokens": 16, "input_tokens": 30}}"#),
        &mut state,
    )
    .unwrap();
    assert!(end.usage.is_none());
    let rendered = to_value(&render_event(&end, "anthropic").expect("a stop reason is an event"));
    assert_eq!(rendered["type"], "message_delta");
    assert_eq!(rendered["usage"]["output_tokens"], 16);
    assert_eq!(rendered["usage"]["input_tokens"], 30);
}
#[test]
fn the_chunk_the_totals_ride_is_not_an_event() {
    let (mut state, _) = started_asking();
    ingest(
        val(r#"{"type":"message_delta","delta":{"stop_reason":"end_turn"},"usage":{"output_tokens":16}}"#),
        &mut state,
    )
    .unwrap();
    let totals = ingest(val(r#"{"type":"message_stop"}"#), &mut state).unwrap();
    assert!(render_event(&totals, "anthropic").is_none());
}
#[test]
fn the_stop_reason_uses_the_unstreamed_table() {
    let (mut state, _) = started();
    for (raw, expected) in [
        ("end_turn", FinishReason::Stop),
        ("max_tokens", FinishReason::Length),
        ("tool_use", FinishReason::ToolCalls),
        ("refusal", FinishReason::ContentFilter),
        ("pause_turn", FinishReason::Other),
    ] {
        let end = ingest(
            val(&format!(
                r#"{{"type":"message_delta","delta":{{"stop_reason":"{raw}"}},"usage":{{"output_tokens":1}}}}"#
            )),
            &mut state,
        )
        .unwrap();
        assert_eq!(end.completions[0].finish_reason, Some(expected), "{raw}");
        assert_eq!(end.completions[0].finish_reason_raw.as_deref(), Some(raw));
    }
}
#[test]
fn the_three_state_fields_on_a_message_delta_round_trip() {
    let states = [None, Some(val(r#"null"#)), Some(val(r#""STOP""#))];
    for reason in &states {
        for sequence in &states {
            let mut delta = serde_json::Map::new();
            if let Some(reason) = reason {
                delta.insert("stop_reason".into(), reason.clone());
            }
            if let Some(sequence) = sequence {
                delta.insert("stop_sequence".into(), sequence.clone());
            }
            let mut body = val(r#"{"type":"message_delta","usage":{"output_tokens":3}}"#);
            body["delta"] = Value::Object(delta);

            let mut state = StreamState::new(false);
            let chunk = ingest(body.clone(), &mut state).expect("carries content");
            assert_eq!(
                to_value(&render_event(&chunk, "anthropic").expect("renders back")),
                body,
                "reason={reason:?} sequence={sequence:?}"
            );
        }
    }
}
#[test]
fn an_unmodelled_event_rides_the_envelope_and_renders_back() {
    let (mut state, _) = started();
    let body = val(r#"{"type":"message_pause","reason":"handoff"}"#);
    let chunk = ingest(body.clone(), &mut state).unwrap();
    assert_eq!(chunk.id, "msg_1");
    assert_eq!(to_value(&render_event(&chunk, "anthropic").unwrap()), body);
}
#[test]
fn every_content_bearing_event_round_trips() {
    let (mut state, _) = started();
    for body in [
        val(r#"{"type":"content_block_start","index":0,"content_block":{"type":"text","text":""}}"#),
        val(r#"{"type": "content_block_start", "index": 1,
        "content_block": {"type": "tool_use", "id": "tu_1",
        "name": "weather", "input": {}}}"#),
        val(r#"{"type":"content_block_delta","index":0,"delta":{"type":"text_delta","text":"hi"}}"#),
        val(r#"{"type": "content_block_delta", "index": 1,
        "delta": {"type": "input_json_delta", "partial_json": "{\"a\":"}}"#),
        val(r#"{"type": "content_block_delta", "index": 0,
        "delta": {"type": "thinking_delta", "thinking": "step"}}"#),
        val(r#"{"type": "content_block_delta", "index": 0,
        "delta": {"type": "signature_delta", "signature": "sig"}}"#),
        val(r#"{"type": "content_block_delta", "index": 0,
        "delta": {"type": "citations_delta", "citation": {"x": 1}}}"#),
        val(r#"{"type": "message_delta",
        "delta": {"stop_reason": "end_turn", "stop_sequence": null},
        "usage": {"output_tokens": 16}}"#),
    ] {
        let chunk = ingest(body.clone(), &mut state).expect("carries content");
        assert_eq!(
            to_value(&render_event(&chunk, "anthropic").expect("renders back")),
            body,
            "round trip changed the event"
        );
    }
}
#[test]
fn message_start_round_trips_with_its_whole_envelope() {
    let body = val(r#"{
        "type": "message_start",
        "message": {
        "id": "msg_1", "type": "message", "role": "assistant",
        "model": "opus-5", "content": [],
        "stop_reason": null, "stop_sequence": null,
        "usage": {"input_tokens": 21, "output_tokens": 0},
        "vendor_tag": "vt"
        }
        }"#);
    let mut state = StreamState::new(false);
    let chunk = ingest(body.clone(), &mut state).unwrap();
    assert_eq!(to_value(&render_event(&chunk, "anthropic").unwrap()), body);
}
#[test]
fn another_protocols_residue_never_reaches_this_wire() {
    let (mut state, _) = started();
    let mut chunk = ingest(
        val(r#"{"type":"content_block_delta","index":0,"delta":{"type":"text_delta","text":"hi"}}"#),
        &mut state,
    )
    .unwrap();
    chunk.completions[0].delta.ext.put("openai_compat", js(&val(r#"{"delta":{"type":"text_delta","text":"SMUGGLED"},"index":99}"#)));
    let rendered = to_value(&render_event(&chunk, "openai_compat").unwrap());
    assert_eq!(rendered["delta"]["text"], val(r#""hi""#));
    assert_eq!(rendered["index"], val(r#"0"#));
}
fn foreign(
    content: Vec<ContentDelta>,
    usage: Option<Usage>,
) -> ChatResponseChunk {
    ChatResponseChunk {
        id: "chatcmpl-1".into(),
        model: "gpt-4o".into(),
        created: Some(1),
        completions: vec![CompletionDelta {
            delta: MessageDelta {
                role: None,
                content,
                ext: Fields::new(),
            },
            finish_reason: usage.as_ref().map(|_| FinishReason::Stop),
            finish_reason_raw: usage.as_ref().map(|_| "stop".to_string()),
            ext: Fields::new(),
        }],
        usage,
        ext: Fields::new(),
        source: None,
    }
}
#[test]
fn a_foreign_tool_call_opener_renders_as_a_block_start() {
    let rendered = to_value(
        &render_event(
            &foreign(
                vec![ContentDelta::ToolCall {
                    index: 0,
                    id: Some("call_abc".into()),
                    kind: Some("function".into()),
                    name: Some("get_weather".into()),
                    arguments: None,
                }],
                None,
            ),
            "openai",
        )
        .expect("an opener is not silence"),
    );
    assert_eq!(rendered["type"], val(r#""content_block_start""#));
    assert_eq!(rendered["content_block"]["type"], val(r#""tool_use""#));
    assert_eq!(rendered["content_block"]["id"], val(r#""call_abc""#));
    assert_eq!(rendered["content_block"]["name"], val(r#""get_weather""#));

    // ...and a fragment that names nothing is still a fragment.
    let fragment = to_value(
        &render_event(
            &foreign(
                vec![ContentDelta::ToolCall {
                    index: 0,
                    id: None,
                    kind: None,
                    name: None,
                    arguments: Some("{\"a\":".into()),
                }],
                None,
            ),
            "openai",
        )
        .unwrap(),
    );
    assert_eq!(fragment["delta"]["type"], val(r#""input_json_delta""#));
    assert_eq!(fragment["delta"]["partial_json"], val(r#""{\"a\":""#));
}
#[test]
fn a_foreign_chunks_usage_reaches_the_wire() {
    let rendered = to_value(
        &render_event(
            &foreign(
                Vec::new(),
                Some(Usage {
                    input_tokens: Some(9237),
                    output_tokens: Some(16),
                    total_tokens: Some(9253),
                    reasoning_tokens: None,
                    cache_read_tokens: Some(8192),
                    cache_write_tokens: Some(1024),
                    ext: Fields::new(),
                }),
            ),
            "openai",
        )
        .expect("a chunk with a stop reason is an event"),
    );
    assert_eq!(rendered["type"], val(r#""message_delta""#));
    assert_eq!(rendered["usage"]["output_tokens"], val(r#"16"#));
    // 9237 total minus the 9216 that were cached.
    assert_eq!(rendered["usage"]["input_tokens"], val(r#"21"#));
    assert_eq!(rendered["usage"]["cache_read_input_tokens"], val(r#"8192"#));
    assert_eq!(
        rendered["usage"]["cache_creation_input_tokens"],
        val(r#"1024"#)
    );
}
#[test]
fn a_foreign_chunk_renders_from_the_gateway_form() {
    let chunk = ChatResponseChunk {
        id: "chatcmpl-1".into(),
        model: "gpt-4o".into(),
        created: Some(1),
        completions: vec![CompletionDelta {
            delta: MessageDelta {
                role: None,
                content: vec![ContentDelta::Text {
                    text: "hello".into(),
                }],
                ext: Fields::new(),
            },
            finish_reason: None,
            finish_reason_raw: None,
            ext: Fields::new(),
        }],
        usage: None,
        ext: Fields::new(),
        source: None,
    };
    assert_eq!(
        to_value(&render_event(&chunk, "openai").unwrap()),
        val(r#"{"type":"content_block_delta","index":0,"delta":{"type":"text_delta","text":"hello"}}"#)
    );
}
