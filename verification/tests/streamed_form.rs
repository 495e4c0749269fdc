use serde_json::Value;
use warpllm::gateway::types::message::Role;
use warpllm::gateway::types::response::{FinishReason, Usage};
use warpllm::gateway::types::stream::{
    ChatResponseChunk, CompletionDelta, ContentDelta, MessageDelta,
};
use warpllm::gateway::types::IngestSource;
use warpllm::json::{Fields, Json};
use warpllm::types::Protocol;

fn val(text: &str) -> Value {
    serde_json::from_str(text).unwrap()
}

fn js(value: &Value) -> Json {
    Json::parse(&value.to_string()).unwrap()
}

fn to_value(json: &Json) -> Value {
    val(&json.to_text())
}

fn round_trip(delta: &ContentDelta) -> Value {
    let value = delta.to_json();
    let back = ContentDelta::from_json(&value);
    assert_eq!(back.to_json(), value);
    to_value(&value)
}

#[test]
fn every_delta_variant_round_trips() {
    let deltas = [
        ContentDelta::Text {
            text: "Hello".into(),
        },
        ContentDelta::Reasoning {
            text: "step by step".into(),
            provenance: Some("openai_compat".into()),
        },
        ContentDelta::ToolCall {
            index: 0,
            id: Some("call-1".into()),
            kind: Some("function".into()),
            name: Some("search".into()),
            arguments: Some(String::new()),
        },
        ContentDelta::ToolCall {
            index: 0,
            id: None,
            kind: None,
            name: None,
            arguments: Some(r#"{"city":"#.into()),
        },
    ];
    for delta in &deltas {
        round_trip(delta);
    }
}
#[test]
fn an_empty_text_delta_is_not_an_absent_one() {
    let value = round_trip(&ContentDelta::Text {
        text: String::new(),
    });
    assert_eq!(value, val(r#"{"type":"text","text":""}"#));

    let empty = MessageDelta::default();
    assert!(empty.content.is_empty());
    assert_eq!(to_value(&empty.to_json()), val(r#"{}"#));
}
#[test]
fn a_tool_call_fragment_keeps_its_index_and_omits_what_it_lacks() {
    let opener = round_trip(&ContentDelta::ToolCall {
        index: 2,
        id: Some("call_0_5f3a91c2".into()),
        kind: Some("function".into()),
        name: Some("get_weather".into()),
        arguments: Some(String::new()),
    });
    assert_eq!(opener["index"], 2);
    assert_eq!(opener["id"], "call_0_5f3a91c2");
    assert_eq!(opener["arguments"], "");

    let continuation = round_trip(&ContentDelta::ToolCall {
        index: 2,
        id: None,
        kind: None,
        name: None,
        arguments: Some(r#""Seoul"}"#.into()),
    });
    assert!(continuation.get("id").is_none(), "{continuation}");
    assert!(continuation.get("kind").is_none(), "{continuation}");
    assert!(continuation.get("name").is_none(), "{continuation}");
    assert_eq!(continuation["arguments"], r#""Seoul"}"#);
}

#[test]
fn an_unrecognized_delta_becomes_unknown_verbatim() {
    let value = val(r#"{"type":"hologram","payload":{"z":1,"a":2}}"#);
    let delta = ContentDelta::from_json(&js(&value));
    assert!(matches!(&delta, ContentDelta::Unknown(v) if to_value(v) == value));
    assert_eq!(to_value(&delta.to_json()), value);
}

#[test]
fn chunk_round_trips_and_skips_source() {
    let mut chunk = ChatResponseChunk {
        id: "chatcmpl-123".into(),
        model: "gpt-5.6".into(),
        created: Some(1_700_000_000),
        completions: vec![CompletionDelta {
            delta: MessageDelta {
                role: Some(Role::Assistant),
                content: vec![ContentDelta::Text {
                    text: "Hello".into(),
                }],
                ext: Fields::new(),
            },
            finish_reason: Some(FinishReason::Stop),
            finish_reason_raw: Some("stop".into()),
            ext: Fields::new(),
        }],
        usage: None,
        ext: Fields::new(),
        source: Some(IngestSource {
            protocol: Protocol::OpenAiCompat,
            body: js(&val(r#"{"id":"chatcmpl-123"}"#)),
        }),
    };
    chunk
        .ext
        .put("openai_compat", js(&val(r#"{"obfuscation":"KtQ3nZ8w"}"#)));

    let value = chunk.to_json();
    assert!(value.get("source").is_none(), "source must not serialize");

    let back = ChatResponseChunk::from_json(&value).unwrap();
    assert!(back.source.is_none());
    assert_eq!(back.to_json(), value);
    chunk.source = None;
    assert_eq!(back, chunk);
}
#[test]
fn a_usage_only_chunk_carries_no_completions() {
    let chunk = ChatResponseChunk {
        id: "chatcmpl-123".into(),
        model: "gpt-5.6".into(),
        created: Some(1_700_000_000),
        completions: Vec::new(),
        usage: Some(Usage {
            input_tokens: Some(11),
            output_tokens: Some(3),
            total_tokens: Some(14),
            ..Default::default()
        }),
        ext: Fields::new(),
        source: None,
    };
    let value = to_value(&chunk.to_json());
    assert!(value.get("completions").is_none(), "{value}");
    assert_eq!(value["usage"]["total_tokens"], 14);
}
#[test]
fn an_unfinished_completion_omits_both_finish_fields() {
    let unfinished = CompletionDelta {
        delta: MessageDelta::default(),
        finish_reason: None,
        finish_reason_raw: None,
        ext: Fields::new(),
    };
    assert_eq!(
        to_value(&unfinished.to_json()),
        val(r#"{"delta":{}}"#)
    );
}

#[test]
fn a_value_of_the_wrong_form_is_no_chunk() {
    for body in [
        "[]",
        r#"{"id":"c"}"#,
        r#"{"id":"c","model":"m","created":-1}"#,
        r#"{"id":"c","model":"m","completions":{}}"#,
        r#"{"id":"c","model":"m","completions":[{}]}"#,
        r#"{"id":"c","model":"m","completions":[{"delta":{"role":"narrator"}}]}"#,
        r#"{"id":"c","model":"m","completions":[{"delta":{},"finish_reason":"bored"}]}"#,
        r#"{"id":"c","model":"m","usage":{"input_tokens":"1"}}"#,
        r#"{"id":"c","model":"m","ext":null}"#,
    ] {
        assert!(ChatResponseChunk::from_json(&js(&val(body))).is_none(), "{body}");
    }
    assert!(ChatResponseChunk::from_json(&js(&val(r#"{"id":"c","model":"m"}"#))).is_some());
}

#[test]
fn a_fragment_of_the_wrong_form_is_kept_whole() {
    for body in [
        r#"{"type":"text"}"#,
        r#"{"type":"reasoning","text":"t","provenance":1}"#,
        r#"{"type":"tool_call","index":4294967296}"#,
        r#"{"text":"t"}"#,
        "7",
    ] {
        let value = js(&val(body));
        let delta = ContentDelta::from_json(&value);
        assert!(matches!(&delta, ContentDelta::Unknown(_)), "{body}");
        assert_eq!(delta.to_json(), value);
    }
}
