use serde_json::Value;
use warpllm::gateway::types::message::{
    CacheHint, ContentBlock, MediaSource, Message, ReasoningDetail, Role,
};
use warpllm::gateway::types::request::{
    ChatRequest, GenerationParams, ReasoningConfig, ResponseFormat, ToolChoice, ToolDef,
};
use warpllm::gateway::types::{IngestSource, RawJson};
use warpllm::json::{Fields, Json, Number};
use warpllm::types::Protocol;

fn js(text: &str) -> Json {
    Json::parse(text).unwrap()
}

fn val(json: &Json) -> Value {
    serde_json::from_str(&json.to_text()).unwrap()
}

fn number(text: &str) -> Number {
    match js(text) {
        Json::Number(n) => n,
        _ => panic!("{text} is no number"),
    }
}

fn ext(text: &str) -> Fields {
    match js(text) {
        Json::Object(fields) => fields,
        _ => panic!("{text} is no object"),
    }
}

fn said(role: Role, content: Vec<ContentBlock>) -> Message {
    Message {
        role,
        content,
        ext: Fields::new(),
    }
}

fn text(text: &str) -> ContentBlock {
    ContentBlock::Text {
        text: text.into(),
        cache: None,
    }
}

#[test]
fn chat_request_round_trips_and_skips_source() {
    let mut request = ChatRequest {
        model: "gpt-5.6".into(),
        messages: vec![said(Role::User, vec![text("hi")])],
        params: GenerationParams {
            temperature: Some(number("0.7")),
            stop: vec!["END".into()],
            ..Default::default()
        },
        stream: false,
        source: Some(IngestSource {
            protocol: Protocol::OpenAiCompat,
            body: js(r#"{"model":"openai/gpt-5.6"}"#),
        }),
        ..Default::default()
    };
    request.ext.put("openai_compat", js(r#"{"top_k":40}"#));

    let value = request.to_json();
    assert!(value.get("source").is_none(), "source must not serialize");
    assert_eq!(val(&value)["params"]["temperature"], 0.7);

    let back = ChatRequest::from_json(&value).unwrap();
    assert!(back.source.is_none());
    assert_eq!(back.to_json(), value);
    assert_eq!(val(&back.to_json()), val(&value));

    assert_eq!(
        value.to_text(),
        [
            r#"{"model":"gpt-5.6","messages":[{"role":"user","content":[{"type":"text","text":"hi"}]}],"#,
            r#""params":{"max_tokens":null,"temperature":0.7,"top_p":null,"top_k":null,"stop":["END"]},"#,
            r#""stream":false,"ext":{"openai_compat":{"top_k":40}}}"#,
        ]
        .concat()
    );
    request.source = None;
    assert_eq!(back, request);
}

fn full() -> ChatRequest {
    ChatRequest {
        model: "gpt-5.6".into(),
        messages: vec![
            said(Role::System, vec![text("be brief")]),
            Message {
                role: Role::User,
                content: vec![
                    ContentBlock::Text {
                        text: "see".into(),
                        cache: Some(CacheHint {
                            ttl: Some("1h".into()),
                        }),
                    },
                    ContentBlock::Image {
                        source: MediaSource::Url {
                            url: "https://x/y.png".into(),
                        },
                        detail: Some("low".into()),
                        cache: Some(CacheHint { ttl: None }),
                    },
                    ContentBlock::Audio {
                        source: MediaSource::Base64 {
                            media_type: "audio/wav".into(),
                            data: "AAAA".into(),
                        },
                        format: None,
                    },
                    ContentBlock::Document {
                        source: MediaSource::ProviderFile { id: "f1".into() },
                        title: Some("notes".into()),
                        cache: None,
                    },
                    ContentBlock::Unknown(js(r#"{"type":"hologram","depth":3}"#)),
                ],
                ext: ext(r#"{"openai_compat":{"name":"ada"}}"#),
            },
            said(
                Role::Assistant,
                vec![
                    ContentBlock::Reasoning {
                        detail: ReasoningDetail::Text {
                            text: "hm".into(),
                            signature: Some("sig".into()),
                        },
                        provenance: Some("anthropic".into()),
                        id: None,
                    },
                    ContentBlock::Reasoning {
                        detail: ReasoningDetail::Encrypted { data: "zz".into() },
                        provenance: None,
                        id: Some("r1".into()),
                    },
                    ContentBlock::Reasoning {
                        detail: ReasoningDetail::Summary {
                            summary: "short".into(),
                        },
                        provenance: None,
                        id: None,
                    },
                    ContentBlock::ToolCall {
                        id: "c1".into(),
                        name: "search".into(),
                        arguments: RawJson {
                            text: r#"{"q": 1}"#.into(),
                        },
                    },
                ],
            ),
            said(
                Role::Tool,
                vec![ContentBlock::ToolResult {
                    call_id: "c1".into(),
                    content: vec![text("found"), ContentBlock::Unknown(js("7"))],
                    is_error: true,
                }],
            ),
        ],
        tools: vec![ToolDef {
            name: "search".into(),
            description: Some("looks".into()),
            input_schema: Json::Null,
            strict: Some(true),
            cache: Some(CacheHint { ttl: None }),
            ext: ext(r#"{"a":{"b":1}}"#),
        }],
        tool_choice: Some(ToolChoice::Tool {
            name: "search".into(),
        }),
        parallel_tool_calls: Some(false),
        params: GenerationParams {
            max_tokens: Some(64),
            temperature: Some(number("1")),
            top_p: Some(number("0.5")),
            top_k: Some(40),
            stop: vec![],
        },
        response_format: Some(ResponseFormat::JsonSchema {
            name: "answer".into(),
            schema: js(r#"{"type":"object"}"#),
            strict: None,
        }),
        reasoning: Some(ReasoningConfig {
            enabled: Some(true),
            effort: Some("high".into()),
            budget_tokens: Some(2048),
            exclude: Some(false),
        }),
        cache: Some(CacheHint {
            ttl: Some("5m".into()),
        }),
        stream: true,
        stream_include_usage: Some(true),
        ext: ext(r#"{"openai_compat":{"seed":1}}"#),
        source: None,
    }
}

#[test]
fn every_part_of_a_request_reads_back() {
    let value = full().to_json();
    assert_eq!(ChatRequest::from_json(&value), Some(full()));
    let again = js(&value.to_text());
    assert_eq!(ChatRequest::from_json(&again), Some(full()));
}

#[test]
fn every_choice_and_form_of_reply_reads_back() {
    let choices = [
        (ToolChoice::Auto, r#"{"mode":"auto"}"#),
        (ToolChoice::Never, r#"{"mode":"none"}"#),
        (ToolChoice::Required, r#"{"mode":"required"}"#),
        (
            ToolChoice::Tool { name: "f".into() },
            r#"{"mode":"tool","name":"f"}"#,
        ),
    ];
    for (choice, form) in choices {
        let request = ChatRequest {
            tool_choice: Some(choice),
            ..Default::default()
        };
        let value = request.to_json();
        assert_eq!(value.get("tool_choice").unwrap().to_text(), form);
        assert_eq!(ChatRequest::from_json(&value), Some(request));
    }
    let formats = [
        (ResponseFormat::Text, r#"{"type":"text"}"#),
        (ResponseFormat::JsonObject, r#"{"type":"json_object"}"#),
        (
            ResponseFormat::JsonSchema {
                name: "n".into(),
                schema: Json::Bool(true),
                strict: Some(false),
            },
            r#"{"type":"json_schema","name":"n","schema":true,"strict":false}"#,
        ),
    ];
    for (format, form) in formats {
        let request = ChatRequest {
            response_format: Some(format),
            ..Default::default()
        };
        let value = request.to_json();
        assert_eq!(value.get("response_format").unwrap().to_text(), form);
        assert_eq!(ChatRequest::from_json(&value), Some(request));
    }
}

#[test]
fn what_is_not_said_takes_its_default() {
    let request = ChatRequest::from_json(&js(r#"{"model":"m","messages":[]}"#)).unwrap();
    assert_eq!(
        request,
        ChatRequest {
            model: "m".into(),
            ..Default::default()
        }
    );
    let request = ChatRequest::from_json(&js(
        r#"{"model":"m","messages":[],"params":{},"tool_choice":null,"source":{"protocol":"x"}}"#,
    ))
    .unwrap();
    assert_eq!(request.params, GenerationParams::default());
    assert_eq!(request.tool_choice, None);
    assert!(request.source.is_none());
}

#[test]
fn what_is_no_request_is_refused() {
    let refused = [
        "[]",
        r#"{"messages":[]}"#,
        r#"{"model":"m"}"#,
        r#"{"model":1,"messages":[]}"#,
        r#"{"model":"m","messages":[{"role":"narrator","content":[]}]}"#,
        r#"{"model":"m","messages":[{"role":"user","content":"hi"}]}"#,
        r#"{"model":"m","messages":[],"tools":null}"#,
        r#"{"model":"m","messages":[],"tools":[{"name":"f"}]}"#,
        r#"{"model":"m","messages":[],"tool_choice":{"mode":"tool"}}"#,
        r#"{"model":"m","messages":[],"params":null}"#,
        r#"{"model":"m","messages":[],"params":{"max_tokens":-1}}"#,
        r#"{"model":"m","messages":[],"params":{"max_tokens":4294967296}}"#,
        r#"{"model":"m","messages":[],"params":{"stop":["a",1]}}"#,
        r#"{"model":"m","messages":[],"params":{"temperature":"hot"}}"#,
        r#"{"model":"m","messages":[],"response_format":{"type":"json_schema","name":"n"}}"#,
        r#"{"model":"m","messages":[],"reasoning":{"enabled":1}}"#,
        r#"{"model":"m","messages":[],"cache":"yes"}"#,
        r#"{"model":"m","messages":[],"stream":null}"#,
    ];
    for text in refused {
        assert_eq!(ChatRequest::from_json(&js(text)), None, "{text}");
    }
}

#[test]
fn a_block_that_no_variant_knows_is_kept_whole() {
    let kept = [
        "7",
        r#"{"type":"hologram"}"#,
        r#"{"type":"text"}"#,
        r#"{"type":"image","source":{"type":"url"}}"#,
        r#"{"type":"tool_result","call_id":"c","content":"hi","is_error":false}"#,
        r#"{"type":"reasoning","detail":{"type":"other"}}"#,
    ];
    for text in kept {
        let block = ContentBlock::from_json(&js(text));
        assert_eq!(block, ContentBlock::Unknown(js(text)), "{text}");
        assert_eq!(block.to_json().to_text(), text);
    }
}
