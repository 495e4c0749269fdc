use serde_json::Value;

use warpllm::error::Error;
use warpllm::gateway::openai_compat::wire::is_request;
use warpllm::gateway::types::message::{CacheHint, ContentBlock, MediaSource, Message, Role};
use warpllm::gateway::types::request::{
    ChatRequest, ReasoningConfig, ResponseFormat, ToolChoice, ToolDef,
};
use warpllm::gateway::types::RawJson;
use warpllm::json::{Fields, Json, Number};
use warpllm::types::Protocol;

fn val(text: &str) -> Value {
    serde_json::from_str(text).unwrap()
}

fn js(value: &Value) -> Json {
    Json::parse(&value.to_string()).unwrap()
}

fn to_value(json: &Json) -> Value {
    val(&json.to_text())
}

fn ext(fields: &Fields) -> Value {
    to_value(&Json::Object(fields.clone()))
}

/// A document that is a request.
fn wire(value: Value) -> Value {
    assert!(is_request(&js(&value)), "{value}");
    value
}

fn ingest_request(request: Value, model: &str) -> ChatRequest {
    warpllm::gateway::openai_compat::request::ingest_request(&js(&request), model)
}

fn render_request(request: &ChatRequest, provider: &str) -> Result<Value, Error> {
    warpllm::gateway::openai_compat::request::render_request(request, provider)
        .map(|json| to_value(&json))
}

fn full_wire_request() -> Value {
    val(r#"{
        "model": "openai/gpt-5.6",
        "messages": [
            {"role": "developer", "content": "be brief"},
            {"role": "user", "content": "hi", "name": "alice", "vendor_tag": "vt"}
        ],
        "temperature": 0.7,
        "max_tokens": 256,
        "top_p": 0.9,
        "stop": ["END", "STOP"],
        "stream": false,
        "top_k": 40,
        "seed": 1234,
        "vendor_beta": true
    }"#)
}

#[test]
fn openai_compat_round_trip_is_lossless() {
    let original = full_wire_request();
    let normalized = ingest_request(original.clone(), "gpt-5.6");
    let wire = render_request(&normalized, "openai").unwrap();

    assert_eq!(wire["model"], "gpt-5.6");
    assert_eq!(wire["messages"].as_array().unwrap().len(), 2);
    // The unrecognized "developer" role survives verbatim.
    assert_eq!(wire["messages"][0], val(r#"{"role":"developer","content":"be brief"}"#));
    assert_eq!(wire["messages"][1]["role"], "user");
    // Message-level passthrough fields ride ext and come back verbatim.
    assert_eq!(wire["messages"][1]["name"], val(r#""alice""#));
    assert_eq!(wire["messages"][1]["vendor_tag"], val(r#""vt""#));
    assert_eq!(wire["temperature"], 0.7);
    assert_eq!(wire["max_tokens"], 256);
    assert_eq!(wire["top_p"], 0.9);
    assert_eq!(wire["stop"], val(r#"["END","STOP"]"#));
    assert!(wire.get("stream").is_none());
    // Request-level passthrough fields ride ext and come back verbatim.
    assert_eq!(wire["top_k"], val(r#"40"#));
    assert_eq!(wire["seed"], val(r#"1234"#));
    assert_eq!(wire["vendor_beta"], val(r#"true"#));

    // Whole-value check so a future typed field can't slip past the
    // per-field assertions above.
    let mut expected = serde_json::to_value(&original).unwrap();
    expected["model"] = val(r#""gpt-5.6""#);
    expected.as_object_mut().unwrap().remove("stream");
    assert_eq!(serde_json::to_value(&wire).unwrap(), expected);
}
#[test]
fn a_tool_calling_request_round_trips_byte_for_byte() {
    let original = wire(val(r#"{
        "model": "openai/gpt-5.6",
        "messages": [
        {"role": "user", "content": [
        {"type": "text", "text": "what is the weather"},
        {"type": "image_url", "image_url": {"url": "https://example.com/a.png", "detail": "high"}},
        {"type": "input_audio", "input_audio": {"data": "aGk=", "format": "wav"}}
        ]},
        {"role": "assistant", "content": null, "tool_calls": [
        {"id": "call_1", "type": "function",
        "function": {"name": "get_weather", "arguments": "{\"city\": \"Seoul\"}"},
        "vendor_call_field": 1}
        ]},
        {"role": "tool", "tool_call_id": "call_1", "content": "18C"}
        ],
        "tools": [{
        "type": "function",
        "function": {
        "name": "get_weather",
        "description": "Look up the weather",
        "parameters": {"type": "object", "properties": {"city": {"type": "string"}}},
        "strict": true,
        "vendor_function_field": "x"
        }
        }],
        "tool_choice": {"type": "function", "function": {"name": "get_weather"}},
        "response_format": {"type": "json_schema", "json_schema": {
        "name": "weather", "schema": {"type": "object"}, "strict": true
        }},
        "stream_options": {"include_usage": true},
        "reasoning_effort": "high"
        }"#));

    let normalized = ingest_request(original.clone(), "gpt-5.6");
    let rendered = render_request(&normalized, "openai").unwrap();

    let mut expected = serde_json::to_value(&original).unwrap();
    expected["model"] = val(r#""gpt-5.6""#);
    // Nothing else is permitted to differ — including the `content: null`
    // on the tool-calling assistant turn, and the `strict` nested inside
    // the tool, both of which are explicit values rather than absences.
    assert_eq!(serde_json::to_value(&rendered).unwrap(), expected);
}
#[test]
fn ingest_promotes_tools_and_content_into_the_gateway_form() {
    let normalized = ingest_request(
        wire(val(r#"{
        "model": "openai/gpt-5.6",
        "messages": [
        {"role": "user", "content": [
        {"type": "text", "text": "what is the weather"},
        {"type": "image_url", "image_url": {"url": "data:image/png;base64,AAAA"}}
        ]},
        {"role": "assistant", "content": null, "tool_calls": [
        {"id": "call_1", "type": "function",
        "function": {"name": "get_weather", "arguments": "{\"city\":\"Seoul\"}"}}
        ]},
        {"role": "tool", "tool_call_id": "call_1", "content": "18C"}
        ],
        "tools": [{"type": "function", "function": {
        "name": "get_weather", "parameters": {"type": "object"}, "strict": true
        }}],
        "tool_choice": "required",
        "response_format": {"type": "json_object"},
        "stream_options": {"include_usage": true},
        "reasoning_effort": "high"
        }"#)),
        "gpt-5.6",
    );

    assert_eq!(normalized.tools.len(), 1);
    assert_eq!(normalized.tools[0].name, "get_weather");
    assert_eq!(to_value(&normalized.tools[0].input_schema), val(r#"{"type":"object"}"#));
    assert_eq!(normalized.tools[0].strict, Some(true));
    assert!(matches!(
        normalized.tool_choice,
        Some(ToolChoice::Required)
    ));
    assert!(matches!(
        normalized.response_format,
        Some(ResponseFormat::JsonObject)
    ));
    assert_eq!(normalized.stream_include_usage, Some(true));
    assert_eq!(
        normalized.reasoning.as_ref().unwrap().effort.as_deref(),
        Some("high")
    );

    // A parts list becomes real blocks, and a `data:` URL is split so a
    // protocol that wants the media type apart does not re-parse it.
    match &normalized.messages[0].content[..] {
        [
            ContentBlock::Text { text, .. },
            ContentBlock::Image { source, .. },
        ] => {
            assert_eq!(text, "what is the weather");
            assert!(matches!(
                source,
                MediaSource::Base64 { media_type, data }
                    if media_type == "image/png" && data == "AAAA"
            ));
        }
        other => panic!("expected a text and an image block, got {other:?}"),
    }

    // The assistant's call, and the tool message answering it, both land
    // as blocks carrying the id that correlates them.
    match &normalized.messages[1].content[..] {
        [
            ContentBlock::ToolCall {
                id,
                name,
                arguments,
            },
        ] => {
            assert_eq!(id, "call_1");
            assert_eq!(name, "get_weather");
            assert_eq!(arguments.as_str(), r#"{"city":"Seoul"}"#);
        }
        other => panic!("expected one tool call, got {other:?}"),
    }
    assert_eq!(normalized.messages[2].role, Role::Tool);
    match &normalized.messages[2].content[..] {
        [
            ContentBlock::ToolResult {
                call_id,
                content,
                is_error,
            },
        ] => {
            assert_eq!(call_id, "call_1");
            assert!(!is_error);
            assert!(
                matches!(&content[..], [ContentBlock::Text { text, .. }] if text == "18C"),
                "{content:?}"
            );
        }
        other => panic!("expected one tool result, got {other:?}"),
    }
}
#[test]
fn a_request_with_no_residue_renders_from_the_gateway_form() {
    let request = ChatRequest {
        model: "gpt-5.6".into(),
        messages: vec![
            Message {
                role: Role::User,
                content: vec![
                    ContentBlock::Text {
                        text: "what is the weather".into(),
                        cache: None,
                    },
                    ContentBlock::Image {
                        source: MediaSource::Base64 {
                            media_type: "image/png".into(),
                            data: "AAAA".into(),
                        },
                        detail: Some("high".into()),
                        cache: None,
                    },
                ],
                ext: Fields::new(),
            },
            Message {
                role: Role::Assistant,
                content: vec![ContentBlock::ToolCall {
                    id: "toolu_01".into(),
                    name: "get_weather".into(),
                    arguments: RawJson::new(r#"{"city":"Seoul"}"#),
                }],
                ext: Fields::new(),
            },
            Message {
                role: Role::Tool,
                content: vec![ContentBlock::ToolResult {
                    call_id: "toolu_01".into(),
                    content: vec![ContentBlock::Text {
                        text: "18C".into(),
                        cache: None,
                    }],
                    is_error: false,
                }],
                ext: Fields::new(),
            },
        ],
        tools: vec![ToolDef {
            name: "get_weather".into(),
            description: Some("Look up the weather".into()),
            input_schema: js(&val(r#"{"type":"object"}"#)),
            strict: None,
            cache: None,
            ext: Fields::new(),
        }],
        tool_choice: Some(ToolChoice::Tool {
            name: "get_weather".into(),
        }),
        stream_include_usage: Some(true),
        ..Default::default()
    };

    assert_eq!(
        render_request(&request, "openai").unwrap(),
        val(r#"{
        "model": "gpt-5.6",
        "messages": [
        {"role": "user", "content": [
        {"type": "text", "text": "what is the weather"},
        {"type": "image_url",
        "image_url": {"url": "data:image/png;base64,AAAA", "detail": "high"}}
        ]},
        {"role": "assistant", "tool_calls": [
        {"id": "toolu_01", "type": "function",
        "function": {"arguments": "{\"city\":\"Seoul\"}", "name": "get_weather"}}
        ]},
        {"role": "tool", "content": "18C", "tool_call_id": "toolu_01"}
        ],
        "stream_options": {"include_usage": true},
        "tools": [{"type": "function", "function": {
        "name": "get_weather",
        "description": "Look up the weather",
        "parameters": {"type": "object"}
        }}],
        "tool_choice": {"type": "function", "function": {"name": "get_weather"}}
        }"#)
    );
}
#[test]
fn a_tool_with_no_schema_is_refused_cross_protocol() {
    let request = ChatRequest {
        model: "gpt-5.6".into(),
        tools: vec![ToolDef {
            name: "web_search".into(),
            description: None,
            input_schema: Json::Null,
            strict: None,
            cache: None,
            ext: Fields::new(),
        }],
        ..Default::default()
    };
    let err = render_request(&request, "openai").unwrap_err();
    assert!(matches!(err, Error::NotImplemented(_)), "{err:?}");

    // ...but the same tool arriving ON this protocol still reaches the
    // provider, because the residue renders it without this path.
    let same_protocol = ingest_request(
        wire(val(r#"{"model":"openai/gpt-5.6","messages":[],"tools":[{"type":"web_search"}]}"#)),
        "gpt-5.6",
    );
    assert_eq!(
        render_request(&same_protocol, "openai").unwrap()["tools"],
        val(r#"[{"type":"web_search"}]"#)
    );
}

#[test]
fn ingest_maps_typed_params_and_strips_prefix() {
    let normalized = ingest_request(full_wire_request(), "gpt-5.6");
    assert_eq!(normalized.model, "gpt-5.6");
    assert_eq!(normalized.params.temperature, Some(Number::Decimal("0.7".into())));
    assert_eq!(normalized.params.max_tokens, Some(256));
    assert_eq!(normalized.params.top_p, Some(Number::Decimal("0.9".into())));
    assert_eq!(normalized.params.stop, vec!["END", "STOP"]);
    assert!(!normalized.stream);
}

#[test]
fn ingest_keeps_passthrough_fields_in_the_protocol_namespace() {
    let normalized = ingest_request(full_wire_request(), "gpt-5.6");
    // Every field without a typed wire home rides ext verbatim.
    assert_eq!(ext(&normalized.ext)["openai_compat"]["top_k"], val(r#"40"#));
    assert_eq!(ext(&normalized.ext)["openai_compat"]["seed"], val(r#"1234"#));
    assert_eq!(ext(&normalized.ext)["openai_compat"]["vendor_beta"], val(r#"true"#));
    assert_eq!(
        ext(&normalized.messages[1].ext)["openai_compat"]["name"],
        val(r#""alice""#)
    );
    assert_eq!(
        ext(&normalized.messages[1].ext)["openai_compat"]["vendor_tag"],
        val(r#""vt""#)
    );
    // The unrecognized role is stashed for exact restoration.
    assert_eq!(
        ext(&normalized.messages[0].ext)["openai_compat"]["role"],
        val(r#""developer""#)
    );
}

#[test]
fn request_ingest_populates_source() {
    let original = full_wire_request();
    let normalized = ingest_request(original.clone(), "gpt-5.6");
    let source = normalized.source.as_ref().unwrap();
    assert_eq!(source.protocol, Protocol::OpenAiCompat);
    assert_eq!(to_value(&source.body), original);
}

#[test]
fn render_merges_provider_ext_namespace_over_source_protocol() {
    let mut normalized = ingest_request(full_wire_request(), "deepseek-v4-flash");
    normalized.ext.put(
        "deepseek",
        js(&val(r#"{"vendor_beta":"ds-version","ds_only":true}"#)),
    );

    let for_deepseek = render_request(&normalized, "deepseek").unwrap();
    // The provider namespace overlays the protocol namespace...
    assert_eq!(
        for_deepseek["vendor_beta"],
        val(r#""ds-version""#)
    );
    assert_eq!(for_deepseek["ds_only"], val(r#"true"#));

    // ...and rendering for openai ignores it entirely.
    let for_openai = render_request(&normalized, "openai").unwrap();
    assert_eq!(for_openai["vendor_beta"], val(r#"true"#));
    assert!(for_openai.get("ds_only").is_none());
}
#[test]
fn render_forwards_params_regardless_of_provider() {
    let normalized = ingest_request(full_wire_request(), "deepseek-v4-flash");
    let wire = render_request(&normalized, "deepseek").unwrap();
    // DeepSeek documents neither seed nor top_k; both still render.
    assert_eq!(wire["seed"], val(r#"1234"#));
    assert_eq!(wire["top_k"], val(r#"40"#));
}

#[test]
fn empty_stop_is_omitted_and_stream_never_rendered() {
    let mut wire_request = full_wire_request();
    wire_request.as_object_mut().unwrap().remove("stop");
    wire_request["stream"] = val("false");
    let normalized = ingest_request(wire_request, "gpt-5.6");
    let wire = render_request(&normalized, "openai").unwrap();
    assert!(wire.get("stop").is_none());
    assert!(wire.get("stream").is_none());
}
#[test]
fn a_files_bytes_are_raw_base64_in_both_directions() {
    let normalized = ingest_request(
        wire(val(r#"{
        "model": "openai/gpt-5.6",
        "messages": [{"role": "user", "content": [
        {"type": "file", "file": {"file_data": "aGk=", "filename": "a.pdf"}},
        {"type": "file", "file": {"file_id": "file-1"}},
        {"type": "image_url", "image_url": {"url": "data:image/png;base64,AAAA"}}
        ]}]
        }"#)),
        "gpt-5.6",
    );
    match &normalized.messages[0].content[..] {
        [
            ContentBlock::Document {
                source: bytes,
                title,
                ..
            },
            ContentBlock::Document {
                source: uploaded, ..
            },
            ContentBlock::Image { source: image, .. },
        ] => {
            assert!(
                matches!(bytes, MediaSource::Base64 { media_type, data }
                    if media_type.is_empty() && data == "aGk="),
                "{bytes:?}"
            );
            assert_eq!(title.as_deref(), Some("a.pdf"));
            assert!(matches!(uploaded, MediaSource::ProviderFile { id } if id == "file-1"));
            assert!(
                matches!(image, MediaSource::Base64 { media_type, data }
                    if media_type == "image/png" && data == "AAAA"),
                "{image:?}"
            );
        }
        other => panic!("expected two documents and an image, got {other:?}"),
    }

    // ...and back out, from a request with no residue to restore from.
    let cross_protocol = ChatRequest {
        model: "gpt-5.6".into(),
        messages: vec![Message {
            role: Role::User,
            content: vec![ContentBlock::Document {
                source: MediaSource::Base64 {
                    media_type: "application/pdf".into(),
                    data: "aGk=".into(),
                },
                title: Some("a.pdf".into()),
                cache: None,
            }],
            ext: Fields::new(),
        }],
        ..Default::default()
    };
    assert_eq!(
        render_request(&cross_protocol, "openai").unwrap()["messages"],
        val(r#"[{"role": "user", "content": [
        {"type": "file", "file": {"file_data": "aGk=", "filename": "a.pdf"}}
        ]}]"#)
    );
}
#[test]
fn a_grouped_turn_splits_into_one_message_per_tool_result() {
    let result = |call_id: &str, text: &str| ContentBlock::ToolResult {
        call_id: call_id.into(),
        content: vec![ContentBlock::Text {
            text: text.into(),
            cache: None,
        }],
        is_error: false,
    };
    let request = ChatRequest {
        model: "gpt-5.6".into(),
        messages: vec![
            Message {
                role: Role::Assistant,
                content: vec![
                    ContentBlock::ToolCall {
                        id: "toolu_01".into(),
                        name: "weather".into(),
                        arguments: RawJson::new(r#"{"city":"Seoul"}"#),
                    },
                    ContentBlock::ToolCall {
                        id: "toolu_02".into(),
                        name: "weather".into(),
                        arguments: RawJson::new(r#"{"city":"Tokyo"}"#),
                    },
                ],
                ext: Fields::new(),
            },
            // The merged turn: two results, one message.
            Message {
                role: Role::Tool,
                content: vec![result("toolu_01", "18C"), result("toolu_02", "24C")],
                ext: Fields::new(),
            },
        ],
        ..Default::default()
    };

    let rendered = render_request(&request, "openai").unwrap();
    assert_eq!(
        rendered["messages"],
        val(r#"[
        {"role": "assistant", "tool_calls": [
        {"id": "toolu_01", "type": "function",
        "function": {"arguments": "{\"city\":\"Seoul\"}", "name": "weather"}},
        {"id": "toolu_02", "type": "function",
        "function": {"arguments": "{\"city\":\"Tokyo\"}", "name": "weather"}}
        ]},
        {"role": "tool", "content": "18C", "tool_call_id": "toolu_01"},
        {"role": "tool", "content": "24C", "tool_call_id": "toolu_02"}
        ]"#),
        "every call the assistant made must have an answer"
    );

    // Two gateway messages became three wire ones, which is the point.
    assert_eq!(rendered["messages"].as_array().unwrap().len(), 3);
}
#[test]
fn a_failed_tool_result_is_refused_rather_than_flattened() {
    let answered = |is_error| ChatRequest {
        model: "gpt-5.6".into(),
        messages: vec![Message {
            role: Role::Tool,
            content: vec![ContentBlock::ToolResult {
                call_id: "toolu_01".into(),
                content: vec![ContentBlock::Text {
                    text: "the city was not found".into(),
                    cache: None,
                }],
                is_error,
            }],
            ext: Fields::new(),
        }],
        ..Default::default()
    };

    let err = render_request(&answered(true), "openai").unwrap_err();
    assert!(matches!(err, Error::NotImplemented(_)), "{err:?}");
    assert!(err.message().contains("failed tool result"), "{err:?}");

    // The same text, not marked as a failure, is an ordinary result.
    assert_eq!(
        render_request(&answered(false), "openai").unwrap()["messages"],
        val(r#"[{"role":"tool","content":"the city was not found","tool_call_id":"toolu_01"}]"#)
    );
}
#[test]
fn a_cache_hint_is_refused_rather_than_dropped() {
    let hint = || {
        Some(CacheHint {
            ttl: Some("5m".into()),
        })
    };
    let text = |cache| Message {
        role: Role::User,
        content: vec![ContentBlock::Text {
            text: "hi".into(),
            cache,
        }],
        ext: Fields::new(),
    };
    let tool = |cache| ToolDef {
        name: "f".into(),
        description: None,
        input_schema: js(&val(r#"{"type":"object"}"#)),
        strict: None,
        cache,
        ext: Fields::new(),
    };

    for request in [
        // On the request...
        ChatRequest {
            cache: hint(),
            ..Default::default()
        },
        // ...on a block...
        ChatRequest {
            messages: vec![text(hint())],
            ..Default::default()
        },
        // ...on a block nested inside a tool result...
        ChatRequest {
            messages: vec![Message {
                role: Role::Tool,
                content: vec![ContentBlock::ToolResult {
                    call_id: "c".into(),
                    content: vec![ContentBlock::Text {
                        text: "18C".into(),
                        cache: hint(),
                    }],
                    is_error: false,
                }],
                ext: Fields::new(),
            }],
            ..Default::default()
        },
        // ...and on a tool.
        ChatRequest {
            tools: vec![tool(hint())],
            ..Default::default()
        },
    ] {
        let err = render_request(&request, "openai").unwrap_err();
        assert!(matches!(err, Error::NotImplemented(_)), "{err:?}");
        assert!(err.message().contains("cache"), "{err:?}");
    }

    // The same shapes without hints still render, so the check is not one
    // that refuses everything.
    render_request(
        &ChatRequest {
            messages: vec![text(None)],
            tools: vec![tool(None)],
            ..Default::default()
        },
        "openai",
    )
    .unwrap();
}
#[test]
fn an_unrenderable_reasoning_field_is_refused() {
    let with = |reasoning| ChatRequest {
        reasoning: Some(reasoning),
        ..Default::default()
    };
    for reasoning in [
        ReasoningConfig {
            budget_tokens: Some(4096),
            ..Default::default()
        },
        ReasoningConfig {
            exclude: Some(true),
            ..Default::default()
        },
        ReasoningConfig {
            enabled: Some(true),
            ..Default::default()
        },
        // Even alongside an effort, a budget is a number this protocol
        // cannot state.
        ReasoningConfig {
            enabled: Some(true),
            effort: Some("high".into()),
            budget_tokens: Some(4096),
            ..Default::default()
        },
    ] {
        let err = render_request(&with(reasoning), "openai").unwrap_err();
        assert!(matches!(err, Error::NotImplemented(_)), "{err:?}");
        assert!(err.message().contains("reasoning"), "{err:?}");
    }

    // An effort alone is exactly what this protocol says, with or without
    // the enablement that effort already implies.
    for reasoning in [
        ReasoningConfig {
            effort: Some("high".into()),
            ..Default::default()
        },
        ReasoningConfig {
            enabled: Some(true),
            effort: Some("high".into()),
            ..Default::default()
        },
    ] {
        assert_eq!(
            render_request(&with(reasoning), "openai").unwrap()["reasoning_effort"],
            "high"
        );
    }
}
#[test]
fn a_null_content_on_a_function_message_keeps_its_key() {
    let normalized = ingest_request(
        wire(val(r#"{
        "model": "openai/gpt-5.6",
        "messages": [
        {"role": "function", "name": "f", "content": null},
        {"role": "assistant", "tool_calls": [
        {"id": "call_1", "type": "function",
        "function": {"name": "f", "arguments": "{}"}}
        ]}
        ]
        }"#)),
        "gpt-5.6",
    );
    let messages = render_request(&normalized, "openai").unwrap()["messages"].clone();
    assert_eq!(messages[0]["content"], Value::Null, "{messages}");
    assert!(
        messages[0].get("content").is_some(),
        "the key a function message requires was dropped: {messages}"
    );
    assert!(
        messages[1].get("content").is_none(),
        "an absent content came back as a null: {messages}"
    );
}
#[test]
fn an_explicit_null_survives_on_every_nullable_field() {
    let body = val(r#"{
        "model": "openai/gpt-5.6",
        "messages": [],
        "temperature": null,
        "max_tokens": null,
        "top_p": null,
        "stop": null,
        "stream_options": null,
        "reasoning_effort": null,
        "tools": [{"type": "function", "function": {
        "name": "f", "parameters": {"type": "object"}, "strict": null
        }}],
        "response_format": {"type": "json_schema", "json_schema": {
        "name": "r", "schema": {"type": "object"}, "strict": null
        }}
        }"#);
    let normalized = ingest_request(wire(body.clone()), "gpt-5.6");
    let rendered = render_request(&normalized, "openai").unwrap();

    let mut expected = body;
    expected["model"] = val(r#""gpt-5.6""#);
    assert_eq!(rendered, expected);
}
#[test]
fn a_bare_stop_string_is_read_and_rendered_back_as_one() {
    for (wire_stop, sequences) in [
        (val(r#""END""#), vec!["END".to_string()]),
        (val(r#"["END","STOP"]"#), vec!["END".into(), "STOP".into()]),
    ] {
        let mut original = val(r#"{"model":"openai/gpt-5.6","messages":[]}"#);
        original["stop"] = wire_stop.clone();
        let original = wire(original);
        let normalized = ingest_request(original, "gpt-5.6");
        assert_eq!(normalized.params.stop, sequences);
        assert_eq!(
            render_request(&normalized, "openai").unwrap()["stop"],
            wire_stop
        );
    }
}

#[test]
fn a_limit_by_its_newer_name_is_read_and_not_doubled() {
    let original = wire(val(
        r#"{"model":"openai/gpt-5.6","messages":[],"max_completion_tokens":99}"#,
    ));
    let normalized = ingest_request(original.clone(), "gpt-5.6");
    assert_eq!(normalized.params.max_tokens, Some(99));
    let rendered = render_request(&normalized, "openai").unwrap();
    assert_eq!(rendered["max_completion_tokens"], 99);
    assert!(rendered.get("max_tokens").is_none());
}

#[test]
fn what_both_wires_leave_untyped_is_promoted_and_rendered() {
    let request = ChatRequest {
        model: "gpt-5.6".into(),
        parallel_tool_calls: Some(false),
        params: warpllm::gateway::types::request::GenerationParams {
            top_k: Some(40),
            ..Default::default()
        },
        ..Default::default()
    };
    let rendered = render_request(&request, "openai").unwrap();
    assert_eq!(rendered["parallel_tool_calls"], false);
    assert_eq!(rendered["top_k"], 40);
}

#[test]
fn a_turn_keeps_its_residue_on_the_first_of_its_results() {
    let result = |call_id: &str| ContentBlock::ToolResult {
        call_id: call_id.into(),
        content: vec![],
        is_error: false,
    };
    let mut kept = Fields::new();
    kept.put("openai_compat", js(&val(r#"{"vendor":1}"#)));
    let request = ChatRequest {
        messages: vec![Message {
            role: Role::Tool,
            content: vec![result("a"), result("b")],
            ext: kept,
        }],
        ..Default::default()
    };
    assert_eq!(
        render_request(&request, "openai").unwrap()["messages"],
        val(r#"[{"role":"tool","tool_call_id":"a","vendor":1},{"role":"tool","tool_call_id":"b"}]"#)
    );
}

#[test]
fn a_residue_of_the_wrong_shape_gives_way_to_the_common_form() {
    let mut request = ChatRequest { model: "gpt-5.6".into(), ..Default::default() };
    request.ext.put(
        "openai_compat",
        js(&val(r#"{"max_tokens":"many","stop":7,"tools":{},"seed":1}"#)),
    );
    request.params.max_tokens = Some(5);
    let rendered = render_request(&request, "openai").unwrap();
    assert_eq!(rendered, val(r#"{"model":"gpt-5.6","messages":[],"max_tokens":5,"seed":1}"#));
}

#[test]
fn audio_keeps_its_format_or_takes_it_from_its_media_type() {
    let sound = |format: Option<&str>, source| ChatRequest {
        messages: vec![Message {
            role: Role::User,
            content: vec![ContentBlock::Audio { source, format: format.map(str::to_string) }],
            ext: Fields::new(),
        }],
        ..Default::default()
    };
    let bytes = || MediaSource::Base64 { media_type: "audio/mp3".into(), data: "aGk=".into() };
    let content = |request: &ChatRequest| {
        render_request(request, "openai").unwrap()["messages"][0]["content"][0].clone()
    };
    assert_eq!(
        content(&sound(Some("wav"), bytes())),
        val(r#"{"type":"input_audio","input_audio":{"data":"aGk=","format":"wav"}}"#)
    );
    assert_eq!(content(&sound(None, bytes()))["input_audio"]["format"], "mp3");
    assert_eq!(
        content(&sound(None, MediaSource::Url { url: "https://a/b".into() })),
        val(r#"{"type":"audio","source":{"type":"url","url":"https://a/b"}}"#)
    );
}

#[test]
fn an_empty_stop_list_is_left_out() {
    let request = ingest_request(
        val(r#"{"model":"openai/gpt-5.6","messages":[],"stop":[]}"#),
        "gpt-5.6",
    );
    assert!(request.params.stop.is_empty());
    assert_eq!(
        render_request(&request, "openai").unwrap(),
        val(r#"{"model":"gpt-5.6","messages":[]}"#)
    );
    // A null that the caller sent is another matter.
    let body = val(r#"{"model":"gpt-5.6","messages":[],"stop":null}"#);
    let request = ingest_request(body.clone(), "gpt-5.6");
    assert_eq!(render_request(&request, "openai").unwrap(), body);
}

#[test]
fn a_custom_call_never_becomes_content() {
    let body = val(
        r#"{
            "model": "gpt-5.6",
            "messages": [
                {"role": "assistant", "tool_calls": [
                    {"id": "call_1", "type": "custom", "custom": {"name": "grep", "input": "a b"}},
                    {"id": "call_2", "type": "function",
                     "function": {"name": "ls", "arguments": "{}"}}
                ]},
                {"role": "assistant", "content": null, "tool_calls": [
                    {"id": "call_3", "type": "custom", "custom": {"name": "grep", "input": "c"}}
                ]}
            ]
        }"#,
    );
    let request = ingest_request(wire(body.clone()), "gpt-5.6");
    assert!(matches!(&request.messages[0].content[0], ContentBlock::Unknown(_)));
    assert_eq!(render_request(&request, "openai").unwrap(), body);
}

#[test]
fn a_null_that_says_nothing_is_left_out() {
    let request = ingest_request(
        wire(val(
            r#"{
                "model": "openai/gpt-5.6",
                "messages": [
                    {"role": "user", "content": "hi", "tool_calls": null, "tool_call_id": null}
                ],
                "tools": null,
                "tool_choice": null,
                "response_format": null
            }"#,
        )),
        "gpt-5.6",
    );
    assert_eq!(
        render_request(&request, "openai").unwrap(),
        val(r#"{"model":"gpt-5.6","messages":[{"role":"user","content":"hi"}]}"#)
    );
}

#[test]
fn every_kind_of_part_comes_back_as_it_was() {
    for part in [
        r#"{"type":"text","text":"hi"}"#,
        r#"{"type":"image_url","image_url":{"url":"https://e.com/a.png","detail":"high"}}"#,
        r#"{"type":"image_url","image_url":{"url":"data:image/png;base64,aGk="}}"#,
        r#"{"type":"input_audio","input_audio":{"data":"aGk=","format":"wav"}}"#,
        r#"{"type":"file","file":{"file_id":"file-1","filename":"r.pdf"}}"#,
        r#"{"type":"file","file":{"file_data":"JVBERi0="}}"#,
        r#"{"type":"refusal","refusal":"no"}"#,
        r#"{"type":"hologram","payload":1}"#,
    ] {
        let body = val(&format!(
            r#"{{"model":"m","messages":[{{"role":"user","content":[{part},{part}]}}]}}"#
        ));
        let mut request = ingest_request(body.clone(), "m");
        // Without what was kept, the parts are made from the blocks alone.
        request.messages[0].ext = Fields::new();
        assert_eq!(render_request(&request, "openai").unwrap(), body, "{part}");
    }
}

#[test]
fn an_address_holds_bytes_only_as_a_base64_data_url() {
    let source = |url: &str| {
        let body = format!(
            r#"{{"model":"m","messages":[{{"role":"user","content":[{{"type":"image_url","image_url":{{"url":"{url}"}}}}]}}]}}"#
        );
        let mut request = ingest_request(val(&body), "m");
        match request.messages.remove(0).content.remove(0) {
            ContentBlock::Image { source, .. } => source,
            other => panic!("{other:?}"),
        }
    };
    assert_eq!(
        source("data:a;base64,b;base64,c"),
        MediaSource::Base64 { media_type: "a".into(), data: "b;base64,c".into() }
    );
    for url in ["data:image/png,abc", "x-data:a;base64,b", ";base64,b", "https://e.com/a;base64,b"] {
        assert_eq!(source(url), MediaSource::Url { url: url.into() });
    }
}
