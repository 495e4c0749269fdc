use serde_json::Value;
use warpllm::error::Error;
use warpllm::gateway::anthropic::response::ingest_response;
use warpllm::gateway::anthropic::wire::is_request;
use warpllm::gateway::openai_compat::request::render_request as render_openai_request;
use warpllm::gateway::openai_compat::response::render_response as render_openai;
use warpllm::gateway::types::message::{
    CacheHint, ContentBlock, MediaSource, Message, ReasoningDetail, Role,
};
use warpllm::gateway::types::request::{
    ChatRequest, ReasoningConfig, ResponseFormat, ToolChoice, ToolDef,
};
use warpllm::gateway::types::RawJson;
use warpllm::json::{Fields, Json};

fn val(text: &str) -> Value {
    serde_json::from_str(text).unwrap()
}

fn js(value: &Value) -> Json {
    Json::parse(&value.to_string()).unwrap()
}

fn to_value(json: &Json) -> Value {
    val(&json.to_text())
}

/// A document that is a request.
fn wire(body: Value) -> Value {
    assert!(is_request(&js(&body)), "{body}");
    body
}

fn ingest_request(request: Value, model: &str) -> ChatRequest {
    warpllm::gateway::anthropic::request::ingest_request(&js(&request), model)
}

fn render_request(
    request: &ChatRequest,
    provider: &str,
    ceiling: Option<u32>,
) -> Result<Value, Error> {
    warpllm::gateway::anthropic::request::render_request(request, provider, ceiling)
        .map(|json| to_value(&json))
}

fn ingest_openai(request: Value, model: &str) -> ChatRequest {
    warpllm::gateway::openai_compat::request::ingest_request(&js(&request), model)
}

fn rendered(request: &ChatRequest) -> Value {
    render_request(request, "anthropic", None).unwrap()
}
fn maximal_body() -> Value {
    val(r#"{
        "model": "opus-5",
        "max_tokens": 1024,
        "system": [{
        "type": "text",
        "text": "Be brief.",
        "cache_control": {"type": "ephemeral", "ttl": "1h"}
        }],
        "temperature": 0.7,
        "top_p": 0.95,
        "top_k": 40,
        "stop_sequences": ["END"],
        "stream": true,
        "metadata": {"user_id": "u1"},
        "service_tier": "auto",
        "tools": [
        {
        "name": "counter",
        "description": "counts",
        "input_schema": {"type": "object", "properties": {"z": {"type": "number"}}},
        "cache_control": {"type": "ephemeral"},
        "vendor_hint": true
        },
        {"type": "web_search_20250305", "name": "web_search", "max_uses": 3}
        ],
        "tool_choice": {"type": "any", "disable_parallel_tool_use": true},
        "thinking": {"type": "adaptive", "display": "summarized"},
        "output_config": {
        "effort": "xhigh",
        "format": {"type": "json_schema", "schema": {"type": "object"}}
        },
        "messages": [
        {"role": "user", "content": "count them"},
        {"role": "assistant", "content": [
        {"type": "thinking", "thinking": "counting", "signature": "sig"},
        {"type": "tool_use", "id": "toolu_01", "name": "counter", "input": {"z": 1}}
        ]},
        {"role": "user", "content": [
        {"type": "tool_result", "tool_use_id": "toolu_01", "content": "3"}
        ]},
        {"role": "user", "content": [
        {"type": "image", "source": {"type": "url", "url": "https://e.com/a.png"}},
        {"type": "text", "text": "and this?"}
        ], "vendor_tag": "vt"}
        ]
        }"#)
}
#[test]
fn an_anthropic_request_round_trips_byte_for_byte() {
    let body = maximal_body();
    let normalized = ingest_request(wire(body.clone()), "opus-5");
    assert_eq!(rendered(&normalized), body);
}
#[test]
fn a_streaming_anthropic_caller_has_asked_for_the_totals() {
    let request = ingest_request(wire(maximal_body()), "opus-5");
    assert!(request.stream, "the fixture stopped asking for a stream");
    assert_eq!(request.stream_include_usage, Some(true));
    // And it stays a gateway-form fact: Anthropic has no `stream_options`,
    // so saying so must not put anything on the wire.
    assert_eq!(rendered(&request), maximal_body());
}
#[test]
fn a_non_streaming_anthropic_caller_has_asked_for_nothing_of_the_kind() {
    for body in [
        val(r#"{"model":"opus-5","max_tokens":16,"messages":[{"role":"user","content":"hi"}]}"#),
        val(r#"{"model": "opus-5", "max_tokens": 16, "stream": false,
        "messages": [{"role": "user", "content": "hi"}]}"#),
    ] {
        let request = ingest_request(wire(body.clone()), "opus-5");
        assert!(!request.stream);
        assert_eq!(request.stream_include_usage, None, "{body}");

        // What the OTHER protocol's renderer then puts on the wire.
        let openai = to_value(&render_openai_request(&request, "openai").unwrap());
        assert!(
            openai.get("stream_options").is_none(),
            "a streaming-only option reached a non-streamed request: {openai}"
        );
    }
}
#[test]
fn the_gateway_view_of_a_maximal_request() {
    let request = ingest_request(wire(maximal_body()), "opus-5");
    assert_eq!(request.model, "opus-5");
    assert_eq!(request.params.max_tokens, Some(1024));
    assert_eq!(request.params.stop, vec!["END".to_string()]);
    assert!(request.stream);

    // The system prompt becomes a LEADING message, and the tool-result turn
    // becomes the gateway's tool role.
    let roles: Vec<_> = request.messages.iter().map(|m| m.role).collect();
    assert_eq!(
        roles,
        vec![
            Role::System,
            Role::User,
            Role::Assistant,
            Role::Tool,
            Role::User
        ]
    );

    // A server tool keeps its name and carries a null schema, which is what
    // lets another protocol's renderer refuse it BY NAME.
    assert_eq!(request.tools.len(), 2);
    assert_eq!(request.tools[0].name, "counter");
    assert_eq!(request.tools[1].name, "web_search");
    assert!(request.tools[1].input_schema.is_null());
    assert!(matches!(
        request.tool_choice,
        Some(ToolChoice::Required)
    ));

    // `thinking` and `output_config.effort` are one gateway concept.
    let reasoning = request.reasoning.as_ref().unwrap();
    assert_eq!(reasoning.enabled, Some(true));
    assert_eq!(reasoning.budget_tokens, None, "adaptive carries no budget");
    assert_eq!(reasoning.effort.as_deref(), Some("xhigh"));
    assert_eq!(reasoning.exclude, Some(false), "summarized means returned");
    assert!(matches!(
        request.response_format,
        Some(ResponseFormat::JsonSchema { .. })
    ));
}

// -----------------------------------------------------------------------
// The cross-protocol path: an OpenAI-shaped conversation on the Messages wire.
// -----------------------------------------------------------------------

fn openai_tool_conversation() -> ChatRequest {
    ingest_openai(
        val(r#"{
        "model": "anthropic/opus-5",
        "max_tokens": 512,
        "messages": [
        {"role": "system", "content": "Be brief."},
        {"role": "user", "content": "weather in SF and NYC?"},
        {"role": "assistant", "content": null, "tool_calls": [
        {"id": "call_a", "type": "function",
        "function": {"name": "weather", "arguments": "{\"city\":\"SF\"}"}},
        {"id": "call_b", "type": "function",
        "function": {"name": "weather", "arguments": "{\"city\":\"NYC\"}"}}
        ]},
        {"role": "tool", "tool_call_id": "call_a", "content": "18C"},
        {"role": "tool", "tool_call_id": "call_b", "content": "3C"}
        ],
        "tools": [{
        "type": "function",
        "function": {
        "name": "weather",
        "description": "current weather",
        "parameters": {"type": "object", "properties": {"city": {"type": "string"}}}
        }
        }],
        "tool_choice": "auto",
        "reasoning_effort": "medium"
        }"#),
        "opus-5",
    )
}
#[test]
fn an_openai_tool_conversation_renders_as_a_valid_anthropic_body() {
    assert_eq!(
        rendered(&openai_tool_conversation()),
        val(r#"{
        "model": "opus-5",
        "max_tokens": 512,
        "system": "Be brief.",
        "messages": [
        {"role": "user", "content": "weather in SF and NYC?"},
        {"role": "assistant", "content": [
        {"type": "tool_use", "id": "call_a", "name": "weather",
        "input": {"city": "SF"}},
        {"type": "tool_use", "id": "call_b", "name": "weather",
        "input": {"city": "NYC"}}
        ]},
        {"role": "user", "content": [
        {"type": "tool_result", "tool_use_id": "call_a", "content": "18C"},
        {"type": "tool_result", "tool_use_id": "call_b", "content": "3C"}
        ]}
        ],
        "tools": [{
        "name": "weather",
        "description": "current weather",
        "input_schema": {"type": "object", "properties": {"city": {"type": "string"}}}
        }],
        "tool_choice": {"type": "auto"},
        "output_config": {"effort": "medium"}
        }"#)
    );
}
#[test]
fn an_anthropic_reply_renders_back_as_openai_tool_calls() {
    let reply = ingest_response(&js(&val(r#"{
        "id": "msg_1", "type": "message", "role": "assistant",
        "model": "opus-5",
        "content": [{"type": "tool_use", "id": "toolu_9", "name": "weather",
        "input": {"city": "SF"}}],
        "stop_reason": "tool_use", "stop_sequence": null,
        "usage": {"input_tokens": 10, "output_tokens": 5}
        }"#)));
    let openai = to_value(&render_openai(&reply, "anthropic"));
    assert_eq!(openai["choices"][0]["finish_reason"], "tool_calls");
    assert_eq!(
        openai["choices"][0]["message"]["tool_calls"][0],
        val(r#"{
        "id": "toolu_9",
        "type": "function",
        "function": {"name": "weather", "arguments": "{\"city\":\"SF\"}"}
        }"#)
    );
}
#[test]
fn consecutive_native_tool_result_turns_are_not_merged() {
    let body = val(r#"{
        "model": "opus-5",
        "max_tokens": 512,
        "messages": [
        {
        "role": "user",
        "content": [{"type": "tool_result", "tool_use_id": "a", "content": "18C"}],
        "vendor_tag": "first"
        },
        {
        "role": "user",
        "content": [{"type": "tool_result", "tool_use_id": "b", "content": "3C"}],
        "vendor_tag": "second"
        }
        ]
        }"#);
    let normalized = ingest_request(wire(body.clone()), "opus-5");
    // Both are tool messages, which is what makes them merge candidates...
    assert_eq!(
        normalized
            .messages
            .iter()
            .map(|m| m.role)
            .collect::<Vec<_>>(),
        vec![Role::Tool, Role::Tool]
    );
    // ...and both come back whole, residue included.
    assert_eq!(rendered(&normalized), body);
}
#[test]
fn tool_results_from_another_protocol_still_merge_into_one_turn() {
    let turns = rendered(&openai_tool_conversation())["messages"]
        .as_array()
        .unwrap()
        .len();
    assert_eq!(turns, 3, "the two tool results must share one user turn");
}
#[test]
fn a_native_turn_does_not_absorb_its_foreign_neighbours() {
    let mut request = bare_request();
    request.params.max_tokens = Some(64);
    let foreign = |call_id: &str| Message {
        role: Role::Tool,
        content: vec![ContentBlock::ToolResult {
            call_id: call_id.into(),
            content: vec![ContentBlock::Text {
                text: "ok".into(),
                cache: None,
            }],
            is_error: false,
        }],
        ext: Fields::new(),
    };
    let mut native = foreign("native");
    native.ext.put("anthropic", js(&val(r#"{"content":[{"type":"tool_result","tool_use_id":"native","content":"kept"}]}"#)));
    request.messages = vec![native, foreign("a"), foreign("b")];

    let turns = rendered(&request);
    let turns = turns["messages"].as_array().unwrap();
    assert_eq!(turns.len(), 2, "{turns:?}");
    assert_eq!(turns[0]["content"][0]["content"], val(r#""kept""#));
    assert_eq!(turns[1]["content"].as_array().unwrap().len(), 2);
}
#[test]
fn another_protocols_ext_never_reaches_an_anthropic_body() {
    let mut request = openai_tool_conversation();
    request
        .ext
        .put("openai_compat", js(&val(r#"{"seed":7,"logit_bias":{}}"#)));
    request.ext.put("anthropic", js(&val(r#"{"top_k":40}"#)));

    let body = rendered(&request);
    assert_eq!(body["top_k"], val(r#"40"#));
    assert!(body.get("seed").is_none(), "{body}");
    assert!(body.get("logit_bias").is_none(), "{body}");
}

// -----------------------------------------------------------------------
// max_tokens: required upstream, optional in the gateway form.
// -----------------------------------------------------------------------

fn bare_request() -> ChatRequest {
    ChatRequest {
        model: "opus-5".into(),
        messages: vec![Message {
            role: Role::User,
            content: vec![ContentBlock::Text {
                text: "hi".into(),
                cache: None,
            }],
            ext: Fields::new(),
        }],
        ..Default::default()
    }
}

#[test]
fn max_tokens_prefers_the_caller_over_the_roster() {
    let mut request = bare_request();
    request.params.max_tokens = Some(64);
    let body = render_request(&request, "anthropic", Some(8192)).unwrap();
    assert_eq!(body["max_tokens"], val(r#"64"#));
}

#[test]
fn max_tokens_falls_back_to_the_models_documented_ceiling() {
    let body = render_request(&bare_request(), "anthropic", Some(8192)).unwrap();
    assert_eq!(body["max_tokens"], val(r#"8192"#));
}
#[test]
fn an_unresolvable_max_tokens_refuses_and_names_the_model() {
    let error = render_request(&bare_request(), "anthropic", None).unwrap_err();
    assert!(matches!(error, Error::InvalidInput(_)), "{error:?}");
    assert!(error.message().contains("opus-5"), "{error:?}");
    assert!(error.message().contains("max_tokens"), "{error:?}");
}

// -----------------------------------------------------------------------
// What this protocol cannot say.
// -----------------------------------------------------------------------

fn refusal_of(mutate: impl FnOnce(&mut ChatRequest)) -> Error {
    let mut request = bare_request();
    request.params.max_tokens = Some(64);
    mutate(&mut request);
    render_request(&request, "anthropic", None).unwrap_err()
}
#[test]
fn unparseable_tool_arguments_refuse_and_name_the_call() {
    let error = refusal_of(|request| {
        request.messages[0].role = Role::Assistant;
        request.messages[0].content = vec![ContentBlock::ToolCall {
            id: "call_a".into(),
            name: "weather".into(),
            arguments: RawJson::new(r#"{"city": "S"#),
        }];
    });
    assert!(matches!(error, Error::InvalidInput(_)), "{error:?}");
    for expected in ["call_a", "weather", r#"{"city": "S"#] {
        assert!(error.message().contains(expected), "{error:?}");
    }
}
#[test]
fn tool_arguments_that_are_json_but_not_an_object_refuse() {
    for arguments in ["null", "[1]", "7", r#""a string""#, "true"] {
        let error = refusal_of(|request| {
            request.messages[0].role = Role::Assistant;
            request.messages[0].content = vec![ContentBlock::ToolCall {
                id: "call_a".into(),
                name: "weather".into(),
                arguments: RawJson::new(arguments),
            }];
        });
        assert!(
            matches!(error, Error::InvalidInput(_)),
            "{arguments}: {error:?}"
        );
        for expected in ["call_a", "weather", arguments, "not an object"] {
            assert!(error.message().contains(expected), "{arguments}: {error:?}");
        }
    }
}
#[test]
fn empty_tool_arguments_stay_an_empty_object() {
    let mut request = bare_request();
    request.params.max_tokens = Some(64);
    request.messages[0].role = Role::Assistant;
    request.messages[0].content = vec![ContentBlock::ToolCall {
        id: "call_a".into(),
        name: "ping".into(),
        arguments: RawJson::new(""),
    }];
    let body = render_request(&request, "anthropic", None).unwrap();
    assert_eq!(body["messages"][0]["content"][0]["input"], val(r#"{}"#));
}
#[test]
fn an_unknown_block_from_another_protocol_refuses_and_names_its_type() {
    let error = refusal_of(|request| {
        request.messages[0].content = vec![ContentBlock::Unknown(js(&val(
            r#"{"type":"refusal","refusal":"I cannot help with that"}"#,
        )))];
    });
    assert!(matches!(error, Error::InvalidInput(_)), "{error:?}");
    assert!(error.message().contains("refusal"), "{error:?}");
}
#[test]
fn an_unknown_block_without_a_type_still_names_itself() {
    let error = refusal_of(|request| {
        request.messages[0].content = vec![ContentBlock::Unknown(js(&val(r#"{"odd":1}"#)))];
    });
    assert!(error.message().contains(r#"{"odd":1}"#), "{error:?}");
}
#[test]
fn an_anthropic_native_unknown_block_still_round_trips() {
    let body = val(r#"{
        "model": "opus-5",
        "max_tokens": 1024,
        "messages": [{"role": "user", "content": [
        {"type": "web_search_tool_result_20991231", "payload": {"q": "rust"}}
        ]}]
        }"#);
    let normalized = ingest_request(wire(body.clone()), "opus-5");
    assert!(
        matches!(
            normalized.messages[0].content.as_slice(),
            [ContentBlock::Unknown(_)]
        ),
        "the block must land in the arm the refusal guards, or this proves nothing"
    );
    assert_eq!(rendered(&normalized), body);
}
#[test]
fn an_unknown_block_nested_in_a_tool_result_refuses() {
    let error = refusal_of(|request| {
        request.messages[0].role = Role::Tool;
        request.messages[0].content = vec![ContentBlock::ToolResult {
            call_id: "call_a".into(),
            content: vec![ContentBlock::Unknown(js(&val(r#"{"type":"refusal"}"#)))],
            is_error: false,
        }];
    });
    assert!(matches!(error, Error::InvalidInput(_)), "{error:?}");
    assert!(error.message().contains("refusal"), "{error:?}");
}
#[test]
fn unparseable_arguments_nested_in_a_tool_result_refuse() {
    let error = refusal_of(|request| {
        request.messages[0].role = Role::Tool;
        request.messages[0].content = vec![ContentBlock::ToolResult {
            call_id: "call_a".into(),
            content: vec![ContentBlock::ToolCall {
                id: "call_b".into(),
                name: "weather".into(),
                arguments: RawJson::new("{oops"),
            }],
            is_error: false,
        }];
    });
    assert!(matches!(error, Error::InvalidInput(_)), "{error:?}");
    assert!(error.message().contains("call_b"), "{error:?}");
}
#[test]
fn a_foreign_provider_file_reference_refuses_and_names_the_id() {
    for block in [
        ContentBlock::Document {
            source: MediaSource::ProviderFile {
                id: "file-abc123".into(),
            },
            title: None,
            cache: None,
        },
        ContentBlock::Image {
            source: MediaSource::ProviderFile {
                id: "file-abc123".into(),
            },
            detail: None,
            cache: None,
        },
    ] {
        let error = refusal_of(|request| request.messages[0].content = vec![block]);
        assert!(matches!(error, Error::InvalidInput(_)), "{error:?}");
        assert!(error.message().contains("file-abc123"), "{error:?}");
    }
}
#[test]
fn an_anthropic_native_file_reference_still_round_trips() {
    let body = val(r#"{
        "model": "opus-5",
        "max_tokens": 1024,
        "messages": [{"role": "user", "content": [
        {"type": "document", "source": {"type": "file", "file_id": "file_011CNha8iCJcU1wXNR6q4V8w"}}
        ]}]
        }"#);
    let normalized = ingest_request(wire(body.clone()), "opus-5");
    assert!(
        matches!(
            normalized.messages[0].content.as_slice(),
            [ContentBlock::Document {
                source: MediaSource::ProviderFile { .. },
                ..
            }]
        ),
        "the source must land in the arm the refusal guards, or this proves nothing"
    );
    assert_eq!(rendered(&normalized), body);
}
#[test]
fn a_system_message_after_the_first_turn_refuses() {
    let error = refusal_of(|request| {
        request.messages.push(Message {
            role: Role::System,
            content: vec![ContentBlock::Text {
                text: "now be terse".into(),
                cache: None,
            }],
            ext: Fields::new(),
        });
    });
    assert!(matches!(error, Error::NotImplemented(_)), "{error:?}");
    assert!(error.message().contains("system message"), "{error:?}");
}
#[test]
fn an_audio_block_refuses() {
    let error = refusal_of(|request| {
        request.messages[0].content.push(ContentBlock::Audio {
            source: MediaSource::Base64 {
                media_type: "audio/wav".into(),
                data: "aGk=".into(),
            },
            format: Some("wav".into()),
        });
    });
    assert!(error.message().contains("audio"), "{error:?}");
}
#[test]
fn an_audio_block_inside_a_tool_result_refuses() {
    let error = refusal_of(|request| {
        request.messages[0].content = vec![ContentBlock::ToolResult {
            call_id: "call_a".into(),
            content: vec![ContentBlock::Audio {
                source: MediaSource::Url {
                    url: "https://e.com/a.wav".into(),
                },
                format: None,
            }],
            is_error: false,
        }];
    });
    assert!(error.message().contains("audio"), "{error:?}");
}
#[test]
fn inline_bytes_with_no_media_type_refuse() {
    let error = refusal_of(|request| {
        request.messages[0].content.push(ContentBlock::Document {
            source: MediaSource::Base64 {
                media_type: String::new(),
                data: "JVBERi0=".into(),
            },
            title: Some("report.pdf".into()),
            cache: None,
        });
    });
    assert!(matches!(error, Error::NotImplemented(_)), "{error:?}");
    assert!(error.message().contains("media type"), "{error:?}");
}
#[test]
fn an_openai_file_part_refuses_rather_than_being_sent_invalid() {
    let request = ingest_openai(
        val(r#"{
        "model": "anthropic/opus-5",
        "max_tokens": 512,
        "messages": [{"role": "user", "content": [
        {"type": "text", "text": "summarize this"},
        {"type": "file", "file": {"file_data": "JVBERi0=", "filename": "r.pdf"}}
        ]}]
        }"#),
        "opus-5",
    );
    let error = render_request(&request, "anthropic", None).unwrap_err();
    assert!(error.message().contains("media type"), "{error:?}");
}
#[test]
fn inline_bytes_with_a_media_type_render() {
    let mut request = bare_request();
    request.params.max_tokens = Some(64);
    request.messages[0].content = vec![ContentBlock::Document {
        source: MediaSource::Base64 {
            media_type: "application/pdf".into(),
            data: "JVBERi0=".into(),
        },
        title: None,
        cache: None,
    }];
    assert_eq!(
        rendered(&request)["messages"][0]["content"],
        val(r#"[{
        "type": "document",
        "source": {
        "type": "base64",
        "media_type": "application/pdf",
        "data": "JVBERi0="
        }
        }]"#)
    );
}

#[test]
fn a_tool_with_no_schema_refuses_by_name() {
    let error = refusal_of(|request| {
        request.tools.push(ToolDef {
            name: "web_search".into(),
            description: None,
            input_schema: Json::Null,
            strict: None,
            cache: None,
            ext: Fields::new(),
        });
    });
    assert!(error.message().contains("arguments schema"), "{error:?}");
}
#[test]
fn a_schema_less_json_mode_refuses() {
    let error = refusal_of(|request| {
        request.response_format = Some(ResponseFormat::JsonObject);
    });
    assert!(error.message().contains("json_object"), "{error:?}");
}

#[test]
fn a_request_level_cache_hint_refuses() {
    let error = refusal_of(|request| {
        request.cache = Some(CacheHint { ttl: None });
    });
    assert!(error.message().contains("cache hint"), "{error:?}");
}

// -----------------------------------------------------------------------
// Thinking and effort, the two parameters that are one gateway concept.
// -----------------------------------------------------------------------

fn with_reasoning(reasoning: ReasoningConfig) -> Value {
    let mut request = bare_request();
    request.params.max_tokens = Some(64);
    request.reasoning = Some(reasoning);
    rendered(&request)
}
#[test]
fn the_thinking_arm_follows_the_budget_not_the_model() {
    assert_eq!(
        with_reasoning(ReasoningConfig {
            enabled: Some(true),
            budget_tokens: Some(4096),
            ..Default::default()
        })["thinking"],
        val(r#"{"type":"enabled","budget_tokens":4096}"#)
    );
    assert_eq!(
        with_reasoning(ReasoningConfig {
            enabled: Some(true),
            ..Default::default()
        })["thinking"],
        val(r#"{"type":"adaptive"}"#)
    );
    assert_eq!(
        with_reasoning(ReasoningConfig {
            enabled: Some(false),
            ..Default::default()
        })["thinking"],
        val(r#"{"type":"disabled"}"#)
    );
}
#[test]
fn an_explicit_off_outranks_a_budget() {
    assert_eq!(
        with_reasoning(ReasoningConfig {
            enabled: Some(false),
            budget_tokens: Some(4096),
            ..Default::default()
        })["thinking"],
        val(r#"{"type":"disabled"}"#)
    );
}
#[test]
fn an_exclusion_becomes_the_display_field() {
    assert_eq!(
        with_reasoning(ReasoningConfig {
            enabled: Some(true),
            budget_tokens: Some(4096),
            exclude: Some(true),
            ..Default::default()
        })["thinking"],
        val(r#"{"type":"enabled","budget_tokens":4096,"display":"omitted"}"#)
    );
}
#[test]
fn an_exclusion_with_no_thinking_mode_refuses() {
    let error = refusal_of(|request| {
        request.reasoning = Some(ReasoningConfig {
            exclude: Some(true),
            ..Default::default()
        });
    });
    assert!(error.message().contains("exclusion"), "{error:?}");
}
#[test]
fn an_effort_renders_into_output_config_and_not_into_thinking() {
    let body = with_reasoning(ReasoningConfig {
        effort: Some("low".into()),
        ..Default::default()
    });
    assert_eq!(body["output_config"], val(r#"{"effort":"low"}"#));
    assert!(body.get("thinking").is_none(), "{body}");
}
#[test]
fn an_effort_anthropic_does_not_define_is_passed_through_not_filtered() {
    assert_eq!(
        with_reasoning(ReasoningConfig {
            effort: Some("minimal".into()),
            ..Default::default()
        })["output_config"],
        val(r#"{"effort":"minimal"}"#)
    );
}

#[test]
fn a_json_schema_becomes_the_output_format() {
    let mut request = bare_request();
    request.params.max_tokens = Some(64);
    request.response_format = Some(ResponseFormat::JsonSchema {
        name: "answer".into(),
        schema: js(&val(r#"{"type":"object"}"#)),
        strict: Some(true),
    });
    // `name` and `strict` have no Anthropic counterpart and are dropped;
    // the schema is the whole of what this protocol says.
    assert_eq!(
        rendered(&request)["output_config"],
        val(r#"{"format":{"type":"json_schema","schema":{"type":"object"}}}"#)
    );
}
#[test]
fn a_text_response_format_emits_nothing_at_all() {
    let mut request = bare_request();
    request.params.max_tokens = Some(64);
    request.response_format = Some(ResponseFormat::Text);
    let body = rendered(&request);
    assert!(body.get("output_config").is_none(), "{body}");
}

// -----------------------------------------------------------------------
// Reasoning blocks, which only replay when Anthropic produced them.
// -----------------------------------------------------------------------
#[test]
fn only_anthropics_own_reasoning_is_sent_back() {
    let mut request = bare_request();
    request.params.max_tokens = Some(64);
    request.messages[0].role = Role::Assistant;
    request.messages[0].content = vec![
        ContentBlock::Reasoning {
            detail: ReasoningDetail::Text {
                text: "mine".into(),
                signature: Some("sig".into()),
            },
            provenance: Some("anthropic".into()),
            id: None,
        },
        ContentBlock::Reasoning {
            detail: ReasoningDetail::Text {
                text: "theirs".into(),
                signature: None,
            },
            provenance: Some("openai_compat".into()),
            id: None,
        },
    ];
    assert_eq!(
        rendered(&request)["messages"][0]["content"],
        val(r#"[{"type":"thinking","thinking":"mine","signature":"sig"}]"#)
    );
}
#[test]
fn stream_is_emitted_only_when_it_is_true() {
    let mut request = bare_request();
    request.params.max_tokens = Some(64);
    assert!(rendered(&request).get("stream").is_none());
    request.stream = true;
    assert_eq!(rendered(&request)["stream"], val(r#"true"#));
}

#[test]
fn audio_at_any_depth_refuses() {
    let sound = ContentBlock::Audio {
        source: MediaSource::Url { url: "https://e.com/a.wav".into() },
        format: None,
    };
    let within = |block: ContentBlock| ContentBlock::ToolResult {
        call_id: "a".into(),
        content: vec![block],
        is_error: false,
    };
    let error = refusal_of(|request| {
        request.messages[0].role = Role::Tool;
        request.messages[0].content = vec![within(within(within(sound)))];
    });
    assert!(matches!(&error, Error::NotImplemented(what) if what.contains("audio")), "{error:?}");

    let untyped = ContentBlock::Document {
        source: MediaSource::Base64 { media_type: String::new(), data: "JVBERi0=".into() },
        title: None,
        cache: None,
    };
    let error = refusal_of(|request| request.messages[0].content = vec![within(within(untyped))]);
    assert!(
        matches!(&error, Error::NotImplemented(what) if what.contains("media type")),
        "{error:?}"
    );
}

#[test]
fn a_native_system_prompt_comes_back_whatever_its_blocks_are() {
    for system in [
        r#"[{"type":"hologram","payload":{"z":1}}]"#,
        r#"[{"type":"text","text":"a"},{"type":"document","source":{"type":"file","file_id":"f"}}]"#,
        r#"[{"type":"image","source":{"type":"url","url":"https://e.com/a.png"}}]"#,
        "[]",
        r#""Be brief.""#,
    ] {
        let body = val(&format!(
            r#"{{"model":"opus-5","max_tokens":16,"system":{system},"messages":[{{"role":"user","content":"hi"}}]}}"#
        ));
        let request = ingest_request(wire(body.clone()), "opus-5");
        assert_eq!(rendered(&request), body, "{system}");
    }
}

#[test]
fn reasoning_that_is_on_reads_back() {
    for (budget_tokens, exclude) in
        [(None, None), (Some(4096), Some(true)), (None, Some(false)), (Some(1), None)]
    {
        let reasoning = || ReasoningConfig {
            enabled: Some(true),
            effort: Some("low".into()),
            budget_tokens,
            exclude,
        };
        let body = with_reasoning(reasoning());
        assert_eq!(ingest_request(wire(body), "opus-5").reasoning, Some(reasoning()));
    }
}
