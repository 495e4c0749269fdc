use warpllm::error::Error;
use warpllm::gateway::anthropic::exchange::ChatChunkStream;
use warpllm::gateway::types::stream::{ChatResponseChunk, ContentDelta};
use warpllm::http::SseFrames;
use warpllm::json::Json;

const START: &str = "event: message_start\n\
data: {\"type\":\"message_start\",\"message\":{\"id\":\"msg_1\",\"type\":\"message\",\
\"role\":\"assistant\",\"model\":\"opus-5\",\"content\":[],\
\"stop_reason\":null,\"stop_sequence\":null,\
\"usage\":{\"input_tokens\":4,\"output_tokens\":1}}}\n\n";

/// What a stream gives its caller, from the bytes of its body.
fn opened(report_usage: bool, body: String) -> Vec<Result<ChatResponseChunk, Error>> {
    let mut frames = SseFrames::new(None);
    let mut stream = ChatChunkStream::new("anthropic", report_usage);
    let mut chunks = Vec::new();
    frames.push(body.as_bytes());
    while let Some(payload) = frames.next_payload().unwrap() {
        if let Some(chunk) = stream.next(&Json::parse(&payload).unwrap()) {
            chunks.push(chunk);
        }
    }
    chunks
}

#[test]
fn a_mid_stream_error_is_a_failure_and_not_a_clean_end() {
    let chunks = opened(
        false,
        format!(
            "{START}event: error\ndata: {}\n\n",
            r#"{"type":"error","error":{"type":"overloaded_error","message":"Overloaded"}}"#
        ),
    );

    let last = chunks.last().expect("the stream produced nothing at all");
    let error = last
        .as_ref()
        .expect_err("the mid-stream error was reported as a successful chunk");
    assert!(
        matches!(error, Error::Overloaded(_)),
        "the family decided the meaning: {error:?}"
    );
    assert!(error.message().contains("Overloaded"), "{error:?}");
}

#[test]
fn keepalives_and_block_boundaries_are_skipped_not_ended() {
    let chunks = opened(
        false,
        format!(
            "{START}\
             event: ping\ndata: {{\"type\":\"ping\"}}\n\n\
             event: content_block_start\ndata: {}\n\n\
             event: ping\ndata: {{\"type\":\"ping\"}}\n\n\
             event: content_block_delta\ndata: {}\n\n\
             event: content_block_stop\ndata: {{\"type\":\"content_block_stop\",\"index\":0}}\n\n\
             event: message_delta\ndata: {}\n\n\
             event: message_stop\ndata: {{\"type\":\"message_stop\"}}\n\n",
            r#"{"type":"content_block_start","index":0,"content_block":{"type":"text","text":""}}"#,
            r#"{"type":"content_block_delta","index":0,"delta":{"type":"text_delta","text":"hi"}}"#,
            r#"{"type":"message_delta","delta":{"stop_reason":"end_turn"},"usage":{"output_tokens":9}}"#,
        ),
    );

    assert!(
        chunks.iter().all(Result::is_ok),
        "a well-formed stream reported a failure"
    );
    // message_start, block start, block delta, message delta — and NOT the
    // two pings, the block stop, or the message stop, which carries the
    // totals this request did not ask for. See the test below.
    assert_eq!(chunks.len(), 4, "contentless events produced chunks");
    assert_eq!(
        chunks.last().unwrap().as_ref().unwrap().completions[0]
            .finish_reason_raw
            .as_deref(),
        Some("end_turn")
    );
    assert!(
        chunks
            .iter()
            .all(|chunk| chunk.as_ref().unwrap().usage.is_none()),
        "totals nobody asked for reached the caller"
    );
}

#[test]
fn a_caller_who_asked_for_the_totals_gets_them_on_a_chunk_of_their_own() {
    let chunks = opened(
        true,
        format!(
            "{START}\
             event: message_delta\ndata: {}\n\n\
             event: message_stop\ndata: {{\"type\":\"message_stop\"}}\n\n",
            r#"{"type":"message_delta","delta":{"stop_reason":"end_turn"},"usage":{"output_tokens":9}}"#,
        ),
    );

    // message_start, message_delta, and the totals `message_stop` carries.
    assert_eq!(chunks.len(), 3);
    let totals = chunks.last().unwrap().as_ref().unwrap();
    assert!(totals.completions.is_empty());
    let usage = totals.usage.as_ref().expect("the totals were asked for");
    assert_eq!(usage.output_tokens, Some(9));
    assert_eq!(usage.input_tokens, Some(4));
}

fn event(text: &str) -> Result<Json, Error> {
    Ok(Json::parse(text).unwrap())
}

#[test]
fn items_are_given_in_order_and_silent_ones_skipped() {
    let truncated = || Error::StreamTruncated { provider: "anthropic".into() };
    let mut items = vec![
        event(r#"{"type":"ping"}"#),
        event(r#"{"type":"content_block_delta","index":0,"delta":{"type":"text_delta","text":"a"}}"#),
        event(r#"{"type":"content_block_stop","index":0}"#),
        event(r#"{"type":"error","error":{"type":"overloaded_error","message":"busy"}}"#),
        Err(truncated()),
        event(r#"{"type":"ping"}"#),
    ];
    let mut stream = ChatChunkStream::new("anthropic", false);
    assert!(stream.next_from(&mut items).unwrap().is_ok());
    assert!(matches!(stream.next_from(&mut items), Some(Err(Error::Overloaded(_)))));
    assert_eq!(stream.next_from(&mut items).unwrap().unwrap_err(), truncated());
    assert!(stream.next_from(&mut items).is_none());
    assert!(items.is_empty(), "nothing only where the items have come to their end");
}

#[test]
fn the_pieces_of_the_chunks_join_to_those_of_the_events() {
    let mut items = vec![
        event(r#"{"type":"content_block_start","index":0,"content_block":{"type":"thinking","thinking":"","signature":""}}"#),
        event(r#"{"type":"content_block_delta","index":0,"delta":{"type":"thinking_delta","thinking":"st"}}"#),
        event(r#"{"type":"content_block_start","index":1,"content_block":{"type":"tool_use","id":"tu_1","name":"w","input":{}}}"#),
        event(r#"{"type":"content_block_delta","index":0,"delta":{"type":"thinking_delta","thinking":"ep"}}"#),
        event(r#"{"type":"content_block_delta","index":1,"delta":{"type":"input_json_delta","partial_json":"{\"a\":"}}"#),
        event(r#"{"type":"content_block_delta","index":1,"delta":{"type":"input_json_delta","partial_json":"1}"}}"#),
    ];
    let mut stream = ChatChunkStream::new("anthropic", false);
    let (mut thinking, mut arguments, mut called) = (String::new(), String::new(), None);
    while let Some(chunk) = stream.next_from(&mut items) {
        match &chunk.unwrap().completions[0].delta.content[0] {
            ContentDelta::Reasoning { text, .. } => thinking.push_str(text),
            ContentDelta::ToolCall { index, id, name, arguments: more, .. } => {
                assert_eq!(*index, 1);
                arguments.push_str(more.as_deref().unwrap_or_default());
                if let (Some(id), Some(name)) = (id, name) {
                    called = Some((id.clone(), name.clone()));
                }
            }
            other => panic!("{other:?}"),
        }
    }
    assert_eq!(thinking, "step");
    assert_eq!(arguments, r#"{"a":1}"#);
    assert_eq!(called, Some(("tu_1".to_string(), "w".to_string())));
}
