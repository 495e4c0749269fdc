use warpllm::http::{parse_retry_after, SseFrames};

#[test]
fn retry_after_reads_delta_seconds() {
    assert_eq!(parse_retry_after("30"), Some(30));
    assert_eq!(parse_retry_after("  30 "), Some(30));
    assert_eq!(parse_retry_after("0"), Some(0));
}
#[test]
fn retry_after_declines_forms_it_cannot_read() {
    for value in ["Wed, 21 Oct 2015 07:28:00 GMT", "soon", "", "-1", "1.5"] {
        assert_eq!(parse_retry_after(value), None, "{value}");
    }
}

// -----------------------------------------------------------------------
// SSE framing
// -----------------------------------------------------------------------
const DONE: &str = "[DONE]";
fn payloads(chunks: &[&str]) -> Vec<String> {
    let mut frames = SseFrames::new(Some(DONE));
    let mut out = Vec::new();
    for bytes in chunks {
        frames.push(bytes.as_bytes());
        while let Some(payload) = frames.next_payload().unwrap() {
            out.push(payload);
        }
    }
    out.extend(frames.flush());
    out
}
#[test]
fn data_lines_dispatch_on_a_blank_line_and_done_ends_the_stream() {
    assert_eq!(
        payloads(&["data: {\"a\":1}\n\ndata: {\"a\":2}\n\ndata: [DONE]\n\n"]),
        ["{\"a\":1}", "{\"a\":2}"],
        "the sentinel is the stream ending, never an event"
    );
}
#[test]
fn an_event_split_across_reads_is_rejoined() {
    assert_eq!(payloads(&["data: {\"a\":", "1}\n\n"]), ["{\"a\":1}"]);
    assert_eq!(payloads(&["data: {\"a\":1}", "\n", "\n"]), ["{\"a\":1}"]);
    // "일" is three bytes; the split falls inside it.
    let text = "data: {\"a\":\"일\"}\n\n".as_bytes();
    let (head, tail) = text.split_at(14);
    let mut frames = SseFrames::new(Some(DONE));
    frames.push(head);
    assert_eq!(frames.next_payload().unwrap(), None, "a partial character");
    frames.push(tail);
    assert_eq!(
        frames.next_payload().unwrap().as_deref(),
        Some("{\"a\":\"일\"}")
    );
}
#[test]
fn comments_and_other_fields_are_ignored() {
    assert_eq!(
        payloads(&[": ping\nevent: message\nid: 7\nretry: 100\ndata: {\"a\":1}\n\n"]),
        ["{\"a\":1}"]
    );
    assert_eq!(payloads(&[": ping\n\n: ping\n\n"]), [] as [String; 0]);
}
#[test]
fn crlf_and_the_optional_space_are_stripped() {
    assert_eq!(payloads(&["data: {\"a\":1}\r\n\r\n"]), ["{\"a\":1}"]);
    assert_eq!(payloads(&["data:{\"a\":1}\n\n"]), ["{\"a\":1}"]);
    // Only ONE space belongs to the framing; the rest is payload, and
    // `trim` on dispatch is what keeps it decodable either way.
    assert_eq!(payloads(&["data:  {\"a\":1}\n\n"]), ["{\"a\":1}"]);
}
#[test]
fn multi_line_data_joins_with_newlines() {
    assert_eq!(payloads(&["data: {\"a\":\ndata: 1}\n\n"]), ["{\"a\":\n1}"]);
}
#[test]
fn the_sentinel_leaves_no_payload_and_a_done_flag() {
    let mut frames = SseFrames::new(Some(DONE));
    frames.push(b"data: [DONE]\n\n");
    assert_eq!(frames.next_payload().unwrap(), None);
    assert!(frames.done(), "only this distinguishes ended from starved");

    let mut starved = SseFrames::new(Some(DONE));
    starved.push(b"data: {\"a\":1}");
    assert_eq!(starved.next_payload().unwrap(), None);
    assert!(!starved.done());
}
#[test]
fn without_a_sentinel_every_payload_is_an_event() {
    let mut frames = SseFrames::new(None);
    frames.push(b"data: [DONE]\n\ndata: {\"a\":1}\n\n");
    assert_eq!(frames.next_payload().unwrap().as_deref(), Some("[DONE]"));
    assert_eq!(frames.next_payload().unwrap().as_deref(), Some("{\"a\":1}"));
    assert!(!frames.done());
}
#[test]
fn a_truncated_final_event_is_flushed() {
    assert_eq!(payloads(&["data: {\"a\":1}\n"]), ["{\"a\":1}"]);
    assert_eq!(payloads(&["data: [DONE]\n"]), [] as [String; 0]);
}
#[test]
fn invalid_utf8_in_a_line_is_an_error() {
    let mut frames = SseFrames::new(Some(DONE));
    frames.push(b"data: \xff\xfe\n\n");
    assert!(frames.next_payload().is_err());
}
