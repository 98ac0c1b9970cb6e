use zcode_gateway::json::parse;
use zcode_gateway::sse::{fallback_model, next_frame_boundary, parse_sse_chunk, SseTranslator};
use zcode_gateway::stream::StreamPump;

fn run(chunks: Vec<&str>) -> String {
    let mut t = SseTranslator::new("glm-4.6");
    let mut out = String::new();
    for c in chunks {
        for piece in t.feed(c) {
            out.push_str(&piece);
        }
    }
    for piece in t.finish() {
        out.push_str(&piece);
    }
    out
}

#[test]
fn translates_full_stream() {
    let sse = vec![
        "event: message_start\ndata: {\"type\":\"message_start\",\"message\":{\"id\":\"msg_1\",\"model\":\"glm-4.6\",\"usage\":{\"input_tokens\":10}}}\n\n",
        "event: content_block_start\ndata: {\"type\":\"content_block_start\",\"index\":0,\"content_block\":{\"type\":\"text\",\"text\":\"\"}}\n\n",
        "event: content_block_delta\ndata: {\"type\":\"content_block_delta\",\"index\":0,\"delta\":{\"type\":\"text_delta\",\"text\":\"hi\"}}\n\n",
        "event: content_block_stop\ndata: {\"type\":\"content_block_stop\",\"index\":0}\n\n",
        "event: message_delta\ndata: {\"type\":\"message_delta\",\"delta\":{\"stop_reason\":\"end_turn\"},\"usage\":{\"output_tokens\":2}}\n\n",
        "event: message_stop\ndata: {\"type\":\"message_stop\"}\n\n",
    ];
    let out = run(sse);
    assert!(out.contains("\"role\": \"assistant\"") || out.contains("\"role\":\"assistant\""));
    assert!(out.contains("\"content\":\"hi\"") || out.contains("\"content\": \"hi\""));
    assert!(
        out.contains("\"finish_reason\":\"stop\"") || out.contains("\"finish_reason\": \"stop\"")
    );
    assert!(out.contains("data: [DONE]"));
    assert!(out.contains("\"prompt_tokens\":10") || out.contains("\"prompt_tokens\": 10"));
    assert!(out.contains("\"completion_tokens\":2") || out.contains("\"completion_tokens\": 2"));
}

#[test]
fn handles_crlf_frames_and_tool_calls() {
    let sse = vec![
        "event: message_start\r\ndata: {\"type\":\"message_start\",\"message\":{\"id\":\"msg_2\",\"model\":\"glm-4.6\"}}\r\n\r\n",
        "event: content_block_start\r\ndata: {\"type\":\"content_block_start\",\"index\":1,\"content_block\":{\"type\":\"tool_use\",\"id\":\"t9\",\"name\":\"sh\"}}\r\n\r\n",
        "event: content_block_delta\r\ndata: {\"type\":\"content_block_delta\",\"index\":1,\"delta\":{\"type\":\"input_json_delta\",\"partial_json\":\"{\\\"cmd\\\":\"}}\r\n\r\n",
        "event: message_stop\r\ndata: {\"type\":\"message_stop\"}\r\n\r\n",
    ];
    let out = run(sse);
    assert!(out.contains("\"tool_calls\""));
    assert!(out.contains("\"name\":\"sh\"") || out.contains("\"name\": \"sh\""));
    assert!(out.contains("\"arguments\":\"{\\\"cmd\\\":\"") || out.contains("cmd\\"));
    assert!(out.contains("data: [DONE]"));
}

#[test]
fn thinking_deltas_become_reasoning_content() {
    let out = run(vec![
        "data: {\"type\":\"message_start\",\"message\":{\"id\":\"m\"}}\n\n",
        "data: {\"type\":\"content_block_delta\",\"index\":0,\"delta\":{\"type\":\"thinking_delta\",\"thinking\":\"aha\"}}\n\n",
        "data: {\"type\":\"message_stop\"}\n\n",
    ]);
    assert!(out.contains("reasoning_content"));
}

const TALK: &str = "data: {\"type\":\"message_start\",\"message\":{\"id\":\"m\"}}\n\n\
data: {\"type\":\"content_block_delta\",\"index\":0,\"delta\":{\"type\":\"text_delta\",\"text\":\"héllo 你好\"}}\n\n\
data: {\"type\":\"message_stop\"}\n\n";

fn pump(pieces: Vec<&[u8]>) -> Vec<String> {
    let mut p = StreamPump::new("glm-5");
    let mut out = Vec::new();
    for piece in pieces {
        out.append(&mut p.feed_at(piece, 77));
    }
    out.append(&mut p.finish_at(77));
    out
}

#[test]
fn chunks_make_no_difference() {
    let bytes = TALK.as_bytes();
    let whole = pump(vec![bytes]);
    for cut in [1, 60, 130, 131, 132, 133, 134, 135, 136, 137, 138, 140, bytes.len() - 1] {
        assert_eq!(pump(vec![&bytes[..cut], &bytes[cut..]]), whole, "cut at {cut}");
    }
    let single: Vec<&[u8]> = bytes.chunks(1).collect();
    assert_eq!(pump(single), whole);
    assert!(whole.iter().any(|c| c.contains("héllo 你好")));
    assert!(whole[0].contains("\"created\":77"));
    assert!(whole[0].contains("\"model\":\"glm-5\""));
}

#[test]
fn broken_streams_end_with_the_mark() {
    let out = pump(vec![&TALK.as_bytes()[..100]]);
    assert_eq!(out.last().unwrap(), "data: [DONE]\n\n");
    let mut p = StreamPump::new("m");
    p.feed(b"data: \xff\xff");
    assert_eq!(p.finish().last().unwrap(), "data: [DONE]\n\n");
}

#[test]
fn messages_open_and_end_once() {
    let out = run(vec![
        "data: {\"type\":\"message_start\",\"message\":{\"id\":\"m\"}}\n\n",
        "data: {\"type\":\"message_start\",\"message\":{\"id\":\"m\"}}\n\n",
        "data: {\"type\":\"message_delta\",\"delta\":{\"stop_reason\":\"max_tokens\"}}\n\n",
        "data: {\"type\":\"message_stop\"}\n\n",
        "data: {\"type\":\"message_stop\"}\n\n",
    ]);
    assert_eq!(out.matches("\"role\":\"assistant\"").count(), 1);
    assert_eq!(out.matches("\"finish_reason\":\"length\"").count(), 1);
    assert_eq!(out.matches("\"finish_reason\":\"stop\"").count(), 0);
}

#[test]
fn calls_are_numbered_in_their_order() {
    let out = run(vec![
        "data: {\"type\":\"content_block_start\",\"index\":3,\"content_block\":{\"type\":\"tool_use\",\"id\":\"a\",\"name\":\"f\"}}\n\n",
        "data: {\"type\":\"content_block_start\",\"index\":5,\"content_block\":{\"type\":\"tool_use\",\"id\":\"b\",\"name\":\"g\"}}\n\n",
        "data: {\"type\":\"content_block_delta\",\"index\":3,\"delta\":{\"type\":\"input_json_delta\",\"partial_json\":\"xy\"}}\n\n",
    ]);
    let chunks: Vec<&str> = out.split("\n\n").collect();
    assert!(chunks[0].contains("\"index\":0") && chunks[0].contains("\"id\":\"a\""));
    assert!(chunks[1].contains("\"index\":1") && chunks[1].contains("\"id\":\"b\""));
    assert!(chunks[2].contains("\"arguments\":\"xy\""));
    assert!(!chunks[2].contains("\"index\":1"));
}

#[test]
fn events_are_read_from_frames() {
    let events = parse_sse_chunk("event: x\ndata: {\"a\":1}\ndata: nonsense\n: note\ndata:{\"b\":2}");
    assert_eq!(events.len(), 2);
    assert_eq!(fallback_model(&SseTranslator::new("glm")), "glm");
}

#[test]
fn finishing_is_a_blank_line() {
    let line = "data: {\"type\":\"message_start\",\"message\":{\"id\":\"m\"}}";
    for tail in ["", "\n", "\r\n", "\r", "\r\n\r", "\n  ", " "] {
        let text = format!("{line}{tail}");
        let mut ended = SseTranslator::new("x");
        let mut blank = SseTranslator::new("x");
        assert!(ended.feed_at(&text, 7).is_empty());
        let mut expected = blank.feed_at(&format!("{text}\n\n"), 7);
        assert_eq!(expected.len(), 1);
        expected.push("data: [DONE]\n\n".to_string());
        assert_eq!(ended.finish_at(7), expected);
        assert_eq!(ended.finish_at(7), vec!["data: [DONE]\n\n"]);
    }
    for text in ["data:\r\n", "data: \r\n", "\r\n", " \t", ""] {
        let mut t = SseTranslator::new("x");
        t.feed_at(text, 7);
        assert_eq!(t.finish_at(7), vec!["data: [DONE]\n\n"]);
    }
}

#[test]
fn first_ending_event_ends() {
    let mut t = SseTranslator::new("x");
    let events = [
        r#"{"type":"message_delta","delta":{},"usage":{"output_tokens":1}}"#,
        r#"{"type":"message_delta","delta":{"stop_reason":"tool_use"},"usage":{"output_tokens":5}}"#,
        r#"{"type":"message_delta","delta":{"stop_reason":"end_turn"}}"#,
        r#"{"type":"message_stop"}"#,
        r#"{"type":"content_block_delta","delta":{"type":"text_delta","text":"late"}}"#,
    ];
    let out: Vec<Option<String>> =
        events.iter().map(|e| t.translate_event(&parse(e).unwrap(), 9)).collect();
    assert!(out[0].is_none() && out[2].is_none() && out[3].is_none());
    let end = out[1].as_ref().unwrap();
    assert!(end.contains("\"finish_reason\":\"tool_calls\""));
    assert!(end.contains("\"completion_tokens\":5") && end.contains("\"created\":9"));
    let late = out[4].as_ref().unwrap();
    assert!(late.contains("\"finish_reason\":null") && !late.contains("usage"));
}

#[test]
fn blank_lines_are_found() {
    let find = |s: &str| next_frame_boundary(&s.chars().collect());
    assert_eq!(find("a\n\nb"), Some((1, 3)));
    assert_eq!(find("a\r\n\r\nb\n\n"), Some((1, 5)));
    assert_eq!(find("\u{e9}\r\rb"), Some((1, 3)));
    assert_eq!(find("a\r\nb\n"), None);
}

#[test]
fn ended_streams_hold_nothing() {
    let mut p = StreamPump::new("x");
    p.feed_at(b"data: {\"type\":\"message_start\"}\xc3", 3);
    assert_eq!(p.finish_at(3).len(), 1);
    assert_eq!(p.finish_at(3), vec!["data: [DONE]\n\n"]);
}
