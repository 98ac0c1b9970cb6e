use reqwest::header::{HeaderMap, HeaderValue};
use zcode_gateway::attempt::AttemptError;
use zcode_gateway::handler::{
    accept_encoding_for, batch_response, batch_response_at, new_session_id, no_account_response,
    open_log, plan_success, prepare, Failover, Mode, Outcome, Step,
};
use zcode_gateway::json::{parse, Json};
use zcode_gateway::pool::{PoolEntry, PoolSnapshot};
use zcode_gateway::reply::{
    error_response, finalize_headers, handle_list_models, raw_error_response, Format, Reply,
};
use zcode_gateway::headers::HeaderList;
use zcode_gateway::stream::StreamPump;

fn json(text: &str) -> Json {
    parse(text).unwrap()
}

fn entry(name: &str, reason: &str) -> PoolEntry {
    PoolEntry {
        account_id: name.into(),
        name: name.into(),
        provider: "zai".into(),
        plan: "coding-plan".into(),
        credential: "k.s".into(),
        jwt: String::new(),
        device_mid: None,
        messages_url: "https://u/v1/messages".into(),
        excluded: false,
        unusable_reason: reason.into(),
    }
}

fn error(status: u16, message: &str) -> AttemptError {
    AttemptError { status, error_type: "upstream_error".into(), message: message.into() }
}

fn run(candidates: Vec<PoolEntry>) -> Failover {
    Failover::new(candidates, open_log(9, "/v1/messages", Format::Anthropic, Some("{\"model\":\"m\"}")))
}

fn header(reply: Reply, name: &str) -> Option<String> {
    reply
        .headers
        .into_pairs()
        .into_iter()
        .find(|(k, _)| k == name)
        .map(|(_, v)| String::from_utf8(v).unwrap())
}

fn message_of(reply: &Reply) -> String {
    json(&reply.body).str_in("error", "message").unwrap().to_string()
}

#[test]
fn requests_are_prepared() {
    let out = prepare(
        Format::OpenAi,
        Some(r#"{"model":"m","messages":[{"role":"user","content":"hi"}],"max_tokens":5}"#),
    );
    assert_eq!(out.ok().unwrap().unwrap().u64_at("max_tokens"), Some(5));
    let out = prepare(Format::Anthropic, Some(r#"{"a":1}"#));
    assert_eq!(out.ok().unwrap().unwrap().render(), r#"{"a":1}"#);
    assert!(prepare(Format::Anthropic, Some("nonsense")).ok().unwrap().is_none());
    assert!(prepare(Format::Anthropic, None).ok().unwrap().is_none());
}

#[test]
fn requests_that_cannot_be_translated_are_refused() {
    let cases: Vec<(Option<&str>, &str)> = vec![
        (None, "OpenAI request body is empty; cannot translate."),
        (Some(""), "OpenAI request body is empty; cannot translate."),
        (Some("{"), "OpenAI request body is not valid JSON."),
        (
            Some("{}"),
            "OpenAI→Anthropic translation failed: OpenAI request is missing `model`",
        ),
    ];
    for (body, message) in cases {
        let reply = prepare(Format::OpenAi, body).err().unwrap();
        assert_eq!(reply.status, 400);
        assert_eq!(json(&reply.body).str_in("error", "type"), Some("translation_failed"));
        assert_eq!(message_of(&reply), message);
    }
}

#[test]
fn empty_pools_are_told() {
    let snap = PoolSnapshot { generated_at: 0, entries: vec![] };
    let reply = no_account_response(Format::OpenAi, &snap);
    assert_eq!(reply.status, 503);
    assert!(message_of(&reply).contains("账号池"));
    let snap = PoolSnapshot {
        generated_at: 0,
        entries: vec![entry("A", "x"), entry("B", ""), entry("C", "y")],
    };
    let reply = no_account_response(Format::Anthropic, &snap);
    assert_eq!(message_of(&reply), "账号池中没有可用账号。A: x；C: y");
    assert_eq!(json(&reply.body).str_in("error", "type"), Some("no_available_account"));
}

#[test]
fn encodings_follow_the_dialect() {
    let mut h = HeaderMap::new();
    assert_eq!(accept_encoding_for(Format::Anthropic, &h), "gzip");
    h.insert("Accept-Encoding", HeaderValue::from_static("br"));
    assert_eq!(accept_encoding_for(Format::Anthropic, &h), "br");
    assert_eq!(accept_encoding_for(Format::OpenAi, &h), "identity");
}

#[test]
fn sessions_have_ids() {
    let a = new_session_id();
    assert_eq!(a.len(), 36);
    assert_eq!(a.matches('-').count(), 4);
    assert_ne!(a, new_session_id());
}

#[test]
fn candidates_are_tried_in_order() {
    let mut f = run(vec![entry("A", ""), entry("B", "")]);
    assert_eq!(f.next(), Step::Try { index: 0, wait: false });
    assert_eq!(f.attempt(), 1);
    f.record(0, Outcome::Failed(error(429, "slow")));
    assert_eq!(f.next(), Step::Try { index: 1, wait: false });
    assert_eq!(f.candidate(1).name, "B");
    f.record(1, Outcome::Served(200));
    assert_eq!(f.next(), Step::Stop);
    let (log, reply) = f.finish(Format::Anthropic, 77);
    assert!(reply.is_none());
    assert_eq!(log.status, 200);
    assert_eq!(log.attempts, 2);
    assert_eq!(log.ms, 77);
    assert_eq!(log.account.as_deref(), Some("B"));
    assert_eq!(log.model, "m");
    assert!(log.error.is_none());
}

#[test]
fn at_most_three_accounts_are_tried() {
    let mut f = run(vec![entry("A", ""), entry("B", ""), entry("C", ""), entry("D", "")]);
    for i in 0..3 {
        assert_eq!(f.next(), Step::Try { index: i, wait: false });
        f.record(i, Outcome::Failed(error(500 + i as u16, &"x".repeat(300))));
    }
    assert_eq!(f.next(), Step::Stop);
    let (log, reply) = f.finish(Format::OpenAi, 1);
    let reply = reply.unwrap();
    assert_eq!(reply.status, 502);
    assert_eq!(message_of(&reply), "x".repeat(300));
    assert_eq!(log.error.unwrap(), "x".repeat(200));
    assert_eq!(log.attempts, 3);
}

#[test]
fn busy_accounts_are_waited_for_once() {
    let mut f = run(vec![entry("A", ""), entry("B", "")]);
    f.record(0, Outcome::Busy);
    f.record(1, Outcome::Busy);
    assert_eq!(f.next(), Step::Try { index: 0, wait: true });
    f.record(0, Outcome::Busy);
    assert_eq!(f.next(), Step::Stop);
    let (log, reply) = f.finish(Format::OpenAi, 1);
    let reply = reply.unwrap();
    assert_eq!(reply.status, 502);
    assert_eq!(message_of(&reply), "all upstream attempts failed");
    assert_eq!(log.status, 502);
    assert!(log.account.is_none());
    assert_eq!(log.attempts, 3);
}

#[test]
fn one_failure_among_busy_accounts_is_told() {
    let mut f = run(vec![entry("A", ""), entry("B", "")]);
    f.record(0, Outcome::Failed(error(401, "no")));
    f.record(1, Outcome::Busy);
    assert_eq!(f.next(), Step::Stop);
    let (log, reply) = f.finish(Format::OpenAi, 1);
    assert_eq!(reply.unwrap().status, 401);
    assert_eq!(log.status, 401);
}

#[test]
fn mistakes_of_the_client_end_the_request() {
    let mut f = run(vec![entry("A", ""), entry("B", "")]);
    f.record(0, Outcome::Surfaced);
    assert_eq!(f.next(), Step::Stop);
    let (log, reply) = f.finish(Format::OpenAi, 1);
    assert!(reply.is_none());
    assert_eq!(log.account.as_deref(), Some("A"));
    assert_eq!(log.status, 502);
}

#[test]
fn challenges_are_logged() {
    let f = run(vec![entry("A", "")]);
    let e = f.challenge_entry(0, "solve it");
    assert_eq!(e.status, 403);
    assert_eq!(e.error.as_deref(), Some("solve it"));
    assert_eq!(e.account.as_deref(), Some("A"));
    assert_eq!(e.format, "anthropic");
    assert_eq!(e.route, "/v1/messages");
}

fn upstream(content_type: &'static str) -> HeaderMap {
    let mut h = HeaderMap::new();
    h.insert("content-type", HeaderValue::from_static(content_type));
    h.insert("x-request-id", HeaderValue::from_static("r1"));
    h.insert("set-cookie", HeaderValue::from_static("secret"));
    h
}

const MESSAGE: &str = r#"{
    "id": "msg_mock", "type": "message", "role": "assistant",
    "content": [{ "type": "text", "text": "hello from mock" }],
    "model": "glm-4.6", "stop_reason": "end_turn", "stop_sequence": null,
    "usage": { "input_tokens": 10, "output_tokens": 5, "cache_read_input_tokens": 3 }
}"#;

#[test]
fn openai_batch_roundtrip() {
    let plan = plan_success(Format::OpenAi, 200, &upstream("application/json"), "Mock Account", 1);
    assert_eq!(plan.mode, Mode::Batch);
    let reply = batch_response(plan, MESSAGE.as_bytes(), "glm-4.6");
    assert_eq!(reply.status, 200);
    let out = json(&reply.body);
    assert_eq!(out.str_at("object"), Some("chat.completion"));
    let choice = &out.items_at("choices").unwrap()[0];
    assert_eq!(choice.str_in("message", "content"), Some("hello from mock"));
    assert_eq!(choice.str_at("finish_reason"), Some("stop"));
    let usage = out.get("usage").unwrap();
    assert_eq!(usage.u64_at("prompt_tokens"), Some(13));
    assert_eq!(usage.u64_at("completion_tokens"), Some(5));
}

#[test]
fn openai_stream_roundtrip() {
    let plan = plan_success(
        Format::OpenAi,
        201,
        &upstream("text/event-stream; charset=utf-8"),
        "Mock Account",
        2,
    );
    assert_eq!(plan.mode, Mode::Stream);
    assert_eq!(plan.status, 200);
    let sse = "event: message_start\n\
data: {\"type\":\"message_start\",\"message\":{\"id\":\"msg_mock\",\"model\":\"glm-4.6\",\"usage\":{\"input_tokens\":10}}}\n\n\
event: content_block_start\ndata: {\"type\":\"content_block_start\",\"index\":0,\"content_block\":{\"type\":\"text\",\"text\":\"\"}}\n\n\
event: content_block_delta\ndata: {\"type\":\"content_block_delta\",\"index\":0,\"delta\":{\"type\":\"text_delta\",\"text\":\"hello from mock\"}}\n\n\
event: content_block_stop\ndata: {\"type\":\"content_block_stop\",\"index\":0}\n\n\
event: message_delta\ndata: {\"type\":\"message_delta\",\"delta\":{\"stop_reason\":\"end_turn\"},\"usage\":{\"output_tokens\":5}}\n\n\
event: message_stop\ndata: {\"type\":\"message_stop\"}\n\n";
    let mut pump = StreamPump::new("glm-4.6");
    let mut text = pump.feed(sse.as_bytes()).concat();
    text.push_str(&pump.finish().concat());
    assert!(text.contains("chat.completion.chunk"));
    assert!(text.contains("hello from mock"));
    assert!(text.contains("[DONE]"));
    assert!(text.contains("x-zswitch") || text.contains("\"usage\""));
}

#[test]
fn anthropic_passthrough() {
    let plan = plan_success(Format::Anthropic, 200, &upstream("text/event-stream"), "Mock Account", 1);
    assert_eq!(plan.mode, Mode::Relay);
    assert_eq!(plan.status, 200);
    let pairs = plan.headers.into_pairs();
    let find = |name: &str| {
        pairs
            .iter()
            .find(|(k, _)| k == name)
            .map(|(_, v)| String::from_utf8(v.clone()).unwrap())
    };
    assert_eq!(find("x-zswitch-account").as_deref(), Some("Mock Account"));
    assert_eq!(find("x-zswitch-attempts").as_deref(), Some("1"));
    assert_eq!(find("content-type").as_deref(), Some("text/event-stream"));
    assert_eq!(find("x-request-id").as_deref(), Some("r1"));
    assert_eq!(find("set-cookie"), None);
}

#[test]
fn bodies_that_cannot_be_translated_are_told() {
    let plan = || plan_success(Format::OpenAi, 200, &upstream("application/json"), "A", 1);
    let reply = batch_response_at(plan(), b"<html>", "m", 0);
    assert_eq!(reply.status, 502);
    assert_eq!(message_of(&reply), "upstream returned non-JSON body: <html>");
    let reply = batch_response_at(plan(), br#"{"type":"error"}"#, "m", 0);
    assert_eq!(
        message_of(&reply),
        "upstream returned invalid Anthropic message: {\"type\":\"error\"}"
    );
    let reply = batch_response_at(plan(), br#"{"type":"message","role":"assistant"}"#, "m", 0);
    assert_eq!(
        message_of(&reply),
        "Anthropic→OpenAI translation failed: Anthropic response is missing `content`"
    );
    let reply = batch_response_at(plan(), MESSAGE.as_bytes(), "m", 123);
    assert_eq!(json(&reply.body).u64_at("created"), Some(123));
    assert_eq!(header(reply, "content-type").as_deref(), Some("application/json"));
}

#[test]
fn names_that_cannot_stand_in_a_header_are_left_out() {
    let h = finalize_headers(HeaderList::new(), &HeaderMap::new(), "账号", 12);
    assert_eq!(
        h.into_pairs(),
        vec![("x-zswitch-attempts".to_string(), b"12".to_vec())]
    );
    let h = finalize_headers(HeaderList::new(), &HeaderMap::new(), "a\u{7f}", 0);
    assert_eq!(h.into_pairs().len(), 1);
}

#[test]
fn client_errors_are_handed_on() {
    let reply = raw_error_response(Format::Anthropic, 400, "plain", "A", 1);
    assert_eq!((reply.status, reply.body.as_str()), (400, "plain"));
    assert_eq!(header(reply, "x-zswitch-account").as_deref(), Some("A"));
    let reply = raw_error_response(Format::OpenAi, 404, "plain", "A", 1);
    assert_eq!(message_of(&reply), "upstream rejected the request: plain");
    let reply = raw_error_response(Format::OpenAi, 404, r#"{"error":1}"#, "A", 1);
    assert_eq!(reply.body, r#"{"error":1}"#);
}

#[test]
fn server_smoke() {
    let reply = handle_list_models();
    assert_eq!(reply.status, 200);
    let models = json(&reply.body);
    assert_eq!(models.str_at("object"), Some("list"));
    assert!(models.items_at("data").unwrap().len() >= 10);
    assert_eq!(models.items_at("data").unwrap()[1].str_at("id"), Some("glm-4.6"));
    let snap = PoolSnapshot { generated_at: 0, entries: vec![] };
    assert_eq!(no_account_response(Format::OpenAi, &snap).status, 503);
    let reply = error_response(Format::Anthropic, 503, "t", "m");
    assert_eq!(reply.body, r#"{"error":{"message":"m","type":"t"}}"#);
    assert_eq!(header(reply, "content-type").as_deref(), Some("application/json"));
}
