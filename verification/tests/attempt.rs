use reqwest::header::{HeaderMap, HeaderValue};
use zcode_gateway::attempt::{
    attempt_body, attempt_body_at, control_credential, failure_kind_for_status, judge,
    judge_connect_failure, last_error_tuple, record_status_failure, Attempt, Phase, Rung, Verdict,
    TICKET_LOOKS,
};
use zcode_gateway::captcha::Ticket;
use zcode_gateway::identity::{resolve_values, EnvPromptInfo};
use zcode_gateway::json::{parse, Json};
use zcode_gateway::pool::{FailureKind, PoolEntry};
use zcode_gateway::reply::Format;
use zcode_gateway::signing::SignOutcome;
use zcode_gateway::upstream::{
    build_upstream_headers, metadata_user_id_for, new_trace_ids, peek_meta, should_strip,
    upstream_headers_with, TraceIds,
};

const REJECTED: &str = r#"{"msg":"VERIFY_SIGNATURE_INVALID"}"#;

fn json(text: &str) -> Json {
    parse(text).unwrap()
}

fn pair(name: &str, value: &str) -> (String, String) {
    (name.to_string(), value.to_string())
}

fn entry(plan: &str) -> PoolEntry {
    PoolEntry {
        account_id: "id".into(),
        name: "Acc".into(),
        provider: "zai".into(),
        plan: plan.into(),
        credential: "k.s".into(),
        jwt: "tok".into(),
        device_mid: Some("mid".into()),
        messages_url: "https://u/v1/messages".into(),
        excluded: false,
        unusable_reason: String::new(),
    }
}

fn env() -> EnvPromptInfo {
    EnvPromptInfo {
        cwd: "/".into(),
        platform: "linux".into(),
        shell: "sh".into(),
        os_version: "1".into(),
    }
}

fn verdict(rung: Rung, plan: &str, status: u16, body: &str) -> Verdict {
    judge(rung, &entry(plan), Format::Anthropic, status, &HeaderMap::new(), body, "solve", 1)
}

#[test]
fn statuses_are_sorted() {
    assert_eq!(failure_kind_for_status(401), Some(FailureKind::Unauthorized));
    assert_eq!(failure_kind_for_status(402), Some(FailureKind::PaymentRequired));
    assert_eq!(failure_kind_for_status(403), Some(FailureKind::Forbidden));
    assert_eq!(failure_kind_for_status(429), Some(FailureKind::RateLimited));
    assert_eq!(failure_kind_for_status(500), Some(FailureKind::ServerError));
    assert_eq!(failure_kind_for_status(599), Some(FailureKind::ServerError));
    assert_eq!(failure_kind_for_status(400), None);
    assert_eq!(failure_kind_for_status(404), None);
}

#[test]
fn failures_are_put_into_words() {
    let e = last_error_tuple(&entry("start-plan"), 500, &"é".repeat(400));
    assert_eq!(e.status, 500);
    assert_eq!(e.error_type, "upstream_error");
    assert_eq!(e.message, format!("Acc (zai start-plan): HTTP 500 {}", "é".repeat(300)));
    let r = record_status_failure(429, &"x".repeat(200)).unwrap();
    assert_eq!(r.kind, FailureKind::RateLimited);
    assert_eq!(r.message, format!("HTTP 429: {}", "x".repeat(120)));
    assert!(record_status_failure(400, "x").is_none());
}

#[test]
fn ladder_has_three_rungs() {
    let plan = "coding-plan";
    assert!(matches!(verdict(Rung::First(true), plan, 401, REJECTED), Verdict::Resign));
    assert!(matches!(verdict(Rung::Resigned(true), plan, 401, REJECTED), Verdict::GoBare));
    assert!(matches!(verdict(Rung::Resigned(false), plan, 401, REJECTED), Verdict::Failed(..)));
    assert!(matches!(verdict(Rung::Bare, plan, 401, REJECTED), Verdict::Failed(..)));
    assert!(matches!(verdict(Rung::First(false), plan, 401, REJECTED), Verdict::Failed(..)));
    assert!(matches!(verdict(Rung::First(true), plan, 401, "{}"), Verdict::Failed(..)));
    for rung in [Rung::First(true), Rung::Resigned(true), Rung::Bare] {
        assert!(matches!(verdict(rung, plan, 204, ""), Verdict::Served));
    }
}

#[test]
fn mistakes_of_the_client_are_surfaced() {
    for rung in [Rung::First(false), Rung::First(true), Rung::Resigned(true), Rung::Bare] {
        match verdict(rung, "coding-plan", 400, "bad") {
            Verdict::Surfaced(reply) => {
                assert_eq!((reply.status, reply.body.as_str()), (400, "bad"))
            }
            _ => panic!("the client made a mistake"),
        }
        match verdict(rung, "coding-plan", 429, "slow") {
            Verdict::Failed(report, error, asked) => {
                assert_eq!(report.kind, FailureKind::RateLimited);
                assert_eq!(error.status, 429);
                assert!(!asked);
            }
            _ => panic!("the account failed"),
        }
    }
}

#[test]
fn challenges_rest_the_account() {
    let mut headers = HeaderMap::new();
    headers.insert("x-aliyun-captcha-verify-param", HeaderValue::from_static("t"));
    let start = entry("start-plan");
    match judge(Rung::First(false), &start, Format::OpenAi, 400, &headers, "", "solve", 1) {
        Verdict::Failed(report, error, asked) => {
            assert_eq!(report.kind, FailureKind::Forbidden);
            assert_eq!(report.message, "solve");
            assert_eq!(error.status, 403);
            assert_eq!(error.error_type, "captcha_required");
            assert_eq!(error.message, "Acc: solve");
            assert!(asked);
        }
        _ => panic!("a challenge"),
    }
    let coding = entry("coding-plan");
    let v = judge(Rung::First(false), &coding, Format::OpenAi, 400, &headers, "", "solve", 1);
    assert!(matches!(v, Verdict::Surfaced(_)));
}

#[test]
fn lost_connections_are_failures() {
    for (rung, message) in [
        (Rung::First(true), "Acc: connect: reset"),
        (Rung::Resigned(true), "Acc: connect failed: reset"),
        (Rung::Bare, "Acc: connect failed: reset"),
    ] {
        match judge_connect_failure(rung, &entry("coding-plan"), "reset") {
            Verdict::Failed(report, error, asked) => {
                assert_eq!(report.kind, FailureKind::Network);
                assert_eq!(report.message, "connect: reset");
                assert_eq!(error.status, 502);
                assert_eq!(error.error_type, "upstream_unreachable");
                assert_eq!(error.message, message);
                assert!(!asked);
            }
            _ => panic!("the attempt failed"),
        }
    }
}

#[test]
fn coding_plans_climb_down_the_ladder() {
    let plain = vec![pair("a", "b")];
    let mut a = Attempt::new(&entry("coding-plan"), Format::OpenAi, 1);
    assert_eq!(a.phase(), Phase::Admission);
    a.enter(Some(plain.clone()));
    a.route(true, "https://routed".into());
    assert_eq!(a.url(), "https://routed");
    assert_eq!(a.phase(), Phase::Signing);
    a.sign(Some(SignOutcome { pairs: vec![pair("sig", "1")], signed: true }));
    assert_eq!(a.phase(), Phase::Sending(Rung::First(true)));
    assert_eq!(a.outgoing(), &vec![pair("sig", "1")]);
    assert!(matches!(a.answer(401, &HeaderMap::new(), REJECTED, ""), Verdict::Resign));
    assert_eq!(a.phase(), Phase::Resigning);
    a.sign(Some(SignOutcome { pairs: vec![pair("sig", "2")], signed: true }));
    assert_eq!(a.phase(), Phase::Sending(Rung::Resigned(true)));
    assert!(matches!(a.answer(401, &HeaderMap::new(), REJECTED, ""), Verdict::GoBare));
    assert_eq!(a.phase(), Phase::Sending(Rung::Bare));
    assert_eq!(a.outgoing(), &plain);
    assert_eq!(a.plain(), &plain);
    assert!(matches!(a.answer(200, &HeaderMap::new(), "", ""), Verdict::Served));
    assert_eq!(a.phase(), Phase::Over);
}

#[test]
fn start_plans_look_for_tickets() {
    let mut a = Attempt::new(&entry("start-plan"), Format::OpenAi, 1);
    a.enter(Some(vec![pair("a", "b")]));
    a.route(false, String::new());
    assert_eq!(a.url(), "https://u/v1/messages");
    let mut waits = 0;
    loop {
        assert_eq!(a.phase(), Phase::Looking(waits));
        let urgent = a.look(None);
        assert_eq!(urgent, waits == 0);
        if a.phase() != Phase::Pausing(waits) {
            break;
        }
        a.wake();
        waits += 1;
    }
    assert_eq!(waits, TICKET_LOOKS);
    assert_eq!(a.phase(), Phase::Sending(Rung::First(false)));
    assert_eq!(a.outgoing().len(), 1);

    let mut a = Attempt::new(&entry("start-plan"), Format::OpenAi, 1);
    a.enter(Some(vec![pair("a", "b")]));
    a.route(false, String::new());
    let t = Ticket { verify_param: "p".into(), region: None, created_at: 0 };
    assert!(!a.look(Some(t)));
    assert_eq!(a.outgoing()[1], pair("x-aliyun-captcha-verify-param", "p"));
    assert!(matches!(a.miss("gone"), Verdict::Failed(..)));
    assert_eq!(a.phase(), Phase::Over);
}

#[test]
fn accounts_without_room_end_their_attempt() {
    let mut a = Attempt::new(&entry("coding-plan"), Format::OpenAi, 1);
    a.enter(None);
    assert_eq!(a.phase(), Phase::Over);
    let mut a = Attempt::new(&entry("coding-plan"), Format::OpenAi, 1);
    a.enter(Some(vec![pair("x", "y")]));
    a.route(false, String::new());
    a.sign(None);
    assert_eq!(a.phase(), Phase::Sending(Rung::First(false)));
    assert_eq!(a.outgoing(), &vec![pair("x", "y")]);
}

#[test]
fn accounts_send_their_own_body() {
    let data = json("{}");
    let request = json(r#"{"model":"m","messages":[],"metadata":{"user_id":"client"}}"#);
    let e = entry("coding-plan");
    let body = attempt_body_at(Some(&request), None, &e, "s1", &data, &env(), "2026-01-01");
    let id = json(&body).str_in("metadata", "user_id").unwrap().to_string();
    assert_eq!(json(&id).str_at("device_id"), Some("mid"));
    assert_eq!(json(&id).str_at("session_id"), Some("s1"));
    assert_eq!(metadata_user_id_for(&e, "s1"), id);
    let start = attempt_body(Some(&request), None, &entry("start-plan"), "s1", &data, &env());
    assert_eq!(json(&start).items_at("system").unwrap().len(), 3);
    assert_eq!(attempt_body(Some(&json("[1]")), None, &e, "s", &data, &env()), "[1]");
    assert_eq!(attempt_body(None, Some("raw"), &e, "s", &data, &env()), "raw");
    assert_eq!(attempt_body(None, None, &e, "s", &data, &env()), "");
    assert_eq!(control_credential(&e).as_deref(), Some("k.s"));
    assert_eq!(control_credential(&entry("start-plan")), None);
}

fn ids() -> TraceIds {
    TraceIds { request: "r".into(), trace: "t".into(), query: "q".into(), session: "s".into() }
}

#[test]
fn requests_bear_their_headers() {
    let v = resolve_values("1.0", "linux", "linux", "x86_64", None, "en".into(), "UTC".into());
    let mut inbound = HeaderMap::new();
    inbound.insert("anthropic-beta", HeaderValue::from_static("flag"));
    inbound.insert("authorization", HeaderValue::from_static("Bearer client"));
    let h = upstream_headers_with(&entry("coding-plan"), &inbound, "identity", &v, &ids());
    assert_eq!(h[0], pair("content-type", "application/json"));
    assert_eq!(h[1], pair("accept-encoding", "identity"));
    assert_eq!(h[2], pair("anthropic-beta", "flag"));
    assert!(h.contains(&pair("User-Agent", "ZCode/1.0 ai-sdk/anthropic/3.0.81")));
    assert!(h.contains(&pair("x-session-id", "s")));
    assert!(h.contains(&pair("x-api-key", "k.s")));
    assert!(h.contains(&pair("authorization", "Bearer k.s")));
    assert!(!h.contains(&pair("authorization", "Bearer client")));
    assert_eq!(h.last().unwrap(), &pair("anthropic-version", "2023-06-01"));
    let h = upstream_headers_with(&entry("start-plan"), &inbound, "gzip", &v, &ids());
    assert!(!h.iter().any(|(k, _)| k == "x-session-id" || k == "x-query-id" || k == "x-api-key"));
    assert!(h.contains(&pair("authorization", "Bearer tok")));
    let h = build_upstream_headers(&entry("coding-plan"), &HeaderMap::new(), "gzip", &v);
    let session = &h.iter().find(|(k, _)| k == "x-session-id").unwrap().1;
    assert_eq!(session.len(), 36);
    let fresh = new_trace_ids();
    assert_ne!(fresh.request, fresh.trace);
}

#[test]
fn headers_of_clients_are_stripped() {
    for name in ["Host", "x-api-key", "X-Client-Sig", "accept-encoding"] {
        assert!(should_strip(name), "{name}");
    }
    assert!(!should_strip("anthropic-beta"));
    assert!(!should_strip("accept"));
}

#[test]
fn bodies_are_peeked_at() {
    assert_eq!(peek_meta(Some(r#"{"model":"m","stream":true}"#)), ("m".to_string(), true));
    assert_eq!(peek_meta(Some(r#"{"model":1}"#)), ("-".to_string(), false));
    assert_eq!(peek_meta(Some("x")), ("-".to_string(), false));
    assert_eq!(peek_meta(None), ("-".to_string(), false));
}
