use reqwest::header::{HeaderMap, HeaderValue};
use zcode_gateway::captcha::{
    begin_interactive, end_interactive, has_fresh_ticket, is_challenge, store_ticket, take_ticket,
    ticket_headers, wait_ticket, CaptchaDesk, Ticket, WaitStep, TICKET_TTL_MS,
};

#[test]
fn challenge_detection() {
    let mut headers = HeaderMap::new();
    assert!(!is_challenge(200, &headers, "{}"));
    headers.insert("x-aliyun-captcha-verify-param", HeaderValue::from_static("challenge-token"));
    assert!(is_challenge(403, &headers, "ignored"));
    let mut empty = HeaderMap::new();
    empty.insert("x-aliyun-captcha-verify-param", HeaderValue::from_static(""));
    assert!(!is_challenge(403, &empty, "ok"));
    assert!(is_challenge(400, &empty, "{\"code\":3007,\"msg\":\"need captcha\"}"));
    assert!(is_challenge(400, &empty, "captcha verify failed"));
    assert!(!is_challenge(400, &empty, "normal error"));
}

#[test]
fn challenges_by_code_are_bad_requests() {
    let none = HeaderMap::new();
    assert!(is_challenge(400, &none, "{\"code\": 3007}"));
    assert!(!is_challenge(403, &none, "{\"code\":3007}"));
    assert!(is_challenge(403, &none, "Captcha Verify Failed"));
}

#[test]
fn ticket_store_and_wait() {
    let mut desk = CaptchaDesk::new();
    assert!(store_ticket(&mut desk, "abc", Some("cn".into()), 1_000));
    assert!(has_fresh_ticket(&desk, 1_000));
    let t = match wait_ticket(&mut desk, 1_000, 1_100) {
        WaitStep::Ready(t) => t,
        _ => panic!("a ticket was kept"),
    };
    assert_eq!(t.verify_param, "abc");
    assert!(!has_fresh_ticket(&desk, 1_000), "single-use");
    assert!(store_ticket(&mut desk, "def", None, 1_200));
    let t = match wait_ticket(&mut desk, 1_200, 1_250) {
        WaitStep::Ready(t) => t,
        _ => panic!("a ticket was kept"),
    };
    assert_eq!(t.verify_param, "def");
}

#[test]
fn waiting_ends_at_the_deadline() {
    let mut desk = CaptchaDesk::new();
    assert!(matches!(wait_ticket(&mut desk, 10, 60), WaitStep::Wait(50)));
    assert!(matches!(wait_ticket(&mut desk, 60, 60), WaitStep::TimedOut));
}

#[test]
fn tickets_expire() {
    let mut desk = CaptchaDesk::new();
    store_ticket(&mut desk, " p ", None, 0);
    assert!(has_fresh_ticket(&desk, TICKET_TTL_MS - 1));
    assert!(!has_fresh_ticket(&desk, TICKET_TTL_MS));
    assert!(take_ticket(&mut desk, TICKET_TTL_MS).is_none());
    assert!(take_ticket(&mut desk, 0).is_none());
}

#[test]
fn blank_tickets_are_ignored() {
    let mut desk = CaptchaDesk::new();
    assert!(!store_ticket(&mut desk, "  ", None, 0));
    assert!(!has_fresh_ticket(&desk, 0));
}

#[test]
fn one_of_many_requests_asks() {
    let mut desk = CaptchaDesk::new();
    assert!(begin_interactive(&mut desk));
    assert!(!begin_interactive(&mut desk));
    assert!(desk.interactive_pending());
    end_interactive(&mut desk);
    assert!(begin_interactive(&mut desk));
    store_ticket(&mut desk, "t", None, 0);
    assert!(!desk.interactive_pending());
}

#[test]
fn tickets_become_headers() {
    let t = Ticket { verify_param: "p".into(), region: Some("cn".into()), created_at: 0 };
    assert_eq!(
        ticket_headers(&t),
        vec![
            ("x-aliyun-captcha-verify-param".to_string(), "p".to_string()),
            ("x-aliyun-captcha-verify-region".to_string(), "cn".to_string()),
        ]
    );
    let t = Ticket { verify_param: "p".into(), region: Some(" ".into()), created_at: 0 };
    assert_eq!(ticket_headers(&t).len(), 1);
}
