use reqwest::header::{HeaderMap, HeaderValue};
use zcode_gateway::json::parse;
use zcode_gateway::pool::PoolEntry;
use zcode_gateway::repair::{
    access_token_key, anthropic_base_for, auth_to_present, can_hold_plans, coding_key_present,
    heal_config, healed_entry, plan_request, provider_to_heal, token_to_heal, wait_before_pass,
    wants_business_token,
};
use zcode_gateway::server::{
    check_proxy_key, cors_headers, health, is_admitted, key_to_ask, refusal,
};

fn entry(reason: &str) -> PoolEntry {
    PoolEntry {
        account_id: "a".into(),
        name: "A".into(),
        provider: "zai".into(),
        plan: "none".into(),
        credential: String::new(),
        jwt: String::new(),
        device_mid: None,
        messages_url: String::new(),
        excluded: false,
        unusable_reason: reason.into(),
    }
}

fn with(name: &'static str, value: &[u8]) -> HeaderMap {
    let mut h = HeaderMap::new();
    h.insert(name, HeaderValue::from_bytes(value).unwrap());
    h
}

#[test]
fn server_requires_api_key() {
    let key = Some("sk-secret".to_string());
    assert!(!is_admitted(&key, &HeaderMap::new()));
    assert!(is_admitted(&key, &with("authorization", b"Bearer sk-secret")));
    assert!(is_admitted(&key, &with("x-api-key", b"sk-secret")));
    assert!(!is_admitted(&key, &with("x-api-key", b"sk-secret2")));
    assert!(is_admitted(&None, &HeaderMap::new()));
    assert!(is_admitted(&Some(String::new()), &HeaderMap::new()));
}

#[test]
fn first_header_hides_the_other() {
    let key = Some("k".to_string());
    let mut h = with("x-api-key", b"k");
    assert!(is_admitted(&key, &h));
    h.insert("authorization", HeaderValue::from_bytes(b"\xe9").unwrap());
    assert!(!is_admitted(&key, &h));
}

#[test]
fn keys_are_compared_without_their_prefix() {
    assert!(check_proxy_key("  Bearer  abc ", "abc"));
    assert!(check_proxy_key("abc", "abc"));
    assert!(!check_proxy_key("bearer abc", "abc"));
    assert!(!check_proxy_key("", "abc"));
}

#[test]
fn blank_keys_ask_for_none() {
    assert_eq!(key_to_ask(&None), None);
    assert_eq!(key_to_ask(&Some("  ".into())), None);
    assert_eq!(key_to_ask(&Some(" k ".into())).as_deref(), Some("k"));
}

#[test]
fn refusals_have_an_envelope() {
    assert_eq!(
        refusal().render(),
        r#"{"error":{"message":"Invalid or missing proxy API key","type":"authentication_error"}}"#
    );
}

#[test]
fn other_origins_are_let_in() {
    let h = cors_headers();
    assert_eq!(h[0], ("access-control-allow-origin", "*"));
    assert_eq!(h[3], ("access-control-max-age", "86400"));
    assert_eq!(h.len(), 4);
}

#[test]
fn health_counts_accounts() {
    assert_eq!(
        health(&vec![entry(""), entry("no"), entry("")]).render(),
        r#"{"accounts":{"total":3,"usable":2},"service":"zcode-switch-gateway","status":"ok"}"#
    );
}

#[test]
fn accounts_to_heal_are_chosen() {
    assert_eq!(provider_to_heal(None).as_deref(), Some("bigmodel"));
    assert_eq!(provider_to_heal(Some("zai".into())).as_deref(), Some("zai"));
    assert_eq!(provider_to_heal(Some("x".into())), None);
    assert_eq!(access_token_key("zai"), "oauth:zai:access_token");
    assert_eq!(token_to_heal(&None, "zai", Some(" t ")).as_deref(), Some("t"));
    assert_eq!(token_to_heal(&None, "zai", Some(" ")), None);
    assert_eq!(token_to_heal(&None, "zai", None), None);
    let config = parse(r#"{"provider":{"builtin:zai-coding-plan":{"options":{"apiKey":"k"}}}}"#);
    assert!(coding_key_present(&config, "zai"));
    assert!(!coding_key_present(&config, "bigmodel"));
    assert_eq!(token_to_heal(&config, "zai", Some("t")), None);
}

#[test]
fn business_tokens_are_presented() {
    assert!(wants_business_token("zai"));
    assert!(!wants_business_token("bigmodel"));
    let auth = auth_to_present("zai", "a".into(), Some("b".into()));
    assert_eq!(auth.as_deref(), Some("Bearer b"));
    assert_eq!(auth_to_present("zai", "a".into(), None), None);
    assert_eq!(auth_to_present("bigmodel", "a".into(), None).as_deref(), Some("a"));
    assert_eq!(anthropic_base_for("zai"), "https://api.z.ai/api/anthropic");
    assert_eq!(anthropic_base_for("x"), "https://open.bigmodel.cn/api/anthropic");
}

#[test]
fn configurations_are_healed_once() {
    let config = parse(r#"{"theme":1,"provider":{"mine":2}}"#);
    let healed = heal_config(&config, "bigmodel", "key").unwrap();
    assert_eq!(
        healed.render(),
        r#"{"provider":{"builtin:bigmodel-coding-plan":{"enabled":true,"kind":"anthropic","name":"BigModel - Coding Plan","options":{"apiKey":"key","baseURL":"https://open.bigmodel.cn/api/anthropic"},"source":"custom"},"mine":2},"theme":1}"#
    );
    assert!(heal_config(&Some(healed), "bigmodel", "other").is_none());
    assert!(heal_config(&parse("[]"), "zai", "k").is_none());
    let fresh = Some(heal_config(&None, "zai", "k").unwrap());
    assert!(coding_key_present(&fresh, "zai"));
    let null = Some(heal_config(&parse(r#"{"provider":null}"#), "zai", "k").unwrap());
    assert!(coding_key_present(&null, "zai"));
    assert!(can_hold_plans(&None));
    assert!(!can_hold_plans(&parse(r#"{"provider":7}"#)));
}

#[test]
fn healing_is_logged_and_paced() {
    let e = healed_entry(5, "A", "zai");
    assert_eq!(e.ts, 5);
    assert_eq!(e.route, "repair");
    assert_eq!(e.model, "coding-plan key");
    assert_eq!(e.account.as_deref(), Some("A"));
    assert_eq!(e.plan.as_deref(), Some("coding-plan"));
    assert_eq!(e.status, 200);
    assert_eq!(e.attempts, 1);
    assert_eq!(wait_before_pass(true), 5);
    assert_eq!(wait_before_pass(false), 90);
}

#[test]
fn providers_are_asked_at_their_address() {
    assert_eq!(plan_request("zai"), (true, true));
    assert_eq!(plan_request("bigmodel"), (false, false));
}
