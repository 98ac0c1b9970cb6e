use std::time::Duration;
use zcode_gateway::json::{parse, Json};
use zcode_gateway::pool::{
    build_entries, cooldown_for_failure, decrypt_field, jwt_is_expired, permit_count, AccountPool,
    AccountRecord, FailureKind, PoolEntry, POOL_TTL_MS,
};

fn json(text: &str) -> Json {
    parse(text).unwrap()
}

fn account(id: &str, name: &str, payload: &str) -> AccountRecord {
    AccountRecord {
        id: id.into(),
        name: name.into(),
        active_provider: Some("zai".into()),
        jwt: Some("h.eyJleHAiOjk5OTk5OTk5OTl9.s".into()),
        jwt_payload: parse(payload),
        config: None,
        virtual_device_mid: None,
    }
}

fn entry(id: &str) -> PoolEntry {
    PoolEntry {
        account_id: id.into(),
        name: id.into(),
        provider: "zai".into(),
        plan: "coding-plan".into(),
        credential: "k.s".into(),
        jwt: String::new(),
        device_mid: None,
        messages_url: "https://u".into(),
        excluded: false,
        unusable_reason: String::new(),
    }
}

fn ids(list: &[PoolEntry]) -> Vec<&str> {
    list.iter().map(|e| e.account_id.as_str()).collect()
}

#[test]
fn cooldown_semantics() {
    assert_eq!(cooldown_for_failure(FailureKind::BadRequest), Duration::ZERO);
    assert!(
        cooldown_for_failure(FailureKind::Unauthorized)
            > cooldown_for_failure(FailureKind::RateLimited)
    );
    assert!(
        cooldown_for_failure(FailureKind::RateLimited)
            > cooldown_for_failure(FailureKind::ServerError)
    );
}

#[test]
fn cooldowns_have_their_lengths() {
    assert_eq!(cooldown_for_failure(FailureKind::Unauthorized), Duration::from_secs(300));
    assert_eq!(cooldown_for_failure(FailureKind::PaymentRequired), Duration::from_secs(120));
    assert_eq!(cooldown_for_failure(FailureKind::Forbidden), Duration::from_secs(120));
    assert_eq!(cooldown_for_failure(FailureKind::RateLimited), Duration::from_secs(30));
    assert_eq!(cooldown_for_failure(FailureKind::ServerError), Duration::from_secs(15));
    assert_eq!(cooldown_for_failure(FailureKind::Network), Duration::from_secs(15));
}

#[test]
fn excluded_accounts_leave_the_pool() {
    let accounts = vec![
        account("aaa", "A", r#"{"exp":9999999999}"#),
        account("bbb", "B", r#"{"exp":9999999999}"#),
    ];
    let entries = build_entries(&accounts, &vec!["bbb".to_string()], 1_700_000_000_000_000_000);
    let mut pool = AccountPool::new();
    let snap = pool.refresh(entries, 0);
    assert_eq!(snap.entries.len(), 2);
    let bbb = snap.entries.iter().find(|e| e.account_id == "bbb").unwrap();
    let aaa = snap.entries.iter().find(|e| e.account_id == "aaa").unwrap();
    assert!(bbb.excluded && !bbb.unusable_reason.is_empty());
    assert!(!aaa.excluded && aaa.unusable_reason.is_empty());

    let cands = pool.pick_candidates(&snap, 5, 0);
    assert_eq!(cands.len(), 1);
    assert_eq!(cands[0].account_id, "aaa");
}

#[test]
fn coding_plans_come_first() {
    let mut a = account("a", "A", "{}");
    a.config = Some(json(
        r#"{"provider":{"builtin:zai-coding-plan":{"options":{"apiKey":" id.sec "}}}}"#,
    ));
    a.virtual_device_mid = Some("mid".into());
    let entries = build_entries(&vec![a], &vec![], 0);
    assert_eq!(entries[0].plan, "coding-plan");
    assert_eq!(entries[0].credential, "id.sec");
    assert_eq!(entries[0].jwt, "");
    assert_eq!(entries[0].messages_url, "https://api.z.ai/api/anthropic/v1/messages");
    assert_eq!(entries[0].device_mid.as_deref(), Some("mid"));
}

#[test]
fn accounts_without_credentials_cannot_be_used() {
    let mut a = account("a", "A", "{}");
    a.jwt = Some("  ".into());
    a.active_provider = Some("other".into());
    let entries = build_entries(&vec![a], &vec![], 0);
    assert_eq!(entries[0].plan, "none");
    assert_eq!(entries[0].provider, "bigmodel");
    assert_eq!(entries[0].unusable_reason, "无可用的 coding-plan key 或 start-plan JWT");
}

#[test]
fn expired_tokens_cannot_be_used() {
    let a = account("a", "A", r#"{"exp":1700000000}"#);
    let entries = build_entries(&vec![a], &vec![], 1_700_000_000_000_000_001);
    assert_eq!(entries[0].plan, "start-plan");
    assert_eq!(entries[0].unusable_reason, "start-plan JWT 已过期（重新登录后刷新）");
    assert!(!jwt_is_expired(&parse(r#"{"exp":1700000000}"#), 1_700_000_000_000_000_000));
    assert!(jwt_is_expired(&parse(r#"{"exp":1700000000.5}"#), 1_700_000_000_500_000_001));
    assert!(!jwt_is_expired(&parse(r#"{"exp":1700000000.5}"#), 1_700_000_000_500_000_000));
    assert!(jwt_is_expired(&parse(r#"{"exp":-1}"#), 0));
    assert!(!jwt_is_expired(&parse(r#"{"exp":"soon"}"#), u64::MAX));
    assert!(!jwt_is_expired(&None, u64::MAX));
    assert!(jwt_is_expired(&parse(r#"{"exp":1e-300}"#), 1));
    assert!(!jwt_is_expired(&parse(r#"{"exp":0}"#), 0));
    assert!(!jwt_is_expired(&parse(r#"{"exp":1e300}"#), u64::MAX));
}

#[test]
fn stored_credentials_are_opened() {
    let creds = json(r#"{"k":"v"}"#);
    assert_eq!(decrypt_field(&creds, "k", false, None).as_deref(), Some("v"));
    assert_eq!(decrypt_field(&creds, "k", true, Some("w".into())).as_deref(), Some("w"));
    assert_eq!(decrypt_field(&creds, "k", true, None), None);
    assert_eq!(decrypt_field(&creds, "x", false, Some("w".into())), None);
}

#[test]
fn candidates_rotate() {
    let mut pool = AccountPool::new();
    let snap = pool.refresh(vec![entry("a"), entry("b"), entry("c")], 0);
    assert_eq!(ids(&pool.pick_candidates(&snap, 2, 0)), vec!["a", "b"]);
    assert_eq!(ids(&pool.pick_candidates(&snap, 2, 0)), vec!["b", "c"]);
    assert_eq!(ids(&pool.pick_candidates(&snap, 9, 0)), vec!["c", "a", "b"]);
}

#[test]
fn resting_accounts_come_last() {
    let mut pool = AccountPool::new();
    let snap = pool.refresh(vec![entry("a"), entry("b")], 0);
    pool.report_failure("a", FailureKind::Unauthorized, "x".into(), 0);
    assert_eq!(ids(&pool.pick_candidates(&snap, 2, 0)), vec!["b", "a"]);
    assert_eq!(ids(&pool.pick_candidates(&snap, 2, 0)), vec!["b", "a"]);
    assert_eq!(ids(&pool.pick_candidates(&snap, 1, 0)), vec!["b"]);
    pool.report_failure("b", FailureKind::Unauthorized, "x".into(), 0);
    assert_eq!(ids(&pool.pick_candidates(&snap, 2, 0)), vec!["b", "a"]);
    assert_eq!(ids(&pool.pick_candidates(&snap, 2, 0)), vec!["a", "b"]);
    let snap = pool.refresh(vec![entry("a"), entry("b"), entry("c"), entry("d")], 600_000);
    pool.clear_cooldown("b", 0);
    pool.report_failure("a", FailureKind::Unauthorized, "x".into(), 600_000);
    assert_eq!(ids(&pool.pick_candidates(&snap, 9, 600_000)), vec!["d", "b", "c", "a"]);
    assert_eq!(ids(&pool.pick_candidates(&snap, 3, 600_000)), vec!["b", "c", "d"]);
}

#[test]
fn every_account_comes_first_once() {
    let mut pool = AccountPool::new();
    let snap = pool.refresh(vec![entry("a"), entry("b"), entry("c")], 0);
    let mut firsts: Vec<String> = vec![];
    for i in 0..3 {
        let picked = pool.pick_candidates(&snap, 2, i);
        assert_ne!(picked[0].account_id, picked[1].account_id);
        firsts.push(picked[0].account_id.clone());
    }
    firsts.sort();
    assert_eq!(firsts, vec!["a", "b", "c"]);
}

#[test]
fn failures_rest_and_successes_restore() {
    let mut pool = AccountPool::new();
    let snap = pool.refresh(vec![entry("a"), entry("b")], 0);
    pool.report_failure("a", FailureKind::RateLimited, "slow down".into(), 1_000);
    assert_eq!(ids(&pool.pick_candidates(&snap, 2, 1_000)), vec!["b", "a"]);
    let status = pool.status(&snap, 30_999);
    assert!(status[0].cooling);
    assert_eq!(status[0].last_error.as_deref(), Some("slow down"));
    assert!(!pool.status(&snap, 31_000)[0].cooling);
    pool.report_success("a", 2_000);
    let status = pool.status(&snap, 2_000);
    assert!(!status[0].cooling);
    assert_eq!((status[0].total, status[0].ok, status[0].fail), (2, 1, 1));
    assert!(status[0].last_error.is_none());
    pool.report_failure("b", FailureKind::Unauthorized, "no".into(), 0);
    pool.clear_cooldown("b", 5);
    assert!(!pool.status(&snap, 5)[1].cooling);
    assert!(pool.can_count("b"));
}

#[test]
fn snapshots_stay_fresh_for_a_while() {
    let mut pool = AccountPool::new();
    assert!(pool.snapshot(0).is_none());
    pool.refresh(vec![entry("a")], 100);
    assert_eq!(pool.snapshot(100 + POOL_TTL_MS - 1).unwrap().entries.len(), 1);
    assert!(pool.snapshot(100 + POOL_TTL_MS).is_none());
    let late = pool.refresh(vec![], 200);
    assert!(late.entries.is_empty());
    assert_eq!(pool.snapshot(200).unwrap().entries.len(), 1);
}

#[test]
fn every_account_has_room_for_one() {
    assert_eq!(permit_count(0), 1);
    assert_eq!(permit_count(3), 3);
}
