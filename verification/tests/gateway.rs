use zcode_gateway::gateway::{
    is_running, pool_status_value, running_status, stopped_status, GatewayConfig, GatewayRuntime,
    Settings, TicketPool, DEFAULT_PORT,
};
use zcode_gateway::pool::PoolStatusEntry;

fn account() -> PoolStatusEntry {
    PoolStatusEntry {
        account_id: "a1".into(),
        name: "One".into(),
        provider: "zai".into(),
        plan: "coding-plan".into(),
        usable: true,
        excluded: false,
        unusable_reason: String::new(),
        cooling: false,
        last_error: None,
        total: 3,
        ok: 2,
        fail: 1,
    }
}

#[test]
fn config_from_settings_defaults() {
    let s = Settings::default();
    let cfg = GatewayConfig::from_settings(&s);
    assert!(!cfg.enabled);
    assert_eq!(cfg.port, DEFAULT_PORT);
    assert!(cfg.api_key.is_none());
}

#[test]
fn settings_take_effect() {
    let mut s = Settings::default();
    s.gateway_enabled = Some(true);
    s.gateway_port = Some(9000);
    s.gateway_api_key = Some("  ".into());
    s.gateway_per_account_concurrency = Some(7);
    let cfg = GatewayConfig::from_settings(&s);
    assert!(cfg.enabled);
    assert_eq!(cfg.host, "127.0.0.1");
    assert_eq!(cfg.port, 9000);
    assert_eq!(cfg.per_account_concurrency, 7);
    assert!(!cfg.has_key());
    assert_eq!(cfg.listen_address(), "127.0.0.1:9000");
    assert_eq!(cfg.listen_error("in use"), "端口 127.0.0.1:9000 监听失败：in use");
}

#[test]
fn stopped_gateway_tells_its_configuration() {
    let cfg = GatewayConfig::from_settings(&Settings::default());
    let v = stopped_status(&cfg);
    assert_eq!(v.bool_at("running"), Some(false));
    assert_eq!(v.u64_at("port"), Some(8317));
    assert_eq!(v.bool_at("apiKeySet"), Some(false));
    assert_eq!(v.u64_at("perAccountConcurrency"), Some(3));
    assert!(v.get("accounts").is_none());
    assert!(!is_running(&GatewayRuntime { config: None }));
    assert!(is_running(&GatewayRuntime { config: Some(cfg) }));
}

#[test]
fn running_gateway_tells_of_its_accounts() {
    let mut s = Settings::default();
    s.gateway_api_key = Some("k".into());
    let cfg = GatewayConfig::from_settings(&s);
    let tickets = TicketPool { size: 1, min: 2, max: 4, urgent: true };
    let v = running_status(&cfg, true, tickets, &vec![account()]);
    assert_eq!(v.bool_at("running"), Some(true));
    assert_eq!(v.str_at("host"), Some("127.0.0.1"));
    assert_eq!(v.bool_at("apiKeySet"), Some(true));
    assert_eq!(v.bool_at("captchaPending"), Some(true));
    assert_eq!(v.get_in("captchaPool", "max").unwrap().as_u64(), Some(4));
    let a = &v.items_at("accounts").unwrap()[0];
    assert_eq!(a.str_at("name"), Some("One"));
    assert_eq!(a.u64_at("total"), Some(3));
    assert!(a.get("last_error").unwrap().is_null());
    assert_eq!(pool_status_value(&vec![]).render(), "{\"accounts\":[]}");
}
