use zcode_gateway::json::{parse, Json};
use zcode_gateway::routing::{
    base_url, parse_mapping, refresh_headers, routing_key, EndpointRoutingService, RouteStep,
};
use zcode_gateway::url::{origin_of, parse as parse_url};

fn json(text: &str) -> Json {
    parse(text).unwrap()
}

const TABLE: &str = r#"{
    "code": 0,
    "data": { "proxyEndpoint": { "mapping": [
        { "from": "https://api.z.ai/api/anthropic/v1/messages",
          "to": "https://zcode.z.ai/api/v1/ultra-zai/v1/messages" }
    ]}}
}"#;

#[test]
fn routing_key_normalization() {
    assert_eq!(
        routing_key("https://api.z.ai/api/anthropic/v1/messages").as_deref(),
        Some("https://api.z.ai:443/api/anthropic/v1/messages")
    );
    assert_eq!(
        routing_key("https://API.Z.AI:443/api/anthropic/v1/messages/").as_deref(),
        Some("https://api.z.ai:443/api/anthropic/v1/messages")
    );
    assert_eq!(
        routing_key("http://example.com:8080/x").as_deref(),
        Some("http://example.com:8080/x")
    );
    assert!(routing_key("not-a-url").is_none());
}

#[test]
fn mapping_parse() {
    let map = parse_mapping(&json(TABLE)).unwrap();
    assert_eq!(map.len(), 1);
    assert!(map.contains_key("https://api.z.ai:443/api/anthropic/v1/messages"));
}

#[test]
fn bad_mapping_is_fail_open() {
    let v = json(
        r#"{
            "code": 0,
            "data": { "proxyEndpoint": { "mapping": [
                { "from": "http://insecure/x", "to": "https://ok/y" }
            ]}}
        }"#,
    );
    assert!(parse_mapping(&v).is_none());
}

#[test]
fn one_bad_entry_spoils_the_table() {
    let v = json(
        r#"{"data":{"proxyEndpoint":{"mapping":[
            {"from":"https://a/x","to":"https://b/y"},
            {"from":"https://a/z","to":7}
        ]}}}"#,
    );
    assert!(parse_mapping(&v).is_none());
    assert!(parse_mapping(&json("{}")).is_none());
}

#[test]
fn routes_are_asked_for_and_kept() {
    let mut service = EndpointRoutingService::new(Some("https://zcode.z.ai/"), 0);
    assert_eq!(service.config_url(), "https://zcode.z.ai/api/v1/agent/configs");
    let url = "https://api.z.ai/api/anthropic/v1/messages";
    assert!(matches!(service.resolve(url, 0), RouteStep::Refresh));
    service.refresh(Some(&json(TABLE)), 0);
    match service.resolve(url, 1) {
        RouteStep::Answer(mapped, to) => {
            assert!(mapped);
            assert_eq!(to, "https://zcode.z.ai/api/v1/ultra-zai/v1/messages");
        }
        RouteStep::Refresh => panic!("the table is good"),
    }
    for other in ["https://other/x", "https://api.z.ai/api/anthropic/v1/other?beta=1"] {
        let (mapped, to) = service.answer(other);
        assert!(!mapped);
        assert_eq!(to, other);
    }
}

#[test]
fn queries_go_along() {
    let mut service = EndpointRoutingService::new(None, 0);
    service.refresh(Some(&json(TABLE)), 0);
    let from = "https://api.z.ai/api/anthropic/v1/messages";
    let to = "https://zcode.z.ai/api/v1/ultra-zai/v1/messages";
    assert_eq!(
        service.answer(&format!("{from}?beta=true")),
        (true, format!("{to}?beta=true"))
    );
    assert_eq!(service.answer(&format!("{from}/?a=1&b=2")), (true, format!("{to}?a=1&b=2")));
    assert_eq!(service.answer(&format!("{from}?")), (true, to.to_string()));
    match service.resolve(&format!("{from}?beta=true"), 1) {
        RouteStep::Answer(mapped, target) => {
            assert!(mapped);
            assert_eq!(target, format!("{to}?beta=true"));
        }
        RouteStep::Refresh => panic!("the table is good"),
    }
    assert_eq!(
        routing_key("https://h/p/?q#f").as_deref(),
        Some("https://h:443/p")
    );
}

#[test]
fn ports_have_one_default() {
    assert_eq!(routing_key("http://example.com/x").as_deref(), Some("http://example.com:443/x"));
    assert_eq!(routing_key("https://h:x/y").as_deref(), Some("https://h:x:443/y"));
}

#[test]
fn failed_refresh_leaves_requests_alone() {
    let mut service = EndpointRoutingService::new(None, 0);
    service.refresh(None, 10);
    match service.resolve("https://api.z.ai/x", 11) {
        RouteStep::Answer(mapped, to) => {
            assert!(!mapped);
            assert_eq!(to, "https://api.z.ai/x");
        }
        RouteStep::Refresh => panic!("the service pauses"),
    }
    assert!(matches!(service.resolve("nonsense", 11), RouteStep::Answer(false, _)));
    service.refresh(Some(&json(r#"{"code":1}"#)), 20);
    assert!(matches!(service.resolve("https://api.z.ai/x", 21), RouteStep::Answer(false, _)));
}

#[test]
fn origins_have_a_default() {
    assert_eq!(base_url(None), "https://zcode.z.ai");
    assert_eq!(base_url(Some("  ")), "https://zcode.z.ai");
    assert_eq!(base_url(Some(" https://x// ")), "https://x");
}

#[test]
fn credentials_go_with_control_requests() {
    let id = vec![("a".to_string(), "b".to_string())];
    let with = refresh_headers(id.clone(), Some("k"));
    assert_eq!(with[1], ("x-api-key".to_string(), "k".to_string()));
    assert_eq!(with[2], ("accept".to_string(), "application/json".to_string()));
    assert_eq!(
        refresh_headers(id.clone(), None),
        vec![id[0].clone(), ("accept".to_string(), "application/json".to_string())]
    );
}

#[test]
fn addresses_are_split() {
    let p = parse_url("https://user@host:1/p?q").unwrap();
    assert_eq!(p.scheme, "https");
    assert_eq!(p.origin, "https://host:1");
    assert_eq!(p.path, "/p?q");
    assert_eq!(parse_url("http://h").unwrap().path, "/");
    assert!(parse_url("ftp://h/").is_err());
    assert_eq!(origin_of("https://h/x").as_deref(), Some("https://h"));
    assert_eq!(origin_of("h/x"), None);
}
