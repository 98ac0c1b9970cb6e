use zcode_gateway::body::{
    apply_anthropic_cache_control, apply_anthropic_user_id, apply_start_plan_system,
    build_anthropic_metadata_user_id, transform_anthropic_body, transform_body_at,
};
use zcode_gateway::identity::EnvPromptInfo;
use zcode_gateway::json::{parse, Json};
use zcode_gateway::prompt::{
    build_context_prefix_message, build_environment_section, build_start_plan_system,
    context_prefix_message_at, format_local_iso_date, iso_date, provider_model_id,
};

fn json(text: &str) -> Json {
    parse(text).unwrap()
}

fn env() -> EnvPromptInfo {
    EnvPromptInfo {
        cwd: "/tmp".into(),
        platform: "win32".into(),
        shell: "bash".into(),
        os_version: "10.0.19045 x64".into(),
    }
}

fn wording() -> Json {
    json(
        r##"{
            "cliPrefix": "You are ZCode, a helper.",
            "stableSections": ["one", 2, "two"],
            "dynamicSections": { "beforeEnvironment": "before", "afterEnvironment": "after" },
            "environment": {
                "heading": "# Environment", "invokedLine": "invoked",
                "cwdLabel": "Cwd", "gitLabel": "Git", "gitNo": "No",
                "platformLabel": "Platform", "shellLabel": "Shell", "osVersionLabel": "OS",
                "poweredByLine": "powered by {provider}/{model}"
            },
            "contextPrefix": {
                "intro": "intro", "currentDateHeading": "# Date",
                "currentDateLine": "Today is {date}.", "outro": "outro"
            },
            "systemReminder": { "open": "<system-reminder>", "close": "</system-reminder>" }
        }"##,
    )
}

fn item<'a>(j: &'a Json, key: &str, i: usize) -> &'a Json {
    &j.items_at(key).unwrap()[i]
}

#[test]
fn cache_control_moves_to_last_block() {
    let mut body = json(
        r#"{
            "messages": [
                { "role": "user", "content": [{ "type": "text", "text": "old", "cache_control": { "type": "ephemeral" } }] },
                { "role": "user", "content": "new" }
            ]
        }"#,
    );
    apply_anthropic_cache_control(&mut body);
    let msgs = body.items_at("messages").unwrap();
    assert!(item(&msgs[0], "content", 0).get("cache_control").is_none());
    assert_eq!(item(&msgs[1], "content", 0).str_in("cache_control", "type"), Some("ephemeral"));
}

#[test]
fn metadata_user_id_shape() {
    let v = build_anthropic_metadata_user_id(Some("mid-1"), Some("sess_abc"));
    let parsed = json(&v);
    assert_eq!(parsed.str_at("device_id"), Some("mid-1"));
    assert_eq!(parsed.str_at("account_uuid"), Some(""));
    assert_eq!(parsed.str_at("session_id"), Some("abc"));
}

#[test]
fn start_plan_injects_system_and_prefix() {
    let mut body = json(
        r#"{
            "model": "glm-5.3",
            "messages": [{ "role": "user", "content": "hi" }]
        }"#,
    );
    apply_start_plan_system(&mut body, &wording(), Some("zai"), &env(), "2026-01-02");
    let system = body.items_at("system").unwrap();
    assert!(system.len() >= 3);
    let msgs = body.items_at("messages").unwrap();
    assert_eq!(msgs.len(), 2);
    assert!(item(&msgs[0], "content", 0)
        .str_at("text")
        .unwrap()
        .starts_with("<system-reminder>"));
}

#[test]
fn start_plan_system_has_three_official_blocks() {
    let blocks = build_start_plan_system(&wording(), None, Some("glm-5.3"), &env(), Some("zai"));
    assert!(blocks.len() >= 3);
    assert!(blocks[0].str_at("text").unwrap().starts_with("You are ZCode"));
    assert_eq!(blocks[0].str_in("cache_control", "type"), Some("ephemeral"));
    let dyn_text = blocks[2].str_at("text").unwrap();
    assert!(dyn_text.starts_with("\n\n"));
    assert!(dyn_text.contains("zai-api/glm-5.3"));
}

#[test]
fn context_prefix_wraps_system_reminder() {
    let msg = build_context_prefix_message(&wording());
    let text = item(&msg, "content", 0).str_at("text").unwrap();
    assert!(text.starts_with("<system-reminder>"));
    assert!(text.ends_with("</system-reminder>"));
    assert!(text.contains(&format_local_iso_date()));
}

#[test]
fn system_prompt_is_put_together() {
    let existing = json(r#"["  ", {"type":"text","text":"mine","cache_control":{}}, {"type":"image"}, 5]"#);
    let blocks = build_start_plan_system(&wording(), Some(&existing), None, &env(), Some("zai"));
    assert_eq!(blocks.len(), 4);
    assert_eq!(blocks[1].str_at("text"), Some("one\n\ntwo"));
    assert_eq!(
        blocks[2].str_at("text"),
        Some(
            "\n\nbefore\n\n# Environment\ninvoked\n- Cwd: /tmp\n- Git: No\n- Platform: win32\n\
             - Shell: bash\n- OS: 10.0.19045 x64\n\nafter"
        )
    );
    assert_eq!(blocks[3].render(), r#"{"text":"mine","type":"text"}"#);
}

#[test]
fn environment_names_the_model() {
    let text = build_environment_section(&wording(), &env(), Some(" glm-5 "), Some("bigmodel"));
    assert!(text.ends_with("\npowered by bigmodel-api/glm-5"));
    assert_eq!(provider_model_id("zai"), "zai-api");
    assert_eq!(provider_model_id("bigmodel"), "bigmodel-api");
    assert_eq!(provider_model_id("x"), "zai-api");
}

#[test]
fn dates_are_padded() {
    assert_eq!(iso_date(2026, 1, 2), "2026-01-02");
    assert_eq!(iso_date(987, 11, 30), "0987-11-30");
    assert_eq!(iso_date(-5, 3, 4), "-005-03-04");
    assert_eq!(format_local_iso_date().len(), 10);
    let msg = context_prefix_message_at(&wording(), "2026-01-02");
    assert_eq!(
        item(&msg, "content", 0).str_at("text"),
        Some("<system-reminder>intro\n# Date\nToday is 2026-01-02.\n\noutro</system-reminder>")
    );
}

#[test]
fn user_id_joins_the_metadata() {
    let mut body = json(r#"{"metadata":{"other":1},"model":"m"}"#);
    apply_anthropic_user_id(&mut body, "U");
    assert_eq!(body.render(), r#"{"metadata":{"other":1,"user_id":"U"},"model":"m"}"#);
    let plain = build_anthropic_metadata_user_id(None, Some("subagent_agent_x"));
    assert_eq!(plain, r#"{"account_uuid":"","session_id":"x"}"#);
    assert_eq!(
        build_anthropic_metadata_user_id(None, Some("sess_")),
        r#"{"account_uuid":"","session_id":"sess_"}"#
    );
}

#[test]
fn marking_is_stable() {
    let text = r#"{"messages":[{"role":"user","content":"a"},{"role":"user","content":[{"type":"text","text":"b"}]}]}"#;
    let mut once = json(text);
    apply_anthropic_cache_control(&mut once);
    let mut twice = json(&once.render());
    apply_anthropic_cache_control(&mut twice);
    assert_eq!(once.render(), twice.render());
    assert_eq!(once.render().matches("cache_control").count(), 1);
}

#[test]
fn bodies_are_made_fit() {
    let mut body = json(r#"{"model":"glm-5","messages":[{"role":"user","content":"hi"}]}"#);
    transform_body_at(&mut body, true, &wording(), Some("zai"), "U", &env(), "2026-01-02");
    assert_eq!(body.items_at("system").unwrap().len(), 3);
    assert_eq!(body.str_in("metadata", "user_id"), Some("U"));
    let mut body = json(r#"{"model":"glm-5","messages":[]}"#);
    transform_anthropic_body(&mut body, false, &wording(), Some("zai"), "U", &env());
    assert!(body.get("system").is_none());
    assert_eq!(body.str_in("metadata", "user_id"), Some("U"));
}
