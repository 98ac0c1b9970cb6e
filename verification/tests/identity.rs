use zcode_gateway::identity::{
    build_control_identity_headers, build_llm_identity_headers, client_language, env_prompt_info,
    language_of, node_arch, os_category, resolve_values, IdentityValues,
};

fn values() -> IdentityValues {
    resolve_values(
        " 1.2.3 ",
        "linux",
        "linux",
        "x86_64",
        Some("6.1".into()),
        "en-US".into(),
        "UTC".into(),
    )
}

fn names(pairs: &[(String, String)]) -> Vec<&str> {
    pairs.iter().map(|(k, _)| k.as_str()).collect()
}

#[test]
fn completions_hide_the_device() {
    let h = build_llm_identity_headers("cli", "https://r", &values());
    assert_eq!(
        names(&h),
        vec![
            "HTTP-Referer",
            "User-Agent",
            "X-ZCode-App-Version",
            "X-Title",
            "X-Release-Channel",
            "X-Client-Language",
            "X-Client-Timezone",
            "X-ZCode-Agent",
            "X-Platform",
            "X-Os-Category",
            "X-Os-Version",
        ]
    );
    assert_eq!(h[1].1, "ZCode/1.2.3");
    assert_eq!(h[3].1, "Z Code@cli");
    assert_eq!(h[8].1, "linux-x64");
}

#[test]
fn controls_hide_the_agent() {
    let h = build_control_identity_headers("cli", "https://r", Some(" mid "), &values());
    assert!(!names(&h).contains(&"X-ZCode-Agent"));
    assert_eq!(h.last().unwrap(), &("X-Device-Mid".to_string(), "mid".to_string()));
    let h = build_control_identity_headers("cli", "https://r", Some("  "), &values());
    assert!(!names(&h).contains(&"X-Device-Mid"));
}

#[test]
fn unprintable_versions_count_as_none() {
    let v = resolve_values("é", "linux", "linux", "riscv", None, "l".into(), "t".into());
    let h = build_llm_identity_headers("cli", "https://r", &v);
    assert!(!names(&h).contains(&"X-ZCode-App-Version"));
    assert!(!names(&h).contains(&"X-Os-Version"));
    assert_eq!(h[1].1, "ZCode/unknown");
}

#[test]
fn machines_have_names() {
    assert_eq!(node_arch("x86_64"), "x64");
    assert_eq!(node_arch("aarch64"), "arm64");
    assert_eq!(node_arch("riscv64"), "riscv64");
    assert_eq!(os_category("macos"), "macos");
    assert_eq!(os_category("windows"), "windows");
    assert_eq!(os_category("freebsd"), "linux");
}

#[test]
fn languages_have_a_default() {
    assert_eq!(language_of(None), "zh-CN");
    assert_eq!(language_of(Some("  ".into())), "zh-CN");
    assert_eq!(language_of(Some("de".into())), "de");
    let expected = match sys_locale::get_locale() {
        Some(l) if !l.trim().is_empty() => l,
        _ => "zh-CN".to_string(),
    };
    assert_eq!(client_language(), expected);
}

#[test]
fn surroundings_are_described() {
    let e = env_prompt_info(
        None,
        "/bin/zsh".into(),
        Some("zsh".into()),
        "linux",
        Some("6.1".into()),
        "x86_64",
    );
    assert_eq!(e.cwd, ".");
    assert_eq!(e.shell, "zsh");
    assert_eq!(e.os_version, "linux 6.1 x64");
    let e = env_prompt_info(Some("/w".into()), String::new(), None, "linux", None, "arm");
    assert_eq!(e.cwd, "/w");
    assert_eq!(e.shell, "unknown");
    assert_eq!(e.os_version, "linux arm");
}
