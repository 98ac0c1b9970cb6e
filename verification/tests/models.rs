use zcode_gateway::models::{
    catalog, ceiling_of, clamp_glm53_budget_to_model, glm53_thinking_budget, is_glm53_model,
    is_reasoning_model, model_def, normalize_glm53_effort, resolve_default_max_tokens, Glm53Effort,
};

#[test]
fn glm53_family_matching() {
    assert!(is_glm53_model("glm-5.3"));
    assert!(is_glm53_model("GLM-5.3"));
    assert!(is_glm53_model("glm-5.3-flash"));
    assert!(!is_glm53_model("glm-5.2"));
    assert!(!is_glm53_model("glm-5.1"));
    assert!(!is_glm53_model("glm-5"));
    assert!(!is_glm53_model("glm-5.30"));
    assert!(!is_glm53_model(""));
}

#[test]
fn effort_mapping_rounds_up() {
    assert_eq!(normalize_glm53_effort(Some("low")), Glm53Effort::Low);
    assert_eq!(normalize_glm53_effort(Some("none")), Glm53Effort::Low);
    assert_eq!(normalize_glm53_effort(Some("medium")), Glm53Effort::High);
    assert_eq!(normalize_glm53_effort(Some("high")), Glm53Effort::High);
    assert_eq!(normalize_glm53_effort(Some("xhigh")), Glm53Effort::Max);
    assert_eq!(normalize_glm53_effort(Some("ultra")), Glm53Effort::Max);
    assert_eq!(normalize_glm53_effort(None), Glm53Effort::Max);
    assert_eq!(normalize_glm53_effort(Some("bogus")), Glm53Effort::Max);
}

#[test]
fn default_max_tokens_uses_catalog() {
    assert_eq!(resolve_default_max_tokens("glm-5.3"), 128_000);
    assert_eq!(resolve_default_max_tokens("unknown-model"), 4096);
}

#[test]
fn budgets_go_with_levels() {
    assert_eq!(glm53_thinking_budget(Glm53Effort::Low), 8_000);
    assert_eq!(glm53_thinking_budget(Glm53Effort::High), 16_000);
    assert_eq!(glm53_thinking_budget(Glm53Effort::Max), 32_000);
    assert_eq!(Glm53Effort::Low.as_str(), "low");
    assert_eq!(Glm53Effort::High.as_str(), "high");
    assert_eq!(Glm53Effort::Max.as_str(), "max");
}

#[test]
fn fitted_budget_leaves_room() {
    assert_eq!(clamp_glm53_budget_to_model(32_000, Some(128_000)), 32_000);
    assert_eq!(clamp_glm53_budget_to_model(32_000, Some(32_000)), 31_999);
    assert_eq!(clamp_glm53_budget_to_model(32_000, Some(0)), 0);
    assert_eq!(clamp_glm53_budget_to_model(32_000, None), 32_000);
}

#[test]
fn catalog_lists_known_models() {
    assert_eq!(catalog().len(), 11);
    let air = model_def("glm-4.5-air").unwrap();
    assert_eq!(air.name, "GLM 4.5 Air");
    assert_eq!(air.context_window, 131_072);
    assert_eq!(air.max_output_tokens, 98_304);
    assert!(model_def("GLM-4.5-AIR").is_none());
    assert!(is_reasoning_model("glm-4.6"));
    assert!(!is_reasoning_model("glm-4.6v"));
    assert!(!is_reasoning_model("nothing"));
    assert_eq!(ceiling_of("glm-4.6v"), Some(32_768));
    assert_eq!(ceiling_of("nothing"), None);
}
