use tinyfusion_core::config::{Config, ModelEntry};

#[test]
fn test_error_keywords_default() {
    let default = Config::default_config();
    assert!(default.error_keywords.contains(&"stack trace".into()));
    assert!(default.error_keywords.contains(&"build failed".into()));
    assert!(default.error_keywords.contains(&"panic".into()));
    assert_eq!(default.error_keywords.len(), 9);
}

#[test]
fn test_fusion_config_get_model_found() {
    let mut config = Config::default_config();
    config.fusion.models.insert("m1".into(), ModelEntry {
        provider: "test".into(),
        endpoint: "http://localhost:1".into(),
        model_id: "m1-id".into(),
        api_key: Some("k1".into()),
        tier: None,
        is_local: None,
        chat_path: None,
    });
    let entry = config.fusion.get_model("m1");
    assert!(entry.is_some());
    assert_eq!(entry.unwrap().model_id, "m1-id");
}

#[test]
fn test_fusion_config_get_model_not_found() {
    let config = Config::default_config();
    assert!(config.fusion.get_model("nonexistent").is_none());
}

#[test]
fn test_resolve_panel_models_from_preset() {
    let mut config = Config::default_config();
    config.fusion.presets.insert("fast".into(), vec!["a".into(), "b".into()]);
    let resolved = config.fusion.resolve_panel_models(&["fast".into()]);
    assert_eq!(resolved, vec!["a", "b"]);
}

#[test]
fn test_resolve_panel_models_fallback() {
    let config = Config::default_config();
    let resolved = config.fusion.resolve_panel_models(&["m1".into(), "m2".into()]);
    assert_eq!(resolved, vec!["m1", "m2"]);
}

#[test]
fn test_config_default_includes_fusion() {
    let config = Config::default_config();
    assert_eq!(config.fusion.timeout_seconds, 30);
    assert!(config.fusion.models.is_empty());
}
