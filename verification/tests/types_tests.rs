use tinyfusion_core::types::{DeliberateArgs, FusionGuard, Message};

#[test]
fn test_message_user() {
    let msg = Message::user("hello");
    assert_eq!(msg.role, "user");
    assert_eq!(msg.content_str(), "hello");
    assert!(msg.tool_calls.is_none());
}

#[test]
fn test_message_tool() {
    let msg = Message::tool("call_123", "result data");
    assert_eq!(msg.role, "tool");
    assert_eq!(msg.tool_call_id.as_deref(), Some("call_123"));
    assert_eq!(msg.content_str(), "result data");
}

#[test]
fn test_deliberate_args_deserialization() {
    let json = r#"{"analysis_models":["gpt-4o","mistral-large"],"judge_model":"gpt-4o"}"#;
    let args: DeliberateArgs = DeliberateArgs::parse(json).unwrap();
    assert_eq!(args.analysis_models.len(), 2);
    assert_eq!(args.judge_model.as_deref(), Some("gpt-4o"));
}

#[test]
fn test_fusion_guard_no_header() {
    let guard = FusionGuard::from_header_value(None);
    assert!(!guard.is_subrequest);
}

#[test]
fn test_fusion_guard_with_header() {
    let guard = FusionGuard::from_header_value(Some("1"));
    assert!(guard.is_subrequest);
}

#[test]
fn test_fusion_guard_true_string() {
    let guard = FusionGuard::from_header_value(Some("true"));
    assert!(guard.is_subrequest);
}

#[test]
fn test_fusion_guard_false_string() {
    let guard = FusionGuard::from_header_value(Some("0"));
    assert!(!guard.is_subrequest);
}

#[test]
fn test_fusion_guard_invalid_value() {
    let guard = FusionGuard::from_header_value(Some("yes"));
    assert!(!guard.is_subrequest);
}

#[test]
fn test_fusion_guard_empty_value() {
    let guard = FusionGuard::from_header_value(Some(""));
    assert!(!guard.is_subrequest);
}

#[test]
fn deliberate_args_sequence_form() {
    let a = DeliberateArgs::parse(r#"[["a", "b"], "j"]"#).unwrap();
    assert_eq!(a.analysis_models, vec!["a".to_string(), "b".to_string()]);
    assert_eq!(a.judge_model.as_deref(), Some("j"));
    let b = DeliberateArgs::parse(r#"[["a"]]"#).unwrap();
    assert_eq!(b.judge_model, None);
    let c = DeliberateArgs::parse(r#"[["a"], null]"#).unwrap();
    assert_eq!(c.judge_model, None);
    assert!(DeliberateArgs::parse("[]").is_none());
    assert!(DeliberateArgs::parse(r#"[["a"], "j", 1]"#).is_none());
    assert!(DeliberateArgs::parse(r#"[[1]]"#).is_none());
}
