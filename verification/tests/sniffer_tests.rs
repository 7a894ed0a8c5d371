use tinyfusion_core::sniffer::{sniff_state, sniff_state_with_keywords, Message, RequestState};

#[test]
fn test_empty_messages_is_diagnostic() {
    assert_eq!(sniff_state(&[]), RequestState::Diagnostic);
}

#[test]
fn test_short_conversation_without_errors_is_execution() {
    let messages = vec![
        Message { role: "system".into(), content: "You are helpful".into() },
        Message { role: "user".into(), content: "How do I fix this?".into() },
    ];
    assert_eq!(sniff_state(&messages), RequestState::Execution);
}

#[test]
fn test_error_keyword_detection() {
    let messages = vec![
        Message { role: "user".into(), content: "I got a stack trace: NullPointerException".into() },
    ];
    assert_eq!(sniff_state(&messages), RequestState::Diagnostic);
}

#[test]
fn test_final_plan_detection() {
    let messages = vec![
        Message { role: "system".into(), content: "Plan it".into() },
        Message { role: "user".into(), content: "Do it".into() },
        Message { role: "assistant".into(), content: "</final_plan> Step 1: ...".into() },
    ];
    assert_eq!(sniff_state(&messages), RequestState::Execution);
}

#[test]
fn test_compile_error_detection() {
    let messages = vec![
        Message { role: "user".into(), content: "compile error: cannot find value `x`".into() },
    ];
    assert_eq!(sniff_state(&messages), RequestState::Diagnostic);
}

#[test]
fn test_build_failed_detection() {
    let messages = vec![
        Message { role: "user".into(), content: "build failed with exit code 1".into() },
    ];
    assert_eq!(sniff_state(&messages), RequestState::Diagnostic);
}

#[test]
fn test_assertion_error_detection() {
    let messages = vec![
        Message { role: "user".into(), content: "assertion error: expected true, got false".into() },
    ];
    assert_eq!(sniff_state(&messages), RequestState::Diagnostic);
}

#[test]
fn test_panic_detection() {
    let messages = vec![
        Message { role: "user".into(), content: "thread 'main' panicked at src/main.rs:42".into() },
    ];
    assert_eq!(sniff_state(&messages), RequestState::Diagnostic);
}

#[test]
fn test_sniff_with_custom_keywords() {
    let messages = vec![
        Message { role: "user".into(), content: "segfault at address 0x0".into() },
    ];
    let custom_kw = vec!["segfault".into()];
    assert_eq!(
        sniff_state_with_keywords(&messages, &custom_kw),
        RequestState::Diagnostic
    );
}

#[test]
fn test_no_error_keywords_routes_to_execution() {
    let messages = vec![
        Message { role: "user".into(), content: "The production is running fine".into() },
    ];
    assert_eq!(sniff_state(&messages), RequestState::Execution);
}
