use tinyfusion_core::proxy::{bearer_header, build_chat_url, build_chat_url_with_path, forward_error_status};

#[test]
fn test_error_status_forward() {
    let axum_status = forward_error_status(400);
    assert_eq!(axum_status, 400);
}

#[test]
fn test_error_status_non_standard() {
    let axum_status = forward_error_status(418);
    assert_eq!(axum_status, 418);
}

#[test]
fn test_error_status_5xx() {
    let axum_status = forward_error_status(500);
    assert_eq!(axum_status, 500);
}

#[test]
fn invalid_status_becomes_internal_error() {
    assert_eq!(forward_error_status(42), 500);
    assert_eq!(forward_error_status(1000), 500);
    assert_eq!(forward_error_status(100), 100);
    assert_eq!(forward_error_status(999), 999);
}

#[test]
fn chat_url_drops_trailing_slashes() {
    assert_eq!(build_chat_url("http://localhost:1234/v1"), "http://localhost:1234/v1/chat/completions");
    assert_eq!(build_chat_url("http://localhost:1234/v1//"), "http://localhost:1234/v1/chat/completions");
    assert_eq!(build_chat_url(""), "/chat/completions");
}

#[test]
fn chat_url_with_custom_path() {
    assert_eq!(
        build_chat_url_with_path("https://open.bigmodel.cn/", Some("/api/paas/v4/chat/completions")),
        "https://open.bigmodel.cn/api/paas/v4/chat/completions"
    );
    assert_eq!(
        build_chat_url_with_path("http://h/v1", None),
        "http://h/v1/chat/completions"
    );
    assert_eq!(
        build_chat_url_with_path("http://h/v1", Some("")),
        "http://h/v1/chat/completions"
    );
}

#[test]
fn bearer_only_for_non_empty_keys() {
    assert_eq!(bearer_header(Some("sk-1")), Some("Bearer sk-1".to_string()));
    assert_eq!(bearer_header(Some("")), None);
    assert_eq!(bearer_header(None), None);
}
