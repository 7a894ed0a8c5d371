use tinyfusion_core::harness::judge_synthesizer::build_judge_user_prompt;
use tinyfusion_core::harness::panel_dispatcher::extract_content_from_response;
use tinyfusion_core::harness::query_refiner::QueryRefiner;
use tinyfusion_core::harness::{HarnessError, PipelineContext};
use tinyfusion_core::json::Json;
use tinyfusion_core::types::{Message, PanelResponse};

fn obj(entries: Vec<(&str, Json)>) -> Json {
    Json::Object(entries.into_iter().map(|(k, v)| (k.to_string(), v)).collect())
}

fn text(s: &str) -> Json {
    Json::Str(s.to_string())
}

#[test]
fn test_pipeline_context_creation() {
    let ctx = PipelineContext::new(
        "test-id".into(),
        vec![Message::user("hello")],
        vec!["model-a".into()],
        "judge".into(),
        false,
    );
    assert_eq!(ctx.request_id, "test-id");
    assert_eq!(ctx.panel_models.len(), 1);
    assert!(!ctx.stream);
}

#[test]
fn test_pipeline_context_latency_tracking() {
    let mut ctx = PipelineContext::new(
        "id".into(),
        vec![],
        vec![],
        "judge".into(),
        false,
    );
    ctx.record_latency("refiner", 100);
    ctx.record_latency("dispatcher", 500);
    assert_eq!(ctx.total_latency_ms(), 600);
}

#[test]
fn test_harness_error_display() {
    let err = HarnessError::ExecutionFailed("test error".into());
    assert!(err.to_string().contains("test error"));
}

#[test]
fn test_query_refiner_appends_suffix() {
    let mut ctx = PipelineContext::new(
        "test".into(),
        vec![Message::user("Fix this bug")],
        vec!["m1".into()],
        "judge".into(),
        false,
    );

    QueryRefiner.refine(&mut ctx).unwrap();

    let last = ctx.refined_messages.last().unwrap();
    assert!(last.content_str().contains("Fix this bug"));
    assert!(last.content_str().contains("multiple perspectives"));
}

#[test]
fn test_query_refiner_empty_messages_error() {
    let mut ctx = PipelineContext::new(
        "test".into(),
        vec![],
        vec![],
        "judge".into(),
        false,
    );

    let result = QueryRefiner.refine(&mut ctx);
    assert!(result.is_err());
}

#[test]
fn test_build_judge_user_prompt() {
    let messages = vec![Message::user("How do I fix this?")];
    let responses = vec![PanelResponse {
        model_name: "gpt-4o".into(),
        content: Ok("Check the null pointer".into()),
        latency_ms: 200,
        token_count: None,
    }];
    let refs: Vec<&PanelResponse> = responses.iter().collect();
    let prompt = build_judge_user_prompt(&messages, &refs);
    assert!(prompt.contains("How do I fix this?"));
    assert!(prompt.contains("gpt-4o"));
    assert!(prompt.contains("Check the null pointer"));
}

#[test]
fn test_extract_content_from_response() {
    let json = obj(vec![(
        "choices",
        Json::Array(vec![obj(vec![(
            "message",
            obj(vec![("role", text("assistant")), ("content", text("Hello world"))]),
        )])]),
    )]);
    assert_eq!(extract_content_from_response(&json), Some("Hello world".into()));
}

#[test]
fn test_extract_content_from_empty_response() {
    let json = obj(vec![("choices", Json::Array(vec![]))]);
    assert_eq!(extract_content_from_response(&json), None);
}

#[test]
fn test_extract_content_from_malformed_response() {
    let json = obj(vec![("error", text("something"))]);
    assert_eq!(extract_content_from_response(&json), None);
}
