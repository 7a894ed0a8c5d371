use tinyfusion_core::chat::{
    decide_route, split_into_chunks, validate, ChatCompletionRequest, RawChatRequest,
    RoutingDecision,
};
use tinyfusion_core::config::{Config, ModelConfig, ModelEntry};
use tinyfusion_core::json::Json;
use tinyfusion_core::strmap::StrMap;
use tinyfusion_core::types::{FunctionCall, FusionGuard, Message, ToolCall};

fn obj(entries: Vec<(&str, Json)>) -> Json {
    Json::Object(entries.into_iter().map(|(k, v)| (k.to_string(), v)).collect())
}

fn text(s: &str) -> Json {
    Json::Str(s.to_string())
}

fn test_config_with_fusion() -> Config {
    let mut config = Config {
        port: 9999,
        workers: vec![],
        judge: ModelConfig {
            name: "judge".into(),
            endpoint: "http://localhost:1234".into(),
            model_id: "judge-id".into(),
            api_key: None,
        },
        executor: ModelConfig {
            name: "executor".into(),
            endpoint: "http://localhost:1234".into(),
            model_id: "exec-id".into(),
            api_key: None,
        },
        workspaces: StrMap::new(),
        error_keywords: vec![],
        fusion: Default::default(),
    };
    config.fusion.models.insert(
        "model-a".into(),
        ModelEntry {
            provider: "test".into(),
            endpoint: "http://localhost:1234/v1".into(),
            model_id: "model-a-id".into(),
            api_key: Some("key-a".into()),
            tier: None,
            is_local: None,
            chat_path: None,
        },
    );
    config.fusion.models.insert(
        "model-b".into(),
        ModelEntry {
            provider: "test".into(),
            endpoint: "http://localhost:1234/v1".into(),
            model_id: "model-b-id".into(),
            api_key: Some("key-b".into()),
            tier: None,
            is_local: None,
            chat_path: None,
        },
    );
    config
}

#[test]
fn test_routing_subrequest_passthrough() {
    let guard = FusionGuard { is_subrequest: true };
    let req = ChatCompletionRequest {
        model: "tinyfusion/fusion".into(),
        messages: vec![Message::user("test")],
        stream: false,
        session_id: None,
        workspace: None,
        tools: None,
    };
    let config = test_config_with_fusion();
    let decision = decide_route(&guard, &req, &config);
    assert!(matches!(decision, RoutingDecision::SubrequestPassthrough));
}

#[test]
fn test_routing_fusion_model_alias() {
    let guard = FusionGuard { is_subrequest: false };
    let req = ChatCompletionRequest {
        model: "tinyfusion/fusion".into(),
        messages: vec![Message::user("test")],
        stream: false,
        session_id: None,
        workspace: None,
        tools: None,
    };
    let config = test_config_with_fusion();
    let decision = decide_route(&guard, &req, &config);
    assert!(matches!(decision, RoutingDecision::FusionPipeline(_)));
}

#[test]
fn test_routing_standard_passthrough() {
    let guard = FusionGuard { is_subrequest: false };
    let req = ChatCompletionRequest {
        model: "gpt-4o".into(),
        messages: vec![Message::user("test")],
        stream: false,
        session_id: None,
        workspace: None,
        tools: None,
    };
    let config = test_config_with_fusion();
    let decision = decide_route(&guard, &req, &config);
    assert!(matches!(decision, RoutingDecision::StandardPassthrough));
}

#[test]
fn test_routing_fusion_tool_in_tools_array() {
    let guard = FusionGuard { is_subrequest: false };
    let req = ChatCompletionRequest {
        model: "gpt-4o".into(),
        messages: vec![Message::user("test")],
        stream: false,
        session_id: None,
        workspace: None,
        tools: Some(vec![obj(vec![
            ("type", text("function")),
            (
                "function",
                obj(vec![
                    ("name", text("tinyfusion_deliberate")),
                    ("description", text("Fusion tool")),
                ]),
            ),
        ])]),
    };
    let config = test_config_with_fusion();
    let decision = decide_route(&guard, &req, &config);
    assert!(matches!(decision, RoutingDecision::FusionPipeline(_)));
}

#[test]
fn test_routing_fusion_tool_call_in_assistant_message() {
    let guard = FusionGuard { is_subrequest: false };
    let req = ChatCompletionRequest {
        model: "gpt-4o".into(),
        messages: vec![
            Message::user("test"),
            Message {
                role: "assistant".into(),
                content: None,
                name: None,
                tool_calls: Some(vec![ToolCall {
                    id: "call_1".into(),
                    call_type: "function".into(),
                    function: FunctionCall {
                        name: "tinyfusion_deliberate".into(),
                        arguments: r#"{"analysis_models":["model-a","model-b"]}"#.into(),
                    },
                }]),
                tool_call_id: None,
            },
        ],
        stream: false,
        session_id: None,
        workspace: None,
        tools: None,
    };
    let config = test_config_with_fusion();
    let decision = decide_route(&guard, &req, &config);
    assert!(matches!(decision, RoutingDecision::FusionPipeline(_)));
}

#[test]
fn test_routing_legacy_diagnostic_without_fusion_models() {
    let guard = FusionGuard { is_subrequest: false };
    let req = ChatCompletionRequest {
        model: "llama3".into(),
        messages: vec![Message::user("I got a compile error")],
        stream: false,
        session_id: None,
        workspace: None,
        tools: None,
    };
    let config = Config {
        port: 9999,
        workers: vec![],
        judge: ModelConfig {
            name: "judge".into(),
            endpoint: "http://localhost:11434".into(),
            model_id: "llama3".into(),
            api_key: None,
        },
        executor: ModelConfig {
            name: "executor".into(),
            endpoint: "http://localhost:11434".into(),
            model_id: "llama3".into(),
            api_key: None,
        },
        workspaces: StrMap::new(),
        error_keywords: vec!["error".into(), "compile".into()],
        fusion: Default::default(),
    };
    let decision = decide_route(&guard, &req, &config);
    assert!(matches!(decision, RoutingDecision::LegacyDiagnostic));
}

#[test]
fn test_validate_returns_parsed_request() {
    let raw = RawChatRequest {
        model: Some("test-model".into()),
        messages: Some(vec![Message::user("test")]),
        stream: Some(true),
        session_id: None,
        workspace: None,
        tools: None,
    };

    let req = validate(raw).unwrap();
    assert_eq!(req.model, "test-model");
    assert_eq!(req.messages.len(), 1);
    assert!(req.stream);
}

#[test]
fn test_validate_allows_tool_messages_with_empty_content() {
    let raw = RawChatRequest {
        model: Some("model".into()),
        messages: Some(vec![
            Message::user("test"),
            Message {
                role: "assistant".into(),
                content: None,
                name: None,
                tool_calls: Some(vec![ToolCall {
                    id: "call_1".into(),
                    call_type: "function".into(),
                    function: FunctionCall {
                        name: "test".into(),
                        arguments: "{}".into(),
                    },
                }]),
                tool_call_id: None,
            },
        ]),
        stream: None,
        session_id: None,
        workspace: None,
        tools: None,
    };

    let req = validate(raw);
    assert!(req.is_ok());
}

#[test]
fn test_split_into_chunks() {
    let text = "Hello, this is a test string for chunking.";
    let chunks = split_into_chunks(text, 10);
    assert!(chunks.len() > 1);
    let reassembled: String = chunks.concat();
    assert_eq!(reassembled, text);
}

#[test]
fn test_split_into_chunks_zero_size() {
    let text = "Hello world";
    let chunks = split_into_chunks(text, 0);
    assert_eq!(chunks.len(), 1);
    assert_eq!(chunks[0], text);
}

#[test]
fn test_split_into_chunks_empty() {
    let chunks = split_into_chunks("", 10);
    assert!(chunks.is_empty() || (chunks.len() == 1 && chunks[0].is_empty()));
}

#[test]
fn test_split_into_chunks_single_byte() {
    let text = "ABCDEF";
    let chunks = split_into_chunks(text, 1);
    assert_eq!(chunks.len(), 6);
    assert_eq!(chunks.concat(), text);
}

#[test]
fn test_split_into_chunks_unicode() {
    let text = "こんにちは世界";
    let chunks = split_into_chunks(text, 80);
    assert_eq!(chunks.len(), 1);
    assert_eq!(chunks[0], text);
}

fn raw_request(model: Option<&str>, messages: Option<Vec<Message>>) -> RawChatRequest {
    RawChatRequest {
        model: model.map(String::from),
        messages,
        stream: None,
        session_id: None,
        workspace: None,
        tools: None,
    }
}

#[test]
fn test_missing_model_returns_400() {
    let result = validate(raw_request(None, Some(vec![Message::user("Hello")])));
    assert!(result.unwrap_err().contains("model"));
}

#[test]
fn test_empty_model_returns_400() {
    let result = validate(raw_request(Some(""), Some(vec![Message::user("Hello")])));
    assert!(result.is_err());
}

#[test]
fn test_missing_messages_returns_400() {
    let result = validate(raw_request(Some("llama3"), None));
    assert!(result.is_err());
}

#[test]
fn test_empty_messages_returns_400() {
    let result = validate(raw_request(Some("llama3"), Some(vec![])));
    assert!(result.is_err());
}

#[test]
fn test_empty_role_returns_400() {
    let mut msg = Message::user("Hello");
    msg.role = String::new();
    let result = validate(raw_request(Some("llama3"), Some(vec![msg])));
    assert!(result.is_err());
}

#[test]
fn test_empty_content_returns_400() {
    let result = validate(raw_request(Some("llama3"), Some(vec![Message::user("")])));
    assert!(result.is_err());
}

#[test]
fn test_empty_body_returns_400() {
    let result = validate(raw_request(None, None));
    assert!(result.is_err());
}
