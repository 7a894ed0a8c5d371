use tinyfusion_core::tool_call_parser::{ParseResult, StreamingToolCallAccumulator};

#[test]
fn test_accumulate_text_content() {
    let mut acc = StreamingToolCallAccumulator::new();

    let r1 = acc.feed_sse_data(r#"{"choices":[{"index":0,"delta":{"role":"assistant","content":"Hello"}}]}"#);
    assert!(matches!(r1, ParseResult::TextDelta(ref s) if s == "Hello"));

    let r2 = acc.feed_sse_data(r#"{"choices":[{"index":0,"delta":{"content":" world"}}]}"#);
    assert!(matches!(r2, ParseResult::TextDelta(ref s) if s == " world"));

    assert_eq!(acc.text_content, "Hello world");
}

#[test]
fn test_accumulate_tool_call_chunks() {
    let mut acc = StreamingToolCallAccumulator::new();

    // First chunk: tool call id + name start
    acc.feed_sse_data(r#"{"choices":[{"index":0,"delta":{"tool_calls":[{"index":0,"id":"call_abc","type":"function","function":{"name":"tinyfusion_deliberate","arguments":""}}]}}]}"#);

    // Arguments come in chunks
    acc.feed_sse_data(r#"{"choices":[{"index":0,"delta":{"tool_calls":[{"index":0,"function":{"arguments":"{\"analysis_models\":"}}]}}]}"#);
    acc.feed_sse_data(r#"{"choices":[{"index":0,"delta":{"tool_calls":[{"index":0,"function":{"arguments":"[\"gpt-4o\",\"mistral\"]}"}}]}}]}"#);

    // Finish
    let result = acc.feed_sse_data(r#"{"choices":[{"index":0,"delta":{},"finish_reason":"tool_calls"}]}"#);

    match result {
        ParseResult::FusionToolCallComplete(tc, args) => {
            assert_eq!(tc.id, "call_abc");
            assert_eq!(tc.function.name, "tinyfusion_deliberate");
            assert_eq!(args.analysis_models, vec!["gpt-4o", "mistral"]);
        }
        other => panic!("Expected FusionToolCallComplete, got {:?}", other),
    }
}

#[test]
fn test_early_fanout_detection() {
    let mut acc = StreamingToolCallAccumulator::new();

    acc.feed_sse_data(r#"{"choices":[{"index":0,"delta":{"tool_calls":[{"index":0,"id":"call_1","type":"function","function":{"name":"tinyfusion_deliberate","arguments":""}}]}}]}"#);
    acc.feed_sse_data(r#"{"choices":[{"index":0,"delta":{"tool_calls":[{"index":0,"function":{"arguments":"{\"analysis_models\":[\"gpt-4o\",\"mistral\"]}"}}]}}]}"#);

    let models = acc.try_early_fanout();
    assert_eq!(models, Some(vec!["gpt-4o".to_string(), "mistral".to_string()]));
}

#[test]
fn test_done_marker() {
    let mut acc = StreamingToolCallAccumulator::new();
    let result = acc.feed_sse_data("[DONE]");
    assert!(matches!(result, ParseResult::Done));
    assert!(acc.done);
}

#[test]
fn test_malformed_data_returns_continue() {
    let mut acc = StreamingToolCallAccumulator::new();
    let result = acc.feed_sse_data("not json");
    assert!(matches!(result, ParseResult::Continue));
}
