use tinyfusion_core::tool_call_parser::{ParseResult, StreamingToolCallAccumulator};
use tinyfusion_core::budget::{BudgetManager, BudgetState};
use tinyfusion_core::calendar::{day_month_keys, days_to_ymd};
use tinyfusion_core::chat::{
    chat_id_at, judge_stream_line, split_into_chunks, legacy_original_prompt, relay_judge_text, sse_chunks,
    validate, ChatCompletionResponse, RawChatRequest, StreamLine,
};
use tinyfusion_core::complexity::{classify_complexity, count_file_mentions};
use tinyfusion_core::config::{BudgetConfig, ModelEntry, ModelTier, RoutingConfig, FusionConfig};
use tinyfusion_core::dashboard::{format_duration, metrics_records};
use tinyfusion_core::events::GatewayEvent;
use tinyfusion_core::harness::judge_synthesizer::JudgeSynthesizer;
use tinyfusion_core::harness::metrics_logger::MetricsLogger;
use tinyfusion_core::harness::panel_dispatcher::{panel_call, PanelDispatcher, PanelOutcome};
use tinyfusion_core::harness::{HarnessError, PipelineContext};
use tinyfusion_core::moa::{worker_request_body, worker_timeout_error, WorkerConfig};
use tinyfusion_core::oracle::VerifyResult;
use tinyfusion_core::session::{Session, SessionManager, SessionSnapshot, SessionState};
use tinyfusion_core::sniffer;
use tinyfusion_core::types::Message;

fn cloud_config() -> BudgetConfig {
    BudgetConfig { daily_limit: 1000, monthly_limit: 5000, persist_interval_secs: 60 }
}

#[test]
fn calendar_leap_day_and_year_end() {
    assert_eq!(days_to_ymd(11016), (2000, 2, 29));
    assert_eq!(days_to_ymd(1095), (1972, 12, 31));
    assert_eq!(days_to_ymd(59), (1970, 3, 1));
    assert_eq!(days_to_ymd(58), (1970, 2, 28));
}

#[test]
fn calendar_keys_have_fixed_shape() {
    let (day, month) = day_month_keys(20630);
    assert_eq!(day, "2026-06-26");
    assert_eq!(month, "2026-06");
    let (day, month) = day_month_keys(0);
    assert_eq!(day, "1970-01-01");
    assert_eq!(month, "1970-01");
}

#[test]
fn budget_rolls_over_on_a_new_day() {
    let day1 = 20630 * 86400;
    let mut mgr = BudgetManager::starting_at(cloud_config(), day1);
    assert!(!mgr.record_at(600, false, day1 + 10));
    assert_eq!(mgr.snapshot().daily_tokens, 600);
    assert!(!mgr.can_afford(500));
    assert!(mgr.can_afford(400));
    // The next day the daily counter starts over; the month goes on.
    mgr.record_at(100, false, day1 + 86400);
    let snap = mgr.snapshot();
    assert_eq!(snap.daily_tokens, 100);
    assert_eq!(snap.monthly_tokens, 700);
    assert_eq!(mgr.state().day, "2026-06-27");
}

#[test]
fn budget_local_usage_is_free_and_persistence_is_debounced() {
    let start = 1_000_000;
    let mut mgr = BudgetManager::starting_at(cloud_config(), start);
    assert!(!mgr.record_at(10_000, true, start + 30));
    assert_eq!(mgr.snapshot().daily_tokens, 0);
    assert!(mgr.record_at(1, false, start + 60));
    assert!(!mgr.record_at(1, false, start + 100));
    assert!(mgr.record_at(1, false, start + 120));
}

#[test]
fn budget_resumes_saved_state() {
    let now = 20630 * 86400;
    let saved = BudgetState {
        day: "2026-06-26".into(),
        month: "2026-06".into(),
        daily_tokens: 10,
        monthly_tokens: 20,
        last_updated: now - 5,
    };
    let mgr = BudgetManager::from_saved(cloud_config(), saved, now);
    assert_eq!(mgr.snapshot().daily_tokens, 10);
    let stale = BudgetState {
        day: "2026-06-25".into(),
        month: "2026-05".into(),
        daily_tokens: 10,
        monthly_tokens: 20,
        last_updated: 0,
    };
    let mgr = BudgetManager::from_saved(cloud_config(), stale, now);
    assert_eq!(mgr.snapshot().daily_tokens, 0);
    assert_eq!(mgr.snapshot().monthly_tokens, 0);
}

#[test]
fn budget_fresh_state_is_dated() {
    let s = BudgetState::fresh_at(0);
    assert_eq!(s.day, "1970-01-01");
    assert_eq!(s.month, "1970-01");
    assert_eq!(s.daily_tokens, 0);
}

#[test]
fn session_id_is_lowercase_hex_sha256_of_roles_and_contents() {
    let msgs = vec![sniffer::Message { role: "user".into(), content: "hello".into() }];
    assert_eq!(
        Session::id_from_messages(&msgs),
        "59cb3723db6ff286926bd51ba0a28877b3fdf5de958a6709a1a6165b8e5af531"
    );
    assert_eq!(
        Session::id_from_messages(&[]),
        "e3b0c44298fc1c149afbf4c8996fb92427ae41e4649b934ca495991b7852b855"
    );
}

#[test]
fn sessions_save_and_restore() {
    let mut manager = SessionManager::new();
    manager.get_or_create("a".into(), vec![], vec!["m1".into()]);
    manager.get_or_create("b".into(), vec![], vec![]);
    manager.set_state("b", SessionState::Done);
    let snaps = manager.snapshots();
    assert_eq!(snaps.len(), 1);
    assert_eq!(snaps[0].id, "a");
    let mut fresh = SessionManager::default();
    let extra = SessionSnapshot {
        id: "a".into(),
        state: SessionState::Verify,
        retry_count: 2,
        messages: vec![],
        created_at_secs: 7,
    };
    assert_eq!(fresh.restore(snaps), 1);
    assert_eq!(fresh.restore(vec![extra]), 0);
    assert_eq!(fresh.lookup("a").unwrap().state, SessionState::Diagnostic);
    assert!(fresh.remove("a").is_some());
    assert!(fresh.lookup("a").is_none());
    assert!(fresh.remove("a").is_none());
}

#[test]
fn session_display_name_and_tokens() {
    let long = "é".repeat(20);
    let s = Session {
        id: "abcdef".into(),
        state: SessionState::Diagnostic,
        retry_count: 0,
        messages: vec![sniffer::Message { role: "user".into(), content: long }],
        created_at: 0,
        models: vec![],
    };
    // 2-byte characters: those starting within 30 bytes are the first 16; the 16th is cut.
    assert_eq!(s.display_name(), format!("{}...", "é".repeat(15)));
    assert_eq!(s.token_estimate(), 10);
    let empty = Session { messages: vec![], ..s };
    assert_eq!(empty.display_name(), "#abcd");
    assert_eq!(format_duration(59), "59s");
    assert_eq!(format_duration(61), "1m 1s");
}

#[test]
fn metrics_log_keeps_json_lines() {
    let log = "{\"a\":1}\n\n  not json \n [1,2] \r\n";
    assert_eq!(metrics_records(log), vec!["{\"a\":1}".to_string(), "[1,2]".to_string()]);
}

#[test]
fn completion_ids_and_token_estimates() {
    assert_eq!(chat_id_at(0), "chatcmpl-00000");
    assert_eq!(chat_id_at(1), "chatcmpl-179b1");
    assert_eq!(chat_id_at(1_700_000_000), "chatcmpl-6553f100a100");
    let r = ChatCompletionResponse::made_at("m", "abcdefghi", 5);
    assert_eq!(r.usage.completion_tokens, 3);
    assert_eq!(r.created, 5);
    assert_eq!(r.id, "chatcmpl-5".to_string() + &format!("{:04x}", (5u32.wrapping_mul(2654435761)) & 0xFFFF));
    let e = ChatCompletionResponse::made_at("m", "", 5);
    assert_eq!(e.usage.completion_tokens, 1);
    let chunks = sse_chunks("id", 1, "m", &["a".to_string(), "b".to_string()]);
    assert_eq!(chunks.len(), 3);
    assert_eq!(chunks[2].choices[0].finish_reason.as_deref(), Some("stop"));
    assert!(chunks[2].choices[0].delta.role.is_none());
    assert_eq!(chunks[0].choices[0].delta.role.as_deref(), Some("assistant"));
}

#[test]
fn validation_reports_first_problem() {
    let raw = |model: Option<&str>, msgs: Option<Vec<Message>>| RawChatRequest {
        model: model.map(String::from),
        messages: msgs,
        stream: None,
        session_id: None,
        workspace: None,
        tools: None,
    };
    assert_eq!(
        validate(raw(None, None)).unwrap_err(),
        "Missing required field: 'model'. The model name must be specified."
    );
    assert_eq!(validate(raw(Some(""), None)).unwrap_err(), "'model' must not be empty.");
    assert_eq!(
        validate(raw(Some("m"), None)).unwrap_err(),
        "Missing required field: 'messages'. At least one message is required."
    );
    assert_eq!(
        validate(raw(Some("m"), Some(vec![]))).unwrap_err(),
        "'messages' must contain at least one message."
    );
    let mut bad_role = Message::user("x");
    bad_role.role = String::new();
    assert_eq!(
        validate(raw(Some("m"), Some(vec![Message::user("ok"), bad_role]))).unwrap_err(),
        "messages[1]: 'role' must not be empty (expected 'system', 'user', or 'assistant')."
    );
    assert_eq!(
        validate(raw(Some("m"), Some(vec![Message::user("")]))).unwrap_err(),
        "messages[0]: 'content' must not be empty."
    );
    assert!(validate(raw(Some("m"), Some(vec![Message::tool("c", "")]))).is_ok());
}

#[test]
fn judge_stream_relay_stops_at_done() {
    let text = "data: {\"choices\":[{\"delta\":{\"content\":\"Hi\"}}]}\n\n: comment\ndata: [DONE]\ndata: {\"choices\":[{\"delta\":{\"content\":\"late\"}}]}\n";
    let (contents, done) = relay_judge_text(text);
    assert_eq!(contents, vec!["Hi".to_string()]);
    assert!(done);
    let (contents, done) = relay_judge_text("data: {\"choices\":[{\"delta\":{}}]}");
    assert!(contents.is_empty());
    assert!(!done);
    let line: Vec<char> = "  data: [DONE]  ".chars().collect();
    assert!(matches!(judge_stream_line(&line), StreamLine::Done));
    assert_eq!(
        legacy_original_prompt(&[Message::system("be nice"), Message::user("hi")]),
        "system: be nice\nuser: hi"
    );
}

#[test]
fn uppercase_keywords_match_after_lowercasing() {
    let kws = vec!["Compile Error".to_string()];
    let msgs = vec![Message::user("COMPILE ERROR here")];
    assert_eq!(classify_complexity(&msgs, &kws, &RoutingConfig::default()), ModelTier::Medium);
    assert_eq!(count_file_mentions("see \"a/b.py\", 'c/d.go' and e.rs"), 2);
}

#[test]
fn final_plan_wins_over_error_keywords() {
    let msgs = vec![
        sniffer::Message { role: "assistant".into(), content: "</final_plan>".into() },
        sniffer::Message { role: "user".into(), content: "compile error again".into() },
    ];
    assert_eq!(sniffer::sniff_state(&msgs), sniffer::RequestState::Execution);
}

#[test]
fn retries_never_exceed_their_maximum() {
    let mut manager = SessionManager::new();
    manager.get_or_create("s".into(), vec![], vec![]);
    for _ in 0..10 {
        manager.set_state("s", SessionState::Verify);
        manager.transition("s", 2);
        assert!(manager.lookup("s").unwrap().retry_count <= 2);
    }
    assert_eq!(manager.lookup("s").unwrap().state, SessionState::Done);
}

#[test]
fn oracle_results() {
    let ok = VerifyResult::from_output(Some(0), b"fine", &[0xff, b'x']);
    assert!(ok.is_success());
    assert_eq!(ok.stderr, "\u{FFFD}x");
    let t = VerifyResult::timed_out_after(5);
    assert!(!t.is_success());
    assert_eq!(t.stderr, "Command timed out after 5 seconds");
}

#[test]
fn worker_requests_and_events() {
    let cfg = WorkerConfig { endpoint: "http://w".into(), model_id: "llama3".into(), api_key: None };
    let body = worker_request_body(&cfg, &[sniffer::Message { role: "user".into(), content: "hi".into() }]);
    assert!(tinyfusion_core::json::same_text(
        tinyfusion_core::json::as_str(tinyfusion_core::json::get(&body, "model")).unwrap().as_str(),
        "llama3"
    ));
    assert_eq!(worker_timeout_error(30), "Worker timed out after 30s");
    let e = GatewayEvent::new("fusion", "started").with_session("abc");
    assert_eq!(e.session_id.as_deref(), Some("abc"));
    assert_eq!(e.event_type, "fusion");
}

#[test]
fn pipeline_stages() {
    let mut ctx = PipelineContext::new("r".into(), vec![Message::user("q")], vec!["a".into()], "judge".into(), false);
    let failed = vec![PanelOutcome::Finished(Err("x".to_string()), 3)];
    assert!(matches!(PanelDispatcher.collect(&mut ctx, failed), Err(HarnessError::AllPanelsFailed)));
    assert!(ctx.panel_responses.is_empty());
    let mut fusion = FusionConfig::default();
    assert!(matches!(JudgeSynthesizer.plan(&ctx, &fusion), Err(HarnessError::ExecutionFailed(_))));
    let good = vec![PanelOutcome::Finished(Ok("y".to_string()), 4)];
    assert!(PanelDispatcher.collect(&mut ctx, good).is_ok());
    assert_eq!(ctx.panel_responses.len(), 1);
    assert_eq!(ctx.panel_responses[0].model_name, "a");
    assert_eq!(ctx.panel_responses[0].content, Ok("y".to_string()));
    assert_eq!(ctx.panel_responses[0].latency_ms, 4);
    match JudgeSynthesizer.plan(&ctx, &fusion) {
        Err(HarnessError::ExecutionFailed(m)) => {
            assert_eq!(m, "Judge model 'judge' not found in fusion.models registry")
        }
        _ => panic!("expected a missing judge"),
    }
    fusion.models.insert("judge".into(), ModelEntry {
        provider: "p".into(),
        endpoint: "http://j/".into(),
        model_id: "jm".into(),
        api_key: Some("k".into()),
        tier: None,
        is_local: None,
        chat_path: None,
    });
    let call = JudgeSynthesizer.plan(&ctx, &fusion).ok().unwrap();
    assert_eq!(call.url, "http://j/chat/completions");
    assert_eq!(call.authorization.as_deref(), Some("Bearer k"));
    assert_eq!(call.subrequest, ("x-tinyfusion-subrequest".to_string(), "1".to_string()));
    assert!(panel_call(&fusion, "nope").is_err());
    ctx.record_latency("JudgeSynthesizer", 7);
    ctx.record_latency("JudgeSynthesizer", 9);
    let m = MetricsLogger.metrics(&ctx, 42);
    assert_eq!(m.judge_latency_ms, 9);
    assert_eq!(m.total_latency_ms, 9);
    assert_eq!(m.panel_success_count, 1);
    assert_eq!(m.panel_latencies_ms, vec![4]);
    assert_eq!(HarnessError::Timeout.to_string(), "Harness tool timed out");
    assert_eq!(HarnessError::AllPanelsFailed.to_string(), "All panel models failed");
    assert_eq!(
        HarnessError::SchemaValidationFailed("bad".into()).to_string(),
        "Schema validation failed: bad"
    );
}

#[test]
fn complexity_counts_characters_not_bytes() {
    let messages = vec![Message::user(&"é".repeat(100))];
    assert_eq!(classify_complexity(&messages, &[], &RoutingConfig::default()), ModelTier::Simple);
    let messages = vec![Message::user(&"é".repeat(200))];
    assert_eq!(classify_complexity(&messages, &[], &RoutingConfig::default()), ModelTier::Medium);
}

#[test]
fn chunks_end_on_character_boundaries() {
    assert_eq!(split_into_chunks("é", 1), vec!["é".to_string()]);
    let text = "こんにちは世界, héllo";
    for size in 1..6 {
        let chunks = split_into_chunks(text, size);
        assert_eq!(chunks.concat(), text);
        assert!(chunks.iter().all(|c| !c.is_empty() && c.chars().count() <= size));
    }
    assert_eq!(split_into_chunks("こんにちは", 2), vec!["こん".to_string(), "にち".to_string(), "は".to_string()]);
}

#[test]
fn session_changes_mark_snapshot_due() {
    let mut m = SessionManager::new();
    assert!(!m.take_snapshot_due());
    let msgs = vec![sniffer::Message { role: "user".into(), content: "hi".into() }];
    m.get_or_create("s1".into(), msgs.clone(), vec![]);
    assert!(m.take_snapshot_due());
    assert!(!m.take_snapshot_due());
    m.get_or_create("s1".into(), msgs, vec![]);
    assert!(!m.take_snapshot_due());
    m.set_state("nope", SessionState::Execution);
    assert!(!m.take_snapshot_due());
    m.set_state("s1", SessionState::Execution);
    assert!(m.take_snapshot_due());
    m.increment_retry("s1");
    assert!(!m.take_snapshot_due());
    assert!(m.transition("s1", 3).is_some());
    assert!(m.take_snapshot_due());
    assert!(m.remove("s1").is_some());
    assert!(m.take_snapshot_due());
}

#[test]
fn transition_run_length() {
    let mut m = SessionManager::new();
    let msgs = vec![sniffer::Message { role: "user".into(), content: "hi".into() }];
    m.get_or_create("s".into(), msgs, vec![]);
    let mut somes = 0;
    let mut last = None;
    for _ in 0..20 {
        match m.transition("s", 2) {
            Some(st) => {
                somes += 1;
                last = Some(st);
            }
            None => {}
        }
    }
    assert_eq!(somes, 3 * 2 + 3);
    assert_eq!(last, Some(SessionState::Done));
    assert_eq!(m.lookup("s").unwrap().retry_count, 2);
}

#[test]
fn snapshot_round_trip_keeps_open_sessions() {
    let mut a = SessionManager::new();
    let msgs = |t: &str| vec![sniffer::Message { role: "user".into(), content: t.into() }];
    a.get_or_create("open".into(), msgs("one"), vec!["m".into()]);
    a.get_or_create("done".into(), msgs("two"), vec![]);
    a.set_state("done", SessionState::Done);
    a.set_state("open", SessionState::Verify);
    let mut b = SessionManager::new();
    assert_eq!(b.restore(a.snapshots()), 1);
    let s = b.lookup("open").unwrap();
    assert_eq!(s.state, SessionState::Verify);
    assert_eq!(s.messages.len(), 1);
    assert!(s.models.is_empty());
    assert!(b.lookup("done").is_none());
}

#[test]
fn latency_total_after_rerecord() {
    let mut ctx = PipelineContext::new("r".into(), vec![Message::user("q")], vec![], "j".into(), false);
    ctx.record_latency("A", 5);
    ctx.record_latency("B", 7);
    assert_eq!(ctx.total_latency_ms(), 12);
    ctx.record_latency("A", 2);
    assert_eq!(ctx.total_latency_ms(), 9);
}

#[test]
fn error_body_and_failure_texts() {
    let body = tinyfusion_core::chat::error_body("boom", "fusion_error");
    let err = tinyfusion_core::json::get(&body, "error");
    let msg = tinyfusion_core::json::as_str(tinyfusion_core::json::get_opt(err, "message")).unwrap();
    let kind = tinyfusion_core::json::as_str(tinyfusion_core::json::get_opt(err, "type")).unwrap();
    assert_eq!(msg, "boom");
    assert_eq!(kind, "fusion_error");
    assert_eq!(tinyfusion_core::chat::fusion_failure_text("x"), "Fusion pipeline failed: x");
    assert_eq!(tinyfusion_core::chat::judge_request_failure_text("y"), "Judge request failed: y");
}

#[test]
fn panel_call_carries_subrequest_marker() {
    let mut fusion = FusionConfig::default();
    fusion.models.insert("p".into(), ModelEntry {
        provider: "x".into(),
        endpoint: "http://p".into(),
        model_id: "pm".into(),
        api_key: None,
        tier: None,
        is_local: None,
        chat_path: Some("/api/v4/chat/completions".into()),
    });
    let call = panel_call(&fusion, "p").ok().unwrap();
    assert_eq!(call.subrequest, ("x-tinyfusion-subrequest".to_string(), "1".to_string()));
    assert_eq!(call.url, "http://p/api/v4/chat/completions");
    assert_eq!(call.model_id, "pm");
}

#[test]
fn lost_panel_task_is_recorded_as_unknown() {
    let mut ctx = PipelineContext::new("r".into(), vec![Message::user("q")], vec!["a".into(), "b".into()], "j".into(), false);
    let outcomes = vec![
        PanelOutcome::Lost("task panicked".into()),
        PanelOutcome::Finished(Ok("fine".into()), 12),
    ];
    assert!(PanelDispatcher.collect(&mut ctx, outcomes).is_ok());
    assert_eq!(ctx.panel_responses[0].model_name, "unknown");
    assert_eq!(ctx.panel_responses[0].content, Err("Task join error: task panicked".to_string()));
    assert_eq!(ctx.panel_responses[0].latency_ms, 0);
    assert_eq!(ctx.panel_responses[1].model_name, "b");
    assert_eq!(ctx.panel_responses[1].latency_ms, 12);
}

#[test]
fn judge_texts_and_default_judge() {
    assert_eq!(tinyfusion_core::chat::judge_status_error("502", "bad"), "Judge returned 502: bad");
    let fusion = FusionConfig::default();
    assert_eq!(tinyfusion_core::chat::judge_model_for(Some("j1".into()), &fusion), "j1");
    assert_eq!(tinyfusion_core::chat::judge_model_for(None, &fusion), fusion.default_judge_model);
}

#[test]
fn keywords_match_regardless_of_ascii_case() {
    let messages = vec![Message::user("We hit a COMPILE ERROR today")];
    let kws = vec!["Compile Error".to_string()];
    assert_eq!(classify_complexity(&messages, &kws, &RoutingConfig::default()), ModelTier::Medium);
}

#[test]
fn parsed_payloads_feed_and_relay() {
    let mut acc = StreamingToolCallAccumulator::new();
    assert!(matches!(acc.feed_document(None), ParseResult::Continue));
    let doc = tinyfusion_core::chat::error_body("x", "y");
    assert!(matches!(acc.feed_document(Some(doc)), ParseResult::Continue));
    assert_eq!(acc.text_content, "");
    assert!(matches!(acc.feed_sse_data(r#"{"choices":[{"delta":{"content":"hi"}}]}"#), ParseResult::TextDelta(_)));
    assert_eq!(acc.text_content, "hi");
    assert!(matches!(tinyfusion_core::chat::judge_stream_payload(None), StreamLine::Skip));
}
