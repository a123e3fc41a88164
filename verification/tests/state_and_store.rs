//! Session records, the in-memory store and the decide operation.

use roz::cli::decide;
use roz::engine::circuit_breaker::{should_trip, trip};
use roz::engine::state::{
    AttemptOutcome, Decision, DecisionRecord, EventType, GateTrigger, ReviewAttempt, ReviewState,
    SessionState, TraceEvent, TruncatedInput,
};
use roz::config::CircuitBreakerConfig;
use roz::error::Error;
use roz::json::JsonValue;
use roz::storage::{MemoryBackend, MessageStore};
use roz::time::Timestamp;

fn now() -> Timestamp {
    let t = chrono::Utc::now();
    Timestamp { secs: t.timestamp(), nanos: t.timestamp_subsec_nanos() }
}

fn text(value: &str) -> JsonValue {
    JsonValue::Str(value.to_string())
}

fn number(value: i64) -> JsonValue {
    JsonValue::Number(value.to_string())
}

fn object(members: Vec<(&str, JsonValue)>) -> JsonValue {
    JsonValue::Object(members.into_iter().map(|(k, v)| (k.to_string(), v)).collect())
}

#[test]
fn session_state_new() {
    let state = SessionState::new("test-123");
    assert_eq!(state.session_id, "test-123");
    assert!(!state.review.enabled);
    assert_eq!(state.review.decision, Decision::Pending);
    assert!(state.trace.is_empty());
}

#[test]
fn review_state_default() {
    let review = ReviewState::default();
    assert!(!review.enabled);
    assert_eq!(review.decision, Decision::Pending);
    assert!(review.user_prompts.is_empty());
    assert_eq!(review.block_count, 0);
    assert!(!review.circuit_breaker_tripped);
    assert!(review.gate_trigger.is_none());
    assert!(review.gate_approved_at.is_none());
    assert!(review.review_started_at.is_none());
    assert!(review.attempts.is_empty());
}

#[test]
fn truncated_input_small_value() {
    let value = object(vec![("key", text("small value"))]);
    let truncated = TruncatedInput::from_value(value.clone());

    assert!(!truncated.truncated);
    assert!(truncated.original_hash.is_none());
    assert!(truncated.original_size.is_none());
    assert_eq!(truncated.value, value);
}

#[test]
fn truncated_input_large_string() {
    let large_string = "x".repeat(15_000);
    let value = text(&large_string);
    let truncated = TruncatedInput::from_value(value);

    assert!(truncated.truncated);
    assert!(truncated.original_hash.is_some());
    assert_eq!(truncated.original_size, Some(15_002));
    if let JsonValue::Str(s) = &truncated.value {
        assert!(s.contains("truncated"));
        assert!(s.len() < 500);
    } else {
        panic!("Expected string value");
    }
}

#[test]
fn truncated_input_large_array() {
    let value = JsonValue::Array((1..=15).map(number).collect());
    let truncated = TruncatedInput::from_value(value);

    if let JsonValue::Array(arr) = truncated.value {
        assert_eq!(arr.len(), 15);
    }
}

#[test]
fn should_trip_below_limit() {
    let mut state = SessionState::new("test-123");
    state.review.block_count = 2;

    let config = CircuitBreakerConfig { max_blocks: 3, cooldown_seconds: 300 };

    assert!(!should_trip(&state, &config));
}

#[test]
fn should_trip_at_limit() {
    let mut state = SessionState::new("test-123");
    state.review.block_count = 3;

    let config = CircuitBreakerConfig { max_blocks: 3, cooldown_seconds: 300 };

    assert!(should_trip(&state, &config));
}

#[test]
fn should_trip_above_limit() {
    let mut state = SessionState::new("test-123");
    state.review.block_count = 5;

    let config = CircuitBreakerConfig { max_blocks: 3, cooldown_seconds: 300 };

    assert!(should_trip(&state, &config));
}

#[test]
fn should_trip_already_tripped() {
    let mut state = SessionState::new("test-123");
    state.review.circuit_breaker_tripped = true;
    state.review.block_count = 1;

    let config = CircuitBreakerConfig { max_blocks: 3, cooldown_seconds: 300 };

    assert!(should_trip(&state, &config));
}

#[test]
fn trip_sets_flags() {
    let mut state = SessionState::new("test-123");
    state.review.enabled = true;
    state.review.block_count = 3;

    trip(&mut state);

    assert!(state.review.circuit_breaker_tripped);
    assert!(!state.review.enabled);
}

#[test]
fn memory_get_missing_session() {
    let store = MemoryBackend::new();
    let result = store.get_session("nonexistent").unwrap();
    assert!(result.is_none());
}

#[test]
fn memory_put_and_get_session() {
    let mut store = MemoryBackend::new();
    let state = SessionState::new("test-123");

    store.put_session(&state).unwrap();

    let retrieved = store.get_session("test-123").unwrap().unwrap();
    assert_eq!(retrieved.session_id, "test-123");
}

#[test]
fn memory_list_sessions_empty() {
    let store = MemoryBackend::new();
    let sessions = store.list_sessions(10).unwrap();
    assert!(sessions.is_empty());
}

#[test]
fn memory_list_sessions_with_data() {
    let mut store = MemoryBackend::new();

    store.put_session(&SessionState::new("session-1")).unwrap();
    store.put_session(&SessionState::new("session-2")).unwrap();

    let sessions = store.list_sessions(10).unwrap();
    assert_eq!(sessions.len(), 2);
}

#[test]
fn list_sessions_respects_limit() {
    let mut store = MemoryBackend::new();

    for i in 0..5 {
        store.put_session(&SessionState::new(&format!("session-{i}"))).unwrap();
    }

    let sessions = store.list_sessions(3).unwrap();
    assert_eq!(sessions.len(), 3);
}

#[test]
fn delete_session_removes_session() {
    let mut store = MemoryBackend::new();
    let state = SessionState::new("test-123");

    store.put_session(&state).unwrap();
    assert!(store.get_session("test-123").unwrap().is_some());

    store.delete_session("test-123").unwrap();
    assert!(store.get_session("test-123").unwrap().is_none());
}

#[test]
fn memory_delete_nonexistent_session_succeeds() {
    let mut store = MemoryBackend::new();
    store.delete_session("nonexistent").unwrap();
}

#[test]
fn trace_event_formatting() {
    let mut store = MemoryBackend::new();

    let mut state = SessionState::new("test-trace");
    state.trace.push(TraceEvent {
        id: "evt-1".to_string(),
        timestamp: now(),
        event_type: EventType::SessionStart,
        payload: object(vec![("source", text("startup"))]),
    });
    state.trace.push(TraceEvent {
        id: "evt-2".to_string(),
        timestamp: now(),
        event_type: EventType::PromptReceived,
        payload: object(vec![("prompt", text("#roz test"))]),
    });
    store.put_session(&state).unwrap();

    let retrieved = store.get_session("test-trace").unwrap().unwrap();
    assert_eq!(retrieved.trace.len(), 2);
    assert_eq!(retrieved.trace[0].event_type, EventType::SessionStart);
    assert_eq!(retrieved.trace[1].event_type, EventType::PromptReceived);
}

#[test]
fn trace_empty_session() {
    let mut store = MemoryBackend::new();

    let state = SessionState::new("test-empty-trace");
    store.put_session(&state).unwrap();

    let retrieved = store.get_session("test-empty-trace").unwrap().unwrap();
    assert!(retrieved.trace.is_empty());
}

#[test]
fn trace_all_event_types() {
    let mut store = MemoryBackend::new();

    let mut state = SessionState::new("test-all-events");
    let event_types = vec![
        EventType::SessionStart,
        EventType::PromptReceived,
        EventType::GateBlocked,
        EventType::GateAllowed,
        EventType::ToolCompleted,
        EventType::StopHookCalled,
        EventType::RozDecision,
        EventType::TraceCompacted,
        EventType::SessionEnd,
    ];

    for (i, event_type) in event_types.iter().enumerate() {
        state.trace.push(TraceEvent {
            id: format!("evt-{i}"),
            timestamp: now(),
            event_type: *event_type,
            payload: object(vec![("type", text(&format!("{:?}", event_type)))]),
        });
    }
    store.put_session(&state).unwrap();

    let retrieved = store.get_session("test-all-events").unwrap().unwrap();
    assert_eq!(retrieved.trace.len(), 9);
}

#[test]
fn trace_large_payload() {
    let mut store = MemoryBackend::new();

    let mut state = SessionState::new("test-large-payload");
    let large_data = "x".repeat(10000);
    state.trace.push(TraceEvent {
        id: "evt-large".to_string(),
        timestamp: now(),
        event_type: EventType::ToolCompleted,
        payload: object(vec![("output", text(&large_data))]),
    });
    store.put_session(&state).unwrap();

    let retrieved = store.get_session("test-large-payload").unwrap().unwrap();
    assert_eq!(retrieved.trace.len(), 1);
    assert!(retrieved.trace[0].payload.get("output").unwrap().as_str().unwrap().len() == 10000);
}

#[test]
fn trace_complex_nested_payload() {
    let mut store = MemoryBackend::new();

    let mut state = SessionState::new("test-nested");
    state.trace.push(TraceEvent {
        id: "evt-nested".to_string(),
        timestamp: now(),
        event_type: EventType::GateBlocked,
        payload: object(vec![
            ("tool", text("Bash")),
            (
                "input",
                object(vec![
                    ("command", text("rm -rf /")),
                    ("flags", JsonValue::Array(vec![text("--force"), text("--recursive")])),
                ]),
            ),
            (
                "context",
                object(vec![
                    ("session", text("test")),
                    ("user", object(vec![("name", text("developer"))])),
                ]),
            ),
        ]),
    });
    store.put_session(&state).unwrap();

    let retrieved = store.get_session("test-nested").unwrap().unwrap();
    let payload = &retrieved.trace[0].payload;
    assert_eq!(payload.get("tool"), Some(&text("Bash")));
    assert_eq!(payload.get("input").unwrap().get("command"), Some(&text("rm -rf /")));
}

#[test]
fn context_session_with_gate_trigger() {
    let mut store = MemoryBackend::new();

    let mut state = SessionState::new("test-gate-context");
    state.review.enabled = true;
    state.review.gate_trigger = Some(GateTrigger {
        tool_name: "mcp__tissue__close".to_string(),
        tool_input: TruncatedInput::from_value(object(vec![("issue_id", number(123))])),
        triggered_at: now(),
        pattern_matched: "mcp__tissue__close*".to_string(),
    });
    store.put_session(&state).unwrap();

    let retrieved = store.get_session("test-gate-context").unwrap().unwrap();
    let trigger = retrieved.review.gate_trigger.unwrap();
    assert_eq!(trigger.tool_name, "mcp__tissue__close");
    assert_eq!(trigger.pattern_matched, "mcp__tissue__close*");
}

#[test]
fn context_session_with_multiple_prompts() {
    let mut store = MemoryBackend::new();

    let mut state = SessionState::new("test-multi-prompt");
    state.review.enabled = true;
    state.review.user_prompts.push("#roz First task".to_string());
    state.review.user_prompts.push("#roz Second task with more detail".to_string());
    state.review.user_prompts.push("#roz Third task".to_string());
    store.put_session(&state).unwrap();

    let retrieved = store.get_session("test-multi-prompt").unwrap().unwrap();
    assert_eq!(retrieved.review.user_prompts.len(), 3);
}

#[test]
fn context_session_with_decision_states() {
    let mut store = MemoryBackend::new();

    let mut state = SessionState::new("test-pending");
    state.review.enabled = true;
    state.review.decision = Decision::Pending;
    store.put_session(&state).unwrap();
    let retrieved = store.get_session("test-pending").unwrap().unwrap();
    assert!(matches!(retrieved.review.decision, Decision::Pending));

    let mut state = SessionState::new("test-complete");
    state.review.enabled = true;
    state.review.decision = Decision::Complete {
        summary: "All verified".to_string(),
        second_opinions: Some("External review agreed".to_string()),
    };
    store.put_session(&state).unwrap();
    let retrieved = store.get_session("test-complete").unwrap().unwrap();
    if let Decision::Complete { summary, second_opinions } = &retrieved.review.decision {
        assert_eq!(summary, "All verified");
        assert_eq!(second_opinions, &Some("External review agreed".to_string()));
    } else {
        panic!("Expected Complete decision");
    }

    let mut state = SessionState::new("test-issues");
    state.review.enabled = true;
    state.review.decision = Decision::Issues {
        summary: "Found problems".to_string(),
        message_to_agent: Some("Please fix the tests".to_string()),
    };
    store.put_session(&state).unwrap();
    let retrieved = store.get_session("test-issues").unwrap().unwrap();
    if let Decision::Issues { summary, message_to_agent } = &retrieved.review.decision {
        assert_eq!(summary, "Found problems");
        assert_eq!(message_to_agent, &Some("Please fix the tests".to_string()));
    } else {
        panic!("Expected Issues decision");
    }
}

#[test]
fn context_empty_prompts() {
    let mut store = MemoryBackend::new();

    let state = SessionState::new("test-no-prompts");
    store.put_session(&state).unwrap();

    let retrieved = store.get_session("test-no-prompts").unwrap().unwrap();
    assert!(retrieved.review.user_prompts.is_empty());
}

#[test]
fn debug_session_not_found_error() {
    let result = Error::SessionNotFound("nonexistent".to_string());
    assert!(result.message().contains("nonexistent"));
}

fn create_test_session(store: &mut MemoryBackend, session_id: &str) {
    let mut state = SessionState::new(session_id);
    state.review.enabled = true;
    store.put_session(&state).unwrap();
}

fn create_test_session_with_attempt(store: &mut MemoryBackend, session_id: &str, block_count: u32) {
    let mut state = SessionState::new(session_id);
    state.review.enabled = true;
    state.review.block_count = block_count;
    state.review.attempts.push(ReviewAttempt {
        template_id: "default".to_string(),
        timestamp: now(),
        outcome: AttemptOutcome::Pending,
    });
    store.put_session(&state).unwrap();
}

#[test]
fn decide_complete() {
    let mut store = MemoryBackend::new();
    create_test_session(&mut store, "test-123");

    let mut state = store.get_session("test-123").unwrap().unwrap();
    let now = now();

    state
        .review
        .decision_history
        .push(DecisionRecord { decision: state.review.decision.clone(), timestamp: now });
    state.review.decision =
        Decision::Complete { summary: "All good".to_string(), second_opinions: None };
    state.updated_at = now;
    store.put_session(&state).unwrap();

    let updated = store.get_session("test-123").unwrap().unwrap();
    assert!(matches!(updated.review.decision, Decision::Complete { .. }));
}

#[test]
fn decide_complete_with_opinions() {
    let mut store = MemoryBackend::new();
    create_test_session(&mut store, "test-opinions");

    let mut state = store.get_session("test-opinions").unwrap().unwrap();
    let now = now();

    state
        .review
        .decision_history
        .push(DecisionRecord { decision: state.review.decision.clone(), timestamp: now });
    state.review.decision = Decision::Complete {
        summary: "Verified correct".to_string(),
        second_opinions: Some("Codex agreed, Gemini agreed".to_string()),
    };
    state.updated_at = now;
    store.put_session(&state).unwrap();

    let updated = store.get_session("test-opinions").unwrap().unwrap();
    if let Decision::Complete { summary, second_opinions } = &updated.review.decision {
        assert_eq!(summary, "Verified correct");
        assert_eq!(second_opinions, &Some("Codex agreed, Gemini agreed".to_string()));
    } else {
        panic!("Expected Complete decision");
    }
}

#[test]
fn decide_issues() {
    let mut store = MemoryBackend::new();
    create_test_session(&mut store, "test-456");

    let mut state = store.get_session("test-456").unwrap().unwrap();
    let now = now();

    state
        .review
        .decision_history
        .push(DecisionRecord { decision: state.review.decision.clone(), timestamp: now });
    state.review.decision = Decision::Issues {
        summary: "Found bugs".to_string(),
        message_to_agent: Some("Fix the tests".to_string()),
    };
    state.updated_at = now;
    store.put_session(&state).unwrap();

    let updated = store.get_session("test-456").unwrap().unwrap();
    if let Decision::Issues { summary, message_to_agent } = &updated.review.decision {
        assert_eq!(summary, "Found bugs");
        assert_eq!(message_to_agent, &Some("Fix the tests".to_string()));
    } else {
        panic!("Expected Issues decision");
    }
}

#[test]
fn decision_preserves_history() {
    let mut store = MemoryBackend::new();
    create_test_session(&mut store, "test-789");

    let mut state = store.get_session("test-789").unwrap().unwrap();
    assert!(state.review.decision_history.is_empty());

    let now = now();
    state
        .review
        .decision_history
        .push(DecisionRecord { decision: state.review.decision.clone(), timestamp: now });
    state.review.decision =
        Decision::Complete { summary: "First review".to_string(), second_opinions: None };
    store.put_session(&state).unwrap();

    let updated = store.get_session("test-789").unwrap().unwrap();
    assert_eq!(updated.review.decision_history.len(), 1);
}

#[test]
fn decide_updates_attempt_outcome_on_complete() {
    let mut store = MemoryBackend::new();
    create_test_session_with_attempt(&mut store, "test-attempt", 2);

    let state = store.get_session("test-attempt").unwrap().unwrap();
    assert_eq!(state.review.attempts.len(), 1);
    assert!(matches!(state.review.attempts[0].outcome, AttemptOutcome::Pending));

    decide::run(&mut store, "test-attempt", "COMPLETE", "Test complete", None, None, 500).unwrap();

    let updated = store.get_session("test-attempt").unwrap().unwrap();
    assert_eq!(updated.review.attempts.len(), 1);
    match &updated.review.attempts[0].outcome {
        AttemptOutcome::Success { decision_type, blocks_needed } => {
            assert_eq!(decision_type, "complete");
            assert_eq!(*blocks_needed, 2);
        }
        other => panic!("Expected Success outcome, got {other:?}"),
    }
}

#[test]
fn decide_updates_attempt_outcome_on_issues() {
    let mut store = MemoryBackend::new();
    create_test_session_with_attempt(&mut store, "test-issues-attempt", 1);

    decide::run(
        &mut store,
        "test-issues-attempt",
        "ISSUES",
        "Found issues",
        Some("Fix them"),
        None,
        500,
    )
    .unwrap();

    let updated = store.get_session("test-issues-attempt").unwrap().unwrap();
    match &updated.review.attempts[0].outcome {
        AttemptOutcome::Success { decision_type, blocks_needed } => {
            assert_eq!(decision_type, "issues");
            assert_eq!(*blocks_needed, 1);
        }
        other => panic!("Expected Success outcome, got {other:?}"),
    }
}

#[test]
fn list_empty_store() {
    let store = MemoryBackend::new();
    let sessions = store.list_sessions(10).unwrap();
    assert!(sessions.is_empty());
}

#[test]
fn list_sessions_returns_sessions() {
    let mut store = MemoryBackend::new();

    let mut state1 = SessionState::new("session-1");
    state1.review.user_prompts.push("#roz first prompt".to_string());
    store.put_session(&state1).unwrap();

    let mut state2 = SessionState::new("session-2");
    state2.review.user_prompts.push("#roz second prompt".to_string());
    store.put_session(&state2).unwrap();

    let sessions = store.list_sessions(10).unwrap();
    assert_eq!(sessions.len(), 2);
}

#[test]
fn list_respects_limit() {
    let mut store = MemoryBackend::new();

    for i in 0..5 {
        let state = SessionState::new(&format!("session-{i}"));
        store.put_session(&state).unwrap();
    }

    let sessions = store.list_sessions(3).unwrap();
    assert_eq!(sessions.len(), 3);
}
