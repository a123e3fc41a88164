//! Whole flows through the hooks.

use roz::config::{ApprovalScope, Config, GatesConfig, ReviewConfig};
use roz::engine::state::{AttemptOutcome, Decision, DecisionRecord, SessionState};
use roz::engine::{handle_pre_tool_use, handle_stop, handle_subagent_stop, handle_user_prompt};
use roz::hooks::{HookDecision, HookInput, HostContext, PermissionDecision};
use roz::json::JsonValue;
use roz::storage::{MemoryBackend, MessageStore};
use roz::time::Timestamp;

fn now() -> Timestamp {
    let t = chrono::Utc::now();
    Timestamp { secs: t.timestamp(), nanos: t.timestamp_subsec_nanos() }
}

fn ago(secs: i64) -> Timestamp {
    let t = now();
    Timestamp { secs: t.secs - secs, nanos: t.nanos }
}

fn make_input(session_id: &str) -> HookInput {
    HookInput {
        session_id: session_id.to_string(),
        cwd: "/tmp".to_string(),
        prompt: None,
        tool_name: None,
        tool_input: None,
        tool_response: None,
        source: None,
        subagent_type: None,
        subagent_prompt: None,
        subagent_started_at: None,
    }
}

fn host() -> HostContext {
    HostContext::default()
}

#[test]
fn full_flow_user_prompt_to_complete() {
    let mut store = MemoryBackend::new();
    let session_id = "flow-test-1";

    let mut input = make_input(session_id);
    input.prompt = Some("#roz fix the authentication bug".to_string());
    let output = handle_user_prompt(&input, &mut store);
    assert!(output.decision.is_none(), "expected approve (decision=None)");

    let state = store.get_session(session_id).unwrap().unwrap();
    assert!(state.review.enabled);
    assert_eq!(state.review.decision, Decision::Pending);

    let input = make_input(session_id);
    let output = handle_stop(&input, &mut store, &host());
    assert!(matches!(output.decision, Some(HookDecision::Block)));
    assert!(output.reason.is_some());
    assert!(output.reason.as_ref().unwrap().contains("roz:roz"));

    let mut state = store.get_session(session_id).unwrap().unwrap();
    let now = now();
    state
        .review
        .decision_history
        .push(DecisionRecord { decision: state.review.decision.clone(), timestamp: now });
    state.review.decision =
        Decision::Complete { summary: "All changes look good".to_string(), second_opinions: None };
    state.updated_at = now;
    store.put_session(&state).unwrap();

    let input = make_input(session_id);
    let output = handle_stop(&input, &mut store, &host());
    assert!(output.decision.is_none(), "expected approve (decision=None)");
}

#[test]
fn full_flow_with_issues() {
    let mut store = MemoryBackend::new();
    let session_id = "flow-test-2";

    let mut input = make_input(session_id);
    input.prompt = Some("#roz add new feature".to_string());
    handle_user_prompt(&input, &mut store);

    let input = make_input(session_id);
    let output = handle_stop(&input, &mut store, &host());
    assert!(matches!(output.decision, Some(HookDecision::Block)));

    let mut state = store.get_session(session_id).unwrap().unwrap();
    state.review.decision = Decision::Issues {
        summary: "Missing test coverage".to_string(),
        message_to_agent: Some("Add unit tests for the new feature".to_string()),
    };
    state.updated_at = now();
    store.put_session(&state).unwrap();

    let input = make_input(session_id);
    let output = handle_stop(&input, &mut store, &host());
    assert!(matches!(output.decision, Some(HookDecision::Block)));
    assert!(output.reason.as_ref().unwrap().contains("Add unit tests for the new feature"));

    let mut state = store.get_session(session_id).unwrap().unwrap();
    state.review.decision = Decision::Complete {
        summary: "Tests added, looks good now".to_string(),
        second_opinions: None,
    };
    state.updated_at = now();
    store.put_session(&state).unwrap();

    let input = make_input(session_id);
    let output = handle_stop(&input, &mut store, &host());
    assert!(output.decision.is_none(), "expected approve (decision=None)");
}

#[test]
fn subagent_stop_validates_timestamp() {
    let mut store = MemoryBackend::new();
    let session_id = "subagent-test";

    let mut state = SessionState::new(session_id);
    state.review.enabled = true;
    store.put_session(&state).unwrap();

    let subagent_started = now();

    let mut state = store.get_session(session_id).unwrap().unwrap();
    state.review.decision =
        Decision::Complete { summary: "All good".to_string(), second_opinions: None };
    state.updated_at = now();
    store.put_session(&state).unwrap();

    let mut input = make_input("main-session");
    input.subagent_type = Some("roz:roz".to_string());
    input.subagent_prompt = Some(format!("SESSION_ID={session_id}\n\n## Summary\nReviewed"));
    input.subagent_started_at = Some(subagent_started);

    let output = handle_subagent_stop(&input, &store);
    assert!(output.decision.is_none(), "expected approve (decision=None)");
}

#[test]
fn subagent_stop_rejects_pre_existing_decision() {
    let mut store = MemoryBackend::new();
    let session_id = "subagent-test-reject";

    let old_decision_time = ago(2 * 3600);
    let mut state = SessionState::new(session_id);
    state.review.enabled = true;
    state.review.decision =
        Decision::Complete { summary: "Old decision".to_string(), second_opinions: None };
    state.updated_at = old_decision_time;
    store.put_session(&state).unwrap();

    let subagent_started = now();

    let mut input = make_input("main-session");
    input.subagent_type = Some("roz:roz".to_string());
    input.subagent_prompt = Some(format!("SESSION_ID={session_id}\n\n## Summary"));
    input.subagent_started_at = Some(subagent_started);

    let output = handle_subagent_stop(&input, &store);
    assert!(matches!(output.decision, Some(HookDecision::Block)));
    assert!(output.reason.as_ref().unwrap().contains("before roz started"));
}

#[test]
fn subagent_stop_rejects_decision_after_end() {
    let mut store = MemoryBackend::new();
    let session_id = "subagent-test-after";

    let subagent_started = ago(10 * 60);

    let mut state = SessionState::new(session_id);
    state.review.enabled = true;
    state.review.decision =
        Decision::Complete { summary: "Late decision".to_string(), second_opinions: None };
    state.updated_at = now();
    store.put_session(&state).unwrap();

    let mut input = make_input("main-session");
    input.subagent_type = Some("roz:roz".to_string());
    input.subagent_prompt = Some(format!("SESSION_ID={session_id}\n\n## Summary"));
    input.subagent_started_at = Some(subagent_started);

    // the decision was made just now, and the hook takes its own time as the
    // end of the run, so the decision lies within the window
    let output = handle_subagent_stop(&input, &store);
    assert!(output.decision.is_none(), "expected approve (decision=None)");
}

#[test]
fn block_count_increments() {
    let mut store = MemoryBackend::new();
    let session_id = "block-count-test";

    let mut input = make_input(session_id);
    input.prompt = Some("#roz test".to_string());
    handle_user_prompt(&input, &mut store);

    let input = make_input(session_id);
    handle_stop(&input, &mut store, &host());

    let state = store.get_session(session_id).unwrap().unwrap();
    assert_eq!(state.review.block_count, 1);

    handle_stop(&input, &mut store, &host());
    let state = store.get_session(session_id).unwrap().unwrap();
    assert_eq!(state.review.block_count, 2);

    handle_stop(&input, &mut store, &host());
    let state = store.get_session(session_id).unwrap().unwrap();
    assert_eq!(state.review.block_count, 3);
}

#[test]
fn no_review_means_no_block() {
    let mut store = MemoryBackend::new();
    let session_id = "no-review-test";

    let mut input = make_input(session_id);
    input.prompt = Some("fix the bug".to_string());
    handle_user_prompt(&input, &mut store);

    let input = make_input(session_id);
    let output = handle_stop(&input, &mut store, &host());
    assert!(output.decision.is_none(), "expected approve (decision=None)");
}

fn make_gate_input(session_id: &str, tool_name: &str) -> HookInput {
    HookInput {
        session_id: session_id.to_string(),
        cwd: "/tmp".to_string(),
        prompt: None,
        tool_name: Some(tool_name.to_string()),
        tool_input: Some(JsonValue::Object(vec![(
            "arg".to_string(),
            JsonValue::Str("value".to_string()),
        )])),
        tool_response: None,
        source: None,
        subagent_type: None,
        subagent_prompt: None,
        subagent_started_at: None,
    }
}

fn make_config_with_gates(tools: Vec<&str>, scope: ApprovalScope) -> Config {
    Config {
        review: ReviewConfig {
            gates: GatesConfig {
                tools: tools.into_iter().map(String::from).collect(),
                approval_scope: scope,
                approval_ttl_seconds: None,
            },
            ..Default::default()
        },
        ..Default::default()
    }
}

#[test]
fn gate_session_scope_allows_after_approval() {
    let mut store = MemoryBackend::new();
    let session_id = "gate-session-scope";
    let config = make_config_with_gates(vec!["mcp__test__*"], ApprovalScope::Session);

    let state = SessionState::new(session_id);
    store.put_session(&state).unwrap();

    let input = make_gate_input(session_id, "mcp__test__action1");
    let output = handle_pre_tool_use(&input, &config, &mut store);
    assert_eq!(output.hook_specific_output.permission_decision, PermissionDecision::Deny);

    let mut state = store.get_session(session_id).unwrap().unwrap();
    state.review.decision =
        Decision::Complete { summary: "Approved".to_string(), second_opinions: None };
    state.review.gate_approved_at = Some(now());
    store.put_session(&state).unwrap();

    let input = make_gate_input(session_id, "mcp__test__action2");
    let output = handle_pre_tool_use(&input, &config, &mut store);
    assert_eq!(output.hook_specific_output.permission_decision, PermissionDecision::Allow);
}

#[test]
fn gate_prompt_scope_resets_on_new_prompt() {
    let mut store = MemoryBackend::new();
    let session_id = "gate-prompt-scope";
    let config = make_config_with_gates(vec!["mcp__test__*"], ApprovalScope::Prompt);

    let mut state = SessionState::new(session_id);
    state.review.decision =
        Decision::Complete { summary: "Approved".to_string(), second_opinions: None };
    state.review.gate_approved_at = Some(now());
    state.review.last_prompt_at = Some(ago(3600));
    store.put_session(&state).unwrap();

    let input = make_gate_input(session_id, "mcp__test__action");
    let output = handle_pre_tool_use(&input, &config, &mut store);
    assert_eq!(output.hook_specific_output.permission_decision, PermissionDecision::Allow);

    let mut state = store.get_session(session_id).unwrap().unwrap();
    state.review.last_prompt_at = Some(now());
    store.put_session(&state).unwrap();

    let input = make_gate_input(session_id, "mcp__test__action");
    let output = handle_pre_tool_use(&input, &config, &mut store);
    assert_eq!(output.hook_specific_output.permission_decision, PermissionDecision::Deny);
}

#[test]
fn gate_tool_scope_requires_fresh_review_each_time() {
    let mut store = MemoryBackend::new();
    let session_id = "gate-tool-scope";
    let config = make_config_with_gates(vec!["mcp__test__*"], ApprovalScope::Tool);

    let mut state = SessionState::new(session_id);
    state.review.decision =
        Decision::Complete { summary: "Approved".to_string(), second_opinions: None };
    state.review.gate_approved_at = Some(now());
    store.put_session(&state).unwrap();

    let input = make_gate_input(session_id, "mcp__test__action");
    let output = handle_pre_tool_use(&input, &config, &mut store);
    assert_eq!(output.hook_specific_output.permission_decision, PermissionDecision::Deny);
}

#[test]
fn gate_non_matching_tool_allows() {
    let mut store = MemoryBackend::new();
    let session_id = "gate-non-match";
    let config = make_config_with_gates(vec!["mcp__tissue__*"], ApprovalScope::Session);

    let state = SessionState::new(session_id);
    store.put_session(&state).unwrap();

    let input = make_gate_input(session_id, "Read");
    let output = handle_pre_tool_use(&input, &config, &mut store);
    assert_eq!(output.hook_specific_output.permission_decision, PermissionDecision::Allow);
}

#[test]
fn gate_empty_tools_allows_all() {
    let mut store = MemoryBackend::new();
    let session_id = "gate-empty";
    let config = make_config_with_gates(vec![], ApprovalScope::Session);

    let state = SessionState::new(session_id);
    store.put_session(&state).unwrap();

    let input = make_gate_input(session_id, "mcp__anything__action");
    let output = handle_pre_tool_use(&input, &config, &mut store);
    assert_eq!(output.hook_specific_output.permission_decision, PermissionDecision::Allow);
}

#[test]
fn gate_circuit_breaker_allows() {
    let mut store = MemoryBackend::new();
    let session_id = "gate-circuit-breaker";
    let config = make_config_with_gates(vec!["mcp__test__*"], ApprovalScope::Session);

    let mut state = SessionState::new(session_id);
    state.review.circuit_breaker_tripped = true;
    store.put_session(&state).unwrap();

    let input = make_gate_input(session_id, "mcp__test__action");
    let output = handle_pre_tool_use(&input, &config, &mut store);
    assert_eq!(output.hook_specific_output.permission_decision, PermissionDecision::Allow);
}

#[test]
fn full_gate_flow_block_approve_allow() {
    let mut store = MemoryBackend::new();
    let session_id = "gate-full-flow";
    let config = make_config_with_gates(vec!["mcp__tissue__close*"], ApprovalScope::Session);

    let state = SessionState::new(session_id);
    store.put_session(&state).unwrap();

    let input = make_gate_input(session_id, "mcp__tissue__close_issue");
    let output = handle_pre_tool_use(&input, &config, &mut store);
    assert_eq!(output.hook_specific_output.permission_decision, PermissionDecision::Deny);

    let state = store.get_session(session_id).unwrap().unwrap();
    assert!(state.review.enabled);
    assert!(state.review.gate_trigger.is_some());
    assert_eq!(state.review.gate_trigger.as_ref().unwrap().tool_name, "mcp__tissue__close_issue");

    let mut state = store.get_session(session_id).unwrap().unwrap();
    state.review.decision =
        Decision::Complete { summary: "Reviewed and approved".to_string(), second_opinions: None };
    state.review.gate_approved_at = Some(now());
    store.put_session(&state).unwrap();

    let input = make_gate_input(session_id, "mcp__tissue__close_issue");
    let output = handle_pre_tool_use(&input, &config, &mut store);
    assert_eq!(output.hook_specific_output.permission_decision, PermissionDecision::Allow);
}

#[test]
fn stop_hook_creates_pending_attempt() {
    let mut store = MemoryBackend::new();
    let session_id = "attempt-tracking-test";

    let mut input = make_input(session_id);
    input.prompt = Some("#roz test attempt tracking".to_string());
    handle_user_prompt(&input, &mut store);

    let input = make_input(session_id);
    let output = handle_stop(&input, &mut store, &host());
    assert!(matches!(output.decision, Some(HookDecision::Block)));

    let state = store.get_session(session_id).unwrap().unwrap();
    assert_eq!(state.review.attempts.len(), 1);
    assert!(matches!(state.review.attempts[0].outcome, AttemptOutcome::Pending));
    assert_eq!(state.review.attempts[0].template_id, "default");
}

#[test]
fn decide_updates_attempt_outcome_for_stats() {
    let mut store = MemoryBackend::new();
    let session_id = "stats-tracking-test";

    let mut input = make_input(session_id);
    input.prompt = Some("#roz test stats tracking".to_string());
    handle_user_prompt(&input, &mut store);

    let input = make_input(session_id);
    handle_stop(&input, &mut store, &host());

    let state = store.get_session(session_id).unwrap().unwrap();
    assert_eq!(state.review.attempts.len(), 1);
    assert!(matches!(state.review.attempts[0].outcome, AttemptOutcome::Pending));

    let mut state = store.get_session(session_id).unwrap().unwrap();
    let now = now();

    state
        .review
        .decision_history
        .push(DecisionRecord { decision: state.review.decision.clone(), timestamp: now });
    state.review.gate_approved_at = Some(now);

    if let Some(attempt) = state
        .review
        .attempts
        .iter_mut()
        .rev()
        .find(|a| matches!(a.outcome, AttemptOutcome::Pending))
    {
        attempt.outcome = AttemptOutcome::Success {
            decision_type: "complete".to_string(),
            blocks_needed: state.review.block_count,
        };
    }

    state.review.decision =
        Decision::Complete { summary: "All good".to_string(), second_opinions: None };
    state.updated_at = now;
    store.put_session(&state).unwrap();

    let final_state = store.get_session(session_id).unwrap().unwrap();
    assert_eq!(final_state.review.attempts.len(), 1);
    match &final_state.review.attempts[0].outcome {
        AttemptOutcome::Success { decision_type, blocks_needed } => {
            assert_eq!(decision_type, "complete");
            assert_eq!(*blocks_needed, 1);
        }
        other => panic!("Expected Success outcome for stats tracking, got {other:?}"),
    }
}
