//! Exact values: formulas, edge cases, error cases and whole scenarios.

use roz::cli::clean::{clean_sessions, cutoff, parse_duration};
use roz::cli::context::truncate_prompt;
use roz::cli::decide;
use roz::cli::list::format_prompt_preview;
use roz::cli::stats::TemplateStats;
use roz::config::{
    apply_env_overrides, ApprovalScope, Config, EnvOverrides, GatesConfig, ReviewMode, TemplateWeight,
};
use roz::engine::bash::{
    extract_nested_shell_command, find_last_unquoted_pipe, normalize_bash_command, skip_env_command,
    skip_value_str, strip_env_vars,
};
use roz::engine::gates::{
    find_matching_pattern, format_tool_key, glob_answer, glob_match, handle_pre_tool_use,
    is_gate_approved,
};
use roz::engine::hooks::{
    extract_session_id, handle_session_start, handle_stop, handle_stop_with_config,
    handle_subagent_stop, handle_user_prompt, has_opt_in_marker, judge_subagent,
    second_opinion_context,
};
use roz::engine::state::{
    AttemptOutcome, Decision, EventType, ReviewAttempt, SessionState, TraceEvent, TruncatedInput,
};
use roz::engine::trace::push_bounded;
use roz::engine::truncate::{sha256_hex, truncate_json_value};
use roz::error::Error;
use roz::hooks::{
    HookDecision, HookInput, HookOutput, HostContext, PermissionDecision, PreToolUseOutput,
    TemplateFile,
};
use roz::json::JsonValue;
use roz::storage::{FileBackend, MemoryBackend, MessageStore};
use roz::template::{load_template, pick_weighted, render_template};
use roz::text::{read_integer, replace_all};
use roz::time::Timestamp;

fn now() -> Timestamp {
    let t = chrono::Utc::now();
    Timestamp { secs: t.timestamp(), nanos: t.timestamp_subsec_nanos() }
}

fn at(secs: i64) -> Timestamp {
    Timestamp { secs, nanos: 0 }
}

fn input(session_id: &str) -> HookInput {
    HookInput {
        session_id: session_id.to_string(),
        cwd: "/tmp".to_string(),
        prompt: None,
        tool_name: None,
        tool_input: None,
        tool_response: None,
        source: None,
        subagent_type: None,
        subagent_prompt: None,
        subagent_started_at: None,
    }
}

fn host() -> HostContext {
    HostContext::default()
}

fn text(value: &str) -> JsonValue {
    JsonValue::Str(value.to_string())
}

fn number(value: usize) -> JsonValue {
    JsonValue::Number(value.to_string())
}

fn object(members: Vec<(&str, JsonValue)>) -> JsonValue {
    JsonValue::Object(members.into_iter().map(|(k, v)| (k.to_string(), v)).collect())
}

fn event(id: &str) -> TraceEvent {
    TraceEvent {
        id: id.to_string(),
        timestamp: at(100),
        event_type: EventType::ToolCompleted,
        payload: JsonValue::Null,
    }
}

fn gates(tools: Vec<&str>, scope: ApprovalScope, ttl: Option<u64>) -> GatesConfig {
    GatesConfig {
        tools: tools.into_iter().map(String::from).collect(),
        approval_scope: scope,
        approval_ttl_seconds: ttl,
    }
}

fn gate_config(tools: Vec<&str>, scope: ApprovalScope) -> Config {
    let mut config = Config::default();
    config.review.gates = gates(tools, scope, None);
    config
}

fn enabled_session(id: &str) -> SessionState {
    let mut state = SessionState::new(id);
    state.review.enabled = true;
    state
}

// ---- the bounded trace ----

#[test]
fn compaction_keeps_head_marker_and_tail() {
    let mut trace: Vec<TraceEvent> = Vec::new();
    for i in 0..31 {
        push_bounded(&mut trace, event(&format!("evt-{i}")), 30, "marker".to_string(), at(7));
    }
    assert_eq!(trace.len(), 30);
    for i in 0..10 {
        assert_eq!(trace[i].id, format!("evt-{i}"));
    }
    assert_eq!(trace[10].id, "marker");
    assert_eq!(trace[10].timestamp, at(7));
    assert_eq!(trace[10].event_type, EventType::TraceCompacted);
    assert_eq!(
        trace[10].payload,
        object(vec![("dropped_events", number(1)), ("kept_end", number(19)), ("kept_start", number(10))])
    );
    for i in 11..30 {
        assert_eq!(trace[i].id, format!("evt-{}", i + 1));
    }
}

#[test]
fn compaction_with_small_caps() {
    let mut trace: Vec<TraceEvent> = Vec::new();
    push_bounded(&mut trace, event("a"), 0, "m".to_string(), at(1));
    assert!(trace.is_empty());

    let mut trace: Vec<TraceEvent> = Vec::new();
    push_bounded(&mut trace, event("a"), 1, "m".to_string(), at(1));
    assert_eq!(trace.len(), 1);
    assert_eq!(trace[0].id, "a");
    push_bounded(&mut trace, event("b"), 1, "m".to_string(), at(1));
    assert_eq!(trace.len(), 1);
    assert_eq!(trace[0].event_type, EventType::TraceCompacted);

    let mut trace: Vec<TraceEvent> = vec![event("a"), event("b")];
    push_bounded(&mut trace, event("c"), 2, "m".to_string(), at(1));
    assert_eq!(trace.len(), 2);
    assert_eq!(trace[0].id, "a");
    assert_eq!(trace[1].id, "m");

    let mut trace: Vec<TraceEvent> = vec![event("a"), event("b"), event("c")];
    push_bounded(&mut trace, event("d"), 3, "m".to_string(), at(1));
    let ids: Vec<&str> = trace.iter().map(|e| e.id.as_str()).collect();
    assert_eq!(ids, vec!["a", "m", "d"]);
}

#[test]
fn zero_cap_leaves_the_trace_empty_through_the_hooks() {
    let mut store = MemoryBackend::new();
    let mut config = gate_config(vec!["Read"], ApprovalScope::Session);
    config.trace.max_events = 0;
    let call = HookInput { tool_name: Some("Read".to_string()), ..input("s") };
    let output = handle_pre_tool_use(&call, &config, &mut store);
    assert_eq!(output.hook_specific_output.permission_decision, PermissionDecision::Deny);
    assert!(store.get_session("s").unwrap().unwrap().trace.is_empty());
}

#[test]
fn trace_ids_are_fresh() {
    let mut store = MemoryBackend::new();
    let prompt = HookInput { prompt: Some("#roz a".to_string()), ..input("s") };
    handle_user_prompt(&prompt, &mut store);
    handle_user_prompt(&prompt, &mut store);
    let state = store.get_session("s").unwrap().unwrap();
    assert_eq!(state.trace.len(), 2);
    assert_eq!(state.trace[0].id.len(), 36);
    assert_eq!(state.trace[0].id.matches('-').count(), 4);
    assert_ne!(state.trace[0].id, state.trace[1].id);
    assert_eq!(state.trace[0].payload, object(vec![("prompt", text("#roz a"))]));
}

// ---- time ----

#[test]
fn new_session_is_stamped_with_the_clock() {
    let before = now();
    let state = SessionState::new("s");
    let after = now();
    assert!(before <= state.created_at && state.created_at <= after);
    assert_eq!(state.created_at, state.updated_at);
}

#[test]
fn timestamp_text() {
    assert_eq!(at(0).text(), "1970-01-01T00:00:00Z");
    assert_eq!(Timestamp { secs: 1431648000, nanos: 999_999_999 }.text(), "2015-05-15T00:00:00Z");
    assert_eq!(at(i64::MAX).text(), "(out of range)");
}

#[test]
fn timestamp_order() {
    let a = Timestamp { secs: 10, nanos: 5 };
    let b = Timestamp { secs: 10, nanos: 6 };
    assert!(a.is_earlier_than(&b));
    assert!(!b.is_earlier_than(&a));
    assert!(!a.is_earlier_than(&a));
    assert!(b.is_later_than(&a, 0));
    assert!(!b.is_later_than(&a, 1));
    assert!(Timestamp { secs: 11, nanos: 6 }.is_later_than(&a, 1));
    assert!(!Timestamp { secs: 11, nanos: 5 }.is_later_than(&a, 1));
    assert!(!at(i64::MAX).is_later_than(&at(i64::MAX), u64::MAX));
    assert_eq!(at(100).minus_seconds(30), at(70));
    assert_eq!(at(i64::MIN + 5).minus_seconds(30), at(i64::MIN));
}

// ---- JSON and truncation ----

#[test]
fn sha256_of_a_known_text() {
    assert_eq!(
        sha256_hex("abc"),
        "ba7816bf8f01cfea414140de5dae2223b00361a396177a9cb410ff61f20015ad"
    );
    assert_eq!(
        sha256_hex(""),
        "e3b0c44298fc1c149afbf4c8996fb92427ae41e4649b934ca495991b7852b855"
    );
}

#[test]
fn small_input_is_stored_whole() {
    let value = object(vec![("a", JsonValue::Array(vec![JsonValue::Bool(true), JsonValue::Null]))]);
    let stored = TruncatedInput::from_value(value.clone());
    assert_eq!(
        stored,
        TruncatedInput { value, truncated: false, original_hash: None, original_size: None }
    );
}

#[test]
fn input_at_the_limit_is_stored_whole() {
    // the compact text is the string and its two quotes
    let value = text(&"x".repeat(10238));
    assert!(!TruncatedInput::from_value(value).truncated);
    let value = text(&"x".repeat(10239));
    assert!(TruncatedInput::from_value(value).truncated);
}

#[test]
fn large_input_is_cut_with_size_and_hash() {
    let long = "x".repeat(15_000);
    let stored = TruncatedInput::from_value(object(vec![("k", text(&long))]));
    let compact = format!("{{\"k\":\"{long}\"}}");
    assert!(stored.truncated);
    assert_eq!(stored.original_size, Some(compact.len()));
    assert_eq!(stored.original_hash, Some(sha256_hex(&compact)));
    let expected = format!("{}... [truncated, 15000 bytes total]", "x".repeat(200));
    assert_eq!(stored.value, object(vec![("k", text(&expected))]));
}

#[test]
fn compact_text_escapes_and_numbers() {
    // 10 KiB of quotes double in size once escaped
    let value = object(vec![("n", JsonValue::Number("1.5".to_string())), ("q", text(&"\"".repeat(6000)))]);
    let stored = TruncatedInput::from_value(value);
    assert_eq!(stored.original_size, Some("{\"n\":1.5,\"q\":\"\"}".len() + 12000));
}

#[test]
fn long_strings_are_cut_at_whole_characters() {
    let cut = truncate_json_value(&text("ééé"), 3);
    assert_eq!(cut, text("é... [truncated, 6 bytes total]"));
    let cut = truncate_json_value(&text("abcdef"), 0);
    assert_eq!(cut, text("... [truncated, 6 bytes total]"));
    let kept = truncate_json_value(&text("abcdef"), 6);
    assert_eq!(kept, text("abcdef"));
    let long = "é".repeat(300);
    let cut = truncate_json_value(&text(&long), 500);
    assert_eq!(cut, text(&format!("{}... [truncated, 600 bytes total]", "é".repeat(100))));
}

#[test]
fn long_arrays_keep_ten_items() {
    let items: Vec<JsonValue> = (0..12).map(number).collect();
    let cut = truncate_json_value(&JsonValue::Array(items.clone()), 1000);
    let mut expected: Vec<JsonValue> = items[..10].to_vec();
    expected.push(text("... [2 more items]"));
    assert_eq!(cut, JsonValue::Array(expected));

    let ten: Vec<JsonValue> = (0..10).map(|_| text("abcdef")).collect();
    assert_eq!(truncate_json_value(&JsonValue::Array(ten.clone()), 1), JsonValue::Array(ten));

    let eleven: Vec<JsonValue> = (0..11).map(|_| text("abcdef")).collect();
    let cut = truncate_json_value(&JsonValue::Array(eleven), 50);
    if let JsonValue::Array(out) = cut {
        assert_eq!(out.len(), 11);
        assert_eq!(out[0], text("abcde... [truncated, 6 bytes total]"));
        assert_eq!(out[10], text("... [1 more items]"));
    } else {
        panic!("expected an array");
    }
}

#[test]
fn objects_share_their_budget() {
    let value = object(vec![("a", text("abcdef")), ("b", text("abc")), ("c", number(5))]);
    let cut = truncate_json_value(&value, 9);
    assert_eq!(
        cut,
        object(vec![
            ("a", text("abc... [truncated, 6 bytes total]")),
            ("b", text("abc")),
            ("c", number(5)),
        ])
    );
    assert_eq!(truncate_json_value(&object(vec![]), 9), object(vec![]));
}

#[test]
fn json_lookup() {
    let value = object(vec![("a", number(1)), ("b", text("x")), ("a", number(2))]);
    assert_eq!(value.get("a"), Some(&number(1)));
    assert_eq!(value.get("b").and_then(|v| v.as_str()), Some("x"));
    assert_eq!(value.get("c"), None);
    assert_eq!(text("x").get("a"), None);
    assert_eq!(number(1).as_str(), None);
    assert_eq!(JsonValue::count(0), number(0));
    assert_eq!(JsonValue::count(1205), number(1205));
    assert_eq!(JsonValue::count(u64::MAX), JsonValue::Number("18446744073709551615".to_string()));
}

// ---- Bash commands and tool keys ----

#[test]
fn pipes() {
    assert_eq!(find_last_unquoted_pipe("a | b | c"), Some(6));
    assert_eq!(find_last_unquoted_pipe("a || b"), Some(2));
    assert_eq!(find_last_unquoted_pipe("echo 'a|b'"), None);
    assert_eq!(find_last_unquoted_pipe("echo \"a|b\" | c"), Some(11));
    assert_eq!(find_last_unquoted_pipe("é | b"), Some(3));
    assert_eq!(find_last_unquoted_pipe("日本 | é | b"), Some(12));
    assert_eq!(find_last_unquoted_pipe("echo \\' | b"), Some(8));
    assert_eq!(normalize_bash_command("a || b"), "| b");
    assert_eq!(normalize_bash_command("echo 'a|b'"), "echo 'a|b'");
    assert_eq!(normalize_bash_command("cat f | grep x | wc -l"), "wc -l");
}

#[test]
fn values_and_assignments() {
    assert_eq!(skip_value_str("abc def"), " def");
    assert_eq!(skip_value_str("abc"), "");
    assert_eq!(skip_value_str("  \"a b\" c"), " c");
    assert_eq!(skip_value_str("\"a \\\" b\" c"), " c");
    assert_eq!(skip_value_str("'a \\' c"), " c");
    assert_eq!(skip_value_str("\"open"), "\"open");
    assert_eq!(skip_value_str("'open"), "'open");
    assert_eq!(skip_value_str("\"\"x"), "x");
    assert_eq!(strip_env_vars("A=1 B=\"x y\" C='z' cmd --flag"), "cmd --flag");
    assert_eq!(strip_env_vars("  cmd A=1 "), "cmd A=1");
    assert_eq!(strip_env_vars("A=1"), "");
    assert_eq!(strip_env_vars("=1 cmd"), "=1 cmd");
    assert_eq!(strip_env_vars("A-B=1 cmd"), "A-B=1 cmd");
    assert_eq!(strip_env_vars("A=\"open cmd"), "\"open cmd");
    assert_eq!(skip_env_command("X=1 Y=2 run"), "run");
    assert_eq!(normalize_bash_command("env A=\"x y\" B=2 gh pr merge 5"), "gh pr merge 5");
    assert_eq!(normalize_bash_command("env gh pr merge 5"), "gh pr merge 5");
}

#[test]
fn nested_shells() {
    assert_eq!(extract_nested_shell_command("bash -c 'ls -l'"), Some("ls -l".to_string()));
    assert_eq!(extract_nested_shell_command("sh -c \"ls\""), Some("ls".to_string()));
    assert_eq!(extract_nested_shell_command("/bin/bash -c ls"), Some("ls".to_string()));
    assert_eq!(extract_nested_shell_command("/bin/sh -c   'ls'  "), Some("ls".to_string()));
    assert_eq!(extract_nested_shell_command("bash -c \"ls' "), Some("\"ls'".to_string()));
    assert_eq!(extract_nested_shell_command("bash -c \""), Some("\"".to_string()));
    assert_eq!(extract_nested_shell_command("bash -c \"a\" b"), Some("\"a\" b".to_string()));
    assert_eq!(extract_nested_shell_command("zsh -c ls"), None);
    assert_eq!(extract_nested_shell_command("bash -cls"), None);
    assert_eq!(normalize_bash_command("sh -c 'A=1 gh issue close 3 '"), "gh issue close 3");
}

#[test]
fn normal_form_is_at_most_eighty_characters() {
    let long = "x".repeat(100);
    assert_eq!(normalize_bash_command(&long), "x".repeat(80));
    let long = "é".repeat(100);
    assert_eq!(normalize_bash_command(&long), "é".repeat(80));
    assert_eq!(normalize_bash_command("   "), "");
    assert_eq!(normalize_bash_command(""), "");
}

#[test]
fn tool_keys() {
    let command = object(vec![("command", text("echo y | gh issue close 1"))]);
    assert_eq!(format_tool_key(Some("Bash"), Some(&command)), "Bash:gh issue close 1");
    assert_eq!(format_tool_key(Some("Bash"), None), "Bash");
    assert_eq!(format_tool_key(Some("Bash"), Some(&object(vec![("command", number(1))]))), "Bash");
    assert_eq!(format_tool_key(Some("Read"), Some(&command)), "Read");
    assert_eq!(format_tool_key(None, Some(&command)), "unknown");
    let long = object(vec![("command", text(&"x".repeat(100)))]);
    assert_eq!(format_tool_key(Some("Bash"), Some(&long)), format!("Bash:{}", "x".repeat(80)));
}

// ---- glob patterns ----

#[test]
fn glob_patterns() {
    assert!(glob_match("c?t", "cat"));
    assert!(!glob_match("c?t", "coat"));
    assert!(glob_match("k[!e]tteh", "kitteh"));
    assert!(glob_match("*", ""));
    assert!(!glob_match("abc", "abcd"));
}

#[test]
fn patterns_that_do_not_compile_match_by_prefix() {
    assert!(glob_match("abc[", "abc[def"));
    assert!(!glob_match("abc[", "abcdef"));
    assert!(glob_match("a***", "abc"));
    assert!(!glob_match("a***", "bc"));
    assert!(glob_match("***", "anything"));
    assert!(glob_answer(None, "ab**", "abc"));
    assert!(!glob_answer(None, "ab**", "acb"));
    assert!(!glob_answer(Some(false), "a", "a"));
    assert!(glob_answer(Some(true), "a", "b"));
}

#[test]
fn the_first_matching_pattern_is_chosen() {
    let patterns: Vec<String> =
        vec!["Bash:*".to_string(), "Bash:gh issue close*".to_string(), "Read".to_string()];
    assert_eq!(
        find_matching_pattern("Bash:gh issue close 1", &patterns),
        Some("Bash:*".to_string())
    );
    assert_eq!(find_matching_pattern("Read", &patterns), Some("Read".to_string()));
    assert_eq!(find_matching_pattern("Write", &patterns), None);
    assert_eq!(find_matching_pattern("Read", &Vec::new()), None);

    let mut store = MemoryBackend::new();
    let config = gate_config(vec!["Bash:*", "Bash:gh issue close*"], ApprovalScope::Session);
    let call = HookInput {
        tool_name: Some("Bash".to_string()),
        tool_input: Some(object(vec![("command", text("gh issue close 1"))])),
        ..input("s")
    };
    handle_pre_tool_use(&call, &config, &mut store);
    let trigger = store.get_session("s").unwrap().unwrap().review.gate_trigger.unwrap();
    assert_eq!(trigger.pattern_matched, "Bash:*");
}

// ---- session ids in prompts ----

#[test]
fn session_ids_in_prompts() {
    assert_eq!(extract_session_id(Some("SESSION_ID=a SESSION_ID=b")), Some("a".to_string()));
    assert_eq!(extract_session_id(Some("x SESSION_ID:\t\n ab_c-9.d")), Some("ab_c-9".to_string()));
    assert_eq!(extract_session_id(Some("SESSION_ID= ")), None);
    assert_eq!(extract_session_id(Some("SESSION_ID=! SESSION_ID=ok")), Some("ok".to_string()));
    assert_eq!(extract_session_id(Some("session_id=abc")), None);
    assert_eq!(extract_session_id(Some("")), None);
}

// ---- user-prompt ----

#[test]
fn opt_in_marker() {
    assert!(has_opt_in_marker("#roz"));
    assert!(has_opt_in_marker("  \n\t#roz fix"));
    assert!(has_opt_in_marker("#rozzz"));
    assert!(!has_opt_in_marker("fix #roz"));
    assert!(!has_opt_in_marker("#ro"));
    assert!(!has_opt_in_marker(""));
    assert!(!has_opt_in_marker("#Roz"));
}

#[test]
fn marker_alone_enables_review() {
    let mut store = MemoryBackend::new();
    let output = handle_user_prompt(&HookInput { prompt: Some("#roz".to_string()), ..input("s") }, &mut store);
    assert_eq!(output, HookOutput::approve());
    let state = store.get_session("s").unwrap().unwrap();
    assert!(state.review.enabled);
    assert_eq!(state.review.user_prompts, vec!["#roz".to_string()]);
    assert_eq!(state.review.last_prompt_at, Some(state.updated_at));
}

#[test]
fn a_new_opt_in_resets_the_decision() {
    let mut store = MemoryBackend::new();
    let mut state = enabled_session("s");
    state.review.decision = Decision::Complete { summary: "ok".to_string(), second_opinions: None };
    state.review.block_count = 2;
    store.put_session(&state).unwrap();
    handle_user_prompt(&HookInput { prompt: Some("#roz again".to_string()), ..input("s") }, &mut store);
    let after = store.get_session("s").unwrap().unwrap();
    assert_eq!(after.review.decision, Decision::Pending);
    assert_eq!(after.review.block_count, 2);

    handle_user_prompt(&input("s"), &mut store);
    let later = store.get_session("s").unwrap().unwrap();
    assert_eq!(later.review.user_prompts.len(), 1);
    assert_eq!(later.trace.len(), 1);
    assert!(later.review.last_prompt_at.is_some());
}

// ---- session-start ----

#[test]
fn session_start_records_where_it_started() {
    let mut store = MemoryBackend::new();
    let call = HookInput { source: Some("startup".to_string()), ..input("s") };
    let output = handle_session_start(&call, &mut store, &host());
    assert_eq!(output, HookOutput::approve());
    let state = store.get_session("s").unwrap().unwrap();
    assert_eq!(state.trace.len(), 1);
    assert_eq!(state.trace[0].payload, object(vec![("cwd", text("/tmp")), ("source", text("startup"))]));

    let again = handle_session_start(&input("s"), &mut store, &host());
    assert_eq!(again, HookOutput::approve());
    assert_eq!(store.get_session("s").unwrap().unwrap(), state);

    let mut other = MemoryBackend::new();
    handle_session_start(&input("t"), &mut other, &host());
    let state = other.get_session("t").unwrap().unwrap();
    assert_eq!(state.trace[0].payload, object(vec![("cwd", text("/tmp")), ("source", JsonValue::Null)]));
}

#[test]
fn session_start_names_the_helpers() {
    assert_eq!(second_opinion_context(false, false), None);
    assert_eq!(
        second_opinion_context(true, false),
        Some("roz second opinion sources: codex ".to_string())
    );
    assert_eq!(
        second_opinion_context(false, true),
        Some("roz second opinion sources: gemini".to_string())
    );
    assert_eq!(
        second_opinion_context(true, true),
        Some("roz second opinion sources: codex gemini".to_string())
    );
    let mut store = MemoryBackend::new();
    let found = HostContext { codex_available: true, gemini_available: true, templates: Vec::new() };
    let output = handle_session_start(&input("s"), &mut store, &found);
    assert_eq!(output.decision, None);
    assert_eq!(
        output.additional_context,
        Some("roz second opinion sources: codex gemini".to_string())
    );
}

// ---- stop ----

#[test]
fn stop_without_a_session_approves_and_stores_nothing() {
    let mut store = MemoryBackend::new();
    assert_eq!(handle_stop(&input("s"), &mut store, &host()), HookOutput::approve());
    assert_eq!(store.list_sessions(10).unwrap().len(), 0);
}

#[test]
fn stop_blocks_with_the_rendered_template() {
    let mut store = MemoryBackend::new();
    store.put_session(&enabled_session("S1")).unwrap();
    let output = handle_stop(&input("S1"), &mut store, &host());
    assert_eq!(output.decision, Some(HookDecision::Block));
    let reason = output.reason.unwrap();
    assert_eq!(reason, roz::template::DEFAULT_BLOCK_TEMPLATE.replace("{{session_id}}", "S1"));
    assert!(reason.contains("SESSION_ID=S1"));
    let state = store.get_session("S1").unwrap().unwrap();
    assert_eq!(state.trace.len(), 1);
    assert_eq!(state.trace[0].event_type, EventType::StopHookCalled);
    assert_eq!(state.trace[0].payload, object(vec![]));
    assert_eq!(state.review.attempts.len(), 1);
    assert_eq!(state.review.attempts[0].timestamp, state.updated_at);
}

#[test]
fn stop_uses_the_template_the_host_found() {
    let mut store = MemoryBackend::new();
    store.put_session(&enabled_session("S1")).unwrap();
    let mut config = Config::default();
    config.templates.active = "v2".to_string();
    let found = HostContext {
        codex_available: false,
        gemini_available: false,
        templates: vec![
            TemplateFile { id: "v1".to_string(), text: "one".to_string() },
            TemplateFile { id: "v2".to_string(), text: "two {{session_id}} {{session_id}}".to_string() },
            TemplateFile { id: "v2".to_string(), text: "shadowed".to_string() },
        ],
    };
    let output = handle_stop_with_config(&input("S1"), &mut store, &config, &found);
    assert_eq!(output, HookOutput::block("two S1 S1"));
    assert_eq!(store.get_session("S1").unwrap().unwrap().review.attempts[0].template_id, "v2");
    assert_eq!(load_template("v1", &found), "one");
    assert_eq!(load_template("v3", &found), roz::template::DEFAULT_BLOCK_TEMPLATE);
}

#[test]
fn stop_passes_issues_on() {
    let mut store = MemoryBackend::new();
    let mut state = enabled_session("S2");
    state.review.decision =
        Decision::Issues { summary: "need tests".to_string(), message_to_agent: Some("fix tests".to_string()) };
    store.put_session(&state).unwrap();
    let output = handle_stop(&input("S2"), &mut store, &host());
    assert_eq!(
        output,
        HookOutput::block(
            "Review found issues that need to be addressed:\n\nfix tests\n\nAfter fixing, spawn roz:roz again to re-review."
        )
    );
    assert_eq!(store.get_session("S2").unwrap().unwrap().review.block_count, 1);

    let mut state = enabled_session("S2b");
    state.review.decision = Decision::Issues { summary: "x".to_string(), message_to_agent: None };
    store.put_session(&state).unwrap();
    let output = handle_stop(&input("S2b"), &mut store, &host());
    assert_eq!(
        output.reason.unwrap(),
        "Review found issues that need to be addressed:\n\nIssues were found. Please address them and try again.\n\nAfter fixing, spawn roz:roz again to re-review."
    );
}

#[test]
fn zero_blocks_trips_the_breaker_at_once() {
    let mut store = MemoryBackend::new();
    store.put_session(&enabled_session("s")).unwrap();
    let mut config = Config::default();
    config.circuit_breaker.max_blocks = 0;
    let output = handle_stop_with_config(&input("s"), &mut store, &config, &host());
    assert_eq!(output, HookOutput::approve());
    let state = store.get_session("s").unwrap().unwrap();
    assert!(state.review.circuit_breaker_tripped);
    assert!(!state.review.enabled);
    assert_eq!(state.review.block_count, 0);
    assert!(state.review.attempts.is_empty());
}

#[test]
fn the_breaker_trips_on_the_fourth_call() {
    let mut store = MemoryBackend::new();
    store.put_session(&enabled_session("S3")).unwrap();
    for count in 1..=3 {
        let blocked = handle_stop(&input("S3"), &mut store, &host());
        assert_eq!(blocked.decision, Some(HookDecision::Block));
        let state = store.get_session("S3").unwrap().unwrap();
        assert_eq!(state.review.block_count, count);
        assert!(!state.review.circuit_breaker_tripped);
        assert!(state.review.enabled);
    }
    let fourth = handle_stop(&input("S3"), &mut store, &host());
    assert_eq!(fourth, HookOutput::approve());
    let state = store.get_session("S3").unwrap().unwrap();
    assert!(state.review.circuit_breaker_tripped);
    assert!(!state.review.enabled);
    assert_eq!(state.review.block_count, 3);
    assert_eq!(state.review.attempts.len(), 3);
    assert_eq!(state.trace.len(), 4);

    // opting in again does not reset the breaker
    handle_user_prompt(&HookInput { prompt: Some("#roz".to_string()), ..input("S3") }, &mut store);
    assert!(store.get_session("S3").unwrap().unwrap().review.enabled);
    assert_eq!(handle_stop(&input("S3"), &mut store, &host()), HookOutput::approve());
    assert_eq!(store.get_session("S3").unwrap().unwrap().review.block_count, 3);
}

#[test]
fn a_pending_session_below_the_limit_is_blocked() {
    let mut store = MemoryBackend::new();
    let mut state = enabled_session("s");
    state.review.block_count = 2;
    store.put_session(&state).unwrap();
    let output = handle_stop(&input("s"), &mut store, &host());
    assert_eq!(output.decision, Some(HookDecision::Block));
    let after = store.get_session("s").unwrap().unwrap();
    assert_eq!(after.review.block_count, 3);
    assert!(!after.review.circuit_breaker_tripped);
    assert_eq!(after.review.attempts.len(), 1);

    // after issues the breaker is checked again with the block counted
    let mut state = enabled_session("t");
    state.review.block_count = 2;
    state.review.decision = Decision::Issues { summary: "x".to_string(), message_to_agent: None };
    store.put_session(&state).unwrap();
    assert_eq!(handle_stop(&input("t"), &mut store, &host()), HookOutput::approve());
    let after = store.get_session("t").unwrap().unwrap();
    assert_eq!(after.review.block_count, 3);
    assert!(after.review.circuit_breaker_tripped);
    assert!(after.review.attempts.is_empty());

    state.review.block_count = 1;
    store.put_session(&state).unwrap();
    assert_eq!(handle_stop(&input("t"), &mut store, &host()).decision, Some(HookDecision::Block));
    assert_eq!(store.get_session("t").unwrap().unwrap().review.block_count, 2);
}

#[test]
fn approve_path() {
    let mut store = MemoryBackend::new();
    let prompt = HookInput { prompt: Some("#roz fix bug".to_string()), ..input("S1") };
    assert_eq!(handle_user_prompt(&prompt, &mut store), HookOutput::approve());
    let blocked = handle_stop(&input("S1"), &mut store, &host());
    assert_eq!(blocked.decision, Some(HookDecision::Block));
    assert!(blocked.reason.unwrap().contains("S1"));
    decide::run(&mut store, "S1", "COMPLETE", "done", None, None, 500).unwrap();
    assert_eq!(handle_stop(&input("S1"), &mut store, &host()), HookOutput::approve());
}

#[test]
fn issues_loop() {
    let mut store = MemoryBackend::new();
    handle_user_prompt(&HookInput { prompt: Some("#roz".to_string()), ..input("S2") }, &mut store);
    decide::run(&mut store, "S2", "ISSUES", "need tests", Some("fix tests"), None, 500).unwrap();
    let output = handle_stop(&input("S2"), &mut store, &host());
    assert_eq!(output.decision, Some(HookDecision::Block));
    assert!(output.reason.unwrap().contains("fix tests"));
    assert_eq!(store.get_session("S2").unwrap().unwrap().review.block_count, 1);
}

// ---- subagent-stop ----

#[test]
fn subagent_rulings() {
    let mut state = SessionState::created("S5", at(1_000_000));
    let pending = judge_subagent(&state, "roz:roz", "S5", None, at(2_000_000));
    assert_eq!(
        pending,
        HookOutput::block(
            "roz:roz (roz:roz) completed but did not record a decision.\n\nRun: roz decide S5 COMPLETE \"summary\"\nor: roz decide S5 ISSUES \"summary\" --message \"what to fix\""
        )
    );

    state.review.decision = Decision::Complete { summary: "ok".to_string(), second_opinions: None };
    state.updated_at = at(1_000_000);
    let end = at(1_000_000 + 7200);
    let early = judge_subagent(&state, "roz:roz", "S5", Some(at(1_000_000 + 6900)), end);
    assert_eq!(
        early,
        HookOutput::block(
            "Decision timestamp (1970-01-12T13:46:40Z) is before roz started (1970-01-12T15:41:40Z). Decision must be posted by roz:roz during its execution."
        )
    );
    // with no start reported, the window opens one hour before the hook runs
    let no_start = judge_subagent(&state, "roz:roz", "S5", None, end);
    assert!(no_start.reason.unwrap().contains("is before roz started (1970-01-12T14:46:40Z)"));
    assert_eq!(judge_subagent(&state, "roz:roz", "S5", None, at(1_000_000 + 3600)), HookOutput::approve());
    assert_eq!(
        judge_subagent(&state, "roz:roz", "S5", None, at(1_000_000 + 3601)).decision,
        Some(HookDecision::Block)
    );

    // five seconds of skew are allowed after the end
    assert_eq!(
        judge_subagent(&state, "roz:roz", "S5", Some(at(0)), at(1_000_000 - 5)),
        HookOutput::approve()
    );
    let late = judge_subagent(&state, "roz:roz", "S5", Some(at(0)), at(1_000_000 - 6));
    assert_eq!(
        late,
        HookOutput::block(
            "Decision timestamp (1970-01-12T13:46:40Z) is after roz ended (1970-01-12T13:46:34Z). Decision must be posted by roz:roz during its execution."
        )
    );
    // a decision at the very start of the window is inside it
    assert_eq!(
        judge_subagent(&state, "roz:roz", "S5", Some(at(1_000_000)), at(1_000_000)),
        HookOutput::approve()
    );
}

#[test]
fn subagent_temporal_check() {
    let mut store = MemoryBackend::new();
    let mut state = enabled_session("S5");
    state.review.decision = Decision::Complete { summary: "ok".to_string(), second_opinions: None };
    state.updated_at = at(now().secs - 2 * 3600);
    store.put_session(&state).unwrap();
    let call = HookInput {
        subagent_type: Some("roz:roz".to_string()),
        subagent_prompt: Some("please review SESSION_ID=S5 now".to_string()),
        subagent_started_at: Some(at(now().secs - 5 * 60)),
        ..input("main")
    };
    let output = handle_subagent_stop(&call, &store);
    assert_eq!(output.decision, Some(HookDecision::Block));
    assert!(output.reason.unwrap().contains("before roz started"));
}

#[test]
fn subagent_stop_fails_open() {
    let store = MemoryBackend::new();
    let call = HookInput {
        subagent_type: Some("roz:roz".to_string()),
        subagent_prompt: Some("SESSION_ID=unknown".to_string()),
        ..input("main")
    };
    assert_eq!(handle_subagent_stop(&call, &store), HookOutput::approve());
    let no_prompt = HookInput { subagent_type: Some("roz:roz".to_string()), ..input("main") };
    assert_eq!(
        handle_subagent_stop(&no_prompt, &store),
        HookOutput::block(
            "roz:roz completed but SESSION_ID not found in prompt. The prompt must include SESSION_ID=<id>."
        )
    );
    assert_eq!(handle_subagent_stop(&input("main"), &store), HookOutput::approve());
}

// ---- gates ----

#[test]
fn approval_scopes() {
    let mut state = SessionState::created("s", at(0));
    state.review.decision = Decision::Complete { summary: "ok".to_string(), second_opinions: None };
    let session = gates(vec!["x"], ApprovalScope::Session, None);
    let prompt = gates(vec!["x"], ApprovalScope::Prompt, None);
    assert!(!is_gate_approved(&state, &session, at(50)));

    state.review.gate_approved_at = Some(at(100));
    assert!(is_gate_approved(&state, &session, at(50)));
    assert!(is_gate_approved(&state, &prompt, at(50)));

    state.review.last_prompt_at = Some(at(100));
    assert!(!is_gate_approved(&state, &prompt, at(200)));
    state.review.last_prompt_at = Some(at(99));
    assert!(is_gate_approved(&state, &prompt, at(200)));

    // a prompt that arrived during the review cycle does not count
    state.review.last_prompt_at = Some(at(150));
    state.review.review_started_at = Some(at(90));
    assert!(is_gate_approved(&state, &prompt, at(200)));
    state.review.review_started_at = Some(at(100));
    assert!(!is_gate_approved(&state, &prompt, at(200)));
    state.review.review_started_at = Some(at(160));
    assert!(!is_gate_approved(&state, &prompt, at(200)));
    state.review.last_prompt_at = None;
    assert!(is_gate_approved(&state, &prompt, at(200)));

    state.review.decision = Decision::Issues { summary: "no".to_string(), message_to_agent: None };
    assert!(!is_gate_approved(&state, &session, at(200)));
}

#[test]
fn approval_expires_after_its_lifetime() {
    let mut state = SessionState::created("s", at(0));
    state.review.decision = Decision::Complete { summary: "ok".to_string(), second_opinions: None };
    state.review.gate_approved_at = Some(Timestamp { secs: 100, nanos: 5 });
    let hour = gates(vec!["x"], ApprovalScope::Session, Some(3600));
    assert!(is_gate_approved(&state, &hour, Timestamp { secs: 3700, nanos: 5 }));
    assert!(!is_gate_approved(&state, &hour, Timestamp { secs: 3700, nanos: 6 }));
    assert!(!is_gate_approved(&state, &gates(vec!["x"], ApprovalScope::Session, Some(0)), at(101)));
    assert!(is_gate_approved(&state, &gates(vec!["x"], ApprovalScope::Session, Some(u64::MAX)), at(i64::MAX)));
}

#[test]
fn gate_deny_then_approve() {
    let mut store = MemoryBackend::new();
    let config = gate_config(vec!["mcp__tissue__close*"], ApprovalScope::Session);
    let call = HookInput {
        tool_name: Some("mcp__tissue__close_issue".to_string()),
        tool_input: Some(object(vec![("id", number(4))])),
        ..input("S4")
    };
    let denied = handle_pre_tool_use(&call, &config, &mut store);
    assert_eq!(
        denied,
        PreToolUseOutput::deny(
            "Review required before this action.\n\nSpawn **roz:roz** to review this session:\n\n```\nSESSION_ID=S4\n\n## Summary\n[What you did and why]\n\n## Files Changed\n[List of modified files]\n```\n\nTriggered by: `mcp__tissue__close_issue`"
        )
    );
    let state = store.get_session("S4").unwrap().unwrap();
    let trigger = state.review.gate_trigger.clone().unwrap();
    assert_eq!(trigger.pattern_matched, "mcp__tissue__close*");
    assert_eq!(trigger.tool_input, TruncatedInput::whole(object(vec![("id", number(4))])));
    assert_eq!(trigger.triggered_at, state.updated_at);
    assert_eq!(state.review.review_started_at, Some(state.updated_at));
    assert!(state.review.enabled);
    assert_eq!(state.trace.len(), 1);
    assert_eq!(state.trace[0].event_type, EventType::GateBlocked);
    assert_eq!(
        state.trace[0].payload,
        object(vec![("pattern", text("mcp__tissue__close*")), ("tool", text("mcp__tissue__close_issue"))])
    );

    decide::run(&mut store, "S4", "COMPLETE", "ok", None, None, 500).unwrap();
    let allowed = handle_pre_tool_use(&call, &config, &mut store);
    assert_eq!(allowed, PreToolUseOutput::allow());
    let state = store.get_session("S4").unwrap().unwrap();
    assert_eq!(state.trace.len(), 3);
    assert_eq!(state.trace[2].event_type, EventType::GateAllowed);
    assert_eq!(
        state.trace[2].payload,
        object(vec![("reason", text("approved")), ("tool", text("mcp__tissue__close_issue"))])
    );
}

#[test]
fn bash_pipe_is_gated_by_its_sink() {
    let mut store = MemoryBackend::new();
    let config = gate_config(vec!["Bash:gh issue close*"], ApprovalScope::Session);
    let call = HookInput {
        tool_name: Some("Bash".to_string()),
        tool_input: Some(object(vec![("command", text("echo 'y' | gh issue close 123"))])),
        ..input("s")
    };
    let output = handle_pre_tool_use(&call, &config, &mut store);
    assert_eq!(output.hook_specific_output.permission_decision, PermissionDecision::Deny);
    let trigger = store.get_session("s").unwrap().unwrap().review.gate_trigger.unwrap();
    assert_eq!(trigger.tool_name, "Bash:gh issue close 123");
}

#[test]
fn a_tripped_breaker_opens_every_gate() {
    let mut store = MemoryBackend::new();
    let mut state = SessionState::new("s");
    state.review.circuit_breaker_tripped = true;
    let stamped = state.updated_at;
    store.put_session(&state).unwrap();
    let config = gate_config(vec!["Read"], ApprovalScope::Tool);
    let call = HookInput { tool_name: Some("Read".to_string()), ..input("s") };
    assert_eq!(handle_pre_tool_use(&call, &config, &mut store), PreToolUseOutput::allow());
    let after = store.get_session("s").unwrap().unwrap();
    assert_eq!(after.trace[0].payload, object(vec![("reason", text("circuit_breaker")), ("tool", text("Read"))]));
    assert_eq!(after.updated_at, stamped);
    assert!(after.review.gate_trigger.is_none());
}

#[test]
fn ungated_calls_leave_no_session() {
    let mut store = MemoryBackend::new();
    let call = HookInput { tool_name: Some("Read".to_string()), ..input("s") };
    let config = gate_config(vec!["Write"], ApprovalScope::Session);
    assert_eq!(handle_pre_tool_use(&call, &config, &mut store), PreToolUseOutput::allow());
    assert_eq!(handle_pre_tool_use(&call, &Config::default(), &mut store), PreToolUseOutput::allow());
    assert!(store.get_session("s").unwrap().is_none());
    assert_eq!(PreToolUseOutput::ask("why").hook_specific_output.permission_decision, PermissionDecision::Ask);
    assert_eq!(PreToolUseOutput::ask("why").hook_specific_output.reason, Some("why".to_string()));
    assert_eq!(PreToolUseOutput::allow().hook_specific_output.hook_event_name, "PreToolUse");
}

// ---- decide ----

#[test]
fn decide_records_everything() {
    let mut store = MemoryBackend::new();
    let mut state = enabled_session("s");
    state.review.block_count = 2;
    state.review.decision = Decision::Issues { summary: "old".to_string(), message_to_agent: None };
    for (i, outcome) in [AttemptOutcome::Pending, AttemptOutcome::Pending, AttemptOutcome::NoDecision]
        .into_iter()
        .enumerate()
    {
        state.review.attempts.push(ReviewAttempt { template_id: format!("t{i}"), timestamp: at(5), outcome });
    }
    store.put_session(&state).unwrap();

    decide::run(&mut store, "s", "Complete", "fine", Some("ignored"), Some("codex agreed"), 500).unwrap();

    let after = store.get_session("s").unwrap().unwrap();
    assert_eq!(
        after.review.decision,
        Decision::Complete { summary: "fine".to_string(), second_opinions: Some("codex agreed".to_string()) }
    );
    assert_eq!(after.review.decision_history.len(), 1);
    assert_eq!(
        after.review.decision_history[0].decision,
        Decision::Issues { summary: "old".to_string(), message_to_agent: None }
    );
    assert_eq!(after.review.decision_history[0].timestamp, after.updated_at);
    assert_eq!(after.review.gate_approved_at, Some(after.updated_at));
    assert_eq!(after.review.attempts[0].outcome, AttemptOutcome::Pending);
    assert_eq!(
        after.review.attempts[1].outcome,
        AttemptOutcome::Success { decision_type: "complete".to_string(), blocks_needed: 2 }
    );
    assert_eq!(after.review.attempts[1].template_id, "t1");
    assert_eq!(after.review.attempts[2].outcome, AttemptOutcome::NoDecision);
    assert_eq!(after.trace.len(), 1);
    assert_eq!(after.trace[0].event_type, EventType::RozDecision);
    assert_eq!(
        after.trace[0].payload,
        object(vec![
            ("decision", text("COMPLETE")),
            ("second_opinions", text("codex agreed")),
            ("summary", text("fine")),
        ])
    );

    decide::run(&mut store, "s", "issues", "bad", Some("fix it"), Some("ignored"), 500).unwrap();
    let later = store.get_session("s").unwrap().unwrap();
    assert_eq!(
        later.review.decision,
        Decision::Issues { summary: "bad".to_string(), message_to_agent: Some("fix it".to_string()) }
    );
    assert_eq!(later.review.gate_approved_at, after.review.gate_approved_at);
    assert_eq!(later.review.decision_history.len(), 2);
    assert_eq!(
        later.review.attempts[0].outcome,
        AttemptOutcome::Success { decision_type: "issues".to_string(), blocks_needed: 2 }
    );
}

#[test]
fn decide_errors() {
    let mut store = MemoryBackend::new();
    assert_eq!(
        decide::run(&mut store, "nope", "COMPLETE", "x", None, None, 500),
        Err(Error::SessionNotFound("nope".to_string()))
    );
    let state = enabled_session("s");
    store.put_session(&state).unwrap();
    assert_eq!(
        decide::run(&mut store, "s", "maybe", "x", None, None, 500),
        Err(Error::InvalidDecision("MAYBE".to_string()))
    );
    assert_eq!(
        decide::run(&mut store, "nope", "maybe", "x", None, None, 500),
        Err(Error::SessionNotFound("nope".to_string()))
    );
    assert_eq!(store.get_session("s").unwrap().unwrap(), state);
    assert_eq!(decide::parse_kind("iSsUeS"), Some(decide::DecisionKind::Issues));
    assert_eq!(decide::parse_kind(" COMPLETE"), None);
}

#[test]
fn error_messages() {
    assert_eq!(Error::Storage("disk".to_string()).message(), "Storage error: disk");
    assert_eq!(Error::Serde("eof".to_string()).message(), "Serialization error: eof");
    assert_eq!(Error::InvalidState("x".to_string()).message(), "Invalid state: x");
    assert_eq!(Error::SessionNotFound("s".to_string()).message(), "Session not found: s");
    assert_eq!(Error::InvalidDecision("D".to_string()).message(), "Invalid decision: D");
    assert_eq!(Error::MissingField("cwd".to_string()).message(), "Missing required field: cwd");
    assert_eq!(Error::Config("bad".to_string()).message(), "Configuration error: bad");
}

// ---- the store ----

#[test]
fn get_after_put_gives_the_session_back() {
    let mut store = MemoryBackend::new();
    let mut state = enabled_session("s");
    state.review.user_prompts.push("#roz é".to_string());
    state.review.gate_trigger = Some(roz::engine::state::GateTrigger {
        tool_name: "Bash:ls".to_string(),
        tool_input: TruncatedInput::from_value(object(vec![("a", JsonValue::Array(vec![number(1)]))])),
        triggered_at: at(3),
        pattern_matched: "Bash:*".to_string(),
    });
    state.trace.push(event("e"));
    store.put_session(&state).unwrap();
    assert_eq!(store.get_session("s").unwrap(), Some(state.clone()));

    state.review.block_count = 9;
    store.put_session(&state).unwrap();
    assert_eq!(store.get_session("s").unwrap().unwrap().review.block_count, 9);
    assert_eq!(store.list_sessions(10).unwrap().len(), 1);
    assert_eq!(MemoryBackend::default().list_sessions(10).unwrap().len(), 0);
}

#[test]
fn listing_is_newest_first() {
    let mut store = MemoryBackend::new();
    for (id, created) in [("a", 10), ("b", 30), ("c", 20), ("d", 30)] {
        let mut state = SessionState::created(id, at(created));
        if id == "c" {
            state.review.user_prompts.push("first".to_string());
            state.review.user_prompts.push("second".to_string());
            state.trace.push(event("e"));
        }
        store.put_session(&state).unwrap();
    }
    let all = store.list_sessions(10).unwrap();
    let times: Vec<i64> = all.iter().map(|s| s.created_at.secs).collect();
    assert_eq!(times, vec![30, 30, 20, 10]);
    assert_eq!(all[2].session_id, "c");
    assert_eq!(all[2].first_prompt, Some("first".to_string()));
    assert_eq!(all[2].event_count, 1);
    assert_eq!(all[3].first_prompt, None);
    let two = store.list_sessions(2).unwrap();
    assert_eq!(two.iter().map(|s| s.created_at.secs).collect::<Vec<_>>(), vec![30, 30]);
    let three = store.list_sessions(3).unwrap();
    assert_eq!(three[2].session_id, "c");
    assert!(store.list_sessions(0).unwrap().is_empty());
    store.delete_session("b").unwrap();
    store.delete_session("b").unwrap();
    assert_eq!(store.list_sessions(10).unwrap().len(), 3);
}

#[test]
fn file_layout() {
    let layout = FileBackend::new("/home/u/.roz");
    assert_eq!(layout.base_dir(), "/home/u/.roz");
    assert_eq!(layout.sessions_dir(), "/home/u/.roz/sessions");
    assert_eq!(layout.session_path("abc"), "/home/u/.roz/sessions/abc.json");
    assert_eq!(layout.temp_path("abc"), "/home/u/.roz/sessions/abc.tmp");
    assert!(FileBackend::is_session_file("abc.json"));
    assert!(FileBackend::is_session_file("a.b.json"));
    assert!(!FileBackend::is_session_file("abc.tmp"));
    assert!(!FileBackend::is_session_file("abc.json.tmp"));
    assert!(!FileBackend::is_session_file("abc.JSON"));
    assert!(!FileBackend::is_session_file("abcjson"));
    assert!(!FileBackend::is_session_file(".json"));
    assert!(!FileBackend::is_session_file("json"));
    assert!(!FileBackend::is_session_file(""));
    assert!(!FileBackend::is_session_file("abc.json "));
}

// ---- clean ----

#[test]
fn durations() {
    assert_eq!(parse_duration("  7d \n"), Ok(604800));
    assert_eq!(parse_duration("+2h"), Ok(7200));
    assert_eq!(parse_duration("-5d"), Ok(-432000));
    assert_eq!(parse_duration("0"), Ok(0));
    assert_eq!(parse_duration("  "), Ok(604800));
    assert_eq!(parse_duration("abc"), Err(Error::InvalidState("Invalid duration: abc".to_string())));
    assert_eq!(parse_duration(" d "), Err(Error::InvalidState("Invalid duration: d".to_string())));
    assert_eq!(parse_duration("7 d"), Err(Error::InvalidState("Invalid duration: 7 d".to_string())));
    assert_eq!(parse_duration("7s"), Err(Error::InvalidState("Invalid duration: 7s".to_string())));
    assert_eq!(parse_duration("1.5h"), Err(Error::InvalidState("Invalid duration: 1.5h".to_string())));
    assert_eq!(parse_duration("106751991167300d"), Ok(106751991167300 * 86400));
    assert!(parse_duration("106751991167301d").is_err());
    assert!(parse_duration("99999999999999999999999999d").is_err());
    assert_eq!(parse_duration("153722867280912930m"), Ok(153722867280912930 * 60));
    assert!(parse_duration("153722867280912931m").is_err());
}

#[test]
fn integers() {
    assert_eq!(read_integer("0"), Some(0));
    assert_eq!(read_integer("-0"), Some(0));
    assert_eq!(read_integer("+17"), Some(17));
    assert_eq!(read_integer("007"), Some(7));
    assert_eq!(read_integer("18446744073709551616"), Some(18446744073709551616));
    assert_eq!(read_integer("-18446744073709551616"), Some(-18446744073709551616));
    assert_eq!(read_integer("18446744073709551617"), None);
    assert_eq!(read_integer(""), None);
    assert_eq!(read_integer("-"), None);
    assert_eq!(read_integer("+"), None);
    assert_eq!(read_integer("1a"), None);
    assert_eq!(read_integer("--1"), None);
    assert_eq!(read_integer("１"), None);
}

#[test]
fn cleaning_spares_what_it_must() {
    let mut store = MemoryBackend::new();
    let resolved = |id: &str, created: i64, decision: Decision, enabled: bool| {
        let mut state = SessionState::created(id, at(created));
        state.review.enabled = enabled;
        state.review.decision = decision;
        state
    };
    let done = Decision::Complete { summary: "ok".to_string(), second_opinions: None };
    let issues = Decision::Issues { summary: "no".to_string(), message_to_agent: None };
    store.put_session(&resolved("old-done", 100, done.clone(), true)).unwrap();
    store.put_session(&resolved("old-issues", 100, issues, true)).unwrap();
    store.put_session(&resolved("old-waiting", 100, Decision::Pending, true)).unwrap();
    store.put_session(&resolved("old-idle", 100, Decision::Pending, false)).unwrap();
    store.put_session(&resolved("at-cutoff", 1000, done.clone(), false)).unwrap();
    store.put_session(&resolved("new", 5000, done, false)).unwrap();

    assert_eq!(cutoff(at(1500), 500), at(1000));
    assert_eq!(cutoff(at(i64::MIN + 1), 500), at(i64::MIN));
    assert_eq!(cutoff(at(i64::MAX), -1), at(i64::MAX));
    assert_eq!(clean_sessions(&mut store, 500, at(1500)), Ok(3));
    let mut left: Vec<String> =
        store.list_sessions(10).unwrap().into_iter().map(|s| s.session_id).collect();
    left.sort();
    assert_eq!(left, vec!["at-cutoff", "new", "old-waiting"]);

    assert_eq!(roz::cli::clean::run(&mut store, "bogus", false, at(9000)).map_err(|e| e.message()),
        Err("Invalid state: Invalid duration: bogus".to_string()));
    assert_eq!(store.list_sessions(10).unwrap().len(), 3);
    assert_eq!(roz::cli::clean::run(&mut store, "bogus", true, at(9000)), Ok(2));
    assert_eq!(store.list_sessions(10).unwrap()[0].session_id, "old-waiting");
    assert_eq!(roz::cli::clean::run(&mut store, "1m", false, at(9000)), Ok(0));
}

// ---- configuration ----

#[test]
fn defaults() {
    let config = Config::default();
    assert_eq!(config.storage.path, ".roz");
    assert!(config.review.gates.tools.is_empty());
    assert_eq!(config.review.gates.approval_scope, ApprovalScope::Prompt);
    assert_eq!(config.review.gates.approval_ttl_seconds, None);
    assert_eq!(config.external_models.codex, "codex");
    assert_eq!(config.external_models.gemini, "gemini");
    assert_eq!(config.templates.active, "default");
    assert_eq!(config.templates.weights, vec![TemplateWeight { id: "default".to_string(), weight: 100 }]);
    assert_eq!(ReviewMode::default(), ReviewMode::Prompt);
    assert_eq!(ApprovalScope::default(), ApprovalScope::Prompt);
}

#[test]
fn environment_overrides() {
    let none = EnvOverrides {
        storage_path: None,
        home: None,
        max_blocks: None,
        cooldown_seconds: None,
        review_mode: None,
        max_events: None,
        retention_days: None,
    };
    let mut config = Config::default();
    config.review.mode = ReviewMode::Always;
    apply_env_overrides(&mut config, &none);
    assert_eq!(config.storage.path, ".roz");
    assert_eq!(config.circuit_breaker.max_blocks, 3);
    assert_eq!(config.review.mode, ReviewMode::Always);

    let set = EnvOverrides {
        storage_path: Some("/data".to_string()),
        home: Some("/home".to_string()),
        max_blocks: Some("5".to_string()),
        cooldown_seconds: Some("18446744073709551615".to_string()),
        review_mode: Some("NEVER".to_string()),
        max_events: Some("+0".to_string()),
        retention_days: Some("30".to_string()),
    };
    apply_env_overrides(&mut config, &set);
    assert_eq!(config.storage.path, "/data");
    assert_eq!(config.circuit_breaker.max_blocks, 5);
    assert_eq!(config.circuit_breaker.cooldown_seconds, u64::MAX);
    assert_eq!(config.review.mode, ReviewMode::Never);
    assert_eq!(config.trace.max_events, 0);
    assert_eq!(config.cleanup.retention_days, 30);

    let odd = EnvOverrides {
        storage_path: None,
        home: Some("/home".to_string()),
        max_blocks: Some("4294967296".to_string()),
        cooldown_seconds: Some("-1".to_string()),
        review_mode: Some("sometimes".to_string()),
        max_events: Some("many".to_string()),
        retention_days: Some("-0".to_string()),
    };
    apply_env_overrides(&mut config, &odd);
    assert_eq!(config.storage.path, "/home");
    assert_eq!(config.circuit_breaker.max_blocks, 5);
    assert_eq!(config.circuit_breaker.cooldown_seconds, u64::MAX);
    assert_eq!(config.review.mode, ReviewMode::Prompt);
    assert_eq!(config.trace.max_events, 0);
    assert_eq!(config.cleanup.retention_days, 30);

    let always = EnvOverrides { review_mode: Some("Always".to_string()), max_blocks: Some("4294967295".to_string()), ..none };
    apply_env_overrides(&mut config, &always);
    assert_eq!(config.review.mode, ReviewMode::Always);
    assert_eq!(config.circuit_breaker.max_blocks, u32::MAX);
}

// ---- templates ----

#[test]
fn weighted_pick() {
    let weights: Vec<TemplateWeight> = [("a", 1), ("b", 2), ("z", 0), ("c", 3)]
        .into_iter()
        .map(|(id, weight)| TemplateWeight { id: id.to_string(), weight })
        .collect();
    let picks: Vec<String> = (0..7).map(|roll| pick_weighted(&weights, roll)).collect();
    assert_eq!(picks, vec!["a", "b", "b", "c", "c", "c", "default"]);
    assert_eq!(pick_weighted(&Vec::new(), 0), "default");
    let heavy: Vec<TemplateWeight> = (0..3)
        .map(|i| TemplateWeight { id: format!("t{i}"), weight: u32::MAX })
        .collect();
    assert_eq!(pick_weighted(&heavy, 2 * (u32::MAX as u128)), "t2");
    assert_eq!(roz::template::sum_weights(&heavy), 3 * (u32::MAX as u128));
}

#[test]
fn rendering() {
    assert_eq!(render_template("{{session_id}}", "S"), "S");
    assert_eq!(render_template("a {{session_id}} b {{session_id}}", "S"), "a S b S");
    assert_eq!(render_template("{{{session_id}}}", "S"), "{S}");
    assert_eq!(render_template("{{session_id}", "S"), "{{session_id}");
    assert_eq!(render_template("{{session_id}}", "{{session_id}}"), "{{session_id}}");
    assert_eq!(render_template("", "S"), "");
    assert_eq!(replace_all("aaaa", "aa", "b"), "bb");
    assert_eq!(replace_all("aaa", "aa", "b"), "ba");
    assert_eq!(replace_all("abc", "", "x"), "abc");
    assert_eq!(replace_all("héllo", "é", "e"), "hello");
}

// ---- command helpers ----

#[test]
fn prompt_display() {
    assert_eq!(truncate_prompt("", 10), "");
    assert_eq!(truncate_prompt("one\n", 10), "one");
    assert_eq!(truncate_prompt("one\r\ntwo", 10), "one [...]");
    assert_eq!(truncate_prompt("one\r", 10), "one\r");
    assert_eq!(truncate_prompt("\nrest", 10), " [...]");
    assert_eq!(truncate_prompt("abcdef\nmore", 3), "abc...");
    assert_eq!(truncate_prompt("ééé", 3), "é...");
    assert_eq!(truncate_prompt("ééé", 6), "ééé");
    assert_eq!(truncate_prompt("abc", 0), "...");
    assert_eq!(format_prompt_preview(Some("")), "");
    assert_eq!(format_prompt_preview(Some(&"é".repeat(26))), format!("{}...", "é".repeat(25)));
    assert_eq!(format_prompt_preview(Some(&"x".repeat(50))), "x".repeat(50));
    assert_eq!(format_prompt_preview(Some(&"x".repeat(51))), format!("{}...", "x".repeat(50)));
}

#[test]
fn template_counters() {
    let mut stats = TemplateStats::default();
    stats.record(&AttemptOutcome::Success { decision_type: "complete".to_string(), blocks_needed: 2 });
    stats.record(&AttemptOutcome::Success { decision_type: "issues".to_string(), blocks_needed: 3 });
    stats.record(&AttemptOutcome::Pending);
    assert_eq!(stats.success_count, 2);
    assert_eq!(stats.total_blocks, 5);
    assert_eq!(stats.pending, 1);
    assert_eq!(stats.failure_count(), 0);

    let mut full = TemplateStats { not_spawned: u32::MAX, total_blocks: u32::MAX - 1, ..TemplateStats::default() };
    full.record(&AttemptOutcome::NotSpawned);
    full.record(&AttemptOutcome::NoDecision);
    full.record(&AttemptOutcome::Success { decision_type: "complete".to_string(), blocks_needed: 7 });
    assert_eq!(full.not_spawned, u32::MAX);
    assert_eq!(full.total_blocks, u32::MAX);
    assert_eq!(full.failure_count(), u32::MAX);
}

#[test]
fn names_of_files_and_hooks() {
    assert_eq!(roz::template::template_file_name("v2"), "block-v2.md");
    assert_eq!(roz::template::template_id_in("block-v2.md"), Some("v2".to_string()));
    assert_eq!(roz::template::template_id_in("block-.md"), Some(String::new()));
    assert_eq!(roz::template::template_id_in("block-a.md.md"), Some("a.md".to_string()));
    assert_eq!(roz::template::template_id_in("block.md"), None);
    assert_eq!(roz::template::template_id_in("block-v2.txt"), None);
    assert_eq!(roz::template::template_id_in("Block-v2.md"), None);
    assert_eq!(roz::template::template_id_in(""), None);
    assert_eq!(FileBackend::session_file_name("abc"), "abc.json");
    for name in ["session-start", "user-prompt", "stop", "subagent-stop", "pre-tool-use"] {
        assert!(roz::hooks::is_known_hook(name));
    }
    assert!(!roz::hooks::is_known_hook("post-tool-use"));
    assert!(!roz::hooks::is_known_hook(""));
}

#[test]
fn decision_names_fold_case_as_unicode_does() {
    let mut store = MemoryBackend::new();
    let state = enabled_session("s");
    store.put_session(&state).unwrap();
    assert_eq!(
        decide::run(&mut store, "s", "é", "x", None, None, 500),
        Err(Error::InvalidDecision("É".to_string()))
    );
    assert_eq!(
        decide::run(&mut store, "s", "straße", "x", None, None, 500),
        Err(Error::InvalidDecision("STRASSE".to_string()))
    );
    assert_eq!(store.get_session("s").unwrap().unwrap(), state);
    assert_eq!(decide::parse_kind("iſſueſ"), Some(decide::DecisionKind::Issues));
    assert_eq!(decide::parse_kind("ıssues"), Some(decide::DecisionKind::Issues));
    assert_eq!(decide::kind_in_upper_case("COMPLETE"), Some(decide::DecisionKind::Complete));
    assert_eq!(decide::kind_in_upper_case("ISSUES"), Some(decide::DecisionKind::Issues));
    assert_eq!(decide::kind_in_upper_case("Complete"), None);
    decide::run(&mut store, "s", "ıssues", "bad", None, None, 500).unwrap();
    assert_eq!(
        store.get_session("s").unwrap().unwrap().review.decision,
        Decision::Issues { summary: "bad".to_string(), message_to_agent: None }
    );
    assert_eq!(roz::config::mode_in_lower_case("always"), ReviewMode::Always);
    assert_eq!(roz::config::mode_in_lower_case("never"), ReviewMode::Never);
    assert_eq!(roz::config::mode_in_lower_case("Always"), ReviewMode::Prompt);
}

#[test]
fn hooks_follow_the_configured_cap() {
    let mut config = Config::default();
    config.trace.max_events = 1;
    let mut store = MemoryBackend::new();
    let prompt = HookInput { prompt: Some("#roz a".to_string()), ..input("s") };
    roz::engine::handle_user_prompt_with_config(&prompt, &mut store, &config);
    roz::engine::handle_user_prompt_with_config(&prompt, &mut store, &config);
    let state = store.get_session("s").unwrap().unwrap();
    assert_eq!(state.trace.len(), 1);
    assert_eq!(state.trace[0].event_type, EventType::TraceCompacted);
    assert_eq!(state.review.user_prompts.len(), 2);

    config.trace.max_events = 0;
    let mut store = MemoryBackend::new();
    let output = roz::engine::handle_session_start_with_config(&input("t"), &mut store, &config, &host());
    assert_eq!(output, HookOutput::approve());
    assert!(store.get_session("t").unwrap().unwrap().trace.is_empty());

    config.circuit_breaker.max_blocks = 0;
    let mut store = MemoryBackend::new();
    store.put_session(&enabled_session("u")).unwrap();
    let output = roz::hooks::dispatch_hook("stop", &input("u"), &mut store, &config, &host());
    assert_eq!(output, HookOutput::approve());
    let state = store.get_session("u").unwrap().unwrap();
    assert!(state.review.circuit_breaker_tripped);
    assert!(state.trace.is_empty());
    roz::hooks::dispatch_hook("user-prompt", &prompt, &mut store, &config, &host());
    assert!(store.get_session("s").unwrap().unwrap().trace.is_empty());
}

#[test]
fn listing_a_vector_of_sessions() {
    let sessions: Vec<SessionState> = [("a", 10), ("b", 30), ("c", 20)]
        .into_iter()
        .map(|(id, created)| SessionState::created(id, at(created)))
        .collect();
    let all = roz::storage::list_newest(&sessions, 10);
    assert_eq!(all.iter().map(|s| s.session_id.as_str()).collect::<Vec<_>>(), vec!["b", "c", "a"]);
    let two = roz::storage::list_newest(&sessions, 2);
    assert_eq!(two.iter().map(|s| s.session_id.as_str()).collect::<Vec<_>>(), vec!["b", "c"]);
    assert!(roz::storage::list_newest(&sessions, 0).is_empty());
    assert!(roz::storage::list_newest(&Vec::new(), 5).is_empty());
    // sessions that share an id are each listed
    let twins = vec![SessionState::created("a", at(1)), SessionState::created("a", at(2))];
    let both = roz::storage::list_newest(&twins, 10);
    assert_eq!(both.iter().map(|s| s.created_at.secs).collect::<Vec<_>>(), vec![2, 1]);
}

#[test]
fn well_formed_weights() {
    assert!(Config::default().templates.is_well_formed());
    let weight = |id: &str| TemplateWeight { id: id.to_string(), weight: 1 };
    let mut templates = roz::config::TemplateConfig { active: "random".to_string(), weights: Vec::new() };
    assert!(templates.is_well_formed());
    templates.weights = vec![weight("a"), weight("b"), weight("c")];
    assert!(templates.is_well_formed());
    templates.weights = vec![weight("a"), weight("b"), weight("a")];
    assert!(!templates.is_well_formed());
}

#[test]
fn hash_of_a_cut_input_has_64_digits() {
    let stored = TruncatedInput::from_value(text(&"é".repeat(6000)));
    assert!(stored.truncated);
    let hash = stored.original_hash.unwrap();
    assert_eq!(hash.len(), 64);
    assert!(hash.chars().all(|c| c.is_ascii_digit() || ('a'..='f').contains(&c)));
    assert_eq!(stored.original_size, Some(12002));
}
