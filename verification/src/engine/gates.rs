//! Gates: the pre-tool-use hook.
//!
//! A gate is a glob pattern over tool keys. A tool whose key matches a
//! configured pattern is denied until roz has approved the session,
//! for as long as the approval scope lets that approval count.

use crate::config::{ApprovalScope, Config, GatesConfig, GatesView};
use crate::engine::bash::{normalize_bash_command, normalized};
use crate::engine::hooks::{event, session_or_new, two_members, Fresh, FreshView};
use crate::engine::state::{
    opt_view, views, Decision, EventType, GateTrigger, GateTriggerView, ReviewView, SessionState,
    SessionView, TraceEvent, TruncatedInput,
};
use crate::engine::trace::{appended, push_bounded};
use crate::engine::truncate::stored_input;
use crate::hooks::input::HookInput;
use crate::hooks::output::{permission, PermissionDecision, PreToolUseOutput, PreToolUseView};
use crate::json::{json_text, member_of, text_in, JsonValue, JsonView, MemberView};
use crate::storage::traits::MessageStore;
use crate::text::{chars_of, has_prefix, matches_at, str_eq};
use crate::time::{later_than, Timestamp};
use vstd::prelude::*;

verus! {

// ----------------------------------------------------------------------------
// glob matching
// ----------------------------------------------------------------------------
/// Whether the glob `pattern`, compiled by the `glob` crate, matches `text`
/// under the crate's default options; `None` where the pattern does not
/// compile. (`**` follows the path separators of the platform the crate is
/// built for; for patterns without `**` the result is the same everywhere.)
pub uninterp spec fn glob_outcome(pattern: Seq<char>, text: Seq<char>) -> Option<bool>;

/// `glob::Pattern::new` on `pattern`, then `Pattern::matches` on `text`: the
/// result is the named outcome for these two texts.
#[verifier::external_body]
fn glob_test(pattern: &str, text: &str) -> (r: Option<bool>)
    ensures
        r == glob_outcome(pattern@, text@),
{
    glob::Pattern::new(pattern).ok().map(|p| p.matches(text))
}

/// The end of `p[..hi]` once trailing `*` are cut.
pub open spec fn star_end(p: Seq<char>, hi: int) -> int
    decreases hi,
{
    if 0 < hi <= p.len() && p[hi - 1] == '*' {
        star_end(p, hi - 1)
    } else {
        hi
    }
}

/// `p` without the `*` at its end.
pub open spec fn without_trailing_stars(p: Seq<char>) -> Seq<char> {
    p.take(star_end(p, p.len() as int))
}

/// The answer on `key` for `pattern`, given what the glob matcher said: its
/// answer where the pattern compiled; else whether `key` begins with the
/// pattern less its trailing `*`.
pub open spec fn glob_answer_of(outcome: Option<bool>, pattern: Seq<char>, key: Seq<char>) -> bool {
    match outcome {
        Some(b) => b,
        None => has_prefix(key, without_trailing_stars(pattern)),
    }
}

/// Whether `pattern` matches `key`.
pub open spec fn glob_matches(pattern: Seq<char>, key: Seq<char>) -> bool {
    glob_answer_of(glob_outcome(pattern, key), pattern, key)
}

/// The answer on `key` for `pattern`, given what the glob matcher said.
pub fn glob_answer(outcome: Option<bool>, pattern: &str, key: &str) -> (r: bool)
    ensures
        r == glob_answer_of(outcome, pattern@, key@),
{
    match outcome {
        Some(b) => b,
        None => {
            let p = chars_of(pattern);
            let k = chars_of(key);
            let mut hi: usize = p.len();
            while hi > 0 && p[hi - 1] == '*'
                invariant
                    hi <= p.len(),
                    star_end(p@, p@.len() as int) == star_end(p@, hi as int),
                decreases hi,
            {
                hi -= 1;
            }
            let mut prefix: Vec<char> = Vec::new();
            let mut i: usize = 0;
            while i < hi
                invariant
                    i <= hi <= p.len(),
                    prefix@ == p@.take(i as int),
                decreases hi - i,
            {
                prefix.push(p[i]);
                assert(p@.take(i + 1) == p@.take(i as int).push(p@[i as int]));
                i += 1;
            }
            assert(k@.skip(0) == k@);
            matches_at(&k, 0, &prefix)
        },
    }
}

/// Matches a tool key against a glob pattern.
pub fn glob_match(pattern: &str, tool_key: &str) -> (r: bool)
    ensures
        r == glob_matches(pattern@, tool_key@),
{
    glob_answer(glob_test(pattern, tool_key), pattern, tool_key)
}

/// The first index at or after `i` whose pattern matches `key` (`patterns.len()` if none).
pub open spec fn first_match(patterns: Seq<Seq<char>>, key: Seq<char>, i: int) -> int
    decreases patterns.len() - i,
{
    if 0 <= i < patterns.len() && !glob_matches(patterns[i], key) {
        first_match(patterns, key, i + 1)
    } else {
        i
    }
}

/// The first configured pattern that matches `key`.
pub open spec fn matching_pattern(patterns: Seq<Seq<char>>, key: Seq<char>) -> Option<Seq<char>> {
    let i = first_match(patterns, key, 0);
    if 0 <= i < patterns.len() {
        Some(patterns[i])
    } else {
        None
    }
}

/// Finds the first pattern that matches the tool key. Order matters: a
/// pattern is never tried once an earlier one has matched.
pub fn find_matching_pattern(tool_key: &str, patterns: &Vec<String>) -> (r: Option<String>)
    ensures
        opt_view(r) == matching_pattern(views(patterns@), tool_key@),
{
    let ghost ps = views(patterns@);
    let mut i: usize = 0;
    while i < patterns.len()
        invariant
            i <= patterns.len(),
            ps == views(patterns@),
            first_match(ps, tool_key@, 0) == first_match(ps, tool_key@, i as int),
        decreases patterns.len() - i,
    {
        if glob_match(patterns[i].as_str(), tool_key) {
            return Some(patterns[i].clone());
        }
        i += 1;
    }
    None
}

// ----------------------------------------------------------------------------
// tool keys
// ----------------------------------------------------------------------------
/// The command of a Bash tool input: its member `command`, where that is a string.
pub open spec fn command_in(input: Option<JsonView>) -> Option<Seq<char>> {
    match input {
        Some(v) => match member_of(v, "command"@) {
            Some(c) => text_in(c),
            None => None,
        },
        None => None,
    }
}

/// The key under which a tool call is matched: the tool's name, or for Bash
/// with a command, `Bash:` and the command's normal form.
pub open spec fn tool_key(name: Option<Seq<char>>, input: Option<JsonView>) -> Seq<char> {
    let n = match name {
        Some(n) => n,
        None => "unknown"@,
    };
    if n == "Bash"@ && command_in(input) is Some {
        "Bash:"@ + normalized(command_in(input)->0)
    } else {
        n
    }
}

/// Formats a tool key for pattern matching.
pub fn format_tool_key(tool_name: Option<&str>, tool_input: Option<&JsonValue>) -> (r: String)
    ensures
        r@ == tool_key(
            match tool_name {
                Some(n) => Some(n@),
                None => None,
            },
            match tool_input {
                Some(v) => Some(v@),
                None => None,
            },
        ),
{
    let name: &str = match tool_name {
        Some(n) => n,
        None => "unknown",
    };
    if str_eq(name, "Bash") {
        if let Some(input) = tool_input {
            if let Some(c) = input.get("command") {
                if let Some(cmd) = c.as_str() {
                    let normal = normalize_bash_command(cmd);
                    return crate::text::concat("Bash:", normal.as_str());
                }
            }
        }
    }
    name.to_owned()
}

// ----------------------------------------------------------------------------
// approval
// ----------------------------------------------------------------------------
/// The prompt time that an approval must come after: the last prompt, or the
/// start of the review cycle where a prompt arrived during the cycle.
pub open spec fn effective_prompt_at(review: ReviewView) -> Option<Timestamp> {
    match (review.last_prompt_at, review.review_started_at) {
        (Some(p), Some(r)) => if later_than(p, r, 0) {
            Some(r)
        } else {
            Some(p)
        },
        (p, _) => p,
    }
}

/// A gated call counts as approved: the decision is `Complete`, an approval time
/// is set and has not expired, and the scope lets it count.
pub open spec fn gate_approved(review: ReviewView, gates: GatesView, now: Timestamp) -> bool {
    &&& review.decision is Complete
    &&& review.gate_approved_at matches Some(approved)
    &&& !(gates.approval_ttl_seconds matches Some(ttl) && later_than(now, approved, ttl as int))
    &&& match gates.approval_scope {
        ApprovalScope::Session => true,
        ApprovalScope::Prompt => match effective_prompt_at(review) {
            Some(p) => later_than(approved, p, 0),
            None => true,
        },
        ApprovalScope::Tool => false,
    }
}

/// Whether gated calls are approved under the configured scope, at the time `now`.
pub fn is_gate_approved(state: &SessionState, gates: &GatesConfig, now: Timestamp) -> (r: bool)
    ensures
        r == gate_approved(state@.review, gates@, now),
{
    match &state.review.decision {
        Decision::Complete { .. } => {},
        _ => {
            return false;
        },
    }
    let approved = match state.review.gate_approved_at {
        Some(t) => t,
        None => {
            return false;
        },
    };
    if let Some(ttl) = gates.approval_ttl_seconds {
        if now.is_later_than(&approved, ttl) {
            return false;
        }
    }
    match gates.approval_scope {
        ApprovalScope::Session => true,
        ApprovalScope::Prompt => {
            let effective = match (state.review.last_prompt_at, state.review.review_started_at) {
                (Some(p), Some(r)) => if p.is_later_than(&r, 0) {
                    Some(r)
                } else {
                    Some(p)
                },
                (p, _) => p,
            };
            match effective {
                Some(p) => approved.is_later_than(&p, 0),
                None => true,
            }
        },
        ApprovalScope::Tool => false,
    }
}

// ----------------------------------------------------------------------------
// the transition
// ----------------------------------------------------------------------------
/// What gating does with a tool call on a session.
pub enum GatePath {
    /// The circuit breaker has tripped: let the call through.
    Breaker,
    /// Roz's approval counts: let the call through.
    Approved,
    /// Deny the call and ask for review.
    Denied,
}

/// Which path applies.
pub open spec fn gate_path(review: ReviewView, gates: GatesView, now: Timestamp) -> GatePath {
    if review.circuit_breaker_tripped {
        GatePath::Breaker
    } else if gate_approved(review, gates, now) {
        GatePath::Approved
    } else {
        GatePath::Denied
    }
}

/// Payload of a `gate_allowed` event.
pub open spec fn allowed_payload(key: Seq<char>, reason: Seq<char>) -> JsonView {
    JsonView::Object(
        seq![
            MemberView { key: "reason"@, value: JsonView::Str(reason) },
            MemberView { key: "tool"@, value: JsonView::Str(key) },
        ],
    )
}

/// Payload of a `gate_blocked` event.
pub open spec fn blocked_payload(key: Seq<char>, pattern: Seq<char>) -> JsonView {
    JsonView::Object(
        seq![
            MemberView { key: "pattern"@, value: JsonView::Str(pattern) },
            MemberView { key: "tool"@, value: JsonView::Str(key) },
        ],
    )
}

/// The message that denies a tool call and asks for review.
pub open spec fn deny_message(session_id: Seq<char>, key: Seq<char>) -> Seq<char> {
    "Review required before this action.\n\nSpawn **roz:roz** to review this session:\n\n```\nSESSION_ID="@
        + session_id
        + "\n\n## Summary\n[What you did and why]\n\n## Files Changed\n[List of modified files]\n```\n\nTriggered by: `"@
        + key + "`"@
}

/// The tool input as the trigger records it, `null` standing for no input.
pub open spec fn input_or_null(input: Option<JsonView>) -> JsonView {
    match input {
        Some(v) => v,
        None => JsonView::Null,
    }
}

/// The session after gating has judged a tool call.
pub open spec fn gate_next(
    s: SessionView,
    key: Seq<char>,
    pattern: Seq<char>,
    input: Option<JsonView>,
    gates: GatesView,
    max_events: nat,
    fresh: FreshView,
) -> SessionView {
    match gate_path(s.review, gates, fresh.now) {
        GatePath::Breaker => SessionView {
            trace: appended(
                s.trace,
                event(
                    fresh.event_id,
                    fresh.now,
                    EventType::GateAllowed,
                    allowed_payload(key, "circuit_breaker"@),
                ),
                max_events,
                fresh.marker_id,
                fresh.now,
            ),
            ..s
        },
        GatePath::Approved => SessionView {
            trace: appended(
                s.trace,
                event(
                    fresh.event_id,
                    fresh.now,
                    EventType::GateAllowed,
                    allowed_payload(key, "approved"@),
                ),
                max_events,
                fresh.marker_id,
                fresh.now,
            ),
            ..s
        },
        GatePath::Denied => SessionView {
            review: ReviewView {
                enabled: true,
                review_started_at: Some(fresh.now),
                gate_trigger: Some(
                    GateTriggerView {
                        tool_name: key,
                        tool_input: stored_input(
                            input_or_null(input),
                            json_text(input_or_null(input)),
                        ),
                        triggered_at: fresh.now,
                        pattern_matched: pattern,
                    },
                ),
                ..s.review
            },
            trace: appended(
                s.trace,
                event(
                    fresh.event_id,
                    fresh.now,
                    EventType::GateBlocked,
                    blocked_payload(key, pattern),
                ),
                max_events,
                fresh.marker_id,
                fresh.now,
            ),
            updated_at: fresh.now,
            ..s
        },
    }
}

/// The output of gating for a tool call on a session.
pub open spec fn gate_output(s: SessionView, key: Seq<char>, gates: GatesView, now: Timestamp) -> PreToolUseView {
    match gate_path(s.review, gates, now) {
        GatePath::Denied => permission(PermissionDecision::Deny, Some(deny_message(s.session_id, key))),
        _ => permission(PermissionDecision::Allow, None),
    }
}

/// Records that gating let a tool call through.
fn trace_gate_allowed(state: &mut SessionState, tool: &str, reason: &str, max_events: usize, fresh: Fresh)
    ensures
        final(state)@ == (SessionView {
            trace: appended(
                old(state)@.trace,
                event(
                    fresh.event_id@,
                    fresh.now,
                    EventType::GateAllowed,
                    allowed_payload(tool@, reason@),
                ),
                max_events as nat,
                fresh.marker_id@,
                fresh.now,
            ),
            ..old(state)@
        }),
{
    let payload = two_members("reason", JsonValue::text(reason), "tool", JsonValue::text(tool));
    assert(payload@->Object_0 =~= allowed_payload(tool@, reason@)->Object_0);
    let e = TraceEvent {
        id: fresh.event_id,
        timestamp: fresh.now,
        event_type: EventType::GateAllowed,
        payload,
    };
    push_bounded(&mut state.trace, e, max_events, fresh.marker_id, fresh.now);
}

/// Gating on a tool call that matched `pattern`: the next session and the output.
pub fn gate_transition(
    state: SessionState,
    tool_key: &str,
    pattern: &str,
    tool_input: &Option<JsonValue>,
    config: &Config,
    fresh: Fresh,
) -> (r: (SessionState, PreToolUseOutput))
    ensures
        r.0@ == gate_next(
            state@,
            tool_key@,
            pattern@,
            opt_view(*tool_input),
            config.review.gates@,
            config.trace.max_events as nat,
            fresh@,
        ),
        r.1@ == gate_output(state@, tool_key@, config.review.gates@, fresh.now),
        r.0@.review.block_count == state@.review.block_count,
{
    let ghost s0 = state@;
    let mut state = state;
    let now = fresh.now;
    if state.review.circuit_breaker_tripped {
        trace_gate_allowed(&mut state, tool_key, "circuit_breaker", config.trace.max_events, fresh);
        return (state, PreToolUseOutput::allow());
    }
    if is_gate_approved(&state, &config.review.gates, now) {
        trace_gate_allowed(&mut state, tool_key, "approved", config.trace.max_events, fresh);
        return (state, PreToolUseOutput::allow());
    }
    let original = match tool_input {
        Some(v) => v.clone(),
        None => JsonValue::Null,
    };
    assert(original@ == input_or_null(opt_view(*tool_input)));
    state.review.enabled = true;
    state.review.review_started_at = Some(now);
    state.review.gate_trigger = Some(
        GateTrigger {
            tool_name: tool_key.to_owned(),
            tool_input: TruncatedInput::from_value(original),
            triggered_at: now,
            pattern_matched: pattern.to_owned(),
        },
    );
    let payload = two_members("pattern", JsonValue::text(pattern), "tool", JsonValue::text(tool_key));
    assert(payload@->Object_0 =~= blocked_payload(tool_key@, pattern@)->Object_0);
    let e = TraceEvent {
        id: fresh.event_id,
        timestamp: now,
        event_type: EventType::GateBlocked,
        payload,
    };
    push_bounded(&mut state.trace, e, config.trace.max_events, fresh.marker_id, now);
    state.updated_at = now;
    let mut m = String::new();
    m.append(
        "Review required before this action.\n\nSpawn **roz:roz** to review this session:\n\n```\nSESSION_ID=",
    );
    m.append(state.session_id.as_str());
    m.append(
        "\n\n## Summary\n[What you did and why]\n\n## Files Changed\n[List of modified files]\n```\n\nTriggered by: `",
    );
    m.append(tool_key);
    m.append("`");
    assert(m@ =~= deny_message(s0.session_id, tool_key@));
    (state, PreToolUseOutput::deny(m.as_str()))
}

// ----------------------------------------------------------------------------
// the handler
// ----------------------------------------------------------------------------
/// The key of the tool call in `input`.
pub open spec fn key_of(input: HookInput) -> Seq<char> {
    tool_key(opt_view(input.tool_name), opt_view(input.tool_input))
}

/// The tool call in `input` is gated: gates are configured and one of them matches its key.
pub open spec fn is_gated(input: HookInput, gates: GatesView) -> bool {
    gates.tools.len() > 0 && matching_pattern(gates.tools, key_of(input)) is Some
}

/// What one run of the pre-tool-use hook does on a gated tool call, on a
/// store that does not fail: it answers as the transition does and puts the
/// next session in place, a session unknown so far being created at the time
/// of the invocation.
pub open spec fn gate_done(
    before: Map<Seq<char>, SessionView>,
    after: Map<Seq<char>, SessionView>,
    out: PreToolUseView,
    input: HookInput,
    gates: GatesView,
    max_events: nat,
) -> bool {
    exists|fresh: FreshView|
        {
            let next = #[trigger] gate_next(
                session_or_new(before, input.session_id@, fresh.now),
                key_of(input),
                matching_pattern(gates.tools, key_of(input))->0,
                opt_view(input.tool_input),
                gates,
                max_events,
                fresh,
            );
            &&& out == gate_output(
                session_or_new(before, input.session_id@, fresh.now),
                key_of(input),
                gates,
                fresh.now,
            )
            &&& after == before.insert(next.session_id, next)
        }
}

/// What one run of the pre-tool-use hook may do on a gated tool call: allow
/// and leave the store alone (where the store could not be read or written),
/// or what `gate_done` says.
pub open spec fn gate_effect(
    before: Map<Seq<char>, SessionView>,
    after: Map<Seq<char>, SessionView>,
    out: PreToolUseView,
    input: HookInput,
    gates: GatesView,
    max_events: nat,
) -> bool {
    ||| out == permission(PermissionDecision::Allow, None) && after == before
    ||| gate_done(before, after, out, input, gates, max_events)
}

/// Handles the pre-tool-use hook: lets a tool call through unless a gate
/// matches it and the session lacks an approval that counts. A store that
/// fails makes the hook allow the call.
pub fn handle_pre_tool_use<S: MessageStore>(input: &HookInput, config: &Config, store: &mut S) -> (r:
    PreToolUseOutput)
    ensures
        !is_gated(*input, config.review.gates@) ==> r@ == permission(PermissionDecision::Allow, None)
            && final(store).sessions() == old(store).sessions(),
        is_gated(*input, config.review.gates@) ==> gate_effect(
            old(store).sessions(),
            final(store).sessions(),
            r@,
            *input,
            config.review.gates@,
            config.trace.max_events as nat,
        ),
        old(store).never_fails() && is_gated(*input, config.review.gates@) ==> gate_done(
            old(store).sessions(),
            final(store).sessions(),
            r@,
            *input,
            config.review.gates@,
            config.trace.max_events as nat,
        ),
{
    if !config.review.gates.is_enabled() {
        return PreToolUseOutput::allow();
    }
    let name: Option<&str> = match &input.tool_name {
        Some(n) => Some(n.as_str()),
        None => None,
    };
    let tool_key = format_tool_key(name, input.tool_input.as_ref());
    let pattern = match find_matching_pattern(tool_key.as_str(), &config.review.gates.tools) {
        Some(p) => p,
        None => {
            return PreToolUseOutput::allow();
        },
    };
    let fresh = Fresh::draw();
    let state = match store.get_session(input.session_id.as_str()) {
        Ok(Some(s)) => s,
        Ok(None) => SessionState::created(input.session_id.as_str(), fresh.now),
        Err(_) => {
            return PreToolUseOutput::allow();
        },
    };
    let ghost base = state@;
    let ghost f = fresh@;
    let (next, output) = gate_transition(
        state,
        tool_key.as_str(),
        pattern.as_str(),
        &input.tool_input,
        config,
        fresh,
    );
    let denied = match output.hook_specific_output.permission_decision {
        PermissionDecision::Deny => true,
        _ => false,
    };
    let saved = store.put_session(&next);
    proof {
        assert(base == session_or_new(old(store).sessions(), input.session_id@, f.now));
        let n = gate_next(
            session_or_new(old(store).sessions(), input.session_id@, f.now),
            key_of(*input),
            matching_pattern(config.review.gates@.tools, key_of(*input))->0,
            opt_view(input.tool_input),
            config.review.gates@,
            config.trace.max_events as nat,
            f,
        );
        assert(n == next@);
    }
    if denied && saved.is_err() {
        return PreToolUseOutput::allow();
    }
    output
}

} // verus!
