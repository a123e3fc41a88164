//! What holds of the engine whatever the host does: statements over whole
//! runs of invocations, proved from the transitions.

use crate::cli::decide::{decide_next, decision_payload, DecisionKind};
use crate::config::GatesView;
use crate::engine::gates::{
    allowed_payload, blocked_payload, first_match, gate_next, glob_matches, matching_pattern,
};
use crate::engine::hooks::{
    event, opts_in, prompt_next, prompt_payload, stop_next, stop_output, FreshView,
};
use crate::engine::state::{
    DecisionRecordView, DecisionView, EventType, SessionView, TraceEventView,
};
use crate::engine::trace::{appended, lemma_appended_bounded};
use crate::hooks::output::{approval, blocking};
use crate::template::rendered;
use crate::json::JsonView;
use crate::storage::traits::stored;
use crate::text::{skip_spaces, trim_start};
use crate::time::Timestamp;
use vstd::prelude::*;

verus! {

/// One invocation that reaches a session, with all that it was given.
pub enum Step {
    /// A hook that leaves the session as it is: session-start on a known
    /// session, subagent-stop, or any hook whose store failed.
    Untouched,
    UserPrompt { prompt: Seq<char>, max_events: nat, fresh: FreshView },
    Stop { max_blocks: u32, max_events: nat, template_id: Seq<char>, fresh: FreshView },
    PreToolUse {
        key: Seq<char>,
        pattern: Seq<char>,
        input: Option<JsonView>,
        gates: GatesView,
        max_events: nat,
        fresh: FreshView,
    },
    Decide {
        kind: DecisionKind,
        summary: Seq<char>,
        message: Option<Seq<char>>,
        opinions: Option<Seq<char>>,
        max_events: nat,
        fresh: FreshView,
    },
}

/// The session after one invocation.
pub open spec fn after(s: SessionView, step: Step) -> SessionView {
    match step {
        Step::Untouched => s,
        Step::UserPrompt { prompt, max_events, fresh } => prompt_next(s, prompt, max_events, fresh),
        Step::Stop { max_blocks, max_events, template_id, fresh } => stop_next(
            s,
            max_blocks,
            max_events,
            fresh,
            template_id,
        ),
        Step::PreToolUse { key, pattern, input, gates, max_events, fresh } => gate_next(
            s,
            key,
            pattern,
            input,
            gates,
            max_events,
            fresh,
        ),
        Step::Decide { kind, summary, message, opinions, max_events, fresh } => decide_next(
            s,
            kind,
            summary,
            message,
            opinions,
            max_events,
            fresh,
        ),
    }
}

/// The session after a run of invocations, in order.
pub open spec fn after_all(s: SessionView, steps: Seq<Step>) -> SessionView
    decreases steps.len(),
{
    if steps.len() == 0 {
        s
    } else {
        after(after_all(s, steps.drop_last()), steps.last())
    }
}

/// No invocation lowers the block count, and none resets a tripped breaker.
pub proof fn lemma_step_keeps(s: SessionView, step: Step)
    ensures
        after(s, step).review.block_count >= s.review.block_count,
        s.review.circuit_breaker_tripped ==> after(s, step).review.circuit_breaker_tripped,
        after(s, step).session_id == s.session_id,
{
}

/// The cap on the trace that an invocation works under, where it has one.
pub open spec fn cap_of(step: Step) -> Option<nat> {
    match step {
        Step::Untouched => None,
        Step::UserPrompt { max_events, .. } => Some(max_events),
        Step::Stop { max_events, .. } => Some(max_events),
        Step::PreToolUse { max_events, .. } => Some(max_events),
        Step::Decide { max_events, .. } => Some(max_events),
    }
}

/// An invocation leaves the trace as it was, or no longer than its cap allows.
pub proof fn lemma_trace_stays_bounded(s: SessionView, step: Step)
    ensures
        after(s, step).trace == s.trace || (cap_of(step) matches Some(max_events) && after(
            s,
            step,
        ).trace.len() <= max_events),
{
    match step {
        Step::Untouched => {},
        Step::UserPrompt { prompt, max_events, fresh } => {
            lemma_appended_bounded(
                s.trace,
                event(fresh.event_id, fresh.now, EventType::PromptReceived, prompt_payload(prompt)),
                max_events,
                fresh.marker_id,
                fresh.now,
            );
        },
        Step::Stop { max_blocks, max_events, template_id, fresh } => {
            lemma_appended_bounded(
                s.trace,
                event(
                    fresh.event_id,
                    fresh.now,
                    EventType::StopHookCalled,
                    JsonView::Object(Seq::empty()),
                ),
                max_events,
                fresh.marker_id,
                fresh.now,
            );
        },
        Step::PreToolUse { key, pattern, input, gates, max_events, fresh } => {
            lemma_appended_bounded(
                s.trace,
                event(
                    fresh.event_id,
                    fresh.now,
                    EventType::GateAllowed,
                    allowed_payload(key, "circuit_breaker"@),
                ),
                max_events,
                fresh.marker_id,
                fresh.now,
            );
            lemma_appended_bounded(
                s.trace,
                event(fresh.event_id, fresh.now, EventType::GateAllowed, allowed_payload(key, "approved"@)),
                max_events,
                fresh.marker_id,
                fresh.now,
            );
            lemma_appended_bounded(
                s.trace,
                event(fresh.event_id, fresh.now, EventType::GateBlocked, blocked_payload(key, pattern)),
                max_events,
                fresh.marker_id,
                fresh.now,
            );
        },
        Step::Decide { kind, summary, message, opinions, max_events, fresh } => {
            lemma_appended_bounded(
                s.trace,
                event(
                    fresh.event_id,
                    fresh.now,
                    EventType::RozDecision,
                    decision_payload(kind, summary, opinions),
                ),
                max_events,
                fresh.marker_id,
                fresh.now,
            );
        },
    }
}

/// Over any run of invocations the block count never goes down.
pub proof fn lemma_block_count_never_decreases(s: SessionView, steps: Seq<Step>)
    ensures
        after_all(s, steps).review.block_count >= s.review.block_count,
    decreases steps.len(),
{
    if steps.len() > 0 {
        lemma_block_count_never_decreases(s, steps.drop_last());
        lemma_step_keeps(after_all(s, steps.drop_last()), steps.last());
    }
}

/// Once the breaker has tripped, the stop hook approves, whatever has
/// happened to the session in between and whatever the configuration is.
pub proof fn lemma_tripped_session_is_approved(
    s: SessionView,
    steps: Seq<Step>,
    max_blocks: u32,
    template: Seq<char>,
)
    requires
        s.review.circuit_breaker_tripped,
    ensures
        after_all(s, steps).review.circuit_breaker_tripped,
        stop_output(after_all(s, steps), max_blocks, template) == approval(),
    decreases steps.len(),
{
    if steps.len() > 0 {
        lemma_tripped_session_is_approved(s, steps.drop_last(), max_blocks, template);
        lemma_step_keeps(after_all(s, steps.drop_last()), steps.last());
    }
}

/// A session under review with no decision yet is blocked by the stop hook
/// as long as its blocks are below the limit and the breaker has not tripped;
/// the block is counted.
pub proof fn lemma_pending_session_is_blocked(
    s: SessionView,
    max_blocks: u32,
    max_events: nat,
    fresh: FreshView,
    template_id: Seq<char>,
    template: Seq<char>,
)
    requires
        s.review.enabled,
        s.review.decision is Pending,
        !s.review.circuit_breaker_tripped,
        s.review.block_count < max_blocks,
    ensures
        stop_output(s, max_blocks, template) == blocking(rendered(template, s.session_id)),
        stop_next(s, max_blocks, max_events, fresh, template_id).review.block_count
            == s.review.block_count + 1,
{
}

/// Once `COMPLETE` is posted, the session holds it with the prior decision on
/// its history, the approval of gates and the update stamped with the time of
/// the posting, and the block count as it was; and the stop hook approves the
/// session, whatever the limit on blocks is.
pub proof fn lemma_completed_session_is_approved(
    s: SessionView,
    summary: Seq<char>,
    message: Option<Seq<char>>,
    opinions: Option<Seq<char>>,
    max_events: nat,
    fresh: FreshView,
    max_blocks: u32,
    template: Seq<char>,
)
    ensures
        ({
            let next = decide_next(s, DecisionKind::Complete, summary, message, opinions, max_events, fresh);
            &&& next.review.decision == (DecisionView::Complete { summary, second_opinions: opinions })
            &&& next.review.decision_history == s.review.decision_history.push(
                DecisionRecordView { decision: s.review.decision, timestamp: fresh.now },
            )
            &&& next.review.gate_approved_at == Some(fresh.now)
            &&& next.updated_at == fresh.now
            &&& next.review.block_count == s.review.block_count
            &&& stop_output(next, max_blocks, template) == approval()
        }),
{
}

/// With a limit of zero blocks the stop hook never blocks: on a session
/// under review the breaker trips before anything is counted.
pub proof fn lemma_zero_blocks_trips_at_once(
    s: SessionView,
    max_events: nat,
    fresh: FreshView,
    template_id: Seq<char>,
    template: Seq<char>,
)
    ensures
        stop_output(s, 0, template) == approval(),
        s.review.enabled ==> stop_next(s, 0, max_events, fresh, template_id).review.circuit_breaker_tripped
            && stop_next(s, 0, max_events, fresh, template_id).review.block_count
            == s.review.block_count,
{
}

/// With a cap of zero events every append leaves the trace empty.
pub proof fn lemma_zero_events_keeps_nothing(
    trace: Seq<TraceEventView>,
    event: TraceEventView,
    marker_id: Seq<char>,
    at: Timestamp,
)
    ensures
        appended(trace, event, 0, marker_id, at) == Seq::<TraceEventView>::empty(),
{
}

/// The marker `#roz` alone, with nothing after it, opts in to review.
pub proof fn lemma_marker_alone_opts_in()
    ensures
        opts_in("#roz"@),
{
    reveal_strlit("#roz");
    let s = "#roz"@;
    assert(s[0] == '#');
    assert(skip_spaces(s, 0) == 0);
    assert(trim_start(s) == s);
    assert(s.subrange(0, s.len() as int) == s);
}

/// The first pattern that matches wins: a later pattern is never chosen over
/// an earlier one that matches, however specific the later one is.
pub proof fn lemma_first_match_wins(patterns: Seq<Seq<char>>, key: Seq<char>, i: int)
    requires
        0 <= i < patterns.len(),
        glob_matches(patterns[i], key),
        forall|j: int| 0 <= j < i ==> !glob_matches(#[trigger] patterns[j], key),
    ensures
        matching_pattern(patterns, key) == Some(patterns[i]),
{
    lemma_first_match_from(patterns, key, i, 0);
}

proof fn lemma_first_match_from(patterns: Seq<Seq<char>>, key: Seq<char>, i: int, from: int)
    requires
        0 <= from <= i < patterns.len(),
        glob_matches(patterns[i], key),
        forall|j: int| 0 <= j < i ==> !glob_matches(#[trigger] patterns[j], key),
    ensures
        first_match(patterns, key, from) == i,
    decreases i - from,
{
    if from < i {
        lemma_first_match_from(patterns, key, i, from + 1);
    }
}

/// Reading a session back after it was put gives the session that was put.
pub proof fn lemma_put_then_get(sessions: Map<Seq<char>, SessionView>, s: SessionView)
    ensures
        stored(sessions.insert(s.session_id, s), s.session_id) == Some(s),
{
}

} // verus!
