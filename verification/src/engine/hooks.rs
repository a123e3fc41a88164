//! Hook handlers.
//!
//! Each hook is split in two. A transition function takes the session, the
//! configuration and the values drawn afresh for the invocation (the time, the
//! ids of new trace events) and returns the next session and the output; its
//! contract is exact. The handler around it reads the session from the store,
//! draws the fresh values, runs the transition and writes the session back; it
//! fails open: a store that cannot be read yields approval.

use crate::config::{Config, TemplateConfigView};
use crate::engine::circuit_breaker::{breaker_open, should_trip, trip, tripped};
use crate::engine::state::{
    fresh_session, opt_view, views, AttemptOutcome, AttemptOutcomeView, Decision, DecisionView,
    EventType, ReviewAttempt, ReviewAttemptView, ReviewView, SessionState, SessionView, TraceEvent,
    TraceEventView,
};
use crate::engine::trace::{appended, generate_id, push_bounded};
use crate::hooks::input::{HookInput, HostContext, TemplateFileView};
use crate::hooks::output::{approval, blocking, HookOutput, HookOutputView};
use crate::json::{JsonValue, JsonView, MemberView};
use crate::storage::traits::{stored, MessageStore};
use crate::template::{load_template, may_select, render_template, rendered, select_template, template_text};
use crate::text::{has_prefix, trim_start};
use crate::time::{earlier_than, later_than, moved_back, time_text, Timestamp};
use vstd::prelude::*;

verus! {

/// The values drawn afresh for one hook invocation.
pub struct Fresh {
    /// The time of the invocation.
    pub now: Timestamp,
    /// Id for the trace event that the invocation records.
    pub event_id: String,
    /// Id for the marker, should the trace be compacted.
    pub marker_id: String,
}

/// The mathematical model of [`Fresh`].
pub struct FreshView {
    pub now: Timestamp,
    pub event_id: Seq<char>,
    pub marker_id: Seq<char>,
}

impl View for Fresh {
    type V = FreshView;

    open spec fn view(&self) -> FreshView {
        FreshView { now: self.now, event_id: self.event_id@, marker_id: self.marker_id@ }
    }
}

impl Fresh {
    /// Reads the clock and draws two ids. The time is whatever the clock says
    /// and the ids are random; each id is a hyphenated UUID, 36 characters long.
    pub fn draw() -> (r: Fresh)
        ensures
            r@.event_id.len() == 36,
            r@.marker_id.len() == 36,
    {
        Fresh { now: crate::time::now(), event_id: generate_id(), marker_id: generate_id() }
    }
}

/// A trace event with the given payload.
pub open spec fn event(id: Seq<char>, at: Timestamp, event_type: EventType, payload: JsonView) -> TraceEventView {
    TraceEventView { id, timestamp: at, event_type, payload }
}

/// `s` with `e` appended to its trace under the cap, and `updated_at` set.
pub open spec fn recorded(s: SessionView, e: TraceEventView, max_events: nat, fresh: FreshView) -> SessionView {
    SessionView {
        trace: appended(s.trace, e, max_events, fresh.marker_id, fresh.now),
        updated_at: fresh.now,
        ..s
    }
}

// ----------------------------------------------------------------------------
// stop
// ----------------------------------------------------------------------------
/// The rows of the stop hook's decision table.
pub enum StopPath {
    /// Review is not enabled: approve.
    NotEnabled,
    /// The breaker is open before the block is counted: trip and approve.
    BreakerBefore,
    /// Roz found issues, and counting this block opens the breaker: count,
    /// trip and approve.
    BreakerAfter,
    /// No decision yet, and the blocks are below the limit: count the block
    /// and ask for review.
    BlockPending,
    /// Roz found issues: block and pass them on.
    BlockIssues,
    /// Roz approved: approve.
    Approved,
}

/// Which row applies to a session.
pub open spec fn stop_path(review: ReviewView, max_blocks: u32) -> StopPath {
    if !review.enabled {
        StopPath::NotEnabled
    } else if breaker_open(review, max_blocks) {
        StopPath::BreakerBefore
    } else if review.decision is Complete {
        StopPath::Approved
    } else if review.decision is Pending {
        StopPath::BlockPending
    } else if review.block_count + 1 >= max_blocks {
        StopPath::BreakerAfter
    } else {
        StopPath::BlockIssues
    }
}

/// The message that passes roz's findings on to the agent.
pub open spec fn issues_message(message_to_agent: Option<Seq<char>>) -> Seq<char> {
    "Review found issues that need to be addressed:\n\n"@ + (match message_to_agent {
        Some(m) => m,
        None => "Issues were found. Please address them and try again."@,
    }) + "\n\nAfter fixing, spawn roz:roz again to re-review."@
}

/// The output of the stop hook for a session, `template` being the block template in force.
pub open spec fn stop_output(s: SessionView, max_blocks: u32, template: Seq<char>) -> HookOutputView {
    match stop_path(s.review, max_blocks) {
        StopPath::BlockPending => blocking(rendered(template, s.session_id)),
        StopPath::BlockIssues => blocking(issues_message(s.review.decision->message_to_agent)),
        _ => approval(),
    }
}

/// `review` with one more block counted.
pub open spec fn bumped(review: ReviewView) -> ReviewView {
    ReviewView { block_count: (review.block_count + 1) as u32, ..review }
}

/// `review` with a pending attempt recorded for `template_id`.
pub open spec fn attempted(review: ReviewView, template_id: Seq<char>, at: Timestamp) -> ReviewView {
    ReviewView {
        attempts: review.attempts.push(
            ReviewAttemptView { template_id, timestamp: at, outcome: AttemptOutcomeView::Pending },
        ),
        ..review
    }
}

/// The session after the stop hook.
pub open spec fn stop_next(
    s: SessionView,
    max_blocks: u32,
    max_events: nat,
    fresh: FreshView,
    template_id: Seq<char>,
) -> SessionView {
    let traced = recorded(
        s,
        event(fresh.event_id, fresh.now, EventType::StopHookCalled, JsonView::Object(Seq::empty())),
        max_events,
        fresh,
    );
    match stop_path(s.review, max_blocks) {
        StopPath::NotEnabled | StopPath::Approved => traced,
        StopPath::BreakerBefore => SessionView { review: tripped(s.review), ..traced },
        StopPath::BreakerAfter => SessionView { review: tripped(bumped(s.review)), ..traced },
        StopPath::BlockPending | StopPath::BlockIssues => SessionView {
            review: attempted(bumped(s.review), template_id, fresh.now),
            ..traced
        },
    }
}

/// The text of the message that passes roz's findings on.
fn issues_text(message_to_agent: &Option<String>) -> (r: String)
    ensures
        r@ == issues_message(opt_view(*message_to_agent)),
{
    let mut out = String::new();
    out.append("Review found issues that need to be addressed:\n\n");
    match message_to_agent {
        Some(m) => out.append(m.as_str()),
        None => out.append("Issues were found. Please address them and try again."),
    }
    out.append("\n\nAfter fixing, spawn roz:roz again to re-review.");
    assert(Seq::<char>::empty() + "Review found issues that need to be addressed:\n\n"@
        =~= "Review found issues that need to be addressed:\n\n"@);
    out
}

/// An object with no members.
fn empty_object() -> (r: JsonValue)
    ensures
        r@ == JsonView::Object(Seq::empty()),
{
    let members: Vec<(String, JsonValue)> = Vec::new();
    proof {
        crate::json::lemma_object_view(members);
        assert(crate::json::member_views(members@) =~= Seq::empty());
    }
    JsonValue::Object(members)
}

/// Appends an event to the session's trace under the cap and sets `updated_at`.
fn record(state: &mut SessionState, event_type: EventType, payload: JsonValue, max_events: usize, fresh: Fresh)
    ensures
        final(state)@ == recorded(
            old(state)@,
            event(fresh.event_id@, fresh.now, event_type, payload@),
            max_events as nat,
            fresh@,
        ),
{
    let e = TraceEvent { id: fresh.event_id, timestamp: fresh.now, event_type, payload };
    push_bounded(&mut state.trace, e, max_events, fresh.marker_id, fresh.now);
    state.updated_at = fresh.now;
}

/// The stop hook on a session that exists: the next session and the output.
///
/// `template_id` is the template selected for this invocation and `template`
/// its text; they matter only where the hook blocks.
pub fn stop_transition(
    state: SessionState,
    config: &Config,
    fresh: Fresh,
    template_id: String,
    template: &str,
) -> (r: (SessionState, HookOutput))
    ensures
        r.0@ == stop_next(
            state@,
            config.circuit_breaker.max_blocks,
            config.trace.max_events as nat,
            fresh@,
            template_id@,
        ),
        r.1@ == stop_output(state@, config.circuit_breaker.max_blocks, template@),
        r.0@.review.block_count >= state@.review.block_count,
        state@.review.circuit_breaker_tripped ==> r.1@ == approval(),
{
    let ghost s0 = state@;
    let mut state = state;
    let now = fresh.now;
    record(&mut state, EventType::StopHookCalled, empty_object(), config.trace.max_events, fresh);
    if !state.review.enabled {
        return (state, HookOutput::approve());
    }
    if should_trip(&state, &config.circuit_breaker) {
        trip(&mut state);
        return (state, HookOutput::approve());
    }
    // a session that waits for its decision is blocked as long as the blocks
    // are below the limit; after issues the breaker is checked once more with
    // this block counted
    let block: Option<(HookOutput, bool)> = match &state.review.decision {
        Decision::Pending => {
            let message = render_template(template, state.session_id.as_str());
            Some((HookOutput::block(message.as_str()), false))
        },
        Decision::Complete { .. } => None,
        Decision::Issues { message_to_agent, .. } => {
            let message = issues_text(message_to_agent);
            Some((HookOutput::block(message.as_str()), true))
        },
    };
    match block {
        None => (state, HookOutput::approve()),
        Some((output, check_again)) => {
            state.review.block_count = state.review.block_count + 1;
            if check_again && should_trip(&state, &config.circuit_breaker) {
                trip(&mut state);
                return (state, HookOutput::approve());
            }
            state.review.attempts.push(
                ReviewAttempt { template_id, timestamp: now, outcome: AttemptOutcome::Pending },
            );
            assert(state@.review.attempts =~= attempted(
                bumped(s0.review),
                template_id@,
                now,
            ).attempts) by {
                assert(views(state.review.attempts@) =~= views(
                    state.review.attempts@.drop_last(),
                ).push(state.review.attempts@.last()@));
            }
            (state, output)
        },
    }
}

/// What one run of the stop hook may do: `out` is its output and `after` the
/// store it leaves, where the store was `before`.
///
/// Where the store holds no session under `id`, or cannot be read, the hook
/// approves and leaves the store alone. Otherwise the output is that of the
/// transition for a template that the configuration may select, and the store
/// holds the next session in place of the old one, unless it could not be
/// written.
pub open spec fn stop_effect(
    before: Map<Seq<char>, SessionView>,
    after: Map<Seq<char>, SessionView>,
    out: HookOutputView,
    id: Seq<char>,
    max_blocks: u32,
    max_events: nat,
    templates: TemplateConfigView,
    files: Seq<TemplateFileView>,
) -> bool {
    ||| out == approval() && after == before
    ||| stored(before, id) matches Some(s) && exists|fresh: FreshView, template_id: Seq<char>|
        {
            let next = #[trigger] stop_next(s, max_blocks, max_events, fresh, template_id);
            &&& may_select(templates, template_id)
            &&& out == stop_output(s, max_blocks, template_text(files, template_id))
            &&& (after == before.insert(next.session_id, next) || after == before)
        }
}

/// What one run of the stop hook does on a store that does not fail. Where
/// the store holds no session under `id`, it approves and leaves the store
/// alone. Otherwise its output is that of the transition for a template that
/// the configuration may select, and the store holds the next session in
/// place of the old one.
pub open spec fn stop_done(
    before: Map<Seq<char>, SessionView>,
    after: Map<Seq<char>, SessionView>,
    out: HookOutputView,
    id: Seq<char>,
    max_blocks: u32,
    max_events: nat,
    templates: TemplateConfigView,
    files: Seq<TemplateFileView>,
) -> bool {
    match stored(before, id) {
        None => out == approval() && after == before,
        Some(s) => exists|fresh: FreshView, template_id: Seq<char>|
            {
                let next = #[trigger] stop_next(s, max_blocks, max_events, fresh, template_id);
                &&& may_select(templates, template_id)
                &&& out == stop_output(s, max_blocks, template_text(files, template_id))
                &&& after == before.insert(next.session_id, next)
            },
    }
}

/// Handles the stop hook with explicit configuration.
///
/// Blocks while review is enabled and roz has not approved, until the
/// circuit breaker opens. A store that fails makes the hook approve.
pub fn handle_stop_with_config<S: MessageStore>(
    input: &HookInput,
    store: &mut S,
    config: &Config,
    host: &HostContext,
) -> (r: HookOutput)
    ensures
        stop_effect(
            old(store).sessions(),
            final(store).sessions(),
            r@,
            input.session_id@,
            config.circuit_breaker.max_blocks,
            config.trace.max_events as nat,
            config.templates@,
            views(host.templates@),
        ),
        old(store).never_fails() ==> stop_done(
            old(store).sessions(),
            final(store).sessions(),
            r@,
            input.session_id@,
            config.circuit_breaker.max_blocks,
            config.trace.max_events as nat,
            config.templates@,
            views(host.templates@),
        ),
        stored(old(store).sessions(), input.session_id@) is None ==> r@ == approval(),
        stored(old(store).sessions(), input.session_id@) matches Some(s)
            && s.review.circuit_breaker_tripped ==> r@ == approval(),
{
    let state = match store.get_session(input.session_id.as_str()) {
        Ok(Some(s)) => s,
        Ok(None) => {
            return HookOutput::approve();
        },
        Err(_) => {
            return HookOutput::approve();
        },
    };
    let fresh = Fresh::draw();
    let template_id = select_template(&config.templates);
    let template = load_template(template_id.as_str(), host);
    let ghost s = state@;
    let ghost f = fresh@;
    let ghost tid = template_id@;
    let (next, output) = stop_transition(state, config, fresh, template_id, template.as_str());
    let _ = store.put_session(&next);
    proof {
        let n = stop_next(
            s,
            config.circuit_breaker.max_blocks,
            config.trace.max_events as nat,
            f,
            tid,
        );
        assert(n == next@);
    }
    output
}

/// Handles the stop hook with the default configuration: three blocks before
/// the breaker opens, a trace of 500 events, the template `default`.
pub fn handle_stop<S: MessageStore>(input: &HookInput, store: &mut S, host: &HostContext) -> (r:
    HookOutput)
    ensures
        stop_effect(
            old(store).sessions(),
            final(store).sessions(),
            r@,
            input.session_id@,
            3,
            500,
            crate::config::default_templates(),
            views(host.templates@),
        ),
        old(store).never_fails() ==> stop_done(
            old(store).sessions(),
            final(store).sessions(),
            r@,
            input.session_id@,
            3,
            500,
            crate::config::default_templates(),
            views(host.templates@),
        ),
        stored(old(store).sessions(), input.session_id@) is None ==> r@ == approval(),
        stored(old(store).sessions(), input.session_id@) matches Some(s)
            && s.review.circuit_breaker_tripped ==> r@ == approval(),
{
    let config = Config::default();
    handle_stop_with_config(input, store, &config, host)
}

// ----------------------------------------------------------------------------
// user-prompt
// ----------------------------------------------------------------------------
/// The prompt opts in to review: its first characters after any white space are `#roz`.
pub open spec fn opts_in(prompt: Seq<char>) -> bool {
    has_prefix(trim_start(prompt), "#roz"@)
}

/// Payload of a `prompt_received` event.
pub open spec fn prompt_payload(prompt: Seq<char>) -> JsonView {
    JsonView::Object(seq![MemberView { key: "prompt"@, value: JsonView::Str(prompt) }])
}

/// The session after the user-prompt hook.
pub open spec fn prompt_next(s: SessionView, prompt: Seq<char>, max_events: nat, fresh: FreshView) -> SessionView {
    if opts_in(prompt) {
        recorded(
            SessionView {
                review: ReviewView {
                    enabled: true,
                    user_prompts: s.review.user_prompts.push(prompt),
                    decision: DecisionView::Pending,
                    last_prompt_at: Some(fresh.now),
                    ..s.review
                },
                ..s
            },
            event(fresh.event_id, fresh.now, EventType::PromptReceived, prompt_payload(prompt)),
            max_events,
            fresh,
        )
    } else {
        SessionView {
            review: ReviewView { last_prompt_at: Some(fresh.now), ..s.review },
            updated_at: fresh.now,
            ..s
        }
    }
}

/// Whether the prompt opts in to review.
pub fn has_opt_in_marker(prompt: &str) -> (r: bool)
    ensures
        r == opts_in(prompt@),
{
    let v = crate::text::chars_of(prompt);
    let n = v.len();
    let a = crate::text::trim_start_bound(&v, 0, n);
    let marker = crate::text::chars_of("#roz");
    assert(v@.subrange(0, n as int) == v@);
    assert(v@.subrange(a as int, n as int) == v@.skip(a as int));
    crate::text::matches_at(&v, a, &marker)
}

/// An object with the one member `key`.
fn single_member(key: &str, value: JsonValue) -> (r: JsonValue)
    ensures
        r@ == JsonView::Object(seq![MemberView { key: key@, value: value@ }]),
{
    let mut members: Vec<(String, JsonValue)> = Vec::new();
    members.push((key.to_owned(), value));
    proof {
        crate::json::lemma_object_view(members);
        assert(crate::json::member_views(members@) =~= seq![
            MemberView { key: key@, value: value@ },
        ]);
    }
    JsonValue::Object(members)
}

/// An object with the two members `first` and `second`, in that order.
pub fn two_members(first: &str, a: JsonValue, second: &str, b: JsonValue) -> (r: JsonValue)
    ensures
        r@ == JsonView::Object(
            seq![
                MemberView { key: first@, value: a@ },
                MemberView { key: second@, value: b@ },
            ],
        ),
{
    let mut members: Vec<(String, JsonValue)> = Vec::new();
    members.push((first.to_owned(), a));
    members.push((second.to_owned(), b));
    proof {
        crate::json::lemma_object_view(members);
        assert(crate::json::member_views(members@) =~= seq![
            MemberView { key: first@, value: a@ },
            MemberView { key: second@, value: b@ },
        ]);
    }
    JsonValue::Object(members)
}

/// The user-prompt hook on a session: the next session.
pub fn prompt_transition(state: SessionState, prompt: &str, max_events: usize, fresh: Fresh) -> (r:
    SessionState)
    ensures
        r@ == prompt_next(state@, prompt@, max_events as nat, fresh@),
        r@.review.block_count == state@.review.block_count,
{
    let ghost s0 = state@;
    let mut state = state;
    state.review.last_prompt_at = Some(fresh.now);
    if has_opt_in_marker(prompt) {
        state.review.enabled = true;
        state.review.user_prompts.push(prompt.to_owned());
        state.review.decision = Decision::Pending;
        assert(state@.review.user_prompts =~= s0.review.user_prompts.push(prompt@));
        let payload = single_member("prompt", JsonValue::text(prompt));
        record(&mut state, EventType::PromptReceived, payload, max_events, fresh);
    } else {
        state.updated_at = fresh.now;
    }
    state
}

/// The session stored under `id`, or a new one created at `at`.
pub open spec fn session_or_new(before: Map<Seq<char>, SessionView>, id: Seq<char>, at: Timestamp) -> SessionView {
    match stored(before, id) {
        Some(s) => s,
        None => fresh_session(id, at),
    }
}

/// What one run of the user-prompt hook does to a store that does not fail:
/// it puts the next session in place, a session unknown so far being created
/// at the time of the invocation.
pub open spec fn prompt_done(
    before: Map<Seq<char>, SessionView>,
    after: Map<Seq<char>, SessionView>,
    id: Seq<char>,
    prompt: Seq<char>,
    max_events: nat,
) -> bool {
    exists|fresh: FreshView|
        {
            let next = #[trigger] prompt_next(
                session_or_new(before, id, fresh.now),
                prompt,
                max_events,
                fresh,
            );
            after == before.insert(next.session_id, next)
        }
}

/// What one run of the user-prompt hook may do to the store: nothing (where
/// the store could not be read or written), or what `prompt_done` says.
pub open spec fn prompt_effect(
    before: Map<Seq<char>, SessionView>,
    after: Map<Seq<char>, SessionView>,
    id: Seq<char>,
    prompt: Seq<char>,
    max_events: nat,
) -> bool {
    after == before || prompt_done(before, after, id, prompt, max_events)
}

/// The prompt of the input, or the empty prompt.
pub open spec fn prompt_of(input: HookInput) -> Seq<char> {
    match input.prompt {
        Some(p) => p@,
        None => Seq::empty(),
    }
}

/// Handles the user-prompt hook with explicit configuration: notes the time
/// of the prompt and, where the prompt opts in, enables review. Always
/// approves. The trace is capped as the configuration says.
pub fn handle_user_prompt_with_config<S: MessageStore>(
    input: &HookInput,
    store: &mut S,
    config: &Config,
) -> (r: HookOutput)
    ensures
        r@ == approval(),
        prompt_effect(
            old(store).sessions(),
            final(store).sessions(),
            input.session_id@,
            prompt_of(*input),
            config.trace.max_events as nat,
        ),
        old(store).never_fails() ==> prompt_done(
            old(store).sessions(),
            final(store).sessions(),
            input.session_id@,
            prompt_of(*input),
            config.trace.max_events as nat,
        ),
{
    let empty = String::new();
    let prompt: &str = match &input.prompt {
        Some(p) => p.as_str(),
        None => empty.as_str(),
    };
    let fresh = Fresh::draw();
    let state = match store.get_session(input.session_id.as_str()) {
        Ok(Some(s)) => s,
        Ok(None) => SessionState::created(input.session_id.as_str(), fresh.now),
        Err(_) => {
            return HookOutput::approve();
        },
    };
    let ghost base = state@;
    let ghost f = fresh@;
    let next = prompt_transition(state, prompt, config.trace.max_events, fresh);
    let _ = store.put_session(&next);
    proof {
        assert(base == session_or_new(old(store).sessions(), input.session_id@, f.now));
        assert(prompt@ == prompt_of(*input));
        let n = prompt_next(
            session_or_new(old(store).sessions(), input.session_id@, f.now),
            prompt_of(*input),
            config.trace.max_events as nat,
            f,
        );
        assert(n == next@);
    }
    HookOutput::approve()
}

/// Handles the user-prompt hook with the default configuration: a trace of
/// 500 events.
pub fn handle_user_prompt<S: MessageStore>(input: &HookInput, store: &mut S) -> (r: HookOutput)
    ensures
        r@ == approval(),
        prompt_effect(
            old(store).sessions(),
            final(store).sessions(),
            input.session_id@,
            prompt_of(*input),
            500,
        ),
        old(store).never_fails() ==> prompt_done(
            old(store).sessions(),
            final(store).sessions(),
            input.session_id@,
            prompt_of(*input),
            500,
        ),
{
    let config = Config::default();
    handle_user_prompt_with_config(input, store, &config)
}

// ----------------------------------------------------------------------------
// session-start
// ----------------------------------------------------------------------------
/// Payload of a `session_start` event.
pub open spec fn start_payload(cwd: Seq<char>, source: Option<Seq<char>>) -> JsonView {
    JsonView::Object(
        seq![
            MemberView { key: "cwd"@, value: JsonView::Str(cwd) },
            MemberView {
                key: "source"@,
                value: match source {
                    Some(s) => JsonView::Str(s),
                    None => JsonView::Null,
                },
            },
        ],
    )
}

/// A session as the session-start hook creates it.
pub open spec fn started_session(
    id: Seq<char>,
    cwd: Seq<char>,
    source: Option<Seq<char>>,
    max_events: nat,
    fresh: FreshView,
) -> SessionView {
    recorded(
        fresh_session(id, fresh.now),
        event(fresh.event_id, fresh.now, EventType::SessionStart, start_payload(cwd, source)),
        max_events,
        fresh,
    )
}

/// The context line that names the second-opinion helpers found, if any was found.
pub open spec fn helper_context(codex: bool, gemini: bool) -> Option<Seq<char>> {
    if codex || gemini {
        Some(
            "roz second opinion sources: "@ + (if codex {
                "codex "@
            } else {
                Seq::empty()
            }) + (if gemini {
                "gemini"@
            } else {
                Seq::empty()
            }),
        )
    } else {
        None
    }
}

/// The context line for the second-opinion helpers that the host found.
pub fn second_opinion_context(codex: bool, gemini: bool) -> (r: Option<String>)
    ensures
        opt_view(r) == helper_context(codex, gemini),
{
    if codex || gemini {
        let mut out = String::new();
        out.append("roz second opinion sources: ");
        if codex {
            out.append("codex ");
        }
        if gemini {
            out.append("gemini");
        }
        assert(out@ =~= helper_context(codex, gemini)->0);
        Some(out)
    } else {
        None
    }
}

/// Creates the session that the session-start hook records.
pub fn start_session(input: &HookInput, max_events: usize, fresh: Fresh) -> (r: SessionState)
    ensures
        r@ == started_session(
            input.session_id@,
            input.cwd@,
            opt_view(input.source),
            max_events as nat,
            fresh@,
        ),
{
    let mut state = SessionState::created(input.session_id.as_str(), fresh.now);
    let source = match &input.source {
        Some(s) => JsonValue::text(s.as_str()),
        None => JsonValue::Null,
    };
    assert(source@ == match opt_view(input.source) {
        Some(s) => JsonView::Str(s),
        None => JsonView::Null,
    });
    let payload = two_members("cwd", JsonValue::text(input.cwd.as_str()), "source", source);
    assert(payload@->Object_0 =~= start_payload(input.cwd@, opt_view(input.source))->Object_0);
    record(&mut state, EventType::SessionStart, payload, max_events, fresh);
    state
}

/// The output of the session-start hook where the store could be read:
/// approval, with the line that names the helpers the host found.
pub open spec fn start_output(codex: bool, gemini: bool) -> HookOutputView {
    HookOutputView { decision: None, reason: None, additional_context: helper_context(codex, gemini) }
}

/// What one run of the session-start hook may do. Where the store cannot be
/// read, it approves and leaves the store alone. Otherwise it answers with
/// `start_output`, and the store holds the session again as it was, or holds
/// it newly created where it was unknown, unless it could not be written.
pub open spec fn start_effect(
    before: Map<Seq<char>, SessionView>,
    after: Map<Seq<char>, SessionView>,
    out: HookOutputView,
    input: HookInput,
    codex: bool,
    gemini: bool,
    max_events: nat,
) -> bool {
    ||| out == approval() && after == before
    ||| out == start_output(codex, gemini) && {
        ||| after == before
        ||| stored(before, input.session_id@) matches Some(s) && after == before.insert(
            s.session_id,
            s,
        )
        ||| stored(before, input.session_id@) is None && exists|fresh: FreshView|
            {
                let next = #[trigger] started_session(
                    input.session_id@,
                    input.cwd@,
                    opt_view(input.source),
                    max_events,
                    fresh,
                );
                after == before.insert(next.session_id, next)
            }
    }
}

/// What one run of the session-start hook does on a store that does not
/// fail: it answers with `start_output`, and the store holds the session
/// again as it was, or holds it newly created where it was unknown.
pub open spec fn start_done(
    before: Map<Seq<char>, SessionView>,
    after: Map<Seq<char>, SessionView>,
    out: HookOutputView,
    input: HookInput,
    codex: bool,
    gemini: bool,
    max_events: nat,
) -> bool {
    &&& out == start_output(codex, gemini)
    &&& match stored(before, input.session_id@) {
        Some(s) => after == before.insert(s.session_id, s),
        None => exists|fresh: FreshView|
            {
                let next = #[trigger] started_session(
                    input.session_id@,
                    input.cwd@,
                    opt_view(input.source),
                    max_events,
                    fresh,
                );
                after == before.insert(next.session_id, next)
            },
    }
}

/// Handles the session-start hook with explicit configuration: creates the
/// session where it is unknown, leaves a known session as it is, and names
/// the second-opinion helpers at hand. A new session's trace is capped as the
/// configuration says.
pub fn handle_session_start_with_config<S: MessageStore>(
    input: &HookInput,
    store: &mut S,
    config: &Config,
    host: &HostContext,
) -> (r: HookOutput)
    ensures
        r@.decision is None,
        start_effect(
            old(store).sessions(),
            final(store).sessions(),
            r@,
            *input,
            host.codex_available,
            host.gemini_available,
            config.trace.max_events as nat,
        ),
        old(store).never_fails() ==> start_done(
            old(store).sessions(),
            final(store).sessions(),
            r@,
            *input,
            host.codex_available,
            host.gemini_available,
            config.trace.max_events as nat,
        ),
{
    let state = match store.get_session(input.session_id.as_str()) {
        Ok(Some(s)) => s,
        Ok(None) => {
            let fresh = Fresh::draw();
            let ghost f = fresh@;
            let created = start_session(input, config.trace.max_events, fresh);
            proof {
                let n = started_session(
                    input.session_id@,
                    input.cwd@,
                    opt_view(input.source),
                    config.trace.max_events as nat,
                    f,
                );
                assert(n == created@);
            }
            created
        },
        Err(_) => {
            return HookOutput::approve();
        },
    };
    let _ = store.put_session(&state);
    HookOutput {
        decision: None,
        reason: None,
        additional_context: second_opinion_context(host.codex_available, host.gemini_available),
    }
}

/// Handles the session-start hook with the default configuration: a trace of
/// 500 events.
pub fn handle_session_start<S: MessageStore>(input: &HookInput, store: &mut S, host: &HostContext) -> (r:
    HookOutput)
    ensures
        r@.decision is None,
        start_effect(
            old(store).sessions(),
            final(store).sessions(),
            r@,
            *input,
            host.codex_available,
            host.gemini_available,
            500,
        ),
        old(store).never_fails() ==> start_done(
            old(store).sessions(),
            final(store).sessions(),
            r@,
            *input,
            host.codex_available,
            host.gemini_available,
            500,
        ),
{
    let config = Config::default();
    handle_session_start_with_config(input, store, &config, host)
}

// ----------------------------------------------------------------------------
// subagent-stop
// ----------------------------------------------------------------------------
/// The pattern that finds the target session in roz's prompt.
pub const SESSION_ID_PATTERN: &'static str = "SESSION_ID[=:]\\s*([a-zA-Z0-9_-]+)";

/// What the `regex` crate captures in group 1 of the leftmost match of
/// `pattern` in `text`; `None` where the pattern does not compile, nothing
/// matches, or group 1 took no part in the match.
pub uninterp spec fn regex_first_group(pattern: Seq<char>, text: Seq<char>) -> Option<Seq<char>>;

/// `regex::Regex::new` on `pattern`, then `Regex::captures` on `text` and
/// `Captures::get(1)`: the result is the named capture of these two texts.
#[verifier::external_body]
fn first_group(pattern: &str, text: &str) -> (r: Option<String>)
    ensures
        opt_view(r) == regex_first_group(pattern@, text@),
{
    regex::Regex::new(pattern).ok()?.captures(text)?.get(1).map(|m| m.as_str().to_string())
}

/// The session id that roz's prompt names.
pub open spec fn named_session(prompt: Option<Seq<char>>) -> Option<Seq<char>> {
    match prompt {
        Some(p) => regex_first_group(SESSION_ID_PATTERN@, p),
        None => None,
    }
}

/// Extracts the target session id from roz's prompt: what follows
/// `SESSION_ID=` or `SESSION_ID:`.
pub fn extract_session_id(prompt: Option<&str>) -> (r: Option<String>)
    ensures
        opt_view(r) == named_session(
            match prompt {
                Some(p) => Some(p@),
                None => None,
            },
        ),
{
    match prompt {
        Some(p) => first_group(SESSION_ID_PATTERN, p),
        None => None,
    }
}

/// The start of roz's execution window: as the host reports it, or
/// one hour before the hook runs.
pub open spec fn window_start(started: Option<Timestamp>, now: Timestamp) -> Timestamp {
    match started {
        Some(t) => t,
        None => moved_back(now, 3600),
    }
}

/// The message for roz whose prompt names no session.
pub open spec fn missing_id_message() -> Seq<char> {
    "roz:roz completed but SESSION_ID not found in prompt. The prompt must include SESSION_ID=<id>."@
}

/// The message for roz that recorded no decision.
pub open spec fn no_decision_message(subagent_type: Seq<char>, target: Seq<char>) -> Seq<char> {
    "roz:roz ("@ + subagent_type + ") completed but did not record a decision.\n\nRun: roz decide "@
        + target + " COMPLETE \"summary\"\nor: roz decide "@ + target
        + " ISSUES \"summary\" --message \"what to fix\""@
}

/// The message for a decision that predates roz.
pub open spec fn predates_message(decided: Timestamp, started: Timestamp) -> Seq<char> {
    "Decision timestamp ("@ + time_text(decided) + ") is before roz started ("@ + time_text(started)
        + "). Decision must be posted by roz:roz during its execution."@
}

/// The message for a decision that postdates roz.
pub open spec fn postdates_message(decided: Timestamp, ended: Timestamp) -> Seq<char> {
    "Decision timestamp ("@ + time_text(decided) + ") is after roz ended ("@ + time_text(ended)
        + "). Decision must be posted by roz:roz during its execution."@
}

/// The ruling on roz's run, from the session it was to review: the
/// decision must be there, and must have been posted between roz's
/// start and the hook's own time, five seconds of clock skew allowed.
pub open spec fn subagent_output(
    s: SessionView,
    subagent_type: Seq<char>,
    target: Seq<char>,
    started: Option<Timestamp>,
    now: Timestamp,
) -> HookOutputView {
    if s.review.decision is Pending {
        blocking(no_decision_message(subagent_type, target))
    } else if earlier_than(s.updated_at, window_start(started, now)) {
        blocking(predates_message(s.updated_at, window_start(started, now)))
    } else if later_than(s.updated_at, now, 5) {
        blocking(postdates_message(s.updated_at, now))
    } else {
        approval()
    }
}

/// Judges roz's run against the session it was to review.
pub fn judge_subagent(
    state: &SessionState,
    subagent_type: &str,
    target: &str,
    started: Option<Timestamp>,
    now: Timestamp,
) -> (r: HookOutput)
    ensures
        r@ == subagent_output(state@, subagent_type@, target@, started, now),
{
    match &state.review.decision {
        Decision::Pending => {
            let mut m = String::new();
            m.append("roz:roz (");
            m.append(subagent_type);
            m.append(") completed but did not record a decision.\n\nRun: roz decide ");
            m.append(target);
            m.append(" COMPLETE \"summary\"\nor: roz decide ");
            m.append(target);
            m.append(" ISSUES \"summary\" --message \"what to fix\"");
            assert(m@ =~= no_decision_message(subagent_type@, target@));
            HookOutput::block(m.as_str())
        },
        _ => {
            let begin = match started {
                Some(t) => t,
                None => now.minus_seconds(3600),
            };
            let decided = state.updated_at;
            if decided.is_earlier_than(&begin) {
                let mut m = String::new();
                m.append("Decision timestamp (");
                m.append(decided.text().as_str());
                m.append(") is before roz started (");
                m.append(begin.text().as_str());
                m.append("). Decision must be posted by roz:roz during its execution.");
                assert(m@ =~= predates_message(decided, begin));
                HookOutput::block(m.as_str())
            } else if decided.is_later_than(&now, 5) {
                let mut m = String::new();
                m.append("Decision timestamp (");
                m.append(decided.text().as_str());
                m.append(") is after roz ended (");
                m.append(now.text().as_str());
                m.append("). Decision must be posted by roz:roz during its execution.");
                assert(m@ =~= postdates_message(decided, now));
                HookOutput::block(m.as_str())
            } else {
                HookOutput::approve()
            }
        },
    }
}

/// The subagent type of the input is roz's.
pub open spec fn is_roz(input: HookInput) -> bool {
    input.subagent_type matches Some(t) && t@ == "roz:roz"@
}

/// What the subagent-stop hook may answer, given what the store holds.
///
/// Subagents other than roz pass. A roz whose prompt names no session is
/// blocked. A roz whose session the store does not hold passes; so may one
/// whose session could not be read. Otherwise the answer is the ruling on
/// the session at the time the hook ran.
pub open spec fn subagent_effect(
    sessions: Map<Seq<char>, SessionView>,
    out: HookOutputView,
    input: HookInput,
) -> bool {
    if !is_roz(input) {
        out == approval()
    } else {
        match named_session(opt_view(input.subagent_prompt)) {
            None => out == blocking(missing_id_message()),
            Some(target) => match stored(sessions, target) {
                None => out == approval(),
                Some(s) => out == approval() || exists|now: Timestamp|
                    out == #[trigger] subagent_output(
                        s,
                        "roz:roz"@,
                        target,
                        input.subagent_started_at,
                        now,
                    ),
            },
        }
    }
}

/// What the subagent-stop hook answers on a store that does not fail: as
/// `subagent_effect` says, and a roz whose session is stored is always judged.
pub open spec fn subagent_done(
    sessions: Map<Seq<char>, SessionView>,
    out: HookOutputView,
    input: HookInput,
) -> bool {
    if !is_roz(input) {
        out == approval()
    } else {
        match named_session(opt_view(input.subagent_prompt)) {
            None => out == blocking(missing_id_message()),
            Some(target) => match stored(sessions, target) {
                None => out == approval(),
                Some(s) => exists|now: Timestamp|
                    out == #[trigger] subagent_output(
                        s,
                        "roz:roz"@,
                        target,
                        input.subagent_started_at,
                        now,
                    ),
            },
        }
    }
}

/// Handles the subagent-stop hook: checks that roz posted its decision while
/// it ran. A store that fails makes the hook approve.
pub fn handle_subagent_stop<S: MessageStore>(input: &HookInput, store: &S) -> (r: HookOutput)
    ensures
        subagent_effect(store.sessions(), r@, *input),
        store.never_fails() ==> subagent_done(store.sessions(), r@, *input),
{
    let subagent_type: &str = match &input.subagent_type {
        Some(t) => {
            if crate::text::str_eq(t.as_str(), "roz:roz") {
                t.as_str()
            } else {
                return HookOutput::approve();
            }
        },
        None => {
            return HookOutput::approve();
        },
    };
    let prompt: Option<&str> = match &input.subagent_prompt {
        Some(p) => Some(p.as_str()),
        None => None,
    };
    let target = match extract_session_id(prompt) {
        Some(t) => t,
        None => {
            return HookOutput::block(
                "roz:roz completed but SESSION_ID not found in prompt. The prompt must include SESSION_ID=<id>.",
            );
        },
    };
    let now = crate::time::now();
    match store.get_session(target.as_str()) {
        Ok(Some(state)) => {
            let r = judge_subagent(&state, subagent_type, target.as_str(), input.subagent_started_at, now);
            assert(r@ == subagent_output(
                state@,
                "roz:roz"@,
                target@,
                input.subagent_started_at,
                now,
            ));
            r
        },
        Ok(None) => HookOutput::approve(),
        Err(_) => HookOutput::approve(),
    }
}

} // verus!
