//! Session state and its mathematical model.
//!
//! Every record has a view: the same record with strings as `Seq<char>`,
//! vectors as `Seq` and JSON as [`JsonView`]. Contracts speak of views.

use crate::json::{JsonValue, JsonView};
use crate::time::Timestamp;
use vstd::prelude::*;

verus! {

/// The views of `items`, in order.
pub open spec fn views<T: View>(items: Seq<T>) -> Seq<T::V> {
    Seq::new(items.len(), |i: int| items[i]@)
}

/// The view of what `o` holds, if anything.
pub open spec fn opt_view<T: View>(o: Option<T>) -> Option<T::V> {
    match o {
        Some(x) => Some(x@),
        None => None,
    }
}

/// Types of trace events.
#[derive(Clone, Copy, Debug, PartialEq, Eq, Structural)]
pub enum EventType {
    SessionStart,
    PromptReceived,
    GateBlocked,
    GateAllowed,
    ToolCompleted,
    StopHookCalled,
    RozDecision,
    TraceCompacted,
    SessionEnd,
}

/// Review decision.
#[derive(Debug, PartialEq, Eq)]
pub enum Decision {
    /// Awaiting review.
    Pending,
    /// Work approved.
    Complete { summary: String, second_opinions: Option<String> },
    /// Issues found that need fixing.
    Issues { summary: String, message_to_agent: Option<String> },
}

/// The mathematical model of [`Decision`].
pub enum DecisionView {
    Pending,
    Complete { summary: Seq<char>, second_opinions: Option<Seq<char>> },
    Issues { summary: Seq<char>, message_to_agent: Option<Seq<char>> },
}

impl View for Decision {
    type V = DecisionView;

    open spec fn view(&self) -> DecisionView {
        match self {
            Decision::Pending => DecisionView::Pending,
            Decision::Complete { summary, second_opinions } => DecisionView::Complete {
                summary: summary@,
                second_opinions: opt_view(*second_opinions),
            },
            Decision::Issues { summary, message_to_agent } => DecisionView::Issues {
                summary: summary@,
                message_to_agent: opt_view(*message_to_agent),
            },
        }
    }
}

/// A copy of `o`.
pub fn clone_opt_string(o: &Option<String>) -> (r: Option<String>)
    ensures
        opt_view(r) == opt_view(*o),
{
    match o {
        Some(s) => Some(s.clone()),
        None => None,
    }
}

impl Clone for Decision {
    fn clone(&self) -> (r: Self)
        ensures
            r@ == self@,
    {
        match self {
            Decision::Pending => Decision::Pending,
            Decision::Complete { summary, second_opinions } => Decision::Complete {
                summary: summary.clone(),
                second_opinions: clone_opt_string(second_opinions),
            },
            Decision::Issues { summary, message_to_agent } => Decision::Issues {
                summary: summary.clone(),
                message_to_agent: clone_opt_string(message_to_agent),
            },
        }
    }
}

impl Default for Decision {
    fn default() -> (r: Self)
        ensures
            r@ == DecisionView::Pending,
    {
        Decision::Pending
    }
}

/// Record of a past decision.
#[derive(Debug, PartialEq, Eq)]
pub struct DecisionRecord {
    pub decision: Decision,
    pub timestamp: Timestamp,
}

/// The mathematical model of [`DecisionRecord`].
pub struct DecisionRecordView {
    pub decision: DecisionView,
    pub timestamp: Timestamp,
}

impl View for DecisionRecord {
    type V = DecisionRecordView;

    open spec fn view(&self) -> DecisionRecordView {
        DecisionRecordView { decision: self.decision@, timestamp: self.timestamp }
    }
}

impl Clone for DecisionRecord {
    fn clone(&self) -> (r: Self)
        ensures
            r@ == self@,
    {
        DecisionRecord { decision: self.decision.clone(), timestamp: self.timestamp }
    }
}

/// Tool input with truncation for large payloads.
#[derive(Debug, PartialEq, Eq)]
pub struct TruncatedInput {
    /// The input value, cut down where the original was too large.
    pub value: JsonValue,
    /// True if the original input was cut down.
    pub truncated: bool,
    /// SHA-256 of the original's compact JSON text, in hex (if cut down).
    pub original_hash: Option<String>,
    /// Size in bytes of the original's compact JSON text (if cut down).
    pub original_size: Option<usize>,
}

/// The mathematical model of [`TruncatedInput`].
pub struct TruncatedInputView {
    pub value: JsonView,
    pub truncated: bool,
    pub original_hash: Option<Seq<char>>,
    pub original_size: Option<usize>,
}

impl View for TruncatedInput {
    type V = TruncatedInputView;

    open spec fn view(&self) -> TruncatedInputView {
        TruncatedInputView {
            value: self.value@,
            truncated: self.truncated,
            original_hash: opt_view(self.original_hash),
            original_size: self.original_size,
        }
    }
}

impl Clone for TruncatedInput {
    fn clone(&self) -> (r: Self)
        ensures
            r@ == self@,
    {
        TruncatedInput {
            value: self.value.clone(),
            truncated: self.truncated,
            original_hash: clone_opt_string(&self.original_hash),
            original_size: self.original_size,
        }
    }
}

impl Default for TruncatedInput {
    fn default() -> (r: Self)
        ensures
            r@ == (TruncatedInputView {
                value: JsonView::Null,
                truncated: false,
                original_hash: None,
                original_size: None,
            }),
    {
        TruncatedInput {
            value: JsonValue::Null,
            truncated: false,
            original_hash: None,
            original_size: None,
        }
    }
}

/// Context about what triggered a gate.
#[derive(Debug, PartialEq, Eq)]
pub struct GateTrigger {
    /// The tool key that matched.
    pub tool_name: String,
    pub tool_input: TruncatedInput,
    pub triggered_at: Timestamp,
    /// Which configured pattern matched.
    pub pattern_matched: String,
}

/// The mathematical model of [`GateTrigger`].
pub struct GateTriggerView {
    pub tool_name: Seq<char>,
    pub tool_input: TruncatedInputView,
    pub triggered_at: Timestamp,
    pub pattern_matched: Seq<char>,
}

impl View for GateTrigger {
    type V = GateTriggerView;

    open spec fn view(&self) -> GateTriggerView {
        GateTriggerView {
            tool_name: self.tool_name@,
            tool_input: self.tool_input@,
            triggered_at: self.triggered_at,
            pattern_matched: self.pattern_matched@,
        }
    }
}

impl Clone for GateTrigger {
    fn clone(&self) -> (r: Self)
        ensures
            r@ == self@,
    {
        GateTrigger {
            tool_name: self.tool_name.clone(),
            tool_input: self.tool_input.clone(),
            triggered_at: self.triggered_at,
            pattern_matched: self.pattern_matched.clone(),
        }
    }
}

/// Outcome of a review attempt.
#[derive(Debug, PartialEq, Eq)]
pub enum AttemptOutcome {
    /// Still waiting for result.
    Pending,
    /// Roz ran and posted a decision.
    Success { decision_type: String, blocks_needed: u32 },
    /// The agent never spawned roz.
    NotSpawned,
    /// Roz ran but posted no decision.
    NoDecision,
    /// Roz ran with a missing or wrong session id.
    BadSessionId,
}

/// The mathematical model of [`AttemptOutcome`].
pub enum AttemptOutcomeView {
    Pending,
    Success { decision_type: Seq<char>, blocks_needed: u32 },
    NotSpawned,
    NoDecision,
    BadSessionId,
}

impl View for AttemptOutcome {
    type V = AttemptOutcomeView;

    open spec fn view(&self) -> AttemptOutcomeView {
        match self {
            AttemptOutcome::Pending => AttemptOutcomeView::Pending,
            AttemptOutcome::Success { decision_type, blocks_needed } => AttemptOutcomeView::Success {
                decision_type: decision_type@,
                blocks_needed: *blocks_needed,
            },
            AttemptOutcome::NotSpawned => AttemptOutcomeView::NotSpawned,
            AttemptOutcome::NoDecision => AttemptOutcomeView::NoDecision,
            AttemptOutcome::BadSessionId => AttemptOutcomeView::BadSessionId,
        }
    }
}

impl Clone for AttemptOutcome {
    fn clone(&self) -> (r: Self)
        ensures
            r@ == self@,
    {
        match self {
            AttemptOutcome::Pending => AttemptOutcome::Pending,
            AttemptOutcome::Success { decision_type, blocks_needed } => AttemptOutcome::Success {
                decision_type: decision_type.clone(),
                blocks_needed: *blocks_needed,
            },
            AttemptOutcome::NotSpawned => AttemptOutcome::NotSpawned,
            AttemptOutcome::NoDecision => AttemptOutcome::NoDecision,
            AttemptOutcome::BadSessionId => AttemptOutcome::BadSessionId,
        }
    }
}

impl Default for AttemptOutcome {
    fn default() -> (r: Self)
        ensures
            r@ == AttemptOutcomeView::Pending,
    {
        AttemptOutcome::Pending
    }
}

/// One block cycle, kept to compare block-message templates.
#[derive(Debug, PartialEq, Eq)]
pub struct ReviewAttempt {
    pub template_id: String,
    pub timestamp: Timestamp,
    pub outcome: AttemptOutcome,
}

/// The mathematical model of [`ReviewAttempt`].
pub struct ReviewAttemptView {
    pub template_id: Seq<char>,
    pub timestamp: Timestamp,
    pub outcome: AttemptOutcomeView,
}

impl View for ReviewAttempt {
    type V = ReviewAttemptView;

    open spec fn view(&self) -> ReviewAttemptView {
        ReviewAttemptView {
            template_id: self.template_id@,
            timestamp: self.timestamp,
            outcome: self.outcome@,
        }
    }
}

impl Clone for ReviewAttempt {
    fn clone(&self) -> (r: Self)
        ensures
            r@ == self@,
    {
        ReviewAttempt {
            template_id: self.template_id.clone(),
            timestamp: self.timestamp,
            outcome: self.outcome.clone(),
        }
    }
}

/// Trace event for debugging.
#[derive(Debug, PartialEq, Eq)]
pub struct TraceEvent {
    pub id: String,
    pub timestamp: Timestamp,
    pub event_type: EventType,
    pub payload: JsonValue,
}

/// The mathematical model of [`TraceEvent`].
pub struct TraceEventView {
    pub id: Seq<char>,
    pub timestamp: Timestamp,
    pub event_type: EventType,
    pub payload: JsonView,
}

impl View for TraceEvent {
    type V = TraceEventView;

    open spec fn view(&self) -> TraceEventView {
        TraceEventView {
            id: self.id@,
            timestamp: self.timestamp,
            event_type: self.event_type,
            payload: self.payload@,
        }
    }
}

impl Clone for TraceEvent {
    fn clone(&self) -> (r: Self)
        ensures
            r@ == self@,
    {
        TraceEvent {
            id: self.id.clone(),
            timestamp: self.timestamp,
            event_type: self.event_type,
            payload: self.payload.clone(),
        }
    }
}

/// Review state within a session.
#[derive(Debug, PartialEq, Eq)]
pub struct ReviewState {
    /// Whether review is enabled for this session.
    pub enabled: bool,
    /// Current decision status.
    pub decision: Decision,
    /// Earlier decisions, oldest first.
    pub decision_history: Vec<DecisionRecord>,
    /// User prompts that asked for review.
    pub user_prompts: Vec<String>,
    /// What triggered a gate, if one fired.
    pub gate_trigger: Option<GateTrigger>,
    /// When gated calls were last approved.
    pub gate_approved_at: Option<Timestamp>,
    /// When the last user prompt was received.
    pub last_prompt_at: Option<Timestamp>,
    /// When the current review cycle started.
    pub review_started_at: Option<Timestamp>,
    /// Number of times the stop hook has blocked.
    pub block_count: u32,
    /// Whether the circuit breaker has tripped.
    pub circuit_breaker_tripped: bool,
    /// One entry per block cycle.
    pub attempts: Vec<ReviewAttempt>,
}

/// The mathematical model of [`ReviewState`].
pub struct ReviewView {
    pub enabled: bool,
    pub decision: DecisionView,
    pub decision_history: Seq<DecisionRecordView>,
    pub user_prompts: Seq<Seq<char>>,
    pub gate_trigger: Option<GateTriggerView>,
    pub gate_approved_at: Option<Timestamp>,
    pub last_prompt_at: Option<Timestamp>,
    pub review_started_at: Option<Timestamp>,
    pub block_count: u32,
    pub circuit_breaker_tripped: bool,
    pub attempts: Seq<ReviewAttemptView>,
}

impl View for ReviewState {
    type V = ReviewView;

    open spec fn view(&self) -> ReviewView {
        ReviewView {
            enabled: self.enabled,
            decision: self.decision@,
            decision_history: views(self.decision_history@),
            user_prompts: views(self.user_prompts@),
            gate_trigger: opt_view(self.gate_trigger),
            gate_approved_at: self.gate_approved_at,
            last_prompt_at: self.last_prompt_at,
            review_started_at: self.review_started_at,
            block_count: self.block_count,
            circuit_breaker_tripped: self.circuit_breaker_tripped,
            attempts: views(self.attempts@),
        }
    }
}

/// The review state of a session that no hook has touched.
pub open spec fn fresh_review() -> ReviewView {
    ReviewView {
        enabled: false,
        decision: DecisionView::Pending,
        decision_history: Seq::empty(),
        user_prompts: Seq::empty(),
        gate_trigger: None,
        gate_approved_at: None,
        last_prompt_at: None,
        review_started_at: None,
        block_count: 0,
        circuit_breaker_tripped: false,
        attempts: Seq::empty(),
    }
}

impl Default for ReviewState {
    fn default() -> (r: Self)
        ensures
            r@ == fresh_review(),
    {
        let r = ReviewState {
            enabled: false,
            decision: Decision::Pending,
            decision_history: Vec::new(),
            user_prompts: Vec::new(),
            gate_trigger: None,
            gate_approved_at: None,
            last_prompt_at: None,
            review_started_at: None,
            block_count: 0,
            circuit_breaker_tripped: false,
            attempts: Vec::new(),
        };
        assert(r@.decision_history =~= Seq::empty());
        assert(r@.user_prompts =~= Seq::empty());
        assert(r@.attempts =~= Seq::empty());
        r
    }
}

/// A copy of `items`.
pub fn clone_strings(items: &Vec<String>) -> (r: Vec<String>)
    ensures
        views(r@) == views(items@),
{
    let mut out: Vec<String> = Vec::new();
    let mut i: usize = 0;
    while i < items.len()
        invariant
            i <= items.len(),
            out.len() == i,
            forall|j: int| 0 <= j < i ==> (#[trigger] out@[j])@ == items@[j]@,
        decreases items.len() - i,
    {
        out.push(items[i].clone());
        i += 1;
    }
    assert(views(out@) =~= views(items@));
    out
}

/// A copy of `items`.
pub fn clone_records(items: &Vec<DecisionRecord>) -> (r: Vec<DecisionRecord>)
    ensures
        views(r@) == views(items@),
{
    let mut out: Vec<DecisionRecord> = Vec::new();
    let mut i: usize = 0;
    while i < items.len()
        invariant
            i <= items.len(),
            out.len() == i,
            forall|j: int| 0 <= j < i ==> (#[trigger] out@[j])@ == items@[j]@,
        decreases items.len() - i,
    {
        out.push(items[i].clone());
        i += 1;
    }
    assert(views(out@) =~= views(items@));
    out
}

/// A copy of `items`.
pub fn clone_attempts(items: &Vec<ReviewAttempt>) -> (r: Vec<ReviewAttempt>)
    ensures
        views(r@) == views(items@),
{
    let mut out: Vec<ReviewAttempt> = Vec::new();
    let mut i: usize = 0;
    while i < items.len()
        invariant
            i <= items.len(),
            out.len() == i,
            forall|j: int| 0 <= j < i ==> (#[trigger] out@[j])@ == items@[j]@,
        decreases items.len() - i,
    {
        out.push(items[i].clone());
        i += 1;
    }
    assert(views(out@) =~= views(items@));
    out
}

/// A copy of `items`.
pub fn clone_events(items: &Vec<TraceEvent>) -> (r: Vec<TraceEvent>)
    ensures
        views(r@) == views(items@),
{
    let mut out: Vec<TraceEvent> = Vec::new();
    let mut i: usize = 0;
    while i < items.len()
        invariant
            i <= items.len(),
            out.len() == i,
            forall|j: int| 0 <= j < i ==> (#[trigger] out@[j])@ == items@[j]@,
        decreases items.len() - i,
    {
        out.push(items[i].clone());
        i += 1;
    }
    assert(views(out@) =~= views(items@));
    out
}

impl Clone for ReviewState {
    fn clone(&self) -> (r: Self)
        ensures
            r@ == self@,
    {
        ReviewState {
            enabled: self.enabled,
            decision: self.decision.clone(),
            decision_history: clone_records(&self.decision_history),
            user_prompts: clone_strings(&self.user_prompts),
            gate_trigger: match &self.gate_trigger {
                Some(t) => Some(t.clone()),
                None => None,
            },
            gate_approved_at: self.gate_approved_at,
            last_prompt_at: self.last_prompt_at,
            review_started_at: self.review_started_at,
            block_count: self.block_count,
            circuit_breaker_tripped: self.circuit_breaker_tripped,
            attempts: clone_attempts(&self.attempts),
        }
    }
}

/// Session state as the store keeps it.
#[derive(Debug, PartialEq, Eq)]
pub struct SessionState {
    /// Session identifier, chosen by the host.
    pub session_id: String,
    pub review: ReviewState,
    /// Trace events, oldest first.
    pub trace: Vec<TraceEvent>,
    pub created_at: Timestamp,
    pub updated_at: Timestamp,
}

/// The mathematical model of [`SessionState`].
pub struct SessionView {
    pub session_id: Seq<char>,
    pub review: ReviewView,
    pub trace: Seq<TraceEventView>,
    pub created_at: Timestamp,
    pub updated_at: Timestamp,
}

impl View for SessionState {
    type V = SessionView;

    open spec fn view(&self) -> SessionView {
        SessionView {
            session_id: self.session_id@,
            review: self.review@,
            trace: views(self.trace@),
            created_at: self.created_at,
            updated_at: self.updated_at,
        }
    }
}

impl Clone for SessionState {
    fn clone(&self) -> (r: Self)
        ensures
            r@ == self@,
    {
        SessionState {
            session_id: self.session_id.clone(),
            review: self.review.clone(),
            trace: clone_events(&self.trace),
            created_at: self.created_at,
            updated_at: self.updated_at,
        }
    }
}

/// The session `id` as it stands when first created at `at`.
pub open spec fn fresh_session(id: Seq<char>, at: Timestamp) -> SessionView {
    SessionView {
        session_id: id,
        review: fresh_review(),
        trace: Seq::empty(),
        created_at: at,
        updated_at: at,
    }
}

impl SessionState {
    /// A new session created at `at`.
    pub fn created(session_id: &str, at: Timestamp) -> (r: Self)
        ensures
            r@ == fresh_session(session_id@, at),
    {
        let r = SessionState {
            session_id: session_id.to_owned(),
            review: ReviewState::default(),
            trace: Vec::new(),
            created_at: at,
            updated_at: at,
        };
        assert(r@.trace =~= Seq::empty());
        r
    }

    /// A new session created now: `fresh_session` at whatever the clock says.
    pub fn new(session_id: &str) -> (r: Self)
        ensures
            r@ == fresh_session(session_id@, r.created_at),
    {
        Self::created(session_id, crate::time::now())
    }
}

} // verus!
