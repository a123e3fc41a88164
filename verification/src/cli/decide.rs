//! The decide operation: roz posts its decision on a session.

use crate::engine::hooks::{event, recorded, Fresh, FreshView};
use crate::engine::state::{
    opt_view, views, AttemptOutcome, AttemptOutcomeView, Decision, DecisionRecord,
    DecisionRecordView, DecisionView, EventType, ReviewAttempt, ReviewAttemptView, ReviewView,
    SessionState, SessionView, TraceEvent,
};
use crate::engine::trace::push_bounded;
use crate::error::Error;
use crate::json::{JsonValue, JsonView, MemberView};
use crate::storage::traits::{stored, MessageStore};
use crate::text::{str_eq, to_upper, uppercase_of};
use vstd::prelude::*;

verus! {

/// The view of an optional text.
pub open spec fn text_opt(o: Option<&str>) -> Option<Seq<char>> {
    match o {
        Some(t) => Some(t@),
        None => None,
    }
}

/// The two decisions roz can post.
#[derive(Clone, Copy, Debug, PartialEq, Eq, Structural)]
pub enum DecisionKind {
    Complete,
    Issues,
}

/// The decision that a name in upper case names.
pub open spec fn kind_named(upper: Seq<char>) -> Option<DecisionKind> {
    if upper == "COMPLETE"@ {
        Some(DecisionKind::Complete)
    } else if upper == "ISSUES"@ {
        Some(DecisionKind::Issues)
    } else {
        None
    }
}

/// The decision that `text` names, whatever the case of its letters.
pub open spec fn kind_of(text: Seq<char>) -> Option<DecisionKind> {
    kind_named(uppercase_of(text))
}

/// Reads a decision's name that is already in upper case.
pub fn kind_in_upper_case(upper: &str) -> (r: Option<DecisionKind>)
    ensures
        r == kind_named(upper@),
{
    if str_eq(upper, "COMPLETE") {
        Some(DecisionKind::Complete)
    } else if str_eq(upper, "ISSUES") {
        Some(DecisionKind::Issues)
    } else {
        None
    }
}

/// The name of a decision in upper case.
pub open spec fn kind_upper(kind: DecisionKind) -> Seq<char> {
    match kind {
        DecisionKind::Complete => "COMPLETE"@,
        DecisionKind::Issues => "ISSUES"@,
    }
}

/// The name of a decision in lower case.
pub open spec fn kind_lower(kind: DecisionKind) -> Seq<char> {
    match kind {
        DecisionKind::Complete => "complete"@,
        DecisionKind::Issues => "issues"@,
    }
}

/// Reads a decision's name, whatever the case of its letters.
pub fn parse_kind(text: &str) -> (r: Option<DecisionKind>)
    ensures
        r == kind_of(text@),
{
    let upper = to_upper(text);
    kind_in_upper_case(upper.as_str())
}

/// The end of `attempts[..hi]` once the attempts that are not pending are cut
/// from its end: one past the last pending attempt, `0` if none is pending.
pub open spec fn pending_end(attempts: Seq<ReviewAttemptView>, hi: int) -> int
    decreases hi,
{
    if 0 < hi <= attempts.len() && !(attempts[hi - 1].outcome is Pending) {
        pending_end(attempts, hi - 1)
    } else {
        hi
    }
}

/// `attempts` with the last pending attempt turned into a success.
pub open spec fn settled(attempts: Seq<ReviewAttemptView>, kind: DecisionKind, blocks: u32) -> Seq<
    ReviewAttemptView,
> {
    let end = pending_end(attempts, attempts.len() as int);
    if 0 < end <= attempts.len() {
        attempts.update(
            end - 1,
            ReviewAttemptView {
                outcome: AttemptOutcomeView::Success {
                    decision_type: kind_lower(kind),
                    blocks_needed: blocks,
                },
                ..attempts[end - 1]
            },
        )
    } else {
        attempts
    }
}

/// Payload of a `roz_decision` event.
pub open spec fn decision_payload(kind: DecisionKind, summary: Seq<char>, opinions: Option<Seq<char>>) -> JsonView {
    match opinions {
        Some(o) => JsonView::Object(
            seq![
                MemberView { key: "decision"@, value: JsonView::Str(kind_upper(kind)) },
                MemberView { key: "second_opinions"@, value: JsonView::Str(o) },
                MemberView { key: "summary"@, value: JsonView::Str(summary) },
            ],
        ),
        None => JsonView::Object(
            seq![
                MemberView { key: "decision"@, value: JsonView::Str(kind_upper(kind)) },
                MemberView { key: "summary"@, value: JsonView::Str(summary) },
            ],
        ),
    }
}

/// The decision record that a posted decision puts in place.
pub open spec fn posted(
    kind: DecisionKind,
    summary: Seq<char>,
    message: Option<Seq<char>>,
    opinions: Option<Seq<char>>,
) -> DecisionView {
    match kind {
        DecisionKind::Complete => DecisionView::Complete { summary, second_opinions: opinions },
        DecisionKind::Issues => DecisionView::Issues { summary, message_to_agent: message },
    }
}

/// The session after a decision is posted: the prior decision goes to the
/// history, the posting is traced, `COMPLETE` stamps the approval of gates, the
/// last pending attempt becomes a success, and the new decision takes the place of
/// the decision.
pub open spec fn decide_next(
    s: SessionView,
    kind: DecisionKind,
    summary: Seq<char>,
    message: Option<Seq<char>>,
    opinions: Option<Seq<char>>,
    max_events: nat,
    fresh: FreshView,
) -> SessionView {
    recorded(
        SessionView {
            review: ReviewView {
                decision: posted(kind, summary, message, opinions),
                decision_history: s.review.decision_history.push(
                    DecisionRecordView { decision: s.review.decision, timestamp: fresh.now },
                ),
                gate_approved_at: if kind == DecisionKind::Complete {
                    Some(fresh.now)
                } else {
                    s.review.gate_approved_at
                },
                attempts: settled(s.review.attempts, kind, s.review.block_count),
                ..s.review
            },
            ..s
        },
        event(
            fresh.event_id,
            fresh.now,
            EventType::RozDecision,
            decision_payload(kind, summary, opinions),
        ),
        max_events,
        fresh,
    )
}

/// The payload of a `roz_decision` event.
fn payload_for(kind: DecisionKind, summary: &str, opinions: Option<&str>) -> (r: JsonValue)
    ensures
        r@ == decision_payload(
            kind,
            summary@,
            text_opt(opinions),
        ),
{
    let name = match kind {
        DecisionKind::Complete => "COMPLETE",
        DecisionKind::Issues => "ISSUES",
    };
    let mut members: Vec<(String, JsonValue)> = Vec::new();
    members.push(("decision".to_owned(), JsonValue::text(name)));
    if let Some(o) = opinions {
        members.push(("second_opinions".to_owned(), JsonValue::text(o)));
    }
    members.push(("summary".to_owned(), JsonValue::text(summary)));
    proof {
        crate::json::lemma_object_view(members);
        let want = decision_payload(
            kind,
            summary@,
            text_opt(opinions),
        );
        assert(crate::json::member_views(members@) =~= want->Object_0);
    }
    JsonValue::Object(members)
}

/// Posts a decision on a session: the next session.
pub fn decide_transition(
    state: SessionState,
    kind: DecisionKind,
    summary: &str,
    message: Option<&str>,
    opinions: Option<&str>,
    max_events: usize,
    fresh: Fresh,
) -> (r: SessionState)
    ensures
        r@ == decide_next(
            state@,
            kind,
            summary@,
            text_opt(message),
            text_opt(opinions),
            max_events as nat,
            fresh@,
        ),
        r@.review.block_count == state@.review.block_count,
{
    let ghost s0 = state@;
    let mut state = state;
    let now = fresh.now;
    let new_decision = match kind {
        DecisionKind::Complete => Decision::Complete {
            summary: summary.to_owned(),
            second_opinions: match opinions {
                Some(o) => Some(o.to_owned()),
                None => None,
            },
        },
        DecisionKind::Issues => Decision::Issues {
            summary: summary.to_owned(),
            message_to_agent: match message {
                Some(m) => Some(m.to_owned()),
                None => None,
            },
        },
    };
    let mut prior = Decision::Pending;
    core::mem::swap(&mut state.review.decision, &mut prior);
    state.review.decision_history.push(DecisionRecord { decision: prior, timestamp: now });
    assert(state@.review.decision_history =~= s0.review.decision_history.push(
        DecisionRecordView { decision: s0.review.decision, timestamp: now },
    ));
    if let DecisionKind::Complete = kind {
        state.review.gate_approved_at = Some(now);
    }
    let blocks = state.review.block_count;
    let mut end: usize = state.review.attempts.len();
    while end > 0 && !matches!(state.review.attempts[end - 1].outcome, AttemptOutcome::Pending)
        invariant
            end <= state.review.attempts.len(),
            views(state.review.attempts@) == s0.review.attempts,
            pending_end(s0.review.attempts, s0.review.attempts.len() as int) == pending_end(
                s0.review.attempts,
                end as int,
            ),
        decreases end,
    {
        end -= 1;
    }
    if end > 0 {
        let lower = match kind {
            DecisionKind::Complete => "complete",
            DecisionKind::Issues => "issues",
        };
        let settled_attempt = ReviewAttempt {
            template_id: state.review.attempts[end - 1].template_id.clone(),
            timestamp: state.review.attempts[end - 1].timestamp,
            outcome: AttemptOutcome::Success { decision_type: lower.to_owned(), blocks_needed: blocks },
        };
        state.review.attempts.set(end - 1, settled_attempt);
        assert(views(state.review.attempts@) =~= settled(s0.review.attempts, kind, blocks));
    }
    state.review.decision = new_decision;
    let payload = payload_for(kind, summary, opinions);
    let e = TraceEvent { id: fresh.event_id, timestamp: now, event_type: EventType::RozDecision, payload };
    push_bounded(&mut state.trace, e, max_events, fresh.marker_id, now);
    state.updated_at = now;
    state
}

/// The outcome of posting a decision, by what was found under the session id:
/// an unknown session is an error, so is a decision that is neither `COMPLETE`
/// nor `ISSUES`; otherwise the next session.
pub open spec fn decide_result(
    found: Option<SessionView>,
    session_id: Seq<char>,
    decision: Seq<char>,
    summary: Seq<char>,
    message: Option<Seq<char>>,
    opinions: Option<Seq<char>>,
    max_events: nat,
    fresh: FreshView,
) -> Result<SessionView, Seq<char>> {
    match found {
        None => Err("Session not found: "@ + session_id),
        Some(s) => match kind_of(decision) {
            None => Err("Invalid decision: "@ + uppercase_of(decision)),
            Some(kind) => Ok(decide_next(s, kind, summary, message, opinions, max_events, fresh)),
        },
    }
}

/// The view of an outcome: the next session, or the error's line.
pub open spec fn outcome_view(r: Result<SessionState, Error>) -> Result<SessionView, Seq<char>> {
    match r {
        Ok(s) => Ok(s@),
        Err(e) => Err(crate::error::error_text(e)),
    }
}

/// Posts a decision on what the store returned for the session id.
pub fn decide_on(
    found: Option<SessionState>,
    session_id: &str,
    decision: &str,
    summary: &str,
    message: Option<&str>,
    opinions: Option<&str>,
    max_events: usize,
    fresh: Fresh,
) -> (r: Result<SessionState, Error>)
    ensures
        outcome_view(r) == decide_result(
            opt_view(found),
            session_id@,
            decision@,
            summary@,
            text_opt(message),
            text_opt(opinions),
            max_events as nat,
            fresh@,
        ),
        found is None ==> (r matches Err(Error::SessionNotFound(m)) && m@ == session_id@),
        found is Some && kind_of(decision@) is None ==> (r matches Err(Error::InvalidDecision(m))
            && m@ == uppercase_of(decision@)),
        r is Ok <==> found is Some && kind_of(decision@) is Some,
{
    let state = match found {
        Some(s) => s,
        None => {
            return Err(Error::SessionNotFound(session_id.to_owned()));
        },
    };
    let kind = match parse_kind(decision) {
        Some(k) => k,
        None => {
            return Err(Error::InvalidDecision(to_upper(decision)));
        },
    };
    Ok(decide_transition(state, kind, summary, message, opinions, max_events, fresh))
}

/// Posts a `COMPLETE` or `ISSUES` decision for a session.
///
/// Fails where the store fails, where it holds no such session, and where the
/// decision is neither of the two; a failure leaves the store as it was. On a
/// store that does not fail these are the only failures: an unknown session
/// is `SessionNotFound` with the id, and a decision that is neither of the
/// two, on a known session, is `InvalidDecision` with the decision in upper
/// case.
pub fn run<S: MessageStore>(
    store: &mut S,
    session_id: &str,
    decision: &str,
    summary: &str,
    message: Option<&str>,
    opinions: Option<&str>,
    max_events: usize,
) -> (r: Result<(), Error>)
    ensures
        r is Err ==> final(store).sessions() == old(store).sessions(),
        stored(old(store).sessions(), session_id@) is None ==> r is Err,
        kind_of(decision@) is None ==> r is Err,
        old(store).never_fails() ==> (r is Ok <==> stored(old(store).sessions(), session_id@) is Some
            && kind_of(decision@) is Some),
        old(store).never_fails() && stored(old(store).sessions(), session_id@) is None ==> (r matches Err(
            Error::SessionNotFound(m),
        ) && m@ == session_id@),
        old(store).never_fails() && stored(old(store).sessions(), session_id@) is Some && kind_of(
            decision@,
        ) is None ==> (r matches Err(Error::InvalidDecision(m)) && m@ == uppercase_of(decision@)),
        r is Ok ==> exists|fresh: FreshView|
            {
                let next = #[trigger] decide_next(
                    stored(old(store).sessions(), session_id@)->0,
                    kind_of(decision@)->0,
                    summary@,
                    text_opt(message),
                    text_opt(opinions),
                    max_events as nat,
                    fresh,
                );
                final(store).sessions() == old(store).sessions().insert(next.session_id, next)
            },
{
    let found = match store.get_session(session_id) {
        Ok(f) => f,
        Err(e) => {
            return Err(e);
        },
    };
    let fresh = Fresh::draw();
    let ghost f = fresh@;
    let next = match decide_on(found, session_id, decision, summary, message, opinions, max_events, fresh) {
        Ok(n) => n,
        Err(e) => {
            return Err(e);
        },
    };
    proof {
        let n = decide_next(
            stored(old(store).sessions(), session_id@)->0,
            kind_of(decision@)->0,
            summary@,
            text_opt(message),
            text_opt(opinions),
            max_events as nat,
            f,
        );
        assert(n == next@);
    }
    store.put_session(&next)
}

} // verus!
