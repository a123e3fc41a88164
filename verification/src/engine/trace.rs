//! The bounded trace: appending, and compaction once the cap is passed.
//!
//! Compaction keeps the head of the trace (where the session's start is
//! recorded) and its tail, and puts one marker event between them, so that the
//! trace is exactly as long as the cap allows.

use crate::engine::state::{views, EventType, SessionState, SessionView, TraceEvent, TraceEventView};
use crate::json::{JsonValue, JsonView, MemberView};
use crate::text::decimal_text;
use crate::time::Timestamp;
use vstd::prelude::*;

verus! {

/// How many events from the head survive compaction.
pub open spec fn keep_start(max_events: nat) -> nat {
    if max_events / 2 < 10 {
        max_events / 2
    } else {
        10
    }
}

/// How many events from the tail survive compaction: what the cap leaves once
/// the head and the marker have their places.
pub open spec fn keep_end(max_events: nat) -> nat {
    if max_events == 0 {
        0
    } else {
        (max_events - keep_start(max_events) - 1) as nat
    }
}

/// Payload of the marker: how far the trace was over the cap, and what was kept.
pub open spec fn compaction_payload(over: nat, kept_start: nat, kept_end: nat) -> JsonView {
    JsonView::Object(
        seq![
            MemberView { key: "dropped_events"@, value: JsonView::Number(decimal_text(over)) },
            MemberView { key: "kept_end"@, value: JsonView::Number(decimal_text(kept_end)) },
            MemberView { key: "kept_start"@, value: JsonView::Number(decimal_text(kept_start)) },
        ],
    )
}

/// The marker that compaction puts in place of the events it drops.
pub open spec fn compaction_marker(
    id: Seq<char>,
    at: Timestamp,
    over: nat,
    kept_start: nat,
    kept_end: nat,
) -> TraceEventView {
    TraceEventView {
        id,
        timestamp: at,
        event_type: EventType::TraceCompacted,
        payload: compaction_payload(over, kept_start, kept_end),
    }
}

/// `trace`, which is longer than `max_events`, cut down to `max_events`.
/// With no room at all (`max_events == 0`) nothing is kept, not even the marker.
pub open spec fn compacted(
    trace: Seq<TraceEventView>,
    max_events: nat,
    marker_id: Seq<char>,
    at: Timestamp,
) -> Seq<TraceEventView> {
    if max_events == 0 {
        Seq::empty()
    } else {
        trace.take(keep_start(max_events) as int) + seq![
            compaction_marker(
                marker_id,
                at,
                (trace.len() - max_events) as nat,
                keep_start(max_events),
                keep_end(max_events),
            ),
        ] + trace.skip(trace.len() - keep_end(max_events))
    }
}

/// `trace` after `event` is appended under the cap `max_events`.
pub open spec fn appended(
    trace: Seq<TraceEventView>,
    event: TraceEventView,
    max_events: nat,
    marker_id: Seq<char>,
    at: Timestamp,
) -> Seq<TraceEventView> {
    if trace.len() + 1 > max_events {
        compacted(trace.push(event), max_events, marker_id, at)
    } else {
        trace.push(event)
    }
}

/// Appending never leaves the trace longer than the cap; when it compacts, the
/// head and the tail of the trace as it stood with the new event are kept in
/// order, around one marker.
pub proof fn lemma_appended_bounded(
    trace: Seq<TraceEventView>,
    event: TraceEventView,
    max_events: nat,
    marker_id: Seq<char>,
    at: Timestamp,
)
    ensures
        appended(trace, event, max_events, marker_id, at).len() <= max_events,
        trace.len() + 1 > max_events ==> appended(trace, event, max_events, marker_id, at).len()
            == max_events,
        trace.len() + 1 > max_events && max_events > 0 ==> ({
            let full = trace.push(event);
            let after = appended(trace, event, max_events, marker_id, at);
            let ks = keep_start(max_events) as int;
            let ke = keep_end(max_events) as int;
            &&& ks + 1 + ke == max_events
            &&& after.take(ks) == full.take(ks)
            &&& after[ks].event_type == EventType::TraceCompacted
            &&& after.skip(ks + 1) == full.skip(full.len() - ke)
        }),
{
    if trace.len() + 1 > max_events && max_events > 0 {
        let full = trace.push(event);
        let after = appended(trace, event, max_events, marker_id, at);
        let ks = keep_start(max_events) as int;
        let ke = keep_end(max_events) as int;
        assert(after.take(ks) =~= full.take(ks));
        assert(after.skip(ks + 1) =~= full.skip(full.len() - ke));
    }
}

/// The marker event for a compaction.
pub fn make_marker(id: String, at: Timestamp, over: usize, kept_start: usize, kept_end: usize) -> (r:
    TraceEvent)
    ensures
        r@ == compaction_marker(id@, at, over as nat, kept_start as nat, kept_end as nat),
{
    let mut members: Vec<(String, JsonValue)> = Vec::new();
    members.push(("dropped_events".to_owned(), JsonValue::count(over as u64)));
    members.push(("kept_end".to_owned(), JsonValue::count(kept_end as u64)));
    members.push(("kept_start".to_owned(), JsonValue::count(kept_start as u64)));
    proof {
        crate::json::lemma_object_view(members);
        assert(crate::json::member_views(members@) =~= compaction_payload(
            over as nat,
            kept_start as nat,
            kept_end as nat,
        )->Object_0);
    }
    TraceEvent {
        id,
        timestamp: at,
        event_type: EventType::TraceCompacted,
        payload: JsonValue::Object(members),
    }
}

/// Appends `event` to `trace` under the cap `max_events`; `marker_id` and `at`
/// go into the marker if the trace has to be compacted.
pub fn push_bounded(
    trace: &mut Vec<TraceEvent>,
    event: TraceEvent,
    max_events: usize,
    marker_id: String,
    at: Timestamp,
)
    ensures
        views(final(trace)@) == appended(
            views(old(trace)@),
            event@,
            max_events as nat,
            marker_id@,
            at,
        ),
{
    let ghost before = views(trace@);
    if trace.len() < max_events {
        trace.push(event);
        assert(views(trace@) =~= before.push(event@));
        return;
    }
    if max_events == 0 {
        trace.clear();
        assert(views(trace@) =~= Seq::empty());
        return;
    }
    let ghost full = before.push(event@);
    let half = max_events / 2;
    let ks: usize = if half < 10 {
        half
    } else {
        10
    };
    let ke: usize = max_events - ks - 1;
    let over: usize = trace.len() - max_events;
    // the new event is the last of the tail, or is dropped where no tail is kept
    let mut tail: Vec<TraceEvent> = if ke == 0 {
        trace.truncate(ks);
        Vec::new()
    } else {
        let from = trace.len() - (ke - 1);
        let mut tail = trace.split_off(from);
        tail.push(event);
        trace.truncate(ks);
        tail
    };
    assert(views(trace@) =~= full.take(ks as int));
    assert(views(tail@) =~= full.skip(full.len() - ke));
    let marker = make_marker(marker_id, at, over + 1, ks, ke);
    trace.push(marker);
    trace.append(&mut tail);
    assert(views(trace@) =~= compacted(full, max_events as nat, marker_id@, at));
}

/// A fresh id for a trace event, from `uuid::Uuid::new_v4`, written as `Uuid`'s
/// `Display` writes it: hyphenated, 36 characters. The value itself is random.
/// `uuid` panics where the system has no random bytes to give.
#[verifier::external_body]
pub(crate) fn generate_id() -> (r: String)
    ensures
        r@.len() == 36,
{
    uuid::Uuid::new_v4().to_string()
}


/// Appends an event to a session's trace under the cap `max_events`. Should
/// the trace have to be compacted, the marker gets a fresh id and the time of
/// the call; everything else about the trace is as `appended` says.
pub fn add_trace_event(state: &mut SessionState, event: TraceEvent, max_events: usize)
    ensures
        exists|marker_id: Seq<char>, at: Timestamp|
            final(state)@ == (SessionView {
                trace: #[trigger] appended(
                    old(state)@.trace,
                    event@,
                    max_events as nat,
                    marker_id,
                    at,
                ),
                ..old(state)@
            }),
        final(state)@.trace.len() <= max_events,
{
    let marker_id = generate_id();
    let at = crate::time::now();
    proof {
        lemma_appended_bounded(state@.trace, event@, max_events as nat, marker_id@, at);
    }
    push_bounded(&mut state.trace, event, max_events, marker_id, at);
}

} // verus!
