//! The session store: one contract for every backend.
//!
//! A store is modelled as a map from session id to session. `get` reads the
//! map, `put` replaces one entry, `delete` removes one, `list` gives the
//! newest sessions first. An operation may fail (a backend on disk can); a
//! failed `put` or `delete` leaves the map as it was. A backend may say of
//! itself that it never fails; the in-memory backend does.

use crate::engine::state::{opt_view, views, SessionState, SessionView};
use crate::error::Error;
use crate::time::{earlier_than, later_than, Timestamp};
use vstd::prelude::*;

verus! {

/// Summary information for a session.
#[derive(Debug, Clone, PartialEq, Eq)]
pub struct SessionSummary {
    pub session_id: String,
    /// First user prompt (if any).
    pub first_prompt: Option<String>,
    pub created_at: Timestamp,
    /// Number of trace events.
    pub event_count: usize,
}

/// The mathematical model of [`SessionSummary`].
pub struct SessionSummaryView {
    pub session_id: Seq<char>,
    pub first_prompt: Option<Seq<char>>,
    pub created_at: Timestamp,
    pub event_count: nat,
}

impl View for SessionSummary {
    type V = SessionSummaryView;

    open spec fn view(&self) -> SessionSummaryView {
        SessionSummaryView {
            session_id: self.session_id@,
            first_prompt: opt_view(self.first_prompt),
            created_at: self.created_at,
            event_count: self.event_count as nat,
        }
    }
}

/// The summary of a session.
pub open spec fn summary_of(s: SessionView) -> SessionSummaryView {
    SessionSummaryView {
        session_id: s.session_id,
        first_prompt: if s.review.user_prompts.len() > 0 {
            Some(s.review.user_prompts[0])
        } else {
            None
        },
        created_at: s.created_at,
        event_count: s.trace.len(),
    }
}

/// What the store holds under `id`.
pub open spec fn stored(sessions: Map<Seq<char>, SessionView>, id: Seq<char>) -> Option<SessionView> {
    if sessions.contains_key(id) {
        Some(sessions[id])
    } else {
        None
    }
}

/// `list` is a listing of `sessions` under `limit`, its entries taken from the
/// sessions stored under `keys`: one entry per key, each session under its own
/// id, newest first, nothing newer left out, and short of `limit` only where
/// every session is listed.
pub open spec fn is_listing(
    list: Seq<SessionSummaryView>,
    keys: Seq<Seq<char>>,
    sessions: Map<Seq<char>, SessionView>,
    limit: nat,
) -> bool {
    &&& keys.len() == list.len()
    &&& list.len() <= limit
    &&& keys.no_duplicates()
    &&& forall|i: int|
        0 <= i < list.len() ==> sessions.contains_key(#[trigger] keys[i]) && list[i] == summary_of(
            sessions[keys[i]],
        ) && list[i].session_id == keys[i]
    &&& forall|i: int, j: int|
        0 <= i < j < list.len() ==> !earlier_than(
            (#[trigger] list[i]).created_at,
            (#[trigger] list[j]).created_at,
        )
    &&& forall|k: Seq<char>, i: int|
        #![trigger sessions.contains_key(k), list[i]]
        sessions.contains_key(k) && !keys.contains(k) && 0 <= i < list.len() ==> !later_than(
            sessions[k].created_at,
            list[i].created_at,
            0,
        )
    &&& (list.len() == limit || forall|k: Seq<char>| #[trigger]
        sessions.contains_key(k) ==> keys.contains(k))
}

/// `list` is a listing of `sessions` under `limit`.
pub open spec fn lists(
    list: Seq<SessionSummaryView>,
    sessions: Map<Seq<char>, SessionView>,
    limit: nat,
) -> bool {
    exists|keys: Seq<Seq<char>>| is_listing(list, keys, sessions, limit)
}

/// Storage backend for session state.
pub trait MessageStore {
    /// The sessions held, by id. A backend that does not say what it holds
    /// leaves this open, and nothing is known of it but what the contracts
    /// below promise.
    open spec fn sessions(&self) -> Map<Seq<char>, SessionView> {
        arbitrary()
    }

    /// Whether no operation of this backend ever fails. A backend that does
    /// not say so may fail at any call.
    open spec fn never_fails(&self) -> bool {
        false
    }

    /// Gets a session by id.
    fn get_session(&self, session_id: &str) -> (r: Result<Option<SessionState>, Error>)
        ensures
            r matches Ok(found) ==> opt_view(found) == stored(self.sessions(), session_id@),
            self.never_fails() ==> r is Ok,
    ;

    /// Saves a session under its id, in place of what was there.
    fn put_session(&mut self, state: &SessionState) -> (r: Result<(), Error>)
        ensures
            r is Ok ==> final(self).sessions() == old(self).sessions().insert(
                state@.session_id,
                state@,
            ),
            r is Err ==> final(self).sessions() == old(self).sessions(),
            old(self).never_fails() ==> r is Ok,
            final(self).never_fails() == old(self).never_fails(),
    ;

    /// Lists the newest sessions, at most `limit` of them.
    fn list_sessions(&self, limit: usize) -> (r: Result<Vec<SessionSummary>, Error>)
        ensures
            r matches Ok(list) ==> lists(views(list@), self.sessions(), limit as nat),
            self.never_fails() ==> r is Ok,
    ;

    /// Deletes a session; deleting a missing session succeeds.
    fn delete_session(&mut self, session_id: &str) -> (r: Result<(), Error>)
        ensures
            r is Ok ==> final(self).sessions() == old(self).sessions().remove(session_id@),
            r is Err ==> final(self).sessions() == old(self).sessions(),
            old(self).never_fails() ==> r is Ok,
            final(self).never_fails() == old(self).never_fails(),
    ;
}

} // verus!
