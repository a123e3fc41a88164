//! In-memory storage backend.

use crate::engine::state::{SessionState, SessionView};
use crate::error::Error;
use crate::storage::listing::{
    distinct_ids, holds_id, lemma_model_at, list_newest, model_of, place_of,
};
use crate::storage::traits::{MessageStore, SessionSummary};
use crate::text::str_eq;
use vstd::prelude::*;

verus! {

/// In-memory storage backend: the sessions in a vector, no two under one id.
pub struct MemoryBackend {
    sessions: Vec<SessionState>,
}

impl MemoryBackend {
    #[verifier::type_invariant]
    spec fn wf(self) -> bool {
        distinct_ids(self.sessions@)
    }

    /// An empty in-memory backend.
    pub fn new() -> (r: Self)
        ensures
            r.sessions() == Map::<Seq<char>, SessionView>::empty(),
    {
        let r = MemoryBackend { sessions: Vec::new() };
        assert(model_of(r.sessions@) =~= Map::<Seq<char>, SessionView>::empty());
        r
    }

    /// Every session is held under its own id: what is found under an id
    /// bears that id.
    pub proof fn lemma_sessions_bear_their_ids(&self)
        ensures
            forall|id: Seq<char>| #[trigger]
                self.sessions().contains_key(id) ==> self.sessions()[id].session_id == id,
    {
        let v = self.sessions@;
        assert forall|id: Seq<char>| #[trigger] model_of(v).contains_key(id) implies model_of(
            v,
        )[id].session_id == id by {
            let p = place_of(v, id);
            assert(v[p].session_id@ == id);
        }
    }

    /// The index of the session `id`, if it is held.
    fn find(&self, session_id: &str) -> (r: Option<usize>)
        ensures
            r matches Some(i) ==> i < self.sessions@.len() && self.sessions@[i as int].session_id@
                == session_id@,
            r is None ==> !holds_id(self.sessions@, session_id@),
    {
        let mut i: usize = 0;
        while i < self.sessions.len()
            invariant
                i <= self.sessions.len(),
                forall|j: int| 0 <= j < i ==> (#[trigger] self.sessions@[j]).session_id@ != session_id@,
            decreases self.sessions.len() - i,
        {
            if str_eq(self.sessions[i].session_id.as_str(), session_id) {
                return Some(i);
            }
            i += 1;
        }
        None
    }
}

impl Default for MemoryBackend {
    fn default() -> (r: Self)
        ensures
            r.sessions() == Map::<Seq<char>, SessionView>::empty(),
    {
        MemoryBackend::new()
    }
}

impl MessageStore for MemoryBackend {
    closed spec fn sessions(&self) -> Map<Seq<char>, SessionView> {
        model_of(self.sessions@)
    }

    open spec fn never_fails(&self) -> bool {
        true
    }

    fn get_session(&self, session_id: &str) -> (r: Result<Option<SessionState>, Error>)
        ensures
            r is Ok,
    {
        proof {
            use_type_invariant(self);
        }
        match self.find(session_id) {
            Some(i) => {
                proof {
                    lemma_model_at(self.sessions@, i as int);
                }
                Ok(Some(self.sessions[i].clone()))
            },
            None => Ok(None),
        }
    }

    fn put_session(&mut self, state: &SessionState) -> (r: Result<(), Error>)
        ensures
            r is Ok,
    {
        proof {
            use_type_invariant(&*self);
        }
        let ghost before = self.sessions@;
        let copy = state.clone();
        let found = self.find(state.session_id.as_str());
        let mut held: Vec<SessionState> = Vec::new();
        core::mem::swap(&mut self.sessions, &mut held);
        match found {
            Some(i) => {
                held.set(i, copy);
            },
            None => {
                held.push(copy);
            },
        }
        proof {
            let after = held@;
            let id = state@.session_id;
            assert(distinct_ids(after));
            assert forall|k: Seq<char>| #[trigger]
                model_of(after).contains_key(k) <==> model_of(before).insert(
                    id,
                    state@,
                ).contains_key(k) by {
                if holds_id(after, k) {
                    let p = place_of(after, k);
                    if k != id {
                        assert(before[p].session_id@ == k);
                    }
                }
                if holds_id(before, k) {
                    let p = place_of(before, k);
                    assert(after[p].session_id@ == k);
                }
                if k == id {
                    assert(exists|i: int| 0 <= i < after.len() && (#[trigger] after[i]).session_id@ == id) by {
                        if holds_id(before, id) {
                            let p = place_of(before, id);
                            assert(after[p].session_id@ == id);
                        } else {
                            assert(after[after.len() - 1].session_id@ == id);
                        }
                    }
                }
            }
            assert forall|k: Seq<char>| #[trigger] model_of(after).contains_key(k) implies model_of(
                after,
            )[k] == model_of(before).insert(id, state@)[k] by {
                let p = place_of(after, k);
                lemma_model_at(after, p);
                if k != id {
                    assert(before[p].session_id@ == k);
                    lemma_model_at(before, p);
                }
            }
            assert(model_of(after) =~= model_of(before).insert(id, state@));
        }
        core::mem::swap(&mut self.sessions, &mut held);
        Ok(())
    }

    fn list_sessions(&self, limit: usize) -> (r: Result<Vec<SessionSummary>, Error>)
        ensures
            r is Ok,
    {
        proof {
            use_type_invariant(self);
        }
        Ok(list_newest(&self.sessions, limit))
    }

    fn delete_session(&mut self, session_id: &str) -> (r: Result<(), Error>)
        ensures
            r is Ok,
    {
        proof {
            use_type_invariant(&*self);
        }
        let ghost before = self.sessions@;
        match self.find(session_id) {
            Some(i) => {
                let mut held: Vec<SessionState> = Vec::new();
                core::mem::swap(&mut self.sessions, &mut held);
                held.remove(i);
                proof {
                    let after = held@;
                    let id = session_id@;
                    assert(distinct_ids(after));
                    assert forall|k: Seq<char>| #[trigger]
                        model_of(after).contains_key(k) <==> model_of(before).remove(id).contains_key(
                            k,
                        ) by {
                        if holds_id(after, k) {
                            let p = place_of(after, k);
                            if p < i {
                                assert(before[p].session_id@ == k);
                            } else {
                                assert(before[p + 1].session_id@ == k);
                            }
                        }
                        if holds_id(before, k) && k != id {
                            let p = place_of(before, k);
                            if p < i {
                                assert(after[p].session_id@ == k);
                            } else {
                                assert(after[p - 1].session_id@ == k);
                            }
                        }
                    }
                    assert forall|k: Seq<char>| #[trigger]
                        model_of(after).contains_key(k) implies model_of(after)[k] == model_of(
                        before,
                    ).remove(id)[k] by {
                        let p = place_of(after, k);
                        lemma_model_at(after, p);
                        if p < i {
                            lemma_model_at(before, p);
                        } else {
                            lemma_model_at(before, p + 1);
                        }
                    }
                    assert(model_of(after) =~= model_of(before).remove(id));
                }
                core::mem::swap(&mut self.sessions, &mut held);
            },
            None => {
                assert(model_of(before) =~= model_of(before).remove(session_id@));
            },
        }
        Ok(())
    }
}

} // verus!
