//! Listing a set of sessions: the summaries, newest first, cut to a limit.
//!
//! Every backend lists the same way once it has its sessions at hand, so the
//! listing is done here, for a vector of sessions.

use crate::engine::state::{views, SessionState, SessionView};
use crate::storage::traits::{
    is_listing, lists, summary_of, SessionSummary, SessionSummaryView,
};
use crate::time::{earlier_than, later_than};
use vstd::prelude::*;

verus! {

/// No two entries of `v` have the same session id.
pub open spec fn distinct_ids(v: Seq<SessionState>) -> bool {
    forall|i: int, j: int|
        0 <= i < j < v.len() ==> (#[trigger] v[i]).session_id@ != (#[trigger] v[j]).session_id@
}

/// Some entry of `v` has the id `id`.
pub open spec fn holds_id(v: Seq<SessionState>, id: Seq<char>) -> bool {
    exists|i: int| 0 <= i < v.len() && (#[trigger] v[i]).session_id@ == id
}

/// An index at which `v` has the id `id`.
pub open spec fn place_of(v: Seq<SessionState>, id: Seq<char>) -> int {
    choose|i: int| 0 <= i < v.len() && (#[trigger] v[i]).session_id@ == id
}

/// The map that `v` stands for.
pub open spec fn model_of(v: Seq<SessionState>) -> Map<Seq<char>, SessionView> {
    Map::new(|id: Seq<char>| holds_id(v, id), |id: Seq<char>| v[place_of(v, id)]@)
}

/// In a vector of distinct ids, the model holds each entry under its id.
pub proof fn lemma_model_at(v: Seq<SessionState>, i: int)
    requires
        distinct_ids(v),
        0 <= i < v.len(),
    ensures
        model_of(v).contains_key(v[i].session_id@),
        model_of(v)[v[i].session_id@] == v[i]@,
{
    let id = v[i].session_id@;
    assert(holds_id(v, id));
    let p = place_of(v, id);
    assert(0 <= p < v.len() && v[p].session_id@ == id);
    if p != i {
        if p < i {
            assert(v[p].session_id@ != v[i].session_id@);
        } else {
            assert(v[i].session_id@ != v[p].session_id@);
        }
    }
}

/// The summary of a session.
fn summarize(state: &SessionState) -> (r: SessionSummary)
    ensures
        r@ == summary_of(state@),
{
    let first_prompt = if state.review.user_prompts.len() > 0 {
        Some(state.review.user_prompts[0].clone())
    } else {
        None
    };
    SessionSummary {
        session_id: state.session_id.clone(),
        first_prompt,
        created_at: state.created_at,
        event_count: state.trace.len(),
    }
}

/// The summaries of all of `v`, newest first. `idx` tells which session each
/// summary is of, and `pos` where the summary of each session stands.
fn newest_first(v: &Vec<SessionState>) -> (r: (Vec<SessionSummary>, Ghost<Seq<int>>, Ghost<Seq<int>>))
    ensures
        ({
            let (list, idx, pos) = (r.0, r.1@, r.2@);
            &&& list.len() == v.len()
            &&& idx.len() == v.len()
            &&& pos.len() == v.len()
            &&& forall|j: int| 0 <= j < v.len() ==> 0 <= #[trigger] idx[j] < v.len()
            &&& forall|j: int| 0 <= j < v.len() ==> (#[trigger] list@[j])@ == summary_of(v@[idx[j]]@)
            &&& forall|a: int, b: int| 0 <= a < b < v.len() ==> #[trigger] idx[a] != #[trigger] idx[b]
            &&& forall|q: int| 0 <= q < v.len() ==> 0 <= #[trigger] pos[q] < v.len() && idx[pos[q]] == q
            &&& forall|a: int, b: int|
                0 <= a < b < v.len() ==> !earlier_than(
                    (#[trigger] list@[a]).created_at,
                    (#[trigger] list@[b]).created_at,
                )
        }),
{
    let mut list: Vec<SessionSummary> = Vec::new();
    let ghost mut idx: Seq<int> = Seq::empty();
    let ghost mut pos: Seq<int> = Seq::empty();
    let mut i: usize = 0;
    while i < v.len()
        invariant
            i <= v.len(),
            list.len() == i,
            idx.len() == i,
            pos.len() == i,
            forall|j: int| 0 <= j < i ==> 0 <= #[trigger] idx[j] < i,
            forall|j: int| 0 <= j < i ==> (#[trigger] list@[j])@ == summary_of(v@[idx[j]]@),
            forall|a: int, b: int| 0 <= a < b < i ==> #[trigger] idx[a] != #[trigger] idx[b],
            forall|q: int| 0 <= q < i ==> 0 <= #[trigger] pos[q] < i && idx[pos[q]] == q,
            forall|a: int, b: int|
                0 <= a < b < i ==> !earlier_than(
                    (#[trigger] list@[a]).created_at,
                    (#[trigger] list@[b]).created_at,
                ),
        decreases v.len() - i,
    {
        let summary = summarize(&v[i]);
        let at = summary.created_at;
        let mut p: usize = 0;
        while p < list.len() && !list[p].created_at.is_earlier_than(&at)
            invariant
                p <= list.len(),
                forall|a: int| 0 <= a < p ==> !earlier_than((#[trigger] list@[a]).created_at, at),
            decreases list.len() - p,
        {
            p += 1;
        }
        let ghost old_list = list@;
        let ghost old_idx = idx;
        let ghost old_pos = pos;
        list.insert(p, summary);
        proof {
            idx = old_idx.insert(p as int, i as int);
            pos = Seq::new(
                (i + 1) as nat,
                |q: int|
                    if q == i {
                        p as int
                    } else if old_pos[q] >= p {
                        old_pos[q] + 1
                    } else {
                        old_pos[q]
                    },
            );
            assert forall|j: int| 0 <= j < i + 1 implies (#[trigger] list@[j])@ == summary_of(
                v@[idx[j]]@,
            ) by {
                if j < p {
                    assert(list@[j] == old_list[j]);
                } else if j > p {
                    assert(list@[j] == old_list[j - 1]);
                }
            }
            assert forall|a: int, b: int| 0 <= a < b < i + 1 implies #[trigger] idx[a]
                != #[trigger] idx[b] by {
                if a != p && b != p {
                    let a0 = if a < p { a } else { a - 1 };
                    let b0 = if b < p { b } else { b - 1 };
                    assert(old_idx[a0] != old_idx[b0]);
                }
            }
            assert forall|a: int, b: int| 0 <= a < b < i + 1 implies !earlier_than(
                (#[trigger] list@[a]).created_at,
                (#[trigger] list@[b]).created_at,
            ) by {
                if a != p && b != p {
                    let a0 = if a < p { a } else { a - 1 };
                    let b0 = if b < p { b } else { b - 1 };
                    assert(!earlier_than(old_list[a0].created_at, old_list[b0].created_at));
                } else if b == p {
                    assert(list@[a] == old_list[a]);
                } else {
                    assert(list@[b] == old_list[b - 1]);
                    if b - 1 > p {
                        assert(!earlier_than(old_list[p as int].created_at, old_list[b - 1].created_at));
                    }
                }
            }
        }
        i += 1;
    }
    (list, Ghost(idx), Ghost(pos))
}

/// `list` holds the summaries of the sessions at the places `idx` of
/// `sessions`: one summary for each place and no place twice, and no session
/// is left out that is newer than one listed.
pub open spec fn is_selection(
    list: Seq<SessionSummaryView>,
    sessions: Seq<SessionView>,
    idx: Seq<int>,
) -> bool {
    &&& idx.len() == list.len()
    &&& forall|j: int|
        0 <= j < list.len() ==> 0 <= #[trigger] idx[j] < sessions.len() && list[j] == summary_of(
            sessions[idx[j]],
        )
    &&& forall|a: int, b: int| 0 <= a < b < idx.len() ==> #[trigger] idx[a] != #[trigger] idx[b]
    &&& forall|q: int, j: int|
        #![trigger sessions[q], list[j]]
        0 <= q < sessions.len() && !idx.contains(q) && 0 <= j < list.len() ==> !later_than(
            sessions[q].created_at,
            list[j].created_at,
            0,
        )
}

/// `list` holds summaries of sessions of `sessions`, each session taken at
/// most once, none left out that is newer than one listed.
pub open spec fn selects(list: Seq<SessionSummaryView>, sessions: Seq<SessionView>) -> bool {
    exists|idx: Seq<int>| is_selection(list, sessions, idx)
}

/// Lists the newest of `sessions`, at most `limit` of them: one summary for
/// each session listed, newest first. Where no two of the sessions have the
/// same id, the result is a listing of the map that they stand for.
pub fn list_newest(sessions: &Vec<SessionState>, limit: usize) -> (r: Vec<SessionSummary>)
    ensures
        selects(views(r@), views(sessions@)),
        r.len() == if limit < sessions.len() {
            limit
        } else {
            sessions.len()
        },
        forall|a: int, b: int|
            0 <= a < b < r.len() ==> !earlier_than(
                (#[trigger] r@[a]).created_at,
                (#[trigger] r@[b]).created_at,
            ),
        distinct_ids(sessions@) ==> lists(views(r@), model_of(sessions@), limit as nat),
{
    let (mut list, Ghost(idx), Ghost(pos)) = newest_first(sessions);
    let ghost all = views(list@);
    let ghost whole = list@;
    if list.len() > limit {
        list.truncate(limit);
    }
    assert(list@ =~= whole.take(list@.len() as int));
    proof {
        let v = sessions@;
        let shown = views(list@);
        let taken = idx.take(shown.len() as int);
        assert(shown =~= all.take(shown.len() as int));
        assert forall|q: int, j: int|
            #![trigger views(v)[q], shown[j]]
            0 <= q < v.len() && !taken.contains(q) && 0 <= j < shown.len() implies !later_than(
            views(v)[q].created_at,
            shown[j].created_at,
            0,
        ) by {
            if pos[q] < shown.len() {
                assert(taken[pos[q]] == q);
            }
            assert(all[pos[q]] == summary_of(v[q]@));
            assert(!earlier_than(all[j].created_at, all[pos[q]].created_at));
        }
        assert(is_selection(shown, views(v), taken));
        if distinct_ids(v) {
            let keys = Seq::new(shown.len(), |j: int| v[idx[j]].session_id@);
            assert(shown =~= all.take(shown.len() as int));
            assert forall|a: int, b: int| 0 <= a < b < keys.len() implies keys[a] != keys[b] by {
                assert(idx[a] != idx[b]);
                if idx[a] < idx[b] {
                    assert(v[idx[a]].session_id@ != v[idx[b]].session_id@);
                } else {
                    assert(v[idx[b]].session_id@ != v[idx[a]].session_id@);
                }
            }
            assert forall|j: int| 0 <= j < shown.len() implies model_of(v).contains_key(
                #[trigger] keys[j],
            ) && shown[j] == summary_of(model_of(v)[keys[j]]) by {
                lemma_model_at(v, idx[j]);
            }
            assert forall|k: Seq<char>| #[trigger]
                model_of(v).contains_key(k) && !keys.contains(k) implies pos[place_of(v, k)]
                >= shown.len() by {
                let q = place_of(v, k);
                if pos[q] < shown.len() {
                    assert(keys[pos[q]] == k);
                }
            }
            assert forall|k: Seq<char>, j: int|
                #![trigger model_of(v).contains_key(k), shown[j]]
                model_of(v).contains_key(k) && !keys.contains(k) && 0 <= j < shown.len() implies !later_than(
                model_of(v)[k].created_at,
                shown[j].created_at,
                0,
            ) by {
                let q = place_of(v, k);
                lemma_model_at(v, q);
                assert(all[pos[q]] == summary_of(v[q]@));
                assert(!earlier_than(all[j].created_at, all[pos[q]].created_at));
            }
    assert(is_listing(shown, keys, model_of(v), limit as nat));
        }
    }
    list
}

} // verus!
