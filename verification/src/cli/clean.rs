//! The `clean` command: removing old sessions.

use crate::engine::state::{views, Decision, SessionView};
use crate::error::Error;
use crate::storage::traits::{is_listing, summary_of, MessageStore};
use crate::text::{chars_of, parse_decimal, read_integer, text_of, trim, trim_bounds};
use crate::time::{earlier_than, Timestamp};
use vstd::prelude::*;

verus! {

/// How many sessions one run of the command looks at.
pub const CLEAN_LIMIT: usize = 10000;

/// Seconds in a day.
pub const DAY: i64 = 86400;

/// The number of seconds in one unit of a duration: days unless the text ends with `h` or `m`.
pub open spec fn unit_seconds(t: Seq<char>) -> int {
    if t.len() > 0 && t.last() == 'h' {
        3600
    } else if t.len() > 0 && t.last() == 'm' {
        60
    } else {
        86400
    }
}

/// The digits of a duration: the text without its unit letter.
pub open spec fn amount_text(t: Seq<char>) -> Seq<char> {
    if t.len() > 0 && (t.last() == 'd' || t.last() == 'h' || t.last() == 'm') {
        t.drop_last()
    } else {
        t
    }
}

/// The duration that `s` writes, in seconds: an integer followed by `d`, `h`
/// or `m` (days where no unit is given); the empty text means seven days.
/// `None` where the text is no such duration or the seconds pass an `i64`.
pub open spec fn duration_seconds(s: Seq<char>) -> Option<i64> {
    let t = trim(s);
    if t.len() == 0 {
        Some((7 * 86400) as i64)
    } else {
        match parse_decimal(amount_text(t)) {
            Some(n) => if i64::MIN <= n * unit_seconds(t) <= i64::MAX {
                Some((n * unit_seconds(t)) as i64)
            } else {
                None
            },
            None => None,
        }
    }
}

/// Parses a duration such as `7d`, `24h` or `30m` into seconds.
pub fn parse_duration(s: &str) -> (r: Result<i64, Error>)
    ensures
        match duration_seconds(s@) {
            Some(secs) => r == Ok::<i64, Error>(secs),
            None => r matches Err(Error::InvalidState(m)) && m@ == "Invalid duration: "@ + trim(s@),
        },
{
    let v = chars_of(s);
    let n = v.len();
    let (a, b) = trim_bounds(&v, 0, n);
    assert(v@.subrange(0, n as int) == v@);
    if a == b {
        return Ok(7 * DAY);
    }
    let t = text_of(&v, a, b);
    let last = v[b - 1];
    assert(t@.last() == last);
    let unit: i128 = if last == 'h' {
        3600
    } else if last == 'm' {
        60
    } else {
        86400
    };
    let end: usize = if last == 'd' || last == 'h' || last == 'm' {
        b - 1
    } else {
        b
    };
    let amount = text_of(&v, a, end);
    assert(amount@ == amount_text(t@)) by {
        assert(v@.subrange(a as int, b as int).drop_last() == v@.subrange(a as int, b - 1));
    }
    match read_integer(amount.as_str()) {
        Some(k) => {
            assert(k * unit <= 0x1_0000_0000_0000_0000 * 86400 && k * unit
                >= -0x1_0000_0000_0000_0000 * 86400) by (nonlinear_arith)
                requires
                    -0x1_0000_0000_0000_0000 <= k <= 0x1_0000_0000_0000_0000,
                    unit == 3600 || unit == 60 || unit == 86400,
            ;
            let secs: i128 = k * unit;
            if secs < i64::MIN as i128 || secs > i64::MAX as i128 {
                Err(Error::InvalidState(crate::text::concat("Invalid duration: ", t.as_str())))
            } else {
                Ok(secs as i64)
            }
        },
        None => {
            proof {
                if parse_decimal(amount@) is Some {
                    let big = parse_decimal(amount@)->0;
                    assert(big * unit_seconds(t@) > i64::MAX || big * unit_seconds(t@) < i64::MIN)
                        by (nonlinear_arith)
                        requires
                            big > 0x1_0000_0000_0000_0000 || big < -0x1_0000_0000_0000_0000,
                            unit_seconds(t@) == 3600 || unit_seconds(t@) == 60 || unit_seconds(t@)
                                == 86400,
                    ;
                }
            }
            Err(Error::InvalidState(crate::text::concat("Invalid duration: ", t.as_str())))
        },
    }
}

/// `t` moved by `secs` seconds into the past (into the future where `secs`
/// is negative), held within what an `i64` can name.
pub open spec fn cutoff_at(now: Timestamp, secs: i64) -> Timestamp {
    Timestamp {
        secs: if now.secs - secs < i64::MIN {
            i64::MIN
        } else if now.secs - secs > i64::MAX {
            i64::MAX
        } else {
            (now.secs - secs) as i64
        },
        nanos: now.nanos,
    }
}

/// A session may be cleaned up: it was created before the cutoff, and it is
/// not waiting for a decision with review enabled.
pub open spec fn cleanable(s: SessionView, cutoff: Timestamp) -> bool {
    earlier_than(s.created_at, cutoff) && !(s.review.enabled && s.review.decision is Pending)
}

/// The map holds at least `n` sessions.
pub open spec fn holds_at_least(sessions: Map<Seq<char>, SessionView>, n: nat) -> bool {
    exists|keys: Seq<Seq<char>>|
        #![trigger keys.no_duplicates()]
        keys.len() == n && keys.no_duplicates() && forall|i: int|
            0 <= i < keys.len() ==> sessions.contains_key(#[trigger] keys[i])
}

/// The time before which sessions count as old.
pub fn cutoff(now: Timestamp, before_secs: i64) -> (r: Timestamp)
    ensures
        r == cutoff_at(now, before_secs),
{
    let wide: i128 = now.secs as i128 - before_secs as i128;
    let held: i64 = if wide < i64::MIN as i128 {
        i64::MIN
    } else if wide > i64::MAX as i128 {
        i64::MAX
    } else {
        wide as i64
    };
    Timestamp { secs: held, nanos: now.nanos }
}

/// Removes the sessions created more than `before_secs` seconds before `now`,
/// sparing those that still wait for a decision. Looks at the newest 10000
/// sessions. Returns how many it removed.
///
/// Whatever happens, no session is added or changed, and a session is removed
/// only if it may be cleaned up. On success, every session that may be
/// cleaned up is gone, unless the store held as many sessions as the command
/// looks at, or more. It fails only where the store fails.
pub fn clean_sessions<S: MessageStore>(store: &mut S, before_secs: i64, now: Timestamp) -> (r: Result<
    usize,
    Error,
>)
    ensures
        forall|k: Seq<char>| #[trigger]
            final(store).sessions().contains_key(k) ==> old(store).sessions().contains_key(k)
                && final(store).sessions()[k] == old(store).sessions()[k],
        forall|k: Seq<char>|
            old(store).sessions().contains_key(k) && !(#[trigger] final(store).sessions().contains_key(
                k,
            )) ==> cleanable(old(store).sessions()[k], cutoff_at(now, before_secs)),
        r matches Ok(n) ==> exists|gone: Set<Seq<char>>|
            #![trigger gone.finite()]
            gone.finite() && gone.len() == n && final(store).sessions() == old(
                store,
            ).sessions().remove_keys(gone) && gone.subset_of(old(store).sessions().dom()),
        r is Ok ==> holds_at_least(old(store).sessions(), CLEAN_LIMIT as nat) || forall|k: Seq<char>|
            old(store).sessions().contains_key(k) && cleanable(
                old(store).sessions()[k],
                cutoff_at(now, before_secs),
            ) ==> !(#[trigger] final(store).sessions().contains_key(k)),
        old(store).never_fails() ==> r is Ok,
{
    let limit = cutoff(now, before_secs);
    let ghost start = store.sessions();
    let list = match store.list_sessions(CLEAN_LIMIT) {
        Ok(l) => l,
        Err(e) => {
            return Err(e);
        },
    };
    let ghost keys: Seq<Seq<char>> = choose|keys: Seq<Seq<char>>|
        is_listing(views(list@), keys, start, CLEAN_LIMIT as nat);
    let ghost shown = views(list@);
    let ghost mut gone: Set<Seq<char>> = Set::empty();
    let mut removed: usize = 0;
    let mut i: usize = 0;
    while i < list.len()
        invariant
            i <= list.len(),
            removed <= i,
            list.len() <= CLEAN_LIMIT,
            shown == views(list@),
            start == old(store).sessions(),
            store.never_fails() == old(store).never_fails(),
            is_listing(shown, keys, start, CLEAN_LIMIT as nat),
            limit == cutoff_at(now, before_secs),
            gone.finite(),
            gone.len() == removed,
            gone.subset_of(start.dom()),
            store.sessions() == start.remove_keys(gone),
            forall|k: Seq<char>| #[trigger] gone.contains(k) ==> cleanable(start[k], limit),
            forall|k: Seq<char>|
                #[trigger] gone.contains(k) ==> exists|j: int| 0 <= j < i && keys[j] == k,
            forall|j: int|
                0 <= j < i && cleanable(start[#[trigger] keys[j]], limit) ==> gone.contains(keys[j]),
        decreases list.len() - i,
    {
        let ghost key = keys[i as int];
        assert(start.contains_key(key) && shown[i as int] == summary_of(start[key]));
        assert(list@[i as int]@ == shown[i as int]);
        assert(list@[i as int].session_id@ == key);
        assert(!gone.contains(key)) by {
            if gone.contains(key) {
                let j = choose|j: int| 0 <= j < i && keys[j] == key;
                assert(keys[j] != keys[i as int]);
            }
        }
        if list[i].created_at.is_earlier_than(&limit) {
            let found = match store.get_session(list[i].session_id.as_str()) {
                Ok(f) => f,
                Err(e) => {
                    return Err(e);
                },
            };
            let active = match &found {
                Some(s) => s.review.enabled && matches!(s.review.decision, Decision::Pending),
                None => false,
            };
            if !active {
                let ghost cur = store.sessions();
                match store.delete_session(list[i].session_id.as_str()) {
                    Ok(()) => {},
                    Err(e) => {
                        return Err(e);
                    },
                }
                proof {
                    vstd::set::axiom_set_insert_len(gone, key);
                    let next = gone.insert(key);
                    assert(store.sessions() =~= start.remove_keys(next));
                    assert forall|k: Seq<char>| #[trigger] next.contains(k) implies exists|j: int|
                        0 <= j < i + 1 && keys[j] == k by {
                        if k == key {
                            assert(keys[i as int] == k);
                        } else {
                            let j = choose|j: int| 0 <= j < i && keys[j] == k;
                            assert(0 <= j < i + 1 && keys[j] == k);
                        }
                    }
                    gone = next;
                }
                removed += 1;
            }
        }
        proof {
            assert forall|k: Seq<char>| #[trigger] gone.contains(k) implies exists|j: int|
                0 <= j < i + 1 && keys[j] == k by {
                if k != key || !gone.contains(key) {
                    let j = choose|j: int| 0 <= j < i && keys[j] == k;
                    assert(0 <= j < i + 1 && keys[j] == k);
                } else {
                    assert(keys[i as int] == k);
                }
            }
        }
        i += 1;
    }
    proof {
        if shown.len() == CLEAN_LIMIT {
            assert(keys.no_duplicates());
            assert(holds_at_least(start, CLEAN_LIMIT as nat));
        } else {
            assert forall|k: Seq<char>|
                start.contains_key(k) && cleanable(start[k], limit) implies !(#[trigger] store.sessions().contains_key(
                k,
            )) by {
                assert(keys.contains(k));
                let j = choose|j: int| 0 <= j < keys.len() && keys[j] == k;
                assert(gone.contains(keys[j]));
            }
        }
    }
    Ok(removed)
}

/// The duration in force for one run of the command, in seconds: none at all
/// where everything is to go, else what `before` writes.
pub open spec fn duration_in_force(before: Seq<char>, all: bool) -> Option<i64> {
    if all {
        Some(0)
    } else {
        duration_seconds(before)
    }
}

/// Runs the clean command on a store: removes the sessions older than the
/// duration that `before` writes, or all that may be removed where `all` is
/// set. Fails with `InvalidState`, and removes nothing, where `before` is
/// needed and writes no duration; beyond that it does what `clean_sessions`
/// does, and fails only where the store fails.
pub fn run<S: MessageStore>(store: &mut S, before: &str, all: bool, now: Timestamp) -> (r: Result<
    usize,
    Error,
>)
    ensures
        duration_in_force(before@, all) is None ==> final(store).sessions() == old(store).sessions()
            && (r matches Err(Error::InvalidState(m)) && m@ == "Invalid duration: "@ + trim(before@)),
        old(store).never_fails() ==> (r is Ok <==> duration_in_force(before@, all) is Some),
        forall|k: Seq<char>| #[trigger]
            final(store).sessions().contains_key(k) ==> old(store).sessions().contains_key(k)
                && final(store).sessions()[k] == old(store).sessions()[k],
        forall|k: Seq<char>|
            old(store).sessions().contains_key(k) && !(#[trigger] final(store).sessions().contains_key(
                k,
            )) ==> cleanable(
                old(store).sessions()[k],
                cutoff_at(now, duration_in_force(before@, all)->0),
            ),
        r matches Ok(n) ==> exists|gone: Set<Seq<char>>|
            #![trigger gone.finite()]
            gone.finite() && gone.len() == n && final(store).sessions() == old(
                store,
            ).sessions().remove_keys(gone) && gone.subset_of(old(store).sessions().dom()),
        r is Ok ==> holds_at_least(old(store).sessions(), CLEAN_LIMIT as nat) || forall|k: Seq<char>|
            old(store).sessions().contains_key(k) && cleanable(
                old(store).sessions()[k],
                cutoff_at(now, duration_in_force(before@, all)->0),
            ) ==> !(#[trigger] final(store).sessions().contains_key(k)),
{
    let secs: i64 = if all {
        0
    } else {
        match parse_duration(before) {
            Ok(s) => s,
            Err(e) => {
                return Err(e);
            },
        }
    };
    clean_sessions(store, secs, now)
}

} // verus!
