//! Points in time, as the engine compares them.
//!
//! A [`Timestamp`] holds what `chrono::DateTime<Utc>` reports of itself: whole
//! seconds since the Unix epoch and the nanoseconds within that second. The
//! order is the order of those two numbers, seconds first.

use vstd::prelude::*;

verus! {

/// A point in time in UTC.
#[derive(Clone, Copy, Debug, PartialEq, Eq, Structural, PartialOrd, Ord, Hash)]
pub struct Timestamp {
    /// Whole seconds since 1970-01-01T00:00:00Z.
    pub secs: i64,
    /// Nanoseconds since the last whole second (above 999,999,999 only within a leap second).
    pub nanos: u32,
}

/// `a` is strictly later than `base` moved forward by `plus` seconds.
pub open spec fn later_than(a: Timestamp, base: Timestamp, plus: int) -> bool {
    a.secs > base.secs + plus || (a.secs == base.secs + plus && a.nanos > base.nanos)
}

/// `a` is strictly earlier than `b`.
pub open spec fn earlier_than(a: Timestamp, b: Timestamp) -> bool {
    later_than(b, a, 0)
}

/// `t` moved back by `secs` seconds, held at the earliest second an `i64` can name.
pub open spec fn moved_back(t: Timestamp, secs: u64) -> Timestamp {
    Timestamp {
        secs: if t.secs - secs < i64::MIN {
            i64::MIN
        } else {
            (t.secs - secs) as i64
        },
        nanos: t.nanos,
    }
}

/// What `chrono` writes for the UTC time `secs`, `nanos` in RFC 3339 form with
/// whole seconds and a trailing `Z`; `None` where `chrono` has no such time.
pub uninterp spec fn utc_seconds_text(secs: i64, nanos: u32) -> Option<Seq<char>>;

/// The text used for `t` in messages.
pub open spec fn time_text(t: Timestamp) -> Seq<char> {
    match utc_seconds_text(t.secs, t.nanos) {
        Some(s) => s,
        None => "(out of range)"@,
    }
}

/// The current time, read by `chrono::Utc::now`. Nothing is promised of the
/// value: it is whatever the system clock says. `chrono` panics where the
/// clock stands before the Unix epoch.
#[verifier::external_body]
pub(crate) fn now() -> (t: Timestamp) {
    let t = chrono::Utc::now();
    Timestamp { secs: t.timestamp(), nanos: t.timestamp_subsec_nanos() }
}

/// `chrono::DateTime::from_timestamp` followed by
/// `DateTime::to_rfc3339_opts(SecondsFormat::Secs, true)`: the result is the
/// named text of these two numbers, `None` where `from_timestamp` refuses them.
#[verifier::external_body]
fn utc_text(secs: i64, nanos: u32) -> (r: Option<String>)
    ensures
        r.is_some() == utc_seconds_text(secs, nanos).is_some(),
        r matches Some(s) ==> Some(s@) == utc_seconds_text(secs, nanos),
{
    chrono::DateTime::from_timestamp(secs, nanos).map(
        |t| t.to_rfc3339_opts(chrono::SecondsFormat::Secs, true),
    )
}

impl Timestamp {
    /// Whether `self` is strictly later than `base` plus `plus` seconds.
    pub fn is_later_than(&self, base: &Timestamp, plus: u64) -> (r: bool)
        ensures
            r == later_than(*self, *base, plus as int),
    {
        let limit: i128 = base.secs as i128 + plus as i128;
        let mine: i128 = self.secs as i128;
        mine > limit || (mine == limit && self.nanos > base.nanos)
    }

    /// Whether `self` is strictly earlier than `other`.
    pub fn is_earlier_than(&self, other: &Timestamp) -> (r: bool)
        ensures
            r == earlier_than(*self, *other),
    {
        other.is_later_than(self, 0)
    }

    /// `self` moved back by `secs` seconds.
    pub fn minus_seconds(&self, secs: u64) -> (r: Timestamp)
        ensures
            r == moved_back(*self, secs),
    {
        let wide: i128 = self.secs as i128 - secs as i128;
        let held: i64 = if wide < i64::MIN as i128 {
            i64::MIN
        } else {
            wide as i64
        };
        Timestamp { secs: held, nanos: self.nanos }
    }

    /// The text used for `self` in messages.
    pub fn text(&self) -> (r: String)
        ensures
            r@ == time_text(*self),
    {
        match utc_text(self.secs, self.nanos) {
            Some(s) => s,
            None => "(out of range)".to_owned(),
        }
    }
}

} // verus!
