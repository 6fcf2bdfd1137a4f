//! Absolute times, as whole seconds since the Unix epoch.

use chrono::DateTime;
use vstd::prelude::*;

verus! {

/// A point in time: whole seconds since 1970-01-01 00:00:00 UTC, leap seconds
/// not counted. Rendering it in a time zone is left to the caller.
#[derive(Clone, Copy, Debug, PartialEq, Eq, Structural)]
pub struct Timestamp {
    pub secs: i64,
}

/// What the calendar makes of `secs` seconds since the Unix epoch: the same
/// count where a date and time of day exist for it, nothing where the count
/// lies outside the calendar's range.
pub uninterp spec fn calendar_seconds(secs: i64) -> Option<i64>;

/// `chrono::DateTime::from_timestamp` with zero nanoseconds, read back with
/// `DateTime::timestamp`. The crate documents the two as a round trip, so a
/// count that comes back is the count that went in; whether one comes back
/// depends on `secs` alone.
#[verifier::external_body]
fn checked_seconds(secs: i64) -> (r: Option<i64>)
    ensures
        r == calendar_seconds(secs),
        r matches Some(t) ==> t == secs,
{
    match DateTime::from_timestamp(secs, 0) {
        Some(t) => Some(t.timestamp()),
        None => None,
    }
}

impl Timestamp {
    /// The time that stands in for a count the calendar cannot represent: the
    /// Unix epoch itself.
    pub open spec fn fallback() -> Timestamp {
        Timestamp { secs: 0 }
    }

    /// The time for a checked count: the count itself, or the fallback.
    pub open spec fn resolve(checked: Option<i64>) -> Timestamp {
        match checked {
            Some(t) => Timestamp { secs: t },
            None => Timestamp::fallback(),
        }
    }

    /// Turns a checked count into a time, falling back to the epoch where the
    /// calendar had nothing for the count.
    pub fn or_default(checked: Option<i64>) -> (r: Timestamp)
        ensures
            r == Timestamp::resolve(checked),
            checked is None ==> r == Timestamp::fallback(),
    {
        match checked {
            Some(t) => Timestamp { secs: t },
            None => Timestamp { secs: 0 },
        }
    }

    /// The time `secs` seconds after the Unix epoch, or the epoch itself where
    /// the calendar cannot represent that count.
    pub fn from_epoch_seconds(secs: i64) -> (r: Timestamp)
        ensures
            r == Timestamp::resolve(calendar_seconds(secs)),
            r.secs == secs || r == Timestamp::fallback(),
    {
        Timestamp::or_default(checked_seconds(secs))
    }
}

impl Default for Timestamp {
    fn default() -> (r: Timestamp)
        ensures
            r == Timestamp::fallback(),
    {
        Timestamp { secs: 0 }
    }
}

} // verus!
