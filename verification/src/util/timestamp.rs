//! Points in time, counted in microseconds since the Unix epoch in UTC, and
//! their text form for the outside world.

use vstd::prelude::*;

verus! {

/// The RFC 3339 text of the point in time that lies the given number of
/// microseconds after the epoch, in UTC, where the calendar reaches it.
pub uninterp spec fn rfc3339_text(micros: int) -> Option<Seq<char>>;

/// The text of an optional string.
pub open spec fn text_view(text: Option<String>) -> Option<Seq<char>> {
    match text {
        Some(t) => Some(t@),
        None => None,
    }
}

/// Renders a point in time with `chrono::DateTime::to_rfc3339`, on the UTC
/// date and time that `chrono::DateTime::from_timestamp_micros` gives for
/// it. Nothing is rendered where chrono's calendar does not reach the point
/// in time. The contract only names the result.
#[verifier::external_body]
fn format_rfc3339(micros: i64) -> (text: Option<String>)
    ensures
        text_view(text) == rfc3339_text(micros as int),
{
    match chrono::DateTime::from_timestamp_micros(micros) {
        Some(at) => Some(at.to_rfc3339()),
        None => None,
    }
}

/// A point in time.
#[derive(Clone, Copy, Debug, PartialEq, Eq, Structural)]
pub struct Timestamp {
    /// Microseconds since 1970-01-01T00:00:00 UTC; negative before it.
    pub micros: i64,
}

/// The time of an optional timestamp.
pub open spec fn time_view(at: Option<Timestamp>) -> Option<int> {
    match at {
        Some(t) => Some(t.micros as int),
        None => None,
    }
}

impl Timestamp {
    /// The timestamp for a number of microseconds since the epoch.
    pub fn from_micros(micros: i64) -> (at: Timestamp)
        ensures
            at.micros == micros,
    {
        Timestamp { micros }
    }

    /// The RFC 3339 text of this point in time, such as
    /// `2017-01-06T14:23:11+00:00`, where the calendar reaches it.
    pub fn to_rfc3339(&self) -> (text: Option<String>)
        ensures
            text_view(text) == rfc3339_text(self.micros as int),
    {
        format_rfc3339(self.micros)
    }

    /// The later of two timestamps.
    pub fn later_of(self, other: Timestamp) -> (later: Timestamp)
        ensures
            later.micros == if self.micros >= other.micros {
                self.micros
            } else {
                other.micros
            },
    {
        if self.micros >= other.micros {
            self
        } else {
            other
        }
    }
}

} // verus!
