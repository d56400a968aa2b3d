use vstd::prelude::*;

verus! {

/// A point in time: whole seconds since the Unix epoch and the nanoseconds
/// within that second. Two timestamps are ordered by their seconds first and
/// by their nanoseconds second.
#[derive(Clone, Copy, Debug, PartialEq, Eq, Structural)]
pub struct Timestamp {
    pub seconds: i64,
    pub nanos: u32,
}

impl Timestamp {
    /// `self` lies strictly before `other`.
    pub open spec fn before(self, other: Timestamp) -> bool {
        self.seconds < other.seconds || (self.seconds == other.seconds && self.nanos
            < other.nanos)
    }

    /// `self` is `other` or lies after it.
    pub open spec fn at_or_after(self, other: Timestamp) -> bool {
        !self.before(other)
    }

    pub fn new(seconds: i64, nanos: u32) -> (t: Timestamp)
        ensures
            t.seconds == seconds,
            t.nanos == nanos,
    {
        Timestamp { seconds, nanos }
    }

    pub fn is_before(&self, other: &Timestamp) -> (r: bool)
        ensures
            r == self.before(*other),
    {
        self.seconds < other.seconds || (self.seconds == other.seconds && self.nanos
            < other.nanos)
    }

    pub fn is_at_or_after(&self, other: &Timestamp) -> (r: bool)
        ensures
            r == self.at_or_after(*other),
    {
        !self.is_before(other)
    }
}

/// The time of the system clock, as `chrono::Utc::now` gives it. Nothing is
/// claimed of the result: it is whatever the clock says. (`Utc::now` gives up
/// on a clock that stands before 1970.)
#[verifier::external_body]
pub(crate) fn current_time() -> (now: Timestamp) {
    let now = chrono::Utc::now();
    Timestamp { seconds: now.timestamp(), nanos: now.timestamp_subsec_nanos() }
}

/// What `chrono::DateTime::parse_from_str` reads out of a text under a
/// format: the seconds since the Unix epoch and the nanoseconds of the point
/// in time that the text names, or `None` where the text does not follow the
/// format or names no time and zone.
pub uninterp spec fn chrono_parsed(text: Seq<char>, format: Seq<char>) -> Option<(i64, u32)>;

/// `chrono::DateTime::parse_from_str`: reads a time with its zone under a
/// `strftime` format. The result depends on the two texts alone, and is spoken
/// of as `chrono_parsed`.
#[verifier::external_body]
pub(crate) fn parse_time(text: &str, format: &str) -> (time: Option<Timestamp>)
    ensures
        match time {
            Some(time) => chrono_parsed(text@, format@) == Some((time.seconds, time.nanos)),
            None => chrono_parsed(text@, format@) is None,
        },
{
    match chrono::DateTime::parse_from_str(text, format) {
        Ok(time) => Some(
            Timestamp { seconds: time.timestamp(), nanos: time.timestamp_subsec_nanos() },
        ),
        Err(_) => None,
    }
}

} // verus!
