//! Points in time, by way of `chrono`.

use vstd::prelude::*;

verus! {

/// A point in time: whole seconds since the start of 1970 in UTC, and the
/// nanoseconds after that second. Inside a leap second there are a thousand
/// million nanoseconds or more.
#[derive(Clone, Copy, PartialEq, Eq, Structural)]
pub struct Timestamp {
    pub secs: i64,
    pub nanos: u32,
}

/// The first second that has a date.
pub const FIRST_SECOND: i64 = -8_334_601_228_800;

/// The last second that has a date.
pub const LAST_SECOND: i64 = 8_210_266_876_799;

/// The number of seconds after which a claimed job counts as abandoned.
pub const STALE_SECONDS: i64 = 900;

impl Timestamp {
    /// The point in time has a date, and its nanoseconds are in range.
    pub open spec fn wf(self) -> bool {
        &&& FIRST_SECOND <= self.secs <= LAST_SECOND
        &&& self.nanos < 1_000_000_000 || (self.nanos < 2_000_000_000 && self.secs % 60 == 59)
    }
}

/// `a` is earlier than `b`.
pub open spec fn earlier(a: Timestamp, b: Timestamp) -> bool {
    a.secs < b.secs || (a.secs == b.secs && a.nanos < b.nanos)
}

/// The point in time that an RFC 3339 text stands for, as
/// `chrono::DateTime::parse_from_rfc3339` reads it; `None` where it reports an
/// error.
pub uninterp spec fn rfc3339_parsed(text: Seq<char>) -> Option<Timestamp>;

/// The text that `chrono::DateTime::to_rfc3339` writes for a point in time in
/// UTC.
pub uninterp spec fn rfc3339_written(at: Timestamp) -> Seq<char>;

/// `chrono::DateTime::parse_from_rfc3339`, the result taken in UTC. The
/// contract names the point in time, and says that it has a date: the years of
/// the format have four digits, and a leap second is read as the sixtieth of
/// its minute.
#[verifier::external_body]
pub(crate) fn parse_rfc3339(text: &str) -> (r: Option<Timestamp>)
    ensures
        r == rfc3339_parsed(text@),
        match r {
            Some(at) => at.wf(),
            None => true,
        },
{
    let read = chrono::DateTime::parse_from_rfc3339(text).ok()?.with_timezone(&chrono::Utc);
    Some(Timestamp { secs: read.timestamp(), nanos: read.timestamp_subsec_nanos() })
}

/// `chrono::TimeZone::timestamp_opt` on `Utc` with no nanoseconds: the given
/// second, where it has a date.
#[verifier::external_body]
pub(crate) fn second(secs: i64) -> (r: Option<Timestamp>)
    ensures
        r == if FIRST_SECOND <= secs <= LAST_SECOND {
            Some(Timestamp { secs: secs, nanos: 0 })
        } else {
            None
        },
{
    let at = chrono::TimeZone::timestamp_opt(&chrono::Utc, secs, 0).single()?;
    Some(Timestamp { secs: at.timestamp(), nanos: at.timestamp_subsec_nanos() })
}

/// `chrono::DateTime::to_rfc3339` on a point in time in UTC, which
/// `chrono::DateTime::from_timestamp` builds for every point that has a date.
/// The contract names the text.
#[verifier::external_body]
pub(crate) fn to_rfc3339(at: Timestamp) -> (r: String)
    requires
        at.wf(),
    ensures
        r@ == rfc3339_written(at),
{
    chrono::DateTime::from_timestamp(at.secs, at.nanos).unwrap().to_rfc3339()
}

/// The present, as texts that the rows of the database are compared with.
pub struct Clock {
    /// The present.
    pub now: String,
    /// Jobs that were claimed before this moment count as abandoned.
    pub stale_before: String,
}

/// The mathematical reading of a `Clock`.
pub struct ClockView {
    pub now: Seq<char>,
    pub stale_before: Seq<char>,
}

impl View for Clock {
    type V = ClockView;

    open spec fn view(&self) -> ClockView {
        ClockView { now: self.now@, stale_before: self.stale_before@ }
    }
}

/// The clock at the moment `at`: a job is abandoned a quarter of an hour after
/// it was claimed. `None` where a quarter of an hour earlier has no date.
pub fn clock_at(at: Timestamp) -> (r: Option<Clock>)
    requires
        at.wf(),
    ensures
        match r {
            Some(clock) => at.secs - STALE_SECONDS >= FIRST_SECOND && clock.now@ == rfc3339_written(
                at,
            ) && clock.stale_before@ == rfc3339_written(
                Timestamp { secs: (at.secs - STALE_SECONDS) as i64, nanos: at.nanos },
            ),
            None => at.secs - STALE_SECONDS < FIRST_SECOND,
        },
        r is Some <==> at.secs >= -8_334_601_228_800 + 900,
        r is Some ==> r->0.stale_before@ == rfc3339_written(
            (Timestamp { secs: (at.secs - 900) as i64, nanos: at.nanos }),
        ),
{
    if at.secs < FIRST_SECOND + STALE_SECONDS {
        return None;
    }
    let earlier: Timestamp = Timestamp { secs: at.secs - STALE_SECONDS, nanos: at.nanos };
    assert(STALE_SECONDS % 60 == 0);
    Some(Clock { now: to_rfc3339(at), stale_before: to_rfc3339(earlier) })
}

} // verus!
