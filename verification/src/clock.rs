//! Points in time, and what `chrono` makes of them.
use vstd::prelude::*;

verus! {

/// A point in time: whole seconds since the start of 1970 in UTC, and the
/// nanoseconds into that second.
#[derive(Clone, Copy, Debug, PartialEq, Eq, Structural)]
pub struct Timestamp {
    pub secs: i64,
    pub nanos: u32,
}

/// The first second that `chrono` can hold, at the start of the year -262143.
pub const FIRST_SECOND: i64 = -8_334_601_228_800;

/// The last second that `chrono` can hold, at the end of the year 262142.
pub const LAST_SECOND: i64 = 8_210_266_876_799;

pub const NANOS_PER_SEC: u32 = 1_000_000_000;

/// Whether `chrono` can hold this point in time. More than a second's worth of
/// nanoseconds stands for a leap second, which only ends a minute.
pub open spec fn holds(secs: int, nanos: int) -> bool {
    &&& FIRST_SECOND <= secs <= LAST_SECOND
    &&& 0 <= nanos < 2 * NANOS_PER_SEC
    &&& nanos >= NANOS_PER_SEC ==> secs % 60 == 59
}

impl Timestamp {
    pub open spec fn valid(self) -> bool {
        holds(self.secs as int, self.nanos as int)
    }

    /// Whether this point in time lies before the other.
    pub open spec fn earlier(self, other: Timestamp) -> bool {
        self.secs < other.secs || (self.secs == other.secs && self.nanos < other.nanos)
    }

    /// Whether this point in time lies before the other.
    pub fn is_before(&self, other: &Timestamp) -> (r: bool)
        ensures
            r == self.earlier(*other),
    {
        self.secs < other.secs || (self.secs == other.secs && self.nanos < other.nanos)
    }
}

/// What `chrono::DateTime::parse_from_rfc3339` reads in a text.
pub uninterp spec fn rfc3339_time(text: Seq<char>) -> Option<Timestamp>;

/// What `chrono::NaiveDateTime::parse_from_str` reads in a text under a
/// format, taken as a time in UTC.
pub uninterp spec fn naive_time(text: Seq<char>, format: Seq<char>) -> Option<Timestamp>;

/// What `chrono::DateTime::<Utc>::to_rfc3339` writes for a point in time.
pub uninterp spec fn utc_rfc3339(secs: int, nanos: int) -> Seq<char>;

/// What is written for the time that a text in RFC 3339 gives, moved back by
/// whole hours.
pub uninterp spec fn rfc3339_moved_back(text: Seq<char>, hours: int) -> Option<Seq<char>>;

/// Calls `chrono::Utc::now`. Nothing is said of the time it gives but that it
/// is no earlier than 1970 (the call fails where the clock is), that it can be
/// held, and that it is no leap second.
#[verifier::external_body]
pub(crate) fn utc_now() -> (r: Timestamp)
    ensures
        r.valid(),
        r.secs >= 0,
        r.nanos < NANOS_PER_SEC,
{
    let now = chrono::Utc::now();
    Timestamp { secs: now.timestamp(), nanos: now.timestamp_subsec_nanos() }
}

/// Calls `chrono::DateTime::parse_from_rfc3339`. The result is a function of
/// the text alone, and is a time that can be held.
#[verifier::external_body]
pub(crate) fn parse_rfc3339(s: &str) -> (r: Option<Timestamp>)
    ensures
        r == rfc3339_time(s@),
        r is Some ==> r->Some_0.valid(),
{
    let time = chrono::DateTime::parse_from_rfc3339(s).ok()?;
    Some(Timestamp { secs: time.timestamp(), nanos: time.timestamp_subsec_nanos() })
}

/// Calls `chrono::NaiveDateTime::parse_from_str` and takes what it reads as a
/// time in UTC. The result is a function of the text and the format alone, and
/// is a time that can be held.
#[verifier::external_body]
pub(crate) fn parse_naive(s: &str, format: &str) -> (r: Option<Timestamp>)
    ensures
        r == naive_time(s@, format@),
        r is Some ==> r->Some_0.valid(),
{
    let time = chrono::NaiveDateTime::parse_from_str(s, format).ok()?.and_utc();
    Some(Timestamp { secs: time.timestamp(), nanos: time.timestamp_subsec_nanos() })
}

/// Calls `chrono::DateTime::<Utc>::from_timestamp`, and `to_rfc3339` on what it
/// gives. There is a result just where `chrono` can hold the time.
#[verifier::external_body]
pub(crate) fn utc_text(secs: i64, nanos: u32) -> (r: Option<String>)
    ensures
        r is Some <==> holds(secs as int, nanos as int),
        r is Some ==> r->Some_0@ == utc_rfc3339(secs as int, nanos as int),
{
    chrono::DateTime::<chrono::Utc>::from_timestamp(secs, nanos).map(|t| t.to_rfc3339())
}

/// Whether `earlier` is written for the time that `text` is written for, less so
/// many hours. This is said of times that `to_rfc3339` writes, but for leap
/// seconds.
pub open spec fn written_back(text: Seq<char>, hours: int, earlier: Seq<char>) -> bool {
    forall|secs: int, nanos: int|
        text == #[trigger] utc_rfc3339(secs, nanos) && holds(secs, nanos) && nanos < NANOS_PER_SEC
            ==> earlier == utc_rfc3339(secs - 3_600 * hours, nanos)
}

/// Calls `chrono::DateTime::parse_from_rfc3339`, takes `hours` off what it
/// reads, and calls `to_rfc3339`. There is a result just where the text is
/// read: the years that it can give lie far inside those that can be held. A
/// time that `to_rfc3339` wrote in UTC comes out in UTC, so many hours before.
#[verifier::external_body]
pub(crate) fn moved_back(s: &str, hours: u8) -> (r: Option<String>)
    ensures
        crate::text::opt_text(r) == rfc3339_moved_back(s@, hours as int),
        r is Some <==> rfc3339_time(s@) is Some,
        r is Some ==> written_back(s@, hours as int, r->Some_0@),
{
    let time = chrono::DateTime::parse_from_rfc3339(s).ok()?;
    Some((time - chrono::Duration::hours(i64::from(hours))).to_rfc3339())
}

/// A reading of the clock that never runs back, which only `nanos_since` looks
/// into.
#[verifier::external_type_specification]
#[verifier::external_body]
pub struct ExInstant(std::time::Instant);

/// The most nanoseconds that a `std::time::Duration` can hold.
pub const LONGEST: u128 = 18_446_744_073_709_551_615_999_999_999;

/// Calls `std::time::Instant::now`.
#[verifier::external_body]
pub(crate) fn start_of_time() -> (r: std::time::Instant) {
    std::time::Instant::now()
}

/// Calls `std::time::Instant::elapsed`, in nanoseconds. Nothing is said of the
/// result but that a `Duration` holds it.
#[verifier::external_body]
pub(crate) fn nanos_since(start: &std::time::Instant) -> (r: u128)
    ensures
        r <= LONGEST,
{
    start.elapsed().as_nanos()
}

// ------------------------------------------------------------------------- laws

/// One point in time lies before another just where fewer nanoseconds have gone
/// by until then, leap seconds aside.
pub proof fn earlier_is_fewer_nanoseconds(a: Timestamp, b: Timestamp)
    requires
        a.nanos < 1_000_000_000,
        b.nanos < 1_000_000_000,
    ensures
        a.earlier(b) <==> a.secs * 1_000_000_000 + a.nanos < b.secs * 1_000_000_000 + b.nanos,
{
}

/// Whole seconds can be held from the start of the year -262143 to the end of
/// the year 262142, and no others.
pub proof fn whole_seconds_that_can_be_held(secs: int)
    ensures
        holds(secs, 0) <==> -8_334_601_228_800 <= secs <= 8_210_266_876_799,
{
}

} // verus!
