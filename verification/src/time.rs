//! Points in time, as the catalog records and compares them.

use vstd::prelude::*;

verus! {

/// The first second of the calendar.
pub const MIN_SECONDS: i64 = -8_334_601_228_800;

/// The last second of the calendar.
pub const MAX_SECONDS: i64 = 8_210_266_876_799;

/// Nanoseconds in a second.
pub const NANOS_PER_SECOND: u32 = 1_000_000_000;

/// A wall-clock time in UTC, to the nanosecond.
///
/// A leap second is the second half of the nanosecond range of the last second
/// of its minute.
#[derive(Debug, Clone, Copy, PartialEq, Eq)]
pub struct Timestamp {
    seconds: i64,
    nanos: u32,
}

/// Whether the calendar has this second and nanosecond.
pub open spec fn on_calendar(seconds: i64, nanos: u32) -> bool {
    &&& MIN_SECONDS <= seconds <= MAX_SECONDS
    &&& nanos < 2 * NANOS_PER_SECOND
    &&& nanos >= NANOS_PER_SECOND ==> (seconds as int) % 60 == 59
}

impl Timestamp {
    /// Seconds since the epoch.
    pub closed spec fn seconds(self) -> i64 {
        self.seconds
    }

    /// Nanoseconds since that second began.
    pub closed spec fn nanos(self) -> u32 {
        self.nanos
    }

    /// The instant lies on the calendar.
    #[verifier::type_invariant]
    pub closed spec fn wf(self) -> bool {
        on_calendar(self.seconds, self.nanos)
    }

    /// Whole microseconds since the epoch.
    pub open spec fn micros(self) -> int {
        self.seconds() * 1_000_000 + self.nanos() as int / 1_000
    }

    /// Whether this instant comes strictly before the other.
    pub open spec fn before(self, other: Timestamp) -> bool {
        self.seconds() < other.seconds() || (self.seconds() == other.seconds() && self.nanos()
            < other.nanos())
    }

    /// Builds the instant `nanos` after `seconds`, if the calendar has it.
    pub fn new(seconds: i64, nanos: u32) -> (instant: Option<Timestamp>)
        ensures
            instant is Some <==> on_calendar(seconds, nanos),
            instant matches Some(at) ==> at.seconds() == seconds && at.nanos() == nanos,
    {
        if seconds < MIN_SECONDS || seconds > MAX_SECONDS {
            return None;
        }
        if nanos >= 2_000_000_000 {
            return None;
        }
        // Shifted by whole minutes to be non-negative before the remainder is taken.
        if nanos >= NANOS_PER_SECOND && (seconds + 8_334_601_228_800) % 60 != 59 {
            return None;
        }
        Some(Timestamp { seconds, nanos })
    }

    /// Returns the seconds since the epoch.
    pub fn unix_seconds(&self) -> (seconds: i64)
        ensures
            seconds == self.seconds(),
    {
        self.seconds
    }

    /// Returns the nanoseconds since that second began.
    pub fn subsec_nanos(&self) -> (nanos: u32)
        ensures
            nanos == self.nanos(),
    {
        self.nanos
    }

    /// Returns the whole microseconds since the epoch.
    pub fn timestamp_micros(&self) -> (micros: i64)
        ensures
            micros == self.micros(),
    {
        proof {
            use_type_invariant(self);
        }
        utc_micros(self.seconds, self.nanos)
    }

    /// Returns whether this instant comes strictly before the other.
    pub fn is_before(&self, other: &Timestamp) -> (before: bool)
        ensures
            before == self.before(*other),
    {
        self.seconds < other.seconds || (self.seconds == other.seconds && self.nanos < other.nanos)
    }

    /// Returns the instant whole days later, if the calendar reaches that far.
    pub fn plus_days(&self, days: u32) -> (later: Option<Timestamp>)
        ensures
            later is Some <==> self.seconds() + days * 86_400 <= MAX_SECONDS,
            later matches Some(at) ==> {
                &&& at.seconds() == self.seconds() + days * 86_400
                &&& at.nanos() == self.nanos()
            },
    {
        proof {
            use_type_invariant(self);
        }
        let seconds: i64 = self.seconds + days as i64 * 86_400;
        if seconds > MAX_SECONDS {
            None
        } else {
            Some(Timestamp { seconds, nanos: self.nanos })
        }
    }
}

/// An instant on the calendar has a count of microseconds that fits 64 bits.
pub proof fn lemma_micros_fit(at: Timestamp)
    requires
        at.wf(),
    ensures
        i64::MIN <= at.micros() <= i64::MAX,
{
}

/// Calls `chrono`'s `DateTime::<Utc>::from_timestamp` and `timestamp_micros` on
/// what it builds.
///
/// An instant on the calendar is accepted, and its count of microseconds is
/// the seconds in microseconds plus the whole microseconds of the nanosecond
/// part.
#[verifier::external_body]
fn utc_micros(seconds: i64, nanos: u32) -> (micros: i64)
    requires
        on_calendar(seconds, nanos),
    ensures
        micros == seconds * 1_000_000 + nanos as int / 1_000,
{
    chrono::DateTime::<chrono::Utc>::from_timestamp(seconds, nanos).unwrap().timestamp_micros()
}

/// Calls `chrono`'s `Duration::seconds` and `num_microseconds` on what it
/// builds.
///
/// A number of seconds that fits 32 bits is within range for both, and comes
/// out in microseconds.
#[verifier::external_body]
pub(crate) fn duration_micros(seconds: u32) -> (micros: Option<i64>)
    ensures
        micros == Some((seconds * 1_000_000) as i64),
{
    chrono::Duration::seconds(i64::from(seconds)).num_microseconds()
}

/// Instants come in one strict order: by the second, and within a second by the
/// nanosecond.
pub proof fn law_time_is_strictly_ordered(a: Timestamp, b: Timestamp, c: Timestamp)
    ensures
        a.seconds() > b.seconds() ==> !a.before(b),
        a.seconds() < b.seconds() ==> a.before(b),
        a.seconds() == b.seconds() && a.nanos() >= b.nanos() ==> !a.before(b),
        a.seconds() == b.seconds() && a.nanos() < b.nanos() ==> a.before(b),
        !(a.before(b) && b.before(a)),
        a.before(b) && b.before(c) ==> a.before(c),
        a.before(b) || b.before(a) || a == b,
{
}

/// The count of microseconds is that of the nanoseconds since the epoch, rounded
/// down.
pub proof fn law_microseconds_round_down(at: Timestamp)
    ensures
        at.micros() * 1_000 <= at.seconds() * 1_000_000_000 + at.nanos(),
        at.seconds() * 1_000_000_000 + at.nanos() < (at.micros() + 1) * 1_000,
{
}

/// The calendar runs from the first second of the year 262144 before the common
/// era to the last of 262142, has every nanosecond of these seconds, and a leap
/// second at the end of any minute.
pub proof fn law_calendar_has_these_instants(seconds: i64, nanos: u32)
    ensures
        seconds < -8_334_601_228_800 ==> !on_calendar(seconds, nanos),
        seconds > 8_210_266_876_799 ==> !on_calendar(seconds, nanos),
        -8_334_601_228_800 <= seconds <= 8_210_266_876_799 && nanos < 1_000_000_000 ==> on_calendar(
            seconds,
            nanos,
        ),
        -8_334_601_228_800 <= seconds <= 8_210_266_876_799 && 1_000_000_000 <= nanos
            < 2_000_000_000 ==> (on_calendar(seconds, nanos) <==> (seconds + 1) % 60 == 0),
        nanos >= 2_000_000_000 ==> !on_calendar(seconds, nanos),
{
}

} // verus!
