//! Points in time (UTC), as seconds and nanoseconds since the Unix epoch.
use vstd::prelude::*;

verus! {

/// Seconds and nanoseconds since 1970-01-01T00:00:00Z.  `nanos` may exceed
/// 999_999_999 only to represent a leap second, as in `chrono`.
#[derive(Clone, Copy, Debug, PartialEq, Eq, Structural)]
pub struct Timestamp {
    pub secs: i64,
    pub nanos: u32,
}

/// `a` is no later than `b` (the order of `chrono::DateTime<Utc>`).
pub open spec fn ts_le(a: Timestamp, b: Timestamp) -> bool {
    a.secs < b.secs || (a.secs == b.secs && a.nanos <= b.nanos)
}

/// Bound on `|secs|` of any instant `chrono` represents (about 262,000 years).
pub const MAX_TIMESTAMP_SECS: i64 = 8_300_000_000_000i64;

impl Timestamp {
    /// `self <= other`.
    pub fn le(&self, other: &Timestamp) -> (b: bool)
        ensures
            b == ts_le(*self, *other),
    {
        self.secs < other.secs || (self.secs == other.secs && self.nanos <= other.nanos)
    }

    /// The instant `seconds` later.
    pub fn plus_seconds(&self, seconds: i64) -> (t: Timestamp)
        requires
            i64::MIN <= self.secs + seconds <= i64::MAX,
        ensures
            t.secs == self.secs + seconds,
            t.nanos == self.nanos,
    {
        Timestamp { secs: self.secs + seconds, nanos: self.nanos }
    }

    /// Milliseconds since the epoch, as `chrono::DateTime::timestamp_millis` computes them.
    pub open spec fn spec_millis(self) -> int {
        self.secs * 1000 + self.nanos / 1_000_000
    }

    /// Lies in the range of instants `chrono` represents.
    pub open spec fn in_range(self) -> bool {
        -MAX_TIMESTAMP_SECS <= self.secs <= MAX_TIMESTAMP_SECS && self.nanos < 2_000_000_000
    }

    /// Milliseconds since the epoch (`timestamp_millis`).
    pub fn millis(&self) -> (ms: i64)
        requires
            -9_000_000_000_000_000 <= self.secs <= 9_000_000_000_000_000,
            self.nanos < 2_000_000_000,
        ensures
            ms == self.spec_millis(),
    {
        self.secs * 1000 + (self.nanos / 1_000_000) as i64
    }
}

/// The current time: `chrono::Utc::now()`.  Of every outcome the contract
/// states only that it lies in the range `chrono` represents.
#[verifier::external_body]
pub(crate) fn now() -> (t: Timestamp)
    ensures
        -MAX_TIMESTAMP_SECS <= t.secs <= MAX_TIMESTAMP_SECS,
        t.nanos < 2_000_000_000,
{
    let n = chrono::Utc::now();
    Timestamp { secs: n.timestamp(), nanos: n.timestamp_subsec_nanos() }
}

/// Whether `chrono` represents the instant `ms` milliseconds after the epoch
/// (`Utc.timestamp_millis_opt(ms)` is a single instant).
pub uninterp spec fn chrono_millis_ok(ms: int) -> bool;

/// The instant `ms` milliseconds after the epoch: seconds and nanoseconds by
/// Euclidean division, so that the nanoseconds are never negative.
pub open spec fn millis_instant(ms: int) -> Timestamp {
    Timestamp { secs: (ms / 1000) as i64, nanos: ((ms % 1000) * 1_000_000) as u32 }
}

/// `chrono::Utc.timestamp_millis_opt(ms).single()`: the instant `ms`
/// milliseconds after the epoch, where `chrono` represents it, which it does
/// for every `ms` within about 250,000 years of the epoch.
#[verifier::external_body]
pub(crate) fn from_millis(ms: i64) -> (t: Option<Timestamp>)
    ensures
        t is Some <==> chrono_millis_ok(ms as int),
        t is Some ==> t->0 == millis_instant(ms as int),
        -8_000_000_000_000_000 <= ms <= 8_000_000_000_000_000 ==> t is Some,
{
    match chrono::TimeZone::timestamp_millis_opt(&chrono::Utc, ms).single() {
        Some(d) => Some(Timestamp { secs: d.timestamp(), nanos: d.timestamp_subsec_nanos() }),
        None => None,
    }
}

/// The instant an RFC 3339 date-time names (`chrono`'s `parse_from_rfc3339`,
/// taken to UTC), as seconds and nanoseconds since the epoch.
pub uninterp spec fn rfc3339_instant(s: Seq<char>) -> Option<(int, int)>;

/// `chrono::DateTime::parse_from_rfc3339(s)`, converted to UTC.
#[verifier::external_body]
pub(crate) fn parse_rfc3339(s: &str) -> (t: Option<Timestamp>)
    ensures
        match rfc3339_instant(s@) {
            Some(p) => t is Some && t->0.secs == p.0 && t->0.nanos == p.1,
            None => t is None,
        },
{
    match chrono::DateTime::parse_from_rfc3339(s) {
        Ok(d) => Some(Timestamp { secs: d.timestamp(), nanos: d.timestamp_subsec_nanos() }),
        Err(_) => None,
    }
}

} // verus!
