//! Points in time, and where the current one comes from.
//!
//! An instant is a whole number of Unix seconds plus a sub-second count of
//! nanoseconds. Session expiry compares instants; access tokens carry the whole
//! seconds.
use vstd::prelude::*;

verus! {

/// Nanoseconds in one second.
pub const NANOS_PER_SEC: u32 = 1_000_000_000u32;

/// An instant in UTC: `unix_secs` whole seconds since the Unix epoch plus
/// `subsec_nanos` nanoseconds, with `subsec_nanos` below one second.
#[derive(Clone, Copy, Debug)]
pub struct Timestamp {
    unix_secs: i64,
    subsec_nanos: u32,
}

impl Timestamp {
    #[verifier::type_invariant]
    spec fn normalized(self) -> bool {
        self.subsec_nanos < NANOS_PER_SEC
    }

    /// Whole Unix seconds of this instant (rounded towards the past).
    pub closed spec fn secs(self) -> int {
        self.unix_secs as int
    }

    /// Nanoseconds past `secs()`, below one second.
    pub closed spec fn subsec(self) -> int {
        self.subsec_nanos as int
    }

    /// The instant as nanoseconds since the Unix epoch.
    pub open spec fn nanos(self) -> int {
        self.secs() * 1_000_000_000 + self.subsec()
    }

    /// Builds the instant `unix_secs` seconds and `subsec_nanos` nanoseconds after the
    /// epoch; `None` when `subsec_nanos` is a whole second or more.
    pub fn from_unix(unix_secs: i64, subsec_nanos: u32) -> (r: Option<Timestamp>)
        ensures
            subsec_nanos < NANOS_PER_SEC <==> r is Some,
            r matches Some(t) ==> t.secs() == unix_secs && t.subsec() == subsec_nanos,
    {
        if subsec_nanos < NANOS_PER_SEC {
            Some(Timestamp { unix_secs, subsec_nanos })
        } else {
            None
        }
    }

    /// The Unix timestamp in whole seconds.
    pub fn unix_timestamp(&self) -> (r: i64)
        ensures
            r == self.secs(),
    {
        self.unix_secs
    }

    /// The nanoseconds past the whole second.
    pub fn nanosecond(&self) -> (r: u32)
        ensures
            r == self.subsec(),
            r < NANOS_PER_SEC,
    {
        proof {
            use_type_invariant(self);
        }
        self.subsec_nanos
    }

    /// Whether `self` lies strictly after `other`.
    pub fn is_after(&self, other: &Timestamp) -> (r: bool)
        ensures
            r == (self.nanos() > other.nanos()),
    {
        proof {
            use_type_invariant(self);
            use_type_invariant(other);
        }
        self.unix_secs > other.unix_secs || (self.unix_secs == other.unix_secs
            && self.subsec_nanos > other.subsec_nanos)
    }

    /// The instant `secs` seconds later (earlier when negative); `None` when the whole
    /// seconds leave the range of `i64`.
    pub fn checked_add_seconds(&self, secs: i64) -> (r: Option<Timestamp>)
        ensures
            (i64::MIN <= self.secs() + secs <= i64::MAX) <==> r is Some,
            r matches Some(t) ==> t.secs() == self.secs() + secs && t.subsec() == self.subsec(),
            r matches Some(t) ==> t.nanos() == self.nanos() + secs * 1_000_000_000,
    {
        proof {
            use_type_invariant(self);
        }
        match self.unix_secs.checked_add(secs) {
            Some(s) => Some(Timestamp { unix_secs: s, subsec_nanos: self.subsec_nanos }),
            None => None,
        }
    }
}

/// The instant lies within the years that the `time` crate can represent
/// (at most ±999,999), so within ±4·10^13 seconds of the Unix epoch.
pub open spec fn clock_range(t: Timestamp) -> bool {
    -40_000_000_000_000 <= t.secs() <= 40_000_000_000_000
}

/// A lifetime of at most ±9·10^18 seconds: added to an instant of the clock's
/// range, it stays within the range of instants.
pub open spec fn lifetime_fits(ttl_secs: i64) -> bool {
    -9_000_000_000_000_000_000 <= ttl_secs <= 9_000_000_000_000_000_000
}

/// Reads the system clock, in UTC.
///
/// Trusted: calls `time::OffsetDateTime::now_utc` and takes its `unix_timestamp`
/// and `nanosecond`. The value depends on the clock; what is claimed is what the
/// crate's types bound: `nanosecond` lies in `0..=999_999_999` (the type's
/// invariant records it), and the year lies within `MIN_YEAR..=MAX_YEAR`
/// (±9,999, or ±999,999 with the `large-dates` feature), so the Unix time is
/// within `clock_range`.
#[verifier::external_body]
pub fn now_utc() -> (r: Timestamp)
    ensures
        clock_range(r),
{
    let t = time::OffsetDateTime::now_utc();
    Timestamp { unix_secs: t.unix_timestamp(), subsec_nanos: t.nanosecond() }
}

/// Source of the current instant, for code that wants time to be injectable:
/// tests may supply a fixed clock to check expiry without waiting.
pub trait Clock {
    fn now(&self) -> Timestamp;
}

/// The system's UTC clock.
pub struct SystemClock;

impl Clock for SystemClock {
    fn now(&self) -> Timestamp {
        now_utc()
    }
}

} // verus!
