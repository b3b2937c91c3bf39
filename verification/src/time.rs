use vstd::prelude::*;

verus! {

/// The earliest instant that chrono's `DateTime<Utc>` can hold, in seconds
/// since the Unix epoch (January 1 of the year -262143, 00:00:00).
pub const MIN_TIMESTAMP: i64 = -8334601228800;

/// The latest whole second that chrono's `DateTime<Utc>` can hold, in seconds
/// since the Unix epoch (December 31 of the year 262142, 23:59:59).
pub const MAX_TIMESTAMP: i64 = 8210266876799;

/// An instant in UTC, held as chrono holds a `DateTime<Utc>`: the seconds
/// since the Unix epoch and the nanoseconds into that second (at or above a
/// billion only within a leap second).
#[derive(Clone, Copy, Debug, PartialEq, Eq, Structural)]
pub struct UtcTime {
    pub secs: i64,
    pub nanos: u32,
}

impl UtcTime {
    /// The instant can be held by a `DateTime<Utc>` and is not a leap second.
    pub open spec fn is_valid(self) -> bool {
        &&& MIN_TIMESTAMP <= self.secs <= MAX_TIMESTAMP
        &&& self.nanos < 1_000_000_000
    }

    /// `self` is at or before `other`, in the order of `DateTime<Utc>`.
    pub open spec fn spec_at_or_before(self, other: UtcTime) -> bool {
        self.secs < other.secs || (self.secs == other.secs && self.nanos <= other.nanos)
    }

    /// The instant `seconds` seconds after `self`.
    pub open spec fn plus_seconds(self, seconds: int) -> UtcTime {
        UtcTime { secs: (self.secs + seconds) as i64, nanos: self.nanos }
    }

    /// Whether `self` is at or before `other`.
    pub fn at_or_before(&self, other: &UtcTime) -> (r: bool)
        ensures
            r == self.spec_at_or_before(*other),
    {
        self.secs < other.secs || (self.secs == other.secs && self.nanos <= other.nanos)
    }
}

/// The current time; trusted wrapper around chrono's `Utc::now`, which reads
/// the system clock (and panics for a clock before the Unix epoch). Nothing
/// ties the result to a particular moment: only that chrono can hold it and
/// that it is not a leap second, as `Utc::now` builds it from a
/// `Duration` since the epoch.
#[verifier::external_body]
pub(crate) fn utc_now() -> (now: UtcTime)
    ensures
        now.is_valid(),
{
    let now = chrono::Utc::now();
    UtcTime { secs: now.timestamp(), nanos: now.timestamp_subsec_nanos() }
}

/// `time` moved `seconds` seconds later, or `None` where chrono cannot hold
/// the start or the result; trusted wrapper around chrono's
/// `DateTime::checked_add_signed` with a `TimeDelta` of whole seconds. Outside
/// a leap second, adding whole seconds keeps the nanoseconds.
#[verifier::external_body]
pub(crate) fn checked_add_seconds(time: UtcTime, seconds: u32) -> (r: Option<UtcTime>)
    requires
        time.nanos < 1_000_000_000,
    ensures
        r is Some <==> (MIN_TIMESTAMP <= time.secs && time.secs + seconds <= MAX_TIMESTAMP),
        r matches Some(later) ==> later == time.plus_seconds(seconds as int),
{
    let start = chrono::DateTime::from_timestamp(time.secs, time.nanos)?;
    let end = start.checked_add_signed(chrono::TimeDelta::seconds(i64::from(seconds)))?;
    Some(UtcTime { secs: end.timestamp(), nanos: end.timestamp_subsec_nanos() })
}

/// The instant `secs` seconds after the Unix epoch, or `None` where chrono
/// cannot hold it; trusted wrapper around chrono's
/// `DateTime::from_timestamp_secs`.
#[verifier::external_body]
pub(crate) fn from_timestamp_secs(secs: i64) -> (r: Option<UtcTime>)
    ensures
        r is Some <==> MIN_TIMESTAMP <= secs <= MAX_TIMESTAMP,
        r matches Some(time) ==> time.secs == secs && time.nanos == 0,
{
    let time = chrono::DateTime::from_timestamp_secs(secs)?;
    Some(UtcTime { secs: time.timestamp(), nanos: time.timestamp_subsec_nanos() })
}

} // verus!
