//! Points in time, and the time that lies between two of them.

use vstd::prelude::*;

verus! {

/// The first second that a `Timestamp` can lie in: January 1 of the year -262143.
pub const MIN_SECS: i64 = -8_334_601_228_800;

/// The last second that a `Timestamp` can lie in: December 31 of the year 262142.
pub const MAX_SECS: i64 = 8_210_266_876_799;

/// Nanoseconds in a second.
pub const NANOS_PER_SEC: u32 = 1_000_000_000;

/// A point in time in UTC: the seconds since the Unix epoch, without leap seconds,
/// and the nanoseconds since the start of that second.
///
/// During a leap second the nanoseconds go on counting past a full second.
#[derive(Clone, Copy, Debug, PartialEq, Eq, Structural)]
pub struct Timestamp {
    secs: i64,
    nanos: u32,
}

/// The seconds and the nanoseconds.
impl View for Timestamp {
    type V = (int, int);

    closed spec fn view(&self) -> (int, int) {
        (self.secs as int, self.nanos as int)
    }
}

/// Whether a calendar date in the supported range holds this point in time: a second
/// in range, and nanoseconds that exceed a second only where a leap second can be.
pub open spec fn representable(secs: int, nanos: int) -> bool {
    &&& MIN_SECS <= secs <= MAX_SECS
    &&& 0 <= nanos < 2 * NANOS_PER_SEC
    &&& nanos >= NANOS_PER_SEC ==> secs % 60 == 59
}

/// The leap seconds that the time of day of `later` and `earlier` makes known: one that
/// `earlier` lies in and that has passed, less one that `later` lies in and whose time
/// of day comes before that of `earlier`.
pub open spec fn leap_seconds(later: (int, int), earlier: (int, int)) -> int {
    if later.0 % 86_400 > earlier.0 % 86_400 && earlier.1 >= NANOS_PER_SEC {
        1
    } else if later.0 % 86_400 < earlier.0 % 86_400 && later.1 >= NANOS_PER_SEC {
        -1
    } else {
        0
    }
}

/// The nanoseconds from `earlier` to `later`; negative where `later` comes first.
pub open spec fn elapsed_nanos(later: (int, int), earlier: (int, int)) -> int {
    (later.0 - earlier.0 + leap_seconds(later, earlier)) * NANOS_PER_SEC + later.1 - earlier.1
}

impl Timestamp {
    /// Every timestamp is a representable point in time.
    #[verifier::type_invariant]
    pub closed spec fn valid(self) -> bool {
        representable(self.secs as int, self.nanos as int)
    }

    /// The timestamp that lies `nanos` nanoseconds after `secs` seconds since the Unix
    /// epoch, or `None` where that is not representable.
    pub fn from_timestamp(secs: i64, nanos: u32) -> (timestamp: Option<Timestamp>)
        ensures
            timestamp is Some <==> representable(secs as int, nanos as int),
            timestamp matches Some(t) ==> t@ == (secs as int, nanos as int),
    {
        if secs < MIN_SECS || secs > MAX_SECS || nanos >= 2 * NANOS_PER_SEC {
            return None;
        }
        // `MIN_SECS` falls on a full minute, so counting from it keeps the remainder
        // and leaves nothing negative to divide.
        if nanos >= NANOS_PER_SEC && (secs - MIN_SECS) % 60 != 59 {
            return None;
        }
        Some(Timestamp { secs, nanos })
    }

    /// The Unix epoch.
    pub fn unix_epoch() -> (timestamp: Timestamp)
        ensures
            timestamp@ == (0int, 0int),
    {
        Timestamp { secs: 0, nanos: 0 }
    }

    /// The seconds since the Unix epoch.
    pub fn timestamp(&self) -> (secs: i64)
        ensures
            secs == self@.0,
    {
        self.secs
    }

    /// The nanoseconds since the start of the second.
    pub fn timestamp_subsec_nanos(&self) -> (nanos: u32)
        ensures
            nanos == self@.1,
    {
        self.nanos
    }
}

/// The time from `earlier` to `later`, in seconds and the nanoseconds that are left.
///
/// Makes the two points in time with `chrono::DateTime::<Utc>::from_timestamp`, which
/// has a date for every representable one, and subtracts them with the operator `-` of
/// `chrono::DateTime`. What the `TimeDelta` holds is read with `num_seconds` and
/// `subsec_nanos`, which together are the whole of it.
#[verifier::external_body]
fn signed_duration_since(later: &Timestamp, earlier: &Timestamp) -> (delta: (i64, i32))
    requires
        later.valid(),
        earlier.valid(),
    ensures
        delta.0 * NANOS_PER_SEC + delta.1 == elapsed_nanos(later@, earlier@),
{
    let later_utc = chrono::DateTime::<chrono::Utc>::from_timestamp(later.secs, later.nanos).unwrap();
    let earlier_utc = chrono::DateTime::<chrono::Utc>::from_timestamp(earlier.secs, earlier.nanos).unwrap();
    let delta = later_utc - earlier_utc;
    (delta.num_seconds(), delta.subsec_nanos())
}

/// Whether at least `interval_sec` seconds lie between `earlier` and `later`.
pub fn has_elapsed(later: &Timestamp, earlier: &Timestamp, interval_sec: u32) -> (elapsed: bool)
    ensures
        elapsed == (elapsed_nanos(later@, earlier@) >= interval_sec * NANOS_PER_SEC),
{
    proof {
        use_type_invariant(later);
        use_type_invariant(earlier);
    }
    let (secs, nanos) = signed_duration_since(later, earlier);
    let delta_nanos: i128 = secs as i128 * NANOS_PER_SEC as i128 + nanos as i128;
    delta_nanos >= interval_sec as i128 * NANOS_PER_SEC as i128
}

} // verus!
