//! Monotonic and wall-clock time.
use vstd::prelude::*;

verus! {

/// A monotonic instant: nanoseconds since an origin fixed at process start.
#[derive(Clone, Copy, PartialEq, Eq, Structural, Debug)]
pub struct Tick {
    pub nanos: u64,
}

/// Nanoseconds in a second.
pub const NANOS_PER_SECOND: u64 = 1_000_000_000;

impl Tick {
    /// Nanoseconds from an earlier instant to this one; zero if the other is later.
    pub open spec fn since(self, earlier: Tick) -> int {
        if self.nanos >= earlier.nanos {
            self.nanos - earlier.nanos
        } else {
            0
        }
    }

    /// Nanoseconds from an earlier instant to this one; zero if the other is later.
    pub fn saturating_since(&self, earlier: &Tick) -> (nanos: u64)
        ensures
            nanos == self.since(*earlier),
    {
        if self.nanos >= earlier.nanos {
            self.nanos - earlier.nanos
        } else {
            0
        }
    }

    /// The instant was seen less than the given number of seconds before this one.
    pub open spec fn within(self, seen: Option<Tick>, seconds: int) -> bool {
        seen matches Some(at) && self.since(at) < seconds * NANOS_PER_SECOND
    }

    /// Whether the instant was seen less than the given number of seconds before this one.
    pub fn seen_within(&self, seen: Option<Tick>, seconds: u32) -> (recent: bool)
        ensures
            recent == self.within(seen, seconds as int),
    {
        match seen {
            Some(at) => self.saturating_since(&at) < (seconds as u64) * NANOS_PER_SECOND,
            None => false,
        }
    }
}

/// Whole seconds from an instant that was seen to now.
pub fn instant_age_seconds(now: Tick, seen: Option<Tick>) -> (age: Option<u64>)
    ensures
        age == match seen {
            Some(at) => Some((now.since(at) / NANOS_PER_SECOND as int) as u64),
            None => None,
        },
{
    match seen {
        Some(at) => Some(now.saturating_since(&at) / NANOS_PER_SECOND),
        None => None,
    }
}

/// The later of two instants that may not have been seen; not seen is earliest.
pub open spec fn later(a: Option<Tick>, b: Option<Tick>) -> Option<Tick> {
    match (a, b) {
        (Some(x), Some(y)) => if y.nanos > x.nanos {
            b
        } else {
            a
        },
        (None, _) => b,
        (_, None) => a,
    }
}

/// The later of two instants that may not have been seen; not seen is earliest.
pub fn later_of(a: Option<Tick>, b: Option<Tick>) -> (latest: Option<Tick>)
    ensures
        latest == later(a, b),
{
    match (a, b) {
        (Some(x), Some(y)) => if y.nanos > x.nanos {
            b
        } else {
            a
        },
        (None, _) => b,
        (_, None) => a,
    }
}

/// Whole seconds since the Unix epoch as `std::time::SystemTime::now` and
/// `std::time::SystemTime::duration_since` report them, `None` where the clock stands before the
/// epoch. Nothing is claimed of the value: it is whatever the machine's clock says.
#[verifier::external_body]
fn epoch_seconds() -> (seconds: Option<u64>) {
    std::time::SystemTime::now().duration_since(std::time::UNIX_EPOCH).map(|d| d.as_secs()).ok()
}

/// A clock reading in whole seconds since the Unix epoch, zero where the clock stands before it.
pub fn epoch_or_zero(reading: Option<u64>) -> (seconds: u64)
    ensures
        seconds == reading.unwrap_or(0),
{
    match reading {
        Some(seconds) => seconds,
        None => 0,
    }
}

/// Wall-clock seconds since the Unix epoch, zero where the clock stands before it.
pub fn now() -> (seconds: u64) {
    epoch_or_zero(epoch_seconds())
}

/// An instant was seen within some seconds where less than that passed since; one that was not
/// seen, was not.
pub proof fn being_seen_wears_off(now: Tick, at: Tick, seconds: int)
    requires
        seconds > 0,
    ensures
        now.within(Some(at), seconds) == (now.nanos < at.nanos + seconds * 1_000_000_000),
        !now.within(None, seconds),
        now.since(at) == (if now.nanos >= at.nanos {
            now.nanos - at.nanos
        } else {
            0
        }),
{
}

/// The later of two instants is one of them and no earlier than either; one that was not seen
/// counts for nothing.
pub proof fn the_later_instant_counts(a: Option<Tick>, b: Option<Tick>)
    ensures
        later(a, b) == a || later(a, b) == b,
        a matches Some(x) ==> (later(a, b) matches Some(z) && z.nanos >= x.nanos),
        b matches Some(y) ==> (later(a, b) matches Some(z) && z.nanos >= y.nanos),
        a.is_none() && b.is_none() ==> later(a, b).is_none(),
{
}

} // verus!
