//! Points in time on the machine's monotonic clock.

use vstd::prelude::*;

verus! {

/// A point in time, in nanoseconds since an origin of the caller's choosing.
/// The origin stays the same for as long as a battery exists.
#[derive(Debug, Clone, Copy, PartialEq, Eq, PartialOrd, Ord, Hash, Structural)]
pub struct Moment {
    /// Nanoseconds since the origin.
    pub nanos: u128,
}

/// How long to wait, the way `struct timespec` wants it.
#[derive(Debug, Clone, Copy, PartialEq, Eq, Structural)]
pub struct Timeout {
    /// Whole seconds.
    pub secs: i64,
    /// Nanoseconds, fewer than a billion.
    pub nanos: i64,
}

impl Moment {
    /// The earlier of two moments.
    pub open spec fn earlier_of(self, other: Moment) -> Moment {
        if self.nanos <= other.nanos {
            self
        } else {
            other
        }
    }

    /// This moment, `delay` nanoseconds later.
    pub open spec fn plus(self, delay: u128) -> Moment {
        Moment { nanos: (self.nanos + delay) as u128 }
    }

    /// The nanoseconds from `earlier` to this moment, zero if it is past.
    pub open spec fn since(self, earlier: Moment) -> int {
        if self.nanos >= earlier.nanos {
            self.nanos - earlier.nanos
        } else {
            0
        }
    }

    /// The earlier of two moments.
    pub fn min(self, other: Moment) -> (earlier: Moment)
        ensures
            earlier == self.earlier_of(other),
    {
        if self.nanos <= other.nanos {
            self
        } else {
            other
        }
    }

    /// This moment, `delay` nanoseconds later.
    pub fn after(self, delay: u128) -> (later: Moment)
        requires
            self.nanos + delay <= u128::MAX,
        ensures
            later == self.plus(delay),
    {
        Moment { nanos: self.nanos + delay }
    }

    /// This moment, `delay` nanoseconds later, unless that is too late to be a
    /// point in time.
    pub fn checked_after(self, delay: u128) -> (later: Option<Moment>)
        ensures
            later == if self.nanos + delay <= u128::MAX {
                Some(self.plus(delay))
            } else {
                None
            },
    {
        match self.nanos.checked_add(delay) {
            Some(nanos) => Some(Moment { nanos }),
            None => None,
        }
    }
}

impl Timeout {
    /// `nanos` nanoseconds in whole seconds, at most the largest there are, and
    /// the nanoseconds left over.
    pub open spec fn of_nanos(nanos: int) -> Timeout {
        Timeout {
            secs: if nanos / 1_000_000_000 <= i64::MAX {
                (nanos / 1_000_000_000) as i64
            } else {
                i64::MAX
            },
            nanos: (nanos % 1_000_000_000) as i64,
        }
    }

    /// The wait from `now` until `until`, none if it is past.
    pub fn until(until: Moment, now: Moment) -> (timeout: Timeout)
        ensures
            timeout == Timeout::of_nanos(until.since(now)),
            0 <= timeout.nanos < 1_000_000_000,
    {
        let nanos: u128 = until.nanos.saturating_sub(now.nanos);
        let secs: u128 = nanos / 1_000_000_000;
        Timeout {
            secs: if secs <= i64::MAX as u128 {
                secs as i64
            } else {
                i64::MAX
            },
            nanos: (nanos % 1_000_000_000) as i64,
        }
    }
}

/// The earlier of two moments is one of them, and neither is before it.
pub proof fn law_the_earlier_moment(a: Moment, b: Moment)
    ensures
        a.earlier_of(b).nanos <= a.nanos,
        a.earlier_of(b).nanos <= b.nanos,
        a.earlier_of(b) == a || a.earlier_of(b) == b,
{
}

/// A moment and the time since an earlier one add up, both ways; there is no
/// time since a moment that is still to come.
pub proof fn law_time_adds_up(earlier: Moment, delay: u128, a: Moment, b: Moment)
    requires
        earlier.nanos + delay <= u128::MAX,
    ensures
        earlier.plus(delay).nanos == earlier.nanos + delay,
        earlier.plus(delay).since(earlier) == delay,
        a.nanos >= b.nanos ==> b.nanos + a.since(b) == a.nanos,
        a.nanos <= b.nanos ==> a.since(b) == 0,
{
}

/// A wait in seconds and nanoseconds is the wait that was asked for, to the
/// nanosecond, unless it has more seconds than there is room for; it is then as
/// long as can be.
pub proof fn law_a_timeout_is_exact(nanos: int)
    requires
        nanos >= 0,
    ensures
        ({
            let timeout = Timeout::of_nanos(nanos);
            &&& 0 <= timeout.secs
            &&& 0 <= timeout.nanos < 1_000_000_000
            &&& nanos < (i64::MAX + 1) * 1_000_000_000 ==> timeout.secs * 1_000_000_000
                + timeout.nanos == nanos
            &&& nanos >= (i64::MAX + 1) * 1_000_000_000 ==> timeout.secs == i64::MAX
                && timeout.nanos == nanos % 1_000_000_000
        }),
{
}

} // verus!
