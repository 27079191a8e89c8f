//! Time: points on the monotonic clock, and lengths of time in nanoseconds.

use vstd::prelude::*;

verus! {

/// Nanoseconds in a second.
pub const NANOS_PER_SEC: u64 = 1_000_000_000;

/// A point on the monotonic clock, in nanoseconds since the clock's origin, which is the
/// earliest point there is.
#[derive(Clone, Copy, PartialEq, Eq, Structural, Debug)]
pub struct Instant {
    pub nanos: u64,
}

/// `n / d` rounded to the nearest whole number, and to the even one from halfway.
pub open spec fn nearest(n: nat, d: nat) -> nat {
    let below = n / d;
    let rest = 2 * (n % d);
    if rest > d || (rest == d && below % 2 == 1) {
        below + 1
    } else {
        below
    }
}

/// The length of `count` ticks of a clock that ticks `rate` times a second, in nanoseconds.
pub open spec fn ticks(count: nat, rate: nat) -> nat {
    nearest(count * NANOS_PER_SEC as nat, rate)
}

impl Instant {
    /// The time from `earlier` to this instant, nothing where `earlier` comes later.
    pub open spec fn since(self, earlier: Instant) -> nat {
        if self.nanos >= earlier.nanos {
            (self.nanos - earlier.nanos) as nat
        } else {
            0
        }
    }

    /// The time from `earlier` to this instant, nothing where `earlier` comes later.
    pub fn duration_since(self, earlier: Instant) -> (d: u64)
        ensures
            d == self.since(earlier),
    {
        if self.nanos >= earlier.nanos {
            self.nanos - earlier.nanos
        } else {
            0
        }
    }

    /// The instant `d` nanoseconds earlier, unless that lies before the clock's origin.
    pub fn checked_sub(self, d: u64) -> (r: Option<Instant>)
        ensures
            r == if d <= self.nanos {
                Some(Instant { nanos: (self.nanos - d) as u64 })
            } else {
                None
            },
    {
        if d <= self.nanos {
            Some(Instant { nanos: self.nanos - d })
        } else {
            None
        }
    }
}

/// The length of `count` ticks at `rate` ticks a second, to the nearest nanosecond.
pub fn ticks_nanos(count: u32, rate: u32) -> (d: u64)
    requires
        rate > 0,
    ensures
        d == ticks(count as nat, rate as nat),
        d <= count * NANOS_PER_SEC,
{
    let n: u64 = count as u64 * NANOS_PER_SEC;
    let d: u64 = rate as u64;
    let below: u64 = n / d;
    let rest: u64 = 2 * (n % d);
    proof {
        assert(below <= n) by (nonlinear_arith)
            requires
                below == n / d,
                d >= 1,
        ;
        assert(n % d != 0 ==> below < n) by (nonlinear_arith)
            requires
                below == n / d,
                d >= 1,
        ;
    }
    if rest > d || (rest == d && below % 2 == 1) {
        below + 1
    } else {
        below
    }
}

/// The length of so many ticks is off by half a nanosecond at most.
pub proof fn law_ticks_are_nearest(count: nat, rate: nat)
    requires
        rate > 0,
    ensures
        2 * (ticks(count, rate) * rate) <= 2 * (count * 1_000_000_000) + rate,
        2 * (count * 1_000_000_000) <= 2 * (ticks(count, rate) * rate) + rate,
{
    let n = count * 1_000_000_000;
    let below = n / rate;
    assert(n == below * rate + n % rate && 0 <= n % rate < rate) by (nonlinear_arith)
        requires
            rate > 0,
            below == n / rate,
    ;
    assert((below + 1) * rate == below * rate + rate) by (nonlinear_arith);
}

/// Where the ticks make up a whole number of nanoseconds, their length is exact.
pub proof fn law_whole_ticks_are_exact(count: nat, rate: nat, nanos: nat)
    requires
        rate > 0,
        count * 1_000_000_000 == nanos * rate,
    ensures
        ticks(count, rate) == nanos,
{
    assert(nanos * rate / rate == nanos && (nanos * rate) % rate == 0) by (nonlinear_arith)
        requires
            rate > 0,
    ;
}

/// The time between two instants leads from the one back to the other.
pub proof fn law_time_adds_up(earlier: Instant, later: Instant)
    ensures
        earlier.nanos <= later.nanos ==> earlier.nanos + later.since(earlier) == later.nanos,
        earlier.nanos >= later.nanos ==> later.since(earlier) == 0,
{
}

} // verus!
