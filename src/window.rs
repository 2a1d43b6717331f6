//! The counter/period model: which window an instant falls in, how long it
//! has left, and where each window starts.
use vstd::prelude::*;

verus! {

/// Nanoseconds in one second.
pub const NANOS_PER_SEC: u32 = 1_000_000_000;

/// A rotation interval, a whole positive number of seconds.
#[derive(Clone, Copy, Debug, PartialEq, Eq, Structural, PartialOrd, Ord, Hash)]
pub struct Period {
    secs: u64,
}

impl Period {
    #[verifier::type_invariant]
    spec fn positive(&self) -> bool {
        self.secs > 0
    }

    /// The length of the period in seconds.
    pub closed spec fn seconds(&self) -> nat {
        self.secs as nat
    }

    /// Two periods of the same length are the same period.
    pub proof fn lemma_same_length(a: Period, b: Period)
        ensures
            a.seconds() == b.seconds() ==> a == b,
    {
    }

    /// A period of `secs` seconds; `None` for zero.
    pub fn new(secs: u64) -> (r: Option<Period>)
        ensures
            secs == 0 <==> r.is_none(),
            r matches Some(p) ==> p.seconds() == secs,
    {
        if secs == 0 {
            None
        } else {
            Some(Period { secs })
        }
    }

    /// The canonical thirty-second period.
    pub fn seconds30() -> (r: Period)
        ensures
            r.seconds() == 30,
    {
        Period { secs: 30 }
    }

    /// The length of the period in seconds.
    pub fn as_secs(&self) -> (r: u64)
        ensures
            r == self.seconds(),
            r > 0,
    {
        proof {
            use_type_invariant(self);
        }
        self.secs
    }
}

/// A wall-clock instant: whole seconds since the Unix epoch and the
/// nanoseconds past that second.
#[derive(Clone, Copy, Debug, PartialEq, Eq, Structural)]
pub struct Instant {
    pub secs: u64,
    pub nanos: u32,
}

/// A length of time: whole seconds and the nanoseconds past them.
#[derive(Clone, Copy, Debug, PartialEq, Eq, Structural)]
pub struct TimeSpan {
    pub secs: u64,
    pub nanos: u32,
}

impl Instant {
    pub open spec fn wf(&self) -> bool {
        self.nanos < NANOS_PER_SEC
    }

    /// Nanoseconds since the epoch.
    pub open spec fn view(&self) -> int {
        self.secs * NANOS_PER_SEC + self.nanos
    }
}

impl TimeSpan {
    pub open spec fn wf(&self) -> bool {
        self.nanos < NANOS_PER_SEC
    }

    /// The length in nanoseconds.
    pub open spec fn view(&self) -> int {
        self.secs * NANOS_PER_SEC + self.nanos
    }
}

/// The index of a rotation window: `floor(unix_time / period)`.
#[derive(Clone, Copy, Debug, PartialEq, Eq, Structural)]
pub struct Counter {
    pub value: u64,
}

/// The counter of the window of `period` that holds `t`.
pub open spec fn counter_at(period: Period, t: Instant) -> nat {
    t.secs as nat / period.seconds()
}

/// The first instant, in nanoseconds, of window `c` of `period`.
pub open spec fn window_start_nanos(period: Period, c: nat) -> int {
    c * period.seconds() * NANOS_PER_SEC
}

/// How long `t` is before the end of its window, in nanoseconds.
pub open spec fn remaining_at(period: Period, t: Instant) -> int {
    window_start_nanos(period, counter_at(period, t) + 1) - t@
}

/// `t` is the very first instant of a window.
pub open spec fn on_boundary(period: Period, t: Instant) -> bool {
    t.nanos == 0 && t.secs as nat % period.seconds() == 0
}

impl Counter {
    /// The counter that stands for "no window observed yet".
    pub fn zero() -> (r: Counter)
        ensures
            r.value == 0,
    {
        Counter { value: 0 }
    }

    /// The counter of the window right after this one.
    pub fn increment(self) -> (r: Counter)
        requires
            self.value < u64::MAX,
        ensures
            r.value == self.value + 1,
    {
        Counter { value: self.value + 1 }
    }

    /// The instant at which this counter's window of `period` begins.
    pub fn window_start(self, period: Period) -> (r: Instant)
        requires
            self.value * period.seconds() <= u64::MAX,
        ensures
            r.secs == self.value * period.seconds(),
            r.nanos == 0,
            r@ == window_start_nanos(period, self.value as nat),
    {
        let p = period.as_secs();
        let secs = self.value * p;
        proof {
            assert(secs * NANOS_PER_SEC == self.value * period.seconds() * NANOS_PER_SEC);
        }
        Instant { secs, nanos: 0 }
    }
}

/// The counter of the window that holds `now`, and the time from `now` to
/// that window's end, both from the one reading `now`.
pub fn counter_and_remaining(period: Period, now: Instant) -> (r: (Counter, TimeSpan))
    requires
        now.wf(),
    ensures
        r.0.value == counter_at(period, now),
        r.1.wf(),
        r.1@ == remaining_at(period, now),
{
    let p = period.as_secs();
    let c = now.secs / p;
    let into = now.secs % p;
    let left = p - into;
    let span = if now.nanos == 0 {
        TimeSpan { secs: left, nanos: 0 }
    } else {
        TimeSpan { secs: left - 1, nanos: NANOS_PER_SEC - now.nanos }
    };
    proof {
        lemma_remaining_from_mod(p as int, now.secs as int, now.nanos as int);
    }
    (Counter { value: c }, span)
}

proof fn lemma_remaining_from_mod(p: int, s: int, n: int)
    requires
        p > 0,
        s >= 0,
    ensures
        ((s / p) + 1) * p * NANOS_PER_SEC - (s * NANOS_PER_SEC + n)
            == (p - s % p) * NANOS_PER_SEC - n,
        0 <= s % p < p,
{
    vstd::arithmetic::div_mod::lemma_fundamental_div_mod(s, p);
    assert(((s / p) + 1) * p * NANOS_PER_SEC == (s / p) * p * NANOS_PER_SEC + p * NANOS_PER_SEC)
        by (nonlinear_arith);
    assert((s / p) * p * NANOS_PER_SEC + (s % p) * NANOS_PER_SEC == s * NANOS_PER_SEC)
        by (nonlinear_arith)
        requires
            s == p * (s / p) + s % p,
    ;
}

/// Every instant lies in the window its counter names: that window starts at
/// or before it and the next one starts after it. The time left is positive
/// and at most one period, and it is less than a whole period exactly when
/// the instant is not the first instant of a window.
pub proof fn lemma_instant_in_window(period: Period, t: Instant)
    requires
        period.seconds() > 0,
        t.wf(),
    ensures
        window_start_nanos(period, counter_at(period, t)) <= t@,
        t@ < window_start_nanos(period, counter_at(period, t) + 1),
        0 < remaining_at(period, t) <= period.seconds() * NANOS_PER_SEC,
        remaining_at(period, t) < period.seconds() * NANOS_PER_SEC <==> !on_boundary(period, t),
{
    let p = period.seconds() as int;
    let s = t.secs as int;
    let c = counter_at(period, t) as int;
    lemma_remaining_from_mod(p, s, t.nanos as int);
    vstd::arithmetic::div_mod::lemma_fundamental_div_mod(s, p);
    assert(c * p * NANOS_PER_SEC == (s - s % p) * NANOS_PER_SEC) by (nonlinear_arith)
        requires
            s == p * c + s % p,
    ;
}

/// Windows are evenly spaced: the window after counter `c` starts exactly
/// one period after window `c` does.
pub proof fn lemma_next_window_start(period: Period, c: nat)
    ensures
        window_start_nanos(period, c + 1) == window_start_nanos(period, c)
            + period.seconds() * NANOS_PER_SEC,
        (c + 1) * period.seconds() == c * period.seconds() + period.seconds(),
{
    let p = period.seconds();
    assert((c + 1) * p == c * p + p) by (nonlinear_arith);
    assert((c + 1) * p * NANOS_PER_SEC == c * p * NANOS_PER_SEC + p * NANOS_PER_SEC)
        by (nonlinear_arith);
}

/// Counters never go back as time goes on.
pub proof fn lemma_counter_monotonic(period: Period, t1: Instant, t2: Instant)
    requires
        period.seconds() > 0,
        t1.wf(),
        t2.wf(),
        t1@ <= t2@,
    ensures
        counter_at(period, t1) <= counter_at(period, t2),
{
    vstd::arithmetic::div_mod::lemma_div_is_ordered(
        t1.secs as int,
        t2.secs as int,
        period.seconds() as int,
    );
}

/// The zero counter names only the first window after the epoch: every
/// instant at least one period after the epoch has a positive counter.
pub proof fn lemma_zero_counter_only_first_window(period: Period, t: Instant)
    requires
        period.seconds() > 0,
    ensures
        counter_at(period, t) == 0 <==> t.secs < period.seconds(),
{
    let p = period.seconds() as int;
    let s = t.secs as int;
    if s < p {
        vstd::arithmetic::div_mod::lemma_basic_div(s, p);
    } else {
        vstd::arithmetic::div_mod::lemma_div_is_ordered(p, s, p);
        vstd::arithmetic::div_mod::lemma_div_by_self(p);
    }
}

} // verus!
