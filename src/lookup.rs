//! Lookup mode: find a credential by name prefix and work out its current
//! window and the windows that follow.
use vstd::prelude::*;
use vstd::string::*;
use crate::grouping::Credential;
use crate::window::{
    counter_and_remaining, counter_at, remaining_at, Counter, Instant, Period, TimeSpan,
};

verus! {

/// `p` is a prefix of `s`.
pub open spec fn is_prefix(p: Seq<char>, s: Seq<char>) -> bool {
    p.len() <= s.len() && s.subrange(0, p.len() as int) == p
}

/// `r` is the index of the first credential whose name starts with
/// `prefix`, or `None` where no name does.
pub open spec fn is_first_match(creds: Seq<Credential>, prefix: Seq<char>, r: Option<usize>) -> bool {
    match r {
        Some(i) => i < creds.len() && is_prefix(prefix, creds[i as int].name@) && forall|j: int|
            0 <= j < i ==> !is_prefix(prefix, #[trigger] creds[j].name@),
        None => forall|j: int| 0 <= j < creds.len() ==> !is_prefix(prefix, #[trigger] creds[j].name@),
    }
}

/// Whether `name` starts with `prefix`.
pub fn starts_with(name: &str, prefix: &str) -> (r: bool)
    ensures
        r == is_prefix(prefix@, name@),
{
    let pl = prefix.unicode_len();
    let nl = name.unicode_len();
    if pl > nl {
        return false;
    }
    let mut i: usize = 0;
    while i < pl
        invariant
            pl == prefix@.len(),
            nl == name@.len(),
            pl <= nl,
            i <= pl,
            forall|j: int| 0 <= j < i ==> name@[j] == prefix@[j],
        decreases pl - i,
    {
        if name.get_char(i) != prefix.get_char(i) {
            return false;
        }
        i += 1;
    }
    assert(name@.subrange(0, pl as int) =~= prefix@);
    true
}

/// The first credential, in registry order, whose name starts with `prefix`.
pub fn resolve(creds: &Vec<Credential>, prefix: &str) -> (r: Option<usize>)
    ensures
        is_first_match(creds@, prefix@, r),
{
    let mut i: usize = 0;
    while i < creds.len()
        invariant
            i <= creds@.len(),
            forall|j: int| 0 <= j < i ==> !is_prefix(prefix@, #[trigger] creds@[j].name@),
        decreases creds@.len() - i,
    {
        if starts_with(creds[i].name.as_str(), prefix) {
            return Some(i);
        }
        i += 1;
    }
    None
}

/// A window after the current one: its counter and its first instant.
#[derive(Clone, Copy, Debug, PartialEq, Eq, Structural)]
pub struct UpcomingWindow {
    pub counter: Counter,
    pub start: Instant,
}

/// The windows after counter `c` of `period`, `k` of them, one after another.
pub open spec fn are_upcoming(period: Period, c: nat, k: nat, w: Seq<UpcomingWindow>) -> bool {
    &&& w.len() == k
    &&& forall|j: int|
        0 <= j < k ==> (#[trigger] w[j]).counter.value == c + j + 1 && w[j].start.secs == (c + j
            + 1) * period.seconds() && w[j].start.nanos == 0
}

/// The windows after counter `c` of `period`, `k` of them.
pub fn upcoming_windows(period: Period, c: Counter, k: usize) -> (r: Vec<UpcomingWindow>)
    requires
        (c.value + k + 1) * period.seconds() <= u64::MAX,
    ensures
        are_upcoming(period, c.value as nat, k as nat, r@),
{
    let p = period.as_secs();
    let mut r: Vec<UpcomingWindow> = Vec::new();
    let mut cur = c;
    let mut j: usize = 0;
    while j < k
        invariant
            p == period.seconds(),
            p > 0,
            (c.value + k + 1) * p <= u64::MAX,
            j <= k,
            cur.value == c.value + j,
            r@.len() == j,
            forall|x: int|
                0 <= x < j ==> (#[trigger] r@[x]).counter.value == c.value + x + 1
                    && r@[x].start.secs == (c.value + x + 1) * p && r@[x].start.nanos == 0,
        decreases k - j,
    {
        proof {
            assert((cur.value + 1) * p <= (c.value + k + 1) * p) by (nonlinear_arith)
                requires
                    cur.value + 1 <= c.value + k + 1,
                    p > 0,
            ;
            assert(cur.value + 1 <= (cur.value + 1) * p) by (nonlinear_arith)
                requires
                    p > 0,
            ;
        }
        cur = cur.increment();
        let start = cur.window_start(period);
        r.push(UpcomingWindow { counter: cur, start });
        j += 1;
    }
    r
}

/// What lookup mode shows for one credential.
#[derive(Debug)]
pub struct Lookup {
    pub credential: usize,
    pub counter: Counter,
    pub remaining: TimeSpan,
    pub window_start: Instant,
    pub upcoming: Vec<UpcomingWindow>,
}

/// `r` is what lookup mode shows for credential `i` at `now`, with `k`
/// upcoming windows.
pub open spec fn is_lookup_of(creds: Seq<Credential>, i: usize, now: Instant, k: nat, r: Lookup) -> bool {
    let period = creds[i as int].period;
    let c = counter_at(period, now);
    &&& r.credential == i
    &&& r.counter.value == c
    &&& r.remaining.wf()
    &&& r.remaining@ == remaining_at(period, now)
    &&& r.window_start.secs == c * period.seconds()
    &&& r.window_start.nanos == 0
    &&& are_upcoming(period, c, k, r.upcoming@)
}

/// Every credential's windows up to `k` after the one holding `now` start
/// at representable seconds.
pub open spec fn lookup_fits(creds: Seq<Credential>, now: Instant, k: nat) -> bool {
    forall|i: int|
        0 <= i < creds.len() ==> now.secs + (k + 1) * (#[trigger] creds[i].period.seconds())
            <= u64::MAX
}

/// Resolves `prefix` and, for the credential found, computes at `now` the
/// current window, the time left in it, and the `k` windows after it;
/// `None` where no name starts with `prefix`.
pub fn lookup(creds: &Vec<Credential>, prefix: &str, now: Instant, k: usize) -> (r: Option<Lookup>)
    requires
        now.wf(),
        lookup_fits(creds@, now, k as nat),
    ensures
        r is None <==> is_first_match(creds@, prefix@, None),
        r matches Some(l) ==> is_first_match(creds@, prefix@, Some(l.credential)) && is_lookup_of(
            creds@,
            l.credential,
            now,
            k as nat,
            l,
        ),
{
    match resolve(creds, prefix) {
        None => None,
        Some(i) => {
            let period = creds[i].period;
            let p = period.as_secs();
            let (counter, remaining) = counter_and_remaining(period, now);
            proof {
                let s = now.secs as int;
                let q = p as int;
                let c = counter.value as int;
                vstd::arithmetic::div_mod::lemma_fundamental_div_mod(s, q);
                assert(c * q <= s) by (nonlinear_arith)
                    requires
                        s == q * c + s % q,
                        s % q >= 0,
                ;
                assert((c + k + 1) * q == c * q + (k + 1) * q) by (nonlinear_arith);
                assert(now.secs + (k + 1) * q <= u64::MAX);
            }
            let window_start = counter.window_start(period);
            let upcoming = upcoming_windows(period, counter, k);
            Some(Lookup { credential: i, counter, remaining, window_start, upcoming })
        },
    }
}

/// Lookup mode gives one answer per question: two lookups of the same
/// credential at the same instant agree on the window, the time left and
/// every upcoming window, hence on every token generated from them.
pub proof fn lemma_lookup_repeatable(
    creds: Seq<Credential>,
    i: usize,
    now: Instant,
    k: nat,
    a: Lookup,
    b: Lookup,
)
    requires
        is_lookup_of(creds, i, now, k, a),
        is_lookup_of(creds, i, now, k, b),
    ensures
        a.credential == b.credential,
        a.counter == b.counter,
        a.remaining == b.remaining,
        a.window_start == b.window_start,
        a.upcoming@ == b.upcoming@,
{
    assert(a.remaining.nanos == b.remaining.nanos);
    assert(a.upcoming@ =~= b.upcoming@);
}

} // verus!
