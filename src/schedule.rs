//! Watch mode: on every tick, what each period group shows and whether its
//! credentials' tokens must be generated again.
use vstd::prelude::*;
use crate::grouping::{group_by_period, is_grouping, Credential, PeriodGroup};
use crate::window::{
    counter_and_remaining, counter_at, remaining_at, window_start_nanos, Counter, Instant, Period,
    TimeSpan,
};

verus! {

/// What a period group remembers from one tick to the next.
#[derive(Clone, Copy, Debug, PartialEq, Eq, Structural)]
pub struct GroupState {
    pub period: Period,
    pub last_observed_counter: Counter,
    pub urgency_latched: bool,
}

/// Everything one tick decides for a period group.
#[derive(Clone, Copy, Debug, PartialEq, Eq, Structural)]
pub struct TickPlan {
    pub counter: Counter,
    pub next_counter: Counter,
    pub current_start: Instant,
    pub next_start: Instant,
    pub remaining: TimeSpan,
    pub looming: bool,
    pub edge_triggered: bool,
    pub refresh_members: bool,
}

/// One token pair to generate: for credential `credential`, the token of
/// window `current` and the one of window `next`.
#[derive(Clone, Copy, Debug, PartialEq, Eq, Structural)]
pub struct TokenRequest {
    pub credential: usize,
    pub current: Counter,
    pub next: Counter,
}

/// At `t` the window of `period` has at most `threshold` left.
pub open spec fn looming_at(period: Period, t: Instant, threshold: TimeSpan) -> bool {
    remaining_at(period, t) <= threshold@
}

/// A tick at `t` sees the urgency state flip.
pub open spec fn edge_at(st: GroupState, t: Instant, threshold: TimeSpan) -> bool {
    st.urgency_latched != looming_at(st.period, t, threshold)
}

/// A tick at `t` must regenerate the group's tokens.
pub open spec fn refreshes(st: GroupState, t: Instant, threshold: TimeSpan) -> bool {
    counter_at(st.period, t) != st.last_observed_counter.value || edge_at(st, t, threshold)
}

/// The group's state after a tick at `t`.
pub open spec fn state_after(st: GroupState, t: Instant, threshold: TimeSpan) -> GroupState {
    GroupState {
        period: st.period,
        last_observed_counter: if refreshes(st, t, threshold) {
            Counter { value: counter_at(st.period, t) as u64 }
        } else {
            st.last_observed_counter
        },
        urgency_latched: looming_at(st.period, t, threshold),
    }
}

/// The instant `t` is far enough from the end of time that the window after
/// its own still starts at a representable second.
pub open spec fn tickable(period: Period, t: Instant) -> bool {
    t.wf() && t.secs + period.seconds() <= u64::MAX
}

/// `a` is no longer than `b`.
fn span_le(a: TimeSpan, b: TimeSpan) -> (r: bool)
    requires
        a.wf(),
        b.wf(),
    ensures
        r == (a@ <= b@),
{
    a.secs < b.secs || (a.secs == b.secs && a.nanos <= b.nanos)
}

impl GroupState {
    /// A group that has seen no window yet and is not in its urgent phase.
    pub fn new(period: Period) -> (r: GroupState)
        ensures
            r.period == period,
            r.last_observed_counter.value == 0,
            !r.urgency_latched,
    {
        GroupState { period, last_observed_counter: Counter::zero(), urgency_latched: false }
    }

    /// One tick at `now`: computes the window, the time left and the urgency
    /// of the group, decides whether its tokens must be generated again, and
    /// records what was seen.
    pub fn tick(&mut self, now: Instant, threshold: TimeSpan) -> (plan: TickPlan)
        requires
            tickable(old(self).period, now),
            threshold.wf(),
        ensures
            *final(self) == state_after(*old(self), now, threshold),
            plan.counter.value == counter_at(old(self).period, now),
            plan.next_counter.value == plan.counter.value + 1,
            plan.current_start.secs == plan.counter.value * old(self).period.seconds(),
            plan.next_start.secs == plan.next_counter.value * old(self).period.seconds(),
            plan.current_start.nanos == 0,
            plan.next_start.nanos == 0,
            plan.current_start@ == window_start_nanos(old(self).period, plan.counter.value as nat),
            plan.next_start@ == window_start_nanos(
                old(self).period,
                plan.next_counter.value as nat,
            ),
            plan.remaining.wf(),
            plan.remaining@ == remaining_at(old(self).period, now),
            plan.looming == looming_at(old(self).period, now, threshold),
            plan.edge_triggered == edge_at(*old(self), now, threshold),
            plan.refresh_members == refreshes(*old(self), now, threshold),
    {
        let period = self.period;
        let p = period.as_secs();
        let (counter, remaining) = counter_and_remaining(period, now);
        proof {
            vstd::arithmetic::div_mod::lemma_fundamental_div_mod(now.secs as int, p as int);
            let s = now.secs as int;
            let q = p as int;
            let c = counter.value as int;
            assert(c * q <= s) by (nonlinear_arith)
                requires
                    s == q * c + s % q,
                    s % q >= 0,
            ;
            assert((counter.value + 1) * p == counter.value * p + p) by (nonlinear_arith);
        }
        let next_counter = counter.increment();
        let current_start = counter.window_start(period);
        let next_start = next_counter.window_start(period);
        let looming = span_le(remaining, threshold);
        let edge_triggered = self.urgency_latched ^ looming;
        let refresh_members = counter != self.last_observed_counter || edge_triggered;
        self.urgency_latched = looming;
        if refresh_members {
            self.last_observed_counter = counter;
        }
        TickPlan {
            counter,
            next_counter,
            current_start,
            next_start,
            remaining,
            looming,
            edge_triggered,
            refresh_members,
        }
    }
}

/// The tokens to generate after a tick: both tokens of every member, in
/// member order, when the tick asks for a refresh, and nothing otherwise.
pub fn refresh_requests(members: &Vec<usize>, plan: &TickPlan) -> (r: Vec<TokenRequest>)
    ensures
        requests_for(members@, *plan, r@),
{
    let mut r: Vec<TokenRequest> = Vec::new();
    if !plan.refresh_members {
        return r;
    }
    let mut i: usize = 0;
    while i < members.len()
        invariant
            i <= members@.len(),
            r@.len() == i,
            forall|j: int|
                0 <= j < i ==> (#[trigger] r@[j]) == (TokenRequest {
                    credential: members@[j],
                    current: plan.counter,
                    next: plan.next_counter,
                }),
        decreases members@.len() - i,
    {
        r.push(TokenRequest { credential: members[i], current: plan.counter, next: plan.next_counter });
        i += 1;
    }
    r
}

/// What one tick decided for one period group, and the tokens it asks for.
#[derive(Debug)]
pub struct GroupTick {
    pub plan: TickPlan,
    pub requests: Vec<TokenRequest>,
}

/// The requests `r` are those a tick with `plan` makes for `members`.
pub open spec fn requests_for(members: Seq<usize>, plan: TickPlan, r: Seq<TokenRequest>) -> bool {
    &&& r.len() == (if plan.refresh_members { members.len() } else { 0 })
    &&& forall|i: int|
        0 <= i < r.len() ==> (#[trigger] r[i]) == (TokenRequest {
            credential: members[i],
            current: plan.counter,
            next: plan.next_counter,
        })
}

/// The whole of watch mode's state: the period groups, shortest period
/// first, and what each remembers.
#[derive(Debug)]
pub struct Watch {
    pub groups: Vec<PeriodGroup>,
    pub states: Vec<GroupState>,
}

impl Watch {
    /// One state per group, for that group's period.
    pub open spec fn wf(&self) -> bool {
        &&& self.states@.len() == self.groups@.len()
        &&& forall|g: int|
            0 <= g < self.groups@.len() ==> (#[trigger] self.states@[g]).period
                == self.groups@[g].period
    }

    /// Every group's next window starts at a representable second at `now`.
    pub open spec fn tickable_at(&self, now: Instant) -> bool {
        forall|g: int| 0 <= g < self.states@.len() ==> tickable((#[trigger] self.states@[g]).period, now)
    }

    /// Groups the credentials by period; no group has seen a window yet.
    pub fn new(creds: &Vec<Credential>) -> (r: Watch)
        ensures
            r.wf(),
            is_grouping(creds@, r.groups@),
            forall|g: int|
                0 <= g < r.states@.len() ==> (#[trigger] r.states@[g]).last_observed_counter.value
                    == 0 && !r.states@[g].urgency_latched,
    {
        let groups = group_by_period(creds);
        let mut states: Vec<GroupState> = Vec::new();
        let mut g: usize = 0;
        while g < groups.len()
            invariant
                g <= groups@.len(),
                states@.len() == g,
                forall|h: int|
                    0 <= h < g ==> (#[trigger] states@[h]).period == groups@[h].period
                        && states@[h].last_observed_counter.value == 0
                        && !states@[h].urgency_latched,
            decreases groups@.len() - g,
        {
            states.push(GroupState::new(groups[g].period));
            g += 1;
        }
        Watch { groups, states }
    }

    /// One tick of every group at the single reading `now`, in group order.
    pub fn tick(&mut self, now: Instant, threshold: TimeSpan) -> (r: Vec<GroupTick>)
        requires
            old(self).wf(),
            old(self).tickable_at(now),
            threshold.wf(),
        ensures
            final(self).wf(),
            final(self).groups@ == old(self).groups@,
            r@.len() == old(self).groups@.len(),
            forall|g: int|
                0 <= g < r@.len() ==> (#[trigger] final(self).states@[g]) == state_after(
                    old(self).states@[g],
                    now,
                    threshold,
                ),
            forall|g: int|
                0 <= g < r@.len() ==> (#[trigger] r@[g]).plan.refresh_members == refreshes(
                    old(self).states@[g],
                    now,
                    threshold,
                ) && r@[g].plan.counter.value == counter_at(old(self).states@[g].period, now)
                    && r@[g].plan.looming == looming_at(old(self).states@[g].period, now, threshold)
                    && r@[g].plan.edge_triggered == edge_at(old(self).states@[g], now, threshold)
                    && requests_match(old(self).groups@[g].members@, r@[g]),
    {
        let mut out: Vec<GroupTick> = Vec::new();
        let mut g: usize = 0;
        let ghost start = *self;
        while g < self.groups.len()
            invariant
                start.wf(),
                start.tickable_at(now),
                threshold.wf(),
                self.groups@ == start.groups@,
                self.states@.len() == start.states@.len(),
                g <= self.groups@.len(),
                out@.len() == g,
                forall|h: int|
                    g <= h < self.states@.len() ==> self.states@[h] == start.states@[h],
                forall|h: int|
                    0 <= h < g ==> (#[trigger] self.states@[h]) == state_after(
                        start.states@[h],
                        now,
                        threshold,
                    ),
                forall|h: int|
                    0 <= h < g ==> (#[trigger] out@[h]).plan.refresh_members == refreshes(
                        start.states@[h],
                        now,
                        threshold,
                    ) && out@[h].plan.counter.value == counter_at(start.states@[h].period, now)
                        && out@[h].plan.looming == looming_at(start.states@[h].period, now, threshold)
                        && out@[h].plan.edge_triggered == edge_at(start.states@[h], now, threshold)
                        && requests_match(start.groups@[h].members@, out@[h]),
            decreases self.groups@.len() - g,
        {
            let mut st = self.states[g];
            assert(tickable(start.states@[g as int].period, now));
            let plan = st.tick(now, threshold);
            let requests = refresh_requests(&self.groups[g].members, &plan);
            self.states.set(g, st);
            out.push(GroupTick { plan, requests });
            g += 1;
        }
        out
    }
}

/// The requests of `t` are those its plan makes for `members`.
pub open spec fn requests_match(members: Seq<usize>, t: GroupTick) -> bool {
    requests_for(members, t.plan, t.requests@)
}

/// Between two consecutive ticks that see the same window and the same
/// urgency, the second tick regenerates no token.
pub proof fn lemma_refresh_skipped(
    st: GroupState,
    t1: Instant,
    t2: Instant,
    threshold: TimeSpan,
)
    requires
        counter_at(st.period, t1) == counter_at(st.period, t2),
        looming_at(st.period, t1, threshold) == looming_at(st.period, t2, threshold),
        st.period.seconds() > 0,
    ensures
        !refreshes(state_after(st, t1, threshold), t2, threshold),
{
    vstd::arithmetic::div_mod::lemma_div_nonincreasing(t1.secs as int, st.period.seconds() as int);
}

/// The urgency edge fires on a tick exactly when the urgency seen on that
/// tick differs from the urgency seen on the tick before.
pub proof fn lemma_edge_exactly_on_crossing(
    st: GroupState,
    t1: Instant,
    t2: Instant,
    threshold: TimeSpan,
)
    ensures
        edge_at(state_after(st, t1, threshold), t2, threshold) == (looming_at(
            st.period,
            t1,
            threshold,
        ) != looming_at(st.period, t2, threshold)),
{
}

} // verus!
