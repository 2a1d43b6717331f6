use ooofa::grouping::Credential;
use ooofa::schedule::{GroupState, Watch};
use ooofa::window::{counter_and_remaining, Counter, Instant, Period, TimeSpan};

fn thirty() -> Period {
    Period::new(30).unwrap()
}

#[test]
fn zero_period_is_rejected() {
    assert!(Period::new(0).is_none());
    assert_eq!(Period::new(60).unwrap().as_secs(), 60);
    assert_eq!(Period::seconds30().as_secs(), 30);
}

#[test]
fn remaining_three_seconds_is_looming() {
    // 27 s into the window that starts at 30 * 1000
    let now = Instant { secs: 30_027, nanos: 0 };
    let (counter, remaining) = counter_and_remaining(thirty(), now);
    assert_eq!(counter.value, 1000);
    assert_eq!(remaining, TimeSpan { secs: 3, nanos: 0 });
    let mut st = GroupState::new(thirty());
    let plan = st.tick(now, TimeSpan { secs: 5, nanos: 0 });
    assert!(plan.looming);
    assert_eq!(plan.remaining, TimeSpan { secs: 3, nanos: 0 });
}

#[test]
fn remaining_with_fraction() {
    let now = Instant { secs: 61, nanos: 250_000_000 };
    let (counter, remaining) = counter_and_remaining(thirty(), now);
    assert_eq!(counter.value, 2);
    assert_eq!(remaining, TimeSpan { secs: 28, nanos: 750_000_000 });
}

#[test]
fn remaining_on_window_boundary_is_whole_period() {
    let (counter, remaining) = counter_and_remaining(thirty(), Instant { secs: 90, nanos: 0 });
    assert_eq!(counter.value, 3);
    assert_eq!(remaining, TimeSpan { secs: 30, nanos: 0 });
}

#[test]
fn instant_lies_in_its_window() {
    for secs in [0u64, 1, 29, 30, 31, 1_700_000_000, 1_700_000_029] {
        for nanos in [0u32, 1, 999_999_999] {
            let now = Instant { secs, nanos };
            let (c, left) = counter_and_remaining(thirty(), now);
            let start = c.window_start(thirty());
            let next = c.increment().window_start(thirty());
            assert!(start.secs <= secs);
            assert!(secs < next.secs);
            assert!(left.secs <= 30);
            assert!(left.secs < 30 || left.nanos == 0);
        }
    }
}

#[test]
fn increment_then_window_start_adds_one_period() {
    let c = Counter { value: 5 };
    assert_eq!(c.window_start(thirty()).secs, 150);
    assert_eq!(c.increment().window_start(thirty()).secs, c.window_start(thirty()).secs + 30);
    assert_eq!(c.increment().value, 6);
    assert_eq!(Counter::zero().value, 0);
}

#[test]
fn refresh_skipped_within_window() {
    let threshold = TimeSpan { secs: 5, nanos: 0 };
    let mut st = GroupState::new(thirty());
    let first = st.tick(Instant { secs: 30_001, nanos: 0 }, threshold);
    assert!(first.refresh_members);
    assert_eq!(st.last_observed_counter.value, 1000);
    let second = st.tick(Instant { secs: 30_002, nanos: 0 }, threshold);
    assert!(!second.refresh_members);
    assert!(!second.edge_triggered);
    // next window
    let third = st.tick(Instant { secs: 30_030, nanos: 0 }, threshold);
    assert!(third.refresh_members);
    assert_eq!(third.counter.value, 1001);
    assert_eq!(third.next_counter.value, 1002);
    assert_eq!(third.current_start.secs, 30_030);
    assert_eq!(third.next_start.secs, 30_060);
}

#[test]
fn urgency_edge_fires_on_each_crossing() {
    let threshold = TimeSpan { secs: 5, nanos: 0 };
    let mut st = GroupState::new(thirty());
    let t = |s: u64| Instant { secs: 30_000 + s, nanos: 0 };
    let a = st.tick(t(20), threshold);
    assert!(!a.edge_triggered && !a.looming);
    let b = st.tick(t(24), threshold);
    assert!(!b.edge_triggered);
    assert!(!b.refresh_members);
    let c = st.tick(t(25), threshold);
    assert!(c.looming && c.edge_triggered && c.refresh_members);
    let d = st.tick(t(26), threshold);
    assert!(d.looming && !d.edge_triggered && !d.refresh_members);
    // new window: remaining 30 s, urgency drops
    let e = st.tick(t(30), threshold);
    assert!(!e.looming && e.edge_triggered && e.refresh_members);
}

#[test]
fn watch_counts_generator_calls() {
    let creds = vec![
        Credential { name: String::from("a"), period: thirty() },
        Credential { name: String::from("b"), period: Period::new(60).unwrap() },
        Credential { name: String::from("c"), period: thirty() },
    ];
    let mut w = Watch::new(&creds);
    let threshold = TimeSpan { secs: 5, nanos: 0 };
    let mut calls = 0usize;
    let ticks = w.tick(Instant { secs: 6_001, nanos: 0 }, threshold);
    assert_eq!(ticks.len(), 2);
    for t in &ticks {
        calls += t.requests.len();
    }
    assert_eq!(calls, 3);
    assert_eq!(ticks[0].requests[1].credential, 2);
    assert_eq!(ticks[0].requests[1].current.value, 200);
    assert_eq!(ticks[0].requests[1].next.value, 201);
    let again = w.tick(Instant { secs: 6_002, nanos: 500_000_000 }, threshold);
    let more: usize = again.iter().map(|t| t.requests.len()).sum();
    assert_eq!(more, 0);
}

#[test]
fn zero_counter_only_in_first_window() {
    let (c, _) = counter_and_remaining(thirty(), Instant { secs: 29, nanos: 999_999_999 });
    assert_eq!(c, Counter::zero());
    let (c, _) = counter_and_remaining(thirty(), Instant { secs: 30, nanos: 0 });
    assert_eq!(c.value, 1);
}

#[test]
fn counter_never_goes_back() {
    let mut last = 0u64;
    for secs in (0u64..200).step_by(7) {
        let (c, _) = counter_and_remaining(thirty(), Instant { secs, nanos: 500 });
        assert!(c.value >= last);
        last = c.value;
    }
}
