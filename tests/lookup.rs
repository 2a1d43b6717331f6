use ooofa::grouping::{group_by_period, Credential};
use ooofa::lookup::{lookup, resolve, starts_with, upcoming_windows};
use ooofa::window::{Counter, Instant, Period, TimeSpan};

fn cred(name: &str, secs: u64) -> Credential {
    Credential { name: String::from(name), period: Period::new(secs).unwrap() }
}

#[test]
fn prefix_matches() {
    assert!(starts_with("alice-backup", "alice"));
    assert!(starts_with("alice", ""));
    assert!(!starts_with("al", "alice"));
    assert!(!starts_with("bob", "alice"));
}

#[test]
fn shared_prefix_resolves_to_first() {
    let creds = vec![cred("alice", 30), cred("alice-backup", 30), cred("bob", 30)];
    assert_eq!(resolve(&creds, "alice"), Some(0));
    assert_eq!(resolve(&creds, "alice-"), Some(1));
    assert_eq!(resolve(&creds, "b"), Some(2));
}

#[test]
fn unknown_prefix_is_not_found() {
    let creds = vec![cred("alice", 30), cred("alice-backup", 30)];
    assert_eq!(resolve(&creds, "zzz"), None);
    assert!(lookup(&creds, "zzz", Instant { secs: 100, nanos: 0 }, 10).is_none());
}

#[test]
fn lookup_gives_window_and_upcoming() {
    let creds = vec![cred("alice", 30), cred("bob", 60)];
    let now = Instant { secs: 1_000, nanos: 0 };
    let l = lookup(&creds, "bo", now, 10).unwrap();
    assert_eq!(l.credential, 1);
    assert_eq!(l.counter.value, 16);
    assert_eq!(l.remaining, TimeSpan { secs: 20, nanos: 0 });
    assert_eq!(l.window_start, Instant { secs: 960, nanos: 0 });
    assert_eq!(l.upcoming.len(), 10);
    assert_eq!(l.upcoming[0].counter.value, 17);
    assert_eq!(l.upcoming[0].start.secs, 1_020);
    assert_eq!(l.upcoming[9].counter.value, 26);
    assert_eq!(l.upcoming[9].start.secs, 1_560);
}

#[test]
fn lookup_is_repeatable() {
    let creds = vec![cred("alice", 30)];
    let now = Instant { secs: 1_700_000_013, nanos: 42 };
    let a = lookup(&creds, "al", now, 3).unwrap();
    let b = lookup(&creds, "al", now, 3).unwrap();
    assert_eq!(a.counter, b.counter);
    assert_eq!(a.remaining, b.remaining);
    assert_eq!(a.upcoming, b.upcoming);
}

#[test]
fn no_upcoming_windows_when_none_asked() {
    assert!(upcoming_windows(Period::seconds30(), Counter { value: 4 }, 0).is_empty());
}

#[test]
fn grouping_by_period() {
    let creds = vec![cred("a", 60), cred("b", 30), cred("c", 60), cred("d", 15), cred("e", 30)];
    let groups = group_by_period(&creds);
    assert_eq!(groups.len(), 3);
    assert_eq!(groups[0].period.as_secs(), 15);
    assert_eq!(groups[0].members, vec![3]);
    assert_eq!(groups[1].period.as_secs(), 30);
    assert_eq!(groups[1].members, vec![1, 4]);
    assert_eq!(groups[2].period.as_secs(), 60);
    assert_eq!(groups[2].members, vec![0, 2]);
    let again = group_by_period(&creds);
    for (g, h) in groups.iter().zip(again.iter()) {
        assert_eq!(g.period, h.period);
        assert_eq!(g.members, h.members);
    }
}

#[test]
fn grouping_of_nothing_is_empty() {
    assert!(group_by_period(&Vec::new()).is_empty());
}
