use ooofa::clock::print_time;
use ooofa::registry::{build_registry, parse_uris, RegistryError};
use ooofa::text::{print_left, print_time_at_offset};
use ooofa::window::{Instant, TimeSpan};

#[test]
fn countdown_text() {
    assert_eq!(print_left(TimeSpan { secs: 3, nanos: 456_000_000 }), "03.45 seconds");
    assert_eq!(print_left(TimeSpan { secs: 0, nanos: 0 }), "00.00 seconds");
    assert_eq!(print_left(TimeSpan { secs: 29, nanos: 999_999_999 }), "29.99 seconds");
    assert_eq!(print_left(TimeSpan { secs: 120, nanos: 70_000_000 }), "120.07 seconds");
}

#[test]
fn clock_text_at_offsets() {
    let t = Instant { secs: 3_661, nanos: 0 };
    assert_eq!(print_time_at_offset(t, 0), "01:01:01");
    assert_eq!(print_time_at_offset(t, -7_200), "23:01:01");
    assert_eq!(print_time_at_offset(t, 3_600), "02:01:01");
    assert_eq!(print_time_at_offset(Instant { secs: 86_399, nanos: 5 }, 0), "23:59:59");
}

#[test]
fn local_clock_text_has_clock_shape() {
    let s = print_time(Instant { secs: 1_700_000_000, nanos: 0 });
    assert_eq!(s.len(), 8);
    assert_eq!(&s[2..3], ":");
    assert_eq!(&s[5..6], ":");
}

#[test]
fn uris_parse_or_name_first_failure() {
    let good = vec![
        String::from("otpauth://totp/alice?secret=JBSWY3DPEHPK3PXP"),
        String::from("otpauth://totp/bob?secret=JBSWY3DPEHPK3PXP&period=60"),
    ];
    assert_eq!(parse_uris(&good).unwrap().len(), 2);
    let bad = vec![
        String::from("otpauth://totp/alice?secret=JBSWY3DPEHPK3PXP"),
        String::from("not a url"),
        String::from("also not"),
    ];
    assert_eq!(parse_uris(&bad).err(), Some(RegistryError::InvalidUri(1)));
}

#[test]
fn registry_fails_on_first_unusable_entry() {
    let names = vec![String::from("a"), String::from("b"), String::from("c")];
    let ok = build_registry(&names, &vec![Some(30), Some(60), Some(30)]).unwrap();
    assert_eq!(ok.len(), 3);
    assert_eq!(ok[1].name, "b");
    assert_eq!(ok[1].period.as_secs(), 60);
    assert_eq!(
        build_registry(&names, &vec![Some(30), None, Some(0)]).err(),
        Some(RegistryError::InvalidGenerator(1))
    );
    assert_eq!(
        build_registry(&names, &vec![Some(30), Some(30), Some(0)]).err(),
        Some(RegistryError::InvalidGenerator(2))
    );
}
