//! The text shown for a countdown and for a time of day.
use vstd::prelude::*;
use vstd::string::*;
use crate::window::{Instant, TimeSpan};

verus! {

/// Seconds in a day.
pub const SECS_PER_DAY: u64 = 86_400;

/// The character of decimal digit `d`.
pub open spec fn digit_char(d: nat) -> char {
    seq!['0', '1', '2', '3', '4', '5', '6', '7', '8', '9'][d as int]
}

/// The decimal digits of `n`, without leading zeros.
pub open spec fn decimal(n: nat) -> Seq<char>
    decreases n,
{
    if n < 10 {
        seq![digit_char(n)]
    } else {
        decimal(n / 10).push(digit_char(n % 10))
    }
}

/// The decimal digits of `n`, padded with a zero to at least two.
pub open spec fn two_digits(n: nat) -> Seq<char> {
    if n < 10 {
        seq!['0', digit_char(n)]
    } else {
        decimal(n)
    }
}

/// The countdown text for `d`: whole seconds, a point, and hundredths of a
/// second, each at least two digits, then " seconds".
pub open spec fn countdown_text(d: TimeSpan) -> Seq<char> {
    two_digits(d.secs as nat) + seq!['.'] + two_digits((d.nanos / 10_000_000) as nat) + seq![
        ' ',
        's',
        'e',
        'c',
        'o',
        'n',
        'd',
        's',
    ]
}

/// The clock text `HH:MM:SS` of second `tod` of a day.
pub open spec fn clock_text(tod: nat) -> Seq<char> {
    two_digits(tod / 3600) + seq![':'] + two_digits((tod / 60) % 60) + seq![':'] + two_digits(
        tod % 60,
    )
}

/// The second of the local day at `t`, where local time is `offset` seconds
/// ahead of UTC.
pub open spec fn local_second_of_day(t: Instant, offset: int) -> nat {
    ((t.secs + offset) % (SECS_PER_DAY as int)) as nat
}

fn append_digit(s: &mut String, d: u64)
    requires
        d < 10,
    ensures
        final(s)@ == old(s)@.push(digit_char(d as nat)),
{
    let digits = "0123456789";
    proof {
        reveal_strlit("0123456789");
    }
    let one = digits.substring_char(d as usize, d as usize + 1);
    assert(one@ =~= seq![digit_char(d as nat)]);
    s.append(one);
}

fn append_decimal(s: &mut String, n: u64)
    ensures
        final(s)@ == old(s)@ + decimal(n as nat),
    decreases n,
{
    if n >= 10 {
        append_decimal(s, n / 10);
    }
    append_digit(s, n % 10);
    assert(old(s)@ + decimal(n as nat) =~= s@);
}

fn append_two_digits(s: &mut String, n: u64)
    ensures
        final(s)@ == old(s)@ + two_digits(n as nat),
{
    if n < 10 {
        append_digit(s, 0);
    }
    append_decimal(s, n);
    assert(old(s)@ + two_digits(n as nat) =~= s@);
}

/// The countdown text for the time left in a window.
pub fn print_left(d: TimeSpan) -> (r: String)
    ensures
        r@ == countdown_text(d),
{
    let mut s = String::new();
    append_two_digits(&mut s, d.secs);
    let point = ".";
    proof {
        reveal_strlit(".");
    }
    s.append(point);
    append_two_digits(&mut s, (d.nanos / 10_000_000) as u64);
    let unit = " seconds";
    proof {
        reveal_strlit(" seconds");
    }
    s.append(unit);
    assert(s@ =~= countdown_text(d));
    s
}

/// The clock text of `t` where local time is `offset` seconds ahead of UTC.
pub fn print_time_at_offset(t: Instant, offset: i32) -> (r: String)
    requires
        -86_400 < offset < 86_400,
    ensures
        r@ == clock_text(local_second_of_day(t, offset as int)),
{
    let shifted: u64 = (offset as i64 + SECS_PER_DAY as i64) as u64;
    let tod = (t.secs % SECS_PER_DAY + shifted) % SECS_PER_DAY;
    proof {
        vstd::arithmetic::div_mod::lemma_add_mod_noop(t.secs as int, shifted as int, SECS_PER_DAY as int);
        vstd::arithmetic::div_mod::lemma_mod_add_multiples_vanish(t.secs + offset, SECS_PER_DAY as int);
        assert((t.secs as int + shifted as int) == (t.secs + offset) + SECS_PER_DAY);
        assert(tod == local_second_of_day(t, offset as int));
    }
    let colon = ":";
    proof {
        reveal_strlit(":");
    }
    let mut s = String::new();
    append_two_digits(&mut s, tod / 3600);
    s.append(colon);
    append_two_digits(&mut s, (tod / 60) % 60);
    s.append(colon);
    append_two_digits(&mut s, tod % 60);
    assert(s@ =~= clock_text(tod as nat));
    s
}

} // verus!
