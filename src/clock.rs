//! Local time of day for display, with the time zone offset from chrono.
use vstd::prelude::*;
use chrono::TimeZone;
use crate::text::{clock_text, local_second_of_day, print_time_at_offset};
use crate::window::Instant;

verus! {

/// Relies on chrono's `Local.timestamp_opt(..).single()` and
/// `FixedOffset::local_minus_utc`: the machine's offset from UTC at
/// `unix_secs`, in seconds, which chrono keeps strictly within one day;
/// `None` where chrono cannot place the instant. The offset depends on the
/// machine's time zone, so nothing more is stated of it. (chrono itself
/// panics if the machine's time zone data cannot be read.)
#[verifier::external_body]
fn local_offset_secs(unix_secs: i64) -> (r: Option<i32>)
    ensures
        r matches Some(o) ==> -86_400 < o < 86_400,
{
    match chrono::Local.timestamp_opt(unix_secs, 0).single() {
        Some(d) => Some(d.offset().local_minus_utc()),
        None => None,
    }
}

/// The local clock text `HH:MM:SS` of `t`; UTC where the local offset at
/// `t` is not known.
pub fn print_time(t: Instant) -> (r: String)
    ensures
        exists|offset: int|
            -86_400 < offset < 86_400 && r@ == clock_text(local_second_of_day(t, offset)),
{
    let offset: i32 = if t.secs <= i64::MAX as u64 {
        match local_offset_secs(t.secs as i64) {
            Some(o) => o,
            None => 0,
        }
    } else {
        0
    };
    let r = print_time_at_offset(t, offset);
    assert(-86_400 < (offset as int) < 86_400 && r@ == clock_text(
        local_second_of_day(t, offset as int),
    ));
    r
}

} // verus!
