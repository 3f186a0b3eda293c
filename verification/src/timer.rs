//! The uptime, in the form in which MbedTLS measures durations.

use vstd::prelude::*;

verus! {

/// Whole milliseconds in `ticks` ticks of a microsecond.
pub open spec fn millis_of_ticks(ticks: int) -> int {
    ticks / 1_000
}

/// `embassy_time::Instant::as_millis` on the instant `ticks` ticks after startup.
///
/// Claimed: a tick is a microsecond, the tick rate of 1 MHz for which the crate is
/// built (its feature `tick-hz-1_000_000`), and the result is rounded down.
#[verifier::external_body]
fn instant_as_millis(ticks: u64) -> (millis: u64)
    ensures
        millis == millis_of_ticks(ticks as int),
{
    embassy_time::Instant::from_ticks(ticks).as_millis()
}

/// Milliseconds since startup, from the tick count of the monotonic clock.
pub fn uptime_millis(ticks: u64) -> (millis: i64)
    ensures
        millis == millis_of_ticks(ticks as int),
        1_000 * millis <= ticks < 1_000 * (millis + 1),
{
    instant_as_millis(ticks) as i64
}

/// The uptime is the whole milliseconds that have passed: they are not more than the
/// ticks, and one millisecond more would be.
pub proof fn law_uptime_is_rounded_down(ticks: int)
    requires
        0 <= ticks,
    ensures
        1_000 * millis_of_ticks(ticks) <= ticks < 1_000 * (millis_of_ticks(ticks) + 1),
{
}

/// Uptime never runs backwards: a later tick count gives no earlier uptime, and a
/// thousand ticks more give a millisecond more.
pub proof fn law_uptime_is_monotonic(earlier: int, later: int)
    requires
        0 <= earlier <= later,
    ensures
        0 <= millis_of_ticks(earlier) <= millis_of_ticks(later),
        millis_of_ticks(earlier + 1_000) == millis_of_ticks(earlier) + 1,
{
}

} // verus!
