//! Times, as nanoseconds since some start.
use vstd::prelude::*;

verus! {

/// The time from `then` to `now`; a clock that runs backwards counts as standing still.
pub open spec fn since(now_ns: u64, then_ns: u64) -> int {
    if now_ns >= then_ns {
        now_ns - then_ns
    } else {
        0
    }
}

/// Gives the time from `then` to `now`.
pub fn elapsed(now_ns: u64, then_ns: u64) -> (ns: u64)
    ensures
        ns == since(now_ns, then_ns),
{
    if now_ns >= then_ns {
        now_ns - then_ns
    } else {
        0
    }
}

/// The time between two readings is what separates them; a clock that ran backwards gives none,
/// so of two readings taken either way round one gives the distance and the other nothing.
pub proof fn law_elapsed_is_the_distance(now_ns: u64, then_ns: u64, ns: u64, reversed: u64)
    requires
        call_ensures(elapsed, (now_ns, then_ns), ns),
        call_ensures(elapsed, (then_ns, now_ns), reversed),
    ensures
        ns - reversed == now_ns - then_ns,
        ns == 0 || reversed == 0,
{
}

} // verus!
