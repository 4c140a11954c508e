//! The tick scheduler's arithmetic: the loop measures how long a tick's
//! render work took and sleeps away whatever remains of the period, so
//! the loop holds a target rate under variable render cost.

use vstd::prelude::*;

verus! {

/// How long to sleep after render work that took `elapsed` of a tick's
/// `period`: whatever remains, floored at zero.  An overrun is not an
/// error; the loop simply runs at a reduced effective rate.
pub open spec fn spec_sleep(period: u64, elapsed: u64) -> int {
    if elapsed >= period {
        0
    } else {
        period - elapsed
    }
}

/// One tick's total wall time: its render work plus the trailing sleep.
pub open spec fn spec_tick_total(period: u64, elapsed: u64) -> int {
    elapsed + spec_sleep(period, elapsed)
}

/// The wall time of a window of consecutive ticks whose render parts
/// took `work`.
pub open spec fn spec_window_total(period: u64, work: Seq<u64>) -> int
    decreases work.len(),
{
    if work.len() == 0 {
        0
    } else {
        spec_tick_total(period, work[0]) + spec_window_total(period, work.drop_first())
    }
}

/// The sleep that ends a tick, in the same unit as its inputs
/// (nanoseconds in the host loop).
pub fn sleep_for(period: u64, elapsed: u64) -> (r: u64)
    ensures
        r == spec_sleep(period, elapsed),
        elapsed + r >= period,
        elapsed <= period ==> elapsed + r == period,
{
    if elapsed >= period {
        0
    } else {
        period - elapsed
    }
}

/// Law: rate bound — over any window, total wall time is at least the
/// window length times the period, so ticks are issued at a rate no
/// higher than the target; and when every tick's render cost is zero,
/// the total is exactly the window length times the period, so the rate
/// is exactly the target.
pub proof fn lemma_rate_bound(period: u64, work: Seq<u64>)
    ensures
        spec_window_total(period, work) >= work.len() * period,
        (forall|i: int| 0 <= i < work.len() ==> work[i] == 0) ==> spec_window_total(period, work)
            == work.len() * period,
    decreases work.len(),
{
    if work.len() == 0 {
    } else {
        let rest = work.drop_first();
        lemma_rate_bound(period, rest);
        assert(spec_tick_total(period, work[0]) >= period);
        assert(work.len() * period == period + rest.len() * period) by (nonlinear_arith)
            requires
                work.len() >= 1,
                rest.len() == work.len() - 1,
        ;
        if forall|i: int| 0 <= i < work.len() ==> work[i] == 0 {
            assert(work[0] == 0);
            assert forall|i: int| 0 <= i < rest.len() implies rest[i] == 0 by {
                assert(rest[i] == work[i + 1]);
            }
        }
    }
}

} // verus!
