//! The repeating spawn countdown. Time is counted in milliseconds; the timer
//! advances by the elapsed time of each tick, completes at most one period
//! per tick, and rearms itself by wrapping the overshoot into the next
//! period.

use vstd::prelude::*;

verus! {

/// Process-wide repeating countdown driving the hazard spawner.
#[derive(Clone, Copy, PartialEq, Eq, Structural, Debug)]
pub struct SpawnTimer {
    /// Length of one period, in milliseconds.
    pub period_ms: u32,
    /// Time already spent in the current period, in milliseconds.
    pub elapsed_ms: u32,
}

impl SpawnTimer {
    /// A well-formed timer has a positive period and has not yet completed
    /// the current one.
    pub open spec fn wf(self) -> bool {
        0 < self.period_ms && self.elapsed_ms < self.period_ms
    }

    /// Whether advancing by `delta_ms` completes the current period.
    pub open spec fn spec_fires(self, delta_ms: u32) -> bool {
        self.elapsed_ms + delta_ms >= self.period_ms
    }

    /// The elapsed time after advancing by `delta_ms`: the overshoot wraps
    /// modulo the period, so the timer rearms for repeated firing.
    pub open spec fn spec_elapsed_after(self, delta_ms: u32) -> int {
        (self.elapsed_ms + delta_ms) % (self.period_ms as int)
    }

    pub fn new(period_ms: u32) -> (t: SpawnTimer)
        requires
            period_ms > 0,
        ensures
            t.wf(),
            t.period_ms == period_ms,
            t.elapsed_ms == 0,
    {
        SpawnTimer { period_ms, elapsed_ms: 0 }
    }

    /// Advance the countdown by `delta_ms`. Returns true exactly when a
    /// period completes during this tick; a single tick reports at most one
    /// completion however large `delta_ms` is.
    pub fn tick(&mut self, delta_ms: u32) -> (fired: bool)
        requires
            old(self).wf(),
        ensures
            final(self).wf(),
            final(self).period_ms == old(self).period_ms,
            fired == old(self).spec_fires(delta_ms),
            final(self).elapsed_ms == old(self).spec_elapsed_after(delta_ms),
    {
        let total: u64 = (self.elapsed_ms as u64) + (delta_ms as u64);
        let p: u64 = self.period_ms as u64;
        if total >= p {
            self.elapsed_ms = (total % p) as u32;
            true
        } else {
            proof {
                vstd::arithmetic::div_mod::lemma_small_mod(total as nat, p as nat);
            }
            self.elapsed_ms = total as u32;
            false
        }
    }
}

/// The timer state and cumulative number of completions after `n` ticks of
/// `delta_ms` milliseconds each.
pub open spec fn spec_run(t: SpawnTimer, delta_ms: u32, n: nat) -> (SpawnTimer, nat)
    decreases n,
{
    if n == 0 {
        (t, 0)
    } else {
        let (t1, f1) = spec_run(t, delta_ms, (n - 1) as nat);
        let t2 = SpawnTimer {
            period_ms: t1.period_ms,
            elapsed_ms: t1.spec_elapsed_after(delta_ms) as u32,
        };
        (t2, f1 + if t1.spec_fires(delta_ms) { 1nat } else { 0nat })
    }
}

/// Under constant per-tick deltas no larger than the period, the timer fires
/// periodically: over `n` ticks of `delta_ms` each it completes exactly
/// `(elapsed + n * delta_ms) / period` periods, one at a time. In
/// particular, a fresh timer with a 1000 ms period ticked ten times by
/// 100 ms fires exactly once.
pub proof fn lemma_timer_fires_periodically(t: SpawnTimer, delta_ms: u32, n: nat)
    requires
        t.wf(),
        0 < delta_ms <= t.period_ms,
    ensures
        spec_run(t, delta_ms, n).0.wf(),
        spec_run(t, delta_ms, n).0.period_ms == t.period_ms,
        spec_run(t, delta_ms, n).0.elapsed_ms == (t.elapsed_ms + n * delta_ms) % (
        t.period_ms as int),
        spec_run(t, delta_ms, n).1 == (t.elapsed_ms + n * delta_ms) / (t.period_ms as int),
    decreases n,
{
    let p = t.period_ms as int;
    if n == 0 {
        assert(n * delta_ms == 0) by (nonlinear_arith)
            requires
                n == 0,
        ;
        assert(t.elapsed_ms as int == 0 * p + t.elapsed_ms) by (nonlinear_arith);
        vstd::arithmetic::div_mod::lemma_fundamental_div_mod_converse(
            t.elapsed_ms as int,
            p,
            0,
            t.elapsed_ms as int,
        );
    } else {
        lemma_timer_fires_periodically(t, delta_ms, (n - 1) as nat);
        let (t1, f1) = spec_run(t, delta_ms, (n - 1) as nat);
        let x = t.elapsed_ms + (n - 1) * delta_ms;
        assert(t.elapsed_ms + n * delta_ms == x + delta_ms) by (nonlinear_arith)
            requires
                x == t.elapsed_ms + (n - 1) * delta_ms,
                n >= 1,
        ;
        let q = x / p;
        let r = x % p;
        vstd::arithmetic::div_mod::lemma_fundamental_div_mod(x, p);
        if r + delta_ms >= p {
            assert(x + delta_ms == (q + 1) * p + (r + delta_ms - p)) by (nonlinear_arith)
                requires
                    x == q * p + r,
            ;
            vstd::arithmetic::div_mod::lemma_fundamental_div_mod_converse(
                x + delta_ms,
                p,
                q + 1,
                r + delta_ms - p,
            );
            assert(r + delta_ms == 1 * p + (r + delta_ms - p)) by (nonlinear_arith);
            vstd::arithmetic::div_mod::lemma_fundamental_div_mod_converse(
                r + delta_ms,
                p,
                1,
                r + delta_ms - p,
            );
        } else {
            vstd::arithmetic::div_mod::lemma_fundamental_div_mod_converse(
                x + delta_ms,
                p,
                q,
                r + delta_ms,
            );
            vstd::arithmetic::div_mod::lemma_small_mod((r + delta_ms) as nat, p as nat);
        }
    }
}

} // verus!
