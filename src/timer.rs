use vstd::prelude::*;

verus! {

/// `a + b`, held at `u64::MAX`.
pub open spec fn sat_add(a: u64, b: u64) -> u64 {
    if a + b > u64::MAX {
        u64::MAX
    } else {
        (a + b) as u64
    }
}

/// A countdown that reports when it reaches its duration, either once or
/// once per period. Times are in microseconds.
#[derive(Clone, Copy, Debug, PartialEq, Eq, Structural)]
pub struct Timer {
    pub duration: u64,
    pub elapsed: u64,
    pub repeating: bool,
    /// Whether the last `tick` reached the duration.
    pub just_finished: bool,
}

impl Timer {
    /// The timer after one tick of `dt` microseconds.
    pub open spec fn after_tick(self, dt: u64) -> Timer {
        let total = sat_add(self.elapsed, dt);
        if total >= self.duration {
            Timer {
                elapsed: if self.repeating {
                    (total - self.duration) as u64
                } else {
                    self.duration
                },
                just_finished: true,
                ..self
            }
        } else {
            Timer { elapsed: total, just_finished: false, ..self }
        }
    }

    /// The timer after `n` ticks of `dt` each.
    pub open spec fn after_ticks(self, dt: u64, n: nat) -> Timer
        decreases n,
    {
        if n == 0 {
            self
        } else {
            self.after_ticks(dt, (n - 1) as nat).after_tick(dt)
        }
    }

    pub fn new(duration: u64, repeating: bool) -> (r: Timer)
        ensures
            r == (Timer { duration, elapsed: 0, repeating, just_finished: false }),
    {
        Timer { duration, elapsed: 0, repeating, just_finished: false }
    }

    /// Advances the timer by `dt`: a repeating timer that reaches its duration
    /// drops one duration from its elapsed time, a one-shot timer stops there.
    pub fn tick(&mut self, dt: u64)
        ensures
            *final(self) == old(self).after_tick(dt),
    {
        let total = self.elapsed.saturating_add(dt);
        if total >= self.duration {
            self.elapsed = if self.repeating {
                total - self.duration
            } else {
                self.duration
            };
            self.just_finished = true;
        } else {
            self.elapsed = total;
            self.just_finished = false;
        }
    }

    pub fn finished(&self) -> (r: bool)
        ensures
            r == self.just_finished,
    {
        self.just_finished
    }

    pub fn reset(&mut self)
        ensures
            *final(self) == (Timer { elapsed: 0, just_finished: false, ..*old(self) }),
            !final(self).just_finished,
    {
        self.elapsed = 0;
        self.just_finished = false;
    }

    /// Fills the timer so that the next tick finishes it.
    pub fn prime(&mut self)
        ensures
            *final(self) == (Timer { elapsed: old(self).duration, ..*old(self) }),
    {
        self.elapsed = self.duration;
    }
}

/// A reset repeating timer ticked by steps of `d` that add up to its duration
/// reports `finished` on the last step only, and is then back at zero, so the
/// same happens in every later period.
pub proof fn lemma_timer_fires_once_per_period(t: Timer, d: u64, n: nat)
    requires
        t.repeating,
        t.elapsed == 0,
        d > 0,
        n > 0,
        n * d == t.duration,
    ensures
        forall|k: nat| 0 < k < n ==> !(#[trigger] t.after_ticks(d, k)).just_finished,
        t.after_ticks(d, n).just_finished,
        t.after_ticks(d, n).elapsed == 0,
        t.after_ticks(d, n) == (Timer { just_finished: true, ..t }),
{
    assert forall|k: nat| 0 < k < n implies !(#[trigger] t.after_ticks(d, k)).just_finished by {
        lemma_ticks_below(t, d, n, k);
    }
    let p = (n - 1) as nat;
    lemma_ticks_below(t, d, n, p);
    assert(p * d + d == n * d) by (nonlinear_arith)
        requires p == n - 1;
    assert(t.after_ticks(d, n) == t.after_ticks(d, p).after_tick(d));
    assert(sat_add(t.after_ticks(d, p).elapsed, d) == t.duration);
}

proof fn lemma_ticks_below(t: Timer, d: u64, n: nat, k: nat)
    requires
        t.repeating,
        t.elapsed == 0,
        d > 0,
        n * d == t.duration,
        k < n,
    ensures
        t.after_ticks(d, k).elapsed == k * d,
        t.after_ticks(d, k) == (Timer { elapsed: t.after_ticks(d, k).elapsed,
            just_finished: t.after_ticks(d, k).just_finished, ..t }),
        k > 0 ==> !t.after_ticks(d, k).just_finished,
    decreases k,
{
    if k > 0 {
        let p = (k - 1) as nat;
        lemma_ticks_below(t, d, n, p);
        assert(p * d + d == k * d) by (nonlinear_arith)
            requires p == k - 1;
        assert(k * d < n * d) by (nonlinear_arith)
            requires k < n, d > 0;
    }
}

/// A primed timer finishes on its next tick, whatever the step.
pub proof fn lemma_primed_timer_fires(t: Timer, dt: u64)
    requires
        t.elapsed == t.duration,
    ensures
        t.after_tick(dt).just_finished,
{
}

} // verus!
