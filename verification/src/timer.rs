//! A repeating countdown, driven by the engine's timer.

use bevy::time::{Timer, TimerMode};
use std::time::Duration;
use vstd::arithmetic::div_mod::{
    lemma_basic_div, lemma_div_pos_is_pos, lemma_fundamental_div_mod,
    lemma_fundamental_div_mod_converse, lemma_mod_bound,
};
use vstd::prelude::*;

verus! {

/// A timer that expires every `interval_ns` nanoseconds and starts over,
/// carrying the time beyond an expiry into the next round.
#[derive(Clone, Copy, Debug, PartialEq, Eq, Structural)]
pub struct RepeatingTimer {
    /// Length of one round.
    pub interval_ns: u64,
    /// Time spent in the current round.
    pub elapsed_ns: u64,
}

/// Calls `bevy::time::Timer::tick` on a timer in repeating mode that was made
/// by `Timer::new` and put to `elapsed_ns` by `Timer::set_elapsed`, and reads
/// the outcome by `Timer::elapsed` and `Timer::times_finished_this_tick`.
///
/// Not proved, but taken from the engine's source: a repeating timer of length
/// `interval_ns` that stood at `elapsed_ns` and is ticked by `delta_ns` stands
/// at the remainder of `elapsed_ns + delta_ns` by the interval afterwards, and
/// reports the quotient as the number of times it finished. The engine
/// divides by the interval and keeps the count in 32 bits, hence the two
/// preconditions.
#[verifier::external_body]
fn tick_repeating(interval_ns: u64, elapsed_ns: u64, delta_ns: u64) -> (out: (u64, u32))
    requires
        interval_ns > 0,
        (elapsed_ns + delta_ns) / (interval_ns as int) <= u32::MAX,
    ensures
        out.0 == (elapsed_ns + delta_ns) % (interval_ns as int),
        out.1 == (elapsed_ns + delta_ns) / (interval_ns as int),
{
    let mut timer = Timer::new(Duration::from_nanos(interval_ns), TimerMode::Repeating);
    timer.set_elapsed(Duration::from_nanos(elapsed_ns));
    timer.tick(Duration::from_nanos(delta_ns));
    (timer.elapsed().as_nanos() as u64, timer.times_finished_this_tick())
}

impl RepeatingTimer {
    /// The interval is positive and the current round is not yet over.
    pub open spec fn wf(self) -> bool {
        0 < self.interval_ns && self.elapsed_ns < self.interval_ns
    }

    /// Time left until the next expiry.
    pub open spec fn remaining(self) -> int {
        self.interval_ns - self.elapsed_ns
    }

    /// How often the timer expires when `dt_ns` nanoseconds pass.
    pub open spec fn expiries(self, dt_ns: int) -> int {
        (self.elapsed_ns + dt_ns) / (self.interval_ns as int)
    }

    /// The timer after `dt_ns` nanoseconds have passed.
    pub open spec fn after(self, dt_ns: int) -> RepeatingTimer {
        RepeatingTimer {
            interval_ns: self.interval_ns,
            elapsed_ns: ((self.elapsed_ns + dt_ns) % (self.interval_ns as int)) as u64,
        }
    }

    /// A timer at the start of its first round; `None` for an interval of zero.
    pub fn new(interval_ns: u64) -> (timer: Option<RepeatingTimer>)
        ensures
            interval_ns == 0 <==> timer.is_none(),
            timer matches Some(t) ==> t.wf() && t.interval_ns == interval_ns && t.elapsed_ns == 0,
    {
        if interval_ns == 0 {
            None
        } else {
            Some(RepeatingTimer { interval_ns, elapsed_ns: 0 })
        }
    }

    /// Time left until the next expiry.
    pub fn remaining_ns(&self) -> (left: u64)
        requires
            self.wf(),
        ensures
            left == self.remaining(),
            left > 0,
    {
        self.interval_ns - self.elapsed_ns
    }

    /// Whether [`RepeatingTimer::tick`] can count the expiries of `dt_ns`.
    pub fn can_tick(&self, dt_ns: u64) -> (ok: bool)
        requires
            self.wf(),
        ensures
            ok == (self.expiries(dt_ns as int) <= u32::MAX),
    {
        let total: u128 = self.elapsed_ns as u128 + dt_ns as u128;
        total / (self.interval_ns as u128) <= u32::MAX as u128
    }

    /// Lets `dt_ns` nanoseconds pass and returns how often the timer expired.
    pub fn tick(&mut self, dt_ns: u64) -> (times: u32)
        requires
            old(self).wf(),
            old(self).expiries(dt_ns as int) <= u32::MAX,
        ensures
            *final(self) == old(self).after(dt_ns as int),
            times == old(self).expiries(dt_ns as int),
            final(self).wf(),
    {
        let (elapsed, times) = tick_repeating(self.interval_ns, self.elapsed_ns, dt_ns);
        self.elapsed_ns = elapsed;
        times
    }
}

/// Letting exactly one interval pass makes the timer expire exactly once and
/// leaves it where it stood: a timer at the start of a round has the whole
/// interval ahead of it again.
pub proof fn lemma_one_interval_one_expiry(timer: RepeatingTimer)
    requires
        timer.wf(),
    ensures
        timer.expiries(timer.interval_ns as int) == 1,
        timer.after(timer.interval_ns as int) == timer,
        timer.elapsed_ns == 0 ==> timer.after(timer.interval_ns as int).remaining()
            == timer.interval_ns,
{
    let n = timer.interval_ns as int;
    let e = timer.elapsed_ns as int;
    assert(n * 1 + e == e + n) by (nonlinear_arith);
    lemma_fundamental_div_mod_converse(e + n, n, 1, e);
}

/// Time may pass in one span or in two: the timer ends in the same place and
/// expires as often in total.
pub proof fn lemma_tick_in_two_steps(timer: RepeatingTimer, first_ns: int, second_ns: int)
    requires
        timer.wf(),
        0 <= first_ns,
        0 <= second_ns,
    ensures
        timer.after(first_ns).wf(),
        timer.after(first_ns).after(second_ns) == timer.after(first_ns + second_ns),
        timer.expiries(first_ns) + timer.after(first_ns).expiries(second_ns) == timer.expiries(
            first_ns + second_ns,
        ),
{
    let n = timer.interval_ns as int;
    let x = timer.elapsed_ns + first_ns;
    let q1 = x / n;
    let r1 = x % n;
    lemma_fundamental_div_mod(x, n);
    lemma_mod_bound(x, n);
    let y = r1 + second_ns;
    let q2 = y / n;
    let r2 = y % n;
    lemma_fundamental_div_mod(y, n);
    lemma_mod_bound(y, n);
    assert(n * (q1 + q2) + r2 == x + second_ns) by (nonlinear_arith)
        requires
            x == n * q1 + r1,
            r1 + second_ns == n * q2 + r2,
    ;
    lemma_fundamental_div_mod_converse(x + second_ns, n, q1 + q2, r2);
}

/// A timer at the start of its first round has expired, after `total_ns`
/// nanoseconds, once for each whole interval in that span.
pub proof fn lemma_expiries_from_start(interval_ns: u64, total_ns: int)
    requires
        interval_ns > 0,
        0 <= total_ns,
    ensures
        (RepeatingTimer { interval_ns, elapsed_ns: 0 }).expiries(total_ns) == total_ns / (
        interval_ns as int),
{
}

/// A sound timer never expires a negative number of times.
pub proof fn lemma_expiries_are_counted(timer: RepeatingTimer, dt_ns: int)
    requires
        timer.wf(),
        0 <= dt_ns,
    ensures
        timer.expiries(dt_ns) >= 0,
        dt_ns == 0 ==> timer.expiries(dt_ns) == 0,
{
    lemma_div_pos_is_pos(timer.elapsed_ns + dt_ns, timer.interval_ns as int);
    if dt_ns == 0 {
        lemma_basic_div(timer.elapsed_ns as int, timer.interval_ns as int);
    }
}

} // verus!
