//! The emission timer of a trail.
use std::time::Duration;

use bevy::time::{Timer, TimerMode};
use vstd::prelude::*;

verus! {

/// A stretch of time, in whole seconds and the nanoseconds left over.
#[derive(Clone, Copy, PartialEq, Eq, Structural, Debug)]
pub struct Span {
    pub secs: u64,
    pub nanos: u32,
}

impl Span {
    /// The leftover nanoseconds do not make another second.
    pub open spec fn wf(self) -> bool {
        self.nanos < 1_000_000_000
    }

    /// The stretch in nanoseconds.
    pub open spec fn total(self) -> int {
        self.secs * 1_000_000_000 + self.nanos
    }
}

/// The longest time a timer can have measured, in nanoseconds.
pub open spec fn longest() -> int {
    u64::MAX * 1_000_000_000 + 999_999_999
}

/// What a timer that stood at `elapsed` has measured after `delta` more.
pub open spec fn measured(elapsed: int, delta: int) -> int {
    if elapsed + delta <= longest() {
        elapsed + delta
    } else {
        longest()
    }
}

/// Whether a repeating timer completes a period while it measures up to
/// `measured`. It counts completed periods in 32 bits; a count that wraps to
/// zero is lost.
pub open spec fn completes(period: int, measured: int) -> bool {
    period <= measured && (period == 0 || (measured / period) % 0x1_0000_0000 != 0)
}

/// What stays on a repeating timer that measured `measured`: the part after
/// the last completed period, kept in 64 bits of nanoseconds.
pub open spec fn carried(period: int, measured: int) -> int {
    if measured < period {
        measured
    } else if period == 0 {
        0
    } else {
        (measured % period) % 0x1_0000_0000_0000_0000
    }
}

/// Ticks a repeating [`bevy::time::Timer`] of the given period that stands at
/// `elapsed`, by [`Timer::tick`], and returns what it stands at afterwards
/// ([`Timer::elapsed`]) and whether it completed a period
/// ([`Timer::just_finished`]). Claimed of `tick`: it adds `delta` to the
/// elapsed time, up to the longest duration there is; it completes when that
/// reaches the period; and it then carries over the remainder. A running timer
/// takes nothing but its elapsed time from one tick to the next.
#[verifier::external_body]
fn tick_repeating(period: Span, elapsed: Span, delta: Span) -> (after: (Span, bool))
    requires
        period.wf(),
        elapsed.wf(),
        delta.wf(),
    ensures
        after.0.wf(),
        after.0.total() == carried(period.total(), measured(elapsed.total(), delta.total())),
        after.1 == completes(period.total(), measured(elapsed.total(), delta.total())),
{
    let mut timer = Timer::new(Duration::new(period.secs, period.nanos), TimerMode::Repeating);
    timer.set_elapsed(Duration::new(elapsed.secs, elapsed.nanos));
    timer.tick(Duration::new(delta.secs, delta.nanos));
    let left = timer.elapsed();
    (Span { secs: left.as_secs(), nanos: left.subsec_nanos() }, timer.just_finished())
}

/// Fires once per period of measured time.
#[derive(Clone, Copy, PartialEq, Eq, Structural, Debug)]
pub struct EmitTimer {
    pub period: Span,
    pub elapsed: Span,
}

impl EmitTimer {
    pub open spec fn wf(self) -> bool {
        self.period.wf() && self.elapsed.wf()
    }

    /// What the timer has measured once `delta` more has passed.
    pub open spec fn reaches(self, delta: Span) -> int {
        measured(self.elapsed.total(), delta.total())
    }

    /// Whether a tick by `delta` fires.
    pub open spec fn fires(self, delta: Span) -> bool {
        completes(self.period.total(), self.reaches(delta))
    }

    pub fn new(period: Span) -> (timer: EmitTimer)
        requires
            period.wf(),
        ensures
            timer.wf(),
            timer.period == period,
            timer.elapsed.total() == 0,
    {
        EmitTimer { period, elapsed: Span { secs: 0, nanos: 0 } }
    }

    /// Lets `delta` pass, and tells whether the timer fired.
    pub fn tick(&mut self, delta: Span) -> (fired: bool)
        requires
            old(self).wf(),
            delta.wf(),
        ensures
            final(self).wf(),
            final(self).period == old(self).period,
            final(self).elapsed.total() == carried(
                old(self).period.total(),
                old(self).reaches(delta),
            ),
            fired == old(self).fires(delta),
            old(self).reaches(delta) < old(self).period.total() ==> !fired,
            old(self).period.total() <= old(self).reaches(delta) && old(self).reaches(delta)
                < 0x1_0000_0000 * old(self).period.total() ==> fired,
    {
        proof {
            if self.period.total() <= self.reaches(delta) && self.reaches(delta) < 0x1_0000_0000
                * self.period.total() {
                law_reaching_the_period_fires(*self, delta);
            }
        }
        let (elapsed, fired) = tick_repeating(self.period, self.elapsed, delta);
        self.elapsed = elapsed;
        fired
    }
}

/// A timer with a positive period never stands at a whole period or more.
pub proof fn law_elapsed_stays_below_period(timer: EmitTimer, delta: Span)
    requires
        timer.wf(),
        delta.wf(),
        0 < timer.period.total(),
    ensures
        0 <= carried(timer.period.total(), timer.reaches(delta)) < timer.period.total(),
{
    let period = timer.period.total();
    let reached = timer.reaches(delta);
    if reached >= period {
        let left = reached % period;
        assert(0 <= left < period) by (nonlinear_arith)
            requires
                left == reached % period,
                0 < period,
        ;
        if left < 0x1_0000_0000_0000_0000 {
            vstd::arithmetic::div_mod::lemma_small_mod(left as nat, 0x1_0000_0000_0000_0000);
        }
    }
}

/// Ticks that together stay short of the period do not fire, and the time they
/// measured adds up.
pub proof fn law_short_ticks_add_up(timer: EmitTimer, delta: Span)
    requires
        timer.wf(),
        delta.wf(),
        timer.elapsed.total() + delta.total() < timer.period.total(),
    ensures
        !timer.fires(delta),
        carried(timer.period.total(), timer.reaches(delta)) == timer.elapsed.total()
            + delta.total(),
{
}

/// A tick that reaches the period fires, if it completes fewer than 2^32
/// periods at once.
pub proof fn law_reaching_the_period_fires(timer: EmitTimer, delta: Span)
    requires
        timer.wf(),
        delta.wf(),
        timer.period.total() <= timer.reaches(delta),
        timer.reaches(delta) < 0x1_0000_0000 * timer.period.total(),
    ensures
        timer.fires(delta),
{
    let period = timer.period.total();
    let reached = timer.reaches(delta);
    let count = reached / period;
    vstd::arithmetic::div_mod::lemma_fundamental_div_mod(reached, period);
    assert(1 <= count < 0x1_0000_0000) by (nonlinear_arith)
        requires
            reached == period * count + reached % period,
            0 <= reached % period < period,
            period <= reached < 0x1_0000_0000 * period,
    ;
    vstd::arithmetic::div_mod::lemma_small_mod(count as nat, 0x1_0000_0000);
}

/// A tick in numbers: time adds up to the longest that can be measured; the
/// timer fires when the period is reached, unless the count of completed periods
/// is a multiple of 2^32; and what stays is what whole periods leave over.
pub proof fn law_tick_in_numbers(timer: EmitTimer, delta: Span)
    requires
        timer.wf(),
        delta.wf(),
    ensures
        ({
            let period = timer.period.secs * 1_000_000_000 + timer.period.nanos;
            let sum = timer.elapsed.secs * 1_000_000_000 + timer.elapsed.nanos + delta.secs
                * 1_000_000_000 + delta.nanos;
            let most = 0xffff_ffff_ffff_ffffint * 1_000_000_000 + 999_999_999;
            let reached = if sum <= most {
                sum
            } else {
                most
            };
            &&& timer.reaches(delta) == reached
            &&& reached < period ==> !timer.fires(delta)
            &&& period == 0 ==> timer.fires(delta)
            &&& 0 < period <= reached ==> (timer.fires(delta) <==> (reached / period)
                % 0x1_0000_0000 != 0)
            &&& reached < period ==> carried(period, reached) == reached
            &&& period == 0 ==> carried(period, reached) == 0
            &&& 0 < period <= reached ==> carried(period, reached) == (reached % period)
                % 0x1_0000_0000_0000_0000
        }),
{
}

/// A span is its seconds and the nanoseconds left over.
pub proof fn law_span_in_nanoseconds(span: Span)
    ensures
        span.total() == span.secs * 1_000_000_000 + span.nanos,
        span.wf() <==> span.nanos < 1_000_000_000,
{
}

} // verus!
