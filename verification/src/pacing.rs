//! The rule by which every loop of a run keeps to its frequency: run a tick
//! once a full period has passed, and sleep through most of what is left of
//! the period otherwise. Times are in nanoseconds.

use vstd::prelude::*;

verus! {

pub const NANOS_PER_SECOND: u64 = 1_000_000_000;

/// What a loop does next.
#[derive(Debug, Clone, Copy, PartialEq, Eq, Structural)]
pub enum Action {
    /// Leave the loop: a fault has been recorded.
    Stop,
    /// Run a tick, handing it the time since the tick before.
    Tick(u64),
    /// Sleep for the given time and look again.
    Sleep(u64),
}

/// The period of a loop at `frequency` Hz: the least whole number of
/// nanoseconds that is no shorter than `1 / frequency` seconds, so that a
/// loop which waits for it has waited a full period. It is zero for
/// frequency zero, which asks for a loop that runs as fast as it can.
pub open spec fn spec_interval(frequency: u64) -> u64 {
    if frequency == 0 {
        0
    } else if NANOS_PER_SECOND % frequency == 0 {
        (NANOS_PER_SECOND / frequency) as u64
    } else {
        (NANOS_PER_SECOND / frequency + 1) as u64
    }
}

/// The time to sleep with `remaining` left of the period: four fifths of it,
/// so that the loop wakes early and watches the clock for the rest.
pub open spec fn spec_nap(remaining: u64) -> u64 {
    (remaining * 4 / 5) as u64
}

pub fn interval_nanos(frequency: u64) -> (interval: u64)
    ensures
        interval == spec_interval(frequency),
{
    if frequency == 0 {
        0
    } else if NANOS_PER_SECOND % frequency == 0 {
        NANOS_PER_SECOND / frequency
    } else {
        NANOS_PER_SECOND / frequency + 1
    }
}

/// The pace keeper of one loop.
#[derive(Debug, Clone, Copy)]
pub struct Pacer {
    /// The period of the loop.
    pub interval: u64,
    /// The time of the last tick, or of the start of the loop before the first.
    pub prev_time: u64,
}

impl Pacer {
    /// A pace keeper for a loop at `frequency` Hz that starts at time `now`.
    pub fn new(frequency: u64, now: u64) -> (pacer: Pacer)
        ensures
            pacer.interval == spec_interval(frequency),
            pacer.prev_time == now,
    {
        Pacer { interval: interval_nanos(frequency), prev_time: now }
    }

    /// The time since the last tick; zero where the clock has gone backwards.
    pub open spec fn elapsed(self, now: u64) -> u64 {
        if now >= self.prev_time {
            (now - self.prev_time) as u64
        } else {
            0
        }
    }

    /// What the loop does at time `now`. `running` says whether the fault
    /// cell is still empty.
    pub open spec fn spec_next(self, now: u64, running: bool) -> Action {
        if !running {
            Action::Stop
        } else if self.elapsed(now) >= self.interval {
            Action::Tick(self.elapsed(now))
        } else {
            Action::Sleep(spec_nap((self.interval - self.elapsed(now)) as u64))
        }
    }

    /// Decides what the loop does at time `now`, and counts the period anew
    /// from `now` where that is a tick.
    pub fn next(&mut self, now: u64, running: bool) -> (action: Action)
        ensures
            action == old(self).spec_next(now, running),
            final(self).interval == old(self).interval,
            final(self).prev_time == if action is Tick {
                now
            } else {
                old(self).prev_time
            },
    {
        if !running {
            return Action::Stop;
        }
        let elapsed = if now >= self.prev_time {
            now - self.prev_time
        } else {
            0
        };
        if elapsed >= self.interval {
            self.prev_time = now;
            Action::Tick(elapsed)
        } else {
            let remaining = self.interval - elapsed;
            Action::Sleep(((remaining as u128) * 4 / 5) as u64)
        }
    }
}

/// The period is a full period and the least such: `spec_interval(f)`
/// nanoseconds are at least `1 / f` seconds, and one nanosecond less is not.
pub proof fn lemma_interval_is_least_full_period(frequency: u64)
    requires
        frequency > 0,
    ensures
        spec_interval(frequency) * frequency >= NANOS_PER_SECOND,
        (spec_interval(frequency) - 1) * frequency < NANOS_PER_SECOND,
{
    let f = frequency as int;
    let q = NANOS_PER_SECOND as int / f;
    let r = NANOS_PER_SECOND as int % f;
    assert(NANOS_PER_SECOND == 1_000_000_000);
    assert(q * f + r == 1_000_000_000 && 0 <= r < f) by (nonlinear_arith)
        requires
            f > 0,
            q == 1_000_000_000int / f,
            r == 1_000_000_000int % f,
    ;
    assert((q + 1) * f == q * f + f && (q - 1) * f == q * f - f) by (nonlinear_arith);
}

/// A paced loop runs a tick only when a full period has passed since the
/// tick before, and always then: while the run is sound, a loop at `f` Hz
/// ticks at time `now` exactly when the time elapsed is at least `1 / f`
/// seconds, and it hands the tick exactly that time.
pub proof fn lemma_tick_after_full_period(pacer: Pacer, frequency: u64, now: u64)
    requires
        frequency > 0,
        pacer.interval == spec_interval(frequency),
    ensures
        pacer.spec_next(now, true) is Tick <==> pacer.elapsed(now) * frequency >= NANOS_PER_SECOND,
        pacer.spec_next(now, true) matches Action::Tick(elapsed) ==> elapsed == pacer.elapsed(now),
        !(pacer.spec_next(now, true) is Stop),
{
    lemma_interval_is_least_full_period(frequency);
    let e = pacer.elapsed(now) as int;
    let n = pacer.interval as int;
    let f = frequency as int;
    if e >= n {
        assert(e * f >= n * f) by (nonlinear_arith)
            requires
                e >= n,
                f > 0,
        ;
    } else {
        assert(e * f <= (n - 1) * f) by (nonlinear_arith)
            requires
                e <= n - 1,
                f > 0,
        ;
    }
}

/// A loop at frequency zero never sleeps: while the run is sound, every look
/// at the clock is a tick.
pub proof fn lemma_unpaced_loop_always_ticks(pacer: Pacer, now: u64)
    requires
        pacer.interval == spec_interval(0),
    ensures
        pacer.spec_next(now, true) is Tick,
{
}

/// A loop never sleeps past the end of its period, and a fault stops it
/// whatever the time.
pub proof fn lemma_sleep_is_short(pacer: Pacer, now: u64, running: bool)
    ensures
        pacer.spec_next(now, running) matches Action::Sleep(nap) ==> pacer.elapsed(now) + nap
            < pacer.interval,
        !running ==> pacer.spec_next(now, running) is Stop,
{
}

} // verus!
