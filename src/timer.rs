//! Decisions of the best-effort nanosecond sleep built on a free-running
//! 1 MHz hardware counter: a coarse operating-system sleep for the bulk of a
//! long request, then busy-waiting on the counter for what is left.
use vstd::prelude::*;

verus! {

/// The largest counter value; the next tick wraps to 0.
pub const TIMER_MAX: u32 = 0xFFFF_FFFF;
/// Scheduler jitter that a coarse sleep is allowed to add.
pub const JITTER_ALLOWANCE_NANOS: u32 = 60_000;
/// Requests up to this long are busy-waited entirely.
pub const COARSE_SLEEP_THRESHOLD_NANOS: u32 = 65_000;
/// Nanoseconds per counter tick (the counter runs at 1 MHz).
pub const NANOS_PER_TICK: u32 = 1000;

/// What the sleeper does next.
#[derive(Copy, Clone, Debug, PartialEq, Eq, Structural)]
pub enum SleepStep {
    /// Read the counter, sleep coarsely for `nanos` nanoseconds, and read
    /// the counter again.
    Coarse { nanos: u32 },
    /// Read the counter, then keep reading it until `ticks` ticks have
    /// passed.
    Spin { ticks: u32 },
    /// The requested time has passed.
    Done,
}

/// Counter ticks between the readings `before` and `after`; a later reading
/// that is numerically smaller means the counter wrapped once.
pub open spec fn elapsed_ticks_spec(before: u32, after: u32) -> nat {
    if after >= before {
        (after - before) as nat
    } else {
        (after + TIMER_MAX - before) as nat
    }
}

/// Whole counter ticks that cover `nanos` nanoseconds (rounded up).
pub open spec fn ticks_covering(nanos: nat) -> nat {
    ((nanos + NANOS_PER_TICK - 1) / (NANOS_PER_TICK as int)) as nat
}

/// Busy-waiting for at least `nanos` nanoseconds, in whole counter ticks.
pub open spec fn spin_step(nanos: nat) -> SleepStep {
    if nanos == 0 {
        SleepStep::Done
    } else {
        SleepStep::Spin { ticks: ticks_covering(nanos) as u32 }
    }
}

/// The first step of sleeping `nanos` nanoseconds: a long request sleeps
/// coarsely for all but the jitter allowance; a short one is busy-waited.
pub open spec fn first_step(nanos: u32) -> SleepStep {
    if nanos > COARSE_SLEEP_THRESHOLD_NANOS {
        SleepStep::Coarse { nanos: (nanos - JITTER_ALLOWANCE_NANOS) as u32 }
    } else {
        spin_step(nanos as nat)
    }
}

/// The step after a coarse sleep for a request of `nanos`, read between
/// counter values `before` and `after`: done if the measured time already
/// covers the request, else busy-wait for the rest.
pub open spec fn step_after_coarse(nanos: u32, before: u32, after: u32) -> SleepStep {
    let spent = NANOS_PER_TICK * elapsed_ticks_spec(before, after);
    if spent >= nanos {
        SleepStep::Done
    } else {
        spin_step((nanos - spent) as nat)
    }
}

proof fn lemma_ticks_cover(nanos: nat)
    requires
        nanos <= u32::MAX,
    ensures
        NANOS_PER_TICK * ticks_covering(nanos) >= nanos,
        ticks_covering(nanos) <= u32::MAX,
        nanos > 0 ==> ticks_covering(nanos) > 0,
{
    let t = ticks_covering(nanos);
    assert((nanos + 999) / 1000 * 1000 + (nanos + 999) % 1000 == nanos + 999) by (nonlinear_arith);
    assert(0 <= (nanos + 999) % 1000 < 1000) by (nonlinear_arith);
    assert(t * 1000 <= nanos + 999) by (nonlinear_arith)
        requires
            t == (nanos + 999) / 1000,
    ;
}

/// Busy-waiting as planned covers the request: if a sleep of `nanos`
/// nanoseconds starts with a spin of `ticks` ticks, or goes on with one
/// after a coarse sleep measured between `before` and `after`, then once
/// the spin reads `ticks` elapsed ticks between `start` and `now`, at least
/// `nanos` nanoseconds of counter time have passed.
pub proof fn lemma_sleep_covers_request(
    nanos: u32,
    before: u32,
    after: u32,
    start: u32,
    now: u32,
    ticks: u32,
)
    ensures
        first_step(nanos) == (SleepStep::Spin { ticks }) && elapsed_ticks_spec(start, now) >= ticks
            ==> NANOS_PER_TICK * elapsed_ticks_spec(start, now) >= nanos,
        step_after_coarse(nanos, before, after) == (SleepStep::Spin { ticks })
            && elapsed_ticks_spec(start, now) >= ticks ==> NANOS_PER_TICK * (elapsed_ticks_spec(
            before,
            after,
        ) + elapsed_ticks_spec(start, now)) >= nanos,
        step_after_coarse(nanos, before, after) == SleepStep::Done ==> NANOS_PER_TICK
            * elapsed_ticks_spec(before, after) >= nanos,
        first_step(nanos) == SleepStep::Done ==> nanos == 0,
{
    lemma_ticks_cover(nanos as nat);
    let spent = NANOS_PER_TICK * elapsed_ticks_spec(before, after);
    if spent < nanos {
        lemma_ticks_cover((nanos - spent) as nat);
    }
    let e = elapsed_ticks_spec(start, now);
    assert(ticks as nat <= e ==> 1000 * (ticks as nat) <= 1000 * e) by (nonlinear_arith);
}

/// Counter ticks between the readings `before` and `after`.
pub fn elapsed_ticks(before: u32, after: u32) -> (r: u64)
    ensures
        r == elapsed_ticks_spec(before, after),
{
    if after >= before {
        (after - before) as u64
    } else {
        after as u64 + (TIMER_MAX - before) as u64
    }
}

fn spin_for(nanos: u64) -> (r: SleepStep)
    requires
        nanos <= u32::MAX,
    ensures
        r == spin_step(nanos as nat),
{
    if nanos == 0 {
        SleepStep::Done
    } else {
        let ticks = (nanos + (NANOS_PER_TICK as u64 - 1)) / (NANOS_PER_TICK as u64);
        SleepStep::Spin { ticks: ticks as u32 }
    }
}

/// How to begin a sleep of `nanos` nanoseconds.
pub fn plan_sleep(nanos: u32) -> (r: SleepStep)
    ensures
        r == first_step(nanos),
        r matches SleepStep::Spin { ticks } ==> NANOS_PER_TICK * ticks >= nanos,
{
    proof {
        lemma_ticks_cover(nanos as nat);
    }
    if nanos > COARSE_SLEEP_THRESHOLD_NANOS {
        SleepStep::Coarse { nanos: nanos - JITTER_ALLOWANCE_NANOS }
    } else {
        spin_for(nanos as u64)
    }
}

/// How to go on after a coarse sleep for a request of `nanos` nanoseconds,
/// with counter readings `before` and `after` the sleep.
pub fn after_coarse_sleep(nanos: u32, before: u32, after: u32) -> (r: SleepStep)
    ensures
        r == step_after_coarse(nanos, before, after),
        r == SleepStep::Done ==> NANOS_PER_TICK * elapsed_ticks_spec(before, after) >= nanos,
        r matches SleepStep::Spin { ticks } ==> NANOS_PER_TICK * (elapsed_ticks_spec(before, after)
            + ticks) >= nanos,
{
    proof {
        let spent = NANOS_PER_TICK * elapsed_ticks_spec(before, after);
        if spent < nanos {
            lemma_ticks_cover((nanos - spent) as nat);
        }
    }
    let ticks = elapsed_ticks(before, after);
    if ticks >= nanos as u64 {
        // a thousand nanoseconds per tick: at least `nanos` have passed
        SleepStep::Done
    } else {
        assert(ticks * 1000 <= 0xFFFF_FFFFu64 * 1000) by (nonlinear_arith)
            requires
                ticks < 0x1_0000_0000u64,
        ;
        let spent = ticks * (NANOS_PER_TICK as u64);
        if spent >= nanos as u64 {
            SleepStep::Done
        } else {
            spin_for(nanos as u64 - spent)
        }
    }
}

/// Whether busy-waiting that began at counter reading `start` and now reads
/// `now` has waited `ticks` ticks.
pub fn spin_finished(start: u32, now: u32, ticks: u32) -> (r: bool)
    ensures
        r == (elapsed_ticks_spec(start, now) >= ticks),
{
    elapsed_ticks(start, now) >= ticks as u64
}

} // verus!
