//! The tick scheduler: how many fixed-length ticks are owed since the last
//! poll, and how long the loop may rest before the next one.
//!
//! Time that does not make up a whole tick is carried over as residue, so
//! ticks are deferred but never made up or lost.

use vstd::prelude::*;
use vstd::arithmetic::div_mod::{lemma_fundamental_div_mod, lemma_fundamental_div_mod_converse};

verus! {

/// `std::time::Instant`, carried as it is: nothing inside it is visible.
#[verifier::external_type_specification]
#[verifier::external_body]
pub struct ExInstant(std::time::Instant);

/// Highest tick rate: a tick lasts a whole number of microseconds, and at
/// least one.
pub const MAX_TPS: u32 = 1_000_000;

/// Time that the operating system is given to wake the loop up: 0.5 ms.
pub const SCHEDULER_RESERVE_NANOS: u64 = 500_000;

/// Length in nanoseconds of a tick at `tps` ticks per second: the whole
/// microseconds that fit into the tick.
pub open spec fn tick_length(tps: u32) -> nat {
    ((1_000_000int / tps as int) * 1_000) as nat
}

/// Whole ticks in the time on account: the residue and what elapsed since.
pub open spec fn owed(residue: nat, elapsed: nat, tick: nat) -> nat {
    (residue + elapsed) / tick
}

/// The residue that stays on account once the whole ticks are taken out.
pub open spec fn carried(residue: nat, elapsed: nat, tick: nat) -> nat {
    (residue + elapsed) % tick
}

/// The tick count as it is reported: capped at the largest `u32`.
pub open spec fn reported(ticks: nat) -> u32 {
    if ticks <= u32::MAX {
        ticks as u32
    } else {
        u32::MAX
    }
}

/// The rest that a tick leaves after `busy` nanoseconds of work: what is
/// left of the tick once the residue, the work and the scheduler's reserve
/// are taken off, or nothing if they use the tick up.
pub open spec fn rest(residue: nat, busy: nat, tick: nat) -> Option<nat> {
    if residue + busy + SCHEDULER_RESERVE_NANOS >= tick {
        None
    } else {
        Some((tick - (residue + busy + SCHEDULER_RESERVE_NANOS)) as nat)
    }
}

/// A count of nanoseconds as a number.
pub open spec fn nanos_of(r: Option<u64>) -> Option<nat> {
    match r {
        Some(n) => Some(n as nat),
        None => None,
    }
}

/// No time is made up or lost: the owed ticks and the residue that is
/// carried add up to the time that was on account.
pub proof fn lemma_time_is_kept(residue: nat, elapsed: nat, tick: nat)
    requires
        tick > 0,
    ensures
        owed(residue, elapsed, tick) * tick + carried(residue, elapsed, tick) == residue
            + elapsed,
        carried(residue, elapsed, tick) < tick,
{
    lemma_fundamental_div_mod((residue + elapsed) as int, tick as int);
    assert(tick * ((residue + elapsed) / tick) == ((residue + elapsed) / tick) * tick)
        by (nonlinear_arith);
}

/// When exactly `k` tick lengths elapse between two polls, exactly `k` ticks
/// are owed and the residue is carried unchanged: a scheduler without
/// residue reports `k` ticks and has none afterwards.
pub proof fn lemma_whole_ticks(residue: nat, tick: nat, k: nat)
    requires
        tick > 0,
        residue < tick,
    ensures
        owed(residue, k * tick, tick) == k,
        carried(residue, k * tick, tick) == residue,
        residue == 0 ==> carried(residue, k * tick, tick) == 0,
        k <= u32::MAX ==> reported(owed(residue, k * tick, tick)) == k,
{
    lemma_fundamental_div_mod_converse(
        (residue + k * tick) as int,
        tick as int,
        k as int,
        residue as int,
    );
}

/// `Instant::now`: the current reading of the monotonic clock. Nothing is
/// claimed about it.
#[verifier::external_body]
fn instant_now() -> (r: std::time::Instant) {
    std::time::Instant::now()
}

/// `Instant::saturating_duration_since`: the time from `earlier` to `later`,
/// zero if `earlier` is the later one. Nothing is claimed about it.
#[verifier::external_body]
fn duration_between(later: &std::time::Instant, earlier: &std::time::Instant) -> (r:
    std::time::Duration) {
    later.saturating_duration_since(*earlier)
}

/// `Duration::as_nanos`: the duration in nanoseconds. Nothing is claimed
/// about it.
#[verifier::external_body]
fn duration_nanos(d: &std::time::Duration) -> (r: u128) {
    d.as_nanos()
}

/// The tick scheduler.
pub struct Timer {
    prev: std::time::Instant,
    residue_nanos: u64,
    tick_nanos: u64,
}

impl Timer {
    /// Length of a tick in nanoseconds.
    pub closed spec fn tick(&self) -> nat {
        self.tick_nanos as nat
    }

    /// Time on account that has not made up a tick yet, in nanoseconds.
    pub closed spec fn residue(&self) -> nat {
        self.residue_nanos as nat
    }

    /// A tick lasts between a microsecond and a second, and the residue is
    /// less than a tick.
    pub open spec fn wf(&self) -> bool {
        &&& 1_000 <= self.tick() <= 1_000_000_000
        &&& self.residue() < self.tick()
    }

    /// A scheduler for `expected_tps` ticks per second that starts now, with
    /// nothing on account.
    pub fn new(expected_tps: u32) -> (r: Self)
        requires
            1 <= expected_tps <= MAX_TPS,
        ensures
            r.wf(),
            r.tick() == tick_length(expected_tps),
            r.residue() == 0,
    {
        let micros: u64 = 1_000_000 / (expected_tps as u64);
        assert(1 <= micros <= 1_000_000) by (nonlinear_arith)
            requires
                1 <= expected_tps <= 1_000_000,
                micros == 1_000_000int / (expected_tps as int),
        ;
        Timer { prev: instant_now(), residue_nanos: 0, tick_nanos: micros * 1_000 }
    }

    /// Length of a tick in nanoseconds.
    pub fn tick_nanos(&self) -> (r: u64)
        ensures
            r == self.tick(),
    {
        self.tick_nanos
    }

    /// Time on account in nanoseconds.
    pub fn residue_nanos(&self) -> (r: u64)
        ensures
            r == self.residue(),
    {
        self.residue_nanos
    }

    /// Puts `elapsed_nanos` on account and takes the whole ticks out.
    ///
    /// Returns the number of ticks owed, capped at the largest `u32`; what
    /// does not make up a tick stays on account.
    pub fn advance(&mut self, elapsed_nanos: u128) -> (ticks: u32)
        requires
            old(self).wf(),
        ensures
            final(self).wf(),
            final(self).tick() == old(self).tick(),
            final(self).residue() < final(self).tick(),
            ticks == reported(owed(old(self).residue(), elapsed_nanos as nat, old(self).tick())),
            final(self).residue() == carried(
                old(self).residue(),
                elapsed_nanos as nat,
                old(self).tick(),
            ),
    {
        let tick: u128 = self.tick_nanos as u128;
        let whole: u128 = elapsed_nanos / tick;
        let part: u128 = elapsed_nanos % tick;
        let sum: u128 = part + self.residue_nanos as u128;
        proof {
            lemma_fundamental_div_mod(elapsed_nanos as int, tick as int);
            assert(whole * tick <= elapsed_nanos) by (nonlinear_arith)
                requires
                    elapsed_nanos == tick * whole + part,
                    0 <= part,
            ;
            assert(whole <= elapsed_nanos) by (nonlinear_arith)
                requires
                    whole * tick <= elapsed_nanos,
                    tick >= 1_000,
                    whole >= 0,
            ;
            assert(whole * 1_000 <= elapsed_nanos) by (nonlinear_arith)
                requires
                    whole * tick <= elapsed_nanos,
                    tick >= 1_000,
                    whole >= 0,
            ;
        }
        let owed_ticks: u128;
        let left: u128;
        if sum >= tick {
            owed_ticks = whole + 1;
            left = sum - tick;
        } else {
            owed_ticks = whole;
            left = sum;
        }
        proof {
            assert(self.residue() + elapsed_nanos == owed_ticks * tick + left) by (nonlinear_arith)
                requires
                    elapsed_nanos == tick * whole + part,
                    sum == part + self.residue(),
                    (owed_ticks == whole + 1 && left == sum - tick) || (owed_ticks == whole && left
                        == sum),
            ;
            lemma_fundamental_div_mod_converse(
                (self.residue() + elapsed_nanos) as int,
                tick as int,
                owed_ticks as int,
                left as int,
            );
        }
        self.residue_nanos = left as u64;
        if owed_ticks > u32::MAX as u128 {
            u32::MAX
        } else {
            owed_ticks as u32
        }
    }

    /// Marks the start of a pass of the loop: reads the clock, puts the time
    /// since the last poll on account and returns the number of ticks owed.
    ///
    /// Whatever the clock says, the residue afterwards is less than a tick,
    /// and ticks and residue are those of some elapsed time.
    pub fn begin(&mut self) -> (ticks: u32)
        requires
            old(self).wf(),
        ensures
            final(self).wf(),
            final(self).tick() == old(self).tick(),
            final(self).residue() < final(self).tick(),
            exists|elapsed: nat|
                ticks == reported(#[trigger] owed(old(self).residue(), elapsed, old(self).tick()))
                    && final(self).residue() == carried(
                    old(self).residue(),
                    elapsed,
                    old(self).tick(),
                ),
    {
        let now = instant_now();
        let elapsed = duration_between(&now, &self.prev);
        let nanos = duration_nanos(&elapsed);
        self.prev = now;
        let ticks = self.advance(nanos);
        assert(ticks == reported(owed(old(self).residue(), nanos as nat, old(self).tick())));
        ticks
    }

    /// The nanoseconds that the loop may rest after `busy_nanos` of work in
    /// this pass, or `None` if the work has used the tick up.
    pub fn rest_after(&self, busy_nanos: u128) -> (r: Option<u64>)
        requires
            self.wf(),
        ensures
            nanos_of(r) == rest(self.residue(), busy_nanos as nat, self.tick()),
    {
        if busy_nanos >= self.tick_nanos as u128 {
            None
        } else {
            let cost: u64 = self.residue_nanos + busy_nanos as u64 + SCHEDULER_RESERVE_NANOS;
            if cost >= self.tick_nanos {
                None
            } else {
                Some(self.tick_nanos - cost)
            }
        }
    }

    /// Marks the end of a pass of the loop: reads the clock and returns the
    /// nanoseconds to rest before the next pass, or `None` if there is no
    /// time left to rest.
    ///
    /// Whatever the clock says, the answer is the rest that some amount of
    /// work leaves.
    pub fn end(&self) -> (r: Option<u64>)
        requires
            self.wf(),
        ensures
            exists|busy: nat| #[trigger] rest(self.residue(), busy, self.tick()) == nanos_of(r),
    {
        let now = instant_now();
        let busy = duration_between(&now, &self.prev);
        let nanos = duration_nanos(&busy);
        let r = self.rest_after(nanos);
        assert(rest(self.residue(), nanos as nat, self.tick()) == nanos_of(r));
        r
    }
}

} // verus!
