//! Phase scheduler arithmetic: the four-phase timeline, the warm-up gate
//! boundary, and the linear spawn ramp. The driving loop polls a clock,
//! asks these functions what to do, and sleeps; every decision is a pure
//! function of elapsed time and the configured durations.

use vstd::prelude::*;
use crate::bytes::{saturating_add_u64, spec_sat_add};

verus! {

/// How often the scheduler polls.
pub const POLL_INTERVAL_MS: u64 = 50;

/// How often a progress line is emitted.
pub const PROGRESS_INTERVAL_MS: u64 = 5000;

/// The per-task join budget after shutdown is broadcast.
pub const JOIN_TIMEOUT_MS: u64 = 10000;

/// The four phase durations, in milliseconds.
pub struct PhaseConfig {
    pub ramp_ms: u64,
    pub warmup_ms: u64,
    pub hold_ms: u64,
    pub ramp_down_ms: u64,
}

/// The strictly sequential phases of a run.
#[derive(PartialEq, Eq, Structural, Clone, Copy, Debug)]
pub enum Phase {
    RampUp,
    WarmUp,
    Hold,
    RampDown,
    Done,
}

/// Where the warm-up gate is set: at entry to the hold phase.
pub open spec fn spec_gate_boundary(c: PhaseConfig) -> u64 {
    spec_sat_add(c.ramp_ms, c.warmup_ms)
}

/// Whether the warm-up gate should be set at elapsed time `t`.
pub open spec fn spec_gate_set(t: u64, c: PhaseConfig) -> bool {
    t >= spec_gate_boundary(c)
}

/// The phase at elapsed time `t`.
pub open spec fn spec_phase_of(t: u64, c: PhaseConfig) -> Phase {
    if t < c.ramp_ms {
        Phase::RampUp
    } else if t < spec_sat_add(c.ramp_ms, c.warmup_ms) {
        Phase::WarmUp
    } else if t < spec_sat_add(spec_sat_add(c.ramp_ms, c.warmup_ms), c.hold_ms) {
        Phase::Hold
    } else if t < spec_sat_add(
        spec_sat_add(spec_sat_add(c.ramp_ms, c.warmup_ms), c.hold_ms),
        c.ramp_down_ms,
    ) {
        Phase::RampDown
    } else {
        Phase::Done
    }
}

/// Compute the phase at elapsed time `t`.
pub fn phase_of(t: u64, c: &PhaseConfig) -> (r: Phase)
    ensures
        r == spec_phase_of(t, *c),
{
    let w = saturating_add_u64(c.ramp_ms, c.warmup_ms);
    let h = saturating_add_u64(w, c.hold_ms);
    let d = saturating_add_u64(h, c.ramp_down_ms);
    if t < c.ramp_ms {
        Phase::RampUp
    } else if t < w {
        Phase::WarmUp
    } else if t < h {
        Phase::Hold
    } else if t < d {
        Phase::RampDown
    } else {
        Phase::Done
    }
}

/// Whether the warm-up gate should be set at elapsed time `t`.
pub fn gate_set(t: u64, c: &PhaseConfig) -> (r: bool)
    ensures
        r == spec_gate_set(t, *c),
{
    t >= saturating_add_u64(c.ramp_ms, c.warmup_ms)
}

/// The warm-up gate moves from false to true exactly once over a run: it is unset
/// strictly before the hold boundary, set from the boundary on, and once
/// set at some time it is set at every later time.
pub proof fn lemma_gate_sets_once(c: PhaseConfig, t1: u64, t2: u64)
    requires
        t1 <= t2,
    ensures
        spec_gate_set(t1, c) ==> spec_gate_set(t2, c),
        !spec_gate_set(t1, c) <==> t1 < spec_gate_boundary(c),
{
}

/// The warm-up gate is set exactly in the phases from hold onward.
pub proof fn lemma_gate_iff_hold_reached(t: u64, c: PhaseConfig)
    ensures
        spec_gate_set(t, c) <==> (spec_phase_of(t, c) is Hold || spec_phase_of(t, c) is RampDown
            || spec_phase_of(t, c) is Done),
{
}

/// The spawn target at `elapsed` into the ramp: `floor(elapsed * n /
/// ramp)`, clamped to `n`; the whole target at once when the ramp has no
/// duration.
pub open spec fn spec_ramp_target(elapsed_ms: u64, ramp_ms: u64, n: usize) -> int {
    if ramp_ms == 0 || elapsed_ms >= ramp_ms {
        n as int
    } else {
        (elapsed_ms * n) / (ramp_ms as int)
    }
}

/// Compute the spawn target; it never exceeds `n`.
pub fn ramp_target(elapsed_ms: u64, ramp_ms: u64, n: usize) -> (r: usize)
    ensures
        r == spec_ramp_target(elapsed_ms, ramp_ms, n),
        r <= n,
{
    if ramp_ms == 0 || elapsed_ms >= ramp_ms {
        n
    } else {
        proof {
            vstd::arithmetic::mul::lemma_mul_upper_bound(
                elapsed_ms as int,
                u64::MAX as int,
                n as int,
                u64::MAX as int,
            );
        }
        let q: u128 = (elapsed_ms as u128) * (n as u128) / (ramp_ms as u128);
        proof {
            assert((elapsed_ms as int) * (n as int) <= (ramp_ms as int) * (n as int))
                by (nonlinear_arith)
                requires
                    elapsed_ms as int <= ramp_ms as int,
                    n as int >= 0,
            ;
            assert(((ramp_ms as int) * (n as int)) / (ramp_ms as int) == n as int)
                by (nonlinear_arith)
                requires
                    ramp_ms as int > 0,
            ;
            vstd::arithmetic::div_mod::lemma_div_is_ordered(
                (elapsed_ms as int) * (n as int),
                (ramp_ms as int) * (n as int),
                ramp_ms as int,
            );
        }
        q as usize
    }
}

/// The spawn target never decreases as time advances.
pub proof fn lemma_ramp_target_monotone(e1: u64, e2: u64, ramp_ms: u64, n: usize)
    requires
        e1 <= e2,
    ensures
        spec_ramp_target(e1, ramp_ms, n) <= spec_ramp_target(e2, ramp_ms, n),
{
    if ramp_ms == 0 || e1 >= ramp_ms {
    } else if e2 >= ramp_ms {
        assert((e1 as int) * (n as int) <= (ramp_ms as int) * (n as int)) by (nonlinear_arith)
            requires
                e1 as int <= ramp_ms as int,
                n as int >= 0,
        ;
        assert(((ramp_ms as int) * (n as int)) / (ramp_ms as int) == n as int) by (nonlinear_arith)
            requires
                ramp_ms as int > 0,
        ;
        vstd::arithmetic::div_mod::lemma_div_is_ordered(
            (e1 as int) * (n as int),
            (ramp_ms as int) * (n as int),
            ramp_ms as int,
        );
    } else {
        assert((e1 as int) * (n as int) <= (e2 as int) * (n as int)) by (nonlinear_arith)
            requires
                e1 as int <= e2 as int,
                n as int >= 0,
        ;
        vstd::arithmetic::div_mod::lemma_div_is_ordered(
            (e1 as int) * (n as int),
            (e2 as int) * (n as int),
            ramp_ms as int,
        );
    }
}

/// How many clients to spawn at this poll to reach the target.
pub fn spawn_now(target: usize, spawned: usize) -> (r: usize)
    ensures
        r == if target >= spawned { target - spawned } else { 0 },
{
    if target >= spawned {
        target - spawned
    } else {
        0
    }
}

/// The task id of the `i`-th spawned client under a numeric offset:
/// exact addition, so distinct clients get distinct ids. The caller
/// rejects an offset too close to the ceiling as a configuration error
/// before any client is spawned.
pub fn client_id(offset: u64, i: u64) -> (r: u64)
    requires
        offset + i <= u64::MAX,
    ensures
        r == offset + i,
{
    offset + i
}

/// Whether a progress line is due.
pub fn progress_due(since_last_ms: u64) -> (r: bool)
    ensures
        r == (since_last_ms >= PROGRESS_INTERVAL_MS),
{
    since_last_ms >= PROGRESS_INTERVAL_MS
}

} // verus!
