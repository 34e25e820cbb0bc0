//! When fixed-step and variable-step updates fire. Time is counted in
//! nanoseconds; the host measures wall time and runs the hooks.
use vstd::prelude::*;
use vstd::arithmetic::div_mod::lemma_fundamental_div_mod_converse;

verus! {

/// Nanoseconds in one second.
pub const NANOS_PER_SECOND: u64 = 1_000_000_000;

/// The default fixed step: 24 fixed updates per second.
pub const DEFAULT_FIXED_STEP: u64 = 41_666_667;

/// How many fixed updates an accumulated `total` pays for.
pub open spec fn fixed_updates_for(total: int, step: int) -> int {
    total / step
}

/// What is left of `total` once the fixed updates are paid.
pub open spec fn fixed_residual(total: int, step: int) -> int {
    total % step
}

/// What one iteration of the loop does after the events are dispatched.
#[derive(Debug, Clone, Copy, PartialEq, Eq, Structural)]
pub struct FrameStep {
    /// Times the fixed-update hook runs, each with the fixed step as elapsed time.
    pub fixed_updates: u128,
    /// Whether update and render run at all this iteration.
    pub run_update: bool,
    /// Elapsed time handed to the update hook.
    pub update_delta: u128,
}

/// The two time accumulators and their configuration.
#[derive(Debug, Clone, Copy, PartialEq, Eq, Structural)]
pub struct FrameClock {
    pub fixed_step: u64,
    pub frame_interval: Option<u64>,
    pub variable_acc: u128,
    pub fixed_acc: u128,
}

impl FrameClock {
    /// Both accumulators stay below one step or interval between iterations.
    pub open spec fn wf(self) -> bool {
        &&& self.fixed_step > 0
        &&& self.fixed_acc < self.fixed_step
        &&& match self.frame_interval {
            Some(n) => self.variable_acc < n,
            None => self.variable_acc == 0,
        }
    }

    /// A clock with empty accumulators.
    pub fn new(fixed_step: u64, frame_interval: Option<u64>) -> (r: FrameClock)
        requires
            fixed_step > 0,
            frame_interval matches Some(n) ==> n > 0,
        ensures
            r.wf(),
            r.fixed_step == fixed_step,
            r.frame_interval == frame_interval,
            r.variable_acc == 0,
            r.fixed_acc == 0,
    {
        FrameClock { fixed_step, frame_interval, variable_acc: 0, fixed_acc: 0 }
    }

    /// The frame interval for a maximum frame rate; none for zero.
    pub open spec fn interval_spec(max_fps: u64) -> Option<u64> {
        if max_fps == 0 {
            None
        } else if max_fps >= NANOS_PER_SECOND {
            Some(1)
        } else {
            Some((NANOS_PER_SECOND / max_fps) as u64)
        }
    }

    /// The frame interval that a maximum frame rate asks for, if any.
    pub fn interval_for_max_fps(max_fps: Option<u64>) -> (r: Option<u64>)
        ensures
            r == match max_fps {
                Some(f) => FrameClock::interval_spec(f),
                None => None::<u64>,
            },
            r matches Some(n) ==> n > 0,
    {
        match max_fps {
            Some(f) if f >= NANOS_PER_SECOND => Some(1),
            Some(f) if f > 0 => {
                let q = NANOS_PER_SECOND / f;
                assert(q > 0) by (nonlinear_arith)
                    requires
                        0 < f < NANOS_PER_SECOND,
                        q == NANOS_PER_SECOND / f,
                ;
                Some(q)
            },
            _ => None,
        }
    }

    /// Accounts `elapsed` nanoseconds and decides one iteration: the fixed
    /// accumulator pays for as many whole fixed steps as it holds and keeps
    /// the rest; the variable accumulator either waits for the frame interval
    /// (no update this time) or is handed to the update and reset.
    pub fn advance(&mut self, elapsed: u64) -> (r: FrameStep)
        requires
            old(self).wf(),
        ensures
            final(self).wf(),
            final(self).fixed_step == old(self).fixed_step,
            final(self).frame_interval == old(self).frame_interval,
            r.fixed_updates == fixed_updates_for(
                old(self).fixed_acc + elapsed,
                old(self).fixed_step as int,
            ),
            final(self).fixed_acc == fixed_residual(
                old(self).fixed_acc + elapsed,
                old(self).fixed_step as int,
            ),
            r.run_update == match old(self).frame_interval {
                Some(n) => old(self).variable_acc + elapsed >= n,
                None => true,
            },
            r.run_update ==> r.update_delta == old(self).variable_acc + elapsed
                && final(self).variable_acc == 0,
            !r.run_update ==> r.update_delta == 0
                && final(self).variable_acc == old(self).variable_acc + elapsed,
    {
        let total: u128 = self.fixed_acc + elapsed as u128;
        let step: u128 = self.fixed_step as u128;
        let mut acc: u128 = total;
        let mut count: u128 = 0;
        while acc >= step
            invariant
                step > 0,
                step == self.fixed_step,
                total == self.fixed_acc + elapsed,
                self.fixed_acc < step,
                count * step + acc == total,
                count <= total,
            decreases acc,
        {
            proof {
                assert((count + 1) * step == count * step + step) by (nonlinear_arith);
                assert(count + 1 <= (count + 1) * step) by (nonlinear_arith)
                    requires step >= 1, count >= 0;
            }
            acc = acc - step;
            count = count + 1;
        }
        proof {
            lemma_fundamental_div_mod_converse(total as int, step as int, count as int, acc as int);
        }
        self.fixed_acc = acc;
        let variable: u128 = self.variable_acc + elapsed as u128;
        match self.frame_interval {
            Some(n) => {
                if variable < n as u128 {
                    self.variable_acc = variable;
                    FrameStep { fixed_updates: count, run_update: false, update_delta: 0 }
                } else {
                    self.variable_acc = 0;
                    FrameStep { fixed_updates: count, run_update: true, update_delta: variable }
                }
            },
            None => {
                self.variable_acc = 0;
                FrameStep { fixed_updates: count, run_update: true, update_delta: variable }
            },
        }
    }
}

/// With a fixed step `f` and `k * f + r` nanoseconds accumulated (`r < f`),
/// an iteration runs exactly `k` fixed updates and keeps `r` for later.
pub proof fn fixed_step_catch_up(f: int, k: int, r: int)
    requires
        f > 0,
        k >= 0,
        0 <= r < f,
    ensures
        fixed_updates_for(k * f + r, f) == k,
        fixed_residual(k * f + r, f) == r,
{
    lemma_fundamental_div_mod_converse(k * f + r, f, k, r);
}

} // verus!
