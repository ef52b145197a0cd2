//! Restart policy for failed worker spawns.
//!
//! When a worker's process dies, a replacement spawn may itself fail.  The
//! policy allows a bounded number of consecutive attempts, with a delay that
//! grows linearly with the failure count up to a cap, and then gives up, at
//! which point the pool runs with reduced capacity or, if no worker is left,
//! reports itself unavailable.

use vstd::prelude::*;

verus! {

/// Bounded-retry policy with a capped, linearly growing delay.
#[derive(PartialEq, Eq, Structural, Clone, Copy, Debug)]
pub struct RestartPolicy {
    /// Consecutive failed attempts tolerated before giving up.
    pub max_attempts: u32,
    /// Delay before the first retry, in milliseconds.
    pub base_delay_ms: u64,
    /// Upper bound on any retry delay, in milliseconds.
    pub max_delay_ms: u64,
}

/// What the supervisor does after a failed spawn attempt.
#[derive(PartialEq, Eq, Structural, Clone, Copy, Debug)]
pub enum SupervisorVerdict {
    /// Try again after the given delay in milliseconds.
    Retry(u64),
    /// Stop retrying; the slot stays unfilled.
    GiveUp,
}

impl RestartPolicy {
    /// A sensible policy: positive base delay, cap at least the base.
    pub open spec fn wf(self) -> bool {
        1 <= self.base_delay_ms <= self.max_delay_ms
    }

    /// The delay before retry number `failures + 1`: the base delay grown
    /// linearly with the failure count, capped.
    pub open spec fn spec_delay(self, failures: u32) -> int {
        let raw = (self.base_delay_ms as int) * (failures as int + 1);
        if raw <= self.max_delay_ms as int {
            raw
        } else {
            self.max_delay_ms as int
        }
    }

    /// Decides whether to retry after `failures` consecutive failed spawn
    /// attempts, and with what delay.
    pub fn next_verdict(&self, failures: u32) -> (r: SupervisorVerdict)
        requires
            self.wf(),
        ensures
            r is Retry <==> failures < self.max_attempts,
            r matches SupervisorVerdict::Retry(d) ==> d == self.spec_delay(failures),
    {
        if failures >= self.max_attempts {
            SupervisorVerdict::GiveUp
        } else {
            proof {
                let b = self.base_delay_ms as int;
                let f = failures as int;
                assert(b * (f + 1) <= (u64::MAX as int) * (u32::MAX as int + 1))
                    by (nonlinear_arith)
                    requires
                        0 <= b <= u64::MAX as int,
                        0 <= f <= u32::MAX as int,
                ;
            }
            let raw: u128 = (self.base_delay_ms as u128) * ((failures as u128) + 1);
            if raw <= self.max_delay_ms as u128 {
                SupervisorVerdict::Retry(raw as u64)
            } else {
                SupervisorVerdict::Retry(self.max_delay_ms)
            }
        }
    }

    /// The retry delay never exceeds the cap and never drops below the base.
    pub proof fn lemma_delay_bounds(self, failures: u32)
        requires
            self.wf(),
        ensures
            self.base_delay_ms <= self.spec_delay(failures) <= self.max_delay_ms,
    {
        assert(self.base_delay_ms * (failures + 1) >= self.base_delay_ms * 1) by (nonlinear_arith)
            requires
                failures >= 0,
                self.base_delay_ms >= 1,
        ;
    }
}

} // verus!
