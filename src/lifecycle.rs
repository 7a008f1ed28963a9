use vstd::prelude::*;
use crate::state::StakingInfo;

verus! {

/// Where the pool stands in its window at a given time.
#[derive(Clone, Copy, Debug, PartialEq, Eq, Structural)]
pub enum PoolPhase {
    /// Before `start_time`.
    NotStarted,
    /// From `start_time` to `end_time`, both included.
    Active,
    /// After `end_time`.
    Ended,
}

/// The phase of the pool at `now`, from its window alone.
pub open spec fn phase_at(info: StakingInfo, now: i64) -> PoolPhase {
    if now < info.start_time {
        PoolPhase::NotStarted
    } else if now <= info.end_time {
        PoolPhase::Active
    } else {
        PoolPhase::Ended
    }
}

impl StakingInfo {
    /// The pool's phase at `now`, recomputed from the window on every call.
    pub fn phase(&self, now: i64) -> (r: PoolPhase)
        ensures
            r == phase_at(*self, now),
    {
        if now < self.start_time {
            PoolPhase::NotStarted
        } else if now <= self.end_time {
            PoolPhase::Active
        } else {
            PoolPhase::Ended
        }
    }
}

} // verus!
