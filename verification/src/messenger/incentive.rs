//! Relay rewards.

use vstd::prelude::*;

verus! {

/// Computes relay rewards.
pub struct IncentiveCalculator;

/// A claim for a relay reward.
#[derive(Debug, PartialEq, Eq)]
pub struct RewardClaim;

impl IncentiveCalculator {
    /// A calculator.
    pub fn new() -> (r: Self)
        ensures
            r == IncentiveCalculator,
    {
        IncentiveCalculator
    }

    /// The claim for relaying `count` messages to `addr`.
    pub fn calculate_reward(&self, count: usize, addr: &str) -> (r: RewardClaim)
        ensures
            r == RewardClaim,
    {
        RewardClaim
    }
}

} // verus!
