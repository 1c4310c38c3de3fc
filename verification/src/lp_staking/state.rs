//! LP staking state: the configuration, each pool's reward index and each staker's
//! stake.
use vstd::prelude::*;

use crate::decimal::Decimal;

verus! {

/// Cumulative volumes at a timestamp.
#[derive(Clone, Copy, Debug, PartialEq, Eq, Structural)]
pub struct Observation {
    pub block_timestamp: u64,
    pub num_of_observations: u64,
    pub volume1: u128,
    pub volume2: u128,
}

#[derive(Clone, Debug, PartialEq, Eq)]
pub struct Config {
    pub admin: String,
    /// The token that may be deposited.
    pub deposit_token: String,
    /// Reward tokens emitted per block, over all pools.
    pub tokens_per_block: u128,
    /// The sum of the active pools' allocation points.
    pub total_alloc_point: u128,
    /// No rewards accrue before this block.
    pub start_block: u64,
    /// The token paid as reward.
    pub reward_token: String,
    /// The pools that earn rewards, with their allocation points.
    pub active_pools: Vec<(String, u128)>,
}

/// A pool's rewards so far.
#[derive(Clone, Copy, Debug, PartialEq, Eq, Structural)]
pub struct PoolInfo {
    /// The block up to which rewards are accounted.
    pub last_reward_block: u64,
    pub has_asset_rewards: bool,
    /// Rewards per staked LP token, summed since the pool was created.
    pub reward_global_index: Decimal,
    /// LP tokens staked in the pool.
    pub total_supply: u128,
}

/// A staker's stake in a pool.
#[derive(Clone, Copy, Debug, PartialEq, Eq, Structural)]
pub struct UserInfo {
    /// LP tokens staked.
    pub amount: u128,
    /// The pool's reward index when the staker's rewards were last paid.
    pub reward_user_index: Decimal,
}

impl UserInfo {
    /// No stake.
    pub fn empty() -> (r: UserInfo)
        ensures
            r.amount == 0,
            r.reward_user_index.atomics == 0,
    {
        UserInfo { amount: 0, reward_user_index: Decimal::zero() }
    }
}

} // verus!
