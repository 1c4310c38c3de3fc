//! What the liquid staking contract holds on chain, and matching its records to it.
use vstd::prelude::*;

use crate::staking::utils::calc_fee;
use crate::staking::validator_set::{sorted_by_stake, sum_staked, Validator, ValidatorSet};

verus! {

/// The fee on `rewards` at `dev_fee` thousandths of a percent (see `calc_fee`).
pub open spec fn fee_on(rewards: u128, dev_fee: u64) -> int {
    (if rewards * dev_fee > u128::MAX {
        u128::MAX as int
    } else {
        rewards * dev_fee
    }) / 100_000
}

/// What backs the staking token once the pending `rewards` are counted: the backing
/// plus the rewards less the developer fee on them.
pub fn get_onchain_balance_with_rewards(lsside_backing: u128, rewards: u128, dev_fee: u64) -> (r: u128)
    requires
        lsside_backing + rewards <= u128::MAX,
    ensures
        r == lsside_backing + if rewards > fee_on(rewards, dev_fee) {
            rewards - fee_on(rewards, dev_fee)
        } else {
            0
        },
{
    let fee = calc_fee(rewards, dev_fee);
    let final_rewards = if rewards > fee {
        rewards - fee
    } else {
        0
    };
    lsside_backing + final_rewards
}

/// Everything staked or waiting to be: the validators' stake and what is still to be
/// deposited.
pub fn get_total_onchain_balance(set: &ValidatorSet, to_deposit: u128) -> (r: u128)
    requires
        sum_staked(set.validators@) + to_deposit <= u128::MAX,
    ensures
        r == sum_staked(set.validators@) + to_deposit,
{
    set.total_staked() + to_deposit
}

/// `vals` with each stake replaced by the amount delegated on chain, where that is not
/// zero.
pub open spec fn with_onchain(vals: Seq<Validator>, current: Seq<u128>) -> Seq<Validator> {
    Seq::new(
        vals.len(),
        |i: int|
            if current[i] > 0 {
                Validator { address: vals[i].address, staked: current[i] }
            } else {
                vals[i]
            },
    )
}

/// Matches the recorded stakes to what is delegated on chain (`current`, one amount per
/// validator, in order): each stake is replaced by the delegated amount where that is
/// not zero, and the set is sorted again.
pub fn rebalance_slash(set: &mut ValidatorSet, current: &Vec<u128>)
    requires
        current@.len() == old(set).validators@.len(),
    ensures
        final(set).validators@.to_multiset() == with_onchain(
            old(set).validators@,
            current@,
        ).to_multiset(),
        sorted_by_stake(final(set).validators@),
{
    let ghost start = set.validators@;
    let mut vals: Vec<Validator> = Vec::new();
    let mut i: usize = 0;
    while i < set.validators.len()
        invariant
            set.validators@ == start,
            current@.len() == start.len(),
            i <= start.len(),
            vals@ == with_onchain(start, current@).take(i as int),
        decreases start.len() - i,
    {
        let v = if current[i] > 0 {
            Validator { address: set.validators[i].address.clone(), staked: current[i] }
        } else {
            set.validators[i].duplicate()
        };
        vals.push(v);
        proof {
            assert(vals@ =~= with_onchain(start, current@).take(i + 1));
        }
        i = i + 1;
    }
    proof {
        assert(with_onchain(start, current@).take(start.len() as int) =~= with_onchain(
            start,
            current@,
        ));
    }
    set.validators = vals;
    set.rebalance();
}

} // verus!
