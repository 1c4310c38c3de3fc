//! Deposits of the staked token, and how deposits and rewards are delegated over the
//! validators.
use vstd::prelude::*;

use crate::coin::Coin;
use crate::staking::error::ContractError;
use crate::staking::killswitch::KillSwitch;
use crate::staking::state::State;
use crate::staking::utils::{calc_deposit, calc_fee, calc_threshold, rate_floor, rate_valid, rd_div_spec, whole, Rate};
use crate::staking::validator_set::{
    distinct_addresses, first_with_address, lemma_first_with_address_found, lemma_sum_staked_update,
    sum_staked, with_stake, Validator, ValidatorSet,
};

verus! {

/// The smallest deposit: one whole token of six decimals.
pub const MINIMUM_DEPOSIT: u128 = 1_000_000;

/// An amount to delegate to a validator.
#[derive(Clone, Debug, PartialEq, Eq)]
pub struct Delegation {
    pub validator: String,
    pub amount: u128,
}

/// The sum of the amounts of `d`.
pub open spec fn sum_delegated(d: Seq<Delegation>) -> int
    decreases d.len(),
{
    if d.len() == 0 {
        0
    } else {
        sum_delegated(d.drop_last()) + d.last().amount
    }
}

/// The part of `deposit` validator `i` of `n` gets: an equal share, the last one taking
/// what the division leaves.
pub open spec fn split_share(deposit: int, n: int, i: int) -> int {
    if i == n - 1 {
        deposit - (deposit / n) * (n - 1)
    } else {
        deposit / n
    }
}

/// `vals` after each validator's stake grows by its share of `deposit`.
pub open spec fn split_result(vals: Seq<Validator>, deposit: int) -> Seq<Validator> {
    Seq::new(
        vals.len(),
        |i: int|
            Validator {
                address: vals[i].address,
                staked: (vals[i].staked + split_share(deposit, vals.len() as int, i)) as u128,
            },
    )
}

proof fn lemma_first_of_distinct(vals: Seq<Validator>, i: int)
    requires
        distinct_addresses(vals),
        0 <= i < vals.len(),
    ensures
        first_with_address(vals, vals[i].address@, 0) == Some(i),
{
    if first_with_address(vals, vals[i].address@, 0) is None {
        crate::staking::validator_set::lemma_first_with_address_none(vals, vals[i].address@, 0);
    } else {
        lemma_first_with_address_found(vals, vals[i].address@, 0);
        let j = first_with_address(vals, vals[i].address@, 0)->0;
        if j < i {
            assert(vals[j].address@ != vals[i].address@);
        }
    }
}

/// Delegates `deposit`. Above one validator's share of the total stake it is split
/// equally over all validators, the last taking the remainder; otherwise, where it is
/// not zero, all of it goes to the back validator, the one with the least stake.
pub fn distribute_deposit(set: &mut ValidatorSet, deposit: u128) -> (r: Result<Vec<Delegation>, ContractError>)
    requires
        distinct_addresses(old(set).validators@),
        sum_staked(old(set).validators@) + deposit <= u128::MAX,
    ensures
        ({
            let vals = old(set).validators@;
            let n = vals.len() as int;
            let threshold = if n == 0 {
                0
            } else {
                sum_staked(vals) / n
            };
            if deposit > threshold {
                if n == 0 {
                    r == Err::<Vec<Delegation>, ContractError>(ContractError::EmptyValidatorSet)
                } else {
                    r matches Ok(d) && d@.len() == n && (forall|i: int|
                        0 <= i < n ==> #[trigger] d@[i] == (Delegation {
                            validator: vals[i].address,
                            amount: split_share(deposit as int, n, i) as u128,
                        })) && final(set).validators@ == split_result(vals, deposit as int)
                }
            } else if deposit > 0 {
                r matches Ok(d) && d@ == seq![
                    Delegation { validator: vals.last().address, amount: deposit },
                ] && final(set).validators@ == with_stake(vals, n - 1, vals.last().staked + deposit)
            } else {
                r matches Ok(d) && d@.len() == 0 && final(set).validators@ == vals
            }
        }),
        r matches Ok(d) ==> sum_delegated(d@) == deposit,
        r is Ok ==> sum_staked(final(set).validators@) == sum_staked(old(set).validators@) + deposit,
        distinct_addresses(final(set).validators@),
{
    let ghost vals = set.validators@;
    let val_count = set.validators.len();
    proof {
        crate::staking::validator_set::lemma_sum_staked_prefix(vals, 0);
    }
    let total_staked = set.total_staked();
    let mut out: Vec<Delegation> = Vec::new();
    if deposit > calc_threshold(total_staked, val_count) {
        if val_count == 0 {
            return Err(ContractError::EmptyValidatorSet);
        }
        let n = val_count as u128;
        let to_stake = deposit / n;
        proof {
            assert(to_stake * n <= deposit) by (nonlinear_arith)
                requires
                    to_stake == deposit / n,
                    n > 0,
            ;
            assert(to_stake * (n - 1) <= deposit) by (nonlinear_arith)
                requires
                    to_stake * n <= deposit,
                    n > 0,
                    to_stake >= 0,
            ;
        }
        let mut idx: usize = 0;
        while idx < val_count
            invariant
                val_count == vals.len(),
                n == val_count,
                to_stake == deposit / n,
                to_stake * (n - 1) <= deposit,
                to_stake * n <= deposit,
                n > 0,
                idx <= val_count,
                set.validators@.len() == vals.len(),
                distinct_addresses(set.validators@),
                sum_staked(vals) + deposit <= u128::MAX,
                forall|i: int| #![trigger set.validators@[i]]
                    0 <= i < vals.len() ==> set.validators@[i].address == vals[i].address,
                forall|i: int| #![trigger set.validators@[i]]
                    0 <= i < idx ==> set.validators@[i] == split_result(vals, deposit as int)[i],
                forall|i: int| #![trigger set.validators@[i]] idx <= i < vals.len() ==> set.validators@[i] == vals[i],
                out@.len() == idx,
                forall|i: int|
                    0 <= i < idx ==> #[trigger] out@[i] == (Delegation {
                        validator: vals[i].address,
                        amount: split_share(deposit as int, n as int, i) as u128,
                    }),
                sum_delegated(out@) == (if idx == n {
                    deposit as int
                } else {
                    to_stake * idx
                }),
                sum_staked(set.validators@) == sum_staked(vals) + sum_delegated(out@),
            decreases val_count - idx,
        {
            let amount = if idx == val_count - 1 {
                deposit - to_stake * (n - 1)
            } else {
                to_stake
            };
            let address = set.validators[idx].address.clone();
            proof {
                lemma_first_of_distinct(set.validators@, idx as int);
                assert(address@ == set.validators@[idx as int].address@);
                assert(sum_staked(set.validators@) + amount <= sum_staked(vals) + deposit) by (nonlinear_arith)
                    requires
                        sum_staked(set.validators@) == sum_staked(vals) + (if idx == n {
                            deposit as int
                        } else {
                            to_stake * idx
                        }),
                        idx < n,
                        amount == (if idx == n - 1 {
                            deposit - to_stake * (n - 1)
                        } else {
                            to_stake as int
                        }),
                        to_stake * n <= deposit,
                        to_stake >= 0,
                ;
                crate::staking::validator_set::lemma_sum_staked_prefix(set.validators@, 0);
                lemma_stake_le_sum(set.validators@, idx as int);
            }
            let ghost before = set.validators@;
            match set.stake_at(address.as_str(), amount) {
                Ok(_) => {},
                Err(e) => {
                    return Err(e);
                },
            }
            proof {
                lemma_sum_staked_update(
                    before,
                    idx as int,
                    Validator { address: before[idx as int].address, staked: (before[idx as int].staked + amount) as u128 },
                );
                assert forall|i: int, j: int| 0 <= i < j < set.validators@.len() implies (
                #[trigger] set.validators@[i]).address@ != (#[trigger] set.validators@[j]).address@ by {
                    assert(set.validators@[i].address == before[i].address);
                    assert(set.validators@[j].address == before[j].address);
                }
            }
            let ghost old_out = out@;
            out.push(Delegation { validator: address, amount });
            proof {
                assert(out@.drop_last() =~= old_out);
            }
            idx = idx + 1;
            proof {
                if idx == val_count {
                    assert(to_stake * (idx - 1) + (deposit - to_stake * (n - 1)) == deposit);
                } else {
                    assert(to_stake * (idx - 1) + to_stake == to_stake * idx) by (nonlinear_arith);
                }
            }
        }
        proof {
            assert(set.validators@ =~= split_result(vals, deposit as int));
        }
        Ok(out)
    } else if deposit > 0 {
        proof {
            crate::staking::validator_set::lemma_sum_staked_prefix(vals, 0);
            lemma_stake_le_sum(vals, vals.len() - 1);
        }
        let ghost before = set.validators@;
        let address = match set.stake_with_least(deposit) {
            Ok(a) => a,
            Err(e) => {
                return Err(e);
            },
        };
        proof {
            lemma_sum_staked_update(
                before,
                before.len() - 1,
                Validator { address: before.last().address, staked: (before.last().staked + deposit) as u128 },
            );
            assert forall|i: int, j: int| 0 <= i < j < set.validators@.len() implies (
            #[trigger] set.validators@[i]).address@ != (#[trigger] set.validators@[j]).address@ by {
                assert(set.validators@[i].address == before[i].address);
                assert(set.validators@[j].address == before[j].address);
            }
        }
        out.push(Delegation { validator: address, amount: deposit });
        proof {
            assert(out@.drop_last() =~= Seq::<Delegation>::empty());
            assert(sum_delegated(Seq::<Delegation>::empty()) == 0);
            assert(sum_delegated(out@) == deposit);
        }
        Ok(out)
    } else {
        proof {
            assert(out@ =~= Seq::<Delegation>::empty());
            assert(sum_delegated(out@) == 0);
        }
        Ok(out)
    }
}

proof fn lemma_stake_le_sum(vals: Seq<Validator>, i: int)
    requires
        0 <= i < vals.len(),
    ensures
        vals[i].staked <= sum_staked(vals),
    decreases vals.len(),
{
    crate::staking::validator_set::lemma_sum_staked_prefix(vals.drop_last(), 0);
    if i < vals.len() - 1 {
        lemma_stake_le_sum(vals.drop_last(), i);
    }
}

/// The coin of `funds` in the staked denomination (`uside`), the last one where there
/// are several.
pub open spec fn uside_amount(funds: Seq<Coin>, n: int) -> int
    decreases n,
{
    if n <= 0 || n > funds.len() {
        0
    } else if funds[n - 1].denom@ == seq!['u', 's', 'i', 'd', 'e'] {
        funds[n - 1].amount as int
    } else {
        uside_amount(funds, n - 1)
    }
}

/// A deposit of the staked token sent with the request mints staking tokens at the
/// exchange rate. Refused while paused, while the kill switch freezes deposits, or for
/// less than one whole token. Returns the amount deposited and the tokens minted.
pub fn try_stake(
    paused: bool,
    kill_switch: u8,
    funds: &Vec<Coin>,
    state: &mut State,
    exchange_rate: Rate,
) -> (r: Result<(u128, u128), ContractError>)
    requires
        rate_valid(exchange_rate),
        ({
            let amount = uside_amount(funds@, funds@.len() as int);
            !paused && kill_switch == 0 && amount >= MINIMUM_DEPOSIT ==> {
                &&& old(state).to_deposit + amount <= u128::MAX
                &&& old(state).lsside_backing + amount <= u128::MAX
                &&& rd_div_spec(whole(amount as u64), exchange_rate) is Some
            }
        }),
    ensures
        ({
            let amount = uside_amount(funds@, funds@.len() as int);
            if paused {
                r == Err::<(u128, u128), ContractError>(ContractError::Paused) && *final(state)
                    == *old(state)
            } else if kill_switch > 2 {
                r == Err::<(u128, u128), ContractError>(ContractError::InvalidKillSwitch)
                    && *final(state) == *old(state)
            } else if kill_switch != 0 {
                r == Err::<(u128, u128), ContractError>(ContractError::DepositsFrozen)
                    && *final(state) == *old(state)
            } else if amount < MINIMUM_DEPOSIT {
                r == Err::<(u128, u128), ContractError>(ContractError::DepositBelowMinimum)
                    && *final(state) == *old(state)
            } else {
                &&& r == Ok::<(u128, u128), ContractError>(
                    (
                        amount as u128,
                        rate_floor(rd_div_spec(whole(amount as u64), exchange_rate)->0) as u128,
                    ),
                )
                &&& *final(state) == State {
                    to_deposit: (old(state).to_deposit + amount) as u128,
                    lsside_backing: (old(state).lsside_backing + amount) as u128,
                    ..*old(state)
                }
            }
        }),
{
    if paused {
        return Err(ContractError::Paused);
    }
    let kill_switch = match KillSwitch::try_from(kill_switch) {
        Ok(k) => k,
        Err(e) => {
            return Err(e);
        },
    };
    if kill_switch == KillSwitch::Unbonding || kill_switch == KillSwitch::Open {
        return Err(ContractError::DepositsFrozen);
    }
    let uside = "uside";
    proof {
        reveal_strlit("uside");
    }
    let wanted = uside.to_owned();
    let mut amount_raw: u128 = 0;
    let mut i: usize = 0;
    while i < funds.len()
        invariant
            i <= funds@.len(),
            wanted@ == seq!['u', 's', 'i', 'd', 'e'],
            amount_raw == uside_amount(funds@, i as int),
        decreases funds.len() - i,
    {
        if funds[i].denom == wanted {
            amount_raw = funds[i].amount;
        }
        i = i + 1;
    }
    if amount_raw == 0 {
        return Err(ContractError::DepositBelowMinimum);
    }
    if amount_raw < MINIMUM_DEPOSIT {
        return Err(ContractError::DepositBelowMinimum);
    }
    state.to_deposit = state.to_deposit + amount_raw;
    state.lsside_backing = state.lsside_backing + amount_raw;
    let token_amount = calc_deposit(amount_raw, exchange_rate);
    Ok((amount_raw, token_amount))
}

/// What restaking the rewards did: the developer's cut, the amount delegated and how.
#[derive(Clone, Debug, PartialEq, Eq)]
pub struct Restake {
    pub dev_payment: u128,
    pub deposit_amount: u128,
    pub delegations: Vec<Delegation>,
}

/// The rewards that remain of `reward` once the developer's fee is taken.
pub open spec fn reward_gain(reward: int, dev_fee: int) -> int {
    let fee = calc_fee_spec(reward, dev_fee);
    if reward > fee {
        reward - fee
    } else {
        0
    }
}

/// Restaking `reward` at `dev_fee` fails: there is something to delegate and no
/// validator to take it.
pub open spec fn restake_fails(s0: State, v0: Seq<Validator>, reward: int, dev_fee: int) -> bool {
    v0.len() == 0 && s0.to_deposit + reward_gain(reward, dev_fee) > 0
}

/// `d` delegates `deposit` over `vals` as `distribute_deposit` does, leaving the
/// validators as `after`: above one validator's share of the total stake, validator `i`
/// of `n` gets an equal share (the last also the remainder); otherwise, where it is not
/// zero, all of it goes to the back validator.
pub open spec fn deposit_split(vals: Seq<Validator>, deposit: int, d: Seq<Delegation>, after: Seq<
    Validator,
>) -> bool {
    let n = vals.len() as int;
    let threshold = if n == 0 {
        0
    } else {
        sum_staked(vals) / n
    };
    if deposit > threshold {
        &&& n > 0
        &&& d.len() == n
        &&& forall|i: int|
            0 <= i < n ==> #[trigger] d[i] == (Delegation {
                validator: vals[i].address,
                amount: split_share(deposit, n, i) as u128,
            })
        &&& after == split_result(vals, deposit)
    } else if deposit > 0 {
        &&& d == seq![Delegation { validator: vals.last().address, amount: deposit as u128 }]
        &&& after == with_stake(vals, n - 1, vals.last().staked + deposit)
    } else {
        &&& d.len() == 0
        &&& after == vals
    }
}

/// `after` holds the validators of `before` in order of stake, those of equal stake kept
/// in their order.
pub open spec fn reordered(before: Seq<Validator>, after: Seq<Validator>) -> bool {
    &&& crate::staking::validator_set::sorted_by_stake(after)
    &&& exists|perm: Seq<int>| #[trigger] crate::staking::validator_set::stable_order(perm, before, after)
}

/// `plan` restaked `reward` at `dev_fee`, taking the accounts from `s0` to `s1` and the
/// validators from `v0` to `v1`: the developer gets its cut, the rest of the rewards and
/// what waited to be deposited is delegated, the backing gains the rewards, and the
/// validators are in order of stake again.
pub open spec fn restake_done(
    s0: State,
    s1: State,
    v0: Seq<Validator>,
    v1: Seq<Validator>,
    reward: int,
    dev_fee: int,
    plan: Restake,
) -> bool {
    let gain = reward_gain(reward, dev_fee);
    let deposit = s0.to_deposit + gain;
    &&& plan.dev_payment == dev_payment_spec(reward, dev_fee)
    &&& plan.deposit_amount == deposit
    &&& sum_delegated(plan.delegations@) == deposit
    &&& sum_staked(v1) == sum_staked(v0) + deposit
    &&& s1 == State { lsside_backing: (s0.lsside_backing + gain) as u128, to_deposit: 0, ..s0 }
    &&& crate::staking::validator_set::sorted_by_stake(v1)
    &&& exists|mid: Seq<Validator>| #[trigger]
        deposit_split(v0, deposit, plan.delegations@, mid) && reordered(mid, v1)
}

/// Delegates the validators' `reward`, less the developer's fee, together with what was
/// waiting to be deposited, and restores the validators' order by stake. The backing
/// gains the rewards; nothing waits to be deposited any more. Fails where there is
/// something to delegate and no validator to take it.
pub fn restake_rewards(state: &mut State, set: &mut ValidatorSet, reward_amount: u128, dev_fee: u64) -> (r:
    Result<Restake, ContractError>)
    requires
        distinct_addresses(old(set).validators@),
        old(state).to_deposit + sum_staked(old(set).validators@) + reward_amount <= u128::MAX,
        old(state).lsside_backing + reward_amount <= u128::MAX,
    ensures
        r is Err <==> restake_fails(*old(state), old(set).validators@, reward_amount as int, dev_fee as int),
        r is Err ==> r == Err::<Restake, ContractError>(ContractError::EmptyValidatorSet),
        r matches Ok(plan) ==> restake_done(
            *old(state),
            *final(state),
            old(set).validators@,
            final(set).validators@,
            reward_amount as int,
            dev_fee as int,
            plan,
        ),
{
    proof {
        crate::staking::validator_set::lemma_sum_staked_prefix(set.validators@, 0);
    }
    let fee = calc_fee(reward_amount, dev_fee);
    let dev_payment = fee * 999 / 1000;
    let total_reward_gen = reward_amount.saturating_sub(fee);
    let deposit_amount = state.to_deposit + total_reward_gen;
    let delegations = match distribute_deposit(set, deposit_amount) {
        Ok(d) => d,
        Err(e) => {
            return Err(e);
        },
    };
    state.lsside_backing = state.lsside_backing + total_reward_gen;
    state.to_deposit = 0;
    let ghost before = set.validators@;
    set.rebalance();
    proof {
        lemma_sum_staked_multiset(before, set.validators@);
        assert(deposit_split(old(set).validators@, deposit_amount as int, delegations@, before));
        assert(reordered(before, set.validators@));
    }
    Ok(Restake { dev_payment, deposit_amount, delegations })
}

/// What `try_stake` returns, and the accounts it leaves, for a deposit of `amount`.
pub open spec fn stake_outcome(paused: bool, kill_switch: u8, amount: int, s0: State, rate: Rate) -> (
    Result<(u128, u128), ContractError>,
    State,
) {
    if paused {
        (Err(ContractError::Paused), s0)
    } else if kill_switch > 2 {
        (Err(ContractError::InvalidKillSwitch), s0)
    } else if kill_switch != 0 {
        (Err(ContractError::DepositsFrozen), s0)
    } else if amount < MINIMUM_DEPOSIT {
        (Err(ContractError::DepositBelowMinimum), s0)
    } else {
        (
            Ok((amount as u128, rate_floor(rd_div_spec(whole(amount as u64), rate)->0) as u128)),
            State {
                to_deposit: (s0.to_deposit + amount) as u128,
                lsside_backing: (s0.lsside_backing + amount) as u128,
                ..s0
            },
        )
    }
}

/// The amount of the staked token (`uside`) among `funds`, the last one where there are
/// several; zero where there is none.
pub fn uside_in(funds: &Vec<Coin>) -> (r: u128)
    ensures
        r == uside_amount(funds@, funds@.len() as int),
{
    let uside = "uside";
    proof {
        reveal_strlit("uside");
    }
    let wanted = uside.to_owned();
    let mut amount: u128 = 0;
    let mut i: usize = 0;
    while i < funds.len()
        invariant
            i <= funds@.len(),
            wanted@ == seq!['u', 's', 'i', 'd', 'e'],
            amount == uside_amount(funds@, i as int),
        decreases funds.len() - i,
    {
        if funds[i].denom == wanted {
            amount = funds[i].amount;
        }
        i = i + 1;
    }
    amount
}

/// `try_stake` at any exchange rate: where the deposit would be taken but the rate does
/// not divide it into a decimal, nothing changes and `None` comes back; otherwise what
/// `try_stake` returns.
pub fn try_stake_checked(
    paused: bool,
    kill_switch: u8,
    funds: &Vec<Coin>,
    state: &mut State,
    exchange_rate: Rate,
) -> (r: Option<Result<(u128, u128), ContractError>>)
    requires
        rate_valid(exchange_rate),
        ({
            let amount = uside_amount(funds@, funds@.len() as int);
            !paused && kill_switch == 0 && amount >= MINIMUM_DEPOSIT ==> {
                &&& old(state).to_deposit + amount <= u128::MAX
                &&& old(state).lsside_backing + amount <= u128::MAX
            }
        }),
    ensures
        ({
            let amount = uside_amount(funds@, funds@.len() as int);
            let out = stake_outcome(paused, kill_switch, amount, *old(state), exchange_rate);
            if !paused && kill_switch == 0 && amount >= MINIMUM_DEPOSIT && rd_div_spec(
                whole(amount as u64),
                exchange_rate,
            ) is None {
                r is None && *final(state) == *old(state)
            } else {
                r == Some(out.0) && *final(state) == out.1
            }
        }),
{
    let amount = uside_in(funds);
    if !paused && kill_switch == 0 && amount >= MINIMUM_DEPOSIT {
        if crate::staking::utils::checked_calc_deposit(amount, exchange_rate).is_none() {
            return None;
        }
    }
    Some(try_stake(paused, kill_switch, funds, state, exchange_rate))
}

/// What claiming and restaking does: the developer's cut of the rewards, the amount
/// delegated and how, and the staking tokens burnt.
#[derive(Clone, Debug, PartialEq, Eq)]
pub struct ClaimStakePlan {
    pub dev_payment: u128,
    pub deposit_amount: u128,
    pub delegations: Vec<Delegation>,
    pub burn: u128,
}

/// The developer's cut of `reward` at `dev_fee`: the fee less a thousandth kept for
/// rounding.
pub open spec fn dev_payment_spec(reward: int, dev_fee: int) -> int {
    let product = if reward * dev_fee > u128::MAX {
        u128::MAX as int
    } else {
        reward * dev_fee
    };
    (product / 100_000) * 999 / 1000
}

/// Claims the validators' `reward` and delegates it, less the developer's fee, with what
/// was waiting to be deposited. The backing first loses what was slashed (what it holds
/// beyond the deposits and the stake) and then gains the rewards; the staking tokens
/// waiting to be burnt are burnt.
#[verifier::spinoff_prover]
pub fn try_claim_stake(
    paused: bool,
    state: &mut State,
    set: &mut ValidatorSet,
    reward_amount: u128,
    dev_fee: u64,
) -> (r: Result<ClaimStakePlan, ContractError>)
    requires
        distinct_addresses(old(set).validators@),
        old(state).to_deposit + sum_staked(old(set).validators@) + reward_amount <= u128::MAX,
        old(state).lsside_backing + reward_amount <= u128::MAX,
    ensures
        paused ==> r == Err::<ClaimStakePlan, ContractError>(ContractError::Paused),
        !paused && r is Ok ==> {
            let gain = reward_gain(reward_amount as int, dev_fee as int);
            let backing = if old(state).lsside_backing > old(state).to_deposit + sum_staked(
                old(set).validators@,
            ) {
                old(state).to_deposit + sum_staked(old(set).validators@)
            } else {
                old(state).lsside_backing as int
            };
            let plan = r->Ok_0;
            &&& plan.dev_payment == dev_payment_spec(reward_amount as int, dev_fee as int)
            &&& plan.deposit_amount == old(state).to_deposit + gain
            &&& plan.burn == old(state).lsside_to_burn
            &&& sum_delegated(plan.delegations@) == plan.deposit_amount
            &&& sum_staked(final(set).validators@) == sum_staked(old(set).validators@)
                + plan.deposit_amount
            &&& final(state).lsside_backing == backing + gain
            &&& final(state).to_deposit == 0
            &&& final(state).lsside_to_burn == 0
            &&& crate::staking::validator_set::sorted_by_stake(final(set).validators@)
            &&& exists|mid: Seq<Validator>| #[trigger]
                deposit_split(old(set).validators@, plan.deposit_amount as int, plan.delegations@, mid)
                    && reordered(mid, final(set).validators@)
        },
        !paused && old(set).validators@.len() > 0 ==> r is Ok,
        !paused ==> (r is Err <==> old(set).validators@.len() == 0 && old(state).to_deposit
            + reward_gain(reward_amount as int, dev_fee as int) > 0),
{
    if paused {
        return Err(ContractError::Paused);
    }
    proof {
        crate::staking::validator_set::lemma_sum_staked_prefix(set.validators@, 0);
    }
    let staked = set.total_staked();
    let slashing_amount = state.lsside_backing.saturating_sub(state.to_deposit + staked);
    state.lsside_backing = state.lsside_backing.saturating_sub(slashing_amount);
    let restake = match restake_rewards(state, set, reward_amount, dev_fee) {
        Ok(p) => p,
        Err(e) => {
            return Err(e);
        },
    };
    let burn = state.lsside_to_burn;
    state.lsside_to_burn = 0;
    let plan = ClaimStakePlan {
        dev_payment: restake.dev_payment,
        deposit_amount: restake.deposit_amount,
        delegations: restake.delegations,
        burn,
    };
    proof {
        let mid = choose|mid: Seq<Validator>|
            #[trigger] deposit_split(old(set).validators@, restake.deposit_amount as int, restake.delegations@, mid)
                && reordered(mid, set.validators@);
        assert(reordered(mid, set.validators@));
        assert(deposit_split(old(set).validators@, plan.deposit_amount as int, plan.delegations@, mid));
    }
    Ok(plan)
}

/// The fee on `amount` at `fee` thousandths of a percent, as `calc_fee` computes it.
pub open spec fn calc_fee_spec(amount: int, fee: int) -> int {
    (if amount * fee > u128::MAX {
        u128::MAX as int
    } else {
        amount * fee
    }) / 100_000
}

/// Reordering the validators does not change the total stake.
pub proof fn lemma_sum_staked_multiset(a: Seq<Validator>, b: Seq<Validator>)
    requires
        a.to_multiset() == b.to_multiset(),
    ensures
        sum_staked(a) == sum_staked(b),
    decreases a.len(),
{
    broadcast use vstd::multiset::group_multiset_axioms;

    if a.len() == 0 {
        vstd::seq_lib::to_multiset_len(a);
        vstd::seq_lib::to_multiset_len(b);
        assert(b =~= Seq::<Validator>::empty());
    } else {
        let x = a.last();
        vstd::seq_lib::to_multiset_contains(a, x);
        assert(a.contains(x)) by {
            assert(a[a.len() - 1] == x);
        }
        vstd::seq_lib::to_multiset_contains(b, x);
        let j = choose|j: int| 0 <= j < b.len() && b[j] == x;
        vstd::seq_lib::to_multiset_remove(a, a.len() - 1);
        vstd::seq_lib::to_multiset_remove(b, j);
        assert(a.remove(a.len() - 1) =~= a.drop_last());
        lemma_sum_staked_multiset(a.drop_last(), b.remove(j));
        lemma_sum_staked_remove(b, j);
    }
}

proof fn lemma_sum_staked_remove(s: Seq<Validator>, j: int)
    requires
        0 <= j < s.len(),
    ensures
        sum_staked(s) == sum_staked(s.remove(j)) + s[j].staked,
    decreases s.len(),
{
    if j == s.len() - 1 {
        assert(s.remove(j) =~= s.drop_last());
    } else {
        assert(s.remove(j).drop_last() =~= s.drop_last().remove(j));
        assert(s.remove(j).last() == s.last());
        lemma_sum_staked_remove(s.drop_last(), j);
    }
}

} // verus!
