//! Admin requests of the liquid staking contract, and the exchange rate it quotes.
//! The caller loads the validator set and accounts, queries balances and supplies,
//! and stores what comes back where the request succeeds.
use vstd::prelude::*;

use crate::staking::deposit::Delegation;
use crate::staking::error::ContractError;
use crate::staking::killswitch::{kill_switch_code, KillSwitch};
use crate::staking::state::State;
use crate::staking::utils::{_calc_exchange_rate, rd_div_spec, rd_round12_spec, whole, Rate};
use crate::staking::validator_set::{
    first_with_address, holding_stake, sorted_by_stake, with_stake, Validator, ValidatorSet,
};

verus! {

/// A vote on a governance proposal.
#[derive(Clone, Copy, Debug, PartialEq, Eq, Structural)]
pub enum VoteOption {
    Yes,
    No,
    Abstain,
    NoWithVeto,
}

/// Moving `amount` of stake from one validator to another.
#[derive(Clone, Debug, PartialEq, Eq)]
pub struct Redelegation {
    pub src_validator: String,
    pub dst_validator: String,
    pub amount: u128,
}

fn check_admin(sender: &String, admin: &String) -> (r: Result<(), ContractError>)
    ensures
        r is Ok <==> sender@ == admin@,
        r matches Err(e) ==> e == ContractError::Unauthorized,
{
    if *sender != *admin {
        return Err(ContractError::Unauthorized);
    }
    Ok(())
}

/// The admin pauses the contract; `Unauthorized`, with nothing changed, for anyone else.
pub fn try_pause(paused: &mut bool, sender: &String, admin: &String) -> (r: Result<(), ContractError>)
    ensures
        r is Ok <==> sender@ == admin@,
        r matches Err(e) ==> e == ContractError::Unauthorized && *final(paused) == *old(paused),
        r is Ok ==> *final(paused),
{
    check_admin(sender, admin)?;
    *paused = true;
    Ok(())
}

/// The admin unpauses the contract; `Unauthorized`, with nothing changed, for anyone
/// else.
pub fn try_unpause(paused: &mut bool, sender: &String, admin: &String) -> (r: Result<(), ContractError>)
    ensures
        r is Ok <==> sender@ == admin@,
        r matches Err(e) ==> e == ContractError::Unauthorized && *final(paused) == *old(paused),
        r is Ok ==> !*final(paused),
{
    check_admin(sender, admin)?;
    *paused = false;
    Ok(())
}

/// The admin votes `vote` on `proposal` with the staked tokens: the vote to cast.
/// Refused while paused, and from anyone else.
pub fn try_vote(paused: bool, sender: &String, admin: &String, proposal: u64, vote: VoteOption) -> (r:
    Result<(u64, VoteOption), ContractError>)
    ensures
        paused ==> r == Err::<(u64, VoteOption), ContractError>(ContractError::Paused),
        !paused && sender@ != admin@ ==> r == Err::<(u64, VoteOption), ContractError>(
            ContractError::Unauthorized,
        ),
        !paused && sender@ == admin@ ==> r == Ok::<(u64, VoteOption), ContractError>(
            (proposal, vote),
        ),
{
    if paused {
        return Err(ContractError::Paused);
    }
    check_admin(sender, admin)?;
    Ok((proposal, vote))
}

/// What removing the validator at `address` from `vals` does, at the given index: the
/// stake it held goes to the validator with the least stake among the rest.
pub open spec fn removal_fits(vals: Seq<Validator>, address: Seq<char>) -> bool {
    first_with_address(vals, address, 0) matches Some(i) ==> (vals.remove(i).len() > 0 ==> vals.remove(
        i,
    ).last().staked + vals[i].staked <= u128::MAX)
}

/// The admin removes the validator at `address`. Its stake moves to the validator with
/// the least stake among the rest (a redelegation, unless `redelegate` is `Some(false)`,
/// which is refused where the validator still holds stake), and the set is sorted again.
/// `EmptyValidatorSet` where no validator would be left: the request is then refused and
/// the set is not to be stored.
pub fn try_remove_validator(
    set: &mut ValidatorSet,
    sender: &String,
    admin: &String,
    address: &str,
    redelegate: Option<bool>,
) -> (r: Result<Option<Redelegation>, ContractError>)
    requires
        sender@ == admin@ ==> removal_fits(old(set).validators@, address@),
    ensures
        sender@ != admin@ ==> r == Err::<Option<Redelegation>, ContractError>(
            ContractError::Unauthorized,
        ) && final(set).validators@ == old(set).validators@,
        sender@ == admin@ ==> match first_with_address(old(set).validators@, address@, 0) {
            None => r == Err::<Option<Redelegation>, ContractError>(ContractError::ValidatorNotFound)
                && final(set).validators@ == old(set).validators@,
            Some(i) => {
                let flag = match redelegate {
                    Some(b) => b,
                    None => true,
                };
                let v = old(set).validators@[i];
                let rest = old(set).validators@.remove(i);
                if !flag && v.staked != 0 {
                    r == Err::<Option<Redelegation>, ContractError>(ContractError::ValidatorHasStake)
                        && final(set).validators@ == old(set).validators@
                } else if rest.len() == 0 {
                    r == Err::<Option<Redelegation>, ContractError>(ContractError::EmptyValidatorSet)
                } else {
                    &&& r is Ok
                    &&& flag ==> (r->Ok_0 matches Some(rd) && rd.src_validator@ == address@
                        && rd.dst_validator == rest.last().address && rd.amount == v.staked)
                    &&& !flag ==> r->Ok_0 is None
                    &&& final(set).validators@.to_multiset() == with_stake(
                        rest,
                        rest.len() - 1,
                        rest.last().staked + v.staked,
                    ).to_multiset()
                    &&& sorted_by_stake(final(set).validators@)
                }
            },
        },
{
    check_admin(sender, admin)?;
    let flag = match redelegate {
        Some(b) => b,
        None => true,
    };
    let removed = set.remove(address, flag)?;
    let validator = match removed {
        Some(v) => v,
        None => {
            return Ok(None);
        },
    };
    let to_stake = validator.staked;
    let dest = set.stake_with_least(to_stake)?;
    let out = if flag {
        Some(Redelegation { src_validator: address.to_owned(), dst_validator: dest, amount: to_stake })
    } else {
        None
    };
    set.rebalance();
    Ok(out)
}

/// What moving the stake at `from` to `to` needs: the stake fits at `to`.
pub open spec fn redelegation_fits(vals: Seq<Validator>, from: Seq<char>, to: Seq<char>) -> bool {
    first_with_address(vals, from, 0) matches Some(i) ==> (first_with_address(
        vals.remove(i),
        to,
        0,
    ) matches Some(j) ==> vals.remove(i)[j].staked + vals[i].staked <= u128::MAX)
}

/// The admin moves all the stake of the validator at `from`, which leaves the set, to the
/// one at `to`. The rewards `from_rewards` the move withdraws from `from` are to be
/// deposited again and back the staking token. On an error the request is refused and
/// nothing is to be stored.
pub fn try_redelegate(
    set: &mut ValidatorSet,
    state: &mut State,
    sender: &String,
    admin: &String,
    from: &str,
    to: &str,
    from_rewards: u128,
) -> (r: Result<Redelegation, ContractError>)
    requires
        sender@ == admin@ ==> redelegation_fits(old(set).validators@, from@, to@),
        old(state).to_deposit + from_rewards <= u128::MAX,
        old(state).lsside_backing + from_rewards <= u128::MAX,
    ensures
        sender@ != admin@ ==> r == Err::<Redelegation, ContractError>(ContractError::Unauthorized),
        sender@ == admin@ ==> match first_with_address(old(set).validators@, from@, 0) {
            None => r == Err::<Redelegation, ContractError>(ContractError::ValidatorNotFound),
            Some(i) => {
                let v = old(set).validators@[i];
                let rest = old(set).validators@.remove(i);
                if rest.len() == 0 {
                    r == Err::<Redelegation, ContractError>(ContractError::EmptyValidatorSet)
                } else {
                    match first_with_address(rest, to@, 0) {
                        None => r == Err::<Redelegation, ContractError>(
                            ContractError::ValidatorNotFound,
                        ),
                        Some(j) => {
                            &&& r matches Ok(rd) && rd.src_validator@ == from@ && rd.dst_validator@
                                == to@ && rd.amount == v.staked
                            &&& final(set).validators@ == with_stake(
                                rest,
                                j,
                                rest[j].staked + v.staked,
                            )
                            &&& *final(state) == (State {
                                to_deposit: (old(state).to_deposit + from_rewards) as u128,
                                lsside_backing: (old(state).lsside_backing + from_rewards) as u128,
                                ..*old(state)
                            })
                        },
                    }
                }
            },
        },
{
    check_admin(sender, admin)?;
    let removed = set.remove(from, true)?;
    let validator = match removed {
        Some(v) => v,
        None => {
            return Err(ContractError::ValidatorNotFound);
        },
    };
    let to_stake = validator.staked;
    set.stake_at(to, to_stake)?;
    if from_rewards > 0 {
        state.to_deposit = state.to_deposit + from_rewards;
        state.lsside_backing = state.lsside_backing + from_rewards;
    }
    Ok(Redelegation { src_validator: from.to_owned(), dst_validator: to.to_owned(), amount: to_stake })
}

/// `a - b`, or zero.
pub open spec fn saturating_sub(a: int, b: int) -> int {
    if a > b {
        a - b
    } else {
        0
    }
}

/// The admin pulls the switch: the exchange rate is frozen at `total_on_chain` over the
/// token supply less what waits to be burnt, every validator's stake is undelegated and
/// set to zero, and the kill switch moves to unbonding. Returns the frozen amounts and
/// the undelegations. `TokenNotRegistered` where the staking token is not registered.
pub fn try_kill_switch_unbond(
    set: &mut ValidatorSet,
    kill_switch: &mut u8,
    sender: &String,
    admin: &String,
    token_registered: bool,
    total_on_chain: u128,
    total_supply: u128,
    lsside_to_burn: u128,
) -> (r: Result<(u128, u128, Vec<Delegation>), ContractError>)
    ensures
        sender@ != admin@ ==> r == Err::<(u128, u128, Vec<Delegation>), ContractError>(
            ContractError::Unauthorized,
        ),
        sender@ == admin@ && !token_registered ==> r == Err::<
            (u128, u128, Vec<Delegation>),
            ContractError,
        >(ContractError::TokenNotRegistered),
        r is Err ==> *final(kill_switch) == *old(kill_switch) && final(set).validators@ == old(
            set,
        ).validators@,
        sender@ == admin@ && token_registered ==> {
            &&& r matches Ok((frozen_total, frozen_tokens, undelegations)) && frozen_total
                == total_on_chain && frozen_tokens == saturating_sub(
                total_supply as int,
                lsside_to_burn as int,
            ) && undelegations@ == holding_stake(old(set).validators@).map_values(
                |v: Validator| Delegation { validator: v.address, amount: v.staked },
            )
            &&& *final(kill_switch) == kill_switch_code(KillSwitch::Unbonding)
            &&& final(set).validators@.len() == old(set).validators@.len()
            &&& forall|i: int|
                0 <= i < final(set).validators@.len() ==> #[trigger] final(set).validators@[i] == (
                Validator { address: old(set).validators@[i].address, staked: 0 })
        },
{
    check_admin(sender, admin)?;
    if !token_registered {
        return Err(ContractError::TokenNotRegistered);
    }
    let frozen_tokens = if total_supply > lsside_to_burn {
        total_supply - lsside_to_burn
    } else {
        0
    };
    *kill_switch = KillSwitch::Unbonding.into_u8();
    let undelegations = set.unbond_all();
    set.zero();
    Ok((total_on_chain, frozen_tokens, undelegations))
}

/// The exchange rate of `total_on_chain` staked for `tokens` in circulation (see
/// `_calc_exchange_rate`).
pub open spec fn exchange_rate_spec(total_on_chain: u128, tokens: u128) -> Rate {
    if total_on_chain == 0 || tokens == 0 {
        rd_round12_spec(whole(1))
    } else {
        rd_round12_spec(rd_div_spec(whole(total_on_chain as u64), whole(tokens as u64))->0)
    }
}

/// The amounts the exchange rate of the staking token is taken from: while the kill
/// switch is closed, the live staked amount and the supply less what waits to be
/// burnt; after it was pulled, the frozen ones.
pub open spec fn rate_inputs(
    kill_switch: u8,
    live_total: u128,
    live_supply: u128,
    to_burn: u128,
    frozen_total: u128,
    frozen_tokens: u128,
) -> (u128, u128) {
    if kill_switch == 0 {
        (live_total, saturating_sub(live_supply as int, to_burn as int) as u128)
    } else {
        (frozen_total, frozen_tokens)
    }
}

/// The exchange rate of the staking token under the kill switch state `kill_switch`:
/// `TokenNotRegistered` before the token is registered, `InvalidKillSwitch` for an
/// unknown state.
pub fn lsside_exchange_rate(
    kill_switch: u8,
    token_registered: bool,
    live_total: u128,
    live_supply: u128,
    to_burn: u128,
    frozen_total: u128,
    frozen_tokens: u128,
) -> (r: Result<Rate, ContractError>)
    requires
        ({
            let (t, k) = rate_inputs(
                kill_switch,
                live_total,
                live_supply,
                to_burn,
                frozen_total,
                frozen_tokens,
            );
            t != 0 && k != 0 ==> k as u64 != 0
        }),
    ensures
        !token_registered ==> r == Err::<Rate, ContractError>(ContractError::TokenNotRegistered),
        token_registered && kill_switch > 2 ==> r == Err::<Rate, ContractError>(
            ContractError::InvalidKillSwitch,
        ),
        token_registered && kill_switch <= 2 ==> {
            let (t, k) = rate_inputs(
                kill_switch,
                live_total,
                live_supply,
                to_burn,
                frozen_total,
                frozen_tokens,
            );
            r == Ok::<Rate, ContractError>(exchange_rate_spec(t, k))
        },
{
    if !token_registered {
        return Err(ContractError::TokenNotRegistered);
    }
    let state = KillSwitch::try_from(kill_switch)?;
    if state == KillSwitch::Closed {
        let tokens = if live_supply > to_burn {
            live_supply - to_burn
        } else {
            0
        };
        Ok(_calc_exchange_rate(live_total, tokens))
    } else {
        Ok(_calc_exchange_rate(frozen_total, frozen_tokens))
    }
}

} // verus!
