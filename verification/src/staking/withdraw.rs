//! Withdrawals of staking tokens: queued in the open withdraw window while the
//! validators unbond, or paid at once once the kill switch has opened withdrawals.
use vstd::prelude::*;

use crate::staking::deposit::{restake_done, restake_fails, restake_rewards, Restake};
use crate::staking::error::ContractError;
use crate::staking::killswitch::KillSwitch;
use crate::staking::state::State;
use crate::staking::utils::{calc_withdraw, calc_withdraw_spec, rate_valid, Rate};
use crate::staking::validator_set::{distinct_addresses, holding_stake, sum_staked, Validator, ValidatorSet};
use crate::staking::window_manager::{QueueWindow, WindowManager};

verus! {

/// The least amount of staking tokens a withdrawal may queue.
pub const MINIMUM_WITHDRAW: u128 = 10_000;

/// Where a withdrawal of staking tokens goes.
#[derive(Clone, Copy, Debug, PartialEq, Eq, Structural)]
pub enum WithdrawPath {
    /// Into the open withdraw window.
    Queue,
    /// Paid out at once, the kill switch having opened withdrawals.
    Release,
}

/// Where a withdrawal of `amount` goes under the kill switch state `kill_switch`:
/// refused while unbonding, paid at once once open, else queued where it is at least
/// the minimum.
pub open spec fn gate_spec(kill_switch: u8, amount: u128) -> Result<WithdrawPath, ContractError> {
    if kill_switch > 2 {
        Err(ContractError::InvalidKillSwitch)
    } else if kill_switch == 1 {
        Err(ContractError::WithdrawalsFrozen)
    } else if kill_switch == 2 {
        Ok(WithdrawPath::Release)
    } else if amount < MINIMUM_WITHDRAW {
        Err(ContractError::WithdrawBelowMinimum)
    } else {
        Ok(WithdrawPath::Queue)
    }
}

/// Where a withdrawal of `amount` goes under the kill switch state `kill_switch`.
pub fn withdraw_gate(kill_switch: u8, amount: u128) -> (r: Result<WithdrawPath, ContractError>)
    ensures
        r == gate_spec(kill_switch, amount),
{
    let k = match KillSwitch::try_from(kill_switch) {
        Ok(k) => k,
        Err(e) => {
            return Err(e);
        },
    };
    if k == KillSwitch::Unbonding {
        return Err(ContractError::WithdrawalsFrozen);
    }
    if k == KillSwitch::Open {
        return Ok(WithdrawPath::Release);
    }
    if amount < MINIMUM_WITHDRAW {
        return Err(ContractError::WithdrawBelowMinimum);
    }
    Ok(WithdrawPath::Queue)
}

/// What a queued withdrawal did: the user's amount and the window's total now queued,
/// the validators whose rewards are claimed, and how those rewards were restaked.
#[derive(Clone, Debug, PartialEq, Eq)]
pub struct QueuedWithdraw {
    pub user_amount: u128,
    pub total_amount: u128,
    pub reward_claims: Vec<String>,
    pub restake: Restake,
}

/// What became of a withdrawal.
#[derive(Clone, Debug, PartialEq, Eq)]
pub enum WithdrawOutcome {
    /// Queued in the open window.
    Queued(QueuedWithdraw),
    /// To be paid at once (see `release_tokens`), withdrawals being open.
    Release,
}

/// The windows once `amount` more staking tokens are queued in the open one.
pub open spec fn queued(w: WindowManager, amount: int) -> WindowManager {
    WindowManager {
        queue_window: QueueWindow {
            total_lsside: (w.queue_window.total_lsside + amount) as u128,
            ..w.queue_window
        },
        ..w
    }
}

/// A user sends `amount` staking tokens to withdraw, `stored` being what the user has
/// queued in the open window already. Where the kill switch lets withdrawals queue (see
/// `gate_spec`), the tokens join the open window, and the validators' rewards are
/// claimed and restaked as `restake_rewards` does. Once the kill switch has opened
/// withdrawals the tokens are to be released at once. Only a queued withdrawal touches
/// the windows, the accounts or the validators.
pub fn try_withdraw(
    kill_switch: u8,
    amount: u128,
    stored: Option<u128>,
    windows: &mut WindowManager,
    state: &mut State,
    set: &mut ValidatorSet,
    reward_amount: u128,
    dev_fee: u64,
) -> (r: Result<WithdrawOutcome, ContractError>)
    requires
        gate_spec(kill_switch, amount) == Ok::<WithdrawPath, ContractError>(WithdrawPath::Queue) ==> {
            &&& old(windows).queue_window.total_lsside + amount <= u128::MAX
            &&& stored matches Some(a) ==> a + amount <= u128::MAX
            &&& distinct_addresses(old(set).validators@)
            &&& old(state).to_deposit + sum_staked(old(set).validators@) + reward_amount <= u128::MAX
            &&& old(state).lsside_backing + reward_amount <= u128::MAX
        },
    ensures
        match gate_spec(kill_switch, amount) {
            Err(e) => r == Err::<WithdrawOutcome, ContractError>(e) && *final(windows) == *old(
                windows,
            ) && *final(state) == *old(state) && *final(set) == *old(set),
            Ok(WithdrawPath::Release) => r == Ok::<WithdrawOutcome, ContractError>(
                WithdrawOutcome::Release,
            ) && *final(windows) == *old(windows) && *final(state) == *old(state) && *final(set)
                == *old(set),
            Ok(WithdrawPath::Queue) => {
                &&& r is Err <==> restake_fails(
                    *old(state),
                    old(set).validators@,
                    reward_amount as int,
                    dev_fee as int,
                )
                &&& r is Err ==> r == Err::<WithdrawOutcome, ContractError>(
                    ContractError::EmptyValidatorSet,
                )
                &&& r is Ok ==> (r matches Ok(WithdrawOutcome::Queued(q)) && {
                    &&& q.user_amount == (match stored {
                        Some(a) => a,
                        None => 0,
                    }) + amount
                    &&& q.total_amount == old(windows).queue_window.total_lsside + amount
                    &&& *final(windows) == queued(*old(windows), amount as int)
                    &&& q.reward_claims@ == holding_stake(old(set).validators@).map_values(
                        |v: Validator| v.address,
                    )
                    &&& restake_done(
                        *old(state),
                        *final(state),
                        old(set).validators@,
                        final(set).validators@,
                        reward_amount as int,
                        dev_fee as int,
                        q.restake,
                    )
                })
            },
        },
{
    let path = match withdraw_gate(kill_switch, amount) {
        Ok(p) => p,
        Err(e) => {
            return Err(e);
        },
    };
    if path == WithdrawPath::Release {
        return Ok(WithdrawOutcome::Release);
    }
    let user_amount = windows.add_user_amount_to_active_window(stored, amount);
    let total_amount = windows.queue_window.total_lsside;
    let reward_claims = set.withdraw_rewards_messages();
    let restake = match restake_rewards(state, set, reward_amount, dev_fee) {
        Ok(p) => p,
        Err(e) => {
            return Err(e);
        },
    };
    Ok(WithdrawOutcome::Queued(QueuedWithdraw { user_amount, total_amount, reward_claims, restake }))
}

/// What a withdrawal pays once withdrawals are open: the tokens' worth at the frozen
/// exchange rate, at most the contract's balance.
pub fn release_tokens(amount: u128, exchange_rate: Rate, balance: u128) -> (r: u128)
    requires
        rate_valid(exchange_rate),
    ensures
        r == (if calc_withdraw_spec(amount, exchange_rate) < balance {
            calc_withdraw_spec(amount, exchange_rate)
        } else {
            balance as int
        }),
{
    let worth = calc_withdraw(amount, exchange_rate);
    if worth < balance {
        worth
    } else {
        balance
    }
}

} // verus!
