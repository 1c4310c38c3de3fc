//! Advancing the withdraw windows: unbonding what the closing window holds from the
//! validators, and settling the windows that have matured. Also the claim of what has
//! matured for a user.
use vstd::prelude::*;

use crate::decimal::pow10;
use crate::staking::deposit::{reordered, Delegation};
use crate::staking::error::ContractError;
use crate::staking::state::State;
use crate::staking::utils::{
    calc_threshold, calc_withdraw, calc_withdraw_spec, rate_floor, rate_gt_one, rate_to_u128,
    rate_valid, rd_div_spec, rd_mul_spec, whole, Rate,
};
use crate::staking::validator_set::{
    distinct_addresses, first_with_address, lemma_first_with_address_found, sum_staked, with_stake,
    Validator, ValidatorSet,
};
use crate::staking::window_manager::{OngoingWithdrawWindow, QueueWindow, WindowManager};

verus! {

/// Whether the open window may close at `now`.
pub fn check_window_advance(window_manager: &WindowManager, now: u64) -> (r: bool)
    ensures
        r == (window_manager.time_to_close_window <= now),
{
    window_manager.time_to_close_window <= now
}

/// What is left to unbond after the first `k` validators, each taking `per` plus what
/// the previous ones could not give, up to its stake.
pub open spec fn carry_after(vals: Seq<Validator>, per: int, k: int) -> int
    decreases k,
{
    if k <= 0 {
        0
    } else {
        let want = per + carry_after(vals, per, k - 1);
        if vals[k - 1].staked < want {
            want - vals[k - 1].staked
        } else {
            0
        }
    }
}

/// What validator `k` gives: `per` plus the carry, up to its stake.
pub open spec fn take_at(vals: Seq<Validator>, per: int, k: int) -> int {
    let want = per + carry_after(vals, per, k);
    if vals[k].staked < want {
        vals[k].staked as int
    } else {
        want
    }
}

/// The validators after each gives its part.
pub open spec fn unbond_result(vals: Seq<Validator>, per: int) -> Seq<Validator> {
    Seq::new(
        vals.len(),
        |i: int|
            Validator {
                address: vals[i].address,
                staked: (vals[i].staked - take_at(vals, per, i)) as u128,
            },
    )
}

/// The sum of what the first `k` validators give.
pub open spec fn taken_upto(vals: Seq<Validator>, per: int, k: int) -> int
    decreases k,
{
    if k <= 0 {
        0
    } else {
        taken_upto(vals, per, k - 1) + take_at(vals, per, k - 1)
    }
}

proof fn lemma_carry_conserves(vals: Seq<Validator>, per: int, k: int)
    requires
        0 <= k <= vals.len(),
        per >= 0,
    ensures
        taken_upto(vals, per, k) + carry_after(vals, per, k) == per * k,
        0 <= carry_after(vals, per, k) <= per * k,
    decreases k,
{
    if k > 0 {
        lemma_carry_conserves(vals, per, k - 1);
        let c = carry_after(vals, per, k - 1);
        let want = per + c;
        assert(taken_upto(vals, per, k) == taken_upto(vals, per, k - 1) + take_at(vals, per, k - 1));
        assert(take_at(vals, per, k - 1) + carry_after(vals, per, k) == want);
        assert(per * k == per * (k - 1) + per) by (nonlinear_arith);
        assert(carry_after(vals, per, k) <= want);
    } else {
        assert(per * k == 0) by (nonlinear_arith)
            requires
                k == 0,
        ;
    }
}

proof fn lemma_first_of_distinct(vals: Seq<Validator>, i: int)
    requires
        distinct_addresses(vals),
        0 <= i < vals.len(),
    ensures
        first_with_address(vals, vals[i].address@, 0) == Some(i),
{
    if first_with_address(vals, vals[i].address@, 0) is None {
        crate::staking::validator_set::lemma_first_with_address_none(vals, vals[i].address@, 0);
    } else {
        lemma_first_with_address_found(vals, vals[i].address@, 0);
        let j = first_with_address(vals, vals[i].address@, 0)->0;
        if j < i {
            assert(vals[j].address@ != vals[i].address@);
        }
    }
}

/// Unbonds `amount` from the validators. Above one validator's share of the total stake,
/// each validator in turn gives `amount / n - 2` plus what earlier ones could not give, up
/// to its stake; otherwise, where it is not zero, all of it comes from the front
/// validator, the one with the most stake. Returns the undelegations.
pub fn unbond_plan(set: &mut ValidatorSet, amount: u128) -> (r: Result<Vec<Delegation>, ContractError>)
    requires
        distinct_addresses(old(set).validators@),
        sum_staked(old(set).validators@) <= u128::MAX,
        old(set).validators@.len() > 0 && amount > sum_staked(old(set).validators@) / (old(
            set,
        ).validators@.len() as int) ==> amount as int / (old(set).validators@.len() as int) >= 2,
    ensures
        ({
            let vals = old(set).validators@;
            let n = vals.len() as int;
            let threshold = if n == 0 {
                0
            } else {
                sum_staked(vals) / n
            };
            if amount > threshold {
                if n == 0 {
                    r == Err::<Vec<Delegation>, ContractError>(ContractError::EmptyValidatorSet)
                } else {
                    let per = amount as int / n - 2;
                    &&& r matches Ok(d) && d@.len() == n && forall|i: int|
                        0 <= i < n ==> #[trigger] d@[i] == (Delegation {
                            validator: vals[i].address,
                            amount: take_at(vals, per, i) as u128,
                        })
                    &&& final(set).validators@ == unbond_result(vals, per)
                    &&& taken_upto(vals, per, n) + carry_after(vals, per, n) == per * n
                }
            } else if amount > 0 {
                r matches Ok(d) && d@ == seq![
                    Delegation { validator: vals[0].address, amount },
                ] && final(set).validators@ == with_stake(
                    vals,
                    0,
                    if vals[0].staked > amount {
                        vals[0].staked - amount
                    } else {
                        0
                    },
                )
            } else {
                r matches Ok(d) && d@.len() == 0 && final(set).validators@ == vals
            }
        }),
{
    let ghost vals = set.validators@;
    let val_count = set.validators.len();
    proof {
        crate::staking::validator_set::lemma_sum_staked_prefix(vals, 0);
    }
    let total_staked = set.total_staked();
    let mut out: Vec<Delegation> = Vec::new();
    if amount > calc_threshold(total_staked, val_count) {
        if val_count == 0 {
            return Err(ContractError::EmptyValidatorSet);
        }
        let n = val_count as u128;
        let to_withdraw = amount / n - 2;
        proof {
            assert(to_withdraw * n <= amount) by (nonlinear_arith)
                requires
                    to_withdraw == amount / n - 2,
                    n > 0,
                    amount / n >= 2,
            ;
        }
        let mut left: u128 = 0;
        let mut idx: usize = 0;
        while idx < val_count
            invariant
                val_count == vals.len(),
                n == val_count,
                n > 0,
                to_withdraw * n <= amount,
                to_withdraw >= 0,
                idx <= val_count,
                left == carry_after(vals, to_withdraw as int, idx as int),
                set.validators@.len() == vals.len(),
                distinct_addresses(set.validators@),
                forall|i: int| #![trigger set.validators@[i]]
                    0 <= i < vals.len() ==> set.validators@[i].address == vals[i].address,
                forall|i: int| #![trigger set.validators@[i]]
                    0 <= i < idx ==> set.validators@[i] == unbond_result(vals, to_withdraw as int)[i],
                forall|i: int| #![trigger set.validators@[i]] idx <= i < vals.len() ==> set.validators@[i] == vals[i],
                out@.len() == idx,
                forall|i: int|
                    0 <= i < idx ==> #[trigger] out@[i] == (Delegation {
                        validator: vals[i].address,
                        amount: take_at(vals, to_withdraw as int, i) as u128,
                    }),
            decreases val_count - idx,
        {
            proof {
                lemma_carry_conserves(vals, to_withdraw as int, idx as int);
                assert(to_withdraw * (idx + 1) <= to_withdraw * n) by (nonlinear_arith)
                    requires
                        idx < n,
                        to_withdraw >= 0,
                ;
                assert(to_withdraw * (idx + 1) == to_withdraw * idx + to_withdraw) by (nonlinear_arith);
            }
            let v = set.validators[idx].duplicate();
            let mut temp = to_withdraw + left;
            if v.staked < temp {
                left = temp - v.staked;
                temp = v.staked;
            } else {
                left = 0;
            }
            proof {
                lemma_first_of_distinct(set.validators@, idx as int);
            }
            let ghost before = set.validators@;
            match set.unbond_from(v.address.as_str(), temp) {
                Ok(_) => {},
                Err(e) => {
                    return Err(e);
                },
            }
            proof {
                assert forall|i: int, j: int| 0 <= i < j < set.validators@.len() implies (
                #[trigger] set.validators@[i]).address@ != (#[trigger] set.validators@[j]).address@ by {
                    assert(set.validators@[i].address == before[i].address);
                    assert(set.validators@[j].address == before[j].address);
                }
            }
            out.push(Delegation { validator: v.address, amount: temp });
            idx = idx + 1;
        }
        proof {
            assert(set.validators@ =~= unbond_result(vals, to_withdraw as int));
            lemma_carry_conserves(vals, to_withdraw as int, n as int);
        }
        Ok(out)
    } else if amount > 0 {
        let address = match set.unbond_from_largest(amount) {
            Ok(a) => a,
            Err(e) => {
                return Err(e);
            },
        };
        out.push(Delegation { validator: address, amount });
        proof {
            assert(out@ =~= seq![Delegation { validator: vals[0].address, amount }]);
        }
        Ok(out)
    } else {
        proof {
            assert(out@ =~= Seq::<Delegation>::empty());
        }
        Ok(out)
    }
}

/// The side and staking-token totals of the first `k` windows.
pub open spec fn matured_totals(windows: Seq<OngoingWithdrawWindow>, k: int) -> (int, int)
    decreases k,
{
    if k <= 0 {
        (0, 0)
    } else {
        let t = matured_totals(windows, k - 1);
        (t.0 + windows[k - 1].total_side, t.1 + windows[k - 1].total_lsside)
    }
}

/// The number of windows at the front that have matured by `now`.
pub open spec fn matured_count(windows: Seq<OngoingWithdrawWindow>, now: int, k: int) -> int
    decreases windows.len() - k,
{
    if k < 0 || k >= windows.len() || windows[k].time_to_mature_window >= now {
        k
    } else {
        matured_count(windows, now, k + 1)
    }
}

/// Takes the windows that have matured by `now` off the front; returns them, with what
/// they hold in total.
pub fn collect_matured(window_manager: &mut WindowManager, now: u64) -> (r: (Vec<OngoingWithdrawWindow>, u128, u128))
    requires
        ({
            let t = matured_totals(old(window_manager).ongoing_windows@, old(window_manager).ongoing_windows@.len() as int);
            t.0 <= u128::MAX && t.1 <= u128::MAX
        }),
    ensures
        ({
            let ws = old(window_manager).ongoing_windows@;
            let m = matured_count(ws, now as int, 0);
            &&& r.0@ == ws.take(m)
            &&& final(window_manager).ongoing_windows@ == ws.skip(m)
            &&& r.1 == matured_totals(ws, m).0
            &&& r.2 == matured_totals(ws, m).1
            &&& final(window_manager).queue_window == old(window_manager).queue_window
            &&& final(window_manager).time_to_close_window == old(window_manager).time_to_close_window
        }),
{
    let ghost ws = window_manager.ongoing_windows@;
    let initial_len = window_manager.ongoing_windows.len();
    let mut taken: Vec<OngoingWithdrawWindow> = Vec::new();
    let mut side: u128 = 0;
    let mut lsside: u128 = 0;
    let mut k: usize = 0;
    proof {
        lemma_matured_count_bounds(ws, now as int, 0);
        assert(ws.skip(0) =~= ws);
        assert(ws.take(0) =~= Seq::<OngoingWithdrawWindow>::empty());
    }
    while window_manager.ongoing_windows.len() > 0
        invariant
            k <= ws.len(),
            ws.len() == initial_len,
            window_manager.ongoing_windows@ == ws.skip(k as int),
            taken@ == ws.take(k as int),
            matured_count(ws, now as int, 0) == matured_count(ws, now as int, k as int),
            side == matured_totals(ws, k as int).0,
            lsside == matured_totals(ws, k as int).1,
            matured_totals(ws, ws.len() as int).0 <= u128::MAX,
            matured_totals(ws, ws.len() as int).1 <= u128::MAX,
            window_manager.queue_window == old(window_manager).queue_window,
            window_manager.time_to_close_window == old(window_manager).time_to_close_window,
        ensures
            window_manager.ongoing_windows@.len() == 0 || window_manager.ongoing_windows@[0].time_to_mature_window >= now,
        decreases window_manager.ongoing_windows.len(),
    {
        proof {
            assert(window_manager.ongoing_windows@.len() == ws.len() - k);
        }
        if window_manager.ongoing_windows[0].time_to_mature_window >= now {
            break;
        }
        let w = match window_manager.pop_matured() {
            Ok(w) => w,
            Err(_) => {
                break;
            },
        };
        proof {
            lemma_matured_totals_mono(ws, k as int + 1, ws.len() as int);
            assert(ws.skip(k as int).drop_first() =~= ws.skip(k + 1));
            assert(w == ws[k as int]);
        }
        side = side + w.total_side;
        lsside = lsside + w.total_lsside;
        taken.push(w);
        proof {
            assert(taken@ =~= ws.take(k + 1));
        }
        k = k + 1;
    }
    proof {
        assert(window_manager.ongoing_windows@.len() == ws.len() - k);
        if k < ws.len() {
            assert(window_manager.ongoing_windows@[0] == ws[k as int]);
        }
        lemma_matured_count_bounds(ws, now as int, k as int);
    }
    (taken, side, lsside)
}

proof fn lemma_matured_count_bounds(ws: Seq<OngoingWithdrawWindow>, now: int, k: int)
    requires
        0 <= k <= ws.len(),
    ensures
        k <= matured_count(ws, now, k) <= ws.len(),
        k == ws.len() || ws[k].time_to_mature_window >= now ==> matured_count(ws, now, k) == k,
    decreases ws.len() - k,
{
    if k < ws.len() && ws[k].time_to_mature_window < now {
        lemma_matured_count_bounds(ws, now, k + 1);
    }
}

proof fn lemma_matured_totals_mono(ws: Seq<OngoingWithdrawWindow>, k: int, n: int)
    requires
        0 <= k <= n <= ws.len(),
    ensures
        matured_totals(ws, k).0 <= matured_totals(ws, n).0,
        matured_totals(ws, k).1 <= matured_totals(ws, n).1,
    decreases n - k,
{
    if k < n {
        lemma_matured_totals_mono(ws, k, n - 1);
    }
}

/// Settles the matured windows: the contract must have received at least nine tenths of
/// the `ongoing_side` they are worth (`claimed_juno` is what it received). The amounts
/// leave the under-withdraw accounts and what users may claim joins the unredeemed
/// account: all of it, where more than expected arrived, else what arrived. Returns the
/// share of each user's amount that is paid: what arrived over what was expected, at
/// most one.
pub fn settle_matured(
    state: &mut State,
    claimed_juno: u128,
    ongoing_side: u128,
    ongoing_lsside: u128,
) -> (r: Result<Rate, ContractError>)
    requires
        ongoing_side > 0,
        ongoing_side * 90 <= u128::MAX,
        claimed_juno as u64 == claimed_juno,
        ongoing_side as u64 == ongoing_side,
        claimed_juno >= ongoing_side * 90 / 100 ==> {
            &&& ongoing_side <= old(state).side_under_withdraw
            &&& ongoing_lsside <= old(state).lsside_under_withdraw
            &&& old(state).not_redeemed + ongoing_side <= u128::MAX
            &&& old(state).not_redeemed + claimed_juno <= u128::MAX
        },
    ensures
        r matches Ok(q) ==> rate_valid(q),
        claimed_juno < ongoing_side * 90 / 100 ==> r == Err::<Rate, ContractError>(
            ContractError::ClaimNotProcessed,
        ) && *final(state) == *old(state),
        claimed_juno >= ongoing_side * 90 / 100 ==> {
            let q = rd_div_spec(whole(claimed_juno as u64), whole(ongoing_side as u64))->0;
            let above_one = q.mantissa > pow10(q.scale as nat);
            &&& r == Ok::<Rate, ContractError>(
                if above_one {
                    Rate { mantissa: 1, scale: 0 }
                } else {
                    q
                },
            )
            &&& *final(state) == State {
                side_under_withdraw: (old(state).side_under_withdraw - ongoing_side) as u128,
                lsside_under_withdraw: (old(state).lsside_under_withdraw - ongoing_lsside) as u128,
                not_redeemed: (old(state).not_redeemed + if above_one {
                    ongoing_side
                } else {
                    claimed_juno
                }) as u128,
                ..*old(state)
            }
        },
{
    if claimed_juno < ongoing_side * 90 / 100 {
        return Err(ContractError::ClaimNotProcessed);
    }
    state.side_under_withdraw = state.side_under_withdraw - ongoing_side;
    state.lsside_under_withdraw = state.lsside_under_withdraw - ongoing_lsside;
    let ratio = match crate::staking::utils::rate_div_whole(claimed_juno as u64, ongoing_side as u64) {
        Some(q) => q,
        None => Rate { mantissa: 1, scale: 0 },
    };
    if rate_gt_one(ratio) {
        state.not_redeemed = state.not_redeemed + ongoing_side;
        Ok(Rate { mantissa: 1, scale: 0 })
    } else {
        state.not_redeemed = state.not_redeemed + claimed_juno;
        Ok(ratio)
    }
}

/// What a user's matured `amount` pays at `ratio`, rounded down; `None` where the
/// product is out of range.
pub fn matured_user_amount(amount: u128, ratio: Rate) -> (r: Option<u128>)
    requires
        rate_valid(ratio),
    ensures
        match rd_mul_spec(whole(amount as u64), ratio) {
            Some(x) => r == Some(rate_floor(x) as u128),
            None => r is None,
        },
{
    match crate::staking::utils::rate_mul_whole(amount as u64, ratio) {
        Some(x) => {
            proof {
                crate::decimal::lemma_pow10_monotone(0, x.scale as nat);
            }
            Some(rate_to_u128(x))
        },
        None => None,
    }
}

/// What a claim pays and records: the user's matured amount leaves the claimable total
/// and, where it is not zero, the unredeemed account.
pub fn claim(
    paused: bool,
    state: &mut State,
    claimable_total: u128,
    user_amount: Option<u128>,
) -> (r: Result<(u128, u128), ContractError>)
    requires
        user_amount matches Some(a) ==> a <= claimable_total && a <= old(state).not_redeemed,
    ensures
        paused ==> r == Err::<(u128, u128), ContractError>(ContractError::Paused) && *final(state)
            == *old(state),
        !paused ==> match user_amount {
            None => r == Ok::<(u128, u128), ContractError>((0, claimable_total)) && *final(state)
                == *old(state),
            Some(a) => r == Ok::<(u128, u128), ContractError>((a, (claimable_total - a) as u128))
                && *final(state) == State {
                not_redeemed: (old(state).not_redeemed - a) as u128,
                ..*old(state)
            },
        },
{
    if paused {
        return Err(ContractError::Paused);
    }
    match user_amount {
        None => Ok((0, claimable_total)),
        Some(a) => {
            if a > 0 {
                state.not_redeemed = state.not_redeemed - a;
            }
            Ok((a, claimable_total - a))
        },
    }
}


/// The staking tokens a closing window burns: all those queued in it, where there are
/// any. (Closing the window also empties the users' queued amounts: see
/// `WindowManager::advance_window`, which turns each into what it is worth.)
pub fn closing_burn(window_manager: &WindowManager) -> (r: Option<u128>)
    ensures
        r == (if window_manager.queue_window.total_lsside == 0 {
            None
        } else {
            Some(window_manager.queue_window.total_lsside)
        }),
{
    if window_manager.queue_window.total_lsside == 0 {
        None
    } else {
        Some(window_manager.queue_window.total_lsside)
    }
}

/// `d` unbonds `amount` from `vals` as `unbond_plan` does, leaving the validators as
/// `after`.
pub open spec fn unbond_split(vals: Seq<Validator>, amount: int, d: Seq<Delegation>, after: Seq<Validator>) -> bool {
    let n = vals.len() as int;
    let threshold = if n == 0 {
        0
    } else {
        sum_staked(vals) / n
    };
    if amount > threshold {
        let per = amount / n - 2;
        &&& n > 0
        &&& d.len() == n
        &&& forall|i: int|
            0 <= i < n ==> #[trigger] d[i] == (Delegation {
                validator: vals[i].address,
                amount: take_at(vals, per, i) as u128,
            })
        &&& after == unbond_result(vals, per)
    } else if amount > 0 {
        &&& d == seq![Delegation { validator: vals[0].address, amount: amount as u128 }]
        &&& after == with_stake(
            vals,
            0,
            if vals[0].staked > amount {
                vals[0].staked - amount
            } else {
                0
            },
        )
    } else {
        &&& d.len() == 0
        &&& after == vals
    }
}

/// What closing the open window did: the staked tokens it withdraws, the undelegations,
/// the staking tokens to burn (where any were queued) and what each queued user amount
/// is worth.
#[derive(Clone, Debug, PartialEq, Eq)]
pub struct WindowClose {
    pub withdrawn: u128,
    pub undelegations: Vec<Delegation>,
    pub burn: Option<u128>,
    pub user_worths: Vec<u128>,
}

/// The accounts once a window of `total` staking tokens worth `w` closes, with
/// `rewards` from the unbonded validators.
pub open spec fn closed_state(s0: State, total: u128, w: int, rewards: u128) -> State {
    State {
        side_under_withdraw: (s0.side_under_withdraw + w) as u128,
        lsside_under_withdraw: (s0.lsside_under_withdraw + total) as u128,
        lsside_backing: ((if s0.lsside_backing > w {
            s0.lsside_backing - w
        } else {
            0
        }) + rewards) as u128,
        to_deposit: (s0.to_deposit + rewards) as u128,
        ..s0
    }
}

/// The windows under way once the open window `w0`, worth `w`, closes at `now`.
pub open spec fn closed_windows(w0: WindowManager, now: u64, unbonding_period: u64, w: int) -> Seq<
    OngoingWithdrawWindow,
> {
    w0.ongoing_windows@.push(
        OngoingWithdrawWindow {
            id: w0.queue_window.id,
            time_to_mature_window: (now + unbonding_period) as u64,
            total_side: w as u128,
            total_lsside: w0.queue_window.total_lsside,
        },
    )
}

/// The inputs of closing the open window that keep its arithmetic in range.
pub open spec fn close_ready(
    s0: State,
    w0: WindowManager,
    vals: Seq<Validator>,
    exchange_rate: Rate,
    rewards: u128,
    now: u64,
    unbonding_period: u64,
    epoch_period: u64,
) -> bool {
    let w = calc_withdraw_spec(w0.queue_window.total_lsside, exchange_rate);
    &&& rate_valid(exchange_rate)
    &&& distinct_addresses(vals)
    &&& sum_staked(vals) <= u128::MAX
    &&& s0.side_under_withdraw + w <= u128::MAX
    &&& s0.lsside_under_withdraw + w0.queue_window.total_lsside <= u128::MAX
    &&& vals.len() > 0 && w > sum_staked(vals) / (vals.len() as int) ==> w / (vals.len() as int) >= 2
    &&& s0.to_deposit + rewards <= u128::MAX
    &&& s0.lsside_backing + rewards <= u128::MAX
    &&& now + unbonding_period <= u64::MAX
    &&& now + epoch_period <= u64::MAX
    &&& w0.queue_window.id + 1 <= u64::MAX
}

/// Closing the open window fails: there is something to unbond and no validator.
pub open spec fn close_fails(w0: WindowManager, vals: Seq<Validator>, exchange_rate: Rate) -> bool {
    vals.len() == 0 && calc_withdraw_spec(w0.queue_window.total_lsside, exchange_rate) > 0
}

/// What closing the open window of `w0` hands back in `c`: the amount withdrawn, the
/// tokens to burn, the undelegations that took the validators from `v0` to `v1` (in
/// order of stake again) and what each queued user amount is worth.
pub open spec fn close_effects(
    w0: WindowManager,
    v0: Seq<Validator>,
    v1: Seq<Validator>,
    exchange_rate: Rate,
    queue_amounts: Seq<u128>,
    c: WindowClose,
) -> bool {
    let total = w0.queue_window.total_lsside;
    let w = calc_withdraw_spec(total, exchange_rate);
    &&& c.withdrawn == w
    &&& c.burn == (if total == 0 {
        None
    } else {
        Some(total)
    })
    &&& exists|mid: Seq<Validator>| #[trigger]
        unbond_split(v0, w, c.undelegations@, mid) && reordered(mid, v1)
    &&& c.user_worths@.len() == queue_amounts.len()
    &&& forall|i: int|
        0 <= i < queue_amounts.len() ==> #[trigger] c.user_worths@[i] == calc_withdraw_spec(
            queue_amounts[i],
            exchange_rate,
        )
}

/// The window that opens once the open window of `w0` closes at `now`.
pub open spec fn reopened(w0: WindowManager, w1: WindowManager, now: u64, epoch_period: u64) -> bool {
    &&& w1.time_to_close_window == now + epoch_period
    &&& w1.queue_window == (QueueWindow { id: (w0.queue_window.id + 1) as u64, total_lsside: 0 })
}

/// `c` closed the open window of `w0` (see `close_window`), taking the accounts from `s0`
/// to `s1`, the windows to `w1` and the validators from `v0` to `v1`.
pub open spec fn close_done(
    s0: State,
    w0: WindowManager,
    v0: Seq<Validator>,
    s1: State,
    w1: WindowManager,
    v1: Seq<Validator>,
    exchange_rate: Rate,
    rewards: u128,
    now: u64,
    unbonding_period: u64,
    epoch_period: u64,
    queue_amounts: Seq<u128>,
    c: WindowClose,
) -> bool {
    let total = w0.queue_window.total_lsside;
    let w = calc_withdraw_spec(total, exchange_rate);
    &&& close_effects(w0, v0, v1, exchange_rate, queue_amounts, c)
    &&& s1 == closed_state(s0, total, w, rewards)
    &&& w1.ongoing_windows@ == closed_windows(w0, now, unbonding_period, w)
    &&& reopened(w0, w1, now, epoch_period)
}

/// Closes the open window at `now`. The staking tokens it queued are worth `withdrawn`
/// at `exchange_rate`: that much joins the amounts under withdraw and leaves the backing
/// (down to zero at most) and is unbonded from the validators as `unbond_plan` does,
/// after which they are in order of stake again. `rewards`, what the unbonded validators
/// had accrued, joins the deposits and the backing. The queued staking tokens are burnt,
/// the window joins those under way and a new one opens (see
/// `WindowManager::advance_window`); `queue_amounts` are the users' queued amounts, whose
/// worth is returned in the same order. Fails where there is something to unbond and no
/// validator.
pub fn close_window(
    state: &mut State,
    windows: &mut WindowManager,
    set: &mut ValidatorSet,
    exchange_rate: Rate,
    rewards: u128,
    now: u64,
    unbonding_period: u64,
    epoch_period: u64,
    queue_amounts: &Vec<u128>,
) -> (r: Result<WindowClose, ContractError>)
    requires
        close_ready(
            *old(state),
            *old(windows),
            old(set).validators@,
            exchange_rate,
            rewards,
            now,
            unbonding_period,
            epoch_period,
        ),
    ensures
        r is Err <==> close_fails(*old(windows), old(set).validators@, exchange_rate),
        r is Err ==> r == Err::<WindowClose, ContractError>(ContractError::EmptyValidatorSet),
        r matches Ok(c) ==> close_done(
            *old(state),
            *old(windows),
            old(set).validators@,
            *final(state),
            *final(windows),
            final(set).validators@,
            exchange_rate,
            rewards,
            now,
            unbonding_period,
            epoch_period,
            queue_amounts@,
            c,
        ),
{
    let total = windows.queue_window.total_lsside;
    let withdrawn = calc_withdraw(total, exchange_rate);
    state.side_under_withdraw = state.side_under_withdraw + withdrawn;
    state.lsside_under_withdraw = state.lsside_under_withdraw + total;
    state.lsside_backing = state.lsside_backing.saturating_sub(withdrawn);
    let ghost vals = set.validators@;
    let undelegations = match unbond_plan(set, withdrawn) {
        Ok(d) => d,
        Err(e) => {
            return Err(e);
        },
    };
    let ghost mid = set.validators@;
    proof {
        assert(unbond_split(vals, withdrawn as int, undelegations@, mid));
    }
    state.to_deposit = state.to_deposit + rewards;
    state.lsside_backing = state.lsside_backing + rewards;
    set.rebalance();
    proof {
        assert(reordered(mid, set.validators@));
    }
    let burn = closing_burn(windows);
    let user_worths = windows.advance_window(now, unbonding_period, epoch_period, exchange_rate, queue_amounts);
    let c = WindowClose { withdrawn, undelegations, burn, user_worths };
    proof {
        assert(unbond_split(vals, withdrawn as int, c.undelegations@, mid));
        assert(reordered(mid, set.validators@));
    }
    Ok(c)
}

/// What settling the matured windows did: the windows taken off the front, what the
/// contract received for them, the share of each user's amount paid (where any side was
/// due), and the users' new claimable amounts and their new total.
#[derive(Clone, Debug, PartialEq, Eq)]
pub struct Matured {
    pub windows: Vec<OngoingWithdrawWindow>,
    pub claimed: u128,
    pub ratio: Option<Rate>,
    pub user_claimables: Vec<u128>,
    pub claimable_total: u128,
}

/// More than expected arrived: `claimed / side` is above one.
pub open spec fn paid_above_one(claimed: u128, side: u128) -> bool {
    let q = rd_div_spec(whole(claimed as u64), whole(side as u64))->0;
    q.mantissa > pow10(q.scale as nat)
}

/// The share of the expected amount paid, as `settle_matured` gives it: what arrived over
/// what was expected, at most one.
pub open spec fn paid_ratio(claimed: u128, side: u128) -> Rate {
    if paid_above_one(claimed, side) {
        Rate { mantissa: 1, scale: 0 }
    } else {
        rd_div_spec(whole(claimed as u64), whole(side as u64))->0
    }
}

/// What a user (what it may already claim, and its matured amount) may claim once its
/// amount is paid at `ratio`, rounded down.
pub open spec fn credited(user: (Option<u128>, u128), ratio: Rate) -> int {
    let paid = match rd_mul_spec(whole(user.1 as u64), ratio) {
        Some(x) => rate_floor(x),
        None => 0,
    };
    paid + match user.0 {
        Some(c) => c as int,
        None => 0,
    }
}

/// Paying the user's amount at `ratio` and adding it to what it may claim stays in range.
pub open spec fn user_credit_ok(user: (Option<u128>, u128), ratio: Rate) -> bool {
    &&& rd_mul_spec(whole(user.1 as u64), ratio) is Some
    &&& credited(user, ratio) <= u128::MAX
}

/// The inputs of settling the matured windows `ws` that keep its arithmetic in range:
/// see `mature_windows`.
pub open spec fn mature_ready(
    s: State,
    ws: Seq<OngoingWithdrawWindow>,
    now: u64,
    balance: u128,
    users: Seq<(Option<u128>, u128)>,
    claimable_total: u128,
) -> bool {
    let all = matured_totals(ws, ws.len() as int);
    let t = matured_totals(ws, matured_count(ws, now as int, 0));
    let claimed = balance - s.to_deposit - s.not_redeemed;
    &&& all.0 <= u128::MAX && all.1 <= u128::MAX
    &&& t.0 > 0 ==> {
        &&& balance >= s.to_deposit + s.not_redeemed
        &&& t.0 * 90 <= u128::MAX
        &&& t.0 <= u64::MAX
        &&& claimed <= u64::MAX
        &&& claimed >= t.0 * 90 / 100 ==> {
            &&& t.0 <= s.side_under_withdraw
            &&& t.1 <= s.lsside_under_withdraw
            &&& s.not_redeemed + t.0 <= u128::MAX
            &&& s.not_redeemed + claimed <= u128::MAX
            &&& users.len() > 0 ==> claimable_total + claimed <= u128::MAX
            &&& forall|i: int|
                0 <= i < users.len() ==> #[trigger] user_credit_ok(
                    users[i],
                    paid_ratio(claimed as u128, t.0 as u128),
                )
        }
    }
}

/// `r` settled the windows under way `ws` that matured by `now`, taking the accounts
/// from `s0` to `s1` and leaving `ws1` under way: see `mature_windows`.
pub open spec fn mature_done(
    s0: State,
    ws: Seq<OngoingWithdrawWindow>,
    s1: State,
    ws1: Seq<OngoingWithdrawWindow>,
    now: u64,
    balance: u128,
    users: Seq<(Option<u128>, u128)>,
    claimable_total: u128,
    r: Result<Matured, ContractError>,
) -> bool {
    let m = matured_count(ws, now as int, 0);
    let t = matured_totals(ws, m);
    let claimed = balance - s0.to_deposit - s0.not_redeemed;
    if t.0 == 0 {
        r matches Ok(x) && x.windows@ == ws.take(m) && x.claimed == 0 && x.ratio is None
            && x.user_claimables@.len() == 0 && x.claimable_total == claimable_total && s1 == s0
            && ws1 == ws.skip(m)
    } else if claimed < t.0 * 90 / 100 {
        r == Err::<Matured, ContractError>(ContractError::ClaimNotProcessed)
    } else {
        let ratio = paid_ratio(claimed as u128, t.0 as u128);
        r matches Ok(x) && {
            &&& x.windows@ == ws.take(m)
            &&& ws1 == ws.skip(m)
            &&& x.claimed == claimed
            &&& x.ratio == Some(ratio)
            &&& s1 == State {
                side_under_withdraw: (s0.side_under_withdraw - t.0) as u128,
                lsside_under_withdraw: (s0.lsside_under_withdraw - t.1) as u128,
                not_redeemed: (s0.not_redeemed + if paid_above_one(claimed as u128, t.0 as u128) {
                    t.0
                } else {
                    claimed
                }) as u128,
                ..s0
            }
            &&& x.user_claimables@.len() == users.len()
            &&& forall|i: int|
                0 <= i < users.len() ==> #[trigger] x.user_claimables@[i] == credited(users[i], ratio)
            &&& x.claimable_total == if users.len() > 0 {
                claimable_total + claimed
            } else {
                claimable_total as int
            }
        }
    }
}

/// What the entries `entries` (a user and an amount each) hold for the user `u`, summed.
pub open spec fn user_total(entries: Seq<(String, u128)>, u: Seq<char>) -> int
    decreases entries.len(),
{
    if entries.len() == 0 {
        0
    } else {
        user_total(entries.drop_last(), u) + if entries.last().0@ == u {
            entries.last().1 as int
        } else {
            0
        }
    }
}

/// The amounts of `entries`, summed.
pub open spec fn entries_total(entries: Seq<(String, u128)>) -> int
    decreases entries.len(),
{
    if entries.len() == 0 {
        0
    } else {
        entries_total(entries.drop_last()) + entries.last().1
    }
}

/// One of `s` is for the user `u`.
pub open spec fn holds_user(s: Seq<(String, u128)>, u: Seq<char>) -> bool {
    exists|i: int| 0 <= i < s.len() && (#[trigger] s[i]).0@ == u
}

/// `out` gathers `entries` by user: each user of `entries` once, with all its amounts
/// summed.
pub open spec fn gathered(entries: Seq<(String, u128)>, out: Seq<(String, u128)>) -> bool {
    &&& forall|i: int, j: int| 0 <= i < j < out.len() ==> (#[trigger] out[i]).0@ != (#[trigger] out[j]).0@
    &&& forall|i: int| 0 <= i < out.len() ==> (#[trigger] out[i]).1 == user_total(entries, out[i].0@)
    &&& forall|k: int| 0 <= k < entries.len() ==> holds_user(out, (#[trigger] entries[k]).0@)
    &&& forall|i: int| 0 <= i < out.len() ==> holds_user(entries, (#[trigger] out[i]).0@)
}

proof fn lemma_user_total_bounded(entries: Seq<(String, u128)>, u: Seq<char>)
    ensures
        0 <= user_total(entries, u) <= entries_total(entries),
    decreases entries.len(),
{
    if entries.len() > 0 {
        lemma_user_total_bounded(entries.drop_last(), u);
    }
}

proof fn lemma_user_total_absent(entries: Seq<(String, u128)>, u: Seq<char>)
    requires
        forall|k: int| 0 <= k < entries.len() ==> (#[trigger] entries[k]).0@ != u,
    ensures
        user_total(entries, u) == 0,
    decreases entries.len(),
{
    if entries.len() > 0 {
        assert(entries.last().0@ != u) by {
            assert(entries[entries.len() - 1].0@ != u);
        }
        lemma_user_total_absent(entries.drop_last(), u);
    }
}

/// Where `user` stands in `out`, if it does.
fn find_user(out: &Vec<(String, u128)>, user: &String) -> (r: Option<usize>)
    ensures
        r matches Some(i) ==> i < out@.len() && out@[i as int].0@ == user@,
        r is None ==> forall|j: int| 0 <= j < out@.len() ==> (#[trigger] out@[j]).0@ != user@,
{
    let mut i: usize = 0;
    while i < out.len()
        invariant
            i <= out@.len(),
            forall|j: int| 0 <= j < i ==> (#[trigger] out@[j]).0@ != user@,
        decreases out.len() - i,
    {
        if out[i].0 == *user {
            return Some(i);
        }
        i = i + 1;
    }
    None
}

proof fn lemma_user_total_push(before: Seq<(String, u128)>, e: (String, u128), u: Seq<char>)
    ensures
        user_total(before.push(e), u) == user_total(before, u) + if e.0@ == u {
            e.1 as int
        } else {
            0
        },
{
    assert(before.push(e).drop_last() =~= before);
}

#[verifier::spinoff_prover]
proof fn lemma_gather_add(
    before: Seq<(String, u128)>,
    e: (String, u128),
    old_out: Seq<(String, u128)>,
    i: int,
    sum: u128,
)
    requires
        gathered(before, old_out),
        0 <= i < old_out.len(),
        old_out[i].0@ == e.0@,
        sum == old_out[i].1 + e.1,
    ensures
        gathered(before.push(e), old_out.update(i, (old_out[i].0, sum))),
{
    let now = before.push(e);
    let out = old_out.update(i, (old_out[i].0, sum));
    assert forall|j: int| 0 <= j < out.len() implies (#[trigger] out[j]).1 == user_total(
        now,
        out[j].0@,
    ) by {
        lemma_user_total_push(before, e, out[j].0@);
        if j != i {
            assert(old_out[j].0@ != old_out[i].0@);
        }
    }
    assert forall|m: int| 0 <= m < now.len() implies holds_user(out, (#[trigger] now[m]).0@) by {
        if m < before.len() {
            assert(now[m] == before[m]);
            assert(holds_user(old_out, before[m].0@));
            let j = choose|j: int| 0 <= j < old_out.len() && (#[trigger] old_out[j]).0@ == before[m].0@;
            assert(out[j].0@ == old_out[j].0@);
        } else {
            assert(out[i].0@ == now[m].0@);
        }
    }
    assert forall|j: int| 0 <= j < out.len() implies holds_user(now, (#[trigger] out[j]).0@) by {
        assert(out[j].0@ == old_out[j].0@);
        assert(holds_user(before, old_out[j].0@));
        let m = choose|m: int| 0 <= m < before.len() && (#[trigger] before[m]).0@ == old_out[j].0@;
        assert(now[m] == before[m]);
    }
    assert forall|a: int, b: int| 0 <= a < b < out.len() implies (#[trigger] out[a]).0@ != (
    #[trigger] out[b]).0@ by {
        assert(out[a].0@ == old_out[a].0@ && out[b].0@ == old_out[b].0@);
    }
}

#[verifier::spinoff_prover]
proof fn lemma_gather_new(before: Seq<(String, u128)>, e: (String, u128), old_out: Seq<(String, u128)>)
    requires
        gathered(before, old_out),
        forall|j: int| 0 <= j < old_out.len() ==> (#[trigger] old_out[j]).0@ != e.0@,
    ensures
        gathered(before.push(e), old_out.push(e)),
{
    let now = before.push(e);
    let out = old_out.push(e);
    assert forall|m: int| 0 <= m < before.len() implies (#[trigger] before[m]).0@ != e.0@ by {
        assert(holds_user(old_out, before[m].0@));
    }
    lemma_user_total_absent(before, e.0@);
    assert forall|j: int| 0 <= j < out.len() implies (#[trigger] out[j]).1 == user_total(
        now,
        out[j].0@,
    ) by {
        lemma_user_total_push(before, e, out[j].0@);
        if j < old_out.len() {
            assert(out[j] == old_out[j]);
        }
    }
    assert forall|m: int| 0 <= m < now.len() implies holds_user(out, (#[trigger] now[m]).0@) by {
        if m < before.len() {
            assert(now[m] == before[m]);
            assert(holds_user(old_out, before[m].0@));
            let j = choose|j: int| 0 <= j < old_out.len() && (#[trigger] old_out[j]).0@ == before[m].0@;
            assert(out[j] == old_out[j]);
        } else {
            assert(out[old_out.len() as int].0@ == now[m].0@);
        }
    }
    assert forall|j: int| 0 <= j < out.len() implies holds_user(now, (#[trigger] out[j]).0@) by {
        if j < old_out.len() {
            assert(out[j] == old_out[j]);
            assert(holds_user(before, old_out[j].0@));
            let m = choose|m: int| 0 <= m < before.len() && (#[trigger] before[m]).0@ == old_out[j].0@;
            assert(now[m] == before[m]);
        } else {
            assert(now[before.len() as int] == e);
        }
    }
    assert forall|a: int, b: int| 0 <= a < b < out.len() implies (#[trigger] out[a]).0@ != (
    #[trigger] out[b]).0@ by {
        assert(out[a] == old_out[a]);
        if b < old_out.len() {
            assert(out[b] == old_out[b]);
        }
    }
}

/// Gathers the users' matured amounts `entries` (a user and an amount each, from every
/// matured window) by user, in the order users first appear; see `gathered`.
#[verifier::spinoff_prover]
pub fn gather_user_amounts(entries: &Vec<(String, u128)>) -> (r: Vec<(String, u128)>)
    requires
        entries_total(entries@) <= u128::MAX,
    ensures
        gathered(entries@, r@),
{
    let mut out: Vec<(String, u128)> = Vec::new();
    let mut k: usize = 0;
    while k < entries.len()
        invariant
            k <= entries@.len(),
            entries_total(entries@) <= u128::MAX,
            gathered(entries@.take(k as int), out@),
        decreases entries.len() - k,
    {
        let ghost before = entries@.take(k as int);
        let user = entries[k].0.clone();
        let amount = entries[k].1;
        proof {
            assert(entries@.take(k + 1) =~= before.push((user, amount)));
            lemma_entries_total_prefix(entries@, k + 1);
            lemma_user_total_bounded(before.push((user, amount)), user@);
        }
        let ghost old_out = out@;
        match find_user(&out, &user) {
            Some(i) => {
                proof {
                    assert(before.push((user, amount)).drop_last() =~= before);
                }
                let sum = out[i].1 + amount;
                let name = out[i].0.clone();
                out.set(i, (name, sum));
                proof {
                    lemma_gather_add(before, (user, amount), old_out, i as int, sum);
                }
            },
            None => {
                proof {
                    lemma_gather_new(before, (user, amount), old_out);
                }
                out.push((user, amount));
            },
        }
        k = k + 1;
    }
    proof {
        assert(entries@.take(entries@.len() as int) =~= entries@);
    }
    out
}

proof fn lemma_entries_total_prefix(entries: Seq<(String, u128)>, k: int)
    requires
        0 <= k <= entries.len(),
    ensures
        entries_total(entries.take(k)) <= entries_total(entries),
    decreases entries.len() - k,
{
    if k < entries.len() {
        lemma_entries_total_prefix(entries, k + 1);
        assert(entries.take(k + 1).drop_last() =~= entries.take(k));
        assert(entries_total(entries.take(k + 1)) == entries_total(entries.take(k)) + entries[k].1);
    } else {
        assert(entries.take(k) =~= entries);
    }
}

/// Settles the windows that have matured by `now`. Where they are worth some of the
/// staked token, the contract received `balance` less the deposits and the unredeemed
/// amount for them; it must be at least nine tenths of their worth (see
/// `settle_matured`). Each user of `users` (what the user may already claim, and its
/// matured amount) may then claim its amount at the paid share more, and the claimable
/// total grows by what was received, where there are users.
pub fn mature_windows(
    state: &mut State,
    windows: &mut WindowManager,
    now: u64,
    balance: u128,
    users: &Vec<(Option<u128>, u128)>,
    claimable_total: u128,
) -> (r: Result<Matured, ContractError>)
    requires
        mature_ready(*old(state), old(windows).ongoing_windows@, now, balance, users@, claimable_total),
    ensures
        mature_done(
            *old(state),
            old(windows).ongoing_windows@,
            *final(state),
            final(windows).ongoing_windows@,
            now,
            balance,
            users@,
            claimable_total,
            r,
        ),
        final(windows).queue_window == old(windows).queue_window,
        final(windows).time_to_close_window == old(windows).time_to_close_window,
{
    let (taken, side, lsside) = collect_matured(windows, now);
    if side == 0 {
        return Ok(
            Matured {
                windows: taken,
                claimed: 0,
                ratio: None,
                user_claimables: Vec::new(),
                claimable_total,
            },
        );
    }
    let claimed = balance - state.to_deposit - state.not_redeemed;
    let ratio = match settle_matured(state, claimed, side, lsside) {
        Ok(q) => q,
        Err(e) => {
            return Err(e);
        },
    };
    let mut out: Vec<u128> = Vec::new();
    let mut i: usize = 0;
    while i < users.len()
        invariant
            i <= users@.len(),
            out@.len() == i,
            rate_valid(ratio),
            ratio == paid_ratio(claimed, side),
            forall|j: int| 0 <= j < users@.len() ==> #[trigger] user_credit_ok(users@[j], ratio),
            forall|j: int| 0 <= j < i ==> #[trigger] out@[j] == credited(users@[j], ratio),
        decreases users.len() - i,
    {
        let (current, amount) = users[i];
        proof {
            assert(user_credit_ok(users@[i as int], ratio));
        }
        proof {
            let x = rd_mul_spec(whole(amount as u64), ratio)->0;
            crate::decimal::lemma_pow10_monotone(0, x.scale as nat);
        }
        let paid = match matured_user_amount(amount, ratio) {
            Some(p) => p,
            None => 0,
        };
        let after = match current {
            Some(c) => paid + c,
            None => paid,
        };
        out.push(after);
        i = i + 1;
    }
    let total = if users.len() > 0 {
        claimable_total + claimed
    } else {
        claimable_total
    };
    Ok(Matured { windows: taken, claimed, ratio: Some(ratio), user_claimables: out, claimable_total: total })
}

/// The request that advances the withdraw window: refused while paused, from anyone but
/// the admin, or before the window may close.
pub fn advance_window_gate(paused: bool, sender: &String, admin: &String, window_manager: &WindowManager, now: u64) -> (r:
    Result<(), ContractError>)
    ensures
        paused ==> r == Err::<(), ContractError>(ContractError::Paused),
        !paused && sender@ != admin@ ==> r == Err::<(), ContractError>(ContractError::Unauthorized),
        !paused && sender@ == admin@ ==> (if window_manager.time_to_close_window <= now {
            r is Ok
        } else {
            r == Err::<(), ContractError>(ContractError::WindowNotReady)
        }),
{
    if paused {
        return Err(ContractError::Paused);
    }
    if *sender != *admin {
        return Err(ContractError::Unauthorized);
    }
    if !check_window_advance(window_manager, now) {
        return Err(ContractError::WindowNotReady);
    }
    Ok(())
}

/// What advancing the withdraw window did: the window closed, the staking token
/// contract that burns the queued tokens (where any were queued), and the matured
/// windows settled.
#[derive(Clone, Debug, PartialEq, Eq)]
pub struct WindowAdvance {
    pub close: WindowClose,
    pub burn_contract: Option<String>,
    pub matured: Matured,
}

/// The settling part of an advance's outcome.
pub open spec fn matured_part(r: Result<WindowAdvance, ContractError>) -> Result<Matured, ContractError> {
    match r {
        Ok(a) => Ok(a.matured),
        Err(e) => Err(e),
    }
}

/// The inputs of a whole advance that keep its arithmetic in range: those of closing
/// the open window, and those of settling the windows under way once it has closed.
pub open spec fn advance_ready(
    s0: State,
    w0: WindowManager,
    vals: Seq<Validator>,
    exchange_rate: Rate,
    rewards: u128,
    now: u64,
    unbonding_period: u64,
    epoch_period: u64,
    balance: u128,
    users: Seq<(Option<u128>, u128)>,
    claimable_total: u128,
) -> bool {
    let total = w0.queue_window.total_lsside;
    let w = calc_withdraw_spec(total, exchange_rate);
    &&& close_ready(s0, w0, vals, exchange_rate, rewards, now, unbonding_period, epoch_period)
    &&& mature_ready(
        closed_state(s0, total, w, rewards),
        closed_windows(w0, now, unbonding_period, w),
        now,
        balance,
        users,
        claimable_total,
    )
}

/// Advances the withdraw window at `now`, on the admin's request while not paused and
/// once the open window may close. The open window closes (see `close_window`: the
/// queued staking tokens are worth `exchange_rate` each, are unbonded from the
/// validators, which then earned `rewards`, and are burnt by `ls_side_token`, which must
/// be registered where any were queued); a new window opens for `epoch_period`, and the
/// windows that have matured by `now` are settled (see `mature_windows`: `balance` is the
/// contract's balance of the staked token, `users` what the users of the matured windows
/// may already claim and their matured amounts (as `gather_user_amounts` gathers them),
/// `claimable_total` what all users may claim). On an error the caller keeps none of the
/// changes to `state`, `windows` and `set`, as the request is undone.
pub fn advance_window(
    paused: bool,
    sender: &String,
    admin: &String,
    ls_side_token: &Option<String>,
    state: &mut State,
    windows: &mut WindowManager,
    set: &mut ValidatorSet,
    exchange_rate: Rate,
    rewards: u128,
    now: u64,
    unbonding_period: u64,
    epoch_period: u64,
    queue_amounts: &Vec<u128>,
    balance: u128,
    users: &Vec<(Option<u128>, u128)>,
    claimable_total: u128,
) -> (r: Result<WindowAdvance, ContractError>)
    requires
        !paused && sender@ == admin@ && old(windows).time_to_close_window <= now ==> advance_ready(
            *old(state),
            *old(windows),
            old(set).validators@,
            exchange_rate,
            rewards,
            now,
            unbonding_period,
            epoch_period,
            balance,
            users@,
            claimable_total,
        ),
    ensures
        paused ==> r == Err::<WindowAdvance, ContractError>(ContractError::Paused),
        !paused && sender@ != admin@ ==> r == Err::<WindowAdvance, ContractError>(
            ContractError::Unauthorized,
        ),
        !paused && sender@ == admin@ && old(windows).time_to_close_window > now ==> r == Err::<
            WindowAdvance,
            ContractError,
        >(ContractError::WindowNotReady),
        !paused && sender@ == admin@ && old(windows).time_to_close_window <= now ==> {
            let total = old(windows).queue_window.total_lsside;
            let w = calc_withdraw_spec(total, exchange_rate);
            if close_fails(*old(windows), old(set).validators@, exchange_rate) {
                r == Err::<WindowAdvance, ContractError>(ContractError::EmptyValidatorSet)
            } else if total != 0 && ls_side_token is None {
                r == Err::<WindowAdvance, ContractError>(ContractError::TokenNotRegistered)
            } else {
                &&& mature_done(
                    closed_state(*old(state), total, w, rewards),
                    closed_windows(*old(windows), now, unbonding_period, w),
                    *final(state),
                    final(windows).ongoing_windows@,
                    now,
                    balance,
                    users@,
                    claimable_total,
                    matured_part(r),
                )
                &&& r matches Ok(a) ==> {
                    &&& close_effects(
                        *old(windows),
                        old(set).validators@,
                        final(set).validators@,
                        exchange_rate,
                        queue_amounts@,
                        a.close,
                    )
                    &&& reopened(*old(windows), *final(windows), now, epoch_period)
                    &&& a.burn_contract == (if total == 0 {
                        None
                    } else {
                        *ls_side_token
                    })
                }
            }
        },
{
    match advance_window_gate(paused, sender, admin, windows, now) {
        Ok(()) => {},
        Err(e) => {
            return Err(e);
        },
    }
    let total = windows.queue_window.total_lsside;
    let close = match close_window(
        state,
        windows,
        set,
        exchange_rate,
        rewards,
        now,
        unbonding_period,
        epoch_period,
        queue_amounts,
    ) {
        Ok(c) => c,
        Err(e) => {
            return Err(e);
        },
    };
    let burn_contract = if total == 0 {
        None
    } else {
        match ls_side_token {
            Some(t) => Some(t.clone()),
            None => {
                return Err(ContractError::TokenNotRegistered);
            },
        }
    };
    let matured = match mature_windows(state, windows, now, balance, users, claimable_total) {
        Ok(m) => m,
        Err(e) => {
            return Err(e);
        },
    };
    Ok(WindowAdvance { close, burn_contract, matured })
}

/// The amounts under withdraw are what the windows under way `ws` hold.
pub open spec fn accounts_match(s: State, ws: Seq<OngoingWithdrawWindow>) -> bool {
    let t = matured_totals(ws, ws.len() as int);
    s.side_under_withdraw == t.0 && s.lsside_under_withdraw == t.1
}

proof fn lemma_totals_same_prefix(a: Seq<OngoingWithdrawWindow>, b: Seq<OngoingWithdrawWindow>, k: int)
    requires
        0 <= k <= a.len(),
        k <= b.len(),
        forall|i: int| 0 <= i < k ==> a[i] == b[i],
    ensures
        matured_totals(a, k) == matured_totals(b, k),
    decreases k,
{
    if k > 0 {
        lemma_totals_same_prefix(a, b, k - 1);
    }
}

proof fn lemma_totals_split(ws: Seq<OngoingWithdrawWindow>, m: int)
    requires
        0 <= m <= ws.len(),
    ensures
        matured_totals(ws, ws.len() as int).0 == matured_totals(ws, m).0 + matured_totals(
            ws.skip(m),
            ws.len() - m,
        ).0,
        matured_totals(ws, ws.len() as int).1 == matured_totals(ws, m).1 + matured_totals(
            ws.skip(m),
            ws.len() - m,
        ).1,
    decreases ws.len(),
{
    if m < ws.len() {
        let front = ws.drop_last();
        lemma_totals_split(front, m);
        lemma_totals_same_prefix(ws, front, ws.len() - 1);
        lemma_totals_same_prefix(ws, front, m);
        lemma_totals_same_prefix(ws.skip(m), front.skip(m), ws.len() - m - 1);
        assert(ws.skip(m)[ws.len() - m - 1] == ws[ws.len() - 1]);
    }
}

/// Closing the open window keeps the amounts under withdraw equal to what the windows
/// under way hold: both grow by the closed window.
pub proof fn lemma_close_keeps_withdraw_accounts(
    s0: State,
    w0: WindowManager,
    v0: Seq<Validator>,
    s1: State,
    w1: WindowManager,
    v1: Seq<Validator>,
    exchange_rate: Rate,
    rewards: u128,
    now: u64,
    unbonding_period: u64,
    epoch_period: u64,
    queue_amounts: Seq<u128>,
    c: WindowClose,
)
    requires
        accounts_match(s0, w0.ongoing_windows@),
        close_ready(s0, w0, v0, exchange_rate, rewards, now, unbonding_period, epoch_period),
        close_done(
            s0,
            w0,
            v0,
            s1,
            w1,
            v1,
            exchange_rate,
            rewards,
            now,
            unbonding_period,
            epoch_period,
            queue_amounts,
            c,
        ),
    ensures
        accounts_match(s1, w1.ongoing_windows@),
{
    lemma_closed_accounts(s0, w0, exchange_rate, rewards, now, unbonding_period);
}

proof fn lemma_closed_accounts(
    s0: State,
    w0: WindowManager,
    exchange_rate: Rate,
    rewards: u128,
    now: u64,
    unbonding_period: u64,
)
    requires
        accounts_match(s0, w0.ongoing_windows@),
        s0.side_under_withdraw + calc_withdraw_spec(w0.queue_window.total_lsside, exchange_rate)
            <= u128::MAX,
        s0.lsside_under_withdraw + w0.queue_window.total_lsside <= u128::MAX,
    ensures
        ({
            let total = w0.queue_window.total_lsside;
            let w = calc_withdraw_spec(total, exchange_rate);
            accounts_match(
                closed_state(s0, total, w, rewards),
                closed_windows(w0, now, unbonding_period, w),
            )
        }),
{
    let ws = w0.ongoing_windows@;
    let total = w0.queue_window.total_lsside;
    let w = calc_withdraw_spec(total, exchange_rate);
    let ws1 = closed_windows(w0, now, unbonding_period, w);
    let x = rd_mul_spec(whole(total as u64), exchange_rate);
    if let Some(q) = x {
        crate::decimal::lemma_pow10_monotone(0, q.scale as nat);
        let d = pow10(q.scale as nat);
        assert(q.mantissa as int / d >= 0) by (nonlinear_arith)
            requires
                d >= 1,
        ;
    }
    assert(w >= 0);
    lemma_totals_same_prefix(ws1, ws, ws.len() as int);
}

/// Settling the matured windows keeps the amounts under withdraw equal to what the
/// windows under way hold: both lose the settled windows. It fails for the staking-token
/// amount where the settled windows are worth nothing of the staked token yet hold
/// staking tokens: those windows leave while their tokens stay under withdraw.
pub proof fn lemma_mature_keeps_withdraw_accounts(
    s0: State,
    ws: Seq<OngoingWithdrawWindow>,
    s1: State,
    ws1: Seq<OngoingWithdrawWindow>,
    now: u64,
    balance: u128,
    users: Seq<(Option<u128>, u128)>,
    claimable_total: u128,
    r: Result<Matured, ContractError>,
)
    requires
        accounts_match(s0, ws),
        mature_done(s0, ws, s1, ws1, now, balance, users, claimable_total, r),
        r is Ok,
        ({
            let t = matured_totals(ws, matured_count(ws, now as int, 0));
            t.0 == 0 ==> t.1 == 0
        }),
    ensures
        accounts_match(s1, ws1),
{
    let m = matured_count(ws, now as int, 0);
    lemma_matured_count_bounds(ws, now as int, 0);
    lemma_totals_split(ws, m);
    lemma_totals_nonnegative(ws.skip(m), ws.len() - m);
    lemma_totals_nonnegative(ws, m);
    let t = matured_totals(ws, m);
    if t.0 == 0 {
        assert(s1 == s0);
    }
}

proof fn lemma_totals_nonnegative(ws: Seq<OngoingWithdrawWindow>, k: int)
    ensures
        matured_totals(ws, k).0 >= 0,
        matured_totals(ws, k).1 >= 0,
    decreases k,
{
    if k > 0 {
        lemma_totals_nonnegative(ws, k - 1);
    }
}

/// A whole advance of the withdraw window keeps the amounts under withdraw equal to what
/// the windows under way hold. It fails for the staking-token amount where the settled
/// windows are worth nothing of the staked token yet hold staking tokens (see
/// `lemma_mature_keeps_withdraw_accounts`).
pub proof fn lemma_advance_keeps_withdraw_accounts(
    s0: State,
    w0: WindowManager,
    vals: Seq<Validator>,
    exchange_rate: Rate,
    rewards: u128,
    now: u64,
    unbonding_period: u64,
    epoch_period: u64,
    balance: u128,
    users: Seq<(Option<u128>, u128)>,
    claimable_total: u128,
    s1: State,
    ws1: Seq<OngoingWithdrawWindow>,
    r: Result<WindowAdvance, ContractError>,
)
    requires
        accounts_match(s0, w0.ongoing_windows@),
        advance_ready(
            s0,
            w0,
            vals,
            exchange_rate,
            rewards,
            now,
            unbonding_period,
            epoch_period,
            balance,
            users,
            claimable_total,
        ),
        ({
            let total = w0.queue_window.total_lsside;
            let w = calc_withdraw_spec(total, exchange_rate);
            let ws = closed_windows(w0, now, unbonding_period, w);
            let t = matured_totals(ws, matured_count(ws, now as int, 0));
            &&& mature_done(
                closed_state(s0, total, w, rewards),
                ws,
                s1,
                ws1,
                now,
                balance,
                users,
                claimable_total,
                matured_part(r),
            )
            &&& t.0 == 0 ==> t.1 == 0
        }),
        r is Ok,
    ensures
        accounts_match(s1, ws1),
{
    let total = w0.queue_window.total_lsside;
    let w = calc_withdraw_spec(total, exchange_rate);
    lemma_closed_accounts(s0, w0, exchange_rate, rewards, now, unbonding_period);
    lemma_mature_keeps_withdraw_accounts(
        closed_state(s0, total, w, rewards),
        closed_windows(w0, now, unbonding_period, w),
        s1,
        ws1,
        now,
        balance,
        users,
        claimable_total,
        matured_part(r),
    );
}

} // verus!
