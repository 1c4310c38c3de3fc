//! Withdraw windows: the open window that collects withdrawals, and the windows whose
//! unbonding is under way. The per-user amounts are kept by the caller; these
//! functions take the amounts they read and return the amounts to store.
use vstd::prelude::*;

use crate::staking::error::ContractError;
use crate::staking::utils::{calc_withdraw, calc_withdraw_spec, rate_valid, Rate};

verus! {

/// The open window: its id and the staking tokens queued in it.
#[derive(Clone, Copy, Debug, PartialEq, Eq, Structural)]
pub struct QueueWindow {
    pub id: u64,
    pub total_lsside: u128,
}

/// A window whose unbonding is under way: when it matures, and what it holds.
#[derive(Clone, Copy, Debug, PartialEq, Eq, Structural)]
pub struct OngoingWithdrawWindow {
    pub id: u64,
    pub time_to_mature_window: u64,
    pub total_side: u128,
    pub total_lsside: u128,
}

/// A user's withdrawal waiting in a window, as a query shows it.
#[derive(Clone, Copy, Debug, PartialEq, Eq, Structural)]
pub struct PendingClaimsResponse {
    pub window_id: u64,
    pub claim_time: u64,
    pub juno_amount: u128,
}

/// The open window, when it closes, and the windows under way, oldest first.
#[derive(Clone, Debug, PartialEq, Eq)]
pub struct WindowManager {
    pub time_to_close_window: u64,
    pub queue_window: QueueWindow,
    pub ongoing_windows: Vec<OngoingWithdrawWindow>,
}

/// A user's amount in the open window, from what is stored for the user.
pub fn get_user_lsside_in_active_window(stored: Option<u128>) -> (r: u128)
    ensures
        r == (match stored {
            Some(a) => a,
            None => 0,
        }),
{
    match stored {
        Some(a) => a,
        None => 0,
    }
}

impl WindowManager {
    /// Queues `lsside_amount` of a user's staking tokens in the open window; returns the
    /// user's new amount there.
    pub fn add_user_amount_to_active_window(&mut self, stored: Option<u128>, lsside_amount: u128) -> (r:
        u128)
        requires
            old(self).queue_window.total_lsside + lsside_amount <= u128::MAX,
            stored matches Some(a) ==> a + lsside_amount <= u128::MAX,
        ensures
            r == (match stored {
                Some(a) => a,
                None => 0,
            }) + lsside_amount,
            *final(self) == (WindowManager {
                queue_window: QueueWindow {
                    total_lsside: (old(self).queue_window.total_lsside + lsside_amount) as u128,
                    ..old(self).queue_window
                },
                ..*old(self)
            }),
    {
        let updated = match stored {
            Some(a) => a + lsside_amount,
            None => lsside_amount,
        };
        self.queue_window.total_lsside = self.queue_window.total_lsside + lsside_amount;
        updated
    }

    /// Closes the open window at `current_time`: it joins the windows under way, maturing
    /// after the unbonding period and worth its tokens at the exchange rate, and a new
    /// empty window opens until the next epoch. Returns what each queued user amount is
    /// worth, in the order given.
    pub fn advance_window(
        &mut self,
        current_time: u64,
        unbonding_period: u64,
        epoch_period: u64,
        exchange_rate: Rate,
        queue_amounts: &Vec<u128>,
    ) -> (r: Vec<u128>)
        requires
            rate_valid(exchange_rate),
            current_time + unbonding_period <= u64::MAX,
            current_time + epoch_period <= u64::MAX,
            old(self).queue_window.id + 1 <= u64::MAX,
        ensures
            final(self).ongoing_windows@ == old(self).ongoing_windows@.push(
                OngoingWithdrawWindow {
                    id: old(self).queue_window.id,
                    time_to_mature_window: (current_time + unbonding_period) as u64,
                    total_side: calc_withdraw_spec(
                        old(self).queue_window.total_lsside,
                        exchange_rate,
                    ) as u128,
                    total_lsside: old(self).queue_window.total_lsside,
                },
            ),
            final(self).time_to_close_window == current_time + epoch_period,
            final(self).queue_window == (QueueWindow {
                id: (old(self).queue_window.id + 1) as u64,
                total_lsside: 0,
            }),
            r@.len() == queue_amounts@.len(),
            forall|i: int|
                0 <= i < r@.len() ==> #[trigger] r@[i] == calc_withdraw_spec(
                    queue_amounts@[i],
                    exchange_rate,
                ),
    {
        let queue_window = self.queue_window;
        let lsside_to_side = calc_withdraw(queue_window.total_lsside, exchange_rate);
        self.ongoing_windows.push(
            OngoingWithdrawWindow {
                id: queue_window.id,
                time_to_mature_window: current_time + unbonding_period,
                total_side: lsside_to_side,
                total_lsside: queue_window.total_lsside,
            },
        );
        let mut out: Vec<u128> = Vec::new();
        let mut i: usize = 0;
        while i < queue_amounts.len()
            invariant
                i <= queue_amounts@.len(),
                rate_valid(exchange_rate),
                out@.len() == i,
                forall|j: int|
                    0 <= j < i ==> #[trigger] out@[j] == calc_withdraw_spec(
                        queue_amounts@[j],
                        exchange_rate,
                    ),
            decreases queue_amounts.len() - i,
        {
            out.push(calc_withdraw(queue_amounts[i], exchange_rate));
            i = i + 1;
        }
        self.time_to_close_window = current_time + epoch_period;
        self.queue_window = QueueWindow { id: queue_window.id + 1, total_lsside: 0 };
        out
    }

    /// Takes the oldest window under way off the front.
    pub fn pop_matured(&mut self) -> (r: Result<OngoingWithdrawWindow, ContractError>)
        ensures
            old(self).ongoing_windows@.len() == 0 ==> r == Err::<
                OngoingWithdrawWindow,
                ContractError,
            >(ContractError::NoOngoingWindow) && *final(self) == *old(self),
            old(self).ongoing_windows@.len() > 0 ==> r == Ok::<OngoingWithdrawWindow, ContractError>(
                old(self).ongoing_windows@[0],
            ) && final(self).ongoing_windows@ == old(self).ongoing_windows@.drop_first()
                && final(self).queue_window == old(self).queue_window
                && final(self).time_to_close_window == old(self).time_to_close_window,
    {
        if self.ongoing_windows.len() == 0 {
            return Err(ContractError::NoOngoingWindow);
        }
        let w = self.ongoing_windows.remove(0);
        proof {
            assert(old(self).ongoing_windows@.remove(0) =~= old(self).ongoing_windows@.drop_first());
        }
        Ok(w)
    }

    /// A user's withdrawals under way: for each window under way, in order, the amount
    /// stored for the user there (`amounts`, one per window), where it is above zero.
    pub fn get_user_pending_withdraws(&self, amounts: &Vec<Option<u128>>) -> (r: Vec<
        PendingClaimsResponse,
    >)
        requires
            amounts@.len() == self.ongoing_windows@.len(),
        ensures
            r@ == pending_of(self.ongoing_windows@, amounts@, amounts@.len() as int),
    {
        let mut out: Vec<PendingClaimsResponse> = Vec::new();
        let mut i: usize = 0;
        while i < self.ongoing_windows.len()
            invariant
                i <= self.ongoing_windows@.len(),
                amounts@.len() == self.ongoing_windows@.len(),
                out@ == pending_of(self.ongoing_windows@, amounts@, i as int),
            decreases self.ongoing_windows.len() - i,
        {
            match amounts[i] {
                Some(a) => {
                    if a > 0 {
                        let w = self.ongoing_windows[i];
                        out.push(
                            PendingClaimsResponse {
                                window_id: w.id,
                                claim_time: w.time_to_mature_window,
                                juno_amount: a,
                            },
                        );
                    }
                },
                None => {},
            }
            i = i + 1;
        }
        out
    }
}

/// The pending withdrawals among the first `n` windows.
pub open spec fn pending_of(
    windows: Seq<OngoingWithdrawWindow>,
    amounts: Seq<Option<u128>>,
    n: int,
) -> Seq<PendingClaimsResponse>
    decreases n,
{
    if n <= 0 {
        Seq::empty()
    } else {
        let prev = pending_of(windows, amounts, n - 1);
        match amounts[n - 1] {
            Some(a) => if a > 0 {
                prev.push(
                    PendingClaimsResponse {
                        window_id: windows[n - 1].id,
                        claim_time: windows[n - 1].time_to_mature_window,
                        juno_amount: a,
                    },
                )
            } else {
                prev
            },
            None => prev,
        }
    }
}

} // verus!
