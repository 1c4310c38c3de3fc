//! The liquid staking contract's accounts.
use vstd::prelude::*;

verus! {

/// What the contract holds and owes, in the staked token unless named otherwise.
#[derive(Clone, Copy, Debug, PartialEq, Eq, Structural)]
pub struct State {
    /// Deposited, not yet delegated.
    pub to_deposit: u128,
    /// Backing the staking token in circulation.
    pub lsside_backing: u128,
    /// Matured and not yet claimed by users.
    pub not_redeemed: u128,
    /// Staking tokens in withdraw windows.
    pub lsside_under_withdraw: u128,
    /// The staked token those withdrawals are worth.
    pub side_under_withdraw: u128,
    /// Staking tokens waiting to be burnt.
    pub lsside_to_burn: u128,
}

} // verus!
