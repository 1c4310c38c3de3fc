//! Messages of LP staking.
use vstd::prelude::*;

verus! {

#[derive(Clone, Debug, PartialEq, Eq)]
pub struct MigrateMsg {}

/// What LP tokens sent to the contract are for.
#[derive(Clone, Debug, PartialEq, Eq)]
pub enum Cw20HookMsg {
    /// Stake them for the sender.
    Deposit,
    /// Stake them for `beneficiary`.
    DepositFor { beneficiary: String },
}

} // verus!
