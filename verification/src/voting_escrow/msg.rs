//! Messages and responses of the vote escrow.
use vstd::prelude::*;

use crate::decimal::Decimal;

verus! {

/// What a deposit of the locked token asks for.
#[derive(Clone, Debug, PartialEq, Eq)]
pub enum Cw20HookMsg {
    /// Lock the tokens for `time` seconds.
    CreateLock { time: u64 },
    /// Add the tokens to `user`'s lock.
    DepositFor { user: String },
    /// Add the tokens to the sender's lock.
    ExtendLockAmount {},
}

#[derive(Clone, Copy, Debug, PartialEq, Eq, Structural)]
pub struct VotingPowerResponse {
    pub voting_power: u128,
}

/// A lock position as a query shows it, with its boost coefficient and slope.
#[derive(Clone, Copy, Debug, PartialEq, Eq, Structural)]
pub struct LockInfoResponse {
    pub amount: u128,
    pub coefficient: Decimal,
    pub start: u64,
    pub end: u64,
    pub slope: u128,
}

#[derive(Clone, Debug, PartialEq, Eq)]
pub struct ConfigResponse {
    pub admin: String,
    pub deposit_token: String,
}

#[derive(Clone, Debug, PartialEq, Eq)]
pub struct MigrateMsg {}

} // verus!
