//! Vesting schedules.
use vstd::prelude::*;

use crate::coin::Coin;

verus! {

/// A schedule that releases `token` to `receiver` after `cliff`.
#[derive(Clone, Debug, PartialEq, Eq)]
pub struct VestingDetails {
    /// Vesting starts after this timestamp.
    pub cliff: u64,
    /// How long the release takes.
    pub vested_time: u64,
    /// Tokens are released at this interval, which divides `vested_time`.
    pub release_interval: u64,
    /// Who may claim the tokens.
    pub receiver: String,
    /// All the tokens to release.
    pub token: Coin,
    /// How many were claimed so far.
    pub amount_claimed: u128,
}

#[derive(Clone, Debug, PartialEq, Eq)]
pub struct Config {
    pub admin: String,
    /// Who may start a vesting schedule for a receiver.
    pub allowed_addresses: Vec<String>,
}

} // verus!
