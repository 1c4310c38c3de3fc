//! The points of the voting power history and the lock positions.
use vstd::prelude::*;

verus! {

/// The contract's admin and the token that is locked.
#[derive(Clone, Debug, PartialEq, Eq)]
pub struct Config {
    pub admin: String,
    pub deposit_token: String,
}

/// A point of a voting power history: the power at period `start`, decreasing by
/// `slope` per period until `end`.
#[derive(Clone, Copy, Debug, PartialEq, Eq, Structural)]
pub struct Point {
    pub power: u128,
    pub start: u64,
    pub end: u64,
    pub slope: u128,
}

/// A lock position: the tokens locked, the period it started, the period it expires and
/// the last period its time was extended.
#[derive(Clone, Copy, Debug, PartialEq, Eq, Structural)]
pub struct Lock {
    pub amount: u128,
    pub start: u64,
    pub end: u64,
    pub last_extend_lock_period: u64,
}

} // verus!
