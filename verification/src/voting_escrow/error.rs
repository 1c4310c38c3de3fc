//! Why a vote-escrow request is refused.
use vstd::prelude::*;

verus! {

#[derive(Clone, Copy, Debug, PartialEq, Eq, Structural)]
pub enum ContractError {
    /// Only the deposit token may lock tokens.
    Unauthorized,
    /// A lock must last from one week to two years.
    LockTimeLimitsError,
    /// The user already has a lock.
    LockAlreadyExists,
    /// The user has no lock, or an empty one.
    LockDoesNotExist,
    /// The lock has already expired.
    LockExpired,
    /// The lock has not expired yet.
    LockHasNotExpired,
    /// This contract cannot be migrated.
    MigrationError,
    /// The time is before the first period.
    InvalidTime,
    /// A first checkpoint needs the end of its lock.
    CheckpointInitialization,
    /// A division by zero.
    DivideByZero,
    /// A result left 128 bits.
    Overflow,
}

} // verus!
