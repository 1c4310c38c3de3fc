//! Why an LP staking request is refused.
use vstd::prelude::*;

verus! {

#[derive(Clone, Copy, Debug, PartialEq, Eq, Structural)]
pub enum ContractError {
    /// Only the admin may do this.
    Unauthorized,
    /// The same pool is listed twice.
    PoolDuplicate,
    /// The staker has fewer LP tokens than asked for.
    BalanceTooSmall,
    /// No such pool.
    PoolNotFound,
    /// An address is not in lower case.
    NotLowercase,
    /// A reward computation leaves the range.
    Overflow,
}

} // verus!
