//! Why an atomic swap request is refused.
use vstd::prelude::*;

verus! {

#[derive(Clone, Copy, Debug, PartialEq, Eq, Structural)]
pub enum ContractError {
    /// The order already exists.
    AlreadyExists,
    /// The taker does not sell what the maker buys.
    InvalidSellToken,
    /// Only the desired taker may take this order.
    InvalidTakerAddress,
    /// Only the maker may cancel this order.
    InvalidMakerAddress,
    /// The order is not in a status that allows this.
    InvalidStatus,
    /// The order has already been taken.
    AlreadyTakenOrder,
    /// No such bid.
    BidDoesntExist,
    /// The packet path has fewer than six parts.
    InvalidPath,
}

} // verus!
