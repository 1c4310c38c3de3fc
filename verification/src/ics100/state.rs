//! Swap orders and bids.
use vstd::prelude::*;

use crate::coin::Coin;
use crate::ics100::msg::{MakeSwapMsg, TakeSwapMsg};

verus! {

/// The fees, in basis points, and where they go.
#[derive(Clone, Debug, PartialEq, Eq)]
pub struct FeeInfo {
    pub maker_fee: u64,
    pub taker_fee: u64,
    pub treasury: String,
}

#[derive(Clone, Copy, Debug, PartialEq, Eq, Structural)]
pub enum Status {
    /// Made on the maker's chain.
    Initial,
    /// Known on the taker's chain.
    Sync,
    Cancel,
    Failed,
    Complete,
}

#[derive(Clone, Copy, Debug, PartialEq, Eq, Structural)]
pub enum Side {
    Native,
    Remote,
}

/// A swap order: what the maker offers, its status, who took it and when.
#[derive(Clone, Debug, PartialEq, Eq)]
pub struct AtomicSwapOrder {
    pub id: String,
    pub maker: MakeSwapMsg,
    pub status: Status,
    pub taker: Option<TakeSwapMsg>,
    /// Seconds.
    pub create_timestamp: u64,
    /// Nanoseconds.
    pub cancel_timestamp: Option<u64>,
    /// Nanoseconds.
    pub complete_timestamp: Option<u64>,
    pub min_bid_price: Option<u128>,
}

#[derive(Clone, Copy, Debug, PartialEq, Eq, Structural)]
pub enum BidStatus {
    Initial,
    Failed,
    Cancelled,
    Executed,
    Placed,
}

/// A bid on an order.
#[derive(Clone, Debug, PartialEq, Eq)]
pub struct Bid {
    pub bid: Coin,
    pub order: String,
    pub status: BidStatus,
    pub bidder: String,
    /// Where the bidder receives what the maker sold.
    pub bidder_receiver: String,
    pub receive_timestamp: u64,
    pub expire_timestamp: u64,
}

/// The key of a bid: its order and its bidder.
pub fn bid_key(order: &String, bidder: &String) -> (r: (String, String))
    ensures
        r.0 == *order,
        r.1 == *bidder,
{
    (order.clone(), bidder.clone())
}

} // verus!
