//! Messages of the atomic swap.
use vstd::prelude::*;
use vstd::string::StringSliceAdditionalSpecFns;

use crate::coin::Coin;

verus! {

/// An IBC timeout height.
#[derive(Clone, Copy, Debug, PartialEq, Eq, Structural)]
pub struct Height {
    pub revision_number: u64,
    pub revision_height: u64,
}

#[derive(Clone, Debug, PartialEq, Eq)]
pub struct MigrateMsg {}

/// What an atomic swap packet asks of the other chain.
#[derive(Clone, Copy, Debug, PartialEq, Eq, Structural)]
pub enum SwapMessageType {
    Unspecified,
    MakeSwap,
    TakeSwap,
    CancelSwap,
    MakeBid,
    TakeBid,
    CancelBid,
}

/// A name is valid when it is 3 to 20 bytes long.
pub fn is_valid_name(name: &str) -> (r: bool)
    ensures
        r == (3 <= name.spec_bytes().len() <= 20),
{
    let bytes = name.as_bytes();
    if bytes.len() < 3 || bytes.len() > 20 {
        return false;
    }
    true
}

/// An order to sell `sell_token` for `buy_token`.
#[derive(Clone, Debug, PartialEq, Eq)]
pub struct MakeSwapMsg {
    pub sell_token: Coin,
    pub buy_token: Coin,
    pub maker_address: String,
    /// Where the maker receives what the taker pays.
    pub maker_receiving_address: String,
    /// Where not empty, the only address that may take the order.
    pub desired_taker: String,
    /// Whether the maker takes bids on the order.
    pub take_bids: bool,
    pub min_bid_price: Option<u128>,
    pub expiration_timestamp: u64,
}

/// Takes an order, selling `sell_token` for what the order sells.
#[derive(Clone, Debug, PartialEq, Eq)]
pub struct TakeSwapMsg {
    pub order_id: String,
    pub sell_token: Coin,
    pub taker_address: String,
    /// Where the taker receives what the maker sold.
    pub taker_receiving_address: String,
}

#[derive(Clone, Debug, PartialEq, Eq)]
pub struct CancelSwapMsg {
    pub order_id: String,
    pub maker_address: String,
}

/// A bid of `sell_token` on an order.
#[derive(Clone, Debug, PartialEq, Eq)]
pub struct MakeBidMsg {
    pub order_id: String,
    pub sell_token: Coin,
    pub taker_address: String,
    /// Where the bidder receives what the maker sold.
    pub taker_receiving_address: String,
    pub expiration_timestamp: u64,
}

#[derive(Clone, Debug, PartialEq, Eq)]
pub struct TakeBidMsg {
    pub order_id: String,
    pub bidder: String,
}

#[derive(Clone, Debug, PartialEq, Eq)]
pub struct CancelBidMsg {
    pub order_id: String,
    pub bidder: String,
}

/// Offset for bid pagination by amount.
#[derive(Clone, Debug, PartialEq, Eq)]
pub struct BidOffset {
    pub amount: u128,
    pub bidder: String,
}

/// Offset for bid pagination by time.
#[derive(Clone, Debug, PartialEq, Eq)]
pub struct BidOffsetTime {
    pub time: u64,
    pub bidder: String,
}

/// Offset for bid pagination by bidder.
#[derive(Clone, Debug, PartialEq, Eq)]
pub struct BidOffsetBidder {
    pub order: String,
    pub bidder: String,
}

} // verus!
