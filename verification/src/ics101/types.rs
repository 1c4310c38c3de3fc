//! Packet and order types of the interchain swap.
use vstd::prelude::*;

use crate::coin::Coin;
use crate::decimal::Decimal;

verus! {

/// What an interchain swap packet asks of the other chain.
#[derive(Clone, Copy, Debug, PartialEq, Eq, Structural)]
pub enum InterchainMessageType {
    Unspecified,
    MakePool,
    TakePool,
    CancelPool,
    SingleAssetDeposit,
    MakeMultiDeposit,
    CancelMultiDeposit,
    TakeMultiDeposit,
    MultiWithdraw,
    LeftSwap,
    RightSwap,
}

/// Most deposit orders a pool keeps pending at once.
pub const MULTI_DEPOSIT_PENDING_LIMIT: u64 = 10;

#[derive(Clone, Copy, Debug, PartialEq, Eq, Structural)]
pub enum OrderStatus {
    Pending,
    Complete,
    Cancelled,
}

/// The pool changes that a packet carries to the other chain.
#[derive(Clone, Debug, PartialEq, Eq)]
pub struct StateChange {
    pub in_tokens: Option<Vec<Coin>>,
    pub out_tokens: Option<Vec<Coin>>,
    pub pool_tokens: Option<Vec<Coin>>,
    pub pool_id: Option<String>,
    pub multi_deposit_order_id: Option<String>,
    pub source_chain_id: Option<String>,
    pub shares: Option<u128>,
}

/// Forwarding instructions of a packet memo.
#[derive(Clone, Debug, PartialEq, Eq)]
pub struct Forward {
    pub port: String,
    pub channel: String,
    pub timeout: String,
    pub retries: i32,
    pub next: Option<String>,
}

#[derive(Clone, Debug, PartialEq, Eq)]
pub struct Memo {
    pub forward: Forward,
}

/// An interchain swap packet: its kind, the request and the resulting changes.
#[derive(Clone, Debug, PartialEq, Eq)]
pub struct InterchainSwapPacketData {
    pub msg_type: InterchainMessageType,
    pub data: Vec<u8>,
    pub state_change: Option<Vec<u8>>,
    pub memo: Option<Vec<u8>>,
}

/// A two-sided deposit that the maker opened and the taker completes.
#[derive(Clone, Debug, PartialEq, Eq)]
pub struct MultiAssetDepositOrder {
    pub id: String,
    pub pool_id: String,
    pub chain_id: String,
    pub source_maker: String,
    pub destination_taker: String,
    pub deposits: Vec<Coin>,
    pub status: OrderStatus,
    pub created_at: u64,
}

/// An asset with its normalized weight.
#[derive(Clone, Debug, PartialEq, Eq)]
pub struct WeightedAsset {
    pub asset: Coin,
    pub weight: Decimal,
}

} // verus!
