//! Why an interchain swap request is refused.
use vstd::prelude::*;

use crate::decimal::MathError;

verus! {

#[derive(Clone, Debug, PartialEq, Eq)]
pub enum ContractError {
    /// A fixed-point computation failed.
    Math(MathError),
    /// The requested slippage is above the maximum of 10000 basis points.
    InvalidSlippage,
    /// The pool ratio moved by at least the requested slippage.
    InvalidPairRatio,
    /// A pool needs exactly two assets.
    InvalidDenomPair,
    /// The weights of a pool must add up to 100.
    InvalidWeightPair,
    /// The pool is not in the status the request needs.
    InvalidStatus,
    /// The sender may not make this request.
    InvalidSender,
    /// The pool is not active.
    NotReadyForSwap,
    /// No such deposit order.
    ErrOrderNotFound,
    /// The deposit order is no longer pending.
    ErrOrderAlreadyCompleted,
    /// Only the named taker may complete a deposit order.
    ErrFailedMultiAssetDeposit,
    /// The swap would return less than the slippage allows.
    FailedOnSwapReceived,
    /// The pool does not exist.
    PoolNotFound,
    /// A pool with these assets already exists.
    PoolAlreadyExists,
    /// The funds sent do not match the request.
    FundsMismatch,
    /// The pool holds no asset of this denomination or side.
    AssetNotFound,
    /// The pool share token is not of this denomination.
    SupplyDenomMismatch,
    /// A single asset cannot be deposited into a pool with no shares.
    EmptyPool,
    /// The token amount is zero.
    InvalidTokenAmount,
    /// The pool share token has not been created.
    LpTokenNotInitialized,
    /// The pool share token has already been created.
    LpTokenExists,
    /// A computed withdrawal exceeds the pool balance.
    InvalidAssetOut,
    /// The share token's name, symbol or decimals are out of bounds.
    InvalidTokenInfo,
    /// Only the admin may make this request.
    NotAllowed,
}

} // verus!
