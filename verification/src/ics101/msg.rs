//! Requests and responses of the interchain swap contract.
use vstd::prelude::*;
use vstd::string::StringSliceAdditionalSpecFns;

use crate::coin::Coin;
use crate::ics101::error::ContractError;
use crate::ics101::market::{InterchainLiquidityPool, InterchainMarketMaker, PoolAsset};
use crate::ics101::utils::{is_valid_name, is_valid_symbol};

verus! {

#[derive(Clone, Debug, PartialEq, Eq)]
pub struct MigrateMsg {}

/// What a share token sent to the contract asks for.
#[derive(Clone, Debug, PartialEq, Eq)]
pub enum Cw20HookMsg {
    WithdrawLiquidity {
        pool_id: String,
        receiver: String,
        counterparty_receiver: String,
        timeout_height: u64,
        timeout_timestamp: u64,
    },
}

#[derive(Clone, Debug, PartialEq, Eq)]
pub struct MsgRemovePool {
    pub pool_id: String,
}

#[derive(Clone, Debug, PartialEq, Eq)]
pub struct MsgMakePoolRequest {
    pub source_port: String,
    pub source_channel: String,
    pub source_chain_id: String,
    pub destination_chain_id: String,
    pub counterparty_channel: String,
    pub creator: String,
    pub counterparty_creator: String,
    pub liquidity: Vec<PoolAsset>,
    pub swap_fee: u32,
    pub timeout_height: u64,
    pub timeout_timestamp: u64,
}

impl MsgMakePoolRequest {
    /// A pool is made of exactly two assets whose weights add up to 100.
    pub fn validate_basic(&self) -> (r: Result<(), ContractError>)
        requires
            self.liquidity.len() == 2 ==> self.liquidity[0].weight + self.liquidity[1].weight
                <= u32::MAX,
        ensures
            self.liquidity.len() != 2 ==> r == Err::<(), ContractError>(
                ContractError::InvalidDenomPair,
            ),
            self.liquidity.len() == 2 && self.liquidity[0].weight + self.liquidity[1].weight
                != 100 ==> r == Err::<(), ContractError>(ContractError::InvalidWeightPair),
            self.liquidity.len() == 2 && self.liquidity[0].weight + self.liquidity[1].weight == 100
                ==> r == Ok::<(), ContractError>(()),
    {
        if self.liquidity.len() != 2 {
            return Err(ContractError::InvalidDenomPair);
        }
        let mut total_weight: u32 = 0;
        let mut i: usize = 0;
        while i < self.liquidity.len()
            invariant
                self.liquidity.len() == 2,
                self.liquidity[0].weight + self.liquidity[1].weight <= u32::MAX,
                i <= 2,
                i == 0 ==> total_weight == 0,
                i == 1 ==> total_weight == self.liquidity[0].weight,
                i == 2 ==> total_weight == self.liquidity[0].weight + self.liquidity[1].weight,
            decreases 2 - i,
        {
            total_weight = total_weight + self.liquidity[i].weight;
            i = i + 1;
        }
        if total_weight != 100 {
            return Err(ContractError::InvalidWeightPair);
        }
        Ok(())
    }
}

#[derive(Clone, Debug, PartialEq, Eq)]
pub struct MsgMakePoolResponse {
    pub pool_id: String,
}

#[derive(Clone, Debug, PartialEq, Eq)]
pub struct MsgTakePoolRequest {
    pub counter_creator: String,
    pub creator: String,
    pub pool_id: String,
    pub timeout_height: u64,
    pub timeout_timestamp: u64,
}

#[derive(Clone, Debug, PartialEq, Eq)]
pub struct MsgCancelPoolRequest {
    pub pool_id: String,
    pub timeout_height: u64,
    pub timeout_timestamp: u64,
}

#[derive(Clone, Debug, PartialEq, Eq)]
pub struct MsgSingleAssetDepositRequest {
    pub pool_id: String,
    pub sender: String,
    pub token: Coin,
    pub timeout_height: u64,
    pub timeout_timestamp: u64,
}

impl MsgSingleAssetDepositRequest {
    /// A deposit of nothing is refused.
    pub fn validate_basic(&self) -> (r: Result<(), ContractError>)
        ensures
            self.token.amount == 0 ==> r == Err::<(), ContractError>(
                ContractError::InvalidTokenAmount,
            ),
            self.token.amount != 0 ==> r == Ok::<(), ContractError>(()),
    {
        if self.token.amount == 0 {
            return Err(ContractError::InvalidTokenAmount);
        }
        Ok(())
    }
}

#[derive(Clone, Debug, PartialEq, Eq)]
pub struct MsgSingleAssetDepositResponse {
    pub pool_token: Coin,
}

/// One side of a two-sided deposit.
#[derive(Clone, Debug, PartialEq, Eq)]
pub struct DepositAsset {
    pub sender: String,
    pub balance: Coin,
}

#[derive(Clone, Debug, PartialEq, Eq)]
pub struct MsgMakeMultiAssetDepositRequest {
    pub pool_id: String,
    pub deposits: Vec<DepositAsset>,
    pub chain_id: String,
    pub timeout_height: u64,
    pub timeout_timestamp: u64,
}

#[derive(Clone, Debug, PartialEq, Eq)]
pub struct MsgTakeMultiAssetDepositRequest {
    pub sender: String,
    pub pool_id: String,
    pub order_id: String,
    pub timeout_height: u64,
    pub timeout_timestamp: u64,
}

#[derive(Clone, Debug, PartialEq, Eq)]
pub struct MsgCancelMultiAssetDepositRequest {
    pub sender: String,
    pub pool_id: String,
    pub order_id: String,
    pub timeout_height: u64,
    pub timeout_timestamp: u64,
}

#[derive(Clone, Debug, PartialEq, Eq)]
pub struct MsgMultiAssetDepositResponse {
    pub pool_token: Vec<Coin>,
}

#[derive(Clone, Debug, PartialEq, Eq)]
pub struct WithdrawAsset {
    pub receiver: String,
    pub balance: Coin,
}

#[derive(Clone, Debug, PartialEq, Eq)]
pub struct MsgMultiAssetWithdrawRequest {
    pub pool_id: String,
    pub receiver: String,
    pub counterparty_receiver: String,
    pub pool_token: Coin,
    pub timeout_height: u64,
    pub timeout_timestamp: u64,
}

#[derive(Clone, Debug, PartialEq, Eq)]
pub struct MsgMultiAssetWithdrawResponse {
    pub tokens: Vec<Coin>,
}

#[derive(Clone, Debug, PartialEq, Eq)]
pub struct MsgSingleAssetWithdrawRequest {
    pub sender: String,
    pub denom_out: String,
    pub pool_coin: Coin,
}

/// A left swap fixes the amount in, a right swap the amount out.
#[derive(Clone, Copy, Debug, PartialEq, Eq, Structural)]
pub enum SwapMsgType {
    LEFT,
    RIGHT,
}

#[derive(Clone, Debug, PartialEq, Eq)]
pub struct MsgSwapRequest {
    pub swap_type: SwapMsgType,
    pub sender: String,
    pub pool_id: String,
    pub token_in: Coin,
    pub token_out: Coin,
    pub slippage: u64,
    pub recipient: String,
    pub timeout_height: u64,
    pub timeout_timestamp: u64,
}

#[derive(Clone, Debug, PartialEq, Eq)]
pub struct PoolApprove {
    pub pool_id: String,
    pub sender: String,
}

/// Parameters of a pool share token. Its marketing information and minter are set
/// where the token contract is instantiated.
#[derive(Clone, Debug, PartialEq, Eq)]
pub struct TokenInstantiateMsg {
    pub name: String,
    pub symbol: String,
    pub initial_balances: Vec<Coin>,
    pub decimals: u8,
    pub mint_cap: Option<u128>,
}

impl TokenInstantiateMsg {
    /// The most that may be minted, where a minter is set.
    pub fn get_cap(&self) -> (r: Option<u128>)
        ensures
            r == self.mint_cap,
    {
        self.mint_cap
    }

    /// A share token needs a name of 3 to 50 bytes, a symbol of 3 to 12 letters, digits,
    /// `-` or `/`, and at most 18 decimals.
    pub fn validate(&self) -> (r: Result<(), ContractError>)
        ensures
            r is Ok <==> ({
                &&& 3 <= vstd::utf8::encode_utf8(self.name@).len() <= 50
                &&& crate::ics101::utils::symbol_is_valid(vstd::utf8::encode_utf8(self.symbol@), 12)
                &&& self.decimals <= 18
            }),
            r is Err ==> r == Err::<(), ContractError>(ContractError::InvalidTokenInfo),
    {
        if !is_valid_name(self.name.as_str()) {
            return Err(ContractError::InvalidTokenInfo);
        }
        if !is_valid_symbol(self.symbol.as_str(), None) {
            return Err(ContractError::InvalidTokenInfo);
        }
        if self.decimals > 18 {
            return Err(ContractError::InvalidTokenInfo);
        }
        Ok(())
    }
}

#[derive(Clone, Debug, PartialEq, Eq)]
pub struct InterchainPoolResponse {
    pub id: String,
    pub source_creator: String,
    pub source_chain_id: String,
    pub destination_chain_id: String,
    pub destination_creator: String,
    pub assets: Vec<PoolAsset>,
    pub swap_fee: u32,
    pub supply: Coin,
    pub status: crate::ics101::market::PoolStatus,
    pub counter_party_port: String,
    pub counter_party_channel: String,
}

#[derive(Clone, Debug, PartialEq, Eq)]
pub struct InterchainListResponse {
    pub pools: Vec<InterchainLiquidityPool>,
}

#[derive(Clone, Debug, PartialEq, Eq)]
pub struct PoolListResponse {
    pub pools: Vec<String>,
}

#[derive(Clone, Debug, PartialEq, Eq)]
pub struct QueryParamsRequest {}

#[derive(Clone, Debug, PartialEq, Eq)]
pub struct QueryParamsResponse {
    pub params: Params,
}

#[derive(Clone, Debug, PartialEq, Eq)]
pub struct QueryEscrowAddressRequest {
    pub port_id: String,
    pub channel_id: String,
}

#[derive(Clone, Debug, PartialEq, Eq)]
pub struct QueryEscrowAddressResponse {
    pub escrow_address: String,
}

#[derive(Clone, Debug, PartialEq, Eq)]
pub struct QueryGetInterchainLiquidityPoolRequest {
    pub pool_id: String,
}

#[derive(Clone, Debug, PartialEq, Eq)]
pub struct QueryAllInterchainLiquidityPoolRequest {
    pub pagination: PageRequest,
}

#[derive(Clone, Debug, PartialEq, Eq)]
pub struct QueryGetInterchainMarketMakerRequest {
    pub pool_id: String,
}

#[derive(Clone, Debug, PartialEq, Eq)]
pub struct QueryGetInterchainMarketMakerResponse {
    pub interchain_market_maker: InterchainMarketMaker,
}

#[derive(Clone, Debug, PartialEq, Eq)]
pub struct QueryAllInterchainMarketMakerRequest {
    pub pagination: PageRequest,
}

/// Whether swaps are enabled, and the highest fee rate in basis points.
#[derive(Clone, Copy, Debug, PartialEq, Eq, Structural)]
pub struct Params {
    pub swap_enabled: bool,
    pub max_fee_rate: u32,
}

#[derive(Clone, Copy, Debug, PartialEq, Eq, Structural)]
pub struct QueryConfigResponse {
    pub counter: u64,
    pub token_code_id: u64,
}

#[derive(Clone, Debug, PartialEq, Eq)]
pub struct PageRequest {
    pub key: Vec<u8>,
    pub offset: u64,
    pub limit: u64,
    pub count_total: bool,
    pub reverse: bool,
}

#[derive(Clone, Debug, PartialEq, Eq)]
pub struct PageResponse {
    pub next_key: Vec<u8>,
    pub total: u64,
}

} // verus!
