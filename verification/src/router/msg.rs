//! Messages of the swap router.
use vstd::prelude::*;

verus! {

/// One hop of a multi-hop swap.
#[derive(Clone, Debug, PartialEq, Eq)]
pub struct SwapRequest {
    /// The pool the hop swaps through.
    pub pool_id: String,
    /// The denomination offered.
    pub asset_in: String,
    /// The denomination asked.
    pub asset_out: String,
    /// The contract to call, for an interchain hop.
    pub contract_address: Option<String>,
}

/// Which side of a pool a swap fixes.
#[allow(non_camel_case_types)]
#[derive(Clone, Copy, Debug, PartialEq, Eq, Structural)]
pub enum SwapMsgType {
    LEFT,
    RIGHT,
}

#[derive(Clone, Copy, Debug, PartialEq, Eq, Structural)]
pub struct CountResponse {
    pub count: i32,
}

/// The parameters of the chain's swap module.
#[derive(Clone, Copy, Debug, PartialEq, Eq, Structural)]
pub struct Params {
    pub pool_creation_fee: u64,
}

#[derive(Clone, Copy, Debug, PartialEq, Eq, Structural)]
pub struct ParamResponse {
    pub params: Params,
}

/// Queries of the chain's own modules.
#[derive(Clone, Copy, Debug, PartialEq, Eq, Structural)]
pub enum SideQuery {
    Params,
    Pool,
}

/// The chain module a query goes to.
#[derive(Clone, Copy, Debug, PartialEq, Eq, Structural)]
pub enum SideRoute {
    Authz,
    Gmm,
}

/// Messages to the chain's swap module.
#[derive(Clone, Debug, PartialEq, Eq)]
pub enum SideMsg {
    Swap { pool_id: String, token_in: String, token_out: String, slippage: String },
}

} // verus!
