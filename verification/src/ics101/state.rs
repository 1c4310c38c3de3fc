//! The interchain swap contract's configuration and order status.
use vstd::prelude::*;

verus! {

#[derive(Clone, Copy, Debug, PartialEq, Eq, Structural)]
pub enum Status {
    /// Made on the maker's chain.
    Initial,
    /// Known on the taker's chain.
    Sync,
    Cancel,
    Complete,
}

#[derive(Clone, Debug, PartialEq, Eq)]
pub struct Config {
    /// How many multi-asset deposit orders were made.
    pub counter: u64,
    /// The code of the CW20 contract that pool tokens are instantiated from.
    pub token_code_id: u64,
    pub admin: String,
}

/// The configuration of a new contract, made by `sender`: no order yet.
pub fn instantiate(sender: String, token_code_id: u64) -> (r: Config)
    ensures
        r == (Config { counter: 0, token_code_id, admin: sender }),
{
    Config { counter: 0, token_code_id, admin: sender }
}

} // verus!
