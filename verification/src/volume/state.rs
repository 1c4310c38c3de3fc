//! The volume oracle's state: a ring of cumulative observations.
use vstd::prelude::*;

verus! {

/// The volumes traded up to `block_timestamp`, summed since the first observation.
#[derive(Clone, Copy, Debug, PartialEq, Eq, Structural)]
pub struct Observation {
    /// Nanoseconds.
    pub block_timestamp: u64,
    /// How many observations were logged up to `block_timestamp`.
    pub num_of_observations: u64,
    /// Cumulative volume of the first token.
    pub volume1: u128,
    /// Cumulative volume of the second token.
    pub volume2: u128,
}

#[derive(Clone, Debug, PartialEq, Eq)]
pub struct Config {
    pub admin: String,
    /// The only address that may log observations.
    pub contract_address: String,
    /// Where the latest observation is stored.
    pub current_idx: u64,
    /// Whether the ring may have wrapped around.
    pub pivoted: bool,
    /// How many observations the ring holds.
    pub max_length: u64,
    /// No observation has been logged yet.
    pub is_new: bool,
    /// How many observations were written after the first.
    pub counter: u64,
}

/// The two tokens whose volumes are observed.
#[derive(Clone, Debug, PartialEq, Eq)]
pub struct Order {
    pub token1: String,
    pub token2: String,
}

} // verus!
