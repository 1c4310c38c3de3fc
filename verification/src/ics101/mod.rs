pub mod approx_pow;
pub mod contract;
pub mod error;
pub mod interchainswap_handler;
pub mod market;
pub mod math;
pub mod msg;
pub mod state;
pub mod types;
pub mod utils;
