pub mod contract;
pub mod msg;
pub mod state;
