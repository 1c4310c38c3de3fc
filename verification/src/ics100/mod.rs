pub mod atomic_swap_handler;
pub mod error;
pub mod msg;
pub mod state;
pub mod utils;
