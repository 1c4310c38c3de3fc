pub mod admin;
pub mod balance;
pub mod deposit;
pub mod error;
pub mod killswitch;
pub mod msg;
pub mod state;
pub mod tokens;
pub mod utils;
pub mod validator_set;
pub mod window;
pub mod window_manager;
pub mod withdraw;
