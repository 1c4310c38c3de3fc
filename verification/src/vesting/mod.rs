pub mod msg;
pub mod state;
