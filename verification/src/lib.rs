//! Verified core of the Side chain contracts: interchain swap pools (ics100/ics101),
//! liquid staking, LP staking rewards, vote escrow, volume oracle and swap routing.
#![allow(unused_imports)]

pub mod coin;
pub mod decimal;
pub mod ics100;
pub mod ics101;
pub mod lp_staking;
pub mod router;
pub mod staking;
pub mod vesting;
pub mod volume;
pub mod voting_escrow;
