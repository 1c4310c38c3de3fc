//! The kill switch: normal operation, unbonding everything, or open withdrawals.
use vstd::prelude::*;

use crate::staking::error::ContractError;

verus! {

#[derive(Clone, Copy, Debug, PartialEq, Eq, Structural)]
pub enum KillSwitch {
    Closed,
    Unbonding,
    Open,
}

/// The number a kill switch state is stored as.
pub open spec fn kill_switch_code(k: KillSwitch) -> u8 {
    match k {
        KillSwitch::Closed => 0,
        KillSwitch::Unbonding => 1,
        KillSwitch::Open => 2,
    }
}

impl KillSwitch {
    /// The kill switch state stored as `other`: 0, 1 or 2.
    pub fn try_from(other: u8) -> (r: Result<KillSwitch, ContractError>)
        ensures
            other == 0 ==> r == Ok::<KillSwitch, ContractError>(KillSwitch::Closed),
            other == 1 ==> r == Ok::<KillSwitch, ContractError>(KillSwitch::Unbonding),
            other == 2 ==> r == Ok::<KillSwitch, ContractError>(KillSwitch::Open),
            other > 2 ==> r == Err::<KillSwitch, ContractError>(ContractError::InvalidKillSwitch),
    {
        match other {
            0 => Ok(KillSwitch::Closed),
            1 => Ok(KillSwitch::Unbonding),
            2 => Ok(KillSwitch::Open),
            _ => Err(ContractError::InvalidKillSwitch),
        }
    }

    /// The number this state is stored as.
    pub fn into_u8(self) -> (r: u8)
        ensures
            r == kill_switch_code(self),
    {
        match self {
            KillSwitch::Closed => 0,
            KillSwitch::Unbonding => 1,
            KillSwitch::Open => 2,
        }
    }
}

/// Storing a kill switch state and reading it back gives the same state.
pub proof fn lemma_kill_switch_round_trip(k: KillSwitch)
    ensures
        kill_switch_code(k) <= 2,
        k == (match kill_switch_code(k) {
            0 => KillSwitch::Closed,
            1 => KillSwitch::Unbonding,
            _ => KillSwitch::Open,
        }),
{
}

} // verus!
