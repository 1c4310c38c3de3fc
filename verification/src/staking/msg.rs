//! Messages the liquid staking contract sends and receives.
use vstd::prelude::*;

verus! {

/// The claim message of the third airdrop.
#[derive(Clone, Debug, PartialEq, Eq)]
pub enum AirdropMessage3 {
    Claim {},
}

/// Claims the rewards of the reward contract for a recipient.
#[derive(Clone, Debug, PartialEq, Eq)]
pub enum RewardClaim {
    Claim { recipient: String },
}

/// Asks the reward contract what an address has accrued.
#[derive(Clone, Debug, PartialEq, Eq)]
pub enum QueryRewards {
    AccruedRewards { address: String },
}

#[derive(Clone, Debug, PartialEq, Eq)]
pub struct MigrateMsg {}

/// What staking tokens sent to the contract ask for.
#[derive(Clone, Debug, PartialEq, Eq)]
pub enum Cw20HookMsg {
    Unbond {},
}

/// The validators the validator contract recommends.
#[derive(Clone, Debug, PartialEq, Eq)]
pub struct TopValidatorsResponse {
    pub validators: Vec<String>,
}

/// Asks the validator contract for its top, other and community validators.
#[derive(Clone, Debug, PartialEq, Eq)]
pub enum QueryMsgValidator {
    GetValidators { top: i32, oth: i32, com: i32 },
}

/// Tells the reward contract to update its global index.
#[derive(Clone, Debug, PartialEq, Eq)]
pub enum RewardExecuteMsg {
    UpdateGlobalIndex {},
}

} // verus!
