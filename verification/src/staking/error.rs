//! Why a liquid staking request is refused.
use vstd::prelude::*;

verus! {

#[derive(Clone, Copy, Debug, PartialEq, Eq, Structural)]
pub enum ContractError {
    /// The contract is paused.
    Paused,
    /// Only the admin may make this request.
    Unauthorized,
    /// The kill switch holds no valid state.
    InvalidKillSwitch,
    /// Deposits are frozen by the kill switch.
    DepositsFrozen,
    /// Withdrawals wait until the kill switch's unbonding has finished.
    WithdrawalsFrozen,
    /// At least one whole token must be deposited.
    DepositBelowMinimum,
    /// At least the minimum must be withdrawn.
    WithdrawBelowMinimum,
    /// The validator set is empty.
    EmptyValidatorSet,
    /// No validator has this address.
    ValidatorNotFound,
    /// The validator still holds stake and removal is not forced.
    ValidatorHasStake,
    /// The withdraw window may not advance yet.
    WindowNotReady,
    /// There is no window left to mature.
    NoOngoingWindow,
    /// Less than nine tenths of what matured has been received.
    ClaimNotProcessed,
    /// An exchange rate computation failed.
    Overflow,
    /// The staking token's address is not registered yet.
    TokenNotRegistered,
    /// A token name must be 3 to 50 bytes long.
    InvalidTokenName,
    /// A token symbol must be 3 to 12 ASCII letters or `-`.
    InvalidTokenSymbol,
    /// A token has at most 18 decimals.
    InvalidTokenDecimals,
    /// The text is not a whole number.
    NotANumber,
}

} // verus!
