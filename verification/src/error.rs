//! Reasons for which the relay refuses a call.
use vstd::prelude::*;

verus! {

/// Why a call to the relay was refused; a refused call changes nothing.
#[derive(Clone, Copy, Debug, PartialEq, Eq, Structural)]
pub enum RelayError {
    /// The contract state exists already.
    AlreadyInitialized,
    /// Only the contract itself may call this function.
    NotSelf,
    /// Only the owner of the contract may call this function.
    NotOwner,
    /// Only the OCT token contract may send this message.
    NotOctToken,
    /// The message has the wrong number of parameters.
    WrongParamsLength,
    /// The validator address is not a hex string.
    InvalidHexAddress,
    /// The validator address is not 32 bytes long.
    AddressNotThirtyTwoBytes,
    /// No appchain is registered under this id.
    AppchainNotFound,
    /// The appchain id is registered already.
    AppchainAlreadyRegistered,
    /// The appchain cannot be updated in its current status.
    CannotUpdateAtCurrentStatus,
    /// Only the founder of the appchain may do this.
    NotFounder,
    /// The appchain is not in its staking period.
    NotInStakingPeriod,
    /// The staked amount is below the minimum.
    InsufficientStakingAmount,
    /// The signer's account stakes on the appchain already.
    AccountAlreadyStaked,
    /// The validator stakes on the appchain already.
    ValidatorAlreadyStaked,
    /// The signer does not stake on the appchain.
    NotStaking,
    /// The validator does not exist.
    ValidatorNotExists,
    /// The appchain is not in auditing.
    NotInAuditing,
    /// The appchain is not in voting.
    NotInVoting,
    /// The appchain is not in staging.
    NotInStaging,
    /// The appchain is not booting.
    NotBooting,
    /// The appchain has fewer validators than required.
    InsufficientValidators,
    /// The bridge token is not registered.
    TokenNotRegistered,
    /// The bridge token is registered already.
    TokenAlreadyRegistered,
    /// The symbol is registered already.
    SymbolAlreadyRegistered,
    /// The bridge of the token is paused already.
    BridgeAlreadyPaused,
    /// The bridge of the token is active already.
    BridgeAlreadyActive,
    /// The bridge of the token is paused, closed or not permitted for the appchain.
    BridgeNotAllowed,
    /// The amount exceeds what the appchain's stake allows to bridge.
    InsufficientAllowance,
    /// Nothing of the token is locked for the appchain.
    NothingLocked,
    /// Less of the token is locked for the appchain than requested.
    InsufficientLockedBalance,
    /// The native token of the appchain is registered already.
    NativeTokenAlreadyRegistered,
    /// The native token of the appchain is not registered.
    NativeTokenNotRegistered,
    /// The attached deposit is not the required one.
    WrongDeposit,
    /// The proof of the messages was not verified.
    VerificationFailed,
    /// The start index of the facts is past their end.
    InvalidFactsStart,
    /// A result exceeds the range of its integer type.
    ArithmeticOverflow,
    /// The price of the token is zero.
    ZeroTokenPrice,
    /// The messages from the appchain, or one of their payloads, could not be decoded.
    DecodeFailed,
    /// The promise that this callback follows did not succeed.
    PromiseFailed,
}

} // verus!
