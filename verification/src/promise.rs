//! Calls that the relay makes to other contracts and to itself, and transfers of NEAR.
//!
//! A call to the relay that needs another contract returns the chain of promises to
//! create; the runtime performs them one after the other, and each callback to the
//! relay learns whether the step before it succeeded.
use crate::types::{AccountId, AppchainId, Balance, Message, ValidatorId};
use vstd::prelude::*;

verus! {

/// Deposit attached to calls that need no deposit.
pub const NO_DEPOSIT: u128 = 0;

/// Gas for an `ft_transfer` call and for callbacks that follow one.
pub const GAS_FOR_FT_TRANSFER_CALL: u64 = 35_000_000_000_000;

/// Gas for a single cross-contract call.
pub const SINGLE_CALL_GAS: u64 = 50_000_000_000_000;

/// Gas for a call that makes further calls.
pub const COMPLEX_CALL_GAS: u64 = 70_000_000_000_000;

/// Gas for a simple call.
pub const SIMPLE_CALL_GAS: u64 = 5_000_000_000_000;

/// Gas for an `ft_transfer` made while unlocking tokens.
pub const FT_TRANSFER_GAS: u64 = 5_000_000_000_000;

/// Deposit for the storage of an account in a token contract.
pub const STORAGE_DEPOSIT_AMOUNT: Balance = 1250000000000000000000;

/// A method of another contract, or of the relay itself, with its arguments.
#[derive(Debug)]
pub enum CallMethod {
    /// `ft_transfer` of a fungible token contract.
    FtTransfer { receiver_id: AccountId, amount: u128 },
    /// `storage_balance_of` of a fungible token contract.
    StorageBalanceOf { account_id: AccountId },
    /// `storage_deposit` of a fungible token contract.
    StorageDeposit { account_id: AccountId },
    /// `mint` of the native token contract of an appchain.
    Mint { receiver_id: AccountId, amount: u128 },
    /// `burn` of the native token contract of an appchain.
    Burn { account_id: AccountId, amount: u128 },
    /// Callback of the relay after the stake of a validator was sent back.
    ResolveRemoveValidator { appchain_id: AppchainId, validator_id: ValidatorId, amount: u128 },
    /// Callback of the relay after the bond of a removed appchain was sent back.
    ResolveRemoveAppchain { appchain_id: AppchainId },
    /// Callback of the relay after the bond of an activated appchain was sent back.
    ResolveActivateAppchain {
        appchain_id: AppchainId,
        boot_nodes: String,
        rpc_endpoint: String,
        chain_spec_url: String,
        chain_spec_hash: String,
        chain_spec_raw_url: String,
        chain_spec_raw_hash: String,
    },
    /// Callback of the relay with the storage balance of the receiver of unlocked tokens.
    CheckBridgeTokenStorageDeposit {
        deposit: Balance,
        receiver_id: AccountId,
        token_id: AccountId,
        appchain_id: AppchainId,
        amount: u128,
    },
    /// Callback of the relay after a storage deposit for the receiver of unlocked tokens.
    ResolveBridgeTokenStorageDeposit { deposit: Balance, receiver_id: AccountId, amount: u128, token_id: AccountId },
    /// Callback of the relay after tokens were unlocked.
    ResolveUnlockToken { token_id: AccountId, appchain_id: AppchainId, amount: u128 },
    /// Callback of the relay after native tokens were minted.
    ResolveMintNativeToken { appchain_id: AppchainId },
    /// Callback of the relay after native tokens were burnt.
    ResolveBurnNativeToken { appchain_id: AppchainId, sender_id: AccountId, receiver: String, amount: u128 },
    /// `unlock_token` of the relay, for a message from an appchain.
    UnlockToken { appchain_id: AppchainId, token_id: AccountId, sender: String, receiver_id: AccountId, amount: u128 },
    /// `mint_native_token` of the relay, for a message from an appchain.
    MintNativeToken { appchain_id: AppchainId, receiver_id: AccountId, amount: u128 },
    /// `execute` of the relay, for the remaining messages from an appchain.
    Execute { messages: Vec<Message>, appchain_id: AppchainId, remaining_deposit: Balance },
}

/// One promise: a call of a contract's method, or a transfer of NEAR.
#[derive(Debug)]
pub enum PromiseAction {
    /// Call `method` of `contract_id` with `deposit` attached and `gas` to spend.
    Call { contract_id: AccountId, method: CallMethod, deposit: Balance, gas: u64 },
    /// Transfer `amount` of NEAR to `receiver_id`.
    Transfer { receiver_id: AccountId, amount: Balance },
}

/// Either promises to create, whose outcome the last callback returns, or a value at once.
#[derive(Debug)]
pub enum PromiseOrValue<T> {
    Promise(Vec<PromiseAction>),
    Value(T),
}

} // verus!
