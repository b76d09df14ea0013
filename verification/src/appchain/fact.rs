//! Facts of an appchain as they are kept in storage.
use crate::appchain::validator::ValidatorHistoryKeySetView;
use crate::types::{AccountId, BlockHeight, Burned, Locked, SeqNum, Timestamp};
use vstd::prelude::*;

verus! {

/// A fact of an appchain as stored: the history keys of a validator set, or an asset event.
pub enum RawFact {
    ValidatorHistoryIndexSet(ValidatorHistoryKeySetView),
    LockAsset(Locked),
    Burn(Burned),
}

/// Tokens locked for an appchain, with the time and epoch of the lock.
pub struct AppchainLockedAsset {
    pub sequence_number: SeqNum,
    pub token_id: AccountId,
    pub sender_id: AccountId,
    pub receiver: String,
    pub amount: u128,
    pub block_height: BlockHeight,
    pub timestamp: Timestamp,
    pub epoch_number: u32,
}

/// Native tokens of an appchain burnt on NEAR, with the time and epoch of the burn.
pub struct AppchainBurnedNativeToken {
    pub sequence_number: SeqNum,
    pub sender_id: AccountId,
    pub receiver: String,
    pub amount: u128,
    pub block_height: BlockHeight,
    pub timestamp: Timestamp,
    pub epoch_number: u32,
}

impl AppchainLockedAsset {
    /// Convert to struct `Locked`
    pub fn to_locked(&self) -> (r: Locked)
        ensures
            r == (Locked {
                seq_num: self.sequence_number,
                token_id: self.token_id,
                sender_id: self.sender_id,
                receiver: self.receiver,
                amount: self.amount,
            }),
    {
        Locked {
            seq_num: self.sequence_number,
            token_id: self.token_id.clone(),
            sender_id: self.sender_id.clone(),
            receiver: self.receiver.clone(),
            amount: self.amount,
        }
    }
}

impl AppchainBurnedNativeToken {
    /// Convert to struct `Burned`
    pub fn to_burned(&self) -> (r: Burned)
        ensures
            r == (Burned {
                seq_num: self.sequence_number,
                sender_id: self.sender_id,
                receiver: self.receiver,
                amount: self.amount,
            }),
    {
        Burned {
            seq_num: self.sequence_number,
            sender_id: self.sender_id.clone(),
            receiver: self.receiver.clone(),
            amount: self.amount,
        }
    }
}

} // verus!
