//! Delegators of the validators of an appchain.
use crate::types::{AccountId, Balance, BlockHeight, Delegator, DelegatorHistoryKey, DelegatorId};
use std::collections::HashMap;
use vstd::prelude::*;

verus! {

/// The history keys of the delegators of a validator set.
pub struct DelegatorKeySet {
    pub set_id: u32,
    pub delegator_index_set: HashMap<u32, DelegatorHistoryKey>,
    pub delegator_index_set_len: u32,
}

/// A record of a delegator in the history of validator sets.
pub struct DelegatorHistory {
    pub delegator_id: DelegatorId,
    pub account_id: AccountId,
    pub amount: Balance,
    pub block_height: BlockHeight,
    pub set_id: u32,
}

/// Appchain delegator of an appchain validator
pub struct AppchainDelegator {
    /// Id of appchain delegator
    pub delegator_id: DelegatorId,
    /// Account id of the delegator
    pub account_id: AccountId,
    /// Authorized balance of the delegator
    pub amount: Balance,
    /// Block height of the delegation of the delegator
    pub block_height: BlockHeight,
}

impl Clone for AppchainDelegator {
    fn clone(&self) -> (r: Self)
        ensures
            r == *self,
    {
        AppchainDelegator {
            delegator_id: self.delegator_id.clone(),
            account_id: self.account_id.clone(),
            amount: self.amount,
            block_height: self.block_height,
        }
    }
}

/// The `Delegator` that describes an appchain delegator.
pub open spec fn delegator_of(d: AppchainDelegator) -> Delegator {
    Delegator {
        id: d.delegator_id,
        account_id: d.account_id,
        amount: d.amount,
        block_height: d.block_height,
    }
}

impl AppchainDelegator {
    /// Convert to struct `Delegator`
    pub fn to_delegator(&self) -> (r: Delegator)
        ensures
            r == delegator_of(*self),
    {
        Delegator {
            id: self.delegator_id.clone(),
            account_id: self.account_id.clone(),
            amount: self.amount,
            block_height: self.block_height,
        }
    }
}

} // verus!
