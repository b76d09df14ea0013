//! Validators of an appchain and their history records.
use crate::appchain::delegator::{delegator_of, AppchainDelegator};
use crate::str_map::{distinct_keys, StrMap};
use crate::sums::{lemma_sum_bounds, lemma_sum_prefix, sum_of};
use crate::types::{
    AccountId, Balance, BlockHeight, Delegator, DelegatorHistoryKey, LiteValidator,
    LiteValidatorView, SeqNum, Validator, ValidatorHistoryKey, ValidatorId, ValidatorView,
};
use std::collections::HashMap;
use vstd::prelude::*;

verus! {

/// The history keys of the validators of a validator set.
pub struct ValidatorHistoryKeySet {
    pub seq_num: SeqNum,
    pub set_id: u32,
    pub history_keys: HashMap<u32, ValidatorHistoryKey>,
    pub history_keys_len: u32,
}

/// The history keys of the validators of a validator set, as a list.
pub struct ValidatorHistoryKeySetView {
    pub seq_num: SeqNum,
    pub set_id: u32,
    pub history_keys: Vec<ValidatorHistoryKey>,
}

/// A record of a validator in the history of validator sets.
pub struct ValidatorHistory {
    pub id: ValidatorId,
    pub account_id: AccountId,
    pub weight: Balance,
    pub block_height: BlockHeight,
    pub delegator_history_keys: HashMap<u32, DelegatorHistoryKey>,
    pub delegator_history_keys_len: u32,
}

impl ValidatorHistory {
    /// Convert to struct `LiteValidator`; the record keeps no delegators.
    pub fn to_lite_validator(&self) -> (r: LiteValidator)
        ensures
            r@ == (LiteValidatorView {
                id: self.id,
                account_id: self.account_id,
                weight: self.weight,
                block_height: self.block_height,
                delegators: Seq::empty(),
            }),
    {
        let r = LiteValidator {
            id: self.id.clone(),
            account_id: self.account_id.clone(),
            weight: self.weight,
            block_height: self.block_height,
            delegators: Vec::new(),
        };
        assert(r.delegators@ =~= Seq::<Delegator>::empty());
        r
    }
}

/// Entries of a delegators map: id of the delegator and its record, if the record is still stored.
pub type DelegatorEntries = Seq<(Seq<char>, Option<AppchainDelegator>)>;

/// Every delegator record of the map is still stored.
pub open spec fn all_delegators_present(s: DelegatorEntries) -> bool {
    forall|i: int| 0 <= i < s.len() ==> (#[trigger] s[i]).1 is Some
}

/// The delegators of a map, in the map's order.
pub open spec fn delegator_list(s: DelegatorEntries) -> Seq<Delegator> {
    s.map_values(|e: (Seq<char>, Option<AppchainDelegator>)| delegator_of(e.1.unwrap()))
}

/// Amount delegated by an entry of a delegators map: nothing once its record is dropped.
pub open spec fn delegation_of(e: (Seq<char>, Option<AppchainDelegator>)) -> int {
    match e.1 {
        Some(d) => d.amount as int,
        None => 0,
    }
}

/// Total amount delegated by the stored delegator records of a map.
pub open spec fn delegated_sum(s: DelegatorEntries) -> int {
    sum_of(s, |e: (Seq<char>, Option<AppchainDelegator>)| delegation_of(e))
}

/// Appchain validator of an appchain
pub struct AppchainValidator {
    /// Id of appchain validator
    pub validator_id: ValidatorId,
    /// Account id of the validator
    pub account_id: AccountId,
    /// Staked balance of the validator
    pub amount: Balance,
    /// Block height which the validator started staking
    pub block_height: BlockHeight,
    /// Delegators of the validator
    pub delegators: StrMap<Option<AppchainDelegator>>,
}

/// An appchain validator with its delegators map as its entries.
pub ghost struct AppchainValidatorView {
    pub validator_id: ValidatorId,
    pub account_id: AccountId,
    pub amount: Balance,
    pub block_height: BlockHeight,
    pub delegators: DelegatorEntries,
}

impl AppchainValidatorView {
    /// The delegators map has distinct ids and every record is still stored.
    pub open spec fn wf(self) -> bool {
        distinct_keys(self.delegators) && all_delegators_present(self.delegators)
    }

    /// The validator's own stake plus every stored delegation.
    pub open spec fn staked_total(self) -> int {
        self.amount + delegated_sum(self.delegators)
    }

    /// The `Validator` that describes this validator.
    pub open spec fn validator_view(self) -> ValidatorView {
        ValidatorView {
            id: self.validator_id,
            account_id: self.account_id,
            staked_amount: self.amount,
            block_height: self.block_height,
            delegators: delegator_list(self.delegators),
        }
    }

    /// The `LiteValidator` that describes this validator.
    pub open spec fn lite_view(self) -> LiteValidatorView {
        LiteValidatorView {
            id: self.validator_id,
            account_id: self.account_id,
            weight: self.amount,
            block_height: self.block_height,
            delegators: delegator_list(self.delegators),
        }
    }
}

impl View for AppchainValidator {
    type V = AppchainValidatorView;

    open spec fn view(&self) -> AppchainValidatorView {
        AppchainValidatorView {
            validator_id: self.validator_id,
            account_id: self.account_id,
            amount: self.amount,
            block_height: self.block_height,
            delegators: self.delegators.spec_entries(),
        }
    }
}

impl Clone for AppchainValidator {
    fn clone(&self) -> (r: Self)
        ensures
            r@ == self@,
    {
        AppchainValidator {
            validator_id: self.validator_id.clone(),
            account_id: self.account_id.clone(),
            amount: self.amount,
            block_height: self.block_height,
            delegators: self.delegators.clone_with(|d: &Option<AppchainDelegator>| -> (r: Option<AppchainDelegator>)
                ensures r == *d,
                {
                    match d {
                        Some(x) => Some(x.clone()),
                        None => None,
                    }
                }),
        }
    }
}

impl AppchainValidator {
    /// A validator with its own stake and no delegators.
    pub fn new(validator_id: ValidatorId, account_id: AccountId, amount: Balance, block_height: BlockHeight) -> (r: Self)
        ensures
            r.validator_id == validator_id,
            r.account_id == account_id,
            r.amount == amount,
            r.block_height == block_height,
            r.delegators.wf(),
            r@.delegators == Seq::<(Seq<char>, Option<AppchainDelegator>)>::empty(),
    {
        AppchainValidator { validator_id, account_id, amount, block_height, delegators: StrMap::new() }
    }

    /// The delegators of the validator, in the order of the map.
    fn collect_delegators(&self) -> (r: Vec<Delegator>)
        requires
            all_delegators_present(self.delegators.spec_entries()),
        ensures
            r@ == delegator_list(self.delegators.spec_entries()),
    {
        let n = self.delegators.len();
        let mut r: Vec<Delegator> = Vec::new();
        let mut i: usize = 0;
        while i < n
            invariant
                n == self.delegators.spec_len(),
                all_delegators_present(self.delegators.spec_entries()),
                i <= n,
                r@ == delegator_list(self.delegators.spec_entries()).subrange(0, i as int),
            decreases n - i,
        {
            let d = self.delegators.value_at(i);
            assert(self.delegators.spec_entries()[i as int].1 is Some);
            match d {
                Some(d) => {
                    r.push(d.to_delegator());
                },
                None => {},
            }
            i = i + 1;
            assert(r@ =~= delegator_list(self.delegators.spec_entries()).subrange(0, i as int));
        }
        assert(delegator_list(self.delegators.spec_entries()).subrange(0, n as int)
            =~= delegator_list(self.delegators.spec_entries()));
        r
    }

    /// Convert to struct `Validator`
    pub fn to_validator(&self) -> (r: Validator)
        requires
            all_delegators_present(self.delegators.spec_entries()),
        ensures
            r@ == self@.validator_view(),
    {
        Validator {
            id: self.validator_id.clone(),
            account_id: self.account_id.clone(),
            staked_amount: self.amount,
            block_height: self.block_height,
            delegators: self.collect_delegators(),
        }
    }

    /// Convert to struct `ValidatorHistory`, with no delegator history yet.
    pub fn to_validator_history(&self) -> (r: ValidatorHistory)
        ensures
            r.id == self.validator_id,
            r.account_id == self.account_id,
            r.weight == self.amount,
            r.block_height == self.block_height,
            r.delegator_history_keys@ == Map::<u32, DelegatorHistoryKey>::empty(),
            r.delegator_history_keys_len == 0,
    {
        ValidatorHistory {
            id: self.validator_id.clone(),
            account_id: self.account_id.clone(),
            weight: self.amount,
            block_height: self.block_height,
            delegator_history_keys: HashMap::new(),
            delegator_history_keys_len: 0,
        }
    }

    /// Convert to struct `LiteValidator`
    pub fn to_lite_validator(&self) -> (r: LiteValidator)
        requires
            all_delegators_present(self.delegators.spec_entries()),
        ensures
            r@ == self@.lite_view(),
    {
        LiteValidator {
            id: self.validator_id.clone(),
            account_id: self.account_id.clone(),
            weight: self.amount,
            block_height: self.block_height,
            delegators: self.collect_delegators(),
        }
    }

    /// Get delegator by `DelegatorId`
    pub fn get_delegator(&self, delegator_id: &String) -> (r: Option<AppchainDelegator>)
        requires
            self.delegators.wf(),
        ensures
            r == match self.delegators.spec_get(delegator_id@) {
                Some(d) => d,
                None => None,
            },
    {
        match self.delegators.get(delegator_id) {
            Some(Some(d)) => Some(d.clone()),
            _ => None,
        }
    }

    /// Get total staked amount of OCT tokens of the validator,
    /// this function will also count all balances of delegators.
    pub fn get_staked_balance_including_delegators(&self) -> (r: Balance)
        requires
            self@.staked_total() <= u128::MAX,
        ensures
            r == self@.staked_total(),
    {
        let n = self.delegators.len();
        let mut sum: u128 = 0;
        let mut i: usize = 0;
        while i < n
            invariant
                n == self.delegators.spec_len(),
                i <= n,
                self@.staked_total() <= u128::MAX,
                sum == delegated_sum(self.delegators.spec_entries().subrange(0, i as int)),
            decreases n - i,
        {
            let ghost s = self.delegators.spec_entries();
            proof {
                let f = |e: (Seq<char>, Option<AppchainDelegator>)| delegation_of(e);
                lemma_sum_prefix(s, i + 1, f);
                lemma_sum_bounds(s, f);
                assert(sum_of(s.subrange(0, i + 1), f) <= sum_of(s, f));
            }
            match self.delegators.value_at(i) {
                Some(d) => {
                    sum = sum + d.amount;
                },
                None => {},
            }
            i = i + 1;
        }
        assert(self.delegators.spec_entries().subrange(0, n as int) =~= self.delegators.spec_entries());
        self.amount + sum
    }

    /// Clear extra storage used by the validator: every delegator record is dropped,
    /// while the ids stay in the map.
    pub fn clear_extra_storage(&mut self)
        requires
            old(self).delegators.wf(),
        ensures
            final(self).validator_id == old(self).validator_id,
            final(self).account_id == old(self).account_id,
            final(self).amount == old(self).amount,
            final(self).block_height == old(self).block_height,
            final(self).delegators.wf(),
            final(self).delegators.spec_len() == old(self).delegators.spec_len(),
            forall|i: int| 0 <= i < final(self).delegators.spec_len() ==>
                (#[trigger] final(self).delegators.spec_entries()[i]) == (old(self).delegators.spec_entries()[i].0, None::<AppchainDelegator>),
    {
        let n = self.delegators.len();
        let mut i: usize = 0;
        while i < n
            invariant
                n == self.delegators.spec_len(),
                n == old(self).delegators.spec_len(),
                i <= n,
                self.validator_id == old(self).validator_id,
                self.account_id == old(self).account_id,
                self.amount == old(self).amount,
                self.block_height == old(self).block_height,
                self.delegators.wf(),
                forall|j: int| 0 <= j < i ==>
                    (#[trigger] self.delegators.spec_entries()[j]) == (old(self).delegators.spec_entries()[j].0, None::<AppchainDelegator>),
                forall|j: int| i <= j < n ==>
                    (#[trigger] self.delegators.spec_entries()[j]) == old(self).delegators.spec_entries()[j],
            decreases n - i,
        {
            self.delegators.set_value_at(i, None);
            i = i + 1;
        }
    }
}

} // verus!
