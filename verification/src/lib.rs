//! Octopus relay: registry of appchains, their validators and staking, and the
//! bridge between NEAR fungible tokens and appchains.
//!
//! The relay is a NEAR contract. Its state lives here as plain values; the
//! environment of a call (who calls, at which block, with which deposit) is
//! handed in as a `Context`, and calls to other contracts are handed back as
//! promises to create (see `promise`).
pub mod appchain;
pub mod appchain_prover;
pub mod bridge_token_manager;
pub mod bridging;
pub mod error;
pub mod hex_address;
pub mod lexical;
pub mod native_token_manager;
pub mod pipeline;
pub mod promise;
pub mod proof_decoder;
pub mod relayed_bridge_token;
pub mod storage_key;
pub mod str_map;
pub mod sums;
pub mod transfer_message;
pub mod types;

use crate::appchain::metadata::AppchainMetadata;
use crate::appchain::state::{
    present, staked_vals, validators_stake, AppchainState, ValidatorViewEntries,
};
use crate::appchain::validator::AppchainValidatorView;
use crate::error::RelayError;
use crate::bridging::TokenBridging;
use crate::promise::{CallMethod, PromiseAction, PromiseOrValue, GAS_FOR_FT_TRANSFER_CALL, NO_DEPOSIT};
use crate::transfer_message::{lemma_split_nonempty, message_fields, split_message, text_eq};
use crate::relayed_bridge_token::RelayedBridgeToken;
use crate::str_map::{
    distinct_keys, has_key, inserted, key_index, lemma_key_index, lemma_update_value, lookup,
    StrMap,
};
use crate::sums::{lemma_sum_push, lemma_sum_update, sum_of};
use crate::appchain::delegator::delegator_of;
use crate::types::{
    AccountId, Appchain, AppchainId, AppchainStatus, Balance, BlockHeight, Delegator, DelegatorId,
    SeqNum, Timestamp, Validator, ValidatorId, ValidatorSet, ValidatorView,
};
use vstd::prelude::*;

verus! {

/// Number of the smallest units of OCT in one OCT.
pub const OCT_DECIMALS_BASE: Balance = 1000_000_000_000_000_000_000_000;

/// The environment of a call to the relay.
pub struct Context {
    /// The account that called the relay.
    pub predecessor_account_id: AccountId,
    /// The account that signed the transaction.
    pub signer_account_id: AccountId,
    /// The account of the relay itself.
    pub current_account_id: AccountId,
    /// Height of the current block.
    pub block_index: BlockHeight,
    /// Timestamp of the current block.
    pub block_timestamp: Timestamp,
    /// NEAR attached to the call.
    pub attached_deposit: Balance,
    /// Gas given to the call.
    pub prepaid_gas: u64,
}

/// Stake recorded by an entry of the appchain states.
pub open spec fn state_stake(e: (Seq<char>, AppchainState)) -> int {
    e.1.staked_balance as int
}

/// Total stake recorded by the appchain states.
pub open spec fn states_stake(s: Seq<(Seq<char>, AppchainState)>) -> int {
    sum_of(s, |e: (Seq<char>, AppchainState)| state_stake(e))
}

/// An appchain state kept under its own id: well formed, every validator record stored, its
/// stake the stake of its validators, and no stake before staging.
pub open spec fn state_ok(e: (Seq<char>, AppchainState)) -> bool {
    let st = e.1;
    &&& st.wf()
    &&& st.appchain_id@ == e.0
    &&& forall|j: int| 0 <= j < st.vals().len() ==> (#[trigger] st.vals()[j]).1 is Some
    &&& st.staked_balance == validators_stake(st.vals())
    &&& (st.status == crate::types::AppchainStatus::Auditing || st.status == crate::types::AppchainStatus::Voting)
        ==> st.staked_balance == 0
}

/// A bridge token kept under its own id, with distinct appchain permissions.
pub open spec fn token_ok(e: (Seq<char>, RelayedBridgeToken)) -> bool {
    e.1@.wf() && e.1@.token_id@ == e.0
}

/// Metadata kept under its own appchain id.
pub open spec fn metadata_ok(e: (Seq<char>, AppchainMetadata)) -> bool {
    e.1.id@ == e.0
}

/// Octopus relay contract
pub struct OctopusRelay {
    pub version: u32,
    pub token_contract_id: AccountId,
    pub appchain_minimum_validators: u32,
    pub minimum_staking_amount: Balance,
    pub total_staked_balance: Balance,
    pub appchain_id_list: Vec<AppchainId>,
    pub appchain_data_fact_sets_len: StrMap<SeqNum>,
    pub bridge_limit_ratio: u16,
    pub owner: AccountId,
    pub oct_token_price: u128,
    /// Collection of metadata of all appchains
    pub appchain_metadatas: StrMap<AppchainMetadata>,
    /// Collection of state data of all appchains
    pub appchain_states: StrMap<AppchainState>,
    /// Registered bridge tokens, by token id
    pub bridge_tokens: StrMap<RelayedBridgeToken>,
    /// Token id of each registered symbol
    pub bridge_symbol_to_token: StrMap<AccountId>,
    /// Native token contract of each appchain
    pub appchain_native_tokens: StrMap<AccountId>,
}

impl OctopusRelay {
    /// The state of an appchain, if registered.
    pub open spec fn state_of(&self, appchain_id: Seq<char>) -> Option<AppchainState> {
        self.appchain_states.spec_get(appchain_id)
    }

    /// The metadata of an appchain, if registered.
    pub open spec fn metadata_of(&self, appchain_id: Seq<char>) -> Option<AppchainMetadata> {
        self.appchain_metadatas.spec_get(appchain_id)
    }

    /// The invariant of the relay.
    pub open spec fn wf(&self) -> bool {
        &&& self.appchain_data_fact_sets_len.wf()
        &&& self.appchain_metadatas.wf()
        &&& self.appchain_states.wf()
        &&& self.bridge_tokens.wf()
        &&& self.bridge_symbol_to_token.wf()
        &&& self.appchain_native_tokens.wf()
        &&& forall|k: Seq<char>| #[trigger] self.appchain_metadatas.spec_contains(k) == self.appchain_states.spec_contains(k)
        &&& forall|i: int| 0 <= i < self.appchain_states.spec_len() ==> state_ok(#[trigger] self.appchain_states.spec_entries()[i])
        &&& forall|i: int| 0 <= i < self.appchain_metadatas.spec_len() ==> metadata_ok(#[trigger] self.appchain_metadatas.spec_entries()[i])
        &&& forall|i: int| 0 <= i < self.bridge_tokens.spec_len() ==> token_ok(#[trigger] self.bridge_tokens.spec_entries()[i])
        &&& self.total_staked_balance >= states_stake(self.appchain_states.spec_entries())
    }

    /// The total stake of the relay is the sum of the stakes of the appchains.
    pub open spec fn stake_balanced(&self) -> bool {
        self.total_staked_balance == states_stake(self.appchain_states.spec_entries())
    }

    /// The settings of the relay are the same in both.
    pub open spec fn same_settings(&self, other: &Self) -> bool {
        &&& other.version == self.version
        &&& other.token_contract_id == self.token_contract_id
        &&& other.appchain_minimum_validators == self.appchain_minimum_validators
        &&& other.minimum_staking_amount == self.minimum_staking_amount
        &&& other.bridge_limit_ratio == self.bridge_limit_ratio
        &&& other.owner == self.owner
        &&& other.oct_token_price == self.oct_token_price
    }

    /// The bridge tokens, symbols and native tokens are the same in both.
    pub open spec fn same_bridges(&self, other: &Self) -> bool {
        &&& other.bridge_tokens == self.bridge_tokens
        &&& other.bridge_symbol_to_token == self.bridge_symbol_to_token
        &&& other.appchain_native_tokens == self.appchain_native_tokens
    }

    /// The registry of appchains (ids, fact sets, metadata) is the same in both.
    pub open spec fn same_registry(&self, other: &Self) -> bool {
        &&& other.appchain_id_list == self.appchain_id_list
        &&& other.appchain_data_fact_sets_len == self.appchain_data_fact_sets_len
        &&& other.appchain_metadatas == self.appchain_metadatas
    }

    /// Initialize the relay, owned by the relay's own account.
    ///
    /// Refused when the contract state exists already, and unless the relay calls itself.
    pub fn new(
        ctx: &Context,
        state_exists: bool,
        token_contract_id: AccountId,
        appchain_minimum_validators: u32,
        minimum_staking_amount: u128,
        bridge_limit_ratio: u16,
        oct_token_price: u128,
    ) -> (r: Result<Self, RelayError>)
        ensures
            state_exists ==> r == Err::<Self, RelayError>(RelayError::AlreadyInitialized),
            !state_exists && ctx.predecessor_account_id@ != ctx.current_account_id@ ==> r == Err::<Self, RelayError>(
                RelayError::NotSelf,
            ),
            r is Ok <==> !state_exists && ctx.predecessor_account_id@ == ctx.current_account_id@,
            r matches Ok(relay) ==> {
                &&& relay.wf()
                &&& relay.version == 0
                &&& relay.token_contract_id == token_contract_id
                &&& relay.total_staked_balance == 0
                &&& relay.appchain_minimum_validators == appchain_minimum_validators
                &&& relay.minimum_staking_amount == minimum_staking_amount
                &&& relay.appchain_id_list@ == Seq::<AppchainId>::empty()
                &&& relay.appchain_data_fact_sets_len.spec_len() == 0
                &&& relay.owner == ctx.current_account_id
                &&& relay.bridge_limit_ratio == bridge_limit_ratio
                &&& relay.oct_token_price == oct_token_price
                &&& relay.appchain_metadatas.spec_len() == 0
                &&& relay.appchain_states.spec_len() == 0
                &&& relay.bridge_tokens.spec_len() == 0
                &&& relay.bridge_symbol_to_token.spec_len() == 0
                &&& relay.appchain_native_tokens.spec_len() == 0
            },
    {
        if state_exists {
            return Err(RelayError::AlreadyInitialized);
        }
        if ctx.predecessor_account_id != ctx.current_account_id {
            return Err(RelayError::NotSelf);
        }
        let relay = OctopusRelay {
            version: 0,
            token_contract_id,
            total_staked_balance: 0,
            appchain_minimum_validators,
            minimum_staking_amount,
            appchain_id_list: Vec::new(),
            appchain_data_fact_sets_len: StrMap::new(),
            owner: ctx.current_account_id.clone(),
            bridge_limit_ratio,
            oct_token_price,
            appchain_metadatas: StrMap::new(),
            appchain_states: StrMap::new(),
            bridge_tokens: StrMap::new(),
            bridge_symbol_to_token: StrMap::new(),
            appchain_native_tokens: StrMap::new(),
        };
        assert(relay.appchain_states.spec_entries() =~= Seq::<(Seq<char>, AppchainState)>::empty());
        assert(states_stake(relay.appchain_states.spec_entries()) == 0);
        Ok(relay)
    }

    /// Version of the contract state.
    pub fn get_version(&self) -> (r: u32)
        ensures
            r == self.version,
    {
        self.version
    }

    /// Number of validators an appchain needs to be activated.
    pub fn get_appchain_minimum_validators(&self) -> (r: u32)
        ensures
            r == self.appchain_minimum_validators,
    {
        self.appchain_minimum_validators
    }

    /// Returns the total staking balance.
    pub fn get_total_staked_balance(&self) -> (r: u128)
        ensures
            r == self.total_staked_balance,
    {
        self.total_staked_balance
    }

    /// Smallest amount a validator may stake.
    pub fn get_minimum_staking_amount(&self) -> (r: u128)
        ensures
            r == self.minimum_staking_amount,
    {
        self.minimum_staking_amount
    }

    /// Number of registered appchains (its lower 32 bits).
    pub fn get_num_appchains(&self) -> (r: u32)
        ensures
            r == self.appchain_metadatas.spec_len() as u32,
    {
        self.appchain_metadatas.len() as u32
    }

    /// Position of an appchain's state, refused when the appchain is not registered.
    fn find_state(&self, appchain_id: &AppchainId) -> (r: Result<usize, RelayError>)
        requires
            self.wf(),
        ensures
            r is Err <==> !self.appchain_states.spec_contains(appchain_id@),
            r is Err ==> r == Err::<usize, RelayError>(RelayError::AppchainNotFound),
            r matches Ok(i) ==> i < self.appchain_states.spec_len()
                && self.appchain_states.spec_entries()[i as int].0 == appchain_id@
                && self.state_of(appchain_id@) == Some(self.appchain_states.spec_entries()[i as int].1),
    {
        match self.appchain_states.find(appchain_id) {
            Some(i) => {
                proof {
                    lemma_key_index(self.appchain_states.spec_entries(), i as int);
                }
                Ok(i)
            },
            None => Err(RelayError::AppchainNotFound),
        }
    }

    /// Position of an appchain's metadata, refused when the appchain is not registered.
    fn find_metadata(&self, appchain_id: &AppchainId) -> (r: Result<usize, RelayError>)
        requires
            self.wf(),
        ensures
            r is Err <==> !self.appchain_states.spec_contains(appchain_id@),
            r is Err ==> r == Err::<usize, RelayError>(RelayError::AppchainNotFound),
            r matches Ok(i) ==> i < self.appchain_metadatas.spec_len()
                && self.appchain_metadatas.spec_entries()[i as int].0 == appchain_id@
                && self.metadata_of(appchain_id@) == Some(self.appchain_metadatas.spec_entries()[i as int].1),
    {
        assert(self.appchain_metadatas.spec_contains(appchain_id@) == self.appchain_states.spec_contains(appchain_id@));
        match self.appchain_metadatas.find(appchain_id) {
            Some(i) => {
                proof {
                    lemma_key_index(self.appchain_metadatas.spec_entries(), i as int);
                }
                Ok(i)
            },
            None => Err(RelayError::AppchainNotFound),
        }
    }
}

/// The metadata of an appchain just registered with the given data.
pub open spec fn is_registered_metadata(
    m: AppchainMetadata,
    appchain_id: AppchainId,
    founder_id: AccountId,
    website_url: String,
    github_address: String,
    github_release: String,
    commit_id: String,
    email: String,
    bond_tokens: u128,
    block_height: BlockHeight,
) -> bool {
    &&& m.id == appchain_id
    &&& m.founder_id == founder_id
    &&& m.website_url == website_url
    &&& m.github_address == github_address
    &&& m.github_release == github_release
    &&& m.commit_id == commit_id
    &&& m.email == email
    &&& m.chain_spec_url@ == Seq::<char>::empty()
    &&& m.chain_spec_hash@ == Seq::<char>::empty()
    &&& m.chain_spec_raw_url@ == Seq::<char>::empty()
    &&& m.chain_spec_raw_hash@ == Seq::<char>::empty()
    &&& m.boot_nodes@ == Seq::<char>::empty()
    &&& m.rpc_endpoint@ == Seq::<char>::empty()
    &&& m.bond_tokens == bond_tokens
    &&& m.block_height == block_height
    &&& m.subql_url@ == Seq::<char>::empty()
}

/// Replacing one appchain state by another that is fine keeps the states fine and changes
/// their total stake by the difference.
pub proof fn lemma_state_update(s: Seq<(Seq<char>, AppchainState)>, i: int, st: AppchainState)
    requires
        distinct_keys(s),
        0 <= i < s.len(),
        forall|j: int| 0 <= j < s.len() ==> state_ok(#[trigger] s[j]),
        state_ok((s[i].0, st)),
    ensures
        distinct_keys(s.update(i, (s[i].0, st))),
        forall|j: int| 0 <= j < s.len() ==> state_ok(#[trigger] s.update(i, (s[i].0, st))[j]),
        states_stake(s.update(i, (s[i].0, st))) == states_stake(s) - s[i].1.staked_balance + st.staked_balance,
        forall|k: Seq<char>| has_key(s.update(i, (s[i].0, st)), k) == has_key(s, k),
        lookup(s.update(i, (s[i].0, st)), s[i].0) == Some(st),
        forall|k: Seq<char>| k != s[i].0 ==> lookup(s.update(i, (s[i].0, st)), k) == lookup(s, k),
{
    lemma_update_value(s, i, st);
    crate::str_map::lemma_inserted(s, s[i].0, st);
    lemma_sum_update(s, i, (s[i].0, st), |e: (Seq<char>, AppchainState)| state_stake(e));
    let t = s.update(i, (s[i].0, st));
    assert forall|j: int| 0 <= j < s.len() implies state_ok(#[trigger] t[j]) by {
        if j != i {
            assert(t[j] == s[j]);
        }
    }
}

impl OctopusRelay {
    /// `next` and `r` are what registering the appchain `appchain_id` gives: refused when it is
    /// registered, else it is added with the given information, in auditing.
    pub open spec fn registers_into(
        &self,
        next: &Self,
        ctx: &Context,
        appchain_id: String,
        website_url: String,
        github_address: String,
        github_release: String,
        commit_id: String,
        email: String,
        bond_tokens: u128,
        r: Result<(), RelayError>,
    ) -> bool {
        &&& (r is Err <==> self.appchain_states.spec_contains(appchain_id@))
        &&& (r is Err ==> r == Err::<(), RelayError>(RelayError::AppchainAlreadyRegistered) && *next == *self)
        &&& (r is Ok ==> {
            &&& next.appchain_id_list@ == self.appchain_id_list@.push(appchain_id)
            &&& next.appchain_data_fact_sets_len.spec_entries() == inserted(
                self.appchain_data_fact_sets_len.spec_entries(),
                appchain_id@,
                0,
            )
            &&& next.appchain_metadatas.spec_len() == self.appchain_metadatas.spec_len() + 1
            &&& next.appchain_metadatas.spec_entries().drop_last() == self.appchain_metadatas.spec_entries()
            &&& next.appchain_metadatas.spec_entries().last().0 == appchain_id@
            &&& is_registered_metadata(
                next.appchain_metadatas.spec_entries().last().1,
                appchain_id,
                ctx.signer_account_id,
                website_url,
                github_address,
                github_release,
                commit_id,
                email,
                bond_tokens,
                ctx.block_index,
            )
            &&& next.appchain_states.spec_len() == self.appchain_states.spec_len() + 1
            &&& next.appchain_states.spec_entries().drop_last() == self.appchain_states.spec_entries()
            &&& next.appchain_states.spec_entries().last().0 == appchain_id@
            &&& next.appchain_states.spec_entries().last().1.is_initial(appchain_id)
            &&& next.total_staked_balance == self.total_staked_balance
            &&& self.same_settings(next)
            &&& self.same_bridges(next)
        })
    }

    /// Register an appchain founded by the signer with a bond of OCT tokens, at the current block.
    ///
    /// Refused when the appchain id is registered already.
    pub fn register_appchain(
        &mut self,
        ctx: &Context,
        appchain_id: String,
        website_url: String,
        github_address: String,
        github_release: String,
        commit_id: String,
        email: String,
        bond_tokens: u128,
    ) -> (r: Result<(), RelayError>)
        requires
            old(self).wf(),
        ensures
            old(self).stake_balanced() ==> final(self).stake_balanced(),
            final(self).wf(),
            old(self).registers_into(&*final(self), ctx, appchain_id, website_url, github_address, github_release, commit_id, email, bond_tokens, r),
    {
        let founder_id = ctx.signer_account_id.clone();
        if self.appchain_metadatas.contains_key(&appchain_id) {
            return Err(RelayError::AppchainAlreadyRegistered);
        }
        let ghost id = appchain_id@;
        let ghost old_states = self.appchain_states.spec_entries();
        let ghost old_metas = self.appchain_metadatas.spec_entries();
        self.appchain_id_list.push(appchain_id.clone());
        self.appchain_data_fact_sets_len.insert(appchain_id.clone(), 0);
        let metadata = AppchainMetadata::new(
            appchain_id.clone(),
            founder_id,
            website_url,
            github_address,
            github_release,
            commit_id,
            email,
            bond_tokens,
            ctx.block_index,
        );
        let ghost m = metadata;
        self.appchain_metadatas.insert(appchain_id.clone(), metadata);
        let state = AppchainState::new(&appchain_id);
        let ghost st = state;
        assert(validators_stake(st.vals()) == 0);
        self.appchain_states.insert(appchain_id, state);
        proof {
            crate::str_map::lemma_inserted(old_states, id, st);
            crate::str_map::lemma_inserted(old_metas, id, m);
            assert(!has_key(old_states, id));
            assert(!has_key(old_metas, id));
            let ns = self.appchain_states.spec_entries();
            let nm = self.appchain_metadatas.spec_entries();
            assert(ns == old_states.push((id, st)));
            assert(nm == old_metas.push((id, m)));
            assert(ns.drop_last() =~= old_states);
            assert(nm.drop_last() =~= old_metas);
            lemma_sum_push(old_states, (id, st), |e: (Seq<char>, AppchainState)| state_stake(e));
            assert forall|i: int| 0 <= i < ns.len() implies state_ok(#[trigger] ns[i]) by {
                if i < old_states.len() {
                    assert(ns[i] == old_states[i]);
                }
            }
            assert forall|i: int| 0 <= i < nm.len() implies metadata_ok(#[trigger] nm[i]) by {
                if i < old_metas.len() {
                    assert(nm[i] == old_metas[i]);
                }
            }
            assert forall|k: Seq<char>| #[trigger] self.appchain_metadatas.spec_contains(k)
                == self.appchain_states.spec_contains(k) by {
                assert(old(self).appchain_metadatas.spec_contains(k) == old(self).appchain_states.spec_contains(k));
            }
        }
        Ok(())
    }
}

/// The validators of an appchain as shown to users: every stored validator, in order.
pub open spec fn validator_list(vals: ValidatorViewEntries) -> Seq<ValidatorView> {
    present(vals).map_values(|v: AppchainValidatorView| v.validator_view())
}

/// Views of a list of validators.
pub open spec fn validator_views(v: Seq<Validator>) -> Seq<ValidatorView> {
    v.map_values(|x: Validator| x@)
}

/// `a` describes the appchain `appchain_id` with metadata `m`, state `st` and
/// `fact_sets_len` fact sets.
pub open spec fn describes_appchain(
    a: Appchain,
    appchain_id: AppchainId,
    m: AppchainMetadata,
    st: AppchainState,
    fact_sets_len: SeqNum,
) -> bool {
    &&& a.id == appchain_id
    &&& a.founder_id == m.founder_id
    &&& a.website_url == m.website_url
    &&& a.github_address == m.github_address
    &&& a.github_release == m.github_release
    &&& a.commit_id == m.commit_id
    &&& a.email == m.email
    &&& a.chain_spec_url == m.chain_spec_url
    &&& a.chain_spec_hash == m.chain_spec_hash
    &&& a.chain_spec_raw_url == m.chain_spec_raw_url
    &&& a.chain_spec_raw_hash == m.chain_spec_raw_hash
    &&& a.boot_nodes == m.boot_nodes
    &&& a.rpc_endpoint == m.rpc_endpoint
    &&& a.bond_tokens == m.bond_tokens
    &&& validator_views(a.validators@) == validator_list(st.vals())
    &&& a.validators_timestamp == st.validators_timestamp
    &&& a.status == st.status
    &&& a.block_height == m.block_height
    &&& a.staked_balance == st.staked_balance
    &&& a.subql_url == m.subql_url
    &&& a.fact_sets_len == fact_sets_len
    &&& a.validator_sets_len == st.currently_valid_validators_nonce
}

/// The validators of a state as shown to users.
fn validators_of(st: &AppchainState) -> (r: Vec<Validator>)
    requires
        st.wf(),
    ensures
        validator_views(r@) == validator_list(st.vals()),
{
    let n = st.validators.len();
    let mut r: Vec<Validator> = Vec::new();
    let mut i: usize = 0;
    while i < n
        invariant
            n == st.validators.spec_len(),
            i <= n,
            st.wf(),
            validator_views(r@) == validator_list(st.vals().subrange(0, i as int)),
        decreases n - i,
    {
        proof {
            crate::appchain::state::lemma_present_prefix(st.vals(), i + 1);
        }
        let ghost rb = r@;
        match st.validators.value_at(i) {
            Some(v) => {
                assert(crate::appchain::state::validator_entry_ok(st.vals()[i as int]));
                let x = v.to_validator();
                r.push(x);
                assert(validator_views(r@) =~= validator_views(rb).push(x@));
                assert(validator_list(st.vals().subrange(0, i + 1))
                    =~= validator_list(st.vals().subrange(0, i as int)).push(v@.validator_view()));
            },
            None => {},
        }
        i = i + 1;
    }
    assert(st.vals().subrange(0, n as int) =~= st.vals());
    r
}

impl OctopusRelay {
    /// Number of fact sets recorded for an appchain.
    pub open spec fn fact_sets_len_of(&self, appchain_id: Seq<char>) -> SeqNum {
        match self.appchain_data_fact_sets_len.spec_get(appchain_id) {
            Some(n) => n,
            None => 0,
        }
    }

    /// Everything known of an appchain; refused when it is not registered.
    pub fn get_appchain(&self, appchain_id: AppchainId) -> (r: Result<Option<Appchain>, RelayError>)
        requires
            self.wf(),
        ensures
            r is Err <==> !self.appchain_states.spec_contains(appchain_id@),
            r is Err ==> r == Err::<Option<Appchain>, RelayError>(RelayError::AppchainNotFound),
            r matches Ok(a) ==> a matches Some(a) && describes_appchain(
                a,
                appchain_id,
                self.metadata_of(appchain_id@).unwrap(),
                self.state_of(appchain_id@).unwrap(),
                self.fact_sets_len_of(appchain_id@),
            ),
    {
        let mi = self.find_metadata(&appchain_id)?;
        let si = self.find_state(&appchain_id)?;
        let m = self.appchain_metadatas.value_at(mi);
        let st = self.appchain_states.value_at(si);
        assert(state_ok(self.appchain_states.spec_entries()[si as int]));
        let fact_sets_len = match self.appchain_data_fact_sets_len.get(&appchain_id) {
            Some(n) => *n,
            None => 0,
        };
        Ok(Some(
            Appchain {
                id: appchain_id.clone(),
                founder_id: m.founder_id.clone(),
                website_url: m.website_url.clone(),
                github_address: m.github_address.clone(),
                github_release: m.github_release.clone(),
                commit_id: m.commit_id.clone(),
                email: m.email.clone(),
                chain_spec_url: m.chain_spec_url.clone(),
                chain_spec_hash: m.chain_spec_hash.clone(),
                chain_spec_raw_url: m.chain_spec_raw_url.clone(),
                chain_spec_raw_hash: m.chain_spec_raw_hash.clone(),
                boot_nodes: m.boot_nodes.clone(),
                rpc_endpoint: m.rpc_endpoint.clone(),
                bond_tokens: m.bond_tokens,
                validators: validators_of(st),
                validators_timestamp: st.validators_timestamp,
                status: st.status,
                block_height: m.block_height,
                staked_balance: st.staked_balance,
                subql_url: m.subql_url.clone(),
                fact_sets_len,
                validator_sets_len: st.currently_valid_validators_nonce,
            },
        ))
    }

    /// The validators of an appchain; refused when it is not registered.
    pub fn get_validators(&self, appchain_id: AppchainId) -> (r: Result<Option<Vec<Validator>>, RelayError>)
        requires
            self.wf(),
        ensures
            r is Err <==> !self.appchain_states.spec_contains(appchain_id@),
            r is Err ==> r == Err::<Option<Vec<Validator>>, RelayError>(RelayError::AppchainNotFound),
            r matches Ok(v) ==> v matches Some(v) && validator_views(v@) == validator_list(
                self.state_of(appchain_id@).unwrap().vals(),
            ),
    {
        let si = self.find_state(&appchain_id)?;
        let st = self.appchain_states.value_at(si);
        assert(state_ok(self.appchain_states.spec_entries()[si as int]));
        Ok(Some(validators_of(st)))
    }

    /// The validator set of the next epoch of an appchain: while it boots, its current
    /// validators sorted by id; nothing when it does not or is not registered.
    pub fn next_validator_set(&self, appchain_id: AppchainId, boot_time: bool) -> (r: Option<ValidatorSet>)
        requires
            self.wf(),
        ensures
            r is Some <==> (self.state_of(appchain_id@) matches Some(st) && st.status == AppchainStatus::Booting),
            r matches Some(s) ==> self.state_of(appchain_id@).unwrap().is_latest_validator_set(s@),
    {
        match self.find_state(&appchain_id) {
            Ok(si) => {
                assert(state_ok(self.appchain_states.spec_entries()[si as int]));
                self.appchain_states.value_at(si).get_next_validator_set()
            },
            Err(_) => None,
        }
    }

    /// A validator of an appchain; nothing when either is unknown.
    pub fn get_validator(&self, appchain_id: AppchainId, validator_id: ValidatorId) -> (r: Option<Validator>)
        requires
            self.wf(),
        ensures
            match r {
                Some(v) => self.state_of(appchain_id@) matches Some(st) && lookup(st.vals(), validator_id@)
                    matches Some(Some(x)) && v@ == x.validator_view(),
                None => !(self.state_of(appchain_id@) matches Some(st) && lookup(st.vals(), validator_id@)
                    matches Some(Some(x))),
            },
    {
        match self.find_state(&appchain_id) {
            Ok(si) => {
                let st = self.appchain_states.value_at(si);
                assert(state_ok(self.appchain_states.spec_entries()[si as int]));
                match st.get_validator(&validator_id) {
                    Some(v) => {
                        proof {
                            let vals = st.vals();
                            let j = key_index(vals, validator_id@);
                            lemma_key_index(vals, j);
                            assert(crate::appchain::state::validator_entry_ok(vals[j]));
                        }
                        Some(v.to_validator())
                    },
                    None => None,
                }
            },
            Err(_) => None,
        }
    }

    /// A delegator of a validator of an appchain; nothing when any of them is unknown.
    pub fn get_delegator(
        &self,
        appchain_id: AppchainId,
        validator_id: ValidatorId,
        delegator_id: DelegatorId,
    ) -> (r: Option<Delegator>)
        requires
            self.wf(),
        ensures
            match r {
                Some(d) => self.state_of(appchain_id@) matches Some(st) && lookup(st.vals(), validator_id@)
                    matches Some(Some(x)) && lookup(x.delegators, delegator_id@) matches Some(Some(y))
                    && d == delegator_of(y),
                None => !(self.state_of(appchain_id@) matches Some(st) && lookup(st.vals(), validator_id@)
                    matches Some(Some(x)) && lookup(x.delegators, delegator_id@) matches Some(Some(y))),
            },
    {
        match self.find_state(&appchain_id) {
            Ok(si) => {
                let st = self.appchain_states.value_at(si);
                assert(state_ok(self.appchain_states.spec_entries()[si as int]));
                match st.get_validator(&validator_id) {
                    Some(v) => {
                        proof {
                            let vals = st.vals();
                            let j = key_index(vals, validator_id@);
                            lemma_key_index(vals, j);
                            assert(crate::appchain::state::validator_entry_ok(vals[j]));
                        }
                        match v.get_delegator(&delegator_id) {
                            Some(d) => Some(d.to_delegator()),
                            None => None,
                        }
                    },
                    None => None,
                }
            },
            Err(_) => None,
        }
    }

    /// Nonce of the currently valid validator set of an appchain; refused when it is not registered.
    pub fn get_curr_validator_set_len(&self, appchain_id: AppchainId) -> (r: Result<u32, RelayError>)
        requires
            self.wf(),
        ensures
            r is Err <==> !self.appchain_states.spec_contains(appchain_id@),
            r is Err ==> r == Err::<u32, RelayError>(RelayError::AppchainNotFound),
            r matches Ok(n) ==> n == self.state_of(appchain_id@).unwrap().currently_valid_validators_nonce,
    {
        let si = self.find_state(&appchain_id)?;
        Ok(self.appchain_states.value_at(si).currently_valid_validators_nonce)
    }

    /// The validator set of the current epoch of a booting appchain: the last one among its
    /// facts; nothing otherwise.
    pub fn get_validator_set(&self, appchain_id: AppchainId) -> (r: Option<ValidatorSet>)
        requires
            self.wf(),
        ensures
            match r {
                Some(s) => self.state_of(appchain_id@) matches Some(st) && st.status == AppchainStatus::Booting
                    && crate::appchain::state::last_validator_set(st.fact_list()) == Some(s@),
                None => !(self.state_of(appchain_id@) matches Some(st) && st.status == AppchainStatus::Booting
                    && crate::appchain::state::last_validator_set(st.fact_list()) is Some),
            },
    {
        match self.find_state(&appchain_id) {
            Ok(si) => self.appchain_states.value_at(si).get_current_validator_set(),
            Err(_) => None,
        }
    }

    /// The first validator set among the facts of an appchain with the given set id;
    /// refused when the appchain is not registered.
    pub fn get_validator_set_by_set_id(&self, appchain_id: AppchainId, set_id: u32) -> (r: Result<Option<ValidatorSet>, RelayError>)
        requires
            self.wf(),
        ensures
            r is Err <==> !self.appchain_states.spec_contains(appchain_id@),
            r is Err ==> r == Err::<Option<ValidatorSet>, RelayError>(RelayError::AppchainNotFound),
            r matches Ok(o) ==> match o {
                Some(s) => crate::appchain::state::first_set_with_id(self.state_of(appchain_id@).unwrap().fact_list(), set_id) == Some(s@),
                None => crate::appchain::state::first_set_with_id(self.state_of(appchain_id@).unwrap().fact_list(), set_id) is None,
            },
    {
        let si = self.find_state(&appchain_id)?;
        Ok(self.appchain_states.value_at(si).get_validators_history_by_nonce(set_id))
    }
}

impl OctopusRelay {
    /// End of the range of appchains listed from `from_index`, at most `limit` of them.
    pub open spec fn list_end(&self, from_index: u32, limit: u32) -> int {
        vstd::math::min(from_index + limit, (self.appchain_id_list@.len() as u32) as int)
    }

    /// Every appchain listed in `[from, end)` is registered.
    pub open spec fn listed_registered(&self, from: int, end: int) -> bool {
        forall|j: int| from <= j < end ==> #[trigger] self.appchain_states.spec_contains(self.appchain_id_list@[j]@)
    }

    /// The appchains listed from `from_index` on, at most `limit` of them.
    ///
    /// Refused when `from_index + limit` exceeds `u32`, and when a listed appchain was removed.
    pub fn get_appchains(&self, from_index: u32, limit: u32) -> (r: Result<Vec<Appchain>, RelayError>)
        requires
            self.wf(),
        ensures
            from_index + limit > u32::MAX ==> r == Err::<Vec<Appchain>, RelayError>(RelayError::ArithmeticOverflow),
            from_index + limit <= u32::MAX ==> match r {
                Ok(v) => {
                    &&& self.listed_registered(from_index as int, self.list_end(from_index, limit))
                    &&& v@.len() == (if from_index < self.list_end(from_index, limit) {
                        self.list_end(from_index, limit) - from_index
                    } else {
                        0
                    })
                    &&& forall|j: int| 0 <= j < v@.len() ==> {
                        let id = self.appchain_id_list@[from_index + j];
                        describes_appchain(
                            #[trigger] v@[j],
                            id,
                            self.metadata_of(id@).unwrap(),
                            self.state_of(id@).unwrap(),
                            self.fact_sets_len_of(id@),
                        )
                    }
                },
                Err(e) => e == RelayError::AppchainNotFound
                    && !self.listed_registered(from_index as int, self.list_end(from_index, limit)),
            },
    {
        if limit > 0xffff_ffff - from_index {
            return Err(RelayError::ArithmeticOverflow);
        }
        let len = self.appchain_id_list.len() as u32;
        let end = if from_index + limit < len {
            from_index + limit
        } else {
            len
        };
        assert(end as int == self.list_end(from_index, limit));
        let mut r: Vec<Appchain> = Vec::new();
        let mut index = from_index;
        while index < end
            invariant
                self.wf(),
                from_index + limit <= u32::MAX,
                from_index <= index,
                index <= end || index == from_index,
                end as int == self.list_end(from_index, limit),
                end <= self.appchain_id_list@.len(),
                r@.len() == index - from_index,
                self.listed_registered(from_index as int, index as int),
                forall|j: int| 0 <= j < r@.len() ==> {
                    let id = self.appchain_id_list@[from_index + j];
                    describes_appchain(
                        #[trigger] r@[j],
                        id,
                        self.metadata_of(id@).unwrap(),
                        self.state_of(id@).unwrap(),
                        self.fact_sets_len_of(id@),
                    )
                },
            decreases end - index,
        {
            let appchain_id = self.appchain_id_list[index as usize].clone();
            match self.get_appchain(appchain_id) {
                Ok(Some(a)) => {
                    r.push(a);
                },
                _ => {
                    return Err(RelayError::AppchainNotFound);
                },
            }
            index = index + 1;
        }
        Ok(r)
    }
}

/// The first of the validators that the signer's account or the new validator id
/// conflicts with, by the error it gives.
pub open spec fn first_conflict(vs: Seq<ValidatorView>, signer: Seq<char>, validator_id: Seq<char>) -> Option<RelayError>
    decreases vs.len(),
{
    if vs.len() == 0 {
        None
    } else if vs[0].account_id@ == signer {
        Some(RelayError::AccountAlreadyStaked)
    } else if vs[0].id@ == validator_id {
        Some(RelayError::ValidatorAlreadyStaked)
    } else {
        first_conflict(vs.drop_first(), signer, validator_id)
    }
}

/// The id a validator stakes under: a hex address of 32 bytes with a `0x` prefix, and any
/// other id as it is.
pub open spec fn validator_id_of(id: Seq<char>) -> Seq<char> {
    if crate::hex_address::cut_after_two_bytes(id) && crate::hex_address::validated_address(id) is Ok {
        crate::hex_address::validated_address(id)->Ok_0
    } else {
        id
    }
}

/// `st2` is `st` after `amount` was staked to the validator `validator_id` by `signer`.
pub open spec fn staked_state(
    st: AppchainState,
    st2: AppchainState,
    validator_id: Seq<char>,
    signer: AccountId,
    amount: u128,
    block_index: u64,
    block_timestamp: u64,
) -> bool {
    &&& exists|vid: ValidatorId| vid@ == validator_id && #[trigger] staked_vals(st.vals(), vid, signer, amount, block_index) == st2.vals()
    &&& st2.staked_balance == st.staked_balance + amount
    &&& st2.validators_timestamp == block_timestamp
    &&& st2.same_except_validators(&st)
    &&& st2.validators_nonce == st.validators_nonce + 1
    &&& st.status == AppchainStatus::Staging ==> st2.facts@ == st.facts@
    &&& st.status == AppchainStatus::Booting ==> crate::appchain::state::appended_set(st.fact_list(), st2.fact_list(), (st.validators_nonce + 1) as u32, st2.vals())
}

/// The validator ids of present records are not their keys when no present record has the id.
proof fn lemma_no_conflict_absent(vals: ValidatorViewEntries, vid: Seq<char>, signer: Seq<char>)
    requires
        crate::appchain::state::validator_entries_ok(vals),
        forall|j: int| 0 <= j < vals.len() ==> (#[trigger] vals[j]).1 is Some,
        first_conflict(validator_list(vals), signer, vid) is None,
    ensures
        lookup(vals, vid) is None,
{
    lemma_no_conflict_ids(validator_list(vals), signer, vid);
    if has_key(vals, vid) {
        let j = key_index(vals, vid);
        lemma_present_all(vals);
        assert(present(vals)[j] == vals[j].1.unwrap());
        assert(validator_list(vals)[j].id@ == vid);
    }
}

/// With no conflict, no validator has the id.
proof fn lemma_no_conflict_ids(vs: Seq<ValidatorView>, signer: Seq<char>, vid: Seq<char>)
    requires
        first_conflict(vs, signer, vid) is None,
    ensures
        forall|j: int| 0 <= j < vs.len() ==> (#[trigger] vs[j]).id@ != vid && vs[j].account_id@ != signer,
    decreases vs.len(),
{
    if vs.len() > 0 {
        lemma_no_conflict_ids(vs.drop_first(), signer, vid);
        assert forall|j: int| 0 <= j < vs.len() implies (#[trigger] vs[j]).id@ != vid && vs[j].account_id@ != signer by {
            if j > 0 {
                assert(vs[j] == vs.drop_first()[j - 1]);
            }
        }
    }
}

/// When every record is stored, the stored records are all the values, in order.
proof fn lemma_present_all(vals: ValidatorViewEntries)
    requires
        forall|j: int| 0 <= j < vals.len() ==> (#[trigger] vals[j]).1 is Some,
    ensures
        present(vals).len() == vals.len(),
        forall|j: int| 0 <= j < vals.len() ==> present(vals)[j] == (#[trigger] vals[j]).1.unwrap(),
    decreases vals.len(),
{
    if vals.len() > 0 {
        let d = vals.drop_last();
        assert forall|j: int| 0 <= j < d.len() implies (#[trigger] d[j]).1 is Some by {
            assert(d[j] == vals[j]);
        }
        lemma_present_all(d);
        assert forall|j: int| 0 <= j < vals.len() implies present(vals)[j] == (#[trigger] vals[j]).1.unwrap() by {
            if j < d.len() {
                assert(d[j] == vals[j]);
            }
        }
    }
}

impl OctopusRelay {
    /// The appchain is registered and staging or booting.
    pub open spec fn spec_in_staking_period(&self, appchain_id: Seq<char>) -> bool {
        self.state_of(appchain_id) matches Some(st) && (st.status == AppchainStatus::Staging
            || st.status == AppchainStatus::Booting)
    }

    /// Whether the appchain is in its staking period (staging or booting);
    /// refused when it is not registered.
    pub fn in_staking_period(&self, appchain_id: &AppchainId) -> (r: Result<bool, RelayError>)
        requires
            self.wf(),
        ensures
            r is Err <==> !self.appchain_states.spec_contains(appchain_id@),
            r is Err ==> r == Err::<bool, RelayError>(RelayError::AppchainNotFound),
            r matches Ok(b) ==> b == self.spec_in_staking_period(appchain_id@),
    {
        let si = self.find_state(appchain_id)?;
        let status = self.appchain_states.value_at(si).status;
        Ok(status == AppchainStatus::Staging || status == AppchainStatus::Booting)
    }

    /// Validates a validator address of 32 bytes in hex and writes it with a `0x` prefix.
    pub fn validate_hex_address(&self, address: String) -> (r: Result<String, RelayError>)
        requires
            crate::hex_address::cut_after_two_bytes(address@),
        ensures
            match (r, crate::hex_address::validated_address(address@)) {
                (Ok(s), Ok(t)) => s@ == t,
                (Err(e), Err(f)) => e == f,
                _ => false,
            },
    {
        crate::hex_address::validate_hex_address(&address)
    }

    /// The id a validator stakes under: a hex address of 32 bytes with a `0x` prefix, and any
    /// other id as it is.
    fn validator_id_for(&self, id: String) -> (r: String)
        ensures
            r@ == validator_id_of(id@),
    {
        if crate::hex_address::can_cut_after_two_bytes(&id) {
            match self.validate_hex_address(id.clone()) {
                Ok(v) => v,
                Err(_) => id,
            }
        } else {
            id
        }
    }

    /// The outcome of staking `amount` to the validator `id` of an appchain, when refused.
    pub open spec fn stake_refusal(&self, ctx: &Context, appchain_id: Seq<char>, id: Seq<char>, amount: u128) -> Option<RelayError> {
        let vid = validator_id_of(id);
        if !self.appchain_states.spec_contains(appchain_id) {
                Some(RelayError::AppchainNotFound)
            } else if !self.spec_in_staking_period(appchain_id) {
                Some(RelayError::NotInStakingPeriod)
            } else if amount < self.minimum_staking_amount {
                Some(RelayError::InsufficientStakingAmount)
            } else if first_conflict(
                validator_list(self.state_of(appchain_id).unwrap().vals()),
                ctx.signer_account_id@,
                vid,
            ) is Some {
                first_conflict(validator_list(self.state_of(appchain_id).unwrap().vals()), ctx.signer_account_id@, vid)
            } else if self.total_staked_balance + amount > u128::MAX
                || self.state_of(appchain_id).unwrap().validators_nonce == u32::MAX {
                Some(RelayError::ArithmeticOverflow)
            } else {
                None
            }
    }

    /// `next` and `r` are what staking `amount` to the new validator `id` of `appchain_id` gives.
    pub open spec fn stakes_into(
        &self,
        next: &Self,
        ctx: &Context,
        appchain_id: AppchainId,
        id: String,
        amount: u128,
        r: Result<(), RelayError>,
    ) -> bool {
        &&& (match self.stake_refusal(ctx, appchain_id@, id@, amount) {
            Some(e) => r == Err::<(), RelayError>(e) && *next == *self,
            None => {
                &&& r is Ok
                &&& next.total_staked_balance == self.total_staked_balance + amount
                &&& next.appchain_states.spec_entries() == inserted(
                    self.appchain_states.spec_entries(),
                    appchain_id@,
                    next.state_of(appchain_id@).unwrap(),
                )
                &&& staked_state(
                    self.state_of(appchain_id@).unwrap(),
                    next.state_of(appchain_id@).unwrap(),
                    validator_id_of(id@),
                    ctx.signer_account_id,
                    amount,
                    ctx.block_index,
                    ctx.block_timestamp,
                )
                &&& self.same_settings(next)
                &&& self.same_bridges(next)
                &&& self.same_registry(next)
            },
        })
    }

    /// Stake `amount` of OCT tokens, sent by the signer, to a new validator `id` of an appchain.
    /// An id that is a hex address of 32 bytes is kept with a `0x` prefix; any other id is kept
    /// as it is.
    ///
    /// Refused for an unknown appchain or one not in its staking period, an amount below the
    /// minimum, a signer or validator that stakes on the appchain already, and a stake or
    /// validators nonce that would overflow.
    pub fn stake(&mut self, ctx: &Context, appchain_id: AppchainId, id: String, amount: u128) -> (r: Result<(), RelayError>)
        requires
            old(self).wf(),
        ensures
            old(self).stake_balanced() ==> final(self).stake_balanced(),
            final(self).wf(),
            old(self).stakes_into(&*final(self), ctx, appchain_id, id, amount, r),
    {
        let validator_id = self.validator_id_for(id);
        if !self.in_staking_period(&appchain_id)? {
            return Err(RelayError::NotInStakingPeriod);
        }
        let account_id = ctx.signer_account_id.clone();
        if amount < self.minimum_staking_amount {
            return Err(RelayError::InsufficientStakingAmount);
        }
        let si = self.find_state(&appchain_id)?;
        let ghost st = self.appchain_states.spec_entries()[si as int].1;
        assert(state_ok(self.appchain_states.spec_entries()[si as int]));
        let validators = validators_of(self.appchain_states.value_at(si));
        let n = validators.len();
        let mut i: usize = 0;
        proof {
            assert(validator_views(validators@).skip(0) =~= validator_views(validators@));
        }
        let mut conflict: Option<RelayError> = None;
        while i < n && conflict.is_none()
            invariant
                n == validators@.len(),
                i <= n,
                conflict is None ==> first_conflict(validator_views(validators@), account_id@, validator_id@)
                    == first_conflict(validator_views(validators@).skip(i as int), account_id@, validator_id@),
                conflict is Some ==> first_conflict(validator_views(validators@), account_id@, validator_id@) == conflict,
            decreases n - i,
        {
            assert(validator_views(validators@).skip(i as int).drop_first() =~= validator_views(validators@).skip(i + 1));
            assert(validator_views(validators@).skip(i as int)[0] == validators@[i as int]@);
            if validators[i].account_id == account_id {
                conflict = Some(RelayError::AccountAlreadyStaked);
            } else if validators[i].id == validator_id {
                conflict = Some(RelayError::ValidatorAlreadyStaked);
            }
            i = i + 1;
        }
        if let Some(e) = conflict {
            return Err(e);
        }
        let nonce = self.appchain_states.value_at(si).validators_nonce;
        if amount > u128::MAX - self.total_staked_balance || nonce == u32::MAX {
            return Err(RelayError::ArithmeticOverflow);
        }
        proof {
            lemma_no_conflict_absent(st.vals(), validator_id@, account_id@);
            crate::sums::lemma_sum_bounds(
                self.appchain_states.spec_entries(),
                |e: (Seq<char>, AppchainState)| state_stake(e),
            );
            assert(state_stake(self.appchain_states.spec_entries()[si as int]) <= states_stake(self.appchain_states.spec_entries()));
        }
        let ghost old_entries = self.appchain_states.spec_entries();
        let state = self.appchain_states.value_mut_at(si);
        let taken = state.stake(&validator_id, amount, &account_id, ctx.block_index, ctx.block_timestamp);
        assert(taken);
        proof {
            let st2 = self.appchain_states.spec_entries()[si as int].1;
            assert(st2.vals() == staked_vals(st.vals(), validator_id, account_id, amount, ctx.block_index));
            crate::appchain::state::lemma_staked_vals_all_present(st.vals(), validator_id, account_id, amount, ctx.block_index);
            lemma_state_update(old_entries, si as int, st2);
            lemma_key_index(old_entries, si as int);
            lemma_update_value(old_entries, si as int, st2);
            assert(staked_vals(st.vals(), validator_id, account_id, amount, ctx.block_index) == st2.vals());
        }
        self.total_staked_balance = self.total_staked_balance + amount;
        proof {
            assert forall|k: Seq<char>| #[trigger] self.appchain_metadatas.spec_contains(k)
                == self.appchain_states.spec_contains(k) by {
                assert(old(self).appchain_metadatas.spec_contains(k) == old(self).appchain_states.spec_contains(k));
            }
        }
        Ok(())
    }
}

/// The first validator staked by `account`.
pub open spec fn first_with_account(vs: Seq<ValidatorView>, account: Seq<char>) -> Option<ValidatorView>
    decreases vs.len(),
{
    if vs.len() == 0 {
        None
    } else if vs[0].account_id@ == account {
        Some(vs[0])
    } else {
        first_with_account(vs.drop_first(), account)
    }
}

/// Sending back the stake of a validator, then removing it from the appchain.
pub open spec fn removal_promises(
    ctx: &Context,
    token_contract_id: AccountId,
    appchain_id: AppchainId,
    v: ValidatorView,
    validator_id: ValidatorId,
) -> Seq<PromiseAction> {
    seq![
        PromiseAction::Call {
            contract_id: token_contract_id,
            method: CallMethod::FtTransfer { receiver_id: v.account_id, amount: v.staked_amount },
            deposit: 1,
            gas: GAS_FOR_FT_TRANSFER_CALL,
        },
        PromiseAction::Call {
            contract_id: ctx.current_account_id,
            method: CallMethod::ResolveRemoveValidator { appchain_id, validator_id, amount: v.staked_amount },
            deposit: NO_DEPOSIT,
            gas: (ctx.prepaid_gas / 2) as u64,
        },
    ]
}

impl OctopusRelay {
    /// The outcome of staking more by the signer on an appchain, when refused.
    pub open spec fn stake_more_refusal(&self, ctx: &Context, appchain_id: Seq<char>, amount: u128) -> Option<RelayError> {
        if !self.appchain_states.spec_contains(appchain_id) {
            Some(RelayError::AppchainNotFound)
        } else if !self.spec_in_staking_period(appchain_id) {
            Some(RelayError::NotInStakingPeriod)
        } else if first_with_account(validator_list(self.state_of(appchain_id).unwrap().vals()), ctx.signer_account_id@) is None {
            Some(RelayError::NotStaking)
        } else if self.total_staked_balance + amount > u128::MAX
            || self.state_of(appchain_id).unwrap().validators_nonce == u32::MAX {
            Some(RelayError::ArithmeticOverflow)
        } else {
            None
        }
    }

    /// `next` and `r` are what staking `amount` more by the signer on `appchain_id` gives.
    pub open spec fn stakes_more_into(
        &self,
        next: &Self,
        ctx: &Context,
        appchain_id: AppchainId,
        amount: u128,
        r: Result<(), RelayError>,
    ) -> bool {
        &&& (match self.stake_more_refusal(ctx, appchain_id@, amount) {
            Some(e) => r == Err::<(), RelayError>(e) && *next == *self,
            None => {
                &&& r is Ok
                &&& next.total_staked_balance == self.total_staked_balance + amount
                &&& next.appchain_states.spec_entries() == inserted(
                    self.appchain_states.spec_entries(),
                    appchain_id@,
                    next.state_of(appchain_id@).unwrap(),
                )
                &&& staked_state(
                    self.state_of(appchain_id@).unwrap(),
                    next.state_of(appchain_id@).unwrap(),
                    first_with_account(validator_list(self.state_of(appchain_id@).unwrap().vals()), ctx.signer_account_id@)->Some_0.id@,
                    ctx.signer_account_id,
                    amount,
                    ctx.block_index,
                    ctx.block_timestamp,
                )
                &&& self.same_settings(next)
                &&& self.same_bridges(next)
                &&& self.same_registry(next)
            },
        })
    }

    /// Stake `amount` more of OCT tokens to the signer's own validator: the first validator of
    /// the appchain staked by the signer, whatever its id.
    ///
    /// Refused for an unknown appchain or one not in its staking period, when the signer stakes
    /// on no validator of the appchain, and for a stake or validators nonce that would overflow.
    pub fn stake_more(&mut self, ctx: &Context, appchain_id: AppchainId, amount: u128) -> (r: Result<(), RelayError>)
        requires
            old(self).wf(),
        ensures
            old(self).stake_balanced() ==> final(self).stake_balanced(),
            final(self).wf(),
            old(self).stakes_more_into(&*final(self), ctx, appchain_id, amount, r),
    {
        if !self.in_staking_period(&appchain_id)? {
            return Err(RelayError::NotInStakingPeriod);
        }
        let account_id = ctx.signer_account_id.clone();
        let si = self.find_state(&appchain_id)?;
        let ghost st = self.appchain_states.spec_entries()[si as int].1;
        assert(state_ok(self.appchain_states.spec_entries()[si as int]));
        let validators = validators_of(self.appchain_states.value_at(si));
        let n = validators.len();
        let mut i: usize = 0;
        let mut found: Option<usize> = None;
        proof {
            assert(validator_views(validators@).skip(0) =~= validator_views(validators@));
        }
        while i < n && found.is_none()
            invariant
                n == validators@.len(),
                i <= n,
                found is None ==> first_with_account(validator_views(validators@), account_id@)
                    == first_with_account(validator_views(validators@).skip(i as int), account_id@),
                found matches Some(j) ==> j < n && first_with_account(validator_views(validators@), account_id@)
                    == Some(validators@[j as int]@),
            decreases n - i,
        {
            assert(validator_views(validators@).skip(i as int).drop_first() =~= validator_views(validators@).skip(i + 1));
            assert(validator_views(validators@).skip(i as int)[0] == validators@[i as int]@);
            if validators[i].account_id == account_id {
                found = Some(i);
            }
            i = i + 1;
        }
        let j = match found {
            Some(j) => j,
            None => {
                assert(validator_views(validators@).skip(n as int) =~= Seq::<ValidatorView>::empty());
                return Err(RelayError::NotStaking);
            },
        };
        let validator_id = validators[j].id.clone();
        let nonce = self.appchain_states.value_at(si).validators_nonce;
        if amount > u128::MAX - self.total_staked_balance || nonce == u32::MAX {
            return Err(RelayError::ArithmeticOverflow);
        }
        proof {
            let vals = st.vals();
            if has_key(vals, validator_id@) {
                let k = key_index(vals, validator_id@);
                lemma_key_index(vals, k);
                assert(crate::appchain::state::validator_entry_ok(vals[k]));
                let v = vals[k].1.unwrap();
                crate::sums::lemma_sum_bounds(v.delegators, |e: (Seq<char>, Option<crate::appchain::delegator::AppchainDelegator>)| crate::appchain::validator::delegation_of(e));
                crate::appchain::state::lemma_stake_nonneg(vals);
                crate::sums::lemma_sum_bounds(vals, |e: (Seq<char>, Option<AppchainValidatorView>)| crate::appchain::state::stake_of(e));
                assert(crate::appchain::state::stake_of(vals[k]) <= validators_stake(vals));
            }
            crate::sums::lemma_sum_bounds(
                self.appchain_states.spec_entries(),
                |e: (Seq<char>, AppchainState)| state_stake(e),
            );
            assert(state_stake(self.appchain_states.spec_entries()[si as int]) <= states_stake(self.appchain_states.spec_entries()));
        }
        let ghost old_entries = self.appchain_states.spec_entries();
        let state = self.appchain_states.value_mut_at(si);
        let taken = state.stake(&validator_id, amount, &account_id, ctx.block_index, ctx.block_timestamp);
        assert(taken);
        proof {
            let st2 = self.appchain_states.spec_entries()[si as int].1;
            crate::appchain::state::lemma_staked_vals_all_present(st.vals(), validator_id, account_id, amount, ctx.block_index);
            lemma_state_update(old_entries, si as int, st2);
            lemma_key_index(old_entries, si as int);
            lemma_update_value(old_entries, si as int, st2);
            assert(staked_vals(st.vals(), validator_id, account_id, amount, ctx.block_index) == st2.vals());
        }
        self.total_staked_balance = self.total_staked_balance + amount;
        proof {
            assert forall|k: Seq<char>| #[trigger] self.appchain_metadatas.spec_contains(k)
                == self.appchain_states.spec_contains(k) by {
                assert(old(self).appchain_metadatas.spec_contains(k) == old(self).appchain_states.spec_contains(k));
            }
        }
        Ok(())
    }

    /// Remove a validator of an appchain: its stake goes back to its account, then the
    /// callback removes it. Only the owner may.
    ///
    /// Refused for a caller other than the owner, an unknown appchain or one not in its
    /// staking period, and an unknown validator.
    pub fn remove_validator(&self, ctx: &Context, appchain_id: AppchainId, validator_id: String) -> (r: Result<Vec<PromiseAction>, RelayError>)
        requires
            self.wf(),
        ensures
            ctx.predecessor_account_id@ != self.owner@ ==> r == Err::<Vec<PromiseAction>, RelayError>(RelayError::NotOwner),
            ctx.predecessor_account_id@ == self.owner@ ==> {
                if !self.appchain_states.spec_contains(appchain_id@) {
                    r == Err::<Vec<PromiseAction>, RelayError>(RelayError::AppchainNotFound)
                } else if !self.spec_in_staking_period(appchain_id@) {
                    r == Err::<Vec<PromiseAction>, RelayError>(RelayError::NotInStakingPeriod)
                } else {
                    match lookup(self.state_of(appchain_id@).unwrap().vals(), validator_id@) {
                        Some(Some(v)) => r matches Ok(p) && p@ == removal_promises(
                            ctx,
                            self.token_contract_id,
                            appchain_id,
                            v.validator_view(),
                            validator_id,
                        ),
                        _ => r == Err::<Vec<PromiseAction>, RelayError>(RelayError::ValidatorNotExists),
                    }
                }
            },
    {
        self.assert_owner(ctx)?;
        if !self.in_staking_period(&appchain_id)? {
            return Err(RelayError::NotInStakingPeriod);
        }
        let validator = match self.get_validator(appchain_id.clone(), validator_id.clone()) {
            Some(v) => v,
            None => {
                return Err(RelayError::ValidatorNotExists);
            },
        };
        let account_id = validator.account_id;
        let mut promises: Vec<PromiseAction> = Vec::new();
        promises.push(
            PromiseAction::Call {
                contract_id: self.token_contract_id.clone(),
                method: CallMethod::FtTransfer { receiver_id: account_id, amount: validator.staked_amount },
                deposit: 1,
                gas: GAS_FOR_FT_TRANSFER_CALL,
            },
        );
        promises.push(
            PromiseAction::Call {
                contract_id: ctx.current_account_id.clone(),
                method: CallMethod::ResolveRemoveValidator {
                    appchain_id,
                    validator_id,
                    amount: validator.staked_amount,
                },
                deposit: NO_DEPOSIT,
                gas: ctx.prepaid_gas / 2,
            },
        );
        proof {
            let p = removal_promises(ctx, self.token_contract_id, appchain_id, validator@, validator_id);
            assert(promises@ =~= p);
        }
        Ok(promises)
    }

    /// `next` is this relay after the validator `validator_id` of `appchain_id` was removed:
    /// the appchain's state is what `AppchainState::remove_validator` makes of it (the record
    /// moves to the removed validators, its stake and its delegators' leave the appchain's
    /// stake, and while booting the new validator set becomes a fact), and the stake removed
    /// leaves the total; nothing changes when no record of it is stored.
    pub open spec fn removes_validator_into(
        &self,
        next: &Self,
        ctx: &Context,
        appchain_id: Seq<char>,
        validator_id: Seq<char>,
    ) -> bool {
        let st = self.state_of(appchain_id).unwrap();
        let st2 = next.state_of(appchain_id).unwrap();
        &&& next.appchain_states.spec_entries() == inserted(self.appchain_states.spec_entries(), appchain_id, st2)
        &&& next.total_staked_balance == self.total_staked_balance - (st.staked_balance - st2.staked_balance)
        &&& st.removes_into(&st2, validator_id, ctx.block_timestamp, (st.staked_balance - st2.staked_balance) as u128)
        &&& self.same_settings(next)
        &&& self.same_bridges(next)
        &&& self.same_registry(next)
    }

    /// Callback after the stake of a removed validator was sent back: when the transfer
    /// succeeded, the validator leaves the appchain and its stake leaves the totals.
    ///
    /// Refused unless the relay calls itself, and for an unknown appchain.
    pub fn resolve_remove_validator(
        &mut self,
        ctx: &Context,
        appchain_id: AppchainId,
        validator_id: ValidatorId,
        amount: u128,
        transfer_succeeded: bool,
    ) -> (r: Result<(), RelayError>)
        requires
            old(self).wf(),
        ensures
            old(self).stake_balanced() ==> final(self).stake_balanced(),
            final(self).wf(),
            ctx.predecessor_account_id@ != ctx.current_account_id@ ==> r == Err::<(), RelayError>(RelayError::NotSelf),
            ctx.predecessor_account_id@ == ctx.current_account_id@ && transfer_succeeded
                && !old(self).appchain_states.spec_contains(appchain_id@) ==> r == Err::<(), RelayError>(RelayError::AppchainNotFound),
            r is Err || !transfer_succeeded ==> *final(self) == *old(self),
            r is Ok && transfer_succeeded ==> old(self).removes_validator_into(
                &*final(self),
                ctx,
                appchain_id@,
                validator_id@,
            ),
            r is Ok <==> ctx.predecessor_account_id@ == ctx.current_account_id@ && (!transfer_succeeded
                || old(self).appchain_states.spec_contains(appchain_id@)),
    {
        if ctx.predecessor_account_id != ctx.current_account_id {
            return Err(RelayError::NotSelf);
        }
        if !transfer_succeeded {
            return Ok(());
        }
        let si = self.find_state(&appchain_id)?;
        let ghost st = self.appchain_states.spec_entries()[si as int].1;
        let ghost old_entries = self.appchain_states.spec_entries();
        proof {
            assert(state_ok(old_entries[si as int]));
            let vals = st.vals();
            crate::appchain::state::lemma_stake_nonneg(vals);
            crate::sums::lemma_sum_bounds(vals, |e: (Seq<char>, Option<AppchainValidatorView>)| crate::appchain::state::stake_of(e));
            if has_key(vals, validator_id@) {
                let j = key_index(vals, validator_id@);
                lemma_key_index(vals, j);
                assert(crate::appchain::state::stake_of(vals[j]) <= validators_stake(vals));
            }
            crate::sums::lemma_sum_bounds(old_entries, |e: (Seq<char>, AppchainState)| state_stake(e));
            assert(state_stake(old_entries[si as int]) <= states_stake(old_entries));
        }
        let state = self.appchain_states.value_mut_at(si);
        let removed = state.remove_validator(&validator_id, ctx.block_timestamp);
        proof {
            let st2 = self.appchain_states.spec_entries()[si as int].1;
            let vals = st.vals();
            if lookup(vals, validator_id@) matches Some(Some(v)) {
                lemma_removed_all_present(vals, validator_id@);
            }
            lemma_state_update(old_entries, si as int, st2);
            lemma_key_index(old_entries, si as int);
            lemma_update_value(old_entries, si as int, st2);
        }
        self.total_staked_balance = self.total_staked_balance - removed;
        proof {
            assert forall|k: Seq<char>| #[trigger] self.appchain_metadatas.spec_contains(k)
                == self.appchain_states.spec_contains(k) by {
                assert(old(self).appchain_metadatas.spec_contains(k) == old(self).appchain_states.spec_contains(k));
            }
        }
        Ok(())
    }

    /// Leave an appchain: the signer's stake goes back to it, then the callback removes its
    /// validator.
    ///
    /// Refused for an unknown appchain or one not in its staking period, and when the signer
    /// stakes on no validator of the appchain.
    pub fn unstake(&self, ctx: &Context, appchain_id: AppchainId) -> (r: Result<Vec<PromiseAction>, RelayError>)
        requires
            self.wf(),
        ensures
            if !self.appchain_states.spec_contains(appchain_id@) {
                r == Err::<Vec<PromiseAction>, RelayError>(RelayError::AppchainNotFound)
            } else if !self.spec_in_staking_period(appchain_id@) {
                r == Err::<Vec<PromiseAction>, RelayError>(RelayError::NotInStakingPeriod)
            } else {
                match first_with_account(validator_list(self.state_of(appchain_id@).unwrap().vals()), ctx.signer_account_id@) {
                    Some(v) => r matches Ok(p) && p@ == removal_promises(ctx, self.token_contract_id, appchain_id, v, v.id),
                    None => r == Err::<Vec<PromiseAction>, RelayError>(RelayError::NotStaking),
                }
            },
    {
        if !self.in_staking_period(&appchain_id)? {
            return Err(RelayError::NotInStakingPeriod);
        }
        let account_id = ctx.signer_account_id.clone();
        let validators = match self.get_validators(appchain_id.clone()) {
            Ok(Some(v)) => v,
            _ => {
                return Err(RelayError::AppchainNotFound);
            },
        };
        let n = validators.len();
        let mut i: usize = 0;
        let mut found: Option<usize> = None;
        proof {
            assert(validator_views(validators@).skip(0) =~= validator_views(validators@));
        }
        while i < n && found.is_none()
            invariant
                n == validators@.len(),
                i <= n,
                found is None ==> first_with_account(validator_views(validators@), account_id@)
                    == first_with_account(validator_views(validators@).skip(i as int), account_id@),
                found matches Some(j) ==> j < n && first_with_account(validator_views(validators@), account_id@)
                    == Some(validators@[j as int]@),
            decreases n - i,
        {
            assert(validator_views(validators@).skip(i as int).drop_first() =~= validator_views(validators@).skip(i + 1));
            assert(validator_views(validators@).skip(i as int)[0] == validators@[i as int]@);
            if validators[i].account_id == account_id {
                found = Some(i);
            }
            i = i + 1;
        }
        let j = match found {
            Some(j) => j,
            None => {
                assert(validator_views(validators@).skip(n as int) =~= Seq::<ValidatorView>::empty());
                return Err(RelayError::NotStaking);
            },
        };
        let validator = &validators[j];
        let mut promises: Vec<PromiseAction> = Vec::new();
        promises.push(
            PromiseAction::Call {
                contract_id: self.token_contract_id.clone(),
                method: CallMethod::FtTransfer { receiver_id: validator.account_id.clone(), amount: validator.staked_amount },
                deposit: 1,
                gas: GAS_FOR_FT_TRANSFER_CALL,
            },
        );
        promises.push(
            PromiseAction::Call {
                contract_id: ctx.current_account_id.clone(),
                method: CallMethod::ResolveRemoveValidator {
                    appchain_id,
                    validator_id: validator.id.clone(),
                    amount: validator.staked_amount,
                },
                deposit: NO_DEPOSIT,
                gas: ctx.prepaid_gas / 2,
            },
        );
        proof {
            let p = removal_promises(ctx, self.token_contract_id, appchain_id, validators@[j as int]@, validators@[j as int].id);
            assert(promises@ =~= p);
        }
        Ok(promises)
    }
}

/// Removing a stored validator keeps every record stored.
proof fn lemma_removed_all_present(vals: ValidatorViewEntries, k: Seq<char>)
    requires
        distinct_keys(vals),
        forall|j: int| 0 <= j < vals.len() ==> (#[trigger] vals[j]).1 is Some,
    ensures
        forall|j: int| 0 <= j < crate::str_map::removed(vals, k).len() ==> (#[trigger] crate::str_map::removed(vals, k)[j]).1 is Some,
{
    let t = crate::str_map::removed(vals, k);
    if has_key(vals, k) {
        let i = key_index(vals, k);
        assert forall|j: int| 0 <= j < t.len() implies (#[trigger] t[j]).1 is Some by {
            if j == i {
                assert(t[j] == vals.last());
            } else {
                assert(t[j] == vals[j]);
            }
        }
    }
}

/// Replacing the metadata of an appchain by metadata with the same id keeps the relay's invariant.
proof fn lemma_metadata_update(relay: &OctopusRelay, new_relay: &OctopusRelay, i: int, m: AppchainMetadata)
    requires
        relay.wf(),
        0 <= i < relay.appchain_metadatas.spec_len(),
        m.id == relay.appchain_metadatas.spec_entries()[i].1.id,
        new_relay.appchain_metadatas.wf(),
        new_relay.appchain_metadatas.spec_entries() == relay.appchain_metadatas.spec_entries().update(
            i,
            (relay.appchain_metadatas.spec_entries()[i].0, m),
        ),
        new_relay.appchain_data_fact_sets_len == relay.appchain_data_fact_sets_len,
        new_relay.appchain_states == relay.appchain_states,
        new_relay.bridge_tokens == relay.bridge_tokens,
        new_relay.bridge_symbol_to_token == relay.bridge_symbol_to_token,
        new_relay.appchain_native_tokens == relay.appchain_native_tokens,
        new_relay.total_staked_balance == relay.total_staked_balance,
    ensures
        new_relay.wf(),
        new_relay.appchain_metadatas.spec_entries() == inserted(
            relay.appchain_metadatas.spec_entries(),
            relay.appchain_metadatas.spec_entries()[i].0,
            m,
        ),
{
    let s = relay.appchain_metadatas.spec_entries();
    let t = new_relay.appchain_metadatas.spec_entries();
    lemma_update_value(s, i, m);
    crate::str_map::lemma_inserted(s, s[i].0, m);
    assert forall|j: int| 0 <= j < t.len() implies metadata_ok(#[trigger] t[j]) by {
        assert(metadata_ok(s[j]));
    }
    assert forall|k: Seq<char>| #[trigger] new_relay.appchain_metadatas.spec_contains(k)
        == new_relay.appchain_states.spec_contains(k) by {
        assert(relay.appchain_metadatas.spec_contains(k) == relay.appchain_states.spec_contains(k));
    }
}

impl OctopusRelay {
    /// Update the basic information of a booting appchain; only its founder may.
    ///
    /// Refused for an unknown appchain, one that is not booting, and a signer other than the founder.
    pub fn update_appchain(
        &mut self,
        ctx: &Context,
        appchain_id: AppchainId,
        website_url: String,
        github_address: String,
        github_release: String,
        commit_id: String,
        email: String,
    ) -> (r: Result<(), RelayError>)
        requires
            old(self).wf(),
        ensures
            old(self).stake_balanced() ==> final(self).stake_balanced(),
            final(self).wf(),
            !old(self).appchain_states.spec_contains(appchain_id@) ==> r == Err::<(), RelayError>(RelayError::AppchainNotFound),
            old(self).appchain_states.spec_contains(appchain_id@) && old(self).state_of(appchain_id@).unwrap().status
                != AppchainStatus::Booting ==> r == Err::<(), RelayError>(RelayError::CannotUpdateAtCurrentStatus),
            old(self).appchain_states.spec_contains(appchain_id@) && old(self).state_of(appchain_id@).unwrap().status
                == AppchainStatus::Booting && ctx.signer_account_id@ != old(self).metadata_of(appchain_id@).unwrap().founder_id@
                ==> r == Err::<(), RelayError>(RelayError::NotFounder),
            r is Ok <==> {
                &&& old(self).appchain_states.spec_contains(appchain_id@)
                &&& old(self).state_of(appchain_id@).unwrap().status == AppchainStatus::Booting
                &&& ctx.signer_account_id@ == old(self).metadata_of(appchain_id@).unwrap().founder_id@
            },
            r is Err ==> *final(self) == *old(self),
            r is Ok ==> {
                let m = old(self).metadata_of(appchain_id@).unwrap();
                &&& final(self).appchain_metadatas.spec_entries() == inserted(
                    old(self).appchain_metadatas.spec_entries(),
                    appchain_id@,
                    AppchainMetadata { website_url, github_address, github_release, commit_id, email, ..m },
                )
                &&& *final(self) == (OctopusRelay { appchain_metadatas: final(self).appchain_metadatas, ..*old(self) })
            },
    {
        let si = self.find_state(&appchain_id)?;
        let appchain_status = self.appchain_states.value_at(si).status;
        let mi = self.find_metadata(&appchain_id)?;
        if appchain_status != AppchainStatus::Booting {
            return Err(RelayError::CannotUpdateAtCurrentStatus);
        }
        if ctx.signer_account_id != self.appchain_metadatas.value_at(mi).founder_id {
            return Err(RelayError::NotFounder);
        }
        let ghost old_relay = *self;
        let m = self.appchain_metadatas.value_mut_at(mi);
        let rpc_endpoint = m.rpc_endpoint.clone();
        m.update_basic_info(website_url, github_address, github_release, commit_id, email, rpc_endpoint);
        proof {
            let nm = self.appchain_metadatas.spec_entries()[mi as int].1;
            lemma_update_value(old_relay.appchain_metadatas.spec_entries(), mi as int, nm);
            lemma_metadata_update(&old_relay, self, mi as int, nm);
        }
        Ok(())
    }

    /// Set the url of the subquery service of an appchain; only the owner may.
    ///
    /// Refused for a caller other than the owner and an unknown appchain.
    pub fn update_subql_url(&mut self, ctx: &Context, appchain_id: AppchainId, subql_url: String) -> (r: Result<(), RelayError>)
        requires
            old(self).wf(),
        ensures
            old(self).stake_balanced() ==> final(self).stake_balanced(),
            final(self).wf(),
            ctx.predecessor_account_id@ != old(self).owner@ ==> r == Err::<(), RelayError>(RelayError::NotOwner),
            ctx.predecessor_account_id@ == old(self).owner@ && !old(self).appchain_states.spec_contains(appchain_id@)
                ==> r == Err::<(), RelayError>(RelayError::AppchainNotFound),
            r is Ok <==> ctx.predecessor_account_id@ == old(self).owner@ && old(self).appchain_states.spec_contains(appchain_id@),
            r is Err ==> *final(self) == *old(self),
            r is Ok ==> {
                let m = old(self).metadata_of(appchain_id@).unwrap();
                &&& final(self).appchain_metadatas.spec_entries() == inserted(
                    old(self).appchain_metadatas.spec_entries(),
                    appchain_id@,
                    AppchainMetadata { subql_url, ..m },
                )
                &&& *final(self) == (OctopusRelay { appchain_metadatas: final(self).appchain_metadatas, ..*old(self) })
            },
    {
        self.assert_owner(ctx)?;
        let mi = self.find_metadata(&appchain_id)?;
        let ghost old_relay = *self;
        let m = self.appchain_metadatas.value_mut_at(mi);
        m.update_subql(subql_url);
        proof {
            let nm = self.appchain_metadatas.spec_entries()[mi as int].1;
            lemma_metadata_update(&old_relay, self, mi as int, nm);
        }
        Ok(())
    }
}

/// Replacing the state of an appchain by a fine state with no more stake, taking the
/// difference off the total, keeps the relay's invariant.
pub proof fn lemma_state_replaced(relay: &OctopusRelay, new_relay: &OctopusRelay, i: int, st2: AppchainState)
    requires
        relay.wf(),
        0 <= i < relay.appchain_states.spec_len(),
        state_ok((relay.appchain_states.spec_entries()[i].0, st2)),
        st2.staked_balance <= relay.appchain_states.spec_entries()[i].1.staked_balance,
        new_relay.appchain_states.wf(),
        new_relay.appchain_states.spec_entries() == relay.appchain_states.spec_entries().update(
            i,
            (relay.appchain_states.spec_entries()[i].0, st2),
        ),
        new_relay.appchain_data_fact_sets_len == relay.appchain_data_fact_sets_len,
        new_relay.appchain_metadatas == relay.appchain_metadatas,
        new_relay.bridge_tokens == relay.bridge_tokens,
        new_relay.bridge_symbol_to_token == relay.bridge_symbol_to_token,
        new_relay.appchain_native_tokens == relay.appchain_native_tokens,
        new_relay.total_staked_balance + relay.appchain_states.spec_entries()[i].1.staked_balance
            == relay.total_staked_balance + st2.staked_balance,
    ensures
        new_relay.wf(),
        new_relay.appchain_states.spec_entries() == inserted(
            relay.appchain_states.spec_entries(),
            relay.appchain_states.spec_entries()[i].0,
            st2,
        ),
        relay.stake_balanced() ==> new_relay.stake_balanced(),
{
    let s = relay.appchain_states.spec_entries();
    lemma_state_update(s, i, st2);
    crate::str_map::lemma_inserted(s, s[i].0, st2);
    lemma_key_index(s, i);
    assert(states_stake(new_relay.appchain_states.spec_entries()) == states_stake(s) - s[i].1.staked_balance
        + st2.staked_balance);
    assert forall|k: Seq<char>| #[trigger] new_relay.appchain_metadatas.spec_contains(k)
        == new_relay.appchain_states.spec_contains(k) by {
        assert(relay.appchain_metadatas.spec_contains(k) == relay.appchain_states.spec_contains(k));
    }
}

/// The outcome of a call without its value.
pub open spec fn without_value<T>(r: Result<T, RelayError>) -> Result<(), RelayError> {
    match r {
        Ok(_) => Ok(()),
        Err(e) => Err(e),
    }
}

impl OctopusRelay {
    /// `next` and `r` are what receiving `amount` of a token from `sender_id`, with a message
    /// of the fields `fs`, gives: the first field names the action and the others are its
    /// arguments; an unknown action hands the whole amount back.
    pub open spec fn transfer_outcome(
        &self,
        next: &Self,
        ctx: &Context,
        sender_id: AccountId,
        amount: u128,
        fs: Seq<String>,
        r: Result<PromiseOrValue<u128>, RelayError>,
    ) -> bool {
        let action = fs[0]@;
        let from_oct = ctx.predecessor_account_id@ == self.token_contract_id@;
        let done = r is Ok ==> r == Ok::<PromiseOrValue<u128>, RelayError>(PromiseOrValue::Value(0));
        if action == "register_appchain"@ {
            if !from_oct {
                r == Err::<PromiseOrValue<u128>, RelayError>(RelayError::NotOctToken) && *next == *self
            } else if fs.len() != 6 && fs.len() != 7 {
                r == Err::<PromiseOrValue<u128>, RelayError>(RelayError::WrongParamsLength) && *next == *self
            } else if fs.len() == 7 {
                done && self.registers_into(next, ctx, fs[1], fs[2], fs[3], fs[4], fs[5], fs[6], amount, without_value(r))
            } else {
                done && exists|email: String|
                    email@ == Seq::<char>::empty() && #[trigger] self.registers_into(
                        next,
                        ctx,
                        fs[1],
                        fs[2],
                        fs[3],
                        fs[4],
                        fs[5],
                        email,
                        amount,
                        without_value(r),
                    )
            }
        } else if action == "stake"@ {
            if !from_oct {
                r == Err::<PromiseOrValue<u128>, RelayError>(RelayError::NotOctToken) && *next == *self
            } else if fs.len() != 3 {
                r == Err::<PromiseOrValue<u128>, RelayError>(RelayError::WrongParamsLength) && *next == *self
            } else {
                done && self.stakes_into(next, ctx, fs[1], fs[2], amount, without_value(r))
            }
        } else if action == "stake_more"@ {
            if !from_oct {
                r == Err::<PromiseOrValue<u128>, RelayError>(RelayError::NotOctToken) && *next == *self
            } else if fs.len() != 2 {
                r == Err::<PromiseOrValue<u128>, RelayError>(RelayError::WrongParamsLength) && *next == *self
            } else {
                done && self.stakes_more_into(next, ctx, fs[1], amount, without_value(r))
            }
        } else if action == "lock_token"@ {
            if fs.len() != 3 {
                r == Err::<PromiseOrValue<u128>, RelayError>(RelayError::WrongParamsLength) && *next == *self
            } else {
                done && self.locks_tokens_into(
                    next,
                    fs[1],
                    fs[2],
                    sender_id,
                    ctx.predecessor_account_id,
                    amount,
                    match r {
                        Ok(_) => Ok(amount),
                        Err(e) => Err(e),
                    },
                )
            }
        } else {
            r == Ok::<PromiseOrValue<u128>, RelayError>(PromiseOrValue::Value(amount)) && *next == *self
        }
    }

    /// Receive `amount` of a fungible token from `sender_id`, with a message of fields
    /// separated by commas: `register_appchain` with six fields (the last, the email, may be
    /// left out and is then empty), `stake` with two and
    /// `stake_more` with one take OCT tokens; `lock_token` with two locks the calling token.
    /// Returns what is handed back: nothing, or all of it for an unknown action.
    ///
    /// Refused for OCT actions from another token, a wrong number of fields, and as the
    /// action refuses.
    pub fn ft_on_transfer(&mut self, ctx: &Context, sender_id: AccountId, amount: u128, msg: String) -> (r: Result<
        PromiseOrValue<u128>,
        RelayError,
    >)
        requires
            old(self).wf(),
        ensures
            final(self).wf(),
            old(self).stake_balanced() ==> final(self).stake_balanced(),
            exists|fs: Seq<String>|
                fs.map_values(|p: String| p@) == message_fields(msg@) && #[trigger] old(self).transfer_outcome(
                    &*final(self),
                    ctx,
                    sender_id,
                    amount,
                    fs,
                    r,
                ),
    {
        let fields = split_message(&msg);
        let ghost fs = fields@;
        proof {
            lemma_split_nonempty(msg@, ',');
            let vs = fs.map_values(|p: String| p@);
            assert(forall|k: int| 0 <= k < fs.len() ==> #[trigger] vs[k] == fs[k]@);
        }
        let ghost old_relay = *self;
        let ghost mut em: String = fs[0];
        let action = fields[0].as_str();
        let from_oct = ctx.predecessor_account_id == self.token_contract_id;
        let r = if text_eq(action, "register_appchain") {
            if !from_oct {
                Err(RelayError::NotOctToken)
            } else if fields.len() != 6 && fields.len() != 7 {
                Err(RelayError::WrongParamsLength)
            } else {
                let email = if fields.len() == 7 {
                    fields[6].clone()
                } else {
                    String::new()
                };
                proof {
                    em = email;
                }
                let res = self.register_appchain(
                    ctx,
                    fields[1].clone(),
                    fields[2].clone(),
                    fields[3].clone(),
                    fields[4].clone(),
                    fields[5].clone(),
                    email,
                    amount,
                );
                assert(fields.len() == 6 ==> em@ == Seq::<char>::empty());
                match res {
                    Ok(()) => Ok(PromiseOrValue::Value(0)),
                    Err(e) => Err(e),
                }
            }
        } else if text_eq(action, "stake") {
            if !from_oct {
                Err(RelayError::NotOctToken)
            } else if fields.len() != 3 {
                Err(RelayError::WrongParamsLength)
            } else {
                match self.stake(ctx, fields[1].clone(), fields[2].clone(), amount) {
                    Ok(()) => Ok(PromiseOrValue::Value(0)),
                    Err(e) => Err(e),
                }
            }
        } else if text_eq(action, "stake_more") {
            if !from_oct {
                Err(RelayError::NotOctToken)
            } else if fields.len() != 2 {
                Err(RelayError::WrongParamsLength)
            } else {
                match self.stake_more(ctx, fields[1].clone(), amount) {
                    Ok(()) => Ok(PromiseOrValue::Value(0)),
                    Err(e) => Err(e),
                }
            }
        } else if text_eq(action, "lock_token") {
            let token_id = ctx.predecessor_account_id.clone();
            if fields.len() != 3 {
                Err(RelayError::WrongParamsLength)
            } else {
                match self.lock_token(fields[1].clone(), fields[2].clone(), sender_id, token_id, amount) {
                    Ok(_) => Ok(PromiseOrValue::Value(0)),
                    Err(e) => Err(e),
                }
            }
        } else {
            Ok(PromiseOrValue::Value(amount))
        };
        proof {
            if fs[0]@ == "register_appchain"@ && ctx.predecessor_account_id@ == old_relay.token_contract_id@ && fs.len() == 6 {
                assert(old_relay.registers_into(self, ctx, fs[1], fs[2], fs[3], fs[4], fs[5], em, amount, without_value(r)));
            }
        }
        assert(old_relay.transfer_outcome(self, ctx, sender_id, amount, fs, r));
        r
    }
}

/// Reading an appchain just registered gives what was registered: its id, the signer as its
/// founder, the given information and bond, the registration block, empty chain
/// specification and boot information, no validators, no stake, no fact sets, in auditing.
pub proof fn law_register_then_read(
    relay: &OctopusRelay,
    next: &OctopusRelay,
    ctx: &Context,
    appchain_id: String,
    website_url: String,
    github_address: String,
    github_release: String,
    commit_id: String,
    email: String,
    bond_tokens: u128,
    a: Appchain,
)
    requires
        relay.wf(),
        next.wf(),
        relay.registers_into(
            next,
            ctx,
            appchain_id,
            website_url,
            github_address,
            github_release,
            commit_id,
            email,
            bond_tokens,
            Ok(()),
        ),
        describes_appchain(
            a,
            appchain_id,
            next.metadata_of(appchain_id@).unwrap(),
            next.state_of(appchain_id@).unwrap(),
            next.fact_sets_len_of(appchain_id@),
        ),
    ensures
        a.id == appchain_id,
        a.founder_id == ctx.signer_account_id,
        a.website_url == website_url,
        a.github_address == github_address,
        a.github_release == github_release,
        a.commit_id == commit_id,
        a.email == email,
        a.chain_spec_url@ == Seq::<char>::empty(),
        a.chain_spec_hash@ == Seq::<char>::empty(),
        a.chain_spec_raw_url@ == Seq::<char>::empty(),
        a.chain_spec_raw_hash@ == Seq::<char>::empty(),
        a.boot_nodes@ == Seq::<char>::empty(),
        a.rpc_endpoint@ == Seq::<char>::empty(),
        a.subql_url@ == Seq::<char>::empty(),
        a.bond_tokens == bond_tokens,
        a.block_height == ctx.block_index,
        a.validators@.len() == 0,
        a.status == AppchainStatus::Auditing,
        a.staked_balance == 0,
        a.fact_sets_len == 0,
        a.validator_sets_len == 0,
{
    let ms = next.appchain_metadatas.spec_entries();
    let ss = next.appchain_states.spec_entries();
    let n = ms.len() - 1;
    lemma_key_index(ms, n);
    lemma_key_index(ss, ss.len() - 1);
    crate::str_map::lemma_inserted(relay.appchain_data_fact_sets_len.spec_entries(), appchain_id@, 0);
    assert(present(ValidatorViewEntries::empty()) =~= Seq::<AppchainValidatorView>::empty());
    assert(validator_views(a.validators@).len() == a.validators@.len());
}

/// With no validator of the list staked by `signer` or under `validator_id`, there is no
/// conflict.
proof fn lemma_no_conflict_of_none(vs: Seq<ValidatorView>, signer: Seq<char>, validator_id: Seq<char>)
    requires
        forall|j: int| 0 <= j < vs.len() ==> (#[trigger] vs[j]).account_id@ != signer && vs[j].id@ != validator_id,
    ensures
        first_conflict(vs, signer, validator_id) is None,
    decreases vs.len(),
{
    if vs.len() > 0 {
        let d = vs.drop_first();
        assert forall|j: int| 0 <= j < d.len() implies (#[trigger] d[j]).account_id@ != signer && d[j].id@ != validator_id by {
            assert(d[j] == vs[j + 1]);
        }
        lemma_no_conflict_of_none(d, signer, validator_id);
    }
}

/// A validator of the list staked by `account` is found.
proof fn lemma_found_with_account(vs: Seq<ValidatorView>, account: Seq<char>, j: int)
    requires
        0 <= j < vs.len(),
        vs[j].account_id@ == account,
    ensures
        first_with_account(vs, account) matches Some(v) && v.account_id@ == account,
    decreases vs.len(),
{
    if vs[0].account_id@ != account {
        assert(vs.drop_first()[j - 1] == vs[j]);
        lemma_found_with_account(vs.drop_first(), account, j - 1);
    }
}

/// Staking is taken in the whole staking period, staging and booting alike: on a registered
/// appchain that is staging or booting, an amount of at least the minimum from a signer that
/// stakes on none of its validators, under an id none of them has, is staked whenever the
/// totals and the validators nonce do not overflow; the validator is then recorded under that
/// id with the signer and the amount, and the total grows by the amount.
pub proof fn law_stake_taken_in_staking_period(
    relay: &OctopusRelay,
    next: &OctopusRelay,
    ctx: &Context,
    appchain_id: AppchainId,
    id: String,
    amount: u128,
    r: Result<(), RelayError>,
)
    requires
        relay.wf(),
        next.wf(),
        relay.state_of(appchain_id@) is Some,
        relay.state_of(appchain_id@).unwrap().status == AppchainStatus::Staging
            || relay.state_of(appchain_id@).unwrap().status == AppchainStatus::Booting,
        amount >= relay.minimum_staking_amount,
        forall|j: int| 0 <= j < validator_list(relay.state_of(appchain_id@).unwrap().vals()).len()
            ==> (#[trigger] validator_list(relay.state_of(appchain_id@).unwrap().vals())[j]).account_id@ != ctx.signer_account_id@
                && validator_list(relay.state_of(appchain_id@).unwrap().vals())[j].id@ != validator_id_of(id@),
        relay.total_staked_balance + amount <= u128::MAX,
        relay.state_of(appchain_id@).unwrap().validators_nonce < u32::MAX,
        relay.stakes_into(next, ctx, appchain_id, id, amount, r),
    ensures
        r is Ok,
        next.total_staked_balance == relay.total_staked_balance + amount,
        next.state_of(appchain_id@).unwrap().staked_balance == relay.state_of(appchain_id@).unwrap().staked_balance + amount,
        lookup(next.state_of(appchain_id@).unwrap().vals(), validator_id_of(id@)) matches Some(Some(v)) && v.account_id
            == ctx.signer_account_id && v.amount == amount,
{
    let st = relay.state_of(appchain_id@).unwrap();
    let vid = validator_id_of(id@);
    lemma_no_conflict_of_none(validator_list(st.vals()), ctx.signer_account_id@, vid);
    assert(relay.stake_refusal(ctx, appchain_id@, id@, amount) is None);
    let s0 = relay.appchain_states.spec_entries();
    let s1 = next.appchain_states.spec_entries();
    let st2 = next.state_of(appchain_id@).unwrap();
    let i = key_index(s0, appchain_id@);
    assert(state_ok(s0[i]));
    crate::str_map::lemma_inserted(s0, appchain_id@, st2);
    lemma_no_conflict_absent(st.vals(), vid, ctx.signer_account_id@);
    let w = choose|w: ValidatorId| w@ == vid && #[trigger] staked_vals(st.vals(), w, ctx.signer_account_id, amount, ctx.block_index) == st2.vals();
    let nv = AppchainValidatorView {
        validator_id: w,
        account_id: ctx.signer_account_id,
        amount,
        block_height: ctx.block_index,
        delegators: Seq::empty(),
    };
    assert(st2.vals() == st.vals().push((vid, Some(nv))));
    let j = crate::str_map::key_index(s1, appchain_id@);
    assert(state_ok(s1[j]));
    lemma_key_index(st2.vals(), st.vals().len() as int);
}

/// Staking more is taken in the whole staking period, staging and booting alike: on a
/// registered appchain that is staging or booting, where the signer stakes on a validator,
/// more stake is taken whenever the totals and the validators nonce do not overflow, and the
/// total grows by the amount.
pub proof fn law_stake_more_taken_in_staking_period(
    relay: &OctopusRelay,
    next: &OctopusRelay,
    ctx: &Context,
    appchain_id: AppchainId,
    amount: u128,
    r: Result<(), RelayError>,
    j: int,
)
    requires
        relay.wf(),
        relay.state_of(appchain_id@) is Some,
        relay.state_of(appchain_id@).unwrap().status == AppchainStatus::Staging
            || relay.state_of(appchain_id@).unwrap().status == AppchainStatus::Booting,
        0 <= j < validator_list(relay.state_of(appchain_id@).unwrap().vals()).len(),
        validator_list(relay.state_of(appchain_id@).unwrap().vals())[j].account_id@ == ctx.signer_account_id@,
        relay.total_staked_balance + amount <= u128::MAX,
        relay.state_of(appchain_id@).unwrap().validators_nonce < u32::MAX,
        relay.stakes_more_into(next, ctx, appchain_id, amount, r),
    ensures
        r is Ok,
        next.total_staked_balance == relay.total_staked_balance + amount,
        next.state_of(appchain_id@).unwrap().staked_balance == relay.state_of(appchain_id@).unwrap().staked_balance + amount,
{
    let st = relay.state_of(appchain_id@).unwrap();
    lemma_found_with_account(validator_list(st.vals()), ctx.signer_account_id@, j);
    assert(relay.stake_more_refusal(ctx, appchain_id@, amount) is None);
    let s0 = relay.appchain_states.spec_entries();
    let st2 = next.state_of(appchain_id@).unwrap();
    crate::str_map::lemma_inserted(s0, appchain_id@, st2);
}

/// A stake that was taken reads back: the appchain then has a validator under the id the
/// stake was made with (a hex address of 32 bytes with a `0x` prefix, any other id as it is),
/// staked by the signer with the amount, and the relay's total grew by the amount while
/// remaining the sum of the appchains' stakes.
pub proof fn law_stake_then_read(
    relay: &OctopusRelay,
    staked: &OctopusRelay,
    ctx: &Context,
    appchain_id: AppchainId,
    id: String,
    amount: u128,
)
    requires
        relay.wf(),
        staked.wf(),
        relay.stake_balanced(),
        relay.stakes_into(staked, ctx, appchain_id, id, amount, Ok(())),
    ensures
        staked.total_staked_balance == relay.total_staked_balance + amount,
        staked.stake_balanced(),
        crate::hex_address::cut_after_two_bytes(id@) && crate::hex_address::validated_address(id@) is Ok
            ==> validator_id_of(id@) == crate::hex_address::validated_address(id@)->Ok_0,
        lookup(staked.state_of(appchain_id@).unwrap().vals(), validator_id_of(id@)) matches Some(Some(v)) && v.account_id
            == ctx.signer_account_id && v.amount == amount && v.validator_view().staked_amount == amount,
{
    let vid = validator_id_of(id@);
    let s0 = relay.appchain_states.spec_entries();
    let s1 = staked.appchain_states.spec_entries();
    let st = relay.state_of(appchain_id@).unwrap();
    let st2 = staked.state_of(appchain_id@).unwrap();
    let i = key_index(s0, appchain_id@);
    assert(state_ok(s0[i]));
    crate::str_map::lemma_inserted(s0, appchain_id@, st2);
    lemma_no_conflict_absent(st.vals(), vid, ctx.signer_account_id@);
    let w = choose|w: ValidatorId| w@ == vid && #[trigger] staked_vals(st.vals(), w, ctx.signer_account_id, amount, ctx.block_index) == st2.vals();
    let nv = AppchainValidatorView {
        validator_id: w,
        account_id: ctx.signer_account_id,
        amount,
        block_height: ctx.block_index,
        delegators: Seq::empty(),
    };
    assert(st2.vals() == st.vals().push((vid, Some(nv))));
    let j = crate::str_map::key_index(s1, appchain_id@);
    assert(state_ok(s1[j]));
    lemma_key_index(st2.vals(), st.vals().len() as int);
    lemma_key_index(s0, i);
    lemma_update_value(s0, i, st2);
    lemma_state_update(s0, i, st2);
}

/// Removing a validator right after it staked gives the appchain back its validators and
/// its stake, and the relay its total stake.
pub proof fn law_remove_undoes_stake(
    relay: &OctopusRelay,
    staked: &OctopusRelay,
    removed: &OctopusRelay,
    ctx: &Context,
    remove_ctx: &Context,
    appchain_id: AppchainId,
    id: String,
    amount: u128,
)
    requires
        relay.wf(),
        staked.wf(),
        relay.stakes_into(staked, ctx, appchain_id, id, amount, Ok(())),
        staked.removes_validator_into(
            removed,
            remove_ctx,
            appchain_id@,
            validator_id_of(id@),
        ),
    ensures
        removed.total_staked_balance == relay.total_staked_balance,
        removed.state_of(appchain_id@).unwrap().vals() == relay.state_of(appchain_id@).unwrap().vals(),
        removed.state_of(appchain_id@).unwrap().staked_balance == relay.state_of(appchain_id@).unwrap().staked_balance,
{
    let vid = validator_id_of(id@);
    let s0 = relay.appchain_states.spec_entries();
    let s1 = staked.appchain_states.spec_entries();
    let st = relay.state_of(appchain_id@).unwrap();
    let st2 = staked.state_of(appchain_id@).unwrap();
    let i = key_index(s0, appchain_id@);
    assert(state_ok(s0[i]));
    crate::str_map::lemma_inserted(s0, appchain_id@, st2);
    lemma_no_conflict_absent(st.vals(), vid, ctx.signer_account_id@);
    let w = choose|w: ValidatorId| w@ == vid && #[trigger] staked_vals(st.vals(), w, ctx.signer_account_id, amount, ctx.block_index) == st2.vals();
    let nv = AppchainValidatorView {
        validator_id: w,
        account_id: ctx.signer_account_id,
        amount,
        block_height: ctx.block_index,
        delegators: Seq::empty(),
    };
    assert(st2.vals() == st.vals().push((vid, Some(nv))));
    let j = crate::str_map::key_index(s1, appchain_id@);
    assert(state_ok(s1[j]));
    lemma_key_index(st2.vals(), st.vals().len() as int);
    assert(crate::str_map::removed(st2.vals(), vid) =~= st.vals());
    assert(crate::appchain::validator::delegated_sum(Seq::empty()) == 0);
}

/// Ownership of the relay: its owner alone may change its settings.
pub trait Ownable {
    /// The predecessor of the call is the owner.
    fn assert_owner(&self, ctx: &Context) -> (r: Result<(), RelayError>);

    /// The owner.
    fn get_owner(&self) -> (r: AccountId);

    /// Hand the relay to a new owner; only the owner may.
    fn set_owner(&mut self, ctx: &Context, owner: AccountId) -> (r: Result<(), RelayError>);
}

impl Ownable for OctopusRelay {
    fn assert_owner(&self, ctx: &Context) -> (r: Result<(), RelayError>)
        ensures
            r is Ok <==> ctx.predecessor_account_id@ == self.owner@,
            r is Err ==> r == Err::<(), RelayError>(RelayError::NotOwner),
    {
        if ctx.predecessor_account_id == self.owner {
            Ok(())
        } else {
            Err(RelayError::NotOwner)
        }
    }

    fn get_owner(&self) -> (r: AccountId)
        ensures
            r == self.owner,
    {
        self.owner.clone()
    }

    fn set_owner(&mut self, ctx: &Context, owner: AccountId) -> (r: Result<(), RelayError>)
        ensures
            r is Ok <==> ctx.predecessor_account_id@ == old(self).owner@,
            r is Err ==> r == Err::<(), RelayError>(RelayError::NotOwner) && *final(self) == *old(self),
            r is Ok ==> *final(self) == (OctopusRelay { owner, ..*old(self) }),
    {
        self.assert_owner(ctx)?;
        self.owner = owner;
        Ok(())
    }
}

} // verus!
