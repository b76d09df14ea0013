//! Plain data types exchanged with the users of the relay.
use vstd::prelude::*;

verus! {

/// Account id of NEAR.
pub type AccountId = String;

/// Balance in the smallest unit of a token.
pub type Balance = u128;

/// Block height of NEAR.
pub type BlockHeight = u64;

/// Nanoseconds since the Unix epoch.
pub type Timestamp = u64;

/// Id of an appchain.
pub type AppchainId = String;

/// Id of a validator of an appchain.
pub type ValidatorId = String;

/// Id of a delegator of a validator.
pub type DelegatorId = String;

/// Sequence number of a fact of an appchain.
pub type SeqNum = u32;

/// Index of a validator in the history of validator sets.
pub type ValidatorIndex = u32;

/// Index of a record in a history list.
pub type HistoryIndex = u64;

/// Key of a validator history record: the validator's index and the record's index.
pub type ValidatorHistoryKey = (ValidatorIndex, HistoryIndex);

/// Key of a delegator history record: the delegator's index and the record's index.
pub type DelegatorHistoryKey = (u32, HistoryIndex);

/// Key of a delegator: the validator's id and the delegator's id.
pub type DelegatorKey = (ValidatorId, DelegatorId);

/// Address of an account of an appchain.
pub type HexAddress = [u8; 32];

/// A vote on an appchain.
#[derive(Clone, Copy, Debug, PartialEq, Eq, Structural)]
pub enum Vote {
    Yes,
    No,
}

/// Describes the status of appchains
#[derive(Clone, Copy, Debug, PartialEq, Eq, Structural)]
pub enum AppchainStatus {
    Auditing,
    Voting,
    Staging,
    Booting,
}

impl AppchainStatus {
    /// The status of a newly registered appchain.
    pub fn default() -> (s: AppchainStatus)
        ensures
            s == AppchainStatus::Auditing,
    {
        AppchainStatus::Auditing
    }
}

/// A delegator of a validator.
#[derive(Debug)]
pub struct Delegator {
    pub id: DelegatorId,
    pub account_id: AccountId,
    pub amount: u128,
    pub block_height: BlockHeight,
}

impl Clone for Delegator {
    fn clone(&self) -> (r: Self)
        ensures
            r == *self,
    {
        Delegator {
            id: self.id.clone(),
            account_id: self.account_id.clone(),
            amount: self.amount,
            block_height: self.block_height,
        }
    }
}


/// Copies a list of delegators.
pub fn clone_delegators(v: &Vec<Delegator>) -> (r: Vec<Delegator>)
    ensures
        r@ == v@,
{
    let mut r: Vec<Delegator> = Vec::new();
    let mut i: usize = 0;
    while i < v.len()
        invariant
            i <= v@.len(),
            r@ == v@.subrange(0, i as int),
        decreases v@.len() - i,
    {
        r.push(v[i].clone());
        i = i + 1;
        assert(r@ =~= v@.subrange(0, i as int));
    }
    assert(v@.subrange(0, v@.len() as int) =~= v@);
    r
}

/// A validator of an appchain, with its delegators.
#[derive(Debug)]
pub struct Validator {
    pub id: ValidatorId,
    pub account_id: AccountId,
    pub staked_amount: u128,
    pub block_height: BlockHeight,
    pub delegators: Vec<Delegator>,
}

/// A validator with its delegators as a sequence.
pub ghost struct ValidatorView {
    pub id: ValidatorId,
    pub account_id: AccountId,
    pub staked_amount: u128,
    pub block_height: BlockHeight,
    pub delegators: Seq<Delegator>,
}

impl View for Validator {
    type V = ValidatorView;

    open spec fn view(&self) -> ValidatorView {
        ValidatorView {
            id: self.id,
            account_id: self.account_id,
            staked_amount: self.staked_amount,
            block_height: self.block_height,
            delegators: self.delegators@,
        }
    }
}

impl Clone for Validator {
    fn clone(&self) -> (r: Self)
        ensures
            r@ == self@,
    {
        let delegators = clone_delegators(&self.delegators);
        Validator {
            id: self.id.clone(),
            account_id: self.account_id.clone(),
            staked_amount: self.staked_amount,
            block_height: self.block_height,
            delegators,
        }
    }
}

/// A validator as it appears in a validator set: its stake is its weight.
#[derive(Debug)]
pub struct LiteValidator {
    pub id: ValidatorId,
    pub account_id: AccountId,
    pub weight: u128,
    pub block_height: BlockHeight,
    pub delegators: Vec<Delegator>,
}

/// A member of a validator set with its delegators as a sequence.
pub ghost struct LiteValidatorView {
    pub id: ValidatorId,
    pub account_id: AccountId,
    pub weight: u128,
    pub block_height: BlockHeight,
    pub delegators: Seq<Delegator>,
}

impl View for LiteValidator {
    type V = LiteValidatorView;

    open spec fn view(&self) -> LiteValidatorView {
        LiteValidatorView {
            id: self.id,
            account_id: self.account_id,
            weight: self.weight,
            block_height: self.block_height,
            delegators: self.delegators@,
        }
    }
}

impl Clone for LiteValidator {
    fn clone(&self) -> (r: Self)
        ensures
            r@ == self@,
    {
        let delegators = clone_delegators(&self.delegators);
        LiteValidator {
            id: self.id.clone(),
            account_id: self.account_id.clone(),
            weight: self.weight,
            block_height: self.block_height,
            delegators,
        }
    }
}

/// Copies a list of validators of a validator set.
pub fn clone_validators(v: &Vec<LiteValidator>) -> (r: Vec<LiteValidator>)
    ensures
        lite_views(r@) == lite_views(v@),
{
    let mut r: Vec<LiteValidator> = Vec::new();
    let mut i: usize = 0;
    while i < v.len()
        invariant
            i <= v@.len(),
            r@.len() == i,
            lite_views(r@) == lite_views(v@.subrange(0, i as int)),
        decreases v@.len() - i,
    {
        let ghost r0 = r@;
        let c = v[i].clone();
        assert(c@ == v@[i as int]@);
        r.push(c);
        proof {
            assert forall|j: int| 0 <= j < i + 1 implies #[trigger] r@[j]@ == v@[j]@ by {
                if j < i {
                    assert(lite_views(r0)[j] == r0[j]@);
                    assert(lite_views(v@.subrange(0, i as int))[j] == v@.subrange(0, i as int)[j]@);
                    assert(lite_views(r0)[j] == lite_views(v@.subrange(0, i as int))[j]);
                }
            }
        }
        i = i + 1;
        assert(lite_views(r@) =~= lite_views(v@.subrange(0, i as int)));
    }
    assert(v@.subrange(0, v@.len() as int) =~= v@);
    r
}

/// A validator set of an appchain, recorded as a fact.
#[derive(Debug)]
pub struct ValidatorSet {
    pub seq_num: SeqNum,
    pub set_id: u32,
    pub validators: Vec<LiteValidator>,
}

/// A validator set with its members as a sequence of views.
pub ghost struct ValidatorSetView {
    pub seq_num: SeqNum,
    pub set_id: u32,
    pub validators: Seq<LiteValidatorView>,
}

/// Views of the members of a list of validators.
pub open spec fn lite_views(v: Seq<LiteValidator>) -> Seq<LiteValidatorView> {
    v.map_values(|x: LiteValidator| x@)
}

impl View for ValidatorSet {
    type V = ValidatorSetView;

    open spec fn view(&self) -> ValidatorSetView {
        ValidatorSetView {
            seq_num: self.seq_num,
            set_id: self.set_id,
            validators: lite_views(self.validators@),
        }
    }
}

impl Clone for ValidatorSet {
    fn clone(&self) -> (r: Self)
        ensures
            r@ == self@,
    {
        let validators = clone_validators(&self.validators);
        ValidatorSet { seq_num: self.seq_num, set_id: self.set_id, validators }
    }
}

/// Everything known of an appchain, as returned to users.
#[derive(Debug)]
pub struct Appchain {
    pub id: String,
    pub founder_id: AccountId,
    pub website_url: String,
    pub github_address: String,
    pub github_release: String,
    pub commit_id: String,
    pub email: String,
    pub chain_spec_url: String,
    pub chain_spec_hash: String,
    pub chain_spec_raw_url: String,
    pub chain_spec_raw_hash: String,
    pub boot_nodes: String,
    pub rpc_endpoint: String,
    pub bond_tokens: u128,
    pub validators: Vec<Validator>,
    pub validators_timestamp: u64,
    pub status: AppchainStatus,
    pub block_height: BlockHeight,
    pub staked_balance: u128,
    pub subql_url: String,
    pub fact_sets_len: SeqNum,
    pub validator_sets_len: SeqNum,
}

/// Bridging status of a token as returned to users.
#[derive(Clone, Copy, Debug, PartialEq, Eq, Structural)]
pub enum BridgeStatus {
    Paused,
    Active,
    Closed,
}

impl BridgeStatus {
    /// The status of a newly registered bridge token.
    pub fn default() -> (s: BridgeStatus)
        ensures
            s == BridgeStatus::Active,
    {
        BridgeStatus::Active
    }
}

/// A bridge token as returned to users.
#[derive(Debug)]
pub struct BridgeToken {
    pub token_id: AccountId,
    pub symbol: String,
    pub status: BridgeStatus,
    pub price: u128,
    pub decimals: u32,
}

/// Tokens locked in the relay for an appchain.
#[derive(Debug)]
pub struct Locked {
    pub seq_num: SeqNum,
    pub token_id: AccountId,
    pub sender_id: AccountId,
    pub receiver: String,
    pub amount: u128,
}

impl Clone for Locked {
    fn clone(&self) -> (r: Self)
        ensures
            r == *self,
    {
        Locked {
            seq_num: self.seq_num,
            token_id: self.token_id.clone(),
            sender_id: self.sender_id.clone(),
            receiver: self.receiver.clone(),
            amount: self.amount,
        }
    }
}

/// Native tokens of an appchain burnt on NEAR.
#[derive(Debug)]
pub struct Burned {
    pub seq_num: SeqNum,
    pub sender_id: AccountId,
    pub receiver: String,
    pub amount: u128,
}

impl Clone for Burned {
    fn clone(&self) -> (r: Self)
        ensures
            r == *self,
    {
        Burned {
            seq_num: self.seq_num,
            sender_id: self.sender_id.clone(),
            receiver: self.receiver.clone(),
            amount: self.amount,
        }
    }
}

/// A fact of an appchain, to be read by the appchain.
#[derive(Debug)]
pub enum Fact {
    UpdateValidatorSet(ValidatorSet),
    LockToken(Locked),
    BurnNativeToken(Burned),
}

/// A fact with the validators of a validator set as views.
pub ghost enum FactView {
    UpdateValidatorSet(ValidatorSetView),
    LockToken(Locked),
    BurnNativeToken(Burned),
}

impl View for Fact {
    type V = FactView;

    open spec fn view(&self) -> FactView {
        match self {
            Fact::UpdateValidatorSet(s) => FactView::UpdateValidatorSet(s@),
            Fact::LockToken(l) => FactView::LockToken(*l),
            Fact::BurnNativeToken(b) => FactView::BurnNativeToken(*b),
        }
    }
}

/// Views of a list of facts.
pub open spec fn fact_views(v: Seq<Fact>) -> Seq<FactView> {
    v.map_values(|x: Fact| x@)
}

impl Clone for Fact {
    fn clone(&self) -> (r: Self)
        ensures
            r@ == self@,
    {
        match self {
            Fact::UpdateValidatorSet(s) => Fact::UpdateValidatorSet(s.clone()),
            Fact::LockToken(l) => Fact::LockToken(l.clone()),
            Fact::BurnNativeToken(b) => Fact::BurnNativeToken(b.clone()),
        }
    }
}

impl FactView {
    /// Sequence number recorded in the fact.
    pub open spec fn seq_num(self) -> SeqNum {
        match self {
            FactView::UpdateValidatorSet(s) => s.seq_num,
            FactView::LockToken(l) => l.seq_num,
            FactView::BurnNativeToken(b) => b.seq_num,
        }
    }
}

/// Storage balance of an account in a token contract.
#[derive(Debug)]
pub struct StorageBalance {
    pub total: u128,
    pub available: u128,
}

/// Kind of payload of a message from an appchain.
#[derive(Clone, Copy, Debug, PartialEq, Eq, Structural)]
pub enum PayloadType {
    Lock,
    BurnAsset,
}

/// Payload of a message that unlocks bridged tokens on NEAR.
#[derive(Debug)]
pub struct BurnAssetPayload {
    pub token_id: AccountId,
    pub sender: String,
    pub receiver_id: AccountId,
    pub amount: u128,
}

impl Clone for BurnAssetPayload {
    fn clone(&self) -> (r: Self)
        ensures
            r == *self,
    {
        BurnAssetPayload {
            token_id: self.token_id.clone(),
            sender: self.sender.clone(),
            receiver_id: self.receiver_id.clone(),
            amount: self.amount,
        }
    }
}

/// Payload of a message that mints native tokens of an appchain on NEAR.
#[derive(Debug)]
pub struct LockPayload {
    pub sender: String,
    pub receiver_id: AccountId,
    pub amount: u128,
}

impl Clone for LockPayload {
    fn clone(&self) -> (r: Self)
        ensures
            r == *self,
    {
        LockPayload { sender: self.sender.clone(), receiver_id: self.receiver_id.clone(), amount: self.amount }
    }
}

/// Payload of a message from an appchain.
#[derive(Debug)]
pub enum MessagePayload {
    BurnAsset(BurnAssetPayload),
    Lock(LockPayload),
}

impl Clone for MessagePayload {
    fn clone(&self) -> (r: Self)
        ensures
            r == *self,
    {
        match self {
            MessagePayload::BurnAsset(p) => MessagePayload::BurnAsset(p.clone()),
            MessagePayload::Lock(p) => MessagePayload::Lock(p.clone()),
        }
    }
}

/// A message from an appchain.
#[derive(Debug)]
pub struct Message {
    pub nonce: u64,
    pub payload: MessagePayload,
}

impl Clone for Message {
    fn clone(&self) -> (r: Self)
        ensures
            r == *self,
    {
        Message { nonce: self.nonce, payload: self.payload.clone() }
    }
}

} // verus!
