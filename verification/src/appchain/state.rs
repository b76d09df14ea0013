//! Mutable state of an appchain: its status, validators, stake, locked tokens and facts.
use crate::appchain::delegator::AppchainDelegator;
pub use crate::appchain::validator::AppchainValidator;
use crate::appchain::validator::AppchainValidatorView;
use crate::lexical::{
    lemma_lex_asymmetric, lemma_lex_transitive, lex_lt, str_bytes, str_lt,
};
use crate::str_map::{
    distinct_keys, has_key, inserted, key_index, lemma_inserted, lemma_key_index, lemma_map_vals,
    lemma_removed, lookup, map_vals, removed, StrMap,
};
use crate::sums::{lemma_sum_push, lemma_sum_swap_remove, lemma_sum_update, sum_of};
use crate::types::{
    lite_views, AccountId, AppchainId, AppchainStatus, Balance, Burned, Fact, FactView,
    LiteValidator, LiteValidatorView, Locked, SeqNum, Timestamp, ValidatorId, ValidatorSet,
    ValidatorSetView, fact_views,
};
use crate::error::RelayError;
use vstd::multiset::Multiset;
use vstd::prelude::*;

verus! {

/// Entries of a validators map: id of the validator and its record, if still stored.
pub type ValidatorEntries = Seq<(Seq<char>, Option<AppchainValidator>)>;

/// Entries of a validators map, each record by its view.
pub type ValidatorViewEntries = Seq<(Seq<char>, Option<AppchainValidatorView>)>;

/// The view of an optional validator record.
pub open spec fn opt_view(v: Option<AppchainValidator>) -> Option<AppchainValidatorView> {
    match v {
        Some(x) => Some(x@),
        None => None,
    }
}

/// The entries of a validators map by their views.
pub open spec fn validator_views(s: ValidatorEntries) -> ValidatorViewEntries {
    map_vals(s, |v: Option<AppchainValidator>| opt_view(v))
}

/// A stored validator record is kept under its own id and is well formed.
pub open spec fn validator_entry_ok(e: (Seq<char>, Option<AppchainValidatorView>)) -> bool {
    match e.1 {
        Some(v) => v.validator_id@ == e.0 && v.wf(),
        None => true,
    }
}

/// Every entry of a validators map is well formed.
pub open spec fn validator_entries_ok(s: ValidatorViewEntries) -> bool {
    distinct_keys(s) && forall|i: int| 0 <= i < s.len() ==> validator_entry_ok(#[trigger] s[i])
}

/// The stored validator records of a map, in the map's order.
pub open spec fn present(s: ValidatorViewEntries) -> Seq<AppchainValidatorView>
    decreases s.len(),
{
    if s.len() == 0 {
        Seq::empty()
    } else {
        match s.last().1 {
            Some(v) => present(s.drop_last()).push(v),
            None => present(s.drop_last()),
        }
    }
}

/// The members of a validator set made of the given validators, in the same order.
pub open spec fn lite_list(s: Seq<AppchainValidatorView>) -> Seq<LiteValidatorView> {
    s.map_values(|v: AppchainValidatorView| v.lite_view())
}

/// No member comes after a later member in the byte order of their ids.
pub open spec fn sorted_by_id(s: Seq<LiteValidatorView>) -> bool {
    forall|i: int, j: int| 0 <= i < j < s.len() ==> !lex_lt(str_bytes(#[trigger] s[j].id@), str_bytes(#[trigger] s[i].id@))
}

/// Stake held by an entry of a validators map: its total, or nothing once its record is dropped.
pub open spec fn stake_of(e: (Seq<char>, Option<AppchainValidatorView>)) -> int {
    match e.1 {
        Some(v) => v.staked_total(),
        None => 0,
    }
}

/// Total stake of the validators of a map.
pub open spec fn validators_stake(s: ValidatorViewEntries) -> int {
    sum_of(s, |e: (Seq<char>, Option<AppchainValidatorView>)| stake_of(e))
}

/// `r` is the validator set with the given numbers made of the stored validators of `vals`,
/// sorted by the byte order of their ids.
pub open spec fn is_validator_set_of(r: ValidatorSetView, seq_num: SeqNum, set_id: u32, vals: ValidatorViewEntries) -> bool {
    &&& r.seq_num == seq_num
    &&& r.set_id == set_id
    &&& sorted_by_id(r.validators)
    &&& r.validators.to_multiset() == lite_list(present(vals)).to_multiset()
}

/// The sequence number given to the fact appended after `len` facts.
pub open spec fn next_seq_num(len: nat) -> SeqNum {
    if len <= u32::MAX {
        len as u32
    } else {
        0
    }
}

/// The number of lock facts among the facts.
pub open spec fn lock_count(f: Seq<FactView>) -> nat
    decreases f.len(),
{
    if f.len() == 0 {
        0
    } else {
        lock_count(f.drop_last()) + if f.last() is LockToken {
            1nat
        } else {
            0nat
        }
    }
}

/// The sequence number given to a lock appended after the facts `f`: the number of locks
/// among them.
pub open spec fn next_lock_seq_num(f: Seq<FactView>) -> SeqNum {
    if lock_count(f) <= u32::MAX {
        lock_count(f) as u32
    } else {
        0
    }
}

/// The fact at position `i` carries its number: a lock its rank among the locks, any other
/// fact its position.
pub open spec fn fact_numbered(f: Seq<FactView>, i: int) -> bool {
    match f[i] {
        FactView::LockToken(l) => l.seq_num == lock_count(f.take(i)),
        _ => f[i].seq_num() == i,
    }
}

/// Every fact carries its number: locks are numbered 0, 1, ... in the order they were made,
/// and every other fact carries its own position.
pub open spec fn facts_indexed(f: Seq<FactView>) -> bool {
    forall|i: int| 0 <= i < f.len() ==> #[trigger] fact_numbered(f, i)
}

/// There are no more locks than facts.
pub proof fn lemma_lock_count_bound(f: Seq<FactView>)
    ensures
        lock_count(f) <= f.len(),
    decreases f.len(),
{
    if f.len() > 0 {
        lemma_lock_count_bound(f.drop_last());
    }
}

/// Appending a fact that is no lock keeps the number of locks.
pub proof fn lemma_lock_count_push_other(f: Seq<FactView>, x: FactView)
    requires
        !(x is LockToken),
    ensures
        lock_count(f.push(x)) == lock_count(f),
{
    assert(f.push(x).drop_last() =~= f);
}

/// Appending a fact that carries its number keeps the facts numbered.
pub proof fn lemma_indexed_push(f: Seq<FactView>, x: FactView)
    requires
        facts_indexed(f),
        fact_numbered(f.push(x), f.len() as int),
    ensures
        facts_indexed(f.push(x)),
{
    assert forall|i: int| 0 <= i < f.push(x).len() implies #[trigger] fact_numbered(f.push(x), i) by {
        if i < f.len() {
            assert(f.push(x).take(i) =~= f.take(i));
            assert(fact_numbered(f, i));
        }
    }
}

/// A fact that is no lock, appended at a position that fits its number, carries its number.
pub proof fn lemma_push_other(f: Seq<FactView>, x: FactView)
    requires
        facts_indexed(f),
        !(x is LockToken),
        x.seq_num() == f.len(),
    ensures
        facts_indexed(f.push(x)),
{
    lemma_indexed_push(f, x);
}

/// A lock appended with the number of locks before it carries its number.
pub proof fn lemma_push_lock(f: Seq<FactView>, l: Locked)
    requires
        facts_indexed(f),
        f.len() <= u32::MAX,
        l.seq_num == next_lock_seq_num(f),
    ensures
        facts_indexed(f.push(FactView::LockToken(l))),
        lock_count(f.push(FactView::LockToken(l))) == lock_count(f) + 1,
{
    lemma_lock_count_bound(f);
    assert(f.push(FactView::LockToken(l)).take(f.len() as int) =~= f);
    assert(f.push(FactView::LockToken(l)).drop_last() =~= f);
    lemma_indexed_push(f, FactView::LockToken(l));
}

/// The last validator set among the facts.
pub open spec fn last_validator_set(f: Seq<FactView>) -> Option<ValidatorSetView>
    decreases f.len(),
{
    if f.len() == 0 {
        None
    } else {
        match f.last() {
            FactView::UpdateValidatorSet(s) => Some(s),
            _ => last_validator_set(f.drop_last()),
        }
    }
}

/// The first validator set among the facts with the given set id.
pub open spec fn first_set_with_id(f: Seq<FactView>, set_id: u32) -> Option<ValidatorSetView>
    decreases f.len(),
{
    if f.len() == 0 {
        None
    } else {
        match f[0] {
            FactView::UpdateValidatorSet(s) => if s.set_id == set_id {
                Some(s)
            } else {
                first_set_with_id(f.drop_first(), set_id)
            },
            _ => first_set_with_id(f.drop_first(), set_id),
        }
    }
}

/// The current validator set is the one appended last: appending a validator set makes it the
/// current one, and appending any other fact leaves the current one as it was. In particular
/// after a validator set made of `vals` was appended (at boot, by a stake while booting, before
/// a lock or a burn), the current set is that set.
pub proof fn law_current_set_is_last_appended(f: Seq<FactView>, x: FactView, new: Seq<FactView>, set_id: u32, vals: ValidatorViewEntries)
    ensures
        x matches FactView::UpdateValidatorSet(s) ==> last_validator_set(f.push(x)) == Some(s),
        !(x is UpdateValidatorSet) ==> last_validator_set(f.push(x)) == last_validator_set(f),
        last_validator_set(f) matches Some(s) ==> exists|i: int| 0 <= i < f.len() && f[i] == FactView::UpdateValidatorSet(s),
        appended_set(f, new, set_id, vals) ==> (last_validator_set(new) matches Some(s) && is_validator_set_of(
            s,
            next_seq_num(f.len()),
            set_id,
            vals,
        )),
    decreases f.len(),
{
    assert(f.push(x).drop_last() =~= f);
    if f.len() > 0 {
        law_current_set_is_last_appended(f.drop_last(), x, new, set_id, vals);
        if let Some(s) = last_validator_set(f) {
            if !(f.last() is UpdateValidatorSet) {
                let i = choose|i: int| 0 <= i < f.drop_last().len() && f.drop_last()[i] == FactView::UpdateValidatorSet(s);
                assert(f[i] == f.drop_last()[i]);
            } else {
                assert(f[f.len() - 1] == FactView::UpdateValidatorSet(s));
            }
        }
    }
    if appended_set(f, new, set_id, vals) {
        assert(new =~= f.push(new.last()));
    }
}

/// The validator set with a given set id is the earliest appended one with that id: it is
/// one of the facts and carries the id, appending any fact never changes it once there is one,
/// and a validator set with the id appended when there is none becomes it.
pub proof fn law_set_by_id_is_earliest(f: Seq<FactView>, x: FactView, set_id: u32)
    ensures
        first_set_with_id(f, set_id) matches Some(s) ==> s.set_id == set_id && exists|i: int|
            0 <= i < f.len() && f[i] == FactView::UpdateValidatorSet(s),
        first_set_with_id(f, set_id) is Some ==> first_set_with_id(f.push(x), set_id) == first_set_with_id(f, set_id),
        first_set_with_id(f, set_id) is None ==> (x matches FactView::UpdateValidatorSet(s) ==> (s.set_id == set_id
            ==> first_set_with_id(f.push(x), set_id) == Some(s))),
        first_set_with_id(f, set_id) is None ==> ((x matches FactView::UpdateValidatorSet(s) ==> s.set_id != set_id)
            ==> first_set_with_id(f.push(x), set_id) is None),
    decreases f.len(),
{
    if f.len() == 0 {
        assert(f.push(x).drop_first() =~= Seq::<FactView>::empty());
        assert(f.push(x)[0] == x);
        assert(first_set_with_id(Seq::<FactView>::empty(), set_id) is None);
    } else {
        let d = f.drop_first();
        assert(f.push(x).drop_first() =~= d.push(x));
        assert(f.push(x)[0] == f[0]);
        law_set_by_id_is_earliest(d, x, set_id);
        if let Some(s) = first_set_with_id(f, set_id) {
            if f[0] == FactView::UpdateValidatorSet(s) {
            } else {
                let i = choose|i: int| 0 <= i < d.len() && d[i] == FactView::UpdateValidatorSet(s);
                assert(f[i + 1] == d[i]);
            }
        }
    }
}

/// Each stored record is one of the entries of the validators.
proof fn lemma_present_from(vals: ValidatorViewEntries, i: int)
    requires
        0 <= i < present(vals).len(),
    ensures
        exists|j: int| 0 <= j < vals.len() && (#[trigger] vals[j]).1 == Some(present(vals)[i]),
    decreases vals.len(),
{
    let d = vals.drop_last();
    match vals.last().1 {
        Some(v) => {
            if i == present(d).len() {
                assert(vals[vals.len() - 1].1 == Some(present(vals)[i]));
            } else {
                lemma_present_from(d, i);
                let j = choose|j: int| 0 <= j < d.len() && (#[trigger] d[j]).1 == Some(present(d)[i]);
                assert(vals[j] == d[j]);
            }
        },
        None => {
            lemma_present_from(d, i);
            let j = choose|j: int| 0 <= j < d.len() && (#[trigger] d[j]).1 == Some(present(d)[i]);
            assert(vals[j] == d[j]);
        },
    }
}

/// Every member of a validator set made of the validators `vals` (the next validator set, and
/// each set appended to the facts) stands for one of their stored records: it carries that
/// record's id, the account that staked it, and its staked amount as its weight.
pub proof fn law_set_members_are_stored_validators(
    r: ValidatorSetView,
    seq_num: SeqNum,
    set_id: u32,
    vals: ValidatorViewEntries,
    k: int,
)
    requires
        is_validator_set_of(r, seq_num, set_id, vals),
        0 <= k < r.validators.len(),
    ensures
        exists|j: int|
            0 <= j < vals.len() && (#[trigger] vals[j]).1 is Some && vals[j].1.unwrap().validator_id == r.validators[k].id
                && vals[j].1.unwrap().account_id == r.validators[k].account_id && vals[j].1.unwrap().amount
                == r.validators[k].weight,
{
    let m = r.validators[k];
    let l = lite_list(present(vals));
    r.validators.to_multiset_ensures();
    l.to_multiset_ensures();
    assert(r.validators.contains(m));
    assert(r.validators.to_multiset().count(m) > 0);
    assert(l.to_multiset().count(m) > 0);
    assert(l.contains(m));
    let i = choose|i: int| 0 <= i < l.len() && l[i] == m;
    assert(l[i] == present(vals)[i].lite_view());
    lemma_present_from(vals, i);
    let j = choose|j: int| 0 <= j < vals.len() && (#[trigger] vals[j]).1 == Some(present(vals)[i]);
    assert(vals[j].1.unwrap().account_id == m.account_id);
}

/// Appchain state of an appchain of Octopus Network
pub struct AppchainState {
    /// Id of the appchain
    pub appchain_id: AppchainId,
    /// Validators collection of the appchain
    pub validators: StrMap<Option<AppchainValidator>>,
    /// Nonce of validator set of the appchain.
    ///
    /// This nonce will be increased by 1 for each staking action to the appchain,
    /// the staking action includes a new validator stakes some OCT tokens or
    /// an existed validator changes its staking balance.
    pub validators_nonce: u32,
    /// Last update time of validator set of the appchain, will be updated for each staking action
    pub validators_timestamp: Timestamp,
    /// Timestamp when the appchain boots
    pub booting_timestamp: Timestamp,
    /// Nonce of currently valid validators set of the appchain.
    pub currently_valid_validators_nonce: u32,
    /// Collection of validators which were removed from the appchain
    ///
    /// Each remove action for validator will create a new key in this collection,
    /// for users to withdraw their tokens.
    pub removed_validators: StrMap<Option<AppchainValidator>>,
    /// History records of facts happened which were related to the appchain
    pub facts: Vec<Fact>,
    /// Current status of the appchain
    pub status: AppchainStatus,
    /// Total staked balance of OCT token of the appchain
    pub staked_balance: Balance,
    /// Collection of total amount of locked tokens
    pub total_locked_tokens: StrMap<u128>,
    /// Total upvote balance of OCT token of the appchain
    pub upvote_balance: Balance,
    /// Total downvote balance of OCT token of the appchain
    pub downvote_balance: Balance,
    /// Number of messages from the appchain executed on NEAR
    pub message_nonce: u32,
}

impl AppchainState {
    /// The validators of the appchain by their views.
    pub open spec fn vals(&self) -> ValidatorViewEntries {
        validator_views(self.validators.spec_entries())
    }

    /// The facts of the appchain by their views.
    pub open spec fn fact_list(&self) -> Seq<FactView> {
        fact_views(self.facts@)
    }

    /// Amount of a token locked for the appchain.
    pub open spec fn locked_of(&self, token_id: Seq<char>) -> u128 {
        match self.total_locked_tokens.spec_get(token_id) {
            Some(a) => a,
            None => 0,
        }
    }

    /// The maps have distinct keys and every stored validator record is well formed.
    pub open spec fn wf(&self) -> bool {
        &&& validator_entries_ok(self.vals())
        &&& validator_entries_ok(validator_views(self.removed_validators.spec_entries()))
        &&& self.validators.wf()
        &&& self.removed_validators.wf()
        &&& self.total_locked_tokens.wf()
    }

    /// The validator set made of the current validators, sorted by id.
    pub open spec fn is_latest_validator_set(&self, r: ValidatorSetView) -> bool {
        is_validator_set_of(r, next_seq_num(self.facts@.len()), self.validators_nonce, self.vals())
    }

    /// All fields but the validators, the stake, the timestamps and the facts are unchanged.
    pub open spec fn same_except_validators(&self, other: &Self) -> bool {
        &&& other.appchain_id == self.appchain_id
        &&& other.booting_timestamp == self.booting_timestamp
        &&& other.currently_valid_validators_nonce == self.currently_valid_validators_nonce
        &&& validator_views(other.removed_validators.spec_entries()) == validator_views(self.removed_validators.spec_entries())
        &&& other.status == self.status
        &&& other.total_locked_tokens.spec_entries() == self.total_locked_tokens.spec_entries()
        &&& other.upvote_balance == self.upvote_balance
        &&& other.downvote_balance == self.downvote_balance
        &&& other.message_nonce == self.message_nonce
    }

    /// The state of a newly registered appchain with the given id.
    pub open spec fn is_initial(&self, appchain_id: AppchainId) -> bool {
        &&& self.wf()
        &&& self.appchain_id == appchain_id
        &&& self.vals() == ValidatorViewEntries::empty()
        &&& self.validators_nonce == 0
        &&& self.currently_valid_validators_nonce == 0
        &&& self.validators_timestamp == 0
        &&& self.booting_timestamp == 0
        &&& validator_views(self.removed_validators.spec_entries()) == ValidatorViewEntries::empty()
        &&& self.facts@ == Seq::<Fact>::empty()
        &&& self.status == AppchainStatus::Auditing
        &&& self.staked_balance == 0
        &&& self.total_locked_tokens.spec_entries() == Seq::<(Seq<char>, u128)>::empty()
        &&& self.upvote_balance == 0
        &&& self.downvote_balance == 0
        &&& self.message_nonce == 0
    }

    /// Return a new instance of AppchainState with the given `AppchainId`
    pub fn new(appchain_id: &AppchainId) -> (r: Self)
        ensures
            r.is_initial(*appchain_id),
            r.wf(),
            r.appchain_id == *appchain_id,
            r.vals() == ValidatorViewEntries::empty(),
            r.validators_nonce == 0,
            r.currently_valid_validators_nonce == 0,
            r.validators_timestamp == 0,
            r.booting_timestamp == 0,
            validator_views(r.removed_validators.spec_entries()) == ValidatorViewEntries::empty(),
            r.facts@ == Seq::<Fact>::empty(),
            r.status == AppchainStatus::Auditing,
            r.staked_balance == 0,
            r.total_locked_tokens.spec_entries() == Seq::<(Seq<char>, u128)>::empty(),
            r.upvote_balance == 0,
            r.downvote_balance == 0,
            r.message_nonce == 0,
    {
        let r = AppchainState {
            appchain_id: appchain_id.clone(),
            validators: StrMap::new(),
            validators_nonce: 0,
            currently_valid_validators_nonce: 0,
            validators_timestamp: 0,
            booting_timestamp: 0,
            removed_validators: StrMap::new(),
            facts: Vec::new(),
            status: AppchainStatus::Auditing,
            staked_balance: 0,
            total_locked_tokens: StrMap::new(),
            upvote_balance: 0,
            downvote_balance: 0,
            message_nonce: 0,
        };
        assert(r.vals() =~= ValidatorViewEntries::empty());
        assert(validator_views(r.removed_validators.spec_entries()) =~= ValidatorViewEntries::empty());
        r
    }
}

/// The stored records of a prefix one entry longer gain that entry's record, if stored.
pub proof fn lemma_present_prefix(s: ValidatorViewEntries, k: int)
    requires
        0 < k <= s.len(),
    ensures
        present(s.subrange(0, k)) == match s[k - 1].1 {
            Some(v) => present(s.subrange(0, k - 1)).push(v),
            None => present(s.subrange(0, k - 1)),
        },
{
    assert(s.subrange(0, k).drop_last() =~= s.subrange(0, k - 1));
}

/// Sorts members of a validator set by the byte order of their ids.
pub fn sort_by_id(v: Vec<LiteValidator>) -> (r: Vec<LiteValidator>)
    ensures
        sorted_by_id(lite_views(r@)),
        lite_views(r@).to_multiset() == lite_views(v@).to_multiset(),
{
    broadcast use vstd::seq_lib::group_to_multiset_ensures;
    let ghost v0 = v@;
    let mut v = v;
    let mut r: Vec<LiteValidator> = Vec::new();
    while v.len() > 0
        invariant
            sorted_by_id(lite_views(r@)),
            lite_views(r@).to_multiset().add(lite_views(v@).to_multiset()) == lite_views(v0).to_multiset(),
        decreases v@.len(),
    {
        let ghost vb = v@;
        let ghost rb = r@;
        let x = v.pop().unwrap();
        proof {
            assert(vb == v@.push(x));
            assert(lite_views(vb) =~= lite_views(v@).push(x@));
        }
        let mut p: usize = 0;
        while p < r.len() && !str_lt(&x.id, &r[p].id)
            invariant
                r@ == rb,
                p <= r@.len(),
                forall|j: int| 0 <= j < p ==> !lex_lt(str_bytes(x.id@), str_bytes(#[trigger] r@[j].id@)),
            decreases r@.len() - p,
        {
            p = p + 1;
        }
        let ghost xv = x@;
        r.insert(p, x);
        proof {
            assert(lite_views(r@) =~= lite_views(rb).insert(p as int, xv));
            let s = lite_views(r@);
            let sb = lite_views(rb);
            assert forall|i: int, j: int| 0 <= i < j < s.len() implies
                !lex_lt(str_bytes(#[trigger] s[j].id@), str_bytes(#[trigger] s[i].id@)) by {
                if j < p {
                    assert(s[i] == sb[i] && s[j] == sb[j]);
                } else if j == p {
                    assert(s[i] == sb[i]);
                    assert(s[j] == xv);
                } else if i == p {
                    assert(s[j] == sb[j - 1]);
                    assert(lex_lt(str_bytes(xv.id@), str_bytes(sb[p as int].id@)));
                    if j - 1 > p {
                        assert(!lex_lt(str_bytes(sb[j - 1].id@), str_bytes(sb[p as int].id@)));
                    } else {
                        lemma_lex_asymmetric(str_bytes(xv.id@), str_bytes(sb[p as int].id@));
                    }
                    if lex_lt(str_bytes(sb[j - 1].id@), str_bytes(xv.id@)) {
                        lemma_lex_transitive(str_bytes(sb[j - 1].id@), str_bytes(xv.id@), str_bytes(sb[p as int].id@));
                        if j - 1 == p {
                            lemma_lex_asymmetric(str_bytes(xv.id@), str_bytes(sb[p as int].id@));
                        }
                    }
                } else if i < p {
                    assert(s[i] == sb[i] && s[j] == sb[j - 1]);
                } else {
                    assert(s[i] == sb[i - 1] && s[j] == sb[j - 1]);
                }
            }
            vstd::seq_lib::to_multiset_insert(lite_views(rb), p as int, xv);
            vstd::seq_lib::to_multiset_build(lite_views(v@), xv);
            assert(lite_views(r@).to_multiset() == lite_views(rb).to_multiset().insert(xv));
            assert(lite_views(vb).to_multiset() == lite_views(v@).to_multiset().insert(xv));
            assert(lite_views(r@).to_multiset().add(lite_views(v@).to_multiset())
                =~= lite_views(rb).to_multiset().add(lite_views(vb).to_multiset()));
        }
    }
    proof {
        assert(lite_views(v@).to_multiset() =~= Multiset::<LiteValidatorView>::empty());
        assert(lite_views(r@).to_multiset().add(Multiset::<LiteValidatorView>::empty())
            =~= lite_views(r@).to_multiset());
    }
    r
}

impl AppchainState {
    /// Clear extra storage used by the appchain: every validator record is dropped,
    /// while the ids stay in the map.
    pub fn clear_extra_storage(&mut self)
        requires
            old(self).wf(),
        ensures
            final(self).wf(),
            final(self).same_except_validators(old(self)),
            final(self).staked_balance == old(self).staked_balance,
            final(self).validators_nonce == old(self).validators_nonce,
            final(self).validators_timestamp == old(self).validators_timestamp,
            final(self).facts@ == old(self).facts@,
            final(self).vals() == old(self).vals().map_values(
                |e: (Seq<char>, Option<AppchainValidatorView>)| (e.0, None::<AppchainValidatorView>),
            ),
    {
        let n = self.validators.len();
        let mut i: usize = 0;
        while i < n
            invariant
                n == self.validators.spec_len(),
                n == old(self).validators.spec_len(),
                i <= n,
                self.wf(),
                self.same_except_validators(old(self)),
                self.staked_balance == old(self).staked_balance,
                self.validators_nonce == old(self).validators_nonce,
                self.validators_timestamp == old(self).validators_timestamp,
                self.facts@ == old(self).facts@,
                forall|j: int| 0 <= j < i ==> (#[trigger] self.vals()[j]) == (old(self).vals()[j].0, None::<AppchainValidatorView>),
                forall|j: int| i <= j < n ==> (#[trigger] self.vals()[j]) == old(self).vals()[j],
            decreases n - i,
        {
            let ghost prev = self.vals();
            self.validators.set_value_at(i, None);
            proof {
                let s = self.vals();
                assert forall|a: int| 0 <= a < s.len() implies #[trigger] s[a] == (if a == i {
                    (prev[a].0, None::<AppchainValidatorView>)
                } else {
                    prev[a]
                }) by {}
                assert forall|a: int| 0 <= a < s.len() implies validator_entry_ok(#[trigger] s[a]) by {
                    if a != i {
                        assert(s[a] == prev[a]);
                    }
                }
                lemma_map_vals(self.validators.spec_entries(), |v: Option<AppchainValidator>| opt_view(v), Seq::empty(), None);
            }
            i = i + 1;
        }
        assert(self.vals() =~= old(self).vals().map_values(
            |e: (Seq<char>, Option<AppchainValidatorView>)| (e.0, None::<AppchainValidatorView>),
        ));
    }

    /// Get all validators of the appchain
    pub fn get_validators(&self) -> (r: Vec<AppchainValidator>)
        requires
            self.wf(),
        ensures
            r@.map_values(|v: AppchainValidator| v@) == present(self.vals()),
    {
        let n = self.validators.len();
        let mut r: Vec<AppchainValidator> = Vec::new();
        let mut i: usize = 0;
        while i < n
            invariant
                n == self.validators.spec_len(),
                i <= n,
                r@.map_values(|v: AppchainValidator| v@) == present(self.vals().subrange(0, i as int)),
            decreases n - i,
        {
            proof {
                lemma_present_prefix(self.vals(), i + 1);
            }
            let ghost rb = r@;
            match self.validators.value_at(i) {
                Some(v) => {
                    r.push(v.clone());
                    assert(r@.map_values(|v: AppchainValidator| v@) =~= rb.map_values(|v: AppchainValidator| v@).push(v@));
                },
                None => {},
            }
            i = i + 1;
        }
        assert(self.vals().subrange(0, n as int) =~= self.vals());
        r
    }

    /// Get validator by `ValidatorId`
    pub fn get_validator(&self, validator_id: &ValidatorId) -> (r: Option<AppchainValidator>)
        requires
            self.wf(),
        ensures
            opt_view(r) == match lookup(self.vals(), validator_id@) {
                Some(v) => v,
                None => None,
            },
    {
        proof {
            lemma_map_vals(self.validators.spec_entries(), |v: Option<AppchainValidator>| opt_view(v), validator_id@, None);
        }
        match self.validators.get(validator_id) {
            Some(Some(v)) => Some(v.clone()),
            _ => None,
        }
    }

    /// Members of the next validator set: the stored validators, in the map's order.
    fn collect_lite_validators(&self) -> (r: Vec<LiteValidator>)
        requires
            self.wf(),
        ensures
            lite_views(r@) == lite_list(present(self.vals())),
    {
        let n = self.validators.len();
        let mut r: Vec<LiteValidator> = Vec::new();
        let mut i: usize = 0;
        while i < n
            invariant
                n == self.validators.spec_len(),
                i <= n,
                self.wf(),
                lite_views(r@) == lite_list(present(self.vals().subrange(0, i as int))),
            decreases n - i,
        {
            proof {
                lemma_present_prefix(self.vals(), i + 1);
            }
            let ghost rb = r@;
            match self.validators.value_at(i) {
                Some(v) => {
                    assert(validator_entry_ok(self.vals()[i as int]));
                    let l = v.to_lite_validator();
                    r.push(l);
                    assert(lite_views(r@) =~= lite_views(rb).push(l@));
                    assert(lite_list(present(self.vals().subrange(0, i + 1)))
                        =~= lite_list(present(self.vals().subrange(0, i as int))).push(v@.lite_view()));
                },
                None => {},
            }
            i = i + 1;
        }
        assert(self.vals().subrange(0, n as int) =~= self.vals());
        r
    }

    /// Convert current validators array to struct `ValidatorSet`
    pub fn get_latest_validator_set(&self) -> (r: ValidatorSet)
        requires
            self.wf(),
        ensures
            self.is_latest_validator_set(r@),
    {
        let validators = sort_by_id(self.collect_lite_validators());
        let len = self.facts.len();
        let next_sequence_number: u32 = if len <= 0xffff_ffff {
            len as u32
        } else {
            0
        };
        ValidatorSet { seq_num: next_sequence_number, set_id: self.validators_nonce, validators }
    }

    /// Get validator set of the next epoch
    pub fn get_next_validator_set(&self) -> (r: Option<ValidatorSet>)
        requires
            self.wf(),
        ensures
            r is Some <==> self.status == AppchainStatus::Booting,
            r matches Some(s) ==> self.is_latest_validator_set(s@),
    {
        if self.status != AppchainStatus::Booting {
            return None;
        }
        Some(self.get_latest_validator_set())
    }

    /// Get validator set of current epoch
    ///
    /// The return data is come from the facts of the appchain
    pub fn get_current_validator_set(&self) -> (r: Option<ValidatorSet>)
        ensures
            match r {
                Some(s) => self.status == AppchainStatus::Booting
                    && last_validator_set(self.fact_list()) == Some(s@),
                None => self.status != AppchainStatus::Booting
                    || last_validator_set(self.fact_list()) is None,
            },
    {
        if self.status != AppchainStatus::Booting {
            return None;
        }
        let mut i: usize = self.facts.len();
        assert(self.fact_list().subrange(0, i as int) =~= self.fact_list());
        while i > 0
            invariant
                self.status == AppchainStatus::Booting,
                i <= self.facts@.len(),
                last_validator_set(self.fact_list()) == last_validator_set(self.fact_list().subrange(0, i as int)),
            decreases i,
        {
            assert(self.fact_list().subrange(0, i as int).drop_last() =~= self.fact_list().subrange(0, i - 1));
            assert(self.fact_list()[i - 1] == self.facts@[i - 1]@);
            match &self.facts[i - 1] {
                Fact::UpdateValidatorSet(s) => {
                    return Some(s.clone());
                },
                _ => {},
            }
            i = i - 1;
        }
        None
    }

    /// Get a validators history record by nonce
    pub fn get_validators_history_by_nonce(&self, validators_nonce: u32) -> (r: Option<ValidatorSet>)
        ensures
            match r {
                Some(s) => first_set_with_id(self.fact_list(), validators_nonce) == Some(s@),
                None => first_set_with_id(self.fact_list(), validators_nonce) is None,
            },
    {
        let n = self.facts.len();
        let mut i: usize = 0;
        assert(self.fact_list().skip(0) =~= self.fact_list());
        while i < n
            invariant
                n == self.facts@.len(),
                i <= n,
                first_set_with_id(self.fact_list(), validators_nonce)
                    == first_set_with_id(self.fact_list().skip(i as int), validators_nonce),
            decreases n - i,
        {
            assert(self.fact_list().skip(i as int).drop_first() =~= self.fact_list().skip(i + 1));
            assert(self.fact_list().skip(i as int)[0] == self.facts@[i as int]@);
            match &self.facts[i] {
                Fact::UpdateValidatorSet(s) => {
                    if s.set_id == validators_nonce {
                        return Some(s.clone());
                    }
                },
                _ => {},
            }
            i = i + 1;
        }
        None
    }
}

/// The validators after `amount` is staked to `id`: a stored validator gains the amount,
/// an absent one is created by `account_id` at `block_height`, a dropped record stays dropped.
pub open spec fn staked_vals(
    s: ValidatorViewEntries,
    validator_id: ValidatorId,
    account_id: AccountId,
    amount: Balance,
    block_height: u64,
) -> ValidatorViewEntries {
    match lookup(s, validator_id@) {
        Some(Some(v)) => inserted(
            s,
            validator_id@,
            Some(AppchainValidatorView { amount: (v.amount + amount) as u128, ..v }),
        ),
        Some(None) => s,
        None => inserted(
            s,
            validator_id@,
            Some(
                AppchainValidatorView {
                    validator_id,
                    account_id,
                    amount,
                    block_height,
                    delegators: Seq::empty(),
                },
            ),
        ),
    }
}

/// `new` is `old` followed by a validator set with the given set id, made of the given validators.
pub open spec fn appended_set(old: Seq<FactView>, new: Seq<FactView>, set_id: u32, vals: ValidatorViewEntries) -> bool {
    &&& new.len() == old.len() + 1
    &&& new.subrange(0, old.len() as int) == old
    &&& new.last() matches FactView::UpdateValidatorSet(s) && is_validator_set_of(s, next_seq_num(old.len()), set_id, vals)
}

/// Stake held by the validators does not count dropped records.
pub proof fn lemma_stake_nonneg(s: ValidatorViewEntries)
    requires
        validator_entries_ok(s),
    ensures
        forall|i: int| 0 <= i < s.len() ==> stake_of(#[trigger] s[i]) >= 0,
{
    assert forall|i: int| 0 <= i < s.len() implies stake_of(#[trigger] s[i]) >= 0 by {
        match s[i].1 {
            Some(v) => {
                crate::sums::lemma_sum_bounds(v.delegators, |e: (Seq<char>, Option<AppchainDelegator>)| crate::appchain::validator::delegation_of(e));
            },
            None => {},
        }
    }
}

impl AppchainState {
    /// Stake to `validator_id` cannot overflow.
    pub open spec fn stake_fits(&self, validator_id: Seq<char>, amount: Balance) -> bool {
        &&& self.staked_balance + amount <= u128::MAX
        &&& lookup(self.vals(), validator_id) matches Some(Some(v)) ==> v.amount + amount <= u128::MAX
    }

    /// `next` is this state booted at `block_timestamp`: booting, both timestamps set, and its
    /// current validator set appended to its facts; all else unchanged.
    pub open spec fn boots_into(&self, next: &Self, block_timestamp: Timestamp) -> bool {
        &&& next.status == AppchainStatus::Booting
        &&& next.validators_timestamp == block_timestamp
        &&& next.booting_timestamp == block_timestamp
        &&& next.appchain_id == self.appchain_id
        &&& next.vals() == self.vals()
        &&& next.validators_nonce == self.validators_nonce
        &&& next.staked_balance == self.staked_balance
        &&& next.currently_valid_validators_nonce == self.currently_valid_validators_nonce
        &&& validator_views(next.removed_validators.spec_entries()) == validator_views(self.removed_validators.spec_entries())
        &&& next.total_locked_tokens.spec_entries() == self.total_locked_tokens.spec_entries()
        &&& next.upvote_balance == self.upvote_balance
        &&& next.downvote_balance == self.downvote_balance
        &&& next.message_nonce == self.message_nonce
        &&& appended_set(self.fact_list(), next.fact_list(), self.validators_nonce, self.vals())
    }

    /// Boot the appchain at `block_timestamp`: its first validator set becomes a fact.
    pub fn boot(&mut self, block_timestamp: Timestamp)
        requires
            old(self).wf(),
        ensures
            final(self).wf(),
            old(self).boots_into(&*final(self), block_timestamp),
            facts_indexed(old(self).fact_list()) && old(self).facts@.len() <= u32::MAX ==> facts_indexed(final(self).fact_list()),
    {
        self.status = AppchainStatus::Booting;
        self.validators_timestamp = block_timestamp;
        self.booting_timestamp = block_timestamp;
        let set = self.get_latest_validator_set();
        let ghost set_view = set@;
        self.facts.push(Fact::UpdateValidatorSet(set));
        proof {
            assert(self.fact_list() =~= old(self).fact_list().push(FactView::UpdateValidatorSet(set_view)));
            assert(self.fact_list().subrange(0, old(self).fact_list().len() as int) =~= old(self).fact_list());
            if facts_indexed(old(self).fact_list()) && old(self).facts@.len() <= u32::MAX {
                lemma_push_other(old(self).fact_list(), FactView::UpdateValidatorSet(set_view));
            }
        }
    }

    /// Stake `amount` of OCT tokens to `validator_id`, signed by `signer_account_id`.
    ///
    /// Staking is possible in staging and booting. Each stake raises the validators nonce by
    /// one; while booting it also opens a new validator set. Returns whether the stake was taken.
    pub fn stake(
        &mut self,
        validator_id: &ValidatorId,
        amount: Balance,
        signer_account_id: &AccountId,
        block_index: u64,
        block_timestamp: Timestamp,
    ) -> (r: bool)
        requires
            old(self).wf(),
            old(self).stake_fits(validator_id@, amount),
            old(self).status == AppchainStatus::Staging || old(self).status == AppchainStatus::Booting
                ==> old(self).validators_nonce < u32::MAX,
        ensures
            final(self).wf(),
            r == (old(self).status == AppchainStatus::Staging || old(self).status == AppchainStatus::Booting),
            !r ==> *final(self) == *old(self),
            r ==> final(self).vals() == staked_vals(old(self).vals(), *validator_id, *signer_account_id, amount, block_index),
            r ==> final(self).staked_balance == old(self).staked_balance + amount,
            r ==> final(self).validators_timestamp == block_timestamp,
            r ==> final(self).same_except_validators(old(self)),
            r ==> final(self).validators_nonce == old(self).validators_nonce + 1,
            r && old(self).status == AppchainStatus::Staging ==> final(self).facts@ == old(self).facts@,
            r && old(self).status == AppchainStatus::Booting ==> final(self).validators_nonce == old(self).validators_nonce + 1
                && appended_set(old(self).fact_list(), final(self).fact_list(), (old(self).validators_nonce + 1) as u32, final(self).vals()),
            r && lookup(old(self).vals(), validator_id@) != Some(None::<AppchainValidatorView>) ==>
                validators_stake(final(self).vals()) == validators_stake(old(self).vals()) + amount,
            facts_indexed(old(self).fact_list()) && old(self).facts@.len() <= u32::MAX ==> facts_indexed(final(self).fact_list()),
    {
        match self.status {
            AppchainStatus::Staging => {
                self.update_validator_amount(validator_id, signer_account_id, amount, block_index, block_timestamp);
                self.validators_nonce = self.validators_nonce + 1;
                true
            },
            AppchainStatus::Booting => {
                self.update_validator_amount(validator_id, signer_account_id, amount, block_index, block_timestamp);
                self.validators_nonce = self.validators_nonce + 1;
                self.create_validators_history();
                true
            },
            _ => false,
        }
    }

    /// Internal logic for updating staking amount of a validator
    fn update_validator_amount(
        &mut self,
        validator_id: &ValidatorId,
        account_id: &AccountId,
        amount: Balance,
        block_index: u64,
        block_timestamp: Timestamp,
    )
        requires
            old(self).wf(),
            old(self).stake_fits(validator_id@, amount),
        ensures
            final(self).wf(),
            final(self).vals() == staked_vals(old(self).vals(), *validator_id, *account_id, amount, block_index),
            final(self).staked_balance == old(self).staked_balance + amount,
            final(self).validators_timestamp == block_timestamp,
            final(self).same_except_validators(old(self)),
            final(self).validators_nonce == old(self).validators_nonce,
            final(self).facts@ == old(self).facts@,
            lookup(old(self).vals(), validator_id@) != Some(None::<AppchainValidatorView>) ==>
                validators_stake(final(self).vals()) == validators_stake(old(self).vals()) + amount,
    {
        let ghost f = |v: Option<AppchainValidator>| opt_view(v);
        let ghost g = |e: (Seq<char>, Option<AppchainValidatorView>)| stake_of(e);
        let ghost old_vals = self.vals();
        proof {
            lemma_map_vals(self.validators.spec_entries(), f, validator_id@, None);
        }
        match self.validators.find(validator_id) {
            Some(i) => {
                proof {
                    lemma_key_index(self.validators.spec_entries(), i as int);
                    lemma_key_index(old_vals, i as int);
                }
                match self.validators.value_at(i) {
                    Some(v) => {
                        let mut nv = v.clone();
                        nv.amount = nv.amount + amount;
                        let ghost nvv = nv@;
                        assert(validator_entry_ok(old_vals[i as int]));
                        self.validators.set_value_at(i, Some(nv));
                        proof {
                            let e = self.validators.spec_entries();
                            assert(self.vals() =~= old_vals.update(i as int, (validator_id@, Some(nvv))));
                            assert(self.vals() == inserted(old_vals, validator_id@, Some(nvv)));
                            lemma_sum_update(old_vals, i as int, (validator_id@, Some(nvv)), g);
                            lemma_map_vals(e, f, validator_id@, None);
                            let s2 = self.vals();
                            assert forall|a: int| 0 <= a < s2.len() implies validator_entry_ok(#[trigger] s2[a]) by {
                                if a != i {
                                    assert(s2[a] == old_vals[a]);
                                }
                            }
                        }
                    },
                    None => {},
                }
            },
            None => {
                let nv = AppchainValidator::new(validator_id.clone(), account_id.clone(), amount, block_index);
                let ghost nvv = nv@;
                self.validators.insert(validator_id.clone(), Some(nv));
                proof {
                    let e = self.validators.spec_entries();
                    assert(self.vals() =~= old_vals.push((validator_id@, Some(nvv))));
                    lemma_sum_push(old_vals, (validator_id@, Some(nvv)), g);
                    lemma_map_vals(old(self).validators.spec_entries(), f, validator_id@, Some(nv));
                    lemma_map_vals(e, f, validator_id@, None);
                    crate::sums::lemma_sum_bounds(Seq::<(Seq<char>, Option<AppchainDelegator>)>::empty(), |e: (Seq<char>, Option<AppchainDelegator>)| crate::appchain::validator::delegation_of(e));
                    let s2 = self.vals();
                    assert forall|a: int| 0 <= a < s2.len() implies validator_entry_ok(#[trigger] s2[a]) by {
                        if a < old_vals.len() {
                            assert(s2[a] == old_vals[a]);
                        }
                    }
                }
            },
        }
        self.validators_timestamp = block_timestamp;
        self.staked_balance = self.staked_balance + amount;
    }

    /// Internal logic for creating validators history record: while booting, the current
    /// validators become a validator set fact.
    pub fn create_validators_history(&mut self)
        requires
            old(self).wf(),
        ensures
            final(self).wf(),
            final(self).vals() == old(self).vals(),
            final(self).same_except_validators(old(self)),
            final(self).staked_balance == old(self).staked_balance,
            final(self).validators_nonce == old(self).validators_nonce,
            final(self).validators_timestamp == old(self).validators_timestamp,
            old(self).status == AppchainStatus::Booting ==> appended_set(old(self).fact_list(), final(self).fact_list(), old(self).validators_nonce, old(self).vals()),
            old(self).status != AppchainStatus::Booting ==> final(self).facts@ == old(self).facts@,
            facts_indexed(old(self).fact_list()) && old(self).facts@.len() <= u32::MAX ==> facts_indexed(final(self).fact_list()),
    {
        if let Some(validator_set) = self.get_next_validator_set() {
            let ghost set_view = validator_set@;
            self.facts.push(Fact::UpdateValidatorSet(validator_set));
            proof {
                assert(self.fact_list() =~= old(self).fact_list().push(FactView::UpdateValidatorSet(set_view)));
                assert(self.fact_list().subrange(0, old(self).fact_list().len() as int) =~= old(self).fact_list());
                if facts_indexed(old(self).fact_list()) && old(self).facts@.len() <= u32::MAX {
                    lemma_push_other(old(self).fact_list(), FactView::UpdateValidatorSet(set_view));
                }
            }
        }
    }
}

impl AppchainState {
    /// Removing `validator_id` cannot underflow the staked balance.
    pub open spec fn removal_fits(&self, validator_id: Seq<char>) -> bool {
        lookup(self.vals(), validator_id) matches Some(Some(v)) ==> v.staked_total() <= self.staked_balance
    }

    /// `next` is this state after the validator `validator_id` was removed at `block_timestamp`,
    /// and `r` the stake it held: its record leaves the validators for the removed ones, its
    /// stake leaves the appchain's, and while booting the new validator set becomes a fact; all
    /// else is unchanged. Nothing changes, and `r` is 0, when no record of it is stored.
    pub open spec fn removes_into(&self, next: &Self, validator_id: Seq<char>, block_timestamp: Timestamp, r: Balance) -> bool {
        match lookup(self.vals(), validator_id) {
            Some(Some(v)) => {
                &&& r == v.staked_total()
                &&& next.staked_balance == self.staked_balance - r
                &&& next.vals() == removed(self.vals(), validator_id)
                &&& validator_views(next.removed_validators.spec_entries())
                    == inserted(validator_views(self.removed_validators.spec_entries()), validator_id, Some(v))
                &&& validators_stake(next.vals()) == validators_stake(self.vals()) - r
                &&& next.validators_timestamp == block_timestamp
                &&& next.validators_nonce == self.validators_nonce
                &&& next.appchain_id == self.appchain_id
                &&& next.booting_timestamp == self.booting_timestamp
                &&& next.currently_valid_validators_nonce == self.currently_valid_validators_nonce
                &&& next.status == self.status
                &&& next.total_locked_tokens.spec_entries() == self.total_locked_tokens.spec_entries()
                &&& next.upvote_balance == self.upvote_balance
                &&& next.downvote_balance == self.downvote_balance
                &&& next.message_nonce == self.message_nonce
                &&& self.status == AppchainStatus::Booting ==> appended_set(
                    self.fact_list(),
                    next.fact_list(),
                    self.validators_nonce,
                    next.vals(),
                )
                &&& self.status != AppchainStatus::Booting ==> next.facts@ == self.facts@
            },
            _ => r == 0 && *next == *self,
        }
    }

    /// Remove a validator from the appchain at `block_timestamp`; returns the stake it held,
    /// its own and its delegators', or 0 when no record of it is stored.
    pub fn remove_validator(&mut self, validator_id: &ValidatorId, block_timestamp: Timestamp) -> (r: Balance)
        requires
            old(self).wf(),
            old(self).removal_fits(validator_id@),
        ensures
            final(self).wf(),
            old(self).removes_into(&*final(self), validator_id@, block_timestamp, r),
            facts_indexed(old(self).fact_list()) && old(self).facts@.len() <= u32::MAX ==> facts_indexed(final(self).fact_list()),
    {
        let ghost f = |v: Option<AppchainValidator>| opt_view(v);
        let ghost g = |e: (Seq<char>, Option<AppchainValidatorView>)| stake_of(e);
        let ghost old_vals = self.vals();
        proof {
            lemma_map_vals(self.validators.spec_entries(), f, validator_id@, None);
        }
        if let Some(validator) = self.get_validator(validator_id) {
            let ghost vv = validator@;
            proof {
                let i = key_index(old_vals, validator_id@);
                lemma_key_index(old_vals, i);
                assert(validator_entry_ok(old_vals[i]));
                crate::sums::lemma_sum_bounds(vv.delegators, |e: (Seq<char>, Option<AppchainDelegator>)| crate::appchain::validator::delegation_of(e));
            }
            let removed_balance = validator.get_staked_balance_including_delegators();
            self.staked_balance = self.staked_balance - removed_balance;
            proof {
                lemma_map_vals(self.removed_validators.spec_entries(), f, validator_id@, Some(validator));
                let rv = validator_views(self.removed_validators.spec_entries());
                lemma_inserted(rv, validator_id@, Some(vv));
            }
            self.removed_validators.insert(validator_id.clone(), Some(validator));
            proof {
                let rv = validator_views(self.removed_validators.spec_entries());
                let rv0 = validator_views(old(self).removed_validators.spec_entries());
                let ins = inserted(rv0, validator_id@, Some(vv));
                assert forall|a: int| 0 <= a < rv.len() implies validator_entry_ok(#[trigger] rv[a]) by {
                    if has_key(rv0, validator_id@) && a == key_index(rv0, validator_id@) {
                    } else if a < rv0.len() {
                        assert(rv[a] == rv0[a]);
                    }
                }
            }
            let _ = self.validators.remove(validator_id);
            proof {
                let i = key_index(old_vals, validator_id@);
                lemma_key_index(old_vals, i);
                lemma_removed(old_vals, validator_id@);
                lemma_sum_swap_remove(old_vals, i, g);
                let s2 = self.vals();
                assert(s2 == removed(old_vals, validator_id@));
                assert forall|a: int| 0 <= a < s2.len() implies validator_entry_ok(#[trigger] s2[a]) by {
                    if a == i {
                        assert(s2[a] == old_vals.last());
                    } else {
                        assert(s2[a] == old_vals[a]);
                    }
                }
            }
            self.validators_timestamp = block_timestamp;
            if self.status == AppchainStatus::Booting {
                self.create_validators_history();
            }
            removed_balance
        } else {
            0
        }
    }

    /// Freeze current appchain; nothing changes yet.
    pub fn freeze(&mut self)
        ensures
            *final(self) == *old(self),
    {
    }

    /// Pass auditing of current appchain
    pub fn pass_auditing(&mut self)
        ensures
            *final(self) == (AppchainState { status: AppchainStatus::Voting, ..*old(self) }),
    {
        self.status = AppchainStatus::Voting;
    }

    /// Go staging of current appchain
    pub fn go_staging(&mut self)
        ensures
            *final(self) == (AppchainState { status: AppchainStatus::Staging, ..*old(self) }),
    {
        self.status = AppchainStatus::Staging;
    }

    /// The number of lock facts of the appchain.
    pub fn count_locks(&self) -> (r: usize)
        ensures
            r == lock_count(self.fact_list()),
    {
        let mut count: usize = 0;
        let mut i: usize = 0;
        while i < self.facts.len()
            invariant
                i <= self.facts@.len(),
                count <= i,
                count == lock_count(self.fact_list().take(i as int)),
            decreases self.facts@.len() - i,
        {
            proof {
                assert(self.fact_list().take(i + 1).drop_last() =~= self.fact_list().take(i as int));
            }
            if let Fact::LockToken(_) = &self.facts[i] {
                count = count + 1;
            }
            i = i + 1;
        }
        assert(self.fact_list().take(i as int) =~= self.fact_list());
        count
    }

    /// `next` is this state after `amount` of `token_id`, sent by `sender_id` for `receiver`,
    /// was locked: the amount is added to what is locked of the token, and the lock, numbered
    /// by the locks before it, is appended to the facts; all else is unchanged.
    pub open spec fn locks_token_into(
        &self,
        next: &Self,
        receiver: String,
        sender_id: AccountId,
        token_id: AccountId,
        amount: u128,
    ) -> bool {
        &&& next.total_locked_tokens.spec_entries() == inserted(
            self.total_locked_tokens.spec_entries(),
            token_id@,
            (self.locked_of(token_id@) + amount) as u128,
        )
        &&& next.fact_list() == self.fact_list().push(
            FactView::LockToken(
                Locked { seq_num: next_lock_seq_num(self.fact_list()), token_id, sender_id, receiver, amount },
            ),
        )
        &&& next.vals() == self.vals()
        &&& next.appchain_id == self.appchain_id
        &&& validator_views(next.removed_validators.spec_entries()) == validator_views(self.removed_validators.spec_entries())
        &&& next.validators_nonce == self.validators_nonce
        &&& next.validators_timestamp == self.validators_timestamp
        &&& next.booting_timestamp == self.booting_timestamp
        &&& next.currently_valid_validators_nonce == self.currently_valid_validators_nonce
        &&& next.status == self.status
        &&& next.staked_balance == self.staked_balance
        &&& next.upvote_balance == self.upvote_balance
        &&& next.downvote_balance == self.downvote_balance
        &&& next.message_nonce == self.message_nonce
    }

    /// Lock `amount` of `token_id` sent by `sender_id` for `receiver` on the appchain;
    /// the lock becomes a fact, numbered by the locks made before it.
    pub fn lock_token(&mut self, receiver: String, sender_id: AccountId, token_id: AccountId, amount: u128)
        requires
            old(self).wf(),
            old(self).locked_of(token_id@) + amount <= u128::MAX,
        ensures
            final(self).wf(),
            old(self).locks_token_into(&*final(self), receiver, sender_id, token_id, amount),
            facts_indexed(old(self).fact_list()) && old(self).facts@.len() <= u32::MAX ==> facts_indexed(final(self).fact_list()),
    {
        let current = match self.total_locked_tokens.get(&token_id) {
            Some(a) => *a,
            None => 0,
        };
        let new_amount = current + amount;
        self.total_locked_tokens.insert(token_id.clone(), new_amount);
        let count = self.count_locks();
        let next_sequence_number: u32 = if count <= 0xffff_ffff {
            count as u32
        } else {
            0
        };
        let ghost l = Locked { seq_num: next_sequence_number, token_id, sender_id, receiver, amount };
        self.facts.push(
            Fact::LockToken(Locked { seq_num: next_sequence_number, token_id, sender_id, receiver, amount }),
        );
        assert(self.fact_list() =~= old(self).fact_list().push(FactView::LockToken(l)));
        proof {
            if facts_indexed(old(self).fact_list()) && old(self).facts@.len() <= u32::MAX {
                lemma_push_lock(old(self).fact_list(), l);
            }
        }
    }

    /// `next` is this state after `amount` of `token_id` was unlocked: the amount is taken off
    /// what is locked of the token, and all else, the facts included, is unchanged.
    pub open spec fn unlocks_token_into(&self, next: &Self, token_id: Seq<char>, amount: u128) -> bool {
        &&& next.total_locked_tokens.spec_entries() == inserted(
            self.total_locked_tokens.spec_entries(),
            token_id,
            (self.locked_of(token_id) - amount) as u128,
        )
        &&& *next == (AppchainState { total_locked_tokens: next.total_locked_tokens, ..*self })
    }

    /// Unlock `amount` of `token_id` locked for the appchain
    pub fn unlock_token(&mut self, token_id: AccountId, amount: u128)
        requires
            old(self).wf(),
            amount <= old(self).locked_of(token_id@),
        ensures
            final(self).wf(),
            old(self).unlocks_token_into(&*final(self), token_id@, amount),
    {
        let current = match self.total_locked_tokens.get(&token_id) {
            Some(a) => *a,
            None => 0,
        };
        let new_amount = current - amount;
        self.total_locked_tokens.insert(token_id, new_amount);
    }

    /// Get total locked amount of a token
    pub fn get_total_locked_amount_of(&self, token_id: &AccountId) -> (r: u128)
        requires
            self.wf(),
        ensures
            r == self.locked_of(token_id@),
    {
        match self.total_locked_tokens.get(token_id) {
            Some(a) => *a,
            None => 0,
        }
    }

    /// Record that `amount` of the appchain's native token sent by `sender_id` was burnt
    /// for `receiver` on the appchain; the burn becomes a fact.
    pub fn burn_native_token(&mut self, receiver: String, sender_id: AccountId, amount: u128)
        ensures
            final(self).fact_list() == old(self).fact_list().push(
                FactView::BurnNativeToken(
                    Burned { seq_num: next_seq_num(old(self).facts@.len()), sender_id, receiver, amount },
                ),
            ),
            *final(self) == (AppchainState { facts: final(self).facts, ..*old(self) }),
            facts_indexed(old(self).fact_list()) && old(self).facts@.len() <= u32::MAX ==> facts_indexed(final(self).fact_list()),
    {
        let len = self.facts.len();
        let next_sequence_number: u32 = if len <= 0xffff_ffff {
            len as u32
        } else {
            0
        };
        let ghost b = Burned { seq_num: next_sequence_number, sender_id, receiver, amount };
        self.facts.push(Fact::BurnNativeToken(Burned { seq_num: next_sequence_number, sender_id, receiver, amount }));
        assert(self.fact_list() =~= old(self).fact_list().push(FactView::BurnNativeToken(b)));
        proof {
            if facts_indexed(old(self).fact_list()) && old(self).facts@.len() <= u32::MAX {
                lemma_push_other(old(self).fact_list(), FactView::BurnNativeToken(b));
            }
        }
    }

    /// Count one more executed message from the appchain
    pub fn increase_message_nonce(&mut self)
        requires
            old(self).message_nonce < u32::MAX,
        ensures
            *final(self) == (AppchainState { message_nonce: (old(self).message_nonce + 1) as u32, ..*old(self) }),
    {
        self.message_nonce = self.message_nonce + 1;
    }

    /// Get the facts from `start` on, at most `limit` of them.
    ///
    /// Refused when `start` is not before the number of facts (taken as 0 when it exceeds `u32`).
    pub fn get_facts(&self, start: SeqNum, limit: SeqNum) -> (r: Result<Vec<Fact>, RelayError>)
        requires
            start + limit <= u32::MAX,
        ensures
            match r {
                Ok(v) => next_seq_num(self.facts@.len()) > start
                    && fact_views(v@) == self.fact_list().subrange(
                        start as int,
                        vstd::math::min(start + limit, next_seq_num(self.facts@.len()) as int),
                    ),
                Err(e) => e == RelayError::InvalidFactsStart && next_seq_num(self.facts@.len()) <= start,
            },
    {
        let len = self.facts.len();
        let facts_len: u32 = if len <= 0xffff_ffff {
            len as u32
        } else {
            0
        };
        if facts_len <= start {
            return Err(RelayError::InvalidFactsStart);
        }
        let end: u32 = if start + limit < facts_len {
            start + limit
        } else {
            facts_len
        };
        let mut r: Vec<Fact> = Vec::new();
        let mut i: u32 = start;
        while i < end
            invariant
                start <= i <= end,
                end as int <= self.facts@.len(),
                r@.len() == i - start,
                fact_views(r@) == self.fact_list().subrange(start as int, i as int),
            decreases end - i,
        {
            let ghost rb = r@;
            let f = self.facts[i as usize].clone();
            r.push(f);
            proof {
                assert(fact_views(r@) =~= fact_views(rb).push(self.facts@[i as int]@));
                assert(self.fact_list().subrange(start as int, i + 1) =~= self.fact_list().subrange(start as int, i as int).push(self.fact_list()[i as int]));
            }
            i = i + 1;
        }
        Ok(r)
    }
}

/// Staking to a validator without a record keeps the records stored and well formed and
/// adds the amount to the validators' stake.
pub proof fn lemma_staked_vals_all_present(
    s: ValidatorViewEntries,
    validator_id: ValidatorId,
    account_id: AccountId,
    amount: Balance,
    block_height: u64,
)
    requires
        validator_entries_ok(s),
        forall|j: int| 0 <= j < s.len() ==> (#[trigger] s[j]).1 is Some,
    ensures
        forall|j: int| 0 <= j < staked_vals(s, validator_id, account_id, amount, block_height).len()
            ==> (#[trigger] staked_vals(s, validator_id, account_id, amount, block_height)[j]).1 is Some,
{
    let t = staked_vals(s, validator_id, account_id, amount, block_height);
    assert forall|j: int| 0 <= j < t.len() implies (#[trigger] t[j]).1 is Some by {
        if has_key(s, validator_id@) {
            let i = key_index(s, validator_id@);
            if j != i {
                assert(t[j] == s[j]);
            }
        } else if j < s.len() {
            assert(t[j] == s[j]);
        }
    }
}

/// Unlocking what was just locked of a token gives back what was locked of every token
/// before; the unlock itself adds no fact, so the facts are those the lock left. (A lock that
/// would exceed `u128` is not made.)
pub proof fn law_state_unlock_undoes_lock(
    st: AppchainState,
    locked: AppchainState,
    unlocked: AppchainState,
    receiver: String,
    sender_id: AccountId,
    token_id: AccountId,
    amount: u128,
)
    requires
        st.wf(),
        st.locked_of(token_id@) + amount <= u128::MAX,
        st.locks_token_into(&locked, receiver, sender_id, token_id, amount),
        locked.unlocks_token_into(&unlocked, token_id@, amount),
    ensures
        forall|k: Seq<char>| #[trigger] unlocked.locked_of(k) == st.locked_of(k),
        unlocked.fact_list() == locked.fact_list(),
{
    let l0 = st.total_locked_tokens.spec_entries();
    let l1 = locked.total_locked_tokens.spec_entries();
    crate::str_map::lemma_inserted(l0, token_id@, (st.locked_of(token_id@) + amount) as u128);
    crate::str_map::lemma_inserted(l1, token_id@, (locked.locked_of(token_id@) - amount) as u128);
    assert forall|k: Seq<char>| #[trigger] unlocked.locked_of(k) == st.locked_of(k) by {
        if k != token_id@ {
            assert(lookup(l1, k) == lookup(l0, k));
            assert(lookup(unlocked.total_locked_tokens.spec_entries(), k) == lookup(l1, k));
        }
    }
}

} // verus!
