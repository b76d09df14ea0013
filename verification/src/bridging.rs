//! Bridging of tokens between NEAR token contracts and appchains.
//!
//! Tokens locked in the relay for an appchain become facts that the appchain reads; messages
//! from the appchain, with their proof, unlock such tokens or mint the appchain's native
//! token on NEAR.
use crate::appchain::state::{
    appended_set, lemma_lock_count_push_other, next_lock_seq_num, next_seq_num, validator_views, AppchainState,
};
use crate::appchain_prover::AppchainProver;
use crate::bridge_token_manager::{
    allowed_amount, bridge_limit, exact_value, lemma_used_value_exact, locked_value_total, used_value, BridgeTokenManager,
};
use crate::error::RelayError;
use crate::native_token_manager::NativeTokenManager;
use crate::promise::{
    CallMethod, PromiseAction, COMPLEX_CALL_GAS, FT_TRANSFER_GAS, GAS_FOR_FT_TRANSFER_CALL, NO_DEPOSIT, SIMPLE_CALL_GAS,
    SINGLE_CALL_GAS, STORAGE_DEPOSIT_AMOUNT,
};
use crate::proof_decoder::ProofDecoder;
use crate::str_map::inserted;
use crate::types::{AccountId, AppchainId, Balance, Burned, FactView, Locked, Message, MessagePayload, StorageBalance};
use crate::relayed_bridge_token::RelayedBridgeToken;
use crate::storage_key::ten_pow;
use crate::{lemma_state_replaced, state_ok, Context, OctopusRelay};
use vstd::prelude::*;

verus! {

/// The fields of `next` that neither the facts nor the locked amounts hold are those of `st`.
pub open spec fn same_but_facts_and_locks(st: AppchainState, next: AppchainState) -> bool {
    &&& next.vals() == st.vals()
    &&& next.appchain_id == st.appchain_id
    &&& validator_views(next.removed_validators.spec_entries()) == validator_views(st.removed_validators.spec_entries())
    &&& next.validators_nonce == st.validators_nonce
    &&& next.validators_timestamp == st.validators_timestamp
    &&& next.booting_timestamp == st.booting_timestamp
    &&& next.currently_valid_validators_nonce == st.currently_valid_validators_nonce
    &&& next.status == st.status
    &&& next.staked_balance == st.staked_balance
    &&& next.upvote_balance == st.upvote_balance
    &&& next.downvote_balance == st.downvote_balance
    &&& next.message_nonce == st.message_nonce
}

/// `next` is the booting `st` after `amount` of `token_id`, sent by `sender_id` for
/// `receiver`, was locked: its current validator set and then the lock are appended to its
/// facts, and the amount is added to what is locked of the token. The lock is numbered by the
/// locks made before it.
pub open spec fn locks_into(
    st: AppchainState,
    next: AppchainState,
    receiver: String,
    sender_id: AccountId,
    token_id: AccountId,
    amount: u128,
) -> bool {
    let n = st.fact_list().len();
    let f = next.fact_list();
    &&& same_but_facts_and_locks(st, next)
    &&& next.total_locked_tokens.spec_entries() == inserted(
        st.total_locked_tokens.spec_entries(),
        token_id@,
        (st.locked_of(token_id@) + amount) as u128,
    )
    &&& f.len() == n + 2
    &&& appended_set(st.fact_list(), f.subrange(0, n + 1 as int), st.validators_nonce, st.vals())
    &&& f.last() == FactView::LockToken(
        Locked { seq_num: next_lock_seq_num(st.fact_list()), token_id, sender_id, receiver, amount },
    )
}

/// `next` is `st` after `amount` of its native token, sent by `sender_id` for `receiver`,
/// was burnt: while booting its current validator set is appended to its facts, then the
/// burn in any case.
pub open spec fn burns_into(st: AppchainState, next: AppchainState, sender_id: AccountId, receiver: String, amount: u128) -> bool {
    let n = st.fact_list().len();
    let f = next.fact_list();
    let k: nat = if st.status == crate::types::AppchainStatus::Booting { 1 } else { 0 };
    &&& same_but_facts_and_locks(st, next)
    &&& next.total_locked_tokens.spec_entries() == st.total_locked_tokens.spec_entries()
    &&& f.len() == n + k + 1
    &&& k == 1 ==> appended_set(st.fact_list(), f.subrange(0, n + 1 as int), st.validators_nonce, st.vals())
    &&& k == 0 ==> f.subrange(0, n as int) == st.fact_list()
    &&& f.last() == FactView::BurnNativeToken(Burned { seq_num: next_seq_num(n + k), sender_id, receiver, amount })
}

impl OctopusRelay {
    /// `next` is this relay with only the state of `appchain_id` replaced, by a state it holds.
    pub open spec fn with_state_replaced(&self, next: &Self, appchain_id: Seq<char>) -> bool {
        &&& next.appchain_states.spec_contains(appchain_id)
        &&& next.appchain_states.spec_entries() == inserted(
            self.appchain_states.spec_entries(),
            appchain_id,
            next.state_of(appchain_id).unwrap(),
        )
        &&& *next == (OctopusRelay { appchain_states: next.appchain_states, ..*self })
    }

    /// What is locked of `token_id` for a registered appchain.
    pub open spec fn locked_for(&self, appchain_id: Seq<char>, token_id: Seq<char>) -> u128 {
        self.state_of(appchain_id).unwrap().locked_of(token_id)
    }

    /// Why locking `amount` of `token_id` for `appchain_id` is refused, if it is.
    pub open spec fn lock_refusal(&self, appchain_id: Seq<char>, token_id: Seq<char>, amount: u128) -> Option<RelayError> {
        match self.bridge_allowed_amount(appchain_id, token_id) {
            Err(e) => Some(e),
            Ok(allowed) => if allowed < amount {
                Some(RelayError::InsufficientAllowance)
            } else if self.locked_for(appchain_id, token_id) + amount > u128::MAX {
                Some(RelayError::ArithmeticOverflow)
            } else {
                None
            },
        }
    }

    /// `next` and `r` are what locking `amount` of `token_id`, sent by `sender_id` for
    /// `receiver`, for `appchain_id` gives.
    pub open spec fn locks_tokens_into(
        &self,
        next: &Self,
        appchain_id: AppchainId,
        receiver: String,
        sender_id: AccountId,
        token_id: AccountId,
        amount: u128,
        r: Result<u128, RelayError>,
    ) -> bool {
        match self.lock_refusal(appchain_id@, token_id@, amount) {
            Some(e) => r == Err::<u128, RelayError>(e) && *next == *self,
            None => {
                &&& r == Ok::<u128, RelayError>(amount)
                &&& self.with_state_replaced(next, appchain_id@)
                &&& locks_into(
                    self.state_of(appchain_id@).unwrap(),
                    next.state_of(appchain_id@).unwrap(),
                    receiver,
                    sender_id,
                    token_id,
                    amount,
                )
            },
        }
    }

    /// `next` is this relay after `amount` of `token_id` locked for `appchain_id` was unlocked
    /// and the message that unlocked it counted.
    pub open spec fn unlocks_into(&self, next: &Self, appchain_id: Seq<char>, token_id: Seq<char>, amount: u128) -> bool {
        let st = self.state_of(appchain_id).unwrap();
        let st2 = next.state_of(appchain_id).unwrap();
        &&& self.with_state_replaced(next, appchain_id)
        &&& st2.total_locked_tokens.spec_entries() == inserted(
            st.total_locked_tokens.spec_entries(),
            token_id,
            (st.locked_of(token_id) - amount) as u128,
        )
        &&& st2 == (AppchainState {
            total_locked_tokens: st2.total_locked_tokens,
            message_nonce: (st.message_nonce + 1) as u32,
            ..st
        })
    }

    /// Why unlocking `amount` of `token_id` for `appchain_id` is refused, if it is.
    pub open spec fn unlock_refusal(&self, ctx: &Context, appchain_id: Seq<char>, token_id: Seq<char>, amount: u128) -> Option<RelayError> {
        if ctx.predecessor_account_id@ != ctx.current_account_id@ {
            Some(RelayError::NotSelf)
        } else if !self.appchain_states.spec_contains(appchain_id) {
            Some(RelayError::AppchainNotFound)
        } else if self.locked_for(appchain_id, token_id) == 0 {
            Some(RelayError::NothingLocked)
        } else if self.locked_for(appchain_id, token_id) < amount {
            Some(RelayError::InsufficientLockedBalance)
        } else if ctx.prepaid_gas < 6 * SIMPLE_CALL_GAS {
            Some(RelayError::ArithmeticOverflow)
        } else {
            None
        }
    }
}

/// Sending `amount` of `token_id` to `receiver_id`, then `deposit` of NEAR back to the signer.
pub open spec fn transfer_promises(ctx: &Context, deposit: Balance, receiver_id: AccountId, token_id: AccountId, amount: u128) -> Seq<PromiseAction> {
    seq![
        PromiseAction::Call {
            contract_id: token_id,
            method: CallMethod::FtTransfer { receiver_id, amount },
            deposit: 1,
            gas: FT_TRANSFER_GAS,
        },
        PromiseAction::Transfer { receiver_id: ctx.signer_account_id, amount: deposit },
    ]
}

/// Paying the storage of `receiver_id` in the token contract with `deposit`, then calling back
/// the relay to send the tokens.
pub open spec fn storage_deposit_promises(
    ctx: &Context,
    deposit: Balance,
    receiver_id: AccountId,
    token_id: AccountId,
    amount: u128,
) -> Seq<PromiseAction> {
    seq![
        PromiseAction::Call {
            contract_id: token_id,
            method: CallMethod::StorageDeposit { account_id: receiver_id },
            deposit,
            gas: SIMPLE_CALL_GAS,
        },
        PromiseAction::Call {
            contract_id: ctx.current_account_id,
            method: CallMethod::ResolveBridgeTokenStorageDeposit { deposit, receiver_id, amount, token_id },
            deposit: NO_DEPOSIT,
            gas: SINGLE_CALL_GAS,
        },
    ]
}

/// How unlocked tokens reach `receiver_id`, given its storage balance in the token contract:
/// sent at once when it has storage there, else after a storage deposit.
pub open spec fn unlock_promises(
    ctx: &Context,
    deposit: Balance,
    receiver_id: AccountId,
    token_id: AccountId,
    amount: u128,
    storage_balance: Option<StorageBalance>,
) -> Seq<PromiseAction> {
    if storage_balance matches Some(b) && b.total > 0 {
        transfer_promises(ctx, deposit, receiver_id, token_id, amount)
    } else {
        storage_deposit_promises(ctx, deposit, receiver_id, token_id, amount)
    }
}

/// The first message of `messages` carried out and the rest handed to the next call of
/// `execute`, with one storage deposit less.
pub open spec fn execution_promises(
    ctx: &Context,
    messages: Seq<Message>,
    appchain_id: AppchainId,
    remaining_deposit: Balance,
    p: Seq<PromiseAction>,
) -> bool {
    &&& p.len() == 2
    &&& p[0] == match messages[0].payload {
        MessagePayload::BurnAsset(b) => PromiseAction::Call {
            contract_id: ctx.current_account_id,
            method: CallMethod::UnlockToken {
                appchain_id,
                token_id: b.token_id,
                sender: b.sender,
                receiver_id: b.receiver_id,
                amount: b.amount,
            },
            deposit: STORAGE_DEPOSIT_AMOUNT,
            gas: COMPLEX_CALL_GAS,
        },
        MessagePayload::Lock(l) => PromiseAction::Call {
            contract_id: ctx.current_account_id,
            method: CallMethod::MintNativeToken { appchain_id, receiver_id: l.receiver_id, amount: l.amount },
            deposit: STORAGE_DEPOSIT_AMOUNT,
            gas: (2 * SINGLE_CALL_GAS) as u64,
        },
    }
    &&& p[1] matches PromiseAction::Call { contract_id, method, deposit, gas }
    &&& contract_id == ctx.current_account_id
    &&& deposit == NO_DEPOSIT
    &&& gas == COMPLEX_CALL_GAS + SIMPLE_CALL_GAS
    &&& method matches CallMethod::Execute { messages: rest, appchain_id: a, remaining_deposit: d }
    &&& rest@ == messages.subrange(1, messages.len() as int)
    &&& a == appchain_id
    &&& d == remaining_deposit - STORAGE_DEPOSIT_AMOUNT
}

/// Trait for bridging tokens between token contracts and appchains
pub trait TokenBridging {
    /// The state in which the methods may be called.
    spec fn bridging_inv(&self) -> bool;

    /// Lock token in relay contract for an appchain
    fn lock_token(
        &mut self,
        appchain_id: AppchainId,
        receiver: String,
        sender_id: AccountId,
        token_id: AccountId,
        amount: u128,
    ) -> (r: Result<u128, RelayError>)
        requires
            old(self).bridging_inv(),
    ;

    /// Unlock token in relay contract for an appchain
    fn unlock_token(
        &self,
        ctx: &Context,
        appchain_id: AppchainId,
        token_id: AccountId,
        sender: String,
        receiver_id: AccountId,
        amount: u128,
    ) -> (r: Result<Vec<PromiseAction>, RelayError>)
        requires
            self.bridging_inv(),
    ;

    /// Callback with the storage balance of the receiver of unlocked tokens in the token
    /// contract: sends the tokens, then calls back `resolve_unlock_token`.
    fn check_bridge_token_storage_deposit(
        &self,
        ctx: &Context,
        deposit: Balance,
        receiver_id: AccountId,
        token_id: AccountId,
        appchain_id: AppchainId,
        amount: u128,
        succeeded: bool,
        storage_balance: Option<StorageBalance>,
    ) -> (r: Result<Vec<PromiseAction>, RelayError>)
        requires
            self.bridging_inv(),
    ;

    /// How unlocked tokens are sent to the receiver, given its storage balance in the token
    /// contract.
    fn create_unlock_promise(
        &self,
        ctx: &Context,
        deposit: Balance,
        receiver_id: AccountId,
        token_id: AccountId,
        appchain_id: AppchainId,
        amount: u128,
        storage_balance: Option<StorageBalance>,
    ) -> (r: Result<Vec<PromiseAction>, RelayError>)
        requires
            self.bridging_inv(),
    ;

    /// Pay the storage of the receiver in the token contract, then send the tokens.
    fn deposit_and_ft_transfer(
        &self,
        ctx: &Context,
        deposit: Balance,
        receiver_id: AccountId,
        token_id: AccountId,
        appchain_id: AppchainId,
        amount: u128,
    ) -> (r: Vec<PromiseAction>)
        requires
            self.bridging_inv(),
    ;

    /// Callback for checking bridge token storage deposit
    fn resolve_bridge_token_storage_deposit(
        &self,
        ctx: &Context,
        deposit: Balance,
        receiver_id: AccountId,
        amount: u128,
        token_id: AccountId,
        storage_balance: Option<StorageBalance>,
    ) -> (r: Result<Vec<PromiseAction>, RelayError>)
        requires
            self.bridging_inv(),
    ;

    /// Callback for result of unlock token action
    fn resolve_unlock_token(
        &mut self,
        ctx: &Context,
        token_id: AccountId,
        appchain_id: AppchainId,
        amount: u128,
        succeeded: bool,
    ) -> (r: Result<(), RelayError>)
        requires
            old(self).bridging_inv(),
    ;

    /// Callback after native tokens were minted for a message from an appchain.
    fn resolve_mint_native_token(&mut self, ctx: &Context, appchain_id: AppchainId, succeeded: bool) -> (r: Result<(), RelayError>)
        requires
            old(self).bridging_inv(),
    ;

    /// Mint native tokens of an appchain on NEAR for a message from it.
    fn mint_native_token(
        &self,
        ctx: &Context,
        appchain_id: AppchainId,
        receiver_id: AccountId,
        amount: u128,
    ) -> (r: Result<Vec<PromiseAction>, RelayError>)
        requires
            self.bridging_inv(),
    ;

    /// Burn native token on near, then mint on appchain
    fn burn_native_token(
        &self,
        ctx: &Context,
        appchain_id: AppchainId,
        receiver: String,
        amount: u128,
    ) -> (r: Result<Vec<PromiseAction>, RelayError>)
        requires
            self.bridging_inv(),
    ;

    /// Callback after native tokens were burnt on NEAR.
    fn resolve_burn_native_token(
        &mut self,
        ctx: &Context,
        appchain_id: AppchainId,
        sender_id: AccountId,
        receiver: String,
        amount: u128,
        succeeded: bool,
    ) -> (r: Result<(), RelayError>)
        requires
            old(self).bridging_inv(),
    ;

    /// Carry out the messages of an appchain that come with a proof.
    fn relay(
        &self,
        ctx: &Context,
        appchain_id: AppchainId,
        encoded_messages: Vec<u8>,
        header_partial: Vec<u8>,
        leaf_proof: Vec<u8>,
        mmr_root: Vec<u8>,
    ) -> (r: Result<Vec<PromiseAction>, RelayError>)
        requires
            self.bridging_inv(),
    ;

    /// Carry out the first of the messages of an appchain, then the rest.
    fn execute(
        &self,
        ctx: &Context,
        messages: Vec<Message>,
        appchain_id: AppchainId,
        remaining_deposit: Balance,
    ) -> (r: Result<Vec<PromiseAction>, RelayError>)
        requires
            self.bridging_inv(),
    ;
}

/// Checking the storage balance of `receiver_id` in the token contract, with the attached
/// deposit, then calling back the relay with it.
pub open spec fn storage_check_promises(
    ctx: &Context,
    appchain_id: AppchainId,
    token_id: AccountId,
    receiver_id: AccountId,
    amount: u128,
) -> Seq<PromiseAction> {
    seq![
        PromiseAction::Call {
            contract_id: token_id,
            method: CallMethod::StorageBalanceOf { account_id: receiver_id },
            deposit: ctx.attached_deposit,
            gas: SIMPLE_CALL_GAS,
        },
        PromiseAction::Call {
            contract_id: ctx.current_account_id,
            method: CallMethod::CheckBridgeTokenStorageDeposit {
                deposit: ctx.attached_deposit,
                receiver_id,
                token_id,
                appchain_id,
                amount,
            },
            deposit: NO_DEPOSIT,
            gas: (ctx.prepaid_gas - 6 * SIMPLE_CALL_GAS) as u64,
        },
    ]
}

/// What follows a storage deposit of `deposit` for `receiver_id`, given the storage balance
/// it gave (nothing when it failed): what the deposit left over goes back to the signer and
/// the tokens to the receiver; else the whole deposit goes back. Refused when the balance
/// exceeds the deposit.
pub open spec fn storage_deposit_outcome(
    ctx: &Context,
    deposit: Balance,
    receiver_id: AccountId,
    amount: u128,
    token_id: AccountId,
    storage_balance: Option<StorageBalance>,
) -> Result<Seq<PromiseAction>, RelayError> {
    match storage_balance {
        Some(b) => if b.total > deposit {
            Err(RelayError::ArithmeticOverflow)
        } else {
            let transfer = PromiseAction::Call {
                contract_id: token_id,
                method: CallMethod::FtTransfer { receiver_id, amount },
                deposit: 1,
                gas: FT_TRANSFER_GAS,
            };
            if deposit - b.total > 0 {
                Ok(seq![
                    PromiseAction::Transfer { receiver_id: ctx.signer_account_id, amount: (deposit - b.total) as u128 },
                    transfer,
                ])
            } else {
                Ok(seq![transfer])
            }
        },
        None => Ok(seq![PromiseAction::Transfer { receiver_id: ctx.signer_account_id, amount: deposit }]),
    }
}

/// Why a callback for `appchain_id` that follows a promise is refused, if it is.
pub open spec fn callback_refusal(relay: &OctopusRelay, ctx: &Context, appchain_id: Seq<char>, succeeded: bool) -> Option<RelayError> {
    if ctx.predecessor_account_id@ != ctx.current_account_id@ {
        Some(RelayError::NotSelf)
    } else if !succeeded {
        Some(RelayError::PromiseFailed)
    } else if !relay.appchain_states.spec_contains(appchain_id) {
        Some(RelayError::AppchainNotFound)
    } else {
        None
    }
}

impl OctopusRelay {
    /// `r` is what carrying out `messages` of `appchain_id` gives, with `remaining_deposit` left.
    pub open spec fn is_execution_of(
        &self,
        ctx: &Context,
        messages: Seq<Message>,
        appchain_id: AppchainId,
        remaining_deposit: Balance,
        r: Result<Vec<PromiseAction>, RelayError>,
    ) -> bool {
        if messages.len() == 0 {
            r matches Ok(p) && p@.len() == 0
        } else if !self.appchain_states.spec_contains(appchain_id@) {
            r == Err::<Vec<PromiseAction>, RelayError>(RelayError::AppchainNotFound)
        } else if remaining_deposit < STORAGE_DEPOSIT_AMOUNT {
            r == Err::<Vec<PromiseAction>, RelayError>(RelayError::ArithmeticOverflow)
        } else {
            r matches Ok(p) && execution_promises(ctx, messages, appchain_id, remaining_deposit, p@)
        }
    }
}

/// Copies of the messages after the first.
fn messages_after_first(messages: &Vec<Message>) -> (r: Vec<Message>)
    requires
        messages@.len() > 0,
    ensures
        r@ == messages@.subrange(1, messages@.len() as int),
{
    let mut out: Vec<Message> = Vec::new();
    let mut i: usize = 1;
    while i < messages.len()
        invariant
            1 <= i <= messages@.len(),
            out@ == messages@.subrange(1, i as int),
        decreases messages@.len() - i,
    {
        out.push(messages[i].clone());
        assert(out@ =~= messages@.subrange(1, i + 1));
        i = i + 1;
    }
    out
}

impl TokenBridging for OctopusRelay {
    open spec fn bridging_inv(&self) -> bool {
        self.wf()
    }

    /// Lock `amount` of `token_id`, sent by `sender_id` for `receiver` on the appchain, within
    /// what the appchain may still take in; its validator set and the lock become facts.
    ///
    /// Refused as `get_bridge_allowed_amount` refuses, when the amount exceeds what is
    /// allowed, and when the locked total would exceed `u128`.
    fn lock_token(
        &mut self,
        appchain_id: AppchainId,
        receiver: String,
        sender_id: AccountId,
        token_id: AccountId,
        amount: u128,
    ) -> (r: Result<u128, RelayError>)
        ensures
            final(self).wf(),
            old(self).stake_balanced() ==> final(self).stake_balanced(),
            old(self).locks_tokens_into(&*final(self), appchain_id, receiver, sender_id, token_id, amount, r),
    {
        let allowed = self.get_bridge_allowed_amount(appchain_id.clone(), token_id.clone())?;
        if allowed < amount {
            return Err(RelayError::InsufficientAllowance);
        }
        let si = self.find_state(&appchain_id)?;
        let ghost old_relay = *self;
        let ghost st = self.appchain_states.spec_entries()[si as int].1;
        assert(state_ok(old_relay.appchain_states.spec_entries()[si as int]));
        let locked = self.appchain_states.value_at(si).get_total_locked_amount_of(&token_id);
        if locked > u128::MAX - amount {
            return Err(RelayError::ArithmeticOverflow);
        }
        let state = self.appchain_states.value_mut_at(si);
        state.create_validators_history();
        let ghost mid = *state;
        state.lock_token(receiver, sender_id, token_id, amount);
        proof {
            let st2 = self.appchain_states.spec_entries()[si as int].1;
            assert(st2.fact_list().subrange(0, mid.fact_list().len() as int) =~= mid.fact_list());
            let set = mid.fact_list().last();
            assert(mid.fact_list() =~= st.fact_list().push(set));
            lemma_lock_count_push_other(st.fact_list(), set);
            lemma_state_replaced(&old_relay, self, si as int, st2);
            crate::str_map::lemma_inserted(old_relay.appchain_states.spec_entries(), appchain_id@, st2);
        }
        Ok(amount)
    }

    /// Unlock `amount` of `token_id` locked for an appchain, to `receiver_id`: the storage
    /// balance of the receiver in the token contract is checked first. Only the relay may call.
    ///
    /// Refused for another caller, an unknown appchain, a token of which nothing or less than
    /// the amount is locked, and too little gas for the callback.
    fn unlock_token(
        &self,
        ctx: &Context,
        appchain_id: AppchainId,
        token_id: AccountId,
        sender: String,
        receiver_id: AccountId,
        amount: u128,
    ) -> (r: Result<Vec<PromiseAction>, RelayError>)
        ensures
            match self.unlock_refusal(ctx, appchain_id@, token_id@, amount) {
                Some(e) => r == Err::<Vec<PromiseAction>, RelayError>(e),
                None => r matches Ok(p) && p@ == storage_check_promises(ctx, appchain_id, token_id, receiver_id, amount),
            },
    {
        if ctx.predecessor_account_id != ctx.current_account_id {
            return Err(RelayError::NotSelf);
        }
        let si = self.find_state(&appchain_id)?;
        assert(state_ok(self.appchain_states.spec_entries()[si as int]));
        let locked = self.appchain_states.value_at(si).get_total_locked_amount_of(&token_id);
        if locked == 0 {
            return Err(RelayError::NothingLocked);
        }
        if locked < amount {
            return Err(RelayError::InsufficientLockedBalance);
        }
        if ctx.prepaid_gas < 6 * SIMPLE_CALL_GAS {
            return Err(RelayError::ArithmeticOverflow);
        }
        let mut p: Vec<PromiseAction> = Vec::new();
        p.push(
            PromiseAction::Call {
                contract_id: token_id.clone(),
                method: CallMethod::StorageBalanceOf { account_id: receiver_id.clone() },
                deposit: ctx.attached_deposit,
                gas: SIMPLE_CALL_GAS,
            },
        );
        p.push(
            PromiseAction::Call {
                contract_id: ctx.current_account_id.clone(),
                method: CallMethod::CheckBridgeTokenStorageDeposit {
                    deposit: ctx.attached_deposit,
                    receiver_id,
                    token_id,
                    appchain_id,
                    amount,
                },
                deposit: NO_DEPOSIT,
                gas: ctx.prepaid_gas - 6 * SIMPLE_CALL_GAS,
            },
        );
        assert(p@ =~= storage_check_promises(ctx, appchain_id, token_id, receiver_id, amount));
        Ok(p)
    }

    fn check_bridge_token_storage_deposit(
        &self,
        ctx: &Context,
        deposit: Balance,
        receiver_id: AccountId,
        token_id: AccountId,
        appchain_id: AppchainId,
        amount: u128,
        succeeded: bool,
        storage_balance: Option<StorageBalance>,
    ) -> (r: Result<Vec<PromiseAction>, RelayError>)
        ensures
            ctx.predecessor_account_id@ != ctx.current_account_id@ ==> r == Err::<Vec<PromiseAction>, RelayError>(
                RelayError::NotSelf,
            ),
            ctx.predecessor_account_id@ == ctx.current_account_id@ && !succeeded ==> r == Err::<
                Vec<PromiseAction>,
                RelayError,
            >(RelayError::PromiseFailed),
            ctx.predecessor_account_id@ == ctx.current_account_id@ && succeeded ==> (r matches Ok(p) && p@
                == unlock_promises(ctx, deposit, receiver_id, token_id, amount, storage_balance).push(
                PromiseAction::Call {
                    contract_id: ctx.current_account_id,
                    method: CallMethod::ResolveUnlockToken { token_id, appchain_id, amount },
                    deposit: NO_DEPOSIT,
                    gas: GAS_FOR_FT_TRANSFER_CALL,
                },
            )),
    {
        if ctx.predecessor_account_id != ctx.current_account_id {
            return Err(RelayError::NotSelf);
        }
        if !succeeded {
            return Err(RelayError::PromiseFailed);
        }
        let mut p = self.create_unlock_promise(
            ctx,
            deposit,
            receiver_id,
            token_id.clone(),
            appchain_id.clone(),
            amount,
            storage_balance,
        )?;
        p.push(
            PromiseAction::Call {
                contract_id: ctx.current_account_id.clone(),
                method: CallMethod::ResolveUnlockToken { token_id, appchain_id, amount },
                deposit: NO_DEPOSIT,
                gas: GAS_FOR_FT_TRANSFER_CALL,
            },
        );
        Ok(p)
    }

    fn create_unlock_promise(
        &self,
        ctx: &Context,
        deposit: Balance,
        receiver_id: AccountId,
        token_id: AccountId,
        appchain_id: AppchainId,
        amount: u128,
        storage_balance: Option<StorageBalance>,
    ) -> (r: Result<Vec<PromiseAction>, RelayError>)
        ensures
            ctx.predecessor_account_id@ != ctx.current_account_id@ ==> r == Err::<Vec<PromiseAction>, RelayError>(
                RelayError::NotSelf,
            ),
            ctx.predecessor_account_id@ == ctx.current_account_id@ ==> (r matches Ok(p) && p@ == unlock_promises(
                ctx,
                deposit,
                receiver_id,
                token_id,
                amount,
                storage_balance,
            )),
    {
        if ctx.predecessor_account_id != ctx.current_account_id {
            return Err(RelayError::NotSelf);
        }
        if let Some(b) = &storage_balance {
            if b.total > 0 {
                let mut p: Vec<PromiseAction> = Vec::new();
                p.push(
                    PromiseAction::Call {
                        contract_id: token_id,
                        method: CallMethod::FtTransfer { receiver_id, amount },
                        deposit: 1,
                        gas: FT_TRANSFER_GAS,
                    },
                );
                p.push(PromiseAction::Transfer { receiver_id: ctx.signer_account_id.clone(), amount: deposit });
                assert(p@ =~= transfer_promises(ctx, deposit, receiver_id, token_id, amount));
                return Ok(p);
            }
        }
        Ok(self.deposit_and_ft_transfer(ctx, deposit, receiver_id, token_id, appchain_id, amount))
    }

    fn deposit_and_ft_transfer(
        &self,
        ctx: &Context,
        deposit: Balance,
        receiver_id: AccountId,
        token_id: AccountId,
        appchain_id: AppchainId,
        amount: u128,
    ) -> (r: Vec<PromiseAction>)
        ensures
            r@ == storage_deposit_promises(ctx, deposit, receiver_id, token_id, amount),
    {
        let mut p: Vec<PromiseAction> = Vec::new();
        p.push(
            PromiseAction::Call {
                contract_id: token_id.clone(),
                method: CallMethod::StorageDeposit { account_id: receiver_id.clone() },
                deposit,
                gas: SIMPLE_CALL_GAS,
            },
        );
        p.push(
            PromiseAction::Call {
                contract_id: ctx.current_account_id.clone(),
                method: CallMethod::ResolveBridgeTokenStorageDeposit { deposit, receiver_id, amount, token_id },
                deposit: NO_DEPOSIT,
                gas: SINGLE_CALL_GAS,
            },
        );
        assert(p@ =~= storage_deposit_promises(ctx, deposit, receiver_id, token_id, amount));
        p
    }

    fn resolve_bridge_token_storage_deposit(
        &self,
        ctx: &Context,
        deposit: Balance,
        receiver_id: AccountId,
        amount: u128,
        token_id: AccountId,
        storage_balance: Option<StorageBalance>,
    ) -> (r: Result<Vec<PromiseAction>, RelayError>)
        ensures
            ctx.predecessor_account_id@ != ctx.current_account_id@ ==> r == Err::<Vec<PromiseAction>, RelayError>(
                RelayError::NotSelf,
            ),
            ctx.predecessor_account_id@ == ctx.current_account_id@ ==> match storage_deposit_outcome(
                ctx,
                deposit,
                receiver_id,
                amount,
                token_id,
                storage_balance,
            ) {
                Ok(s) => r matches Ok(p) && p@ == s,
                Err(e) => r == Err::<Vec<PromiseAction>, RelayError>(e),
            },
    {
        if ctx.predecessor_account_id != ctx.current_account_id {
            return Err(RelayError::NotSelf);
        }
        let mut p: Vec<PromiseAction> = Vec::new();
        match storage_balance {
            Some(b) => {
                if b.total > deposit {
                    return Err(RelayError::ArithmeticOverflow);
                }
                let refund = deposit - b.total;
                if refund > 0 {
                    p.push(PromiseAction::Transfer { receiver_id: ctx.signer_account_id.clone(), amount: refund });
                }
                p.push(
                    PromiseAction::Call {
                        contract_id: token_id,
                        method: CallMethod::FtTransfer { receiver_id, amount },
                        deposit: 1,
                        gas: FT_TRANSFER_GAS,
                    },
                );
            },
            None => {
                p.push(PromiseAction::Transfer { receiver_id: ctx.signer_account_id.clone(), amount: deposit });
            },
        }
        proof {
            let s = storage_deposit_outcome(ctx, deposit, receiver_id, amount, token_id, storage_balance);
            assert(p@ =~= s->Ok_0);
        }
        Ok(p)
    }

    fn resolve_unlock_token(
        &mut self,
        ctx: &Context,
        token_id: AccountId,
        appchain_id: AppchainId,
        amount: u128,
        succeeded: bool,
    ) -> (r: Result<(), RelayError>)
        ensures
            final(self).wf(),
            old(self).stake_balanced() ==> final(self).stake_balanced(),
            callback_refusal(old(self), ctx, appchain_id@, succeeded) matches Some(e) ==> r == Err::<(), RelayError>(e),
            callback_refusal(old(self), ctx, appchain_id@, succeeded) is None && old(self).locked_for(appchain_id@, token_id@)
                < amount ==> r == Err::<(), RelayError>(RelayError::InsufficientLockedBalance),
            callback_refusal(old(self), ctx, appchain_id@, succeeded) is None && old(self).locked_for(appchain_id@, token_id@)
                >= amount && old(self).state_of(appchain_id@).unwrap().message_nonce == u32::MAX
                ==> r == Err::<(), RelayError>(RelayError::ArithmeticOverflow),
            r is Ok <==> {
                &&& callback_refusal(old(self), ctx, appchain_id@, succeeded) is None
                &&& old(self).locked_for(appchain_id@, token_id@) >= amount
                &&& old(self).state_of(appchain_id@).unwrap().message_nonce < u32::MAX
            },
            r is Err ==> *final(self) == *old(self),
            r is Ok ==> callback_refusal(old(self), ctx, appchain_id@, succeeded) is None && old(self).unlocks_into(
                &*final(self),
                appchain_id@,
                token_id@,
                amount,
            ),
    {
        if ctx.predecessor_account_id != ctx.current_account_id {
            return Err(RelayError::NotSelf);
        }
        if !succeeded {
            return Err(RelayError::PromiseFailed);
        }
        let si = self.find_state(&appchain_id)?;
        let ghost old_relay = *self;
        assert(state_ok(old_relay.appchain_states.spec_entries()[si as int]));
        let locked = self.appchain_states.value_at(si).get_total_locked_amount_of(&token_id);
        if locked < amount {
            return Err(RelayError::InsufficientLockedBalance);
        }
        if self.appchain_states.value_at(si).message_nonce == u32::MAX {
            return Err(RelayError::ArithmeticOverflow);
        }
        let state = self.appchain_states.value_mut_at(si);
        state.unlock_token(token_id, amount);
        state.increase_message_nonce();
        proof {
            let st2 = self.appchain_states.spec_entries()[si as int].1;
            lemma_state_replaced(&old_relay, self, si as int, st2);
            crate::str_map::lemma_inserted(old_relay.appchain_states.spec_entries(), appchain_id@, st2);
        }
        Ok(())
    }

    fn resolve_mint_native_token(&mut self, ctx: &Context, appchain_id: AppchainId, succeeded: bool) -> (r: Result<(), RelayError>)
        ensures
            final(self).wf(),
            old(self).stake_balanced() ==> final(self).stake_balanced(),
            callback_refusal(old(self), ctx, appchain_id@, succeeded) matches Some(e) ==> r == Err::<(), RelayError>(e),
            callback_refusal(old(self), ctx, appchain_id@, succeeded) is None
                && old(self).state_of(appchain_id@).unwrap().message_nonce == u32::MAX
                ==> r == Err::<(), RelayError>(RelayError::ArithmeticOverflow),
            r is Ok <==> callback_refusal(old(self), ctx, appchain_id@, succeeded) is None
                && old(self).state_of(appchain_id@).unwrap().message_nonce < u32::MAX,
            r is Err ==> *final(self) == *old(self),
            r is Ok ==> {
                let st = old(self).state_of(appchain_id@).unwrap();
                &&& callback_refusal(old(self), ctx, appchain_id@, succeeded) is None
                &&& old(self).with_state_replaced(&*final(self), appchain_id@)
                &&& final(self).state_of(appchain_id@).unwrap() == (AppchainState {
                    message_nonce: (st.message_nonce + 1) as u32,
                    ..st
                })
            },
    {
        if ctx.predecessor_account_id != ctx.current_account_id {
            return Err(RelayError::NotSelf);
        }
        if !succeeded {
            return Err(RelayError::PromiseFailed);
        }
        let si = self.find_state(&appchain_id)?;
        let ghost old_relay = *self;
        assert(state_ok(old_relay.appchain_states.spec_entries()[si as int]));
        if self.appchain_states.value_at(si).message_nonce == u32::MAX {
            return Err(RelayError::ArithmeticOverflow);
        }
        let state = self.appchain_states.value_mut_at(si);
        state.increase_message_nonce();
        proof {
            let st2 = self.appchain_states.spec_entries()[si as int].1;
            lemma_state_replaced(&old_relay, self, si as int, st2);
            crate::str_map::lemma_inserted(old_relay.appchain_states.spec_entries(), appchain_id@, st2);
        }
        Ok(())
    }

    /// Mint `amount` of the native token of an appchain to `receiver_id`, with exactly the
    /// storage deposit attached; the callback counts the message.
    ///
    /// Refused for another deposit and an appchain whose native token is not registered.
    fn mint_native_token(
        &self,
        ctx: &Context,
        appchain_id: AppchainId,
        receiver_id: AccountId,
        amount: u128,
    ) -> (r: Result<Vec<PromiseAction>, RelayError>)
        ensures
            ctx.attached_deposit != STORAGE_DEPOSIT_AMOUNT ==> r == Err::<Vec<PromiseAction>, RelayError>(
                RelayError::WrongDeposit,
            ),
            ctx.attached_deposit == STORAGE_DEPOSIT_AMOUNT && !self.appchain_native_tokens.spec_contains(appchain_id@)
                ==> r == Err::<Vec<PromiseAction>, RelayError>(RelayError::NativeTokenNotRegistered),
            ctx.attached_deposit == STORAGE_DEPOSIT_AMOUNT && self.appchain_native_tokens.spec_contains(appchain_id@)
                ==> (r matches Ok(p) && p@ == seq![
                PromiseAction::Call {
                    contract_id: self.appchain_native_tokens.spec_get(appchain_id@).unwrap(),
                    method: CallMethod::Mint { receiver_id, amount },
                    deposit: STORAGE_DEPOSIT_AMOUNT,
                    gas: GAS_FOR_FT_TRANSFER_CALL,
                },
                PromiseAction::Call {
                    contract_id: ctx.current_account_id,
                    method: CallMethod::ResolveMintNativeToken { appchain_id },
                    deposit: 0,
                    gas: GAS_FOR_FT_TRANSFER_CALL,
                },
            ]),
    {
        let deposit = ctx.attached_deposit;
        if deposit != STORAGE_DEPOSIT_AMOUNT {
            return Err(RelayError::WrongDeposit);
        }
        let native_token_id = match self.get_native_token(appchain_id.clone()) {
            Some(t) => t,
            None => return Err(RelayError::NativeTokenNotRegistered),
        };
        let mut p: Vec<PromiseAction> = Vec::new();
        p.push(
            PromiseAction::Call {
                contract_id: native_token_id,
                method: CallMethod::Mint { receiver_id, amount },
                deposit,
                gas: GAS_FOR_FT_TRANSFER_CALL,
            },
        );
        p.push(
            PromiseAction::Call {
                contract_id: ctx.current_account_id.clone(),
                method: CallMethod::ResolveMintNativeToken { appchain_id },
                deposit: 0,
                gas: GAS_FOR_FT_TRANSFER_CALL,
            },
        );
        Ok(p)
    }

    /// Burn `amount` of the native token of an appchain held by the signer, with exactly one
    /// yoctoNEAR attached; the callback records the burn for `receiver` on the appchain.
    ///
    /// Refused for another deposit and an appchain whose native token is not registered.
    fn burn_native_token(
        &self,
        ctx: &Context,
        appchain_id: AppchainId,
        receiver: String,
        amount: u128,
    ) -> (r: Result<Vec<PromiseAction>, RelayError>)
        ensures
            ctx.attached_deposit != 1 ==> r == Err::<Vec<PromiseAction>, RelayError>(RelayError::WrongDeposit),
            ctx.attached_deposit == 1 && !self.appchain_native_tokens.spec_contains(appchain_id@)
                ==> r == Err::<Vec<PromiseAction>, RelayError>(RelayError::NativeTokenNotRegistered),
            ctx.attached_deposit == 1 && self.appchain_native_tokens.spec_contains(appchain_id@) ==> (r matches Ok(p)
                && p@ == seq![
                PromiseAction::Call {
                    contract_id: self.appchain_native_tokens.spec_get(appchain_id@).unwrap(),
                    method: CallMethod::Burn { account_id: ctx.signer_account_id, amount },
                    deposit: 1,
                    gas: GAS_FOR_FT_TRANSFER_CALL,
                },
                PromiseAction::Call {
                    contract_id: ctx.current_account_id,
                    method: CallMethod::ResolveBurnNativeToken {
                        appchain_id,
                        sender_id: ctx.signer_account_id,
                        receiver,
                        amount,
                    },
                    deposit: 0,
                    gas: SINGLE_CALL_GAS,
                },
            ]),
    {
        if ctx.attached_deposit != 1 {
            return Err(RelayError::WrongDeposit);
        }
        let native_token_id = match self.get_native_token(appchain_id.clone()) {
            Some(t) => t,
            None => return Err(RelayError::NativeTokenNotRegistered),
        };
        let sender_id = ctx.signer_account_id.clone();
        let mut p: Vec<PromiseAction> = Vec::new();
        p.push(
            PromiseAction::Call {
                contract_id: native_token_id,
                method: CallMethod::Burn { account_id: sender_id.clone(), amount },
                deposit: 1,
                gas: GAS_FOR_FT_TRANSFER_CALL,
            },
        );
        p.push(
            PromiseAction::Call {
                contract_id: ctx.current_account_id.clone(),
                method: CallMethod::ResolveBurnNativeToken { appchain_id, sender_id, receiver, amount },
                deposit: 0,
                gas: SINGLE_CALL_GAS,
            },
        );
        Ok(p)
    }

    fn resolve_burn_native_token(
        &mut self,
        ctx: &Context,
        appchain_id: AppchainId,
        sender_id: AccountId,
        receiver: String,
        amount: u128,
        succeeded: bool,
    ) -> (r: Result<(), RelayError>)
        ensures
            final(self).wf(),
            old(self).stake_balanced() ==> final(self).stake_balanced(),
            callback_refusal(old(self), ctx, appchain_id@, succeeded) matches Some(e) ==> r == Err::<(), RelayError>(e)
                && *final(self) == *old(self),
            callback_refusal(old(self), ctx, appchain_id@, succeeded) is None ==> {
                &&& r is Ok
                &&& old(self).with_state_replaced(&*final(self), appchain_id@)
                &&& burns_into(
                    old(self).state_of(appchain_id@).unwrap(),
                    final(self).state_of(appchain_id@).unwrap(),
                    sender_id,
                    receiver,
                    amount,
                )
            },
    {
        if ctx.predecessor_account_id != ctx.current_account_id {
            return Err(RelayError::NotSelf);
        }
        if !succeeded {
            return Err(RelayError::PromiseFailed);
        }
        let si = self.find_state(&appchain_id)?;
        let ghost old_relay = *self;
        assert(state_ok(old_relay.appchain_states.spec_entries()[si as int]));
        let state = self.appchain_states.value_mut_at(si);
        state.create_validators_history();
        let ghost mid = *state;
        state.burn_native_token(receiver, sender_id, amount);
        proof {
            let st2 = self.appchain_states.spec_entries()[si as int].1;
            assert(st2.fact_list().subrange(0, mid.fact_list().len() as int) =~= mid.fact_list());
            lemma_state_replaced(&old_relay, self, si as int, st2);
            crate::str_map::lemma_inserted(old_relay.appchain_states.spec_entries(), appchain_id@, st2);
        }
        Ok(())
    }

    /// Carry out the messages of an appchain, with the attached deposit, once their proof is
    /// verified.
    ///
    /// Refused for an unknown appchain, a proof not verified, messages that cannot be decoded,
    /// and as `execute` refuses.
    fn relay(
        &self,
        ctx: &Context,
        appchain_id: AppchainId,
        encoded_messages: Vec<u8>,
        header_partial: Vec<u8>,
        leaf_proof: Vec<u8>,
        mmr_root: Vec<u8>,
    ) -> (r: Result<Vec<PromiseAction>, RelayError>)
        ensures
            !self.appchain_states.spec_contains(appchain_id@) ==> r == Err::<Vec<PromiseAction>, RelayError>(
                RelayError::AppchainNotFound,
            ),
            self.appchain_states.spec_contains(appchain_id@) && !(match crate::proof_decoder::scale_raw_records(
                encoded_messages@,
            ) {
                Some(recs) => crate::proof_decoder::records_decode(recs),
                None => false,
            }) ==> r == Err::<Vec<PromiseAction>, RelayError>(RelayError::DecodeFailed),
            self.appchain_states.spec_contains(appchain_id@) && (match crate::proof_decoder::scale_raw_records(
                encoded_messages@,
            ) {
                Some(recs) => crate::proof_decoder::records_decode(recs),
                None => false,
            }) ==> exists|v: Seq<Message>|
                crate::proof_decoder::are_decoded_messages(
                    v,
                    crate::proof_decoder::scale_raw_records(encoded_messages@).unwrap(),
                ) && #[trigger] self.is_execution_of(ctx, v, appchain_id, ctx.attached_deposit, r),
    {
        let deposit = ctx.attached_deposit;
        let _ = self.find_state(&appchain_id)?;
        let prover = AppchainProver;
        let verified = prover.verify(encoded_messages.clone(), header_partial.clone(), leaf_proof.clone(), mmr_root.clone());
        if !verified {
            return Err(RelayError::VerificationFailed);
        }
        let messages = self.decode(encoded_messages, header_partial, leaf_proof, mmr_root)?;
        let ghost v = messages@;
        let r = self.execute(ctx, messages, appchain_id, deposit);
        assert(self.is_execution_of(ctx, v, appchain_id, ctx.attached_deposit, r));
        r
    }

    /// Carry out the first message: tokens burnt on the appchain are unlocked, tokens locked
    /// on it are minted as its native token; a storage deposit goes with it, and the rest of
    /// the messages follow with what remains of the deposit.
    ///
    /// Refused, when there are messages, for an unknown appchain and a remaining deposit
    /// below a storage deposit.
    fn execute(
        &self,
        ctx: &Context,
        messages: Vec<Message>,
        appchain_id: AppchainId,
        remaining_deposit: Balance,
    ) -> (r: Result<Vec<PromiseAction>, RelayError>)
        ensures
            self.is_execution_of(ctx, messages@, appchain_id, remaining_deposit, r),
    {
        let mut p: Vec<PromiseAction> = Vec::new();
        if messages.len() > 0 {
            let _ = self.find_state(&appchain_id)?;
            let message = &messages[0];
            let next_messages = messages_after_first(&messages);
            if remaining_deposit < STORAGE_DEPOSIT_AMOUNT {
                return Err(RelayError::ArithmeticOverflow);
            }
            let next_remaining_deposit = remaining_deposit - STORAGE_DEPOSIT_AMOUNT;
            let execution = match &message.payload {
                MessagePayload::BurnAsset(b) => PromiseAction::Call {
                    contract_id: ctx.current_account_id.clone(),
                    method: CallMethod::UnlockToken {
                        appchain_id: appchain_id.clone(),
                        token_id: b.token_id.clone(),
                        sender: b.sender.clone(),
                        receiver_id: b.receiver_id.clone(),
                        amount: b.amount,
                    },
                    deposit: STORAGE_DEPOSIT_AMOUNT,
                    gas: COMPLEX_CALL_GAS,
                },
                MessagePayload::Lock(l) => PromiseAction::Call {
                    contract_id: ctx.current_account_id.clone(),
                    method: CallMethod::MintNativeToken {
                        appchain_id: appchain_id.clone(),
                        receiver_id: l.receiver_id.clone(),
                        amount: l.amount,
                    },
                    deposit: STORAGE_DEPOSIT_AMOUNT,
                    gas: 2 * SINGLE_CALL_GAS,
                },
            };
            p.push(execution);
            p.push(
                PromiseAction::Call {
                    contract_id: ctx.current_account_id.clone(),
                    method: CallMethod::Execute {
                        messages: next_messages,
                        appchain_id,
                        remaining_deposit: next_remaining_deposit,
                    },
                    deposit: NO_DEPOSIT,
                    gas: COMPLEX_CALL_GAS + SIMPLE_CALL_GAS,
                },
            );
        }
        Ok(p)
    }
}

/// Unlocking what was just locked of a token for an appchain gives back what was locked of
/// every token before.
pub proof fn law_unlock_undoes_lock(
    relay: &OctopusRelay,
    locked: &OctopusRelay,
    unlocked: &OctopusRelay,
    appchain_id: AppchainId,
    receiver: String,
    sender_id: AccountId,
    token_id: AccountId,
    amount: u128,
)
    requires
        relay.wf(),
        locked.wf(),
        relay.locks_tokens_into(locked, appchain_id, receiver, sender_id, token_id, amount, Ok(amount)),
        locked.unlocks_into(unlocked, appchain_id@, token_id@, amount),
    ensures
        forall|k: Seq<char>| #[trigger] unlocked.locked_for(appchain_id@, k) == relay.locked_for(appchain_id@, k),
{
    let s0 = relay.appchain_states.spec_entries();
    let s1 = locked.appchain_states.spec_entries();
    let st0 = relay.state_of(appchain_id@).unwrap();
    let st1 = locked.state_of(appchain_id@).unwrap();
    let st2 = unlocked.state_of(appchain_id@).unwrap();
    crate::str_map::lemma_inserted(s0, appchain_id@, st1);
    crate::str_map::lemma_inserted(s1, appchain_id@, st2);
    let i = crate::str_map::key_index(s0, appchain_id@);
    assert(state_ok(s0[i]));
    let j = crate::str_map::key_index(s1, appchain_id@);
    assert(state_ok(s1[j]));
    let l0 = st0.total_locked_tokens.spec_entries();
    let l1 = st1.total_locked_tokens.spec_entries();
    crate::str_map::lemma_inserted(l0, token_id@, (st0.locked_of(token_id@) + amount) as u128);
    crate::str_map::lemma_inserted(l1, token_id@, (st1.locked_of(token_id@) - amount) as u128);
}

/// Adding `a` units to `l` units of a token adds at most `rest` to their value, when `a` is at
/// most what `rest` buys of the token.
proof fn lemma_added_value(l: int, a: int, p: int, b: int, rest: int)
    requires
        l >= 0,
        a >= 0,
        p > 0,
        b > 0,
        rest >= 0,
        a <= (rest * b) / p,
    ensures
        ((l + a) * p) / b <= (l * p) / b + rest,
{
    assert(a * p <= rest * b) by (nonlinear_arith)
        requires
            a >= 0,
            p > 0,
            rest * b >= 0,
            a <= (rest * b) / p,
    ;
    assert((l + a) * p <= l * p + rest * b) by (nonlinear_arith)
        requires
            a * p <= rest * b,
    ;
    assert((l * p + rest * b) / b == (l * p) / b + rest) by (nonlinear_arith)
        requires
            b > 0,
    ;
    assert(((l + a) * p) / b <= (l * p + rest * b) / b) by (nonlinear_arith)
        requires
            b > 0,
            (l + a) * p <= l * p + rest * b,
    ;
}

/// Locking never raises what may still be bridged: after a lock, what may be bridged of any
/// token to the appchain is no more than before, when both questions are answered.
pub proof fn law_lock_never_raises_allowed(
    relay: &OctopusRelay,
    next: &OctopusRelay,
    appchain_id: AppchainId,
    receiver: String,
    sender_id: AccountId,
    token_id: AccountId,
    amount: u128,
    other_token: Seq<char>,
)
    requires
        relay.wf(),
        next.wf(),
        relay.locks_tokens_into(next, appchain_id, receiver, sender_id, token_id, amount, Ok(amount)),
    ensures
        relay.bridge_allowed_amount(appchain_id@, other_token) matches Ok(a1) ==> (next.bridge_allowed_amount(
            appchain_id@,
            other_token,
        ) matches Ok(a2) ==> a2 <= a1),
{
    let st = relay.state_of(appchain_id@).unwrap();
    let st2 = next.state_of(appchain_id@).unwrap();
    let s0 = relay.appchain_states.spec_entries();
    crate::str_map::lemma_inserted(s0, appchain_id@, st2);
    let si = crate::str_map::key_index(s0, appchain_id@);
    assert(state_ok(s0[si]));
    let tokens = relay.bridge_tokens.spec_entries();
    let t = relay.bridge_tokens.spec_get(token_id@).unwrap();
    let lk = st.locked_of(token_id@);
    crate::str_map::lemma_inserted(st.total_locked_tokens.spec_entries(), token_id@, (lk + amount) as u128);
    assert(st2.locked_of(token_id@) == lk + amount);
    assert(forall|k: Seq<char>| k != token_id@ ==> #[trigger] st2.locked_of(k) == st.locked_of(k));
    let i = crate::str_map::key_index(tokens, token_id@);
    assert(tokens[i].0 == token_id@ && tokens[i].1 == t);
    let f = |e: (Seq<char>, RelayedBridgeToken)| exact_value(st.locked_of(e.0) as int, e.1@.price as int, e.1@.decimals);
    let g = |e: (Seq<char>, RelayedBridgeToken)| exact_value(st2.locked_of(e.0) as int, e.1@.price as int, e.1@.decimals);
    assert forall|j: int| 0 <= j < tokens.len() && j != i implies f(#[trigger] tokens[j]) == g(tokens[j]) by {
        assert(tokens[j].0 != tokens[i].0);
    }
    crate::sums::lemma_sum_change_one(tokens, i, f, g);
    let base = ten_pow(t@.decimals as nat) as int;
    crate::bridge_token_manager::lemma_ten_pow_mono(0, t@.decimals as nat);
    vstd::arithmetic::mul::lemma_mul_inequality(lk as int, lk + amount, t@.price as int);
    vstd::arithmetic::div_mod::lemma_div_is_ordered(lk * t@.price, (lk + amount) * t@.price, base);
    assert(f(tokens[i]) <= g(tokens[i]));
    lemma_used_value_exact(tokens, st);
    lemma_used_value_exact(tokens, st2);
    assert(next.bridge_tokens == relay.bridge_tokens);
    if let Ok(a1) = relay.bridge_allowed_amount(appchain_id@, other_token) {
        if let Ok(a2) = next.bridge_allowed_amount(appchain_id@, other_token) {
            let o = relay.bridge_tokens.spec_get(other_token).unwrap();
            let limit = bridge_limit(st.staked_balance, relay.oct_token_price, relay.bridge_limit_ratio)->Some_0;
            let u1 = used_value(tokens, st)->Some_0;
            let u2 = used_value(tokens, st2)->Some_0;
            crate::bridge_token_manager::law_allowed_amount_bounds(limit, u1, u2, o@.price, o@.decimals);
        }
    }
}

/// Locking keeps the value of what is locked for an appchain within its bridge limit: the
/// limit stays as it was, and when the value of what is locked, every token at its price, was
/// within it before the lock, it is after.
pub proof fn law_lock_within_limit(
    relay: &OctopusRelay,
    next: &OctopusRelay,
    appchain_id: AppchainId,
    receiver: String,
    sender_id: AccountId,
    token_id: AccountId,
    amount: u128,
)
    requires
        relay.wf(),
        next.wf(),
        relay.locks_tokens_into(next, appchain_id, receiver, sender_id, token_id, amount, Ok(amount)),
    ensures
        ({
            let st = relay.state_of(appchain_id@).unwrap();
            let st2 = next.state_of(appchain_id@).unwrap();
            let limit = bridge_limit(st.staked_balance, relay.oct_token_price, relay.bridge_limit_ratio);
            &&& limit is Some
            &&& bridge_limit(st2.staked_balance, next.oct_token_price, next.bridge_limit_ratio) == limit
            &&& locked_value_total(relay.bridge_tokens.spec_entries(), st) <= limit->Some_0
                ==> locked_value_total(next.bridge_tokens.spec_entries(), st2) <= limit->Some_0
        }),
{
    let st = relay.state_of(appchain_id@).unwrap();
    let st2 = next.state_of(appchain_id@).unwrap();
    let s0 = relay.appchain_states.spec_entries();
    crate::str_map::lemma_inserted(s0, appchain_id@, st2);
    let si = crate::str_map::key_index(s0, appchain_id@);
    assert(state_ok(s0[si]));
    let tokens = relay.bridge_tokens.spec_entries();
    let t = relay.bridge_tokens.spec_get(token_id@).unwrap();
    let limit = bridge_limit(st.staked_balance, relay.oct_token_price, relay.bridge_limit_ratio)->Some_0;
    let u = used_value(tokens, st)->Some_0;
    let lk = st.locked_of(token_id@);
    crate::str_map::lemma_inserted(st.total_locked_tokens.spec_entries(), token_id@, (lk + amount) as u128);
    assert(st2.locked_of(token_id@) == lk + amount);
    assert(forall|k: Seq<char>| k != token_id@ ==> #[trigger] st2.locked_of(k) == st.locked_of(k));
    let i = crate::str_map::key_index(tokens, token_id@);
    assert(tokens[i].0 == token_id@ && tokens[i].1 == t);
    let f = |e: (Seq<char>, RelayedBridgeToken)| exact_value(st.locked_of(e.0) as int, e.1@.price as int, e.1@.decimals);
    let g = |e: (Seq<char>, RelayedBridgeToken)| exact_value(st2.locked_of(e.0) as int, e.1@.price as int, e.1@.decimals);
    assert forall|j: int| 0 <= j < tokens.len() && j != i implies f(#[trigger] tokens[j]) == g(tokens[j]) by {
        assert(tokens[j].0 != tokens[i].0);
    }
    crate::sums::lemma_sum_change_one(tokens, i, f, g);
    lemma_used_value_exact(tokens, st);
    assert(next.bridge_tokens == relay.bridge_tokens);
    if u < limit {
        let base = ten_pow(t@.decimals as nat);
        crate::bridge_token_manager::lemma_ten_pow_mono(0, t@.decimals as nat);
        lemma_added_value(lk as int, amount as int, t@.price as int, base as int, limit - u);
    } else {
        assert(amount == 0);
    }
}

} // verus!
