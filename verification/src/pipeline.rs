//! The pipeline of an appchain: auditing, voting, staging, booting, and its removal.
use crate::appchain::metadata::AppchainMetadata;
use crate::appchain::state::{AppchainState, appended_set};
use crate::error::RelayError;
use crate::promise::{CallMethod, PromiseAction, PromiseOrValue, GAS_FOR_FT_TRANSFER_CALL, NO_DEPOSIT};
use crate::str_map::{inserted, lemma_key_index, lemma_update_value, removed};
use crate::types::{AppchainId, AppchainStatus, Timestamp};
use crate::{lemma_metadata_update, lemma_state_replaced, state_ok, Context, OctopusRelay, Ownable};
use vstd::prelude::*;

verus! {

/// Sending a tenth of the bond back to the founder, then calling back the relay.
pub open spec fn bond_return_promises(
    ctx: &Context,
    relay: &OctopusRelay,
    m: AppchainMetadata,
    callback: CallMethod,
) -> Seq<PromiseAction> {
    seq![
        PromiseAction::Call {
            contract_id: relay.token_contract_id,
            method: CallMethod::FtTransfer { receiver_id: m.founder_id, amount: m.bond_tokens / 10 },
            deposit: 1,
            gas: GAS_FOR_FT_TRANSFER_CALL,
        },
        PromiseAction::Call {
            contract_id: ctx.current_account_id,
            method: callback,
            deposit: NO_DEPOSIT,
            gas: (ctx.prepaid_gas / 2) as u64,
        },
    ]
}

impl OctopusRelay {
    /// Moves the status of an appchain from `from` to `to`; refused by the given errors.
    fn advance_status(
        &mut self,
        ctx: &Context,
        appchain_id: &AppchainId,
        from: AppchainStatus,
        to: AppchainStatus,
        wrong_status: RelayError,
    ) -> (r: Result<(), RelayError>)
        requires
            old(self).wf(),
            to == AppchainStatus::Voting || to == AppchainStatus::Staging,
            to == AppchainStatus::Staging ==> from == AppchainStatus::Voting,
            to == AppchainStatus::Voting ==> from == AppchainStatus::Auditing,
        ensures
            final(self).wf(),
            old(self).stake_balanced() ==> final(self).stake_balanced(),
            ctx.predecessor_account_id@ != old(self).owner@ ==> r == Err::<(), RelayError>(RelayError::NotOwner),
            ctx.predecessor_account_id@ == old(self).owner@ && !old(self).appchain_states.spec_contains(appchain_id@)
                ==> r == Err::<(), RelayError>(RelayError::AppchainNotFound),
            ctx.predecessor_account_id@ == old(self).owner@ && old(self).appchain_states.spec_contains(appchain_id@)
                && old(self).state_of(appchain_id@).unwrap().status != from ==> r == Err::<(), RelayError>(wrong_status),
            r is Ok <==> {
                &&& ctx.predecessor_account_id@ == old(self).owner@
                &&& old(self).appchain_states.spec_contains(appchain_id@)
                &&& old(self).state_of(appchain_id@).unwrap().status == from
            },
            r is Err ==> *final(self) == *old(self),
            r is Ok ==> {
                let st = old(self).state_of(appchain_id@).unwrap();
                &&& final(self).appchain_states.spec_entries() == inserted(
                    old(self).appchain_states.spec_entries(),
                    appchain_id@,
                    AppchainState { status: to, ..st },
                )
                &&& *final(self) == (OctopusRelay { appchain_states: final(self).appchain_states, ..*old(self) })
            },
    {
        self.assert_owner(ctx)?;
        let si = self.find_state(appchain_id)?;
        if self.appchain_states.value_at(si).status != from {
            return Err(wrong_status);
        }
        let ghost old_relay = *self;
        assert(state_ok(old_relay.appchain_states.spec_entries()[si as int]));
        let state = self.appchain_states.value_mut_at(si);
        if to == AppchainStatus::Voting {
            state.pass_auditing();
        } else {
            state.go_staging();
        }
        proof {
            let st2 = self.appchain_states.spec_entries()[si as int].1;
            lemma_update_value(old_relay.appchain_states.spec_entries(), si as int, st2);
            lemma_state_replaced(&old_relay, self, si as int, st2);
        }
        Ok(())
    }

    /// Status of a registered appchain.
    pub open spec fn spec_state_status(&self, appchain_id: Seq<char>) -> Option<AppchainStatus> {
        match self.state_of(appchain_id) {
            Some(st) => Some(st.status),
            None => None,
        }
    }

}

/// The number of validators as the relay counts them against its minimum: zero when it
/// does not fit in a `u32`.
pub open spec fn validator_count(len: nat) -> u32 {
    if len <= u32::MAX { len as u32 } else { 0 }
}

impl OctopusRelay {
    /// `next` is this relay after the appchain `appchain_id` was activated at `block_timestamp`:
    /// its metadata holds the given booting information and its state is booted; all else is
    /// unchanged.
    pub open spec fn activates_into(
        &self,
        next: &Self,
        appchain_id: Seq<char>,
        block_timestamp: Timestamp,
        boot_nodes: String,
        rpc_endpoint: String,
        chain_spec_url: String,
        chain_spec_hash: String,
        chain_spec_raw_url: String,
        chain_spec_raw_hash: String,
    ) -> bool {
        let m = self.metadata_of(appchain_id).unwrap();
        let st = self.state_of(appchain_id).unwrap();
        let st2 = next.state_of(appchain_id).unwrap();
        &&& next.appchain_metadatas.spec_entries() == inserted(
            self.appchain_metadatas.spec_entries(),
            appchain_id,
            AppchainMetadata {
                boot_nodes,
                rpc_endpoint,
                chain_spec_url,
                chain_spec_hash,
                chain_spec_raw_url,
                chain_spec_raw_hash,
                ..m
            },
        )
        &&& next.appchain_states.spec_entries() == inserted(self.appchain_states.spec_entries(), appchain_id, st2)
        &&& st.boots_into(&st2, block_timestamp)
        &&& *next == (OctopusRelay {
            appchain_metadatas: next.appchain_metadatas,
            appchain_states: next.appchain_states,
            ..*self
        })
    }

    /// Activate a registered appchain: its metadata takes the booting information and its
    /// state boots at the current block. Refused for an unknown appchain.
    fn internal_activate_appchain(
        &mut self,
        ctx: &Context,
        appchain_id: &AppchainId,
        boot_nodes: String,
        rpc_endpoint: String,
        chain_spec_url: String,
        chain_spec_hash: String,
        chain_spec_raw_url: String,
        chain_spec_raw_hash: String,
    ) -> (r: Result<Option<AppchainStatus>, RelayError>)
        requires
            old(self).wf(),
        ensures
            final(self).wf(),
            old(self).stake_balanced() ==> final(self).stake_balanced(),
            r is Err <==> !old(self).appchain_states.spec_contains(appchain_id@),
            r is Err ==> r == Err::<Option<AppchainStatus>, RelayError>(RelayError::AppchainNotFound)
                && *final(self) == *old(self),
            r is Ok ==> r == Ok::<Option<AppchainStatus>, RelayError>(Some(AppchainStatus::Booting))
                && old(self).activates_into(
                &*final(self),
                appchain_id@,
                ctx.block_timestamp,
                boot_nodes,
                rpc_endpoint,
                chain_spec_url,
                chain_spec_hash,
                chain_spec_raw_url,
                chain_spec_raw_hash,
            ),
    {
        let mi = self.find_metadata(appchain_id)?;
        let si = self.find_state(appchain_id)?;
        let ghost old_relay = *self;
        let m = self.appchain_metadatas.value_mut_at(mi);
        m.update_booting_info(
            boot_nodes,
            rpc_endpoint,
            chain_spec_url,
            chain_spec_hash,
            chain_spec_raw_url,
            chain_spec_raw_hash,
        );
        proof {
            let nm = self.appchain_metadatas.spec_entries()[mi as int].1;
            lemma_metadata_update(&old_relay, self, mi as int, nm);
        }
        let ghost mid_relay = *self;
        assert(state_ok(mid_relay.appchain_states.spec_entries()[si as int]));
        let state = self.appchain_states.value_mut_at(si);
        state.boot(ctx.block_timestamp);
        proof {
            let st2 = self.appchain_states.spec_entries()[si as int].1;
            lemma_state_replaced(&mid_relay, self, si as int, st2);
            crate::str_map::lemma_inserted(mid_relay.appchain_states.spec_entries(), appchain_id@, st2);
        }
        Ok(Some(AppchainStatus::Booting))
    }

}

/// The pipeline through which an appchain goes: auditing, voting, staging, booting.
pub trait AppchainPipeline {
    /// The state in which the methods may be called.
    spec fn pipeline_inv(&self) -> bool;

    /// Finish auditing of an appchain (change its status to `AppchainStatus::Voting`).
    /// Can only be called by the owner of Octopus relay.
    ///
    /// Refused for a caller other than the owner, an unknown appchain and one not in auditing.
    fn pass_appchain(&mut self, ctx: &Context, appchain_id: AppchainId) -> (r: Result<(), RelayError>)
        requires
            old(self).pipeline_inv(),
    ;

    /// Select an appchain for staging (change its status to `AppchainStatus::Staging`).
    /// Can only be called by the owner of Octopus relay.
    ///
    /// Refused for a caller other than the owner, an unknown appchain and one not in voting.
    fn appchain_go_staging(&mut self, ctx: &Context, appchain_id: AppchainId) -> (r: Result<(), RelayError>)
        requires
            old(self).pipeline_inv(),
    ;

    /// Remove an appchain from pipeline: a tenth of its bond goes back to the founder, then the
    /// callback removes it. Can only be called by the owner of Octopus relay.
    ///
    /// Refused for a caller other than the owner, an unknown appchain and one not in auditing.
    fn remove_appchain(&self, ctx: &Context, appchain_id: AppchainId) -> (r: Result<Vec<PromiseAction>, RelayError>)
        requires
            self.pipeline_inv(),
    ;

    /// Callback of function `remove_appchain`: when the bond was sent back, the metadata and
    /// state of the appchain are dropped.
    ///
    /// Refused unless the relay calls itself.
    fn resolve_remove_appchain(&mut self, ctx: &Context, appchain_id: AppchainId, transfer_succeeded: bool) -> (r: Result<(), RelayError>)
        requires
            old(self).pipeline_inv(),
    ;

    /// Activate an appchain in staging with enough validators (change its status to
    /// `AppchainStatus::Booting`). Can only be called by the owner of Octopus relay.
    ///
    /// With a bond, a tenth of it goes back to the founder first and the callback activates;
    /// without one the appchain is activated at once.
    ///
    /// Refused for a caller other than the owner, an unknown appchain, one not in staging, and
    /// one with fewer validators than the relay's minimum.
    fn activate_appchain(
        &mut self,
        ctx: &Context,
        appchain_id: AppchainId,
        boot_nodes: String,
        rpc_endpoint: String,
        chain_spec_url: String,
        chain_spec_hash: String,
        chain_spec_raw_url: String,
        chain_spec_raw_hash: String,
    ) -> (r: Result<PromiseOrValue<Option<AppchainStatus>>, RelayError>)
        requires
            old(self).pipeline_inv(),
    ;

    /// Callback of function `activate_appchain`: when the bond was sent back the appchain is
    /// activated and `Booting` returned, else it stays in staging and `Staging` is returned.
    ///
    /// Refused unless the relay calls itself, and for an appchain no longer registered.
    fn resolve_activate_appchain(
        &mut self,
        ctx: &Context,
        appchain_id: AppchainId,
        boot_nodes: String,
        rpc_endpoint: String,
        chain_spec_url: String,
        chain_spec_hash: String,
        chain_spec_raw_url: String,
        chain_spec_raw_hash: String,
        transfer_succeeded: bool,
    ) -> (r: Result<Option<AppchainStatus>, RelayError>)
        requires
            old(self).pipeline_inv(),
    ;

    /// Freeze an appchain: only the owner may, and only a booting appchain; nothing changes yet.
    ///
    /// Refused for a caller other than the owner, an unknown appchain and one not booting.
    fn freeze_appchain(&mut self, ctx: &Context, appchain_id: AppchainId) -> (r: Result<(), RelayError>)
        requires
            old(self).pipeline_inv(),
    ;
}

impl AppchainPipeline for OctopusRelay {
    open spec fn pipeline_inv(&self) -> bool {
        self.wf()
    }

    fn pass_appchain(&mut self, ctx: &Context, appchain_id: AppchainId) -> (r: Result<(), RelayError>)
        ensures
            final(self).wf(),
            old(self).stake_balanced() ==> final(self).stake_balanced(),
            ctx.predecessor_account_id@ != old(self).owner@ ==> r == Err::<(), RelayError>(RelayError::NotOwner),
            ctx.predecessor_account_id@ == old(self).owner@ && !old(self).appchain_states.spec_contains(appchain_id@)
                ==> r == Err::<(), RelayError>(RelayError::AppchainNotFound),
            ctx.predecessor_account_id@ == old(self).owner@ && old(self).appchain_states.spec_contains(appchain_id@)
                && old(self).state_of(appchain_id@).unwrap().status != AppchainStatus::Auditing
                ==> r == Err::<(), RelayError>(RelayError::NotInAuditing),
            r is Ok <==> {
                &&& ctx.predecessor_account_id@ == old(self).owner@
                &&& old(self).appchain_states.spec_contains(appchain_id@)
                &&& old(self).state_of(appchain_id@).unwrap().status == AppchainStatus::Auditing
            },
            r is Err ==> *final(self) == *old(self),
            r is Ok ==> {
                let st = old(self).state_of(appchain_id@).unwrap();
                &&& final(self).appchain_states.spec_entries() == inserted(
                    old(self).appchain_states.spec_entries(),
                    appchain_id@,
                    AppchainState { status: AppchainStatus::Voting, ..st },
                )
                &&& *final(self) == (OctopusRelay { appchain_states: final(self).appchain_states, ..*old(self) })
            },
    {
        self.advance_status(ctx, &appchain_id, AppchainStatus::Auditing, AppchainStatus::Voting, RelayError::NotInAuditing)
    }

    fn appchain_go_staging(&mut self, ctx: &Context, appchain_id: AppchainId) -> (r: Result<(), RelayError>)
        ensures
            final(self).wf(),
            old(self).stake_balanced() ==> final(self).stake_balanced(),
            ctx.predecessor_account_id@ != old(self).owner@ ==> r == Err::<(), RelayError>(RelayError::NotOwner),
            ctx.predecessor_account_id@ == old(self).owner@ && !old(self).appchain_states.spec_contains(appchain_id@)
                ==> r == Err::<(), RelayError>(RelayError::AppchainNotFound),
            ctx.predecessor_account_id@ == old(self).owner@ && old(self).appchain_states.spec_contains(appchain_id@)
                && old(self).state_of(appchain_id@).unwrap().status != AppchainStatus::Voting
                ==> r == Err::<(), RelayError>(RelayError::NotInVoting),
            r is Ok <==> {
                &&& ctx.predecessor_account_id@ == old(self).owner@
                &&& old(self).appchain_states.spec_contains(appchain_id@)
                &&& old(self).state_of(appchain_id@).unwrap().status == AppchainStatus::Voting
            },
            r is Err ==> *final(self) == *old(self),
            r is Ok ==> {
                let st = old(self).state_of(appchain_id@).unwrap();
                &&& final(self).appchain_states.spec_entries() == inserted(
                    old(self).appchain_states.spec_entries(),
                    appchain_id@,
                    AppchainState { status: AppchainStatus::Staging, ..st },
                )
                &&& *final(self) == (OctopusRelay { appchain_states: final(self).appchain_states, ..*old(self) })
            },
    {
        self.advance_status(ctx, &appchain_id, AppchainStatus::Voting, AppchainStatus::Staging, RelayError::NotInVoting)
    }

    fn remove_appchain(&self, ctx: &Context, appchain_id: AppchainId) -> (r: Result<Vec<PromiseAction>, RelayError>)
        ensures
            ctx.predecessor_account_id@ != self.owner@ ==> r == Err::<Vec<PromiseAction>, RelayError>(RelayError::NotOwner),
            ctx.predecessor_account_id@ == self.owner@ && !self.appchain_states.spec_contains(appchain_id@)
                ==> r == Err::<Vec<PromiseAction>, RelayError>(RelayError::AppchainNotFound),
            ctx.predecessor_account_id@ == self.owner@ && self.appchain_states.spec_contains(appchain_id@)
                && self.state_of(appchain_id@).unwrap().status != AppchainStatus::Auditing
                ==> r == Err::<Vec<PromiseAction>, RelayError>(RelayError::NotInAuditing),
            r matches Ok(p) ==> ctx.predecessor_account_id@ == self.owner@ && self.spec_state_status(appchain_id@) == Some(AppchainStatus::Auditing)
                && p@ == bond_return_promises(
                ctx,
                self,
                self.metadata_of(appchain_id@).unwrap(),
                CallMethod::ResolveRemoveAppchain { appchain_id },
            ),
            r is Err ==> !(ctx.predecessor_account_id@ == self.owner@ && self.spec_state_status(appchain_id@) == Some(AppchainStatus::Auditing)),
    {
        self.assert_owner(ctx)?;
        let mi = self.find_metadata(&appchain_id)?;
        let si = self.find_state(&appchain_id)?;
        if self.appchain_states.value_at(si).status != AppchainStatus::Auditing {
            return Err(RelayError::NotInAuditing);
        }
        let m = self.appchain_metadatas.value_at(mi);
        let mut promises: Vec<PromiseAction> = Vec::new();
        promises.push(
            PromiseAction::Call {
                contract_id: self.token_contract_id.clone(),
                method: CallMethod::FtTransfer { receiver_id: m.founder_id.clone(), amount: m.bond_tokens / 10 },
                deposit: 1,
                gas: GAS_FOR_FT_TRANSFER_CALL,
            },
        );
        promises.push(
            PromiseAction::Call {
                contract_id: ctx.current_account_id.clone(),
                method: CallMethod::ResolveRemoveAppchain { appchain_id },
                deposit: NO_DEPOSIT,
                gas: ctx.prepaid_gas / 2,
            },
        );
        proof {
            let p = bond_return_promises(ctx, self, *m, CallMethod::ResolveRemoveAppchain { appchain_id });
            assert(promises@ =~= p);
        }
        Ok(promises)
    }

    fn resolve_remove_appchain(&mut self, ctx: &Context, appchain_id: AppchainId, transfer_succeeded: bool) -> (r: Result<(), RelayError>)
        ensures
            final(self).wf(),
            old(self).stake_balanced() && (old(self).state_of(appchain_id@) matches Some(st) ==> st.staked_balance == 0)
                ==> final(self).stake_balanced(),
            r is Ok <==> ctx.predecessor_account_id@ == ctx.current_account_id@,
            r is Err ==> r == Err::<(), RelayError>(RelayError::NotSelf),
            r is Err || !transfer_succeeded ==> *final(self) == *old(self),
            r is Ok && transfer_succeeded ==> {
                &&& final(self).appchain_metadatas.spec_entries() == removed(old(self).appchain_metadatas.spec_entries(), appchain_id@)
                &&& final(self).appchain_states.spec_entries() == removed(old(self).appchain_states.spec_entries(), appchain_id@)
                &&& *final(self) == (OctopusRelay {
                    appchain_metadatas: final(self).appchain_metadatas,
                    appchain_states: final(self).appchain_states,
                    ..*old(self)
                })
            },
    {
        if ctx.predecessor_account_id != ctx.current_account_id {
            return Err(RelayError::NotSelf);
        }
        if transfer_succeeded {
            let ghost old_states = self.appchain_states.spec_entries();
            let ghost old_metas = self.appchain_metadatas.spec_entries();
            proof {
                crate::str_map::lemma_removed(old_states, appchain_id@);
                crate::str_map::lemma_removed(old_metas, appchain_id@);
                crate::sums::lemma_sum_bounds(old_states, |e: (Seq<char>, AppchainState)| crate::state_stake(e));
                if crate::str_map::has_key(old_states, appchain_id@) {
                    let i = crate::str_map::key_index(old_states, appchain_id@);
                    lemma_key_index(old_states, i);
                    crate::sums::lemma_sum_swap_remove(old_states, i, |e: (Seq<char>, AppchainState)| crate::state_stake(e));
                }
            }
            let _ = self.appchain_metadatas.remove(&appchain_id);
            let _ = self.appchain_states.remove(&appchain_id);
            proof {
                let ns = self.appchain_states.spec_entries();
                let nm = self.appchain_metadatas.spec_entries();
                if crate::str_map::has_key(old_states, appchain_id@) {
                    let i = crate::str_map::key_index(old_states, appchain_id@);
                    assert forall|j: int| 0 <= j < ns.len() implies state_ok(#[trigger] ns[j]) by {
                        if j == i {
                            assert(ns[j] == old_states.last());
                        } else {
                            assert(ns[j] == old_states[j]);
                        }
                    }
                }
                if crate::str_map::has_key(old_metas, appchain_id@) {
                    let i = crate::str_map::key_index(old_metas, appchain_id@);
                    assert forall|j: int| 0 <= j < nm.len() implies crate::metadata_ok(#[trigger] nm[j]) by {
                        if j == i {
                            assert(nm[j] == old_metas.last());
                        } else {
                            assert(nm[j] == old_metas[j]);
                        }
                    }
                }
                assert forall|k: Seq<char>| #[trigger] self.appchain_metadatas.spec_contains(k)
                    == self.appchain_states.spec_contains(k) by {
                    assert(old(self).appchain_metadatas.spec_contains(k) == old(self).appchain_states.spec_contains(k));
                }
            }
        }
        Ok(())
    }

    fn activate_appchain(
        &mut self,
        ctx: &Context,
        appchain_id: AppchainId,
        boot_nodes: String,
        rpc_endpoint: String,
        chain_spec_url: String,
        chain_spec_hash: String,
        chain_spec_raw_url: String,
        chain_spec_raw_hash: String,
    ) -> (r: Result<PromiseOrValue<Option<AppchainStatus>>, RelayError>)
        ensures
            final(self).wf(),
            old(self).stake_balanced() ==> final(self).stake_balanced(),
            ctx.predecessor_account_id@ != old(self).owner@ ==> r == Err::<PromiseOrValue<Option<AppchainStatus>>, RelayError>(
                RelayError::NotOwner,
            ),
            ctx.predecessor_account_id@ == old(self).owner@ && !old(self).appchain_states.spec_contains(appchain_id@)
                ==> r == Err::<PromiseOrValue<Option<AppchainStatus>>, RelayError>(RelayError::AppchainNotFound),
            ctx.predecessor_account_id@ == old(self).owner@ && old(self).appchain_states.spec_contains(appchain_id@)
                && old(self).state_of(appchain_id@).unwrap().status != AppchainStatus::Staging
                ==> r == Err::<PromiseOrValue<Option<AppchainStatus>>, RelayError>(RelayError::NotInStaging),
            ctx.predecessor_account_id@ == old(self).owner@ && old(self).spec_state_status(appchain_id@) == Some(
                AppchainStatus::Staging,
            ) && validator_count(old(self).state_of(appchain_id@).unwrap().vals().len())
                < old(self).appchain_minimum_validators
                ==> r == Err::<PromiseOrValue<Option<AppchainStatus>>, RelayError>(RelayError::InsufficientValidators),
            r is Ok <==> ctx.predecessor_account_id@ == old(self).owner@ && old(self).spec_state_status(appchain_id@)
                == Some(AppchainStatus::Staging) && validator_count(old(self).state_of(appchain_id@).unwrap().vals().len())
                >= old(self).appchain_minimum_validators,
            r is Err ==> *final(self) == *old(self),
            r matches Ok(PromiseOrValue::Promise(p)) ==> {
                &&& old(self).metadata_of(appchain_id@).unwrap().bond_tokens > 0
                &&& p@ == bond_return_promises(
                    ctx,
                    old(self),
                    old(self).metadata_of(appchain_id@).unwrap(),
                    CallMethod::ResolveActivateAppchain {
                        appchain_id,
                        boot_nodes,
                        rpc_endpoint,
                        chain_spec_url,
                        chain_spec_hash,
                        chain_spec_raw_url,
                        chain_spec_raw_hash,
                    },
                )
                &&& *final(self) == *old(self)
            },
            r matches Ok(PromiseOrValue::Value(v)) ==> {
                &&& old(self).metadata_of(appchain_id@).unwrap().bond_tokens == 0
                &&& v == Some(AppchainStatus::Booting)
                &&& old(self).activates_into(
                    &*final(self),
                    appchain_id@,
                    ctx.block_timestamp,
                    boot_nodes,
                    rpc_endpoint,
                    chain_spec_url,
                    chain_spec_hash,
                    chain_spec_raw_url,
                    chain_spec_raw_hash,
                )
            },
    {
        self.assert_owner(ctx)?;
        let mi = self.find_metadata(&appchain_id)?;
        let si = self.find_state(&appchain_id)?;
        if self.appchain_states.value_at(si).status != AppchainStatus::Staging {
            return Err(RelayError::NotInStaging);
        }
        let len = self.appchain_states.value_at(si).validators.len();
        let count: u32 = if len <= u32::MAX as usize { len as u32 } else { 0 };
        proof {
            let st = self.appchain_states.spec_entries()[si as int].1;
            assert(state_ok(self.appchain_states.spec_entries()[si as int]));
            assert(count == validator_count(st.vals().len()));
        }
        if count < self.appchain_minimum_validators {
            return Err(RelayError::InsufficientValidators);
        }
        let m = self.appchain_metadatas.value_at(mi);
        if m.bond_tokens > 0 {
            let mut promises: Vec<PromiseAction> = Vec::new();
            promises.push(
                PromiseAction::Call {
                    contract_id: self.token_contract_id.clone(),
                    method: CallMethod::FtTransfer { receiver_id: m.founder_id.clone(), amount: m.bond_tokens / 10 },
                    deposit: 1,
                    gas: GAS_FOR_FT_TRANSFER_CALL,
                },
            );
            promises.push(
                PromiseAction::Call {
                    contract_id: ctx.current_account_id.clone(),
                    method: CallMethod::ResolveActivateAppchain {
                        appchain_id,
                        boot_nodes,
                        rpc_endpoint,
                        chain_spec_url,
                        chain_spec_hash,
                        chain_spec_raw_url,
                        chain_spec_raw_hash,
                    },
                    deposit: NO_DEPOSIT,
                    gas: ctx.prepaid_gas / 2,
                },
            );
            assert(promises@ =~= bond_return_promises(
                ctx,
                self,
                *m,
                CallMethod::ResolveActivateAppchain {
                    appchain_id,
                    boot_nodes,
                    rpc_endpoint,
                    chain_spec_url,
                    chain_spec_hash,
                    chain_spec_raw_url,
                    chain_spec_raw_hash,
                },
            ));
            Ok(PromiseOrValue::Promise(promises))
        } else {
            let status = self.internal_activate_appchain(
                ctx,
                &appchain_id,
                boot_nodes,
                rpc_endpoint,
                chain_spec_url,
                chain_spec_hash,
                chain_spec_raw_url,
                chain_spec_raw_hash,
            )?;
            Ok(PromiseOrValue::Value(status))
        }
    }

    fn resolve_activate_appchain(
        &mut self,
        ctx: &Context,
        appchain_id: AppchainId,
        boot_nodes: String,
        rpc_endpoint: String,
        chain_spec_url: String,
        chain_spec_hash: String,
        chain_spec_raw_url: String,
        chain_spec_raw_hash: String,
        transfer_succeeded: bool,
    ) -> (r: Result<Option<AppchainStatus>, RelayError>)
        ensures
            final(self).wf(),
            old(self).stake_balanced() ==> final(self).stake_balanced(),
            ctx.predecessor_account_id@ != ctx.current_account_id@ ==> r == Err::<Option<AppchainStatus>, RelayError>(
                RelayError::NotSelf,
            ),
            ctx.predecessor_account_id@ == ctx.current_account_id@ && !transfer_succeeded ==> r == Ok::<
                Option<AppchainStatus>,
                RelayError,
            >(Some(AppchainStatus::Staging)),
            ctx.predecessor_account_id@ == ctx.current_account_id@ && transfer_succeeded
                && !old(self).appchain_states.spec_contains(appchain_id@)
                ==> r == Err::<Option<AppchainStatus>, RelayError>(RelayError::AppchainNotFound),
            ctx.predecessor_account_id@ == ctx.current_account_id@ && transfer_succeeded
                && old(self).appchain_states.spec_contains(appchain_id@)
                ==> r == Ok::<Option<AppchainStatus>, RelayError>(Some(AppchainStatus::Booting)),
            r is Err || !transfer_succeeded ==> *final(self) == *old(self),
            r is Ok && transfer_succeeded ==> old(self).activates_into(
                &*final(self),
                appchain_id@,
                ctx.block_timestamp,
                boot_nodes,
                rpc_endpoint,
                chain_spec_url,
                chain_spec_hash,
                chain_spec_raw_url,
                chain_spec_raw_hash,
            ),
    {
        if ctx.predecessor_account_id != ctx.current_account_id {
            return Err(RelayError::NotSelf);
        }
        if transfer_succeeded {
            self.internal_activate_appchain(
                ctx,
                &appchain_id,
                boot_nodes,
                rpc_endpoint,
                chain_spec_url,
                chain_spec_hash,
                chain_spec_raw_url,
                chain_spec_raw_hash,
            )
        } else {
            Ok(Some(AppchainStatus::Staging))
        }
    }

    fn freeze_appchain(&mut self, ctx: &Context, appchain_id: AppchainId) -> (r: Result<(), RelayError>)
        ensures
            final(self).wf(),
            *final(self) == *old(self),
            ctx.predecessor_account_id@ != old(self).owner@ ==> r == Err::<(), RelayError>(RelayError::NotOwner),
            ctx.predecessor_account_id@ == old(self).owner@ && !old(self).appchain_states.spec_contains(appchain_id@)
                ==> r == Err::<(), RelayError>(RelayError::AppchainNotFound),
            ctx.predecessor_account_id@ == old(self).owner@ && old(self).appchain_states.spec_contains(appchain_id@)
                && old(self).state_of(appchain_id@).unwrap().status != AppchainStatus::Booting
                ==> r == Err::<(), RelayError>(RelayError::NotBooting),
            r is Ok <==> ctx.predecessor_account_id@ == old(self).owner@ && old(self).spec_state_status(appchain_id@) == Some(AppchainStatus::Booting),
    {
        self.assert_owner(ctx)?;
        let si = self.find_state(&appchain_id)?;
        if self.appchain_states.value_at(si).status != AppchainStatus::Booting {
            return Err(RelayError::NotBooting);
        }
        // Freezing an appchain changes nothing of its state yet.
        Ok(())
    }
}

} // verus!
