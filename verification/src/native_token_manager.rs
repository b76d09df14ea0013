//! The native token contract of each appchain on NEAR.
use crate::error::RelayError;
use crate::str_map::inserted;
use crate::types::{AccountId, AppchainId};
use crate::{Context, OctopusRelay, Ownable};
use vstd::prelude::*;

verus! {

/// Interfaces for manager native tokens
pub trait NativeTokenManager {
    /// The state in which the methods may be called.
    spec fn native_inv(&self) -> bool;

    /// Register the native token contract of an appchain; only the owner may.
    ///
    /// Refused for a caller other than the owner and an appchain whose native token is
    /// registered already.
    fn register_native_token(&mut self, ctx: &Context, appchain_id: AppchainId, token_id: AccountId) -> (r: Result<(), RelayError>)
        requires
            old(self).native_inv(),
    ;

    /// The native token contract of an appchain, if registered.
    fn get_native_token(&self, appchain_id: AppchainId) -> (r: Option<AccountId>)
        requires
            self.native_inv(),
    ;
}

impl NativeTokenManager for OctopusRelay {
    open spec fn native_inv(&self) -> bool {
        self.wf()
    }

    fn register_native_token(&mut self, ctx: &Context, appchain_id: AppchainId, token_id: AccountId) -> (r: Result<(), RelayError>)
        ensures
            final(self).wf(),
            old(self).stake_balanced() ==> final(self).stake_balanced(),
            ctx.predecessor_account_id@ != old(self).owner@ ==> r == Err::<(), RelayError>(RelayError::NotOwner),
            ctx.predecessor_account_id@ == old(self).owner@ && old(self).appchain_native_tokens.spec_contains(appchain_id@)
                ==> r == Err::<(), RelayError>(RelayError::NativeTokenAlreadyRegistered),
            r is Ok <==> ctx.predecessor_account_id@ == old(self).owner@
                && !old(self).appchain_native_tokens.spec_contains(appchain_id@),
            r is Err ==> *final(self) == *old(self),
            r is Ok ==> {
                &&& final(self).appchain_native_tokens.spec_entries() == inserted(
                    old(self).appchain_native_tokens.spec_entries(),
                    appchain_id@,
                    token_id,
                )
                &&& *final(self) == (OctopusRelay { appchain_native_tokens: final(self).appchain_native_tokens, ..*old(self) })
            },
    {
        self.assert_owner(ctx)?;
        if self.appchain_native_tokens.contains_key(&appchain_id) {
            return Err(RelayError::NativeTokenAlreadyRegistered);
        }
        self.appchain_native_tokens.insert(appchain_id, token_id);
        Ok(())
    }

    fn get_native_token(&self, appchain_id: AppchainId) -> (r: Option<AccountId>)
        ensures
            r == self.appchain_native_tokens.spec_get(appchain_id@),
    {
        match self.appchain_native_tokens.get(&appchain_id) {
            Some(t) => Some(t.clone()),
            None => None,
        }
    }
}

} // verus!
