//! A NEAR fungible token that can be bridged to appchains.
use crate::str_map::{distinct_keys, inserted, lookup, StrMap};
use crate::types::{AccountId, AppchainId, BridgeStatus, BridgeToken};
use vstd::prelude::*;

verus! {

/// Bridging status of bridge token
#[derive(Clone, Copy, Debug, PartialEq, Eq, Structural)]
pub enum BridgingStatus {
    Activated,
    Paused,
    Closed,
}

impl BridgingStatus {
    /// The status of a newly registered bridge token.
    pub fn default() -> (s: BridgingStatus)
        ensures
            s == BridgingStatus::Activated,
    {
        BridgingStatus::Activated
    }
}

/// The status shown to users for a bridging status.
pub open spec fn bridge_status_of(s: BridgingStatus) -> BridgeStatus {
    match s {
        BridgingStatus::Activated => BridgeStatus::Active,
        BridgingStatus::Paused => BridgeStatus::Paused,
        BridgingStatus::Closed => BridgeStatus::Closed,
    }
}

/// Struct for relayed bridge token
pub struct RelayedBridgeToken {
    token_id: AccountId,
    symbol: String,
    bridging_status: BridgingStatus,
    price: u128,
    decimals: u32,
    appchain_permitted: StrMap<bool>,
}

/// A bridge token with its permissions as the entries of a map from appchain id to flag.
pub ghost struct RelayedBridgeTokenView {
    pub token_id: AccountId,
    pub symbol: String,
    pub bridging_status: BridgingStatus,
    pub price: u128,
    pub decimals: u32,
    pub appchain_permitted: Seq<(Seq<char>, bool)>,
}

impl RelayedBridgeTokenView {
    /// The permission entries have distinct appchain ids.
    pub open spec fn wf(self) -> bool {
        distinct_keys(self.appchain_permitted)
    }

    /// Bridging to `appchain_id` is permitted.
    pub open spec fn permitted(self, appchain_id: Seq<char>) -> bool {
        lookup(self.appchain_permitted, appchain_id) == Some(true)
    }

    /// The `BridgeToken` shown to users.
    pub open spec fn bridge_token(self) -> BridgeToken {
        BridgeToken {
            token_id: self.token_id,
            symbol: self.symbol,
            status: bridge_status_of(self.bridging_status),
            price: self.price,
            decimals: self.decimals,
        }
    }
}

impl View for RelayedBridgeToken {
    type V = RelayedBridgeTokenView;

    closed spec fn view(&self) -> RelayedBridgeTokenView {
        RelayedBridgeTokenView {
            token_id: self.token_id,
            symbol: self.symbol,
            bridging_status: self.bridging_status,
            price: self.price,
            decimals: self.decimals,
            appchain_permitted: self.appchain_permitted.spec_entries(),
        }
    }
}

impl RelayedBridgeToken {
    /// Create a new instance of the struct, permitted for no appchain
    pub fn new(token_id: AccountId, symbol: String, bridging_status: BridgingStatus, price: u128, decimals: u32) -> (r: Self)
        ensures
            r@ == (RelayedBridgeTokenView {
                token_id,
                symbol,
                bridging_status,
                price,
                decimals,
                appchain_permitted: Seq::empty(),
            }),
            r@.wf(),
    {
        RelayedBridgeToken {
            token_id,
            symbol,
            bridging_status,
            price,
            decimals,
            appchain_permitted: StrMap::new(),
        }
    }

    /// Get id of the bridge token
    pub fn id(&self) -> (r: AccountId)
        ensures
            r == self@.token_id,
    {
        self.token_id.clone()
    }

    /// Get decimals of the bridge token
    pub fn decimals(&self) -> (r: u32)
        ensures
            r == self@.decimals,
    {
        self.decimals
    }

    /// Get price of the bridge token
    pub fn price(&self) -> (r: u128)
        ensures
            r == self@.price,
    {
        self.price
    }

    /// Get symbol of the bridge token
    pub fn symbol(&self) -> (r: String)
        ensures
            r == self@.symbol,
    {
        self.symbol.clone()
    }

    /// Get status of the bridge token
    pub fn bridging_status(&self) -> (r: BridgingStatus)
        ensures
            r == self@.bridging_status,
    {
        self.bridging_status
    }

    /// Get permitted flag of an appchain; an appchain never set is not permitted.
    pub fn is_permitted_of(&self, appchain_id: &AppchainId) -> (r: bool)
        requires
            self@.wf(),
        ensures
            r == self@.permitted(appchain_id@),
    {
        match self.appchain_permitted.get(appchain_id) {
            Some(p) => *p,
            None => false,
        }
    }

    /// The bridging permissions of the token, by appchain id.
    pub fn permissions(&self) -> (r: &StrMap<bool>)
        ensures
            r.spec_entries() == self@.appchain_permitted,
    {
        &self.appchain_permitted
    }

    /// Convert to struct `BridgeToken`
    pub fn to_bridge_token(&self) -> (r: BridgeToken)
        ensures
            r == self@.bridge_token(),
    {
        let status = match self.bridging_status {
            BridgingStatus::Activated => BridgeStatus::Active,
            BridgingStatus::Paused => BridgeStatus::Paused,
            BridgingStatus::Closed => BridgeStatus::Closed,
        };
        BridgeToken {
            token_id: self.token_id.clone(),
            symbol: self.symbol.clone(),
            status,
            price: self.price,
            decimals: self.decimals,
        }
    }

    /// Set price of the bridge token
    pub fn set_price(&mut self, price: &u128)
        ensures
            final(self)@ == (RelayedBridgeTokenView { price: *price, ..old(self)@ }),
    {
        self.price = *price;
    }

    /// Activate the bridging of the token
    pub fn activate_bridging(&mut self)
        ensures
            final(self)@ == (RelayedBridgeTokenView { bridging_status: BridgingStatus::Activated, ..old(self)@ }),
    {
        self.bridging_status = BridgingStatus::Activated;
    }

    /// Pause the bridging of the token
    pub fn pause_bridging(&mut self)
        ensures
            final(self)@ == (RelayedBridgeTokenView { bridging_status: BridgingStatus::Paused, ..old(self)@ }),
    {
        self.bridging_status = BridgingStatus::Paused;
    }

    /// Close the bridging of the token
    pub fn close_bridging(&mut self)
        ensures
            final(self)@ == (RelayedBridgeTokenView { bridging_status: BridgingStatus::Closed, ..old(self)@ }),
    {
        self.bridging_status = BridgingStatus::Closed;
    }

    /// Set bridging permission for appchain
    pub fn set_bridging_permission(&mut self, appchain_id: &AppchainId, permitted: &bool)
        requires
            old(self)@.wf(),
        ensures
            final(self)@ == (RelayedBridgeTokenView {
                appchain_permitted: inserted(old(self)@.appchain_permitted, appchain_id@, *permitted),
                ..old(self)@
            }),
            final(self)@.wf(),
    {
        self.appchain_permitted.insert(appchain_id.clone(), *permitted);
    }
}

} // verus!
