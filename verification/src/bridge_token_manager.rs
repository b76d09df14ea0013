//! Bridge tokens: their registration, status, prices and permissions, and how much of a
//! token an appchain may still take in.
use crate::error::RelayError;
use crate::relayed_bridge_token::{BridgingStatus, RelayedBridgeToken, RelayedBridgeTokenView};
use crate::str_map::{inserted, lemma_inserted, lemma_inserted_all, lemma_key_index, lemma_update_value};
use crate::appchain::state::AppchainState;
use crate::storage_key::ten_pow;
use crate::types::{AccountId, AppchainId, AppchainStatus, BridgeToken};
use crate::sums::sum_of;
use crate::{state_ok, token_ok, Context, OctopusRelay, Ownable, OCT_DECIMALS_BASE};
use vstd::prelude::*;

verus! {

/// Interfaces for manager bridge tokens
pub trait BridgeTokenManager {
    /// The state in which the methods may be called.
    spec fn manager_inv(&self) -> bool;

    /// Pause bridging a token; only the owner may.
    ///
    /// Refused for a caller other than the owner, an unregistered token, and one whose bridging
    /// is not active.
    fn pause_bridge_token(&mut self, ctx: &Context, token_id: AccountId) -> (r: Result<(), RelayError>)
        requires
            old(self).manager_inv(),
    ;

    /// Resume bridging a token; only the owner may.
    ///
    /// Refused for a caller other than the owner, an unregistered token, and one whose bridging
    /// is not paused.
    fn resume_bridge_token(&mut self, ctx: &Context, token_id: AccountId) -> (r: Result<(), RelayError>)
        requires
            old(self).manager_inv(),
    ;

    /// Register a new bridge token, active and permitted for no appchain; only the owner may.
    ///
    /// Refused for a caller other than the owner, a registered token id, and a registered symbol.
    fn register_bridge_token(
        &mut self,
        ctx: &Context,
        token_id: AccountId,
        symbol: String,
        price: u128,
        decimals: u32,
    ) -> (r: Result<(), RelayError>)
        requires
            old(self).manager_inv(),
    ;

    /// Set the bridging permission of a token to an appchain; only the owner may.
    ///
    /// Refused for a caller other than the owner and an unregistered token.
    fn set_bridge_permitted(
        &mut self,
        ctx: &Context,
        token_id: AccountId,
        appchain_id: AppchainId,
        permitted: bool,
    ) -> (r: Result<(), RelayError>)
        requires
            old(self).manager_inv(),
    ;

    /// Set the price of a token; only the owner may.
    ///
    /// This function should be called by an oracle which can offer the price of certain token.
    /// Refused for a caller other than the owner and an unregistered token.
    fn set_bridge_token_price(&mut self, ctx: &Context, token_id: AccountId, price: u128) -> (r: Result<(), RelayError>)
        requires
            old(self).manager_inv(),
    ;

    /// Information of a bridge token; nothing when it is not registered.
    fn get_bridge_token(&self, token_id: AccountId) -> (r: Option<BridgeToken>)
        requires
            self.manager_inv(),
    ;

    /// Get permitted amount of a token
    ///
    /// The result is calculated by the total price of all staked balance of OCT token in an
    /// appchain and the price of certain token: what is left of the appchain's limit after the
    /// value of every token locked for it, in units of the token; nothing when the limit is
    /// reached.
    ///
    /// Refused for an unknown appchain or one that is not booting, an unregistered token, one
    /// whose bridging is not active or not permitted for the appchain, a result that exceeds
    /// `u128` on the way, and a token of price zero.
    fn get_bridge_allowed_amount(&self, appchain_id: AppchainId, token_id: AccountId) -> (r: Result<u128, RelayError>)
        requires
            self.manager_inv(),
    ;
}

impl OctopusRelay {
    /// `next` is this relay with the registered token `token_id` replaced by one whose view is
    /// `v`; all else is unchanged.
    pub open spec fn token_updated(&self, next: &Self, token_id: Seq<char>, v: RelayedBridgeTokenView) -> bool {
        let t2 = next.bridge_tokens.spec_get(token_id).unwrap();
        &&& next.bridge_tokens.spec_contains(token_id)
        &&& next.bridge_tokens.spec_entries() == inserted(self.bridge_tokens.spec_entries(), token_id, t2)
        &&& t2@ == v
        &&& *next == (OctopusRelay { bridge_tokens: next.bridge_tokens, ..*self })
    }

    /// The view of the registered token `token_id`.
    pub open spec fn token_view(&self, token_id: Seq<char>) -> RelayedBridgeTokenView {
        self.bridge_tokens.spec_get(token_id).unwrap()@
    }
}

/// Replacing a bridge token by one kept under the same id keeps the relay's invariant.
proof fn lemma_token_replaced(relay: &OctopusRelay, next: &OctopusRelay, i: int, t2: RelayedBridgeToken)
    requires
        relay.wf(),
        0 <= i < relay.bridge_tokens.spec_len(),
        token_ok((relay.bridge_tokens.spec_entries()[i].0, t2)),
        next.bridge_tokens.spec_entries() == relay.bridge_tokens.spec_entries().update(
            i,
            (relay.bridge_tokens.spec_entries()[i].0, t2),
        ),
        *next == (OctopusRelay { bridge_tokens: next.bridge_tokens, ..*relay }),
    ensures
        next.wf(),
        relay.stake_balanced() ==> next.stake_balanced(),
        relay.token_updated(next, relay.bridge_tokens.spec_entries()[i].0, t2@),
{
    let s = relay.bridge_tokens.spec_entries();
    let k = s[i].0;
    lemma_update_value(s, i, t2);
    lemma_inserted(s, k, t2);
    lemma_inserted_all(s, k, t2, |e: (Seq<char>, RelayedBridgeToken)| token_ok(e));
    assert(next.bridge_tokens.spec_contains(k));
    assert forall|j: int| 0 <= j < next.bridge_tokens.spec_len() implies token_ok(
        #[trigger] next.bridge_tokens.spec_entries()[j],
    ) by {
        assert(token_ok(inserted(s, k, t2)[j]));
    }
}

impl OctopusRelay {
    /// Position of a registered bridge token; refused when it is not registered.
    fn find_token(&self, token_id: &AccountId) -> (r: Result<usize, RelayError>)
        requires
            self.wf(),
        ensures
            r is Err <==> !self.bridge_tokens.spec_contains(token_id@),
            r is Err ==> r == Err::<usize, RelayError>(RelayError::TokenNotRegistered),
            r matches Ok(i) ==> i < self.bridge_tokens.spec_len()
                && self.bridge_tokens.spec_entries()[i as int].0 == token_id@
                && self.bridge_tokens.spec_get(token_id@) == Some(self.bridge_tokens.spec_entries()[i as int].1)
                && token_ok(self.bridge_tokens.spec_entries()[i as int]),
    {
        match self.bridge_tokens.find(token_id) {
            Some(i) => {
                proof {
                    lemma_key_index(self.bridge_tokens.spec_entries(), i as int);
                }
                Ok(i)
            },
            None => Err(RelayError::TokenNotRegistered),
        }
    }

    /// Set the price of OCT token; only the owner may.
    ///
    /// This function should be called by an oracle which can offer the price of OCT token.
    pub fn set_oct_token_price(&mut self, ctx: &Context, price: u128) -> (r: Result<(), RelayError>)
        requires
            old(self).wf(),
        ensures
            final(self).wf(),
            old(self).stake_balanced() ==> final(self).stake_balanced(),
            r is Ok <==> ctx.predecessor_account_id@ == old(self).owner@,
            r is Err ==> r == Err::<(), RelayError>(RelayError::NotOwner) && *final(self) == *old(self),
            r is Ok ==> *final(self) == (OctopusRelay { oct_token_price: price, ..*old(self) }),
    {
        self.assert_owner(ctx)?;
        self.oct_token_price = price;
        Ok(())
    }

}

/// `10^d`, when it fits in a `u128`.
pub open spec fn checked_ten_pow(d: nat) -> Option<u128> {
    if ten_pow(d) <= u128::MAX {
        Some(ten_pow(d) as u128)
    } else {
        None
    }
}

/// Value, in units of the OCT price, of the tokens an appchain staked with `staked` OCT may
/// have bridged: the whole OCT staked at `oct_price`, times `ratio` hundredths of a percent;
/// nothing when a product exceeds `u128`.
pub open spec fn bridge_limit(staked: u128, oct_price: u128, ratio: u16) -> Option<u128> {
    let whole = staked / OCT_DECIMALS_BASE;
    if whole * oct_price > u128::MAX {
        None
    } else if whole * oct_price * ratio > u128::MAX {
        None
    } else {
        Some((whole * oct_price * ratio / 10000) as u128)
    }
}

/// Value of `locked` units of a token with `decimals` decimals at `price`; nothing when a
/// step exceeds `u128`.
pub open spec fn locked_value(locked: u128, price: u128, decimals: u32) -> Option<u128> {
    match checked_ten_pow(decimals as nat) {
        None => None,
        Some(base) => if locked * price > u128::MAX {
            None
        } else {
            Some(((locked * price) / (base as int)) as u128)
        },
    }
}

/// Value of what is locked for the appchain of `st` of each of `tokens`, added up in order;
/// nothing when a step exceeds `u128`.
pub open spec fn used_value(tokens: Seq<(Seq<char>, RelayedBridgeToken)>, st: AppchainState) -> Option<u128>
    decreases tokens.len(),
{
    if tokens.len() == 0 {
        Some(0)
    } else {
        match used_value(tokens.drop_last(), st) {
            None => None,
            Some(used) => {
                let t = tokens.last();
                match locked_value(st.locked_of(t.0), t.1@.price, t.1@.decimals) {
                    None => None,
                    Some(v) => if used + v > u128::MAX {
                        None
                    } else {
                        Some((used + v) as u128)
                    },
                }
            },
        }
    }
}

/// Units of a token with `decimals` decimals at `price` worth what is left of `limit` when
/// `used` of it is taken: nothing when all is taken.
pub open spec fn allowed_amount(limit: u128, used: u128, price: u128, decimals: u32) -> Result<u128, RelayError> {
    if used >= limit {
        Ok(0)
    } else {
        match checked_ten_pow(decimals as nat) {
            None => Err(RelayError::ArithmeticOverflow),
            Some(base) => if (limit - used) * base > u128::MAX {
                Err(RelayError::ArithmeticOverflow)
            } else if price == 0 {
                Err(RelayError::ZeroTokenPrice)
            } else {
                Ok((((limit - used) * base) / (price as int)) as u128)
            },
        }
    }
}

impl OctopusRelay {
    /// What may still be bridged of the token `token_id` to the appchain `appchain_id`, or why
    /// the question is refused.
    pub open spec fn bridge_allowed_amount(&self, appchain_id: Seq<char>, token_id: Seq<char>) -> Result<u128, RelayError> {
        match self.state_of(appchain_id) {
            None => Err(RelayError::AppchainNotFound),
            Some(st) => if st.status != AppchainStatus::Booting {
                Err(RelayError::NotBooting)
            } else {
                match self.bridge_tokens.spec_get(token_id) {
                    None => Err(RelayError::TokenNotRegistered),
                    Some(t) => if !(t@.bridging_status == BridgingStatus::Activated && t@.permitted(appchain_id)) {
                        Err(RelayError::BridgeNotAllowed)
                    } else {
                        match bridge_limit(st.staked_balance, self.oct_token_price, self.bridge_limit_ratio) {
                            None => Err(RelayError::ArithmeticOverflow),
                            Some(limit) => match used_value(self.bridge_tokens.spec_entries(), st) {
                                None => Err(RelayError::ArithmeticOverflow),
                                Some(used) => allowed_amount(limit, used, t@.price, t@.decimals),
                            },
                        }
                    }
                }
            },
        }
    }
}

/// Value of `locked` units of a token with `decimals` decimals at `price`, in whole numbers.
pub open spec fn exact_value(locked: int, price: int, decimals: u32) -> int {
    (locked * price) / (ten_pow(decimals as nat) as int)
}

/// Value of what is locked for the appchain of `st` of each of `tokens`, in whole numbers.
pub open spec fn locked_value_total(tokens: Seq<(Seq<char>, RelayedBridgeToken)>, st: AppchainState) -> int {
    sum_of(
        tokens,
        |t: (Seq<char>, RelayedBridgeToken)| exact_value(st.locked_of(t.0) as int, t.1@.price as int, t.1@.decimals),
    )
}

/// When the value locked of the tokens can be added up in `u128`, it is their value in whole
/// numbers.
pub proof fn lemma_used_value_exact(tokens: Seq<(Seq<char>, RelayedBridgeToken)>, st: AppchainState)
    ensures
        used_value(tokens, st) matches Some(u) ==> u == locked_value_total(tokens, st),
    decreases tokens.len(),
{
    if tokens.len() > 0 {
        let d = tokens.drop_last();
        lemma_used_value_exact(d, st);
        let t = tokens.last();
        let f = |t: (Seq<char>, RelayedBridgeToken)| exact_value(st.locked_of(t.0) as int, t.1@.price as int, t.1@.decimals);
        assert(locked_value_total(tokens, st) == locked_value_total(d, st) + f(t));
        if let Some(v) = locked_value(st.locked_of(t.0), t.1@.price, t.1@.decimals) {
            let x = st.locked_of(t.0) * t.1@.price;
            let b = ten_pow(t.1@.decimals as nat) as int;
            lemma_ten_pow_mono(0, t.1@.decimals as nat);
            assert(x / b <= x) by (nonlinear_arith)
                requires
                    x >= 0,
                    b >= 1,
            ;
            assert(v == f(t));
        }
    }
}

/// Powers of ten grow with the exponent.
pub proof fn lemma_ten_pow_mono(i: nat, j: nat)
    requires
        i <= j,
    ensures
        ten_pow(i) <= ten_pow(j),
    decreases j - i,
{
    if i < j {
        lemma_ten_pow_mono(i, (j - 1) as nat);
        assert(ten_pow(j) == 10 * ten_pow((j - 1) as nat));
    }
}

/// Once a step of the sum of values overflows, so does the whole sum.
proof fn lemma_used_value_prefix(tokens: Seq<(Seq<char>, RelayedBridgeToken)>, k: int, st: AppchainState)
    requires
        0 <= k <= tokens.len(),
        used_value(tokens.subrange(0, k), st) is None,
    ensures
        used_value(tokens, st) is None,
    decreases tokens.len() - k,
{
    if k == tokens.len() {
        assert(tokens.subrange(0, k) =~= tokens);
    } else {
        let d = tokens.drop_last();
        assert(d.subrange(0, k) =~= tokens.subrange(0, k));
        lemma_used_value_prefix(d, k, st);
    }
}

/// `10^d`, when it fits in a `u128`.
fn ten_pow_u128(d: u32) -> (r: Option<u128>)
    ensures
        r == checked_ten_pow(d as nat),
{
    let mut acc: u128 = 1;
    let mut i: u32 = 0;
    while i < d
        invariant
            i <= d,
            acc == ten_pow(i as nat),
        decreases d - i,
    {
        if acc > u128::MAX / 10 {
            proof {
                assert(ten_pow((i + 1) as nat) == 10 * ten_pow(i as nat));
                lemma_ten_pow_mono((i + 1) as nat, d as nat);
            }
            return None;
        }
        assert(ten_pow((i + 1) as nat) == 10 * ten_pow(i as nat));
        acc = acc * 10;
        i = i + 1;
    }
    Some(acc)
}

/// Value of `locked` units of a token with `decimals` decimals at `price`.
fn token_value(locked: u128, price: u128, decimals: u32) -> (r: Option<u128>)
    ensures
        r == locked_value(locked, price, decimals),
{
    let base = match ten_pow_u128(decimals) {
        Some(b) => b,
        None => return None,
    };
    proof {
        assert(base >= 1) by {
            lemma_ten_pow_mono(0, decimals as nat);
        }
    }
    match locked.checked_mul(price) {
        Some(p) => Some(p / base),
        None => None,
    }
}

impl BridgeTokenManager for OctopusRelay {
    open spec fn manager_inv(&self) -> bool {
        self.wf()
    }

    fn pause_bridge_token(&mut self, ctx: &Context, token_id: AccountId) -> (r: Result<(), RelayError>)
        ensures
            final(self).wf(),
            old(self).stake_balanced() ==> final(self).stake_balanced(),
            ctx.predecessor_account_id@ != old(self).owner@ ==> r == Err::<(), RelayError>(RelayError::NotOwner),
            ctx.predecessor_account_id@ == old(self).owner@ && !old(self).bridge_tokens.spec_contains(token_id@)
                ==> r == Err::<(), RelayError>(RelayError::TokenNotRegistered),
            ctx.predecessor_account_id@ == old(self).owner@ && old(self).bridge_tokens.spec_contains(token_id@)
                && old(self).token_view(token_id@).bridging_status != BridgingStatus::Activated
                ==> r == Err::<(), RelayError>(RelayError::BridgeAlreadyPaused),
            r is Ok <==> {
                &&& ctx.predecessor_account_id@ == old(self).owner@
                &&& old(self).bridge_tokens.spec_contains(token_id@)
                &&& old(self).token_view(token_id@).bridging_status == BridgingStatus::Activated
            },
            r is Err ==> *final(self) == *old(self),
            r is Ok ==> old(self).token_updated(
                &*final(self),
                token_id@,
                RelayedBridgeTokenView { bridging_status: BridgingStatus::Paused, ..old(self).token_view(token_id@) },
            ),
    {
        self.assert_owner(ctx)?;
        let ti = self.find_token(&token_id)?;
        if self.bridge_tokens.value_at(ti).bridging_status() != BridgingStatus::Activated {
            return Err(RelayError::BridgeAlreadyPaused);
        }
        let ghost old_relay = *self;
        let token = self.bridge_tokens.value_mut_at(ti);
        token.pause_bridging();
        proof {
            lemma_token_replaced(&old_relay, self, ti as int, self.bridge_tokens.spec_entries()[ti as int].1);
        }
        Ok(())
    }

    fn resume_bridge_token(&mut self, ctx: &Context, token_id: AccountId) -> (r: Result<(), RelayError>)
        ensures
            final(self).wf(),
            old(self).stake_balanced() ==> final(self).stake_balanced(),
            ctx.predecessor_account_id@ != old(self).owner@ ==> r == Err::<(), RelayError>(RelayError::NotOwner),
            ctx.predecessor_account_id@ == old(self).owner@ && !old(self).bridge_tokens.spec_contains(token_id@)
                ==> r == Err::<(), RelayError>(RelayError::TokenNotRegistered),
            ctx.predecessor_account_id@ == old(self).owner@ && old(self).bridge_tokens.spec_contains(token_id@)
                && old(self).token_view(token_id@).bridging_status != BridgingStatus::Paused
                ==> r == Err::<(), RelayError>(RelayError::BridgeAlreadyActive),
            r is Ok <==> {
                &&& ctx.predecessor_account_id@ == old(self).owner@
                &&& old(self).bridge_tokens.spec_contains(token_id@)
                &&& old(self).token_view(token_id@).bridging_status == BridgingStatus::Paused
            },
            r is Err ==> *final(self) == *old(self),
            r is Ok ==> old(self).token_updated(
                &*final(self),
                token_id@,
                RelayedBridgeTokenView { bridging_status: BridgingStatus::Activated, ..old(self).token_view(token_id@) },
            ),
    {
        self.assert_owner(ctx)?;
        let ti = self.find_token(&token_id)?;
        if self.bridge_tokens.value_at(ti).bridging_status() != BridgingStatus::Paused {
            return Err(RelayError::BridgeAlreadyActive);
        }
        let ghost old_relay = *self;
        let token = self.bridge_tokens.value_mut_at(ti);
        token.activate_bridging();
        proof {
            lemma_token_replaced(&old_relay, self, ti as int, self.bridge_tokens.spec_entries()[ti as int].1);
        }
        Ok(())
    }

    fn register_bridge_token(
        &mut self,
        ctx: &Context,
        token_id: AccountId,
        symbol: String,
        price: u128,
        decimals: u32,
    ) -> (r: Result<(), RelayError>)
        ensures
            final(self).wf(),
            old(self).stake_balanced() ==> final(self).stake_balanced(),
            ctx.predecessor_account_id@ != old(self).owner@ ==> r == Err::<(), RelayError>(RelayError::NotOwner),
            ctx.predecessor_account_id@ == old(self).owner@ && old(self).bridge_tokens.spec_contains(token_id@)
                ==> r == Err::<(), RelayError>(RelayError::TokenAlreadyRegistered),
            ctx.predecessor_account_id@ == old(self).owner@ && !old(self).bridge_tokens.spec_contains(token_id@)
                && old(self).bridge_symbol_to_token.spec_contains(symbol@)
                ==> r == Err::<(), RelayError>(RelayError::SymbolAlreadyRegistered),
            r is Ok <==> ctx.predecessor_account_id@ == old(self).owner@ && !old(self).bridge_tokens.spec_contains(token_id@)
                && !old(self).bridge_symbol_to_token.spec_contains(symbol@),
            r is Err ==> *final(self) == *old(self),
            r is Ok ==> {
                let t2 = final(self).bridge_tokens.spec_get(token_id@).unwrap();
                &&& final(self).bridge_tokens.spec_entries() == inserted(old(self).bridge_tokens.spec_entries(), token_id@, t2)
                &&& t2@ == (RelayedBridgeTokenView {
                    token_id,
                    symbol,
                    bridging_status: BridgingStatus::Activated,
                    price,
                    decimals,
                    appchain_permitted: Seq::empty(),
                })
                &&& final(self).bridge_symbol_to_token.spec_entries() == inserted(
                    old(self).bridge_symbol_to_token.spec_entries(),
                    symbol@,
                    token_id,
                )
                &&& *final(self) == (OctopusRelay {
                    bridge_tokens: final(self).bridge_tokens,
                    bridge_symbol_to_token: final(self).bridge_symbol_to_token,
                    ..*old(self)
                })
            },
    {
        self.assert_owner(ctx)?;
        if self.bridge_tokens.contains_key(&token_id) {
            return Err(RelayError::TokenAlreadyRegistered);
        }
        if self.bridge_symbol_to_token.contains_key(&symbol) {
            return Err(RelayError::SymbolAlreadyRegistered);
        }
        let token = RelayedBridgeToken::new(token_id.clone(), symbol.clone(), BridgingStatus::default(), price, decimals);
        let ghost old_tokens = self.bridge_tokens.spec_entries();
        self.bridge_tokens.insert(token_id.clone(), token);
        self.bridge_symbol_to_token.insert(symbol, token_id);
        proof {
            lemma_inserted(old_tokens, token_id@, token);
            lemma_inserted_all(old_tokens, token_id@, token, |e: (Seq<char>, RelayedBridgeToken)| token_ok(e));
            assert forall|j: int| 0 <= j < self.bridge_tokens.spec_len() implies token_ok(
                #[trigger] self.bridge_tokens.spec_entries()[j],
            ) by {
                assert(token_ok(inserted(old_tokens, token_id@, token)[j]));
            }
        }
        Ok(())
    }

    fn set_bridge_permitted(
        &mut self,
        ctx: &Context,
        token_id: AccountId,
        appchain_id: AppchainId,
        permitted: bool,
    ) -> (r: Result<(), RelayError>)
        ensures
            final(self).wf(),
            old(self).stake_balanced() ==> final(self).stake_balanced(),
            ctx.predecessor_account_id@ != old(self).owner@ ==> r == Err::<(), RelayError>(RelayError::NotOwner),
            ctx.predecessor_account_id@ == old(self).owner@ && !old(self).bridge_tokens.spec_contains(token_id@)
                ==> r == Err::<(), RelayError>(RelayError::TokenNotRegistered),
            r is Ok <==> ctx.predecessor_account_id@ == old(self).owner@ && old(self).bridge_tokens.spec_contains(token_id@),
            r is Err ==> *final(self) == *old(self),
            r is Ok ==> old(self).token_updated(
                &*final(self),
                token_id@,
                RelayedBridgeTokenView {
                    appchain_permitted: inserted(
                        old(self).token_view(token_id@).appchain_permitted,
                        appchain_id@,
                        permitted,
                    ),
                    ..old(self).token_view(token_id@)
                },
            ),
    {
        self.assert_owner(ctx)?;
        let ti = self.find_token(&token_id)?;
        let ghost old_relay = *self;
        let token = self.bridge_tokens.value_mut_at(ti);
        token.set_bridging_permission(&appchain_id, &permitted);
        proof {
            lemma_token_replaced(&old_relay, self, ti as int, self.bridge_tokens.spec_entries()[ti as int].1);
        }
        Ok(())
    }

    fn set_bridge_token_price(&mut self, ctx: &Context, token_id: AccountId, price: u128) -> (r: Result<(), RelayError>)
        ensures
            final(self).wf(),
            old(self).stake_balanced() ==> final(self).stake_balanced(),
            ctx.predecessor_account_id@ != old(self).owner@ ==> r == Err::<(), RelayError>(RelayError::NotOwner),
            ctx.predecessor_account_id@ == old(self).owner@ && !old(self).bridge_tokens.spec_contains(token_id@)
                ==> r == Err::<(), RelayError>(RelayError::TokenNotRegistered),
            r is Ok <==> ctx.predecessor_account_id@ == old(self).owner@ && old(self).bridge_tokens.spec_contains(token_id@),
            r is Err ==> *final(self) == *old(self),
            r is Ok ==> old(self).token_updated(
                &*final(self),
                token_id@,
                RelayedBridgeTokenView { price, ..old(self).token_view(token_id@) },
            ),
    {
        self.assert_owner(ctx)?;
        let ti = self.find_token(&token_id)?;
        let ghost old_relay = *self;
        let token = self.bridge_tokens.value_mut_at(ti);
        token.set_price(&price);
        proof {
            lemma_token_replaced(&old_relay, self, ti as int, self.bridge_tokens.spec_entries()[ti as int].1);
        }
        Ok(())
    }

    fn get_bridge_token(&self, token_id: AccountId) -> (r: Option<BridgeToken>)
        ensures
            r == (match self.bridge_tokens.spec_get(token_id@) {
                Some(t) => Some(t@.bridge_token()),
                None => None,
            }),
    {
        match self.bridge_tokens.get(&token_id) {
            Some(t) => Some(t.to_bridge_token()),
            None => None,
        }
    }

    fn get_bridge_allowed_amount(&self, appchain_id: AppchainId, token_id: AccountId) -> (r: Result<u128, RelayError>)
        ensures
            r == self.bridge_allowed_amount(appchain_id@, token_id@),
    {
        let si = self.find_state(&appchain_id)?;
        let st = self.appchain_states.value_at(si);
        proof {
            assert(state_ok(self.appchain_states.spec_entries()[si as int]));
        }
        if st.status != AppchainStatus::Booting {
            return Err(RelayError::NotBooting);
        }
        let ti = self.find_token(&token_id)?;
        let token = self.bridge_tokens.value_at(ti);
        if !(token.bridging_status() == BridgingStatus::Activated && token.is_permitted_of(&appchain_id)) {
            return Err(RelayError::BridgeNotAllowed);
        }
        let whole = st.staked_balance / OCT_DECIMALS_BASE;
        let priced = match whole.checked_mul(self.oct_token_price) {
            Some(v) => v,
            None => return Err(RelayError::ArithmeticOverflow),
        };
        let ratioed = match priced.checked_mul(self.bridge_limit_ratio as u128) {
            Some(v) => v,
            None => return Err(RelayError::ArithmeticOverflow),
        };
        let limit = ratioed / 10000;
        let ghost entries = self.bridge_tokens.spec_entries();
        let mut used: u128 = 0;
        let mut i: usize = 0;
        assert(entries.subrange(0, 0) =~= Seq::<(Seq<char>, RelayedBridgeToken)>::empty());
        assert(self.bridge_allowed_amount(appchain_id@, token_id@) == match used_value(entries, *st) {
            None => Err(RelayError::ArithmeticOverflow),
            Some(u) => allowed_amount(limit, u, token@.price, token@.decimals),
        });
        while i < self.bridge_tokens.len()
            invariant
                self.wf(),
                self.bridge_allowed_amount(appchain_id@, token_id@) == match used_value(entries, *st) {
                    None => Err(RelayError::ArithmeticOverflow),
                    Some(u) => allowed_amount(limit, u, token@.price, token@.decimals),
                },
                entries == self.bridge_tokens.spec_entries(),
                st.wf(),
                i <= entries.len(),
                used_value(entries.subrange(0, i as int), *st) == Some(used),
            decreases entries.len() - i,
        {
            let t = self.bridge_tokens.value_at(i);
            let locked = st.get_total_locked_amount_of(self.bridge_tokens.key_at(i));
            proof {
                assert(entries.subrange(0, i + 1).drop_last() =~= entries.subrange(0, i as int));
            }
            let v = match token_value(locked, t.price(), t.decimals()) {
                Some(v) => v,
                None => {
                    proof {
                        lemma_used_value_prefix(entries, i + 1, *st);
                    }
                    return Err(RelayError::ArithmeticOverflow);
                },
            };
            used = match used.checked_add(v) {
                Some(u) => u,
                None => {
                    proof {
                        lemma_used_value_prefix(entries, i + 1, *st);
                    }
                    return Err(RelayError::ArithmeticOverflow);
                },
            };
            i = i + 1;
        }
        assert(entries.subrange(0, i as int) =~= entries);
        if used >= limit {
            return Ok(0);
        }
        let rest = limit - used;
        let base = match ten_pow_u128(token.decimals()) {
            Some(b) => b,
            None => return Err(RelayError::ArithmeticOverflow),
        };
        let scaled = match rest.checked_mul(base) {
            Some(v) => v,
            None => return Err(RelayError::ArithmeticOverflow),
        };
        let price = token.price();
        if price == 0 {
            return Err(RelayError::ZeroTokenPrice);
        }
        Ok(scaled / price)
    }
}

/// What may still be bridged of a token never grows as more of the appchain's limit is used:
/// with `used1 <= used2`, when the first question is answered so is the second, with no more.
/// And it is never worth more than the limit: at most the limit times `10^decimals` over the
/// price. `get_bridge_allowed_amount` answers with `allowed_amount` of the appchain's limit
/// and the value of what is locked for it.
pub proof fn law_allowed_amount_bounds(limit: u128, used1: u128, used2: u128, price: u128, decimals: u32)
    requires
        used1 <= used2,
    ensures
        allowed_amount(limit, used1, price, decimals) matches Ok(a1) ==> (allowed_amount(limit, used2, price, decimals)
            matches Ok(a2) && a2 <= a1),
        price > 0 ==> (allowed_amount(limit, used1, price, decimals) matches Ok(a) ==> a <= (limit * ten_pow(
            decimals as nat,
        )) / (price as int)),
{
    if let Ok(a1) = allowed_amount(limit, used1, price, decimals) {
        if used1 < limit {
            let base = ten_pow(decimals as nat) as int;
            let x1 = (limit - used1) * base;
            vstd::arithmetic::mul::lemma_mul_inequality(limit - used1, limit as int, base);
            vstd::arithmetic::div_mod::lemma_div_is_ordered(x1, limit * base, price as int);
            if used2 < limit {
                let x2 = (limit - used2) * base;
                vstd::arithmetic::mul::lemma_mul_inequality(limit - used2, limit - used1, base);
                vstd::arithmetic::div_mod::lemma_div_is_ordered(x2, x1, price as int);
            }
        } else {
            if price > 0 {
                lemma_ten_pow_mono(0, decimals as nat);
                assert(limit * ten_pow(decimals as nat) >= 0) by (nonlinear_arith)
                    requires
                        ten_pow(decimals as nat) >= 1,
                ;
                vstd::arithmetic::div_mod::lemma_div_is_ordered(0, limit * ten_pow(decimals as nat), price as int);
            }
        }
    }
}

/// What may still be bridged never grows with what is locked: of two relays that differ only
/// in that the second has at least as much of every token locked for the appchain, the second
/// allows no more of any token, when both questions are answered. And in every state what may
/// be bridged is worth no more than the limit: at most the limit times `10^decimals` over the
/// token's price.
pub proof fn law_more_locked_never_allows_more(
    relay: &OctopusRelay,
    more: &OctopusRelay,
    appchain_id: Seq<char>,
    token_id: Seq<char>,
)
    requires
        relay.wf(),
        more.wf(),
        more.bridge_tokens == relay.bridge_tokens,
        more.oct_token_price == relay.oct_token_price,
        more.bridge_limit_ratio == relay.bridge_limit_ratio,
        relay.state_of(appchain_id) is Some,
        more.state_of(appchain_id) is Some,
        more.state_of(appchain_id).unwrap().status == relay.state_of(appchain_id).unwrap().status,
        more.state_of(appchain_id).unwrap().staked_balance == relay.state_of(appchain_id).unwrap().staked_balance,
        forall|k: Seq<char>| #[trigger] relay.state_of(appchain_id).unwrap().locked_of(k) <= more.state_of(
            appchain_id,
        ).unwrap().locked_of(k),
    ensures
        relay.bridge_allowed_amount(appchain_id, token_id) matches Ok(a1) ==> (more.bridge_allowed_amount(
            appchain_id,
            token_id,
        ) matches Ok(a2) ==> a2 <= a1),
        relay.bridge_allowed_amount(appchain_id, token_id) matches Ok(a) ==> ({
            let st = relay.state_of(appchain_id).unwrap();
            let t = relay.bridge_tokens.spec_get(token_id).unwrap();
            t@.price > 0 ==> a <= (bridge_limit(st.staked_balance, relay.oct_token_price, relay.bridge_limit_ratio)->Some_0
                * ten_pow(t@.decimals as nat)) / (t@.price as int)
        }),
{
    let st = relay.state_of(appchain_id).unwrap();
    let st2 = more.state_of(appchain_id).unwrap();
    let tokens = relay.bridge_tokens.spec_entries();
    let f = |e: (Seq<char>, RelayedBridgeToken)| exact_value(st.locked_of(e.0) as int, e.1@.price as int, e.1@.decimals);
    let g = |e: (Seq<char>, RelayedBridgeToken)| exact_value(st2.locked_of(e.0) as int, e.1@.price as int, e.1@.decimals);
    assert forall|j: int| 0 <= j < tokens.len() implies f(#[trigger] tokens[j]) <= g(tokens[j]) by {
        let e = tokens[j];
        let l1 = st.locked_of(e.0) as int;
        let l2 = st2.locked_of(e.0) as int;
        assert(l1 <= l2);
        lemma_ten_pow_mono(0, e.1@.decimals as nat);
        vstd::arithmetic::mul::lemma_mul_inequality(l1, l2, e.1@.price as int);
        vstd::arithmetic::div_mod::lemma_div_is_ordered(
            l1 * e.1@.price,
            l2 * e.1@.price,
            ten_pow(e.1@.decimals as nat) as int,
        );
    }
    crate::sums::lemma_sum_le(tokens, f, g);
    lemma_used_value_exact(tokens, st);
    lemma_used_value_exact(tokens, st2);
    if let Ok(a1) = relay.bridge_allowed_amount(appchain_id, token_id) {
        let t = relay.bridge_tokens.spec_get(token_id).unwrap();
        let limit = bridge_limit(st.staked_balance, relay.oct_token_price, relay.bridge_limit_ratio)->Some_0;
        let u1 = used_value(tokens, st)->Some_0;
        if let Ok(a2) = more.bridge_allowed_amount(appchain_id, token_id) {
            let u2 = used_value(tokens, st2)->Some_0;
            law_allowed_amount_bounds(limit, u1, u2, t@.price, t@.decimals);
        } else {
            law_allowed_amount_bounds(limit, u1, u1, t@.price, t@.decimals);
        }
    }
}

/// `10^decimals` is had exactly whenever it fits in a `u128`, that is for up to 38 decimals,
/// and never beyond. So what may still be bridged of a token with up to 38 decimals and a
/// positive price, when part of the limit is left and that part times `10^decimals` fits, is
/// that part times `10^decimals` over the price, not an overflow.
pub proof fn law_ten_pow_fits(d: u32, limit: u128, used: u128, price: u128)
    ensures
        d <= 38 ==> checked_ten_pow(d as nat) == Some(ten_pow(d as nat) as u128),
        d > 38 ==> checked_ten_pow(d as nat) is None,
        d <= 38 && used < limit && price > 0 && (limit - used) * ten_pow(d as nat) <= u128::MAX ==> allowed_amount(
            limit,
            used,
            price,
            d,
        ) == Ok::<u128, RelayError>((((limit - used) * ten_pow(d as nat)) / (price as int)) as u128),
{
    reveal_with_fuel(ten_pow, 40);
    assert(ten_pow(38) == 100_000_000_000_000_000_000_000_000_000_000_000_000nat);
    assert(ten_pow(39) == 1_000_000_000_000_000_000_000_000_000_000_000_000_000nat);
    if d <= 38 {
        lemma_ten_pow_mono(d as nat, 38);
    } else {
        lemma_ten_pow_mono(39, d as nat);
    }
}

/// Pausing the bridging of an active token and then resuming it gives back the same token, and
/// leaves every other token and the rest of the relay as they were. After the pause the token is
/// registered and paused under the same owner, so the owner's resume is owed success; after the
/// resume the token is active again, so a second resume is refused.
pub proof fn law_pause_then_resume(relay: &OctopusRelay, paused: &OctopusRelay, resumed: &OctopusRelay, token_id: Seq<char>)
    requires
        relay.wf(),
        relay.bridge_tokens.spec_contains(token_id),
        relay.token_view(token_id).bridging_status == BridgingStatus::Activated,
        relay.token_updated(
            paused,
            token_id,
            RelayedBridgeTokenView { bridging_status: BridgingStatus::Paused, ..relay.token_view(token_id) },
        ),
        paused.token_updated(
            resumed,
            token_id,
            RelayedBridgeTokenView { bridging_status: BridgingStatus::Activated, ..paused.token_view(token_id) },
        ),
    ensures
        paused.owner == relay.owner,
        paused.bridge_tokens.spec_contains(token_id),
        paused.token_view(token_id).bridging_status == BridgingStatus::Paused,
        resumed.token_view(token_id) == relay.token_view(token_id),
        resumed.token_view(token_id).bridging_status == BridgingStatus::Activated,
        forall|k: Seq<char>| k != token_id ==> resumed.bridge_tokens.spec_get(k) == relay.bridge_tokens.spec_get(k),
        forall|k: Seq<char>| resumed.bridge_tokens.spec_contains(k) == relay.bridge_tokens.spec_contains(k),
        *resumed == (OctopusRelay { bridge_tokens: resumed.bridge_tokens, ..*relay }),
{
    let s0 = relay.bridge_tokens.spec_entries();
    let t1 = paused.bridge_tokens.spec_get(token_id).unwrap();
    let s1 = paused.bridge_tokens.spec_entries();
    let t2 = resumed.bridge_tokens.spec_get(token_id).unwrap();
    lemma_inserted(s0, token_id, t1);
    lemma_inserted(s1, token_id, t2);
}

} // verus!
