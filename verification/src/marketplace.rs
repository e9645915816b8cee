//! The escrow state machine: offer creation and cancellation, trade
//! initiation, dual-confirmation release, expiration handling, and
//! admin-mediated dispute resolution.
//!
//! [`P2PMarketplaceContract`] owns the three ledgers (offers, trades, and the
//! seller-to-active-offer index) together with the configuration. Every entry
//! point takes the caller's identity as already verified by the host's
//! authentication collaborator, and the ones that move value take the asset
//! ledger by mutable handle and check each transfer's result, rolling staged
//! ledger changes back when a transfer fails.
//!
//! The contracts state three invariants preserved by every operation:
//!
//! - the escrow accounting invariant: the sum of escrowed amounts of offers
//!   in the offer ledger equals the asset-ledger balance of the escrow
//!   itself, [`P2PMarketplaceContract::escrow_matches`];
//! - index consistency: a seller stands in the active-offer index exactly
//!   when they have one live offer, and the index points at it;
//! - trade discipline: at most one trade per offer is in a non-terminal
//!   status at any time.

use vstd::prelude::*;
use vstd::arithmetic::div_mod::lemma_div_is_ordered;
use vstd::arithmetic::div_mod::lemma_div_multiples_vanish;
use vstd::arithmetic::div_mod::lemma_div_pos_is_pos;
use vstd::arithmetic::div_mod::lemma_fundamental_div_mod;
use vstd::arithmetic::div_mod::lemma_mod_bound;
use vstd::arithmetic::mul::lemma_mul_inequality;
use vstd::arithmetic::mul::lemma_mul_nonnegative;
use crate::store::IdMap;
use crate::token::TokenLedger;
use crate::types::non_terminal;
use crate::types::DisputeResolution;
use crate::types::Error;
use crate::types::Offer;
use crate::types::Trade;
use crate::types::TradeStatus;
use crate::types::BASIS_POINTS_DIVISOR;
use crate::types::DEFAULT_FEE_RATE;
use crate::types::DEFAULT_MAX_TRADE_AMOUNT;
use crate::types::DEFAULT_MIN_TRADE_AMOUNT;
use crate::types::DEFAULT_TRADE_EXPIRATION;
use crate::types::MAX_FEE_RATE;
use crate::types::MAX_REASONABLE_AMOUNT;
use crate::types::MAX_SAFE_FEE_AMOUNT;
use crate::types::MAX_TRADE_EXPIRATION;
use crate::types::MIN_TRADE_EXPIRATION;

verus! {

/// The sum of the escrowed amounts of the offers in `s`.
pub open spec fn escrow_total(s: Seq<(u64, Offer)>) -> int
    decreases s.len(),
{
    if s.len() == 0 {
        0
    } else {
        escrow_total(s.drop_last()) + s.last().1.usdc_amount
    }
}

/// Appending an offer grows the total by its amount.
pub proof fn lemma_escrow_total_push(s: Seq<(u64, Offer)>, p: (u64, Offer))
    ensures
        escrow_total(s.push(p)) == escrow_total(s) + p.1.usdc_amount,
{
    assert(s.push(p).drop_last() =~= s);
    assert(s.push(p).last() == p);
}

/// Removing the offer at `i` shrinks the total by its amount.
pub proof fn lemma_escrow_total_remove(s: Seq<(u64, Offer)>, i: int)
    requires
        0 <= i < s.len(),
    ensures
        escrow_total(s.remove(i)) == escrow_total(s) - s[i].1.usdc_amount,
    decreases s.len(),
{
    if i == s.len() - 1 {
        assert(s.remove(i) =~= s.drop_last());
    } else {
        let t = s.drop_last();
        assert(s.remove(i).drop_last() =~= t.remove(i));
        assert(s.remove(i).last() == s.last());
        lemma_escrow_total_remove(t, i);
        assert(t[i] == s[i]);
    }
}

/// With no negative amounts the total is non-negative.
pub proof fn lemma_escrow_total_nonneg(s: Seq<(u64, Offer)>)
    requires
        forall|j: int| 0 <= j < s.len() ==> (#[trigger] s[j]).1.usdc_amount >= 0,
    ensures
        escrow_total(s) >= 0,
    decreases s.len(),
{
    if s.len() > 0 {
        let t = s.drop_last();
        assert forall|j: int| 0 <= j < t.len() implies (#[trigger] t[j]).1.usdc_amount >= 0 by {
            assert(t[j] == s[j]);
        }
        lemma_escrow_total_nonneg(t);
    }
}

/// With no negative amounts the total covers each single offer.
pub proof fn lemma_escrow_total_member(s: Seq<(u64, Offer)>, i: int)
    requires
        0 <= i < s.len(),
        forall|j: int| 0 <= j < s.len() ==> (#[trigger] s[j]).1.usdc_amount >= 0,
    ensures
        escrow_total(s) >= s[i].1.usdc_amount,
    decreases s.len(),
{
    let t = s.drop_last();
    assert forall|j: int| 0 <= j < t.len() implies (#[trigger] t[j]).1.usdc_amount >= 0 by {
        assert(t[j] == s[j]);
    }
    if i == s.len() - 1 {
        lemma_escrow_total_nonneg(t);
    } else {
        lemma_escrow_total_member(t, i);
        assert(t[i] == s[i]);
    }
}

/// The trading fee on `amount` at `rate_bp` basis points: amount times rate
/// over 10,000, computed divide-first above [`MAX_SAFE_FEE_AMOUNT`] (a small
/// truncation loss traded for overflow safety).
pub open spec fn fee_of(amount: i128, rate_bp: u32) -> int {
    if amount > MAX_SAFE_FEE_AMOUNT {
        (amount as int / (BASIS_POINTS_DIVISOR as int)) * (rate_bp as int)
    } else {
        (amount * rate_bp) / (BASIS_POINTS_DIVISOR as int)
    }
}

/// `t` with `participant`'s confirmation flag raised: the buyer's when the
/// participant is the buyer, the seller's otherwise.
pub open spec fn with_confirmation(t: Trade, is_buyer: bool) -> Trade {
    Trade {
        offer_id: t.offer_id,
        buyer: t.buyer,
        start_time: t.start_time,
        status: t.status,
        buyer_confirmed_payment: t.buyer_confirmed_payment || is_buyer,
        seller_confirmed_payment: t.seller_confirmed_payment || !is_buyer,
    }
}

/// `t` moved to `status`, all else unchanged.
pub open spec fn with_status(t: Trade, status: TradeStatus) -> Trade {
    Trade {
        offer_id: t.offer_id,
        buyer: t.buyer,
        start_time: t.start_time,
        status,
        buyer_confirmed_payment: t.buyer_confirmed_payment,
        seller_confirmed_payment: t.seller_confirmed_payment,
    }
}

/// Whether the secondary fee transfer from the escrow to the fee collector
/// succeeds once the payout has already moved from the escrow to the buyer.
pub open spec fn fee_send_ok(
    pre: TokenLedger,
    contract: u64,
    buyer: u64,
    fc: u64,
    payout: int,
    fee: int,
) -> bool {
    &&& pre.moved_bal(contract, buyer, payout, contract) >= fee
    &&& (contract == fc || pre.moved_bal(contract, buyer, payout, fc) + fee <= i128::MAX)
}

/// The balance of `a` after the fee-bearing payout against the pre-state
/// `pre`: `payout` moves from the escrow to the buyer, then `fee` moves to
/// the fee collector if it is positive and its transfer goes through; a
/// failed fee transfer is swallowed and the fee stays with the escrow.
pub open spec fn released_bal(
    pre: TokenLedger,
    contract: u64,
    buyer: u64,
    fc: u64,
    payout: int,
    fee: int,
    a: u64,
) -> int {
    let mid = pre.moved_bal(contract, buyer, payout, a);
    if fee > 0 && fee_send_ok(pre, contract, buyer, fc, payout, fee) {
        if contract == fc {
            mid
        } else if a == contract {
            mid - fee
        } else if a == fc {
            mid + fee
        } else {
            mid
        }
    } else {
        mid
    }
}

/// The escrow marketplace: configuration and the three ledgers, with the
/// state machine as the sole writer.
pub struct P2PMarketplaceContract {
    /// The escrow's own identity on the asset ledger.
    pub contract_id: u64,
    /// The administrator: may pause, configure, and resolve disputes.
    pub admin: u64,
    /// Reference to the asset contract whose ledger backs the escrow.
    pub usdc_token: u64,
    /// Where trading fees are sent.
    pub fee_collector: u64,
    /// Trading fee in basis points; at most [`MAX_FEE_RATE`].
    pub fee_rate: u32,
    /// Smallest offer amount accepted.
    pub min_trade_amount: i128,
    /// Largest offer amount accepted.
    pub max_trade_amount: i128,
    /// Confirmation window for trades, in seconds.
    pub trade_expiration: u64,
    /// Emergency brake: blocks trading operations, not dispute handling.
    pub paused: bool,
    /// The offer ledger: an offer is present exactly while its amount is
    /// escrowed on the seller's behalf.
    pub offers: IdMap<Offer>,
    /// The trade ledger: trades are never deleted, only moved to a terminal
    /// status.
    pub trades: IdMap<Trade>,
    /// Seller identity to the id of their one live offer.
    pub active_offers: IdMap<u64>,
    /// Next offer id to allocate; ids grow monotonically.
    pub next_offer_id: u64,
    /// Next trade id to allocate; ids grow monotonically.
    pub next_trade_id: u64,
}

impl P2PMarketplaceContract {
    /// Configuration stays within its enforced bounds.
    pub open spec fn config_wf(self) -> bool {
        &&& self.admin != 0
        &&& self.usdc_token != 0
        &&& self.fee_collector != 0
        &&& self.fee_rate <= MAX_FEE_RATE
        &&& 0 < self.min_trade_amount <= self.max_trade_amount <= MAX_REASONABLE_AMOUNT
        &&& MIN_TRADE_EXPIRATION <= self.trade_expiration <= MAX_TRADE_EXPIRATION
    }

    /// Every offer has positive amounts, a valid seller, and is the offer the
    /// active-offer index knows for its seller.
    pub open spec fn offers_wf(self) -> bool {
        forall|o: u64| #[trigger]
            self.offers.as_map().contains_key(o) ==> {
                &&& self.offers.as_map()[o].usdc_amount > 0
                &&& self.offers.as_map()[o].kes_amount > 0
                &&& self.offers.as_map()[o].seller != 0
                &&& self.active_offers.as_map().contains_key(self.offers.as_map()[o].seller)
                &&& self.active_offers.as_map()[self.offers.as_map()[o].seller] == o
            }
    }

    /// Every index entry points at an existing offer of that seller.
    pub open spec fn index_wf(self) -> bool {
        forall|s: u64| #[trigger]
            self.active_offers.as_map().contains_key(s) ==> {
                &&& self.offers.as_map().contains_key(self.active_offers.as_map()[s])
                &&& self.offers.as_map()[self.active_offers.as_map()[s]].seller == s
            }
    }

    /// Every live trade settles an offer that is still in the offer ledger.
    pub open spec fn trades_wf(self) -> bool {
        forall|t: u64| #[trigger]
            self.trades.as_map().contains_key(t) ==> (non_terminal(self.trades.as_map()[t].status)
                ==> self.offers.as_map().contains_key(self.trades.as_map()[t].offer_id))
    }

    /// At most one trade per offer is in a non-terminal status.
    pub open spec fn one_live_trade_per_offer(self) -> bool {
        forall|t1: u64, t2: u64|
            #![trigger self.trades.as_map()[t1], self.trades.as_map()[t2]]
            self.trades.as_map().contains_key(t1) && self.trades.as_map().contains_key(t2) && t1
                != t2 && non_terminal(self.trades.as_map()[t1].status) && non_terminal(
                self.trades.as_map()[t2].status,
            ) ==> self.trades.as_map()[t1].offer_id != self.trades.as_map()[t2].offer_id
    }

    /// Ledger keys stay below the allocation counters.
    pub open spec fn ids_wf(self) -> bool {
        &&& forall|o: u64| #[trigger] self.offers.as_map().contains_key(o) ==> o < self.next_offer_id
        &&& forall|t: u64| #[trigger] self.trades.as_map().contains_key(t) ==> t < self.next_trade_id
    }

    /// The full well-formedness invariant: established by [`Self::initialize`]
    /// and preserved by every operation.
    pub open spec fn wf(self) -> bool {
        &&& self.config_wf()
        &&& self.offers.wf()
        &&& self.trades.wf()
        &&& self.active_offers.wf()
        &&& self.offers_wf()
        &&& self.index_wf()
        &&& self.trades_wf()
        &&& self.one_live_trade_per_offer()
        &&& self.ids_wf()
    }

    /// The escrow accounting invariant: the asset ledger holds, on the
    /// escrow's account, exactly the sum of the escrowed amounts of the
    /// offers in the offer ledger.
    pub open spec fn escrow_matches(self, ledger: TokenLedger) -> bool {
        escrow_total(self.offers.seq()) == ledger.bal(self.contract_id)
    }

    /// Both states carry the same configuration.
    pub open spec fn same_config(self, other: Self) -> bool {
        &&& self.contract_id == other.contract_id
        &&& self.admin == other.admin
        &&& self.usdc_token == other.usdc_token
        &&& self.fee_collector == other.fee_collector
        &&& self.fee_rate == other.fee_rate
        &&& self.min_trade_amount == other.min_trade_amount
        &&& self.max_trade_amount == other.max_trade_amount
        &&& self.trade_expiration == other.trade_expiration
        &&& self.paused == other.paused
    }

    /// Both states are observably the same: same configuration, same ledgers
    /// as maps, same counters.
    pub open spec fn state_unchanged(self, other: Self) -> bool {
        &&& self.same_config(other)
        &&& self.offers.as_map() == other.offers.as_map()
        &&& self.trades.as_map() == other.trades.as_map()
        &&& self.active_offers.as_map() == other.active_offers.as_map()
        &&& self.next_offer_id == other.next_offer_id
        &&& self.next_trade_id == other.next_trade_id
    }

    /// In a well-formed state a seller stands in the active-offer index
    /// exactly when the offer ledger holds a live offer of theirs, and then
    /// the index points at it.
    pub proof fn lemma_index_iff_live_offer(self, seller: u64)
        requires
            self.wf(),
        ensures
            self.active_offers.as_map().contains_key(seller) <==> exists|o: u64| #[trigger]
                self.offers.as_map().contains_key(o) && self.offers.as_map()[o].seller == seller,
            self.active_offers.as_map().contains_key(seller) ==> self.offers.as_map().contains_key(
                self.active_offers.as_map()[seller],
            ) && self.offers.as_map()[self.active_offers.as_map()[seller]].seller == seller,
    {
        if self.active_offers.as_map().contains_key(seller) {
            let o = self.active_offers.as_map()[seller];
            assert(self.offers.as_map().contains_key(o) && self.offers.as_map()[o].seller
                == seller);
        }
    }

    /// Rejects the reserved invalid identity.
    fn _validate_address(addr: u64) -> (r: Result<(), Error>)
        ensures
            r == if addr == 0 {
                Err::<(), Error>(Error::InvalidAmount)
            } else {
                Ok::<(), Error>(())
            },
    {
        if addr == 0 {
            return Err(Error::InvalidAmount);
        }
        Ok(())
    }

    /// Admits only the configured administrator.
    fn _require_admin(&self, caller: u64) -> (r: Result<(), Error>)
        ensures
            r == if caller == self.admin {
                Ok::<(), Error>(())
            } else {
                Err::<(), Error>(Error::Unauthorized)
            },
    {
        if caller != self.admin {
            return Err(Error::Unauthorized);
        }
        Ok(())
    }

    /// Whether `trade` has exceeded its confirmation window at time `now`.
    fn _is_trade_expired(&self, trade: &Trade, now: u64) -> (r: bool)
        ensures
            r == (now >= trade.start_time + self.trade_expiration),
    {
        (now as u128) >= (trade.start_time as u128) + (self.trade_expiration as u128)
    }

    /// The trading fee on `amount` at `fee_rate` basis points. Never panics
    /// for a non-negative amount and a rate within the enforced ceiling: the
    /// multiplication is proved not to overflow on the normal path, and above
    /// [`MAX_SAFE_FEE_AMOUNT`] the division happens first.
    pub fn _calculate_fee(amount: i128, fee_rate: u32) -> (fee: i128)
        requires
            0 <= amount,
            fee_rate <= MAX_FEE_RATE,
        ensures
            fee as int == fee_of(amount, fee_rate),
            0 <= fee <= amount,
    {
        let a = amount as u128;
        let r = fee_rate as u128;
        if amount > MAX_SAFE_FEE_AMOUNT {
            let q = a / (BASIS_POINTS_DIVISOR as u128);
            proof {
                let ai = a as int;
                let qi = ai / 10000;
                lemma_div_pos_is_pos(ai, 10000);
                lemma_fundamental_div_mod(ai, 10000);
                lemma_mod_bound(ai, 10000);
                assert(qi * 10000 <= ai);
                assert(qi * (r as int) <= qi * 10000) by (nonlinear_arith)
                    requires
                        0 <= qi,
                        r <= 10000,
                ;
                lemma_mul_nonnegative(qi, r as int);
                assert(q * r <= a);
            }
            let fee = q * r;
            fee as i128
        } else {
            proof {
                let ai = a as int;
                assert(ai * (r as int) <= ai * 1000) by (nonlinear_arith)
                    requires
                        0 <= ai,
                        r <= 1000,
                ;
                assert(ai <= MAX_SAFE_FEE_AMOUNT);
                lemma_mul_inequality(ai, MAX_SAFE_FEE_AMOUNT as int, 1000);
                lemma_fundamental_div_mod(i128::MAX as int, 1000);
                lemma_mod_bound(i128::MAX as int, 1000);
                assert((MAX_SAFE_FEE_AMOUNT as int) * 1000 <= i128::MAX);
                lemma_mul_nonnegative(ai, r as int);
            }
            let p = a * r;
            proof {
                let ai = a as int;
                let pi = p as int;
                assert(pi * 1 <= ai * 10000) by (nonlinear_arith)
                    requires
                        0 <= ai,
                        r <= 10000,
                        pi == ai * (r as int),
                ;
                lemma_div_is_ordered(pi, ai * 10000, 10000);
                lemma_div_multiples_vanish(ai, 10000);
                lemma_div_pos_is_pos(pi, 10000);
            }
            let fee = p / (BASIS_POINTS_DIVISOR as u128);
            fee as i128
        }
    }

    /// Sets up a marketplace with the given administrator, asset reference
    /// and fee collector, and the default fee, bounds and timeout. Rejects
    /// the invalid identity with `InvalidAmount`; succeeds otherwise.
    pub fn initialize(contract_id: u64, admin: u64, usdc_token_id: u64, fee_collector: u64) -> (r:
        Result<Self, Error>)
        ensures
            match r {
                Ok(m) => {
                    &&& admin != 0 && usdc_token_id != 0 && fee_collector != 0
                    &&& m.wf()
                    &&& m.contract_id == contract_id
                    &&& m.admin == admin
                    &&& m.usdc_token == usdc_token_id
                    &&& m.fee_collector == fee_collector
                    &&& m.fee_rate == DEFAULT_FEE_RATE
                    &&& m.min_trade_amount == DEFAULT_MIN_TRADE_AMOUNT
                    &&& m.max_trade_amount == DEFAULT_MAX_TRADE_AMOUNT
                    &&& m.trade_expiration == DEFAULT_TRADE_EXPIRATION
                    &&& !m.paused
                    &&& m.offers.as_map() == Map::<u64, Offer>::empty()
                    &&& m.offers.seq() == Seq::<(u64, Offer)>::empty()
                    &&& m.trades.as_map() == Map::<u64, Trade>::empty()
                    &&& m.active_offers.as_map() == Map::<u64, u64>::empty()
                    &&& m.next_offer_id == 0
                    &&& m.next_trade_id == 0
                },
                Err(e) => {
                    &&& e == Error::InvalidAmount
                    &&& (admin == 0 || usdc_token_id == 0 || fee_collector == 0)
                },
            },
    {
        Self::_validate_address(admin)?;
        Self::_validate_address(usdc_token_id)?;
        Self::_validate_address(fee_collector)?;
        Ok(
            P2PMarketplaceContract {
                contract_id,
                admin,
                usdc_token: usdc_token_id,
                fee_collector,
                fee_rate: DEFAULT_FEE_RATE,
                min_trade_amount: DEFAULT_MIN_TRADE_AMOUNT,
                max_trade_amount: DEFAULT_MAX_TRADE_AMOUNT,
                trade_expiration: DEFAULT_TRADE_EXPIRATION,
                paused: false,
                offers: IdMap::new(),
                trades: IdMap::new(),
                active_offers: IdMap::new(),
                next_offer_id: 0,
                next_trade_id: 0,
            },
        )
    }

    /// Halts trading operations. Only the administrator may pause.
    pub fn pause(&mut self, caller: u64) -> (r: Result<(), Error>)
        requires
            old(self).wf(),
        ensures
            final(self).wf(),
            match r {
                Ok(_) => caller == old(self).admin && *final(self) == Self { paused: true, ..*old(self) },
                Err(e) => e == Error::Unauthorized && caller != old(self).admin && *final(self) == *old(self),
            },
    {
        self._require_admin(caller)?;
        self.paused = true;
        Ok(())
    }

    /// Resumes trading operations. Only the administrator may unpause.
    pub fn unpause(&mut self, caller: u64) -> (r: Result<(), Error>)
        requires
            old(self).wf(),
        ensures
            final(self).wf(),
            match r {
                Ok(_) => caller == old(self).admin && *final(self) == Self { paused: false, ..*old(self) },
                Err(e) => e == Error::Unauthorized && caller != old(self).admin && *final(self) == *old(self),
            },
    {
        self._require_admin(caller)?;
        self.paused = false;
        Ok(())
    }

    /// Hands administrative control to `new_admin`. Requires the current
    /// administrator as caller and a valid, host-verified new identity.
    pub fn update_admin(&mut self, caller: u64, new_admin: u64) -> (r: Result<(), Error>)
        requires
            old(self).wf(),
        ensures
            final(self).wf(),
            match r {
                Ok(_) => caller == old(self).admin && new_admin != 0 && *final(self) == Self {
                    admin: new_admin,
                    ..*old(self)
                },
                Err(e) => {
                    &&& *final(self) == *old(self)
                    &&& e == if caller != old(self).admin {
                        Error::Unauthorized
                    } else {
                        Error::InvalidAmount
                    }
                    &&& (caller != old(self).admin || new_admin == 0)
                },
            },
    {
        self._require_admin(caller)?;
        Self::_validate_address(new_admin)?;
        self.admin = new_admin;
        Ok(())
    }

    /// Redirects trading fees to `new_fee_collector`.
    pub fn update_fee_collector(&mut self, caller: u64, new_fee_collector: u64) -> (r: Result<
        (),
        Error,
    >)
        requires
            old(self).wf(),
        ensures
            final(self).wf(),
            match r {
                Ok(_) => caller == old(self).admin && new_fee_collector != 0 && *final(self) == Self {
                    fee_collector: new_fee_collector,
                    ..*old(self)
                },
                Err(e) => {
                    &&& *final(self) == *old(self)
                    &&& e == if caller != old(self).admin {
                        Error::Unauthorized
                    } else {
                        Error::InvalidAmount
                    }
                    &&& (caller != old(self).admin || new_fee_collector == 0)
                },
            },
    {
        self._require_admin(caller)?;
        Self::_validate_address(new_fee_collector)?;
        self.fee_collector = new_fee_collector;
        Ok(())
    }

    /// Sets the trading fee rate, in basis points, up to [`MAX_FEE_RATE`].
    pub fn update_fee_rate(&mut self, caller: u64, new_fee_rate: u32) -> (r: Result<(), Error>)
        requires
            old(self).wf(),
        ensures
            final(self).wf(),
            match r {
                Ok(_) => caller == old(self).admin && new_fee_rate <= MAX_FEE_RATE && *final(self)
                    == Self { fee_rate: new_fee_rate, ..*old(self) },
                Err(e) => {
                    &&& *final(self) == *old(self)
                    &&& e == if caller != old(self).admin {
                        Error::Unauthorized
                    } else {
                        Error::InvalidAmount
                    }
                    &&& (caller != old(self).admin || new_fee_rate > MAX_FEE_RATE)
                },
            },
    {
        self._require_admin(caller)?;
        if new_fee_rate > MAX_FEE_RATE {
            return Err(Error::InvalidAmount);
        }
        self.fee_rate = new_fee_rate;
        Ok(())
    }

    /// Sets the accepted offer amount bounds: both positive, min at most max,
    /// max at most [`MAX_REASONABLE_AMOUNT`]. On rejection the prior bounds
    /// stand unchanged.
    pub fn update_trade_limits(&mut self, caller: u64, min_amount: i128, max_amount: i128) -> (r:
        Result<(), Error>)
        requires
            old(self).wf(),
        ensures
            final(self).wf(),
            match r {
                Ok(_) => {
                    &&& caller == old(self).admin
                    &&& 0 < min_amount <= max_amount <= MAX_REASONABLE_AMOUNT
                    &&& *final(self) == Self {
                        min_trade_amount: min_amount,
                        max_trade_amount: max_amount,
                        ..*old(self)
                    }
                },
                Err(e) => {
                    &&& *final(self) == *old(self)
                    &&& e == if caller != old(self).admin {
                        Error::Unauthorized
                    } else {
                        Error::InvalidAmount
                    }
                    &&& (caller != old(self).admin || min_amount <= 0 || max_amount <= 0
                        || min_amount > max_amount || max_amount > MAX_REASONABLE_AMOUNT)
                },
            },
    {
        self._require_admin(caller)?;
        if min_amount <= 0 || max_amount <= 0 || min_amount > max_amount {
            return Err(Error::InvalidAmount);
        }
        if max_amount > MAX_REASONABLE_AMOUNT {
            return Err(Error::InvalidAmount);
        }
        self.min_trade_amount = min_amount;
        self.max_trade_amount = max_amount;
        Ok(())
    }

    /// Sets the confirmation window, between [`MIN_TRADE_EXPIRATION`] and
    /// [`MAX_TRADE_EXPIRATION`] seconds.
    pub fn update_trade_expiration(&mut self, caller: u64, expiration_seconds: u64) -> (r: Result<
        (),
        Error,
    >)
        requires
            old(self).wf(),
        ensures
            final(self).wf(),
            match r {
                Ok(_) => {
                    &&& caller == old(self).admin
                    &&& MIN_TRADE_EXPIRATION <= expiration_seconds <= MAX_TRADE_EXPIRATION
                    &&& *final(self) == Self { trade_expiration: expiration_seconds, ..*old(self) }
                },
                Err(e) => {
                    &&& *final(self) == *old(self)
                    &&& e == if caller != old(self).admin {
                        Error::Unauthorized
                    } else {
                        Error::InvalidAmount
                    }
                    &&& (caller != old(self).admin || expiration_seconds < MIN_TRADE_EXPIRATION
                        || expiration_seconds > MAX_TRADE_EXPIRATION)
                },
            },
    {
        self._require_admin(caller)?;
        if expiration_seconds < MIN_TRADE_EXPIRATION || expiration_seconds > MAX_TRADE_EXPIRATION {
            return Err(Error::InvalidAmount);
        }
        self.trade_expiration = expiration_seconds;
        Ok(())
    }

    /// Whether any trade in the ledger holds a live claim against `offer_id`.
    pub open spec fn live_trade_exists(self, offer_id: u64) -> bool {
        exists|t: u64| #[trigger]
            self.trades.as_map().contains_key(t) && non_terminal(self.trades.as_map()[t].status)
                && self.trades.as_map()[t].offer_id == offer_id
    }

    /// Scans the trade ledger for a live trade against `offer_id`.
    #[verifier::loop_isolation(false)]
    fn has_live_trade(&self, offer_id: u64) -> (r: bool)
        requires
            self.trades.wf(),
        ensures
            r == self.live_trade_exists(offer_id),
    {
        let n = self.trades.len();
        let mut i: usize = 0;
        while i < n
            invariant
                0 <= i <= n,
                forall|j: int|
                    0 <= j < i ==> !(non_terminal((#[trigger] self.trades.seq()[j]).1.status)
                        && self.trades.seq()[j].1.offer_id == offer_id),
            decreases n - i,
        {
            let (_, trade) = self.trades.entry_at(i);
            if trade.offer_id == offer_id && (trade.status == TradeStatus::Initiated
                || trade.status == TradeStatus::PaymentConfirmed || trade.status
                == TradeStatus::Disputed) {
                proof {
                    self.trades.lemma_entry_at(i as int);
                }
                return true;
            }
            i += 1;
        }
        proof {
            if self.live_trade_exists(offer_id) {
                let t = choose|t: u64| #[trigger]
                    self.trades.as_map().contains_key(t) && non_terminal(
                        self.trades.as_map()[t].status,
                    ) && self.trades.as_map()[t].offer_id == offer_id;
                self.trades.lemma_key_lookup(t);
            }
        }
        false
    }

    /// Which error `create_offer` reports for these arguments against this
    /// state, if any; `None` means the call succeeds.
    pub open spec fn create_offer_err(
        self,
        ledger: TokenLedger,
        seller: u64,
        usdc_amount: i128,
        kes_amount: i128,
    ) -> Option<Error> {
        if self.paused {
            Some(Error::ContractPaused)
        } else if seller == 0 {
            Some(Error::InvalidAmount)
        } else if usdc_amount <= 0 || kes_amount <= 0 {
            Some(Error::InvalidAmount)
        } else if usdc_amount < self.min_trade_amount || usdc_amount > self.max_trade_amount {
            Some(Error::InvalidAmount)
        } else if self.active_offers.as_map().contains_key(seller) {
            Some(Error::AlreadyHasActiveOffer)
        } else if ledger.bal(seller) < usdc_amount {
            Some(Error::InsufficientAllowance)
        } else if ledger.alw(seller, self.contract_id) < usdc_amount {
            Some(Error::InsufficientAllowance)
        } else if !ledger.can_transfer(seller, self.contract_id, usdc_amount as int) {
            Some(Error::TokenTransferFailed)
        } else {
            None
        }
    }

    /// Opens an offer: after validation, moves `usdc_amount` from the seller
    /// into escrow, and only then records the offer and indexes it as the
    /// seller's live offer. No state is touched before the transfer succeeds.
    pub fn create_offer(
        &mut self,
        ledger: &mut TokenLedger,
        seller: u64,
        usdc_amount: i128,
        kes_amount: i128,
    ) -> (r: Result<u64, Error>)
        requires
            old(self).wf(),
            old(ledger).wf(),
            old(self).next_offer_id < u64::MAX,
        ensures
            final(self).wf(),
            final(ledger).wf(),
            final(self).same_config(*old(self)),
            final(ledger).allowances_unchanged(*old(ledger)),
            final(self).next_trade_id == old(self).next_trade_id,
            final(self).trades.as_map() == old(self).trades.as_map(),
            match r {
                Ok(id) => {
                    &&& old(self).create_offer_err(*old(ledger), seller, usdc_amount, kes_amount)
                        is None
                    &&& id == old(self).next_offer_id
                    &&& final(self).next_offer_id == old(self).next_offer_id + 1
                    &&& final(self).offers.seq() == old(self).offers.seq().push(
                        (id, Offer { seller, usdc_amount, kes_amount }),
                    )
                    &&& final(self).offers.as_map() == old(self).offers.as_map().insert(
                        id,
                        Offer { seller, usdc_amount, kes_amount },
                    )
                    &&& final(self).active_offers.as_map() == old(
                        self,
                    ).active_offers.as_map().insert(seller, id)
                    &&& forall|a: u64| #[trigger]
                        final(ledger).bal(a) == old(ledger).moved_bal(
                            seller,
                            old(self).contract_id,
                            usdc_amount as int,
                            a,
                        )
                },
                Err(e) => {
                    &&& old(self).create_offer_err(*old(ledger), seller, usdc_amount, kes_amount)
                        == Some(e)
                    &&& final(self).state_unchanged(*old(self))
                    &&& final(ledger).balances_unchanged(*old(ledger))
                },
            },
            old(self).escrow_matches(*old(ledger)) && seller != old(self).contract_id
                ==> final(self).escrow_matches(*final(ledger)),
    {
        if self.paused {
            return Err(Error::ContractPaused);
        }
        Self::_validate_address(seller)?;
        if usdc_amount <= 0 || kes_amount <= 0 {
            return Err(Error::InvalidAmount);
        }
        if usdc_amount < self.min_trade_amount || usdc_amount > self.max_trade_amount {
            return Err(Error::InvalidAmount);
        }
        if self.active_offers.contains_key(seller) {
            return Err(Error::AlreadyHasActiveOffer);
        }
        let seller_balance = ledger.balance(seller);
        if seller_balance < usdc_amount {
            return Err(Error::InsufficientAllowance);
        }
        let approved = ledger.allowance(seller, self.contract_id);
        if approved < usdc_amount {
            return Err(Error::InsufficientAllowance);
        }
        match ledger.transfer(seller, self.contract_id, usdc_amount) {
            Ok(_) => {},
            Err(_) => {
                return Err(Error::TokenTransferFailed);
            },
        }
        let offer_id = self.next_offer_id;
        let offer = Offer { seller, usdc_amount, kes_amount };
        proof {
            if old(self).offers.as_map().contains_key(offer_id) {
                assert(offer_id < old(self).next_offer_id);
            }
        }
        self.offers.insert(offer_id, offer);
        self.active_offers.insert(seller, offer_id);
        self.next_offer_id = offer_id + 1;
        proof {
            let post = *self;
            let pre = *old(self);
            assert forall|o: u64| #[trigger]
                post.offers.as_map().contains_key(o) implies {
                &&& post.offers.as_map()[o].usdc_amount > 0
                &&& post.offers.as_map()[o].kes_amount > 0
                &&& post.offers.as_map()[o].seller != 0
                &&& post.active_offers.as_map().contains_key(post.offers.as_map()[o].seller)
                &&& post.active_offers.as_map()[post.offers.as_map()[o].seller] == o
            } by {
                if o != offer_id {
                    assert(pre.offers.as_map().contains_key(o));
                    assert(pre.offers.as_map()[o].seller != seller);
                }
            }
            assert forall|s: u64| #[trigger]
                post.active_offers.as_map().contains_key(s) implies {
                &&& post.offers.as_map().contains_key(post.active_offers.as_map()[s])
                &&& post.offers.as_map()[post.active_offers.as_map()[s]].seller == s
            } by {
                if s != seller {
                    assert(pre.active_offers.as_map().contains_key(s));
                    if pre.active_offers.as_map()[s] == offer_id {
                        assert(pre.offers.as_map().contains_key(offer_id));
                        assert(false);
                    }
                }
            }
            assert(post.trades_wf()) by {
                assert forall|t: u64| #[trigger]
                    post.trades.as_map().contains_key(t) && non_terminal(
                        post.trades.as_map()[t].status,
                    ) implies post.offers.as_map().contains_key(post.trades.as_map()[t].offer_id) by {
                    assert(pre.offers.as_map().contains_key(pre.trades.as_map()[t].offer_id));
                }
            }
            if pre.escrow_matches(*old(ledger)) && seller != pre.contract_id {
                lemma_escrow_total_push(pre.offers.seq(), (offer_id, offer));
            }
        }
        Ok(offer_id)
    }

    /// Which error `initiate_trade` reports for these arguments against this
    /// state, if any; `None` means the call succeeds.
    pub open spec fn initiate_trade_err(self, buyer: u64, offer_id: u64) -> Option<Error> {
        if self.paused {
            Some(Error::ContractPaused)
        } else if buyer == 0 {
            Some(Error::InvalidAmount)
        } else if !self.offers.as_map().contains_key(offer_id) {
            Some(Error::OfferNotFound)
        } else if buyer == self.offers.as_map()[offer_id].seller {
            Some(Error::Unauthorized)
        } else if self.live_trade_exists(offer_id) {
            Some(Error::TradeAlreadyInitiated)
        } else {
            None
        }
    }

    /// Opens a trade by `buyer` against the offer `offer_id` at ledger time
    /// `now`. The offer must exist, still be the seller's current live offer
    /// by the active-offer index, not belong to the buyer, and carry no other
    /// live trade. The new trade starts `Initiated` with both confirmation
    /// flags down.
    pub fn initiate_trade(&mut self, buyer: u64, offer_id: u64, now: u64) -> (r: Result<
        u64,
        Error,
    >)
        requires
            old(self).wf(),
            old(self).next_trade_id < u64::MAX,
        ensures
            final(self).wf(),
            final(self).same_config(*old(self)),
            final(self).next_offer_id == old(self).next_offer_id,
            final(self).offers.as_map() == old(self).offers.as_map(),
            final(self).offers.seq() == old(self).offers.seq(),
            final(self).active_offers.as_map() == old(self).active_offers.as_map(),
            match r {
                Ok(id) => {
                    &&& old(self).initiate_trade_err(buyer, offer_id) is None
                    &&& id == old(self).next_trade_id
                    &&& final(self).next_trade_id == old(self).next_trade_id + 1
                    &&& final(self).trades.as_map() == old(self).trades.as_map().insert(
                        id,
                        Trade {
                            offer_id,
                            buyer,
                            start_time: now,
                            status: TradeStatus::Initiated,
                            buyer_confirmed_payment: false,
                            seller_confirmed_payment: false,
                        },
                    )
                },
                Err(e) => {
                    &&& old(self).initiate_trade_err(buyer, offer_id) == Some(e)
                    &&& final(self).state_unchanged(*old(self))
                },
            },
    {
        if self.paused {
            return Err(Error::ContractPaused);
        }
        Self::_validate_address(buyer)?;
        let offer = match self.offers.get(offer_id) {
            Some(o) => o,
            None => {
                return Err(Error::OfferNotFound);
            },
        };
        if buyer == offer.seller {
            return Err(Error::Unauthorized);
        }
        // Cross-check against the active-offer index: a stale id that is no
        // longer the seller's current offer must be rejected.
        match self.active_offers.get(offer.seller) {
            Some(active_id) => {
                if active_id != offer_id {
                    return Err(Error::OfferNotFound);
                }
            },
            None => {
                return Err(Error::OfferNotFound);
            },
        }
        if self.has_live_trade(offer_id) {
            return Err(Error::TradeAlreadyInitiated);
        }
        let trade_id = self.next_trade_id;
        let trade = Trade {
            offer_id,
            buyer,
            start_time: now,
            status: TradeStatus::Initiated,
            buyer_confirmed_payment: false,
            seller_confirmed_payment: false,
        };
        proof {
            if old(self).trades.as_map().contains_key(trade_id) {
                assert(trade_id < old(self).next_trade_id);
            }
        }
        self.trades.insert(trade_id, trade);
        self.next_trade_id = trade_id + 1;
        proof {
            let post = *self;
            let pre = *old(self);
            assert forall|t1: u64, t2: u64|
                #![trigger post.trades.as_map()[t1], post.trades.as_map()[t2]]
                post.trades.as_map().contains_key(t1) && post.trades.as_map().contains_key(t2)
                    && t1 != t2 && non_terminal(post.trades.as_map()[t1].status) && non_terminal(
                    post.trades.as_map()[t2].status,
                ) implies post.trades.as_map()[t1].offer_id
                != post.trades.as_map()[t2].offer_id by {
                if t1 == trade_id {
                    assert(pre.trades.as_map().contains_key(t2));
                    if pre.trades.as_map()[t2].offer_id == offer_id {
                        assert(pre.live_trade_exists(offer_id));
                    }
                } else if t2 == trade_id {
                    assert(pre.trades.as_map().contains_key(t1));
                    if pre.trades.as_map()[t1].offer_id == offer_id {
                        assert(pre.live_trade_exists(offer_id));
                    }
                } else {
                    assert(pre.trades.as_map().contains_key(t1));
                    assert(pre.trades.as_map().contains_key(t2));
                }
            }
        }
        Ok(trade_id)
    }

    /// Which error the release procedure reports for `trade_id` against this
    /// state, if any; `None` means the payout goes through.
    pub open spec fn release_err(self, ledger: TokenLedger, trade_id: u64) -> Option<Error> {
        if !self.trades.as_map().contains_key(trade_id) {
            Some(Error::TradeNotFound)
        } else if self.trades.as_map()[trade_id].status != TradeStatus::PaymentConfirmed {
            Some(Error::InvalidTradeStatus)
        } else {
            let t = self.trades.as_map()[trade_id];
            let ofr = self.offers.as_map()[t.offer_id];
            let fee = fee_of(ofr.usdc_amount, self.fee_rate);
            if !ledger.can_transfer(self.contract_id, t.buyer, ofr.usdc_amount - fee) {
                Some(Error::TokenTransferFailed)
            } else {
                None
            }
        }
    }

    /// The escrow accounting hypotheses under which a release preserves
    /// [`Self::escrow_matches`]: the buyer and the fee collector are distinct
    /// from the escrow itself, and the fee collector's balance has room for
    /// the whole offer amount (so the swallowed-on-failure fee transfer
    /// cannot fail).
    pub open spec fn release_keeps_escrow_hyps(self, ledger: TokenLedger, trade_id: u64) -> bool {
        let t = self.trades.as_map()[trade_id];
        let ofr = self.offers.as_map()[t.offer_id];
        &&& self.escrow_matches(ledger)
        &&& t.buyer != self.contract_id
        &&& self.fee_collector != self.contract_id
        &&& ledger.bal(self.fee_collector) + ofr.usdc_amount <= i128::MAX
    }

    /// Releases the escrowed amount of a payment-confirmed trade: the payout
    /// (amount minus fee) goes to the buyer and the fee to the fee collector.
    /// Ordering discipline (checks-effects-interactions): the trade is marked
    /// `Completed` and the offer leaves the ledger and the index before the
    /// external transfer runs; if the payout transfer fails those changes are
    /// rolled back and the call fails. A failure of the secondary fee
    /// transfer is swallowed: the trade stands completed, the fee stays with
    /// the escrow.
    fn release_usdc(&mut self, ledger: &mut TokenLedger, trade_id: u64) -> (r: Result<(), Error>)
        requires
            old(self).wf(),
            old(ledger).wf(),
        ensures
            final(self).wf(),
            final(ledger).wf(),
            final(self).same_config(*old(self)),
            final(ledger).allowances_unchanged(*old(ledger)),
            final(self).next_offer_id == old(self).next_offer_id,
            final(self).next_trade_id == old(self).next_trade_id,
            match r {
                Ok(_) => ({
                    let t = old(self).trades.as_map()[trade_id];
                    let ofr = old(self).offers.as_map()[t.offer_id];
                    let fee = fee_of(ofr.usdc_amount, old(self).fee_rate);
                    &&& old(self).release_err(*old(ledger), trade_id) is None
                    &&& final(self).trades.as_map() == old(self).trades.as_map().insert(
                        trade_id,
                        with_status(t, TradeStatus::Completed),
                    )
                    &&& final(self).offers.as_map() == old(self).offers.as_map().remove(t.offer_id)
                    &&& final(self).active_offers.as_map() == old(
                        self,
                    ).active_offers.as_map().remove(ofr.seller)
                    &&& forall|a: u64| #[trigger]
                        final(ledger).bal(a) == released_bal(
                            *old(ledger),
                            old(self).contract_id,
                            t.buyer,
                            old(self).fee_collector,
                            ofr.usdc_amount - fee,
                            fee,
                            a,
                        )
                }),
                Err(e) => {
                    &&& old(self).release_err(*old(ledger), trade_id) == Some(e)
                    &&& final(self).state_unchanged(*old(self))
                    &&& final(ledger).balances_unchanged(*old(ledger))
                },
            },
            old(self).release_keeps_escrow_hyps(*old(ledger), trade_id)
                ==> final(self).escrow_matches(*final(ledger)),
    {
        let t = match self.trades.get(trade_id) {
            Some(t) => t,
            None => {
                return Err(Error::TradeNotFound);
            },
        };
        if t.status != TradeStatus::PaymentConfirmed {
            return Err(Error::InvalidTradeStatus);
        }
        let offer = match self.offers.get(t.offer_id) {
            Some(o) => o,
            None => {
                // a payment-confirmed trade always keeps its offer
                return Err(Error::OfferNotFound);
            },
        };
        let fee_amount = Self::_calculate_fee(offer.usdc_amount, self.fee_rate);
        let amount_to_buyer = offer.usdc_amount - fee_amount;
        // Stage the terminal state before any external call.
        let completed = Trade { status: TradeStatus::Completed, ..t };
        self.trades.update(trade_id, completed);
        self.offers.remove(t.offer_id);
        self.active_offers.remove(offer.seller);
        let ghost pre = *old(self);
        let ghost led0 = *old(ledger);
        match ledger.transfer(self.contract_id, t.buyer, amount_to_buyer) {
            Ok(_) => {},
            Err(_) => {
                // Roll the staged changes back: the trade stays ready for
                // release and the offer stays live.
                self.trades.update(trade_id, t);
                self.offers.insert(t.offer_id, offer);
                self.active_offers.insert(offer.seller, t.offer_id);
                proof {
                    assert(self.trades.as_map() =~= pre.trades.as_map());
                    assert(self.offers.as_map() =~= pre.offers.as_map());
                    assert(self.active_offers.as_map() =~= pre.active_offers.as_map());
                    assert(self.offers_wf() && self.index_wf() && self.trades_wf()
                        && self.one_live_trade_per_offer() && self.ids_wf());
                    if pre.release_keeps_escrow_hyps(led0, trade_id) {
                        let s0 = pre.offers.seq();
                        pre.offers.lemma_key_lookup(t.offer_id);
                        let pos = crate::store::seq_index_of(s0, t.offer_id);
                        lemma_escrow_total_remove(s0, pos);
                        lemma_escrow_total_push(s0.remove(pos), (t.offer_id, offer));
                    }
                }
                return Err(Error::TokenTransferFailed);
            },
        }
        let ghost led1 = *ledger;
        let ghost fee_went = fee_amount > 0 && led1.can_transfer(
            self.contract_id,
            self.fee_collector,
            fee_amount as int,
        );
        if fee_amount > 0 {
            let collector = self.fee_collector;
            match ledger.transfer(self.contract_id, collector, fee_amount) {
                Ok(_) => {},
                Err(_) => {
                    // Fee collection failed: the trade stands completed and
                    // the fee stays with the escrow, never escalated.
                },
            }
        }
        proof {
            assert(fee_went <==> (fee_amount > 0 && fee_send_ok(
                led0,
                pre.contract_id,
                t.buyer,
                pre.fee_collector,
                amount_to_buyer as int,
                fee_amount as int,
            )));
            assert forall|a: u64| #[trigger]
                ledger.bal(a) == released_bal(
                    led0,
                    pre.contract_id,
                    t.buyer,
                    pre.fee_collector,
                    amount_to_buyer as int,
                    fee_amount as int,
                    a,
                ) by {
                assert(led1.bal(a) == led0.moved_bal(
                    pre.contract_id,
                    t.buyer,
                    amount_to_buyer as int,
                    a,
                ));
            }
            let post = *self;
            assert(post.trades.as_map() == pre.trades.as_map().insert(
                trade_id,
                with_status(t, TradeStatus::Completed),
            ));
            Self::lemma_settled_wf(pre, post, trade_id, completed);
            // Escrow accounting under the release hypotheses.
            if pre.release_keeps_escrow_hyps(led0, trade_id) {
                let s0 = pre.offers.seq();
                pre.offers.lemma_key_lookup(t.offer_id);
                let pos = crate::store::seq_index_of(s0, t.offer_id);
                assert forall|j: int| 0 <= j < s0.len() implies (
                #[trigger] s0[j]).1.usdc_amount >= 0 by {
                    pre.offers.lemma_entry_at(j);
                }
                lemma_escrow_total_remove(s0, pos);
                lemma_escrow_total_member(s0, pos);
                assert(escrow_total(post.offers.seq()) == escrow_total(s0) - offer.usdc_amount);
                if fee_amount > 0 {
                    assert(fee_went);
                }
                assert(ledger.bal(pre.contract_id) == led0.bal(pre.contract_id)
                    - offer.usdc_amount);
            }
        }
        Ok(())
    }

    /// Which error `confirm_payment` reports for these arguments against
    /// this state, if any; `None` means the call succeeds. The last case is
    /// the synchronous release: when this confirmation is the second one, the
    /// call fails if the payout transfer would fail.
    pub open spec fn confirm_payment_err(
        self,
        ledger: TokenLedger,
        trade_id: u64,
        participant: u64,
        now: u64,
    ) -> Option<Error> {
        if self.paused {
            Some(Error::ContractPaused)
        } else if !self.trades.as_map().contains_key(trade_id) {
            Some(Error::TradeNotFound)
        } else {
            let t = self.trades.as_map()[trade_id];
            if now >= t.start_time + self.trade_expiration {
                Some(Error::TradeExpired)
            } else if t.status != TradeStatus::Initiated {
                Some(Error::InvalidTradeStatus)
            } else {
                let ofr = self.offers.as_map()[t.offer_id];
                if participant != t.buyer && participant != ofr.seller {
                    Some(Error::Unauthorized)
                } else {
                    let t2 = with_confirmation(t, participant == t.buyer);
                    if t2.buyer_confirmed_payment && t2.seller_confirmed_payment {
                        let fee = fee_of(ofr.usdc_amount, self.fee_rate);
                        if !ledger.can_transfer(
                            self.contract_id,
                            t.buyer,
                            ofr.usdc_amount - fee,
                        ) {
                            Some(Error::TokenTransferFailed)
                        } else {
                            None
                        }
                    } else {
                        None
                    }
                }
            }
        }
    }

    /// Records `participant`'s payment confirmation on an unexpired,
    /// `Initiated` trade. When both flags are up the trade moves to
    /// `PaymentConfirmed` and the release of the escrow runs synchronously
    /// before returning. If that release fails, the call fails, but the
    /// confirmation flags and the `PaymentConfirmed` status stay persisted —
    /// the trade is left ready for the release to be retried.
    ///
    /// Confirming twice from the same side is idempotent: if the
    /// participant's flag is already up and the counterpart's is not, the
    /// call succeeds and changes nothing.
    pub fn confirm_payment(
        &mut self,
        ledger: &mut TokenLedger,
        trade_id: u64,
        participant: u64,
        now: u64,
    ) -> (r: Result<(), Error>)
        requires
            old(self).wf(),
            old(ledger).wf(),
        ensures
            final(self).wf(),
            final(ledger).wf(),
            final(self).same_config(*old(self)),
            final(ledger).allowances_unchanged(*old(ledger)),
            final(self).next_offer_id == old(self).next_offer_id,
            final(self).next_trade_id == old(self).next_trade_id,
            match r {
                Ok(_) => ({
                    let t = old(self).trades.as_map()[trade_id];
                    let ofr = old(self).offers.as_map()[t.offer_id];
                    let t2 = with_confirmation(t, participant == t.buyer);
                    let fee = fee_of(ofr.usdc_amount, old(self).fee_rate);
                    &&& old(self).confirm_payment_err(*old(ledger), trade_id, participant, now)
                        is None
                    &&& if t2.buyer_confirmed_payment && t2.seller_confirmed_payment {
                        &&& final(self).trades.as_map() == old(self).trades.as_map().insert(
                            trade_id,
                            with_status(t2, TradeStatus::Completed),
                        )
                        &&& final(self).offers.as_map() == old(self).offers.as_map().remove(
                            t.offer_id,
                        )
                        &&& final(self).active_offers.as_map() == old(
                            self,
                        ).active_offers.as_map().remove(ofr.seller)
                        &&& forall|a: u64| #[trigger]
                            final(ledger).bal(a) == released_bal(
                                *old(ledger),
                                old(self).contract_id,
                                t.buyer,
                                old(self).fee_collector,
                                ofr.usdc_amount - fee,
                                fee,
                                a,
                            )
                    } else {
                        &&& final(self).trades.as_map() == old(self).trades.as_map().insert(
                            trade_id,
                            t2,
                        )
                        &&& final(self).offers.as_map() == old(self).offers.as_map()
                        &&& final(self).active_offers.as_map() == old(self).active_offers.as_map()
                        &&& final(ledger).balances_unchanged(*old(ledger))
                    }
                }),
                Err(e) => ({
                    let t = old(self).trades.as_map()[trade_id];
                    let t2 = with_confirmation(t, participant == t.buyer);
                    &&& old(self).confirm_payment_err(*old(ledger), trade_id, participant, now)
                        == Some(e)
                    &&& if e == Error::TokenTransferFailed {
                        // the release failed: flags persist, the trade stays
                        // ready for release, nothing else moved
                        &&& final(self).trades.as_map() == old(self).trades.as_map().insert(
                            trade_id,
                            with_status(t2, TradeStatus::PaymentConfirmed),
                        )
                        &&& final(self).offers.as_map() == old(self).offers.as_map()
                        &&& final(self).active_offers.as_map() == old(self).active_offers.as_map()
                        &&& final(ledger).balances_unchanged(*old(ledger))
                    } else {
                        &&& final(self).state_unchanged(*old(self))
                        &&& final(ledger).balances_unchanged(*old(ledger))
                    }
                }),
            },
            ({
                let t = old(self).trades.as_map()[trade_id];
                let ofr = old(self).offers.as_map()[t.offer_id];
                &&& !old(self).paused
                &&& old(self).trades.as_map().contains_key(trade_id)
                &&& now < t.start_time + old(self).trade_expiration
                &&& t.status == TradeStatus::Initiated
                &&& ((participant == t.buyer && t.buyer_confirmed_payment
                    && !t.seller_confirmed_payment) || (participant != t.buyer && participant
                    == ofr.seller && t.seller_confirmed_payment && !t.buyer_confirmed_payment))
            }) ==> (r == Ok::<(), Error>(()) && final(self).state_unchanged(*old(self))
                && final(ledger).balances_unchanged(*old(ledger))),
            ({
                let t = old(self).trades.as_map()[trade_id];
                let ofr = old(self).offers.as_map()[t.offer_id];
                &&& old(self).escrow_matches(*old(ledger))
                &&& t.buyer != old(self).contract_id
                &&& old(self).fee_collector != old(self).contract_id
                &&& old(ledger).bal(old(self).fee_collector) + ofr.usdc_amount <= i128::MAX
            }) ==> final(self).escrow_matches(*final(ledger)),
    {
        if self.paused {
            return Err(Error::ContractPaused);
        }
        let t = match self.trades.get(trade_id) {
            Some(t) => t,
            None => {
                return Err(Error::TradeNotFound);
            },
        };
        if self._is_trade_expired(&t, now) {
            return Err(Error::TradeExpired);
        }
        if t.status != TradeStatus::Initiated {
            return Err(Error::InvalidTradeStatus);
        }
        let offer = match self.offers.get(t.offer_id) {
            Some(o) => o,
            None => {
                // an initiated trade always keeps its offer
                return Err(Error::OfferNotFound);
            },
        };
        let t2: Trade;
        if participant == t.buyer {
            t2 = Trade { buyer_confirmed_payment: true, ..t };
        } else if participant == offer.seller {
            t2 = Trade { seller_confirmed_payment: true, ..t };
        } else {
            return Err(Error::Unauthorized);
        }
        proof {
            assert(t2 == with_confirmation(t, participant == t.buyer));
        }
        if t2.buyer_confirmed_payment && t2.seller_confirmed_payment {
            let t3 = Trade { status: TradeStatus::PaymentConfirmed, ..t2 };
            self.trades.update(trade_id, t3);
            let ghost mid = *self;
            proof {
                assert(t3 == with_status(t2, TradeStatus::PaymentConfirmed));
                assert forall|tid: u64| #[trigger]
                    mid.trades.as_map().contains_key(tid) && non_terminal(
                        mid.trades.as_map()[tid].status,
                    ) implies mid.offers.as_map().contains_key(mid.trades.as_map()[tid].offer_id) by {
                    assert(old(self).trades.as_map().contains_key(tid));
                }
                assert forall|ta: u64, tb: u64|
                    #![trigger mid.trades.as_map()[ta], mid.trades.as_map()[tb]]
                    mid.trades.as_map().contains_key(ta) && mid.trades.as_map().contains_key(tb)
                        && ta != tb && non_terminal(mid.trades.as_map()[ta].status)
                        && non_terminal(mid.trades.as_map()[tb].status) implies
                    mid.trades.as_map()[ta].offer_id != mid.trades.as_map()[tb].offer_id by {
                    assert(old(self).trades.as_map().contains_key(ta));
                    assert(old(self).trades.as_map().contains_key(tb));
                }
                assert(mid.wf());
                assert(mid.release_err(*ledger, trade_id) == old(self).confirm_payment_err(
                    *old(ledger),
                    trade_id,
                    participant,
                    now,
                ));
            }
            let released = self.release_usdc(ledger, trade_id);
            match released {
                Ok(_) => {
                    proof {
                        assert(self.trades.as_map() =~= old(self).trades.as_map().insert(
                            trade_id,
                            with_status(t2, TradeStatus::Completed),
                        ));
                    }
                    Ok(())
                },
                Err(e) => {
                    proof {
                        assert(self.trades.as_map() =~= old(self).trades.as_map().insert(
                            trade_id,
                            with_status(t2, TradeStatus::PaymentConfirmed),
                        ));
                    }
                    Err(e)
                },
            }
        } else {
            self.trades.update(trade_id, t2);
            proof {
                let post = *self;
                let pre = *old(self);
                assert forall|tid: u64| #[trigger]
                    post.trades.as_map().contains_key(tid) && non_terminal(
                        post.trades.as_map()[tid].status,
                    ) implies post.offers.as_map().contains_key(post.trades.as_map()[tid].offer_id) by {
                    assert(pre.trades.as_map().contains_key(tid));
                }
                assert forall|ta: u64, tb: u64|
                    #![trigger post.trades.as_map()[ta], post.trades.as_map()[tb]]
                    post.trades.as_map().contains_key(ta) && post.trades.as_map().contains_key(tb)
                        && ta != tb && non_terminal(post.trades.as_map()[ta].status)
                        && non_terminal(post.trades.as_map()[tb].status) implies
                    post.trades.as_map()[ta].offer_id != post.trades.as_map()[tb].offer_id by {
                    assert(pre.trades.as_map().contains_key(ta));
                    assert(pre.trades.as_map().contains_key(tb));
                }
                if t2 == t {
                    assert(post.trades.as_map() =~= pre.trades.as_map());
                }
            }
            Ok(())
        }
    }

    /// Settling a live trade keeps the state well-formed: the trade moves to
    /// a terminal status, its offer leaves the offer ledger, and the seller
    /// leaves the active-offer index.
    proof fn lemma_settled_wf(pre: Self, post: Self, trade_id: u64, tr: Trade)
        requires
            pre.wf(),
            pre.trades.as_map().contains_key(trade_id),
            non_terminal(pre.trades.as_map()[trade_id].status),
            tr.offer_id == pre.trades.as_map()[trade_id].offer_id,
            !non_terminal(tr.status),
            pre.offers.as_map().contains_key(tr.offer_id),
            post.trades.as_map() == pre.trades.as_map().insert(trade_id, tr),
            post.offers.as_map() == pre.offers.as_map().remove(tr.offer_id),
            post.active_offers.as_map() == pre.active_offers.as_map().remove(
                pre.offers.as_map()[tr.offer_id].seller,
            ),
            post.offers.wf(),
            post.trades.wf(),
            post.active_offers.wf(),
            post.config_wf(),
            post.next_offer_id == pre.next_offer_id,
            post.next_trade_id == pre.next_trade_id,
        ensures
            post.wf(),
    {
        let offer_id = tr.offer_id;
        let seller = pre.offers.as_map()[offer_id].seller;
        assert forall|o: u64| #[trigger]
            post.offers.as_map().contains_key(o) implies {
            &&& post.offers.as_map()[o].usdc_amount > 0
            &&& post.offers.as_map()[o].kes_amount > 0
            &&& post.offers.as_map()[o].seller != 0
            &&& post.active_offers.as_map().contains_key(post.offers.as_map()[o].seller)
            &&& post.active_offers.as_map()[post.offers.as_map()[o].seller] == o
        } by {
            assert(pre.offers.as_map().contains_key(o) && o != offer_id);
            if pre.offers.as_map()[o].seller == seller {
                assert(pre.active_offers.as_map()[seller] == o);
                assert(pre.active_offers.as_map()[seller] == offer_id);
                assert(false);
            }
        }
        assert forall|s: u64| #[trigger]
            post.active_offers.as_map().contains_key(s) implies {
            &&& post.offers.as_map().contains_key(post.active_offers.as_map()[s])
            &&& post.offers.as_map()[post.active_offers.as_map()[s]].seller == s
        } by {
            assert(pre.active_offers.as_map().contains_key(s) && s != seller);
            if pre.active_offers.as_map()[s] == offer_id {
                assert(pre.offers.as_map()[offer_id].seller == s);
                assert(false);
            }
        }
        assert forall|tid: u64| #[trigger]
            post.trades.as_map().contains_key(tid) && non_terminal(
                post.trades.as_map()[tid].status,
            ) implies post.offers.as_map().contains_key(post.trades.as_map()[tid].offer_id) by {
            assert(tid != trade_id);
            assert(pre.trades.as_map().contains_key(tid));
            if pre.trades.as_map()[tid].offer_id == offer_id {
                assert(pre.trades.as_map()[trade_id].offer_id == offer_id);
                assert(false);
            }
        }
        assert forall|t1: u64, t2: u64|
            #![trigger post.trades.as_map()[t1], post.trades.as_map()[t2]]
            post.trades.as_map().contains_key(t1) && post.trades.as_map().contains_key(t2) && t1
                != t2 && non_terminal(post.trades.as_map()[t1].status) && non_terminal(
                post.trades.as_map()[t2].status,
            ) implies post.trades.as_map()[t1].offer_id != post.trades.as_map()[t2].offer_id by {
            assert(t1 != trade_id && t2 != trade_id);
            assert(pre.trades.as_map().contains_key(t1));
            assert(pre.trades.as_map().contains_key(t2));
        }
    }

    /// Which error `cancel_trade` reports for these arguments against this
    /// state, if any; `None` means the call succeeds.
    pub open spec fn cancel_trade_err(
        self,
        ledger: TokenLedger,
        trade_id: u64,
        participant: u64,
    ) -> Option<Error> {
        if self.paused {
            Some(Error::ContractPaused)
        } else if !self.trades.as_map().contains_key(trade_id) {
            Some(Error::TradeNotFound)
        } else {
            let t = self.trades.as_map()[trade_id];
            if t.status != TradeStatus::Initiated {
                Some(Error::InvalidTradeStatus)
            } else {
                let ofr = self.offers.as_map()[t.offer_id];
                if participant != t.buyer && participant != ofr.seller {
                    Some(Error::Unauthorized)
                } else if !ledger.can_transfer(self.contract_id, ofr.seller, ofr.usdc_amount as int) {
                    Some(Error::TokenTransferFailed)
                } else {
                    None
                }
            }
        }
    }

    /// Cancels an `Initiated` trade at a participant's request: the full
    /// escrowed amount returns to the seller, the trade ends `Cancelled`, and
    /// the offer leaves the ledger and the index. The status change is staged
    /// before the transfer and rolled back if the transfer fails. Trades past
    /// `Initiated` cannot be cancelled here; they take the dispute path.
    pub fn cancel_trade(&mut self, ledger: &mut TokenLedger, trade_id: u64, participant: u64) -> (r:
        Result<(), Error>)
        requires
            old(self).wf(),
            old(ledger).wf(),
        ensures
            final(self).wf(),
            final(ledger).wf(),
            final(self).same_config(*old(self)),
            final(ledger).allowances_unchanged(*old(ledger)),
            final(self).next_offer_id == old(self).next_offer_id,
            final(self).next_trade_id == old(self).next_trade_id,
            match r {
                Ok(_) => ({
                    let t = old(self).trades.as_map()[trade_id];
                    let ofr = old(self).offers.as_map()[t.offer_id];
                    &&& old(self).cancel_trade_err(*old(ledger), trade_id, participant) is None
                    &&& final(self).trades.as_map() == old(self).trades.as_map().insert(
                        trade_id,
                        with_status(t, TradeStatus::Cancelled),
                    )
                    &&& final(self).offers.as_map() == old(self).offers.as_map().remove(t.offer_id)
                    &&& final(self).active_offers.as_map() == old(
                        self,
                    ).active_offers.as_map().remove(ofr.seller)
                    &&& forall|a: u64| #[trigger]
                        final(ledger).bal(a) == old(ledger).moved_bal(
                            old(self).contract_id,
                            ofr.seller,
                            ofr.usdc_amount as int,
                            a,
                        )
                }),
                Err(e) => {
                    &&& old(self).cancel_trade_err(*old(ledger), trade_id, participant) == Some(e)
                    &&& final(self).state_unchanged(*old(self))
                    &&& final(ledger).balances_unchanged(*old(ledger))
                },
            },
            ({
                let t = old(self).trades.as_map()[trade_id];
                let ofr = old(self).offers.as_map()[t.offer_id];
                old(self).escrow_matches(*old(ledger)) && ofr.seller != old(self).contract_id
            }) ==> final(self).escrow_matches(*final(ledger)),
    {
        if self.paused {
            return Err(Error::ContractPaused);
        }
        let t = match self.trades.get(trade_id) {
            Some(t) => t,
            None => {
                return Err(Error::TradeNotFound);
            },
        };
        if t.status != TradeStatus::Initiated {
            return Err(Error::InvalidTradeStatus);
        }
        let offer = match self.offers.get(t.offer_id) {
            Some(o) => o,
            None => {
                // an initiated trade always keeps its offer
                return Err(Error::OfferNotFound);
            },
        };
        if participant != t.buyer && participant != offer.seller {
            return Err(Error::Unauthorized);
        }
        // Stage the cancellation before the external call.
        let cancelled = Trade { status: TradeStatus::Cancelled, ..t };
        self.trades.update(trade_id, cancelled);
        match ledger.transfer(self.contract_id, offer.seller, offer.usdc_amount) {
            Ok(_) => {},
            Err(_) => {
                // Roll the status back: the trade stays open.
                self.trades.update(trade_id, t);
                proof {
                    assert(self.trades.as_map() =~= old(self).trades.as_map());
                }
                return Err(Error::TokenTransferFailed);
            },
        }
        self.offers.remove(t.offer_id);
        self.active_offers.remove(offer.seller);
        proof {
            assert(cancelled == with_status(t, TradeStatus::Cancelled));
            Self::lemma_settled_wf(*old(self), *self, trade_id, cancelled);
            if old(self).escrow_matches(*old(ledger)) && offer.seller != old(self).contract_id {
                let s0 = old(self).offers.seq();
                old(self).offers.lemma_key_lookup(t.offer_id);
                let pos = crate::store::seq_index_of(s0, t.offer_id);
                lemma_escrow_total_remove(s0, pos);
            }
        }
        Ok(())
    }

    /// Which error `resolve_expired_trade` reports for these arguments
    /// against this state, if any; `None` means the call succeeds.
    pub open spec fn resolve_expired_trade_err(
        self,
        ledger: TokenLedger,
        trade_id: u64,
        now: u64,
    ) -> Option<Error> {
        if self.paused {
            Some(Error::ContractPaused)
        } else if !self.trades.as_map().contains_key(trade_id) {
            Some(Error::TradeNotFound)
        } else {
            let t = self.trades.as_map()[trade_id];
            if now < t.start_time + self.trade_expiration {
                Some(Error::TradeNotExpired)
            } else if t.status != TradeStatus::Initiated {
                Some(Error::InvalidTradeStatus)
            } else {
                let ofr = self.offers.as_map()[t.offer_id];
                if !ledger.can_transfer(self.contract_id, ofr.seller, ofr.usdc_amount as int) {
                    Some(Error::TokenTransferFailed)
                } else {
                    None
                }
            }
        }
    }

    /// Resolves a trade that outlived its confirmation window: anyone may
    /// call this. The effect is the cancellation of `cancel_trade` — escrow
    /// back to the seller, trade `Cancelled`, offer gone — but only for an
    /// `Initiated` trade that has actually expired by `now`.
    pub fn resolve_expired_trade(&mut self, ledger: &mut TokenLedger, trade_id: u64, now: u64) -> (r:
        Result<(), Error>)
        requires
            old(self).wf(),
            old(ledger).wf(),
        ensures
            final(self).wf(),
            final(ledger).wf(),
            final(self).same_config(*old(self)),
            final(ledger).allowances_unchanged(*old(ledger)),
            final(self).next_offer_id == old(self).next_offer_id,
            final(self).next_trade_id == old(self).next_trade_id,
            match r {
                Ok(_) => ({
                    let t = old(self).trades.as_map()[trade_id];
                    let ofr = old(self).offers.as_map()[t.offer_id];
                    &&& old(self).resolve_expired_trade_err(*old(ledger), trade_id, now) is None
                    &&& final(self).trades.as_map() == old(self).trades.as_map().insert(
                        trade_id,
                        with_status(t, TradeStatus::Cancelled),
                    )
                    &&& final(self).offers.as_map() == old(self).offers.as_map().remove(t.offer_id)
                    &&& final(self).active_offers.as_map() == old(
                        self,
                    ).active_offers.as_map().remove(ofr.seller)
                    &&& forall|a: u64| #[trigger]
                        final(ledger).bal(a) == old(ledger).moved_bal(
                            old(self).contract_id,
                            ofr.seller,
                            ofr.usdc_amount as int,
                            a,
                        )
                }),
                Err(e) => {
                    &&& old(self).resolve_expired_trade_err(*old(ledger), trade_id, now) == Some(e)
                    &&& final(self).state_unchanged(*old(self))
                    &&& final(ledger).balances_unchanged(*old(ledger))
                },
            },
            ({
                let t = old(self).trades.as_map()[trade_id];
                let ofr = old(self).offers.as_map()[t.offer_id];
                old(self).escrow_matches(*old(ledger)) && ofr.seller != old(self).contract_id
            }) ==> final(self).escrow_matches(*final(ledger)),
    {
        if self.paused {
            return Err(Error::ContractPaused);
        }
        let t = match self.trades.get(trade_id) {
            Some(t) => t,
            None => {
                return Err(Error::TradeNotFound);
            },
        };
        if !self._is_trade_expired(&t, now) {
            return Err(Error::TradeNotExpired);
        }
        if t.status != TradeStatus::Initiated {
            return Err(Error::InvalidTradeStatus);
        }
        let offer = match self.offers.get(t.offer_id) {
            Some(o) => o,
            None => {
                // an initiated trade always keeps its offer
                return Err(Error::OfferNotFound);
            },
        };
        // Stage the cancellation before the external call.
        let cancelled = Trade { status: TradeStatus::Cancelled, ..t };
        self.trades.update(trade_id, cancelled);
        match ledger.transfer(self.contract_id, offer.seller, offer.usdc_amount) {
            Ok(_) => {},
            Err(_) => {
                self.trades.update(trade_id, t);
                proof {
                    assert(self.trades.as_map() =~= old(self).trades.as_map());
                }
                return Err(Error::TokenTransferFailed);
            },
        }
        self.offers.remove(t.offer_id);
        self.active_offers.remove(offer.seller);
        proof {
            assert(cancelled == with_status(t, TradeStatus::Cancelled));
            Self::lemma_settled_wf(*old(self), *self, trade_id, cancelled);
            if old(self).escrow_matches(*old(ledger)) && offer.seller != old(self).contract_id {
                let s0 = old(self).offers.seq();
                old(self).offers.lemma_key_lookup(t.offer_id);
                let pos = crate::store::seq_index_of(s0, t.offer_id);
                lemma_escrow_total_remove(s0, pos);
            }
        }
        Ok(())
    }

    /// Which error `cancel_offer` reports for these arguments against this
    /// state, if any; `None` means the call succeeds.
    pub open spec fn cancel_offer_err(
        self,
        ledger: TokenLedger,
        seller: u64,
        offer_id: u64,
    ) -> Option<Error> {
        if self.paused {
            Some(Error::ContractPaused)
        } else if !self.offers.as_map().contains_key(offer_id) {
            Some(Error::OfferNotFound)
        } else if self.offers.as_map()[offer_id].seller != seller {
            Some(Error::Unauthorized)
        } else if self.live_trade_exists(offer_id) {
            Some(Error::TradeAlreadyInitiated)
        } else if !ledger.can_transfer(
            self.contract_id,
            seller,
            self.offers.as_map()[offer_id].usdc_amount as int,
        ) {
            Some(Error::TokenTransferFailed)
        } else {
            None
        }
    }

    /// Withdraws the seller's own offer when no live trade claims it: the
    /// full escrowed amount returns to the seller and the offer leaves the
    /// ledger and the index. A failed return transfer aborts the whole call
    /// with nothing removed.
    pub fn cancel_offer(&mut self, ledger: &mut TokenLedger, seller: u64, offer_id: u64) -> (r:
        Result<(), Error>)
        requires
            old(self).wf(),
            old(ledger).wf(),
        ensures
            final(self).wf(),
            final(ledger).wf(),
            final(self).same_config(*old(self)),
            final(ledger).allowances_unchanged(*old(ledger)),
            final(self).next_offer_id == old(self).next_offer_id,
            final(self).next_trade_id == old(self).next_trade_id,
            final(self).trades.as_map() == old(self).trades.as_map(),
            match r {
                Ok(_) => ({
                    let ofr = old(self).offers.as_map()[offer_id];
                    &&& old(self).cancel_offer_err(*old(ledger), seller, offer_id) is None
                    &&& final(self).offers.as_map() == old(self).offers.as_map().remove(offer_id)
                    &&& final(self).active_offers.as_map() == old(
                        self,
                    ).active_offers.as_map().remove(seller)
                    &&& forall|a: u64| #[trigger]
                        final(ledger).bal(a) == old(ledger).moved_bal(
                            old(self).contract_id,
                            seller,
                            ofr.usdc_amount as int,
                            a,
                        )
                }),
                Err(e) => {
                    &&& old(self).cancel_offer_err(*old(ledger), seller, offer_id) == Some(e)
                    &&& final(self).state_unchanged(*old(self))
                    &&& final(ledger).balances_unchanged(*old(ledger))
                },
            },
            old(self).escrow_matches(*old(ledger)) && seller != old(self).contract_id
                ==> final(self).escrow_matches(*final(ledger)),
    {
        if self.paused {
            return Err(Error::ContractPaused);
        }
        let offer = match self.offers.get(offer_id) {
            Some(o) => o,
            None => {
                return Err(Error::OfferNotFound);
            },
        };
        if offer.seller != seller {
            return Err(Error::Unauthorized);
        }
        if self.has_live_trade(offer_id) {
            return Err(Error::TradeAlreadyInitiated);
        }
        // Return the escrow first: a failed transfer aborts with no removal.
        match ledger.transfer(self.contract_id, seller, offer.usdc_amount) {
            Ok(_) => {},
            Err(_) => {
                return Err(Error::TokenTransferFailed);
            },
        }
        self.offers.remove(offer_id);
        self.active_offers.remove(seller);
        proof {
            let post = *self;
            let pre = *old(self);
            assert forall|o: u64| #[trigger]
                post.offers.as_map().contains_key(o) implies {
                &&& post.offers.as_map()[o].usdc_amount > 0
                &&& post.offers.as_map()[o].kes_amount > 0
                &&& post.offers.as_map()[o].seller != 0
                &&& post.active_offers.as_map().contains_key(post.offers.as_map()[o].seller)
                &&& post.active_offers.as_map()[post.offers.as_map()[o].seller] == o
            } by {
                assert(pre.offers.as_map().contains_key(o) && o != offer_id);
                if pre.offers.as_map()[o].seller == seller {
                    assert(pre.active_offers.as_map()[seller] == o);
                    assert(pre.active_offers.as_map()[seller] == offer_id);
                    assert(false);
                }
            }
            assert forall|s: u64| #[trigger]
                post.active_offers.as_map().contains_key(s) implies {
                &&& post.offers.as_map().contains_key(post.active_offers.as_map()[s])
                &&& post.offers.as_map()[post.active_offers.as_map()[s]].seller == s
            } by {
                assert(pre.active_offers.as_map().contains_key(s) && s != seller);
                if pre.active_offers.as_map()[s] == offer_id {
                    assert(pre.offers.as_map()[offer_id].seller == s);
                    assert(false);
                }
            }
            assert forall|tid: u64| #[trigger]
                post.trades.as_map().contains_key(tid) && non_terminal(
                    post.trades.as_map()[tid].status,
                ) implies post.offers.as_map().contains_key(post.trades.as_map()[tid].offer_id) by {
                assert(pre.trades.as_map().contains_key(tid));
                if pre.trades.as_map()[tid].offer_id == offer_id {
                    assert(pre.live_trade_exists(offer_id));
                    assert(false);
                }
            }
            if pre.escrow_matches(*old(ledger)) && seller != pre.contract_id {
                let s0 = pre.offers.seq();
                pre.offers.lemma_key_lookup(offer_id);
                let pos = crate::store::seq_index_of(s0, offer_id);
                lemma_escrow_total_remove(s0, pos);
            }
        }
        Ok(())
    }

    /// Which error `raise_dispute` reports for these arguments against this
    /// state, if any; `None` means the trade moves to `Disputed`.
    pub open spec fn raise_dispute_err(self, trade_id: u64, caller: u64) -> Option<Error> {
        if !self.trades.as_map().contains_key(trade_id) {
            Some(Error::TradeNotFound)
        } else {
            let t = self.trades.as_map()[trade_id];
            if !self.offers.as_map().contains_key(t.offer_id) {
                // the offer is gone, so the trade has already settled
                Some(Error::InvalidTradeStatus)
            } else {
                let ofr = self.offers.as_map()[t.offer_id];
                if caller != t.buyer && caller != ofr.seller {
                    Some(Error::Unauthorized)
                } else if t.status != TradeStatus::Initiated && t.status
                    != TradeStatus::PaymentConfirmed {
                    Some(Error::InvalidTradeStatus)
                } else {
                    None
                }
            }
        }
    }

    /// Escalates a live trade to the administrator: either participant may
    /// dispute an `Initiated` or `PaymentConfirmed` trade; no funds move. The
    /// pause switch does not block disputes.
    pub fn raise_dispute(&mut self, trade_id: u64, caller: u64) -> (r: Result<(), Error>)
        requires
            old(self).wf(),
        ensures
            final(self).wf(),
            final(self).same_config(*old(self)),
            final(self).next_offer_id == old(self).next_offer_id,
            final(self).next_trade_id == old(self).next_trade_id,
            final(self).offers.as_map() == old(self).offers.as_map(),
            final(self).offers.seq() == old(self).offers.seq(),
            final(self).active_offers.as_map() == old(self).active_offers.as_map(),
            match r {
                Ok(_) => ({
                    let t = old(self).trades.as_map()[trade_id];
                    &&& old(self).raise_dispute_err(trade_id, caller) is None
                    &&& final(self).trades.as_map() == old(self).trades.as_map().insert(
                        trade_id,
                        with_status(t, TradeStatus::Disputed),
                    )
                }),
                Err(e) => {
                    &&& old(self).raise_dispute_err(trade_id, caller) == Some(e)
                    &&& final(self).state_unchanged(*old(self))
                },
            },
    {
        let t = match self.trades.get(trade_id) {
            Some(t) => t,
            None => {
                return Err(Error::TradeNotFound);
            },
        };
        let offer = match self.offers.get(t.offer_id) {
            Some(o) => o,
            None => {
                // the offer is gone, so the trade has already settled
                proof {
                    assert(!non_terminal(t.status));
                }
                return Err(Error::InvalidTradeStatus);
            },
        };
        if caller != t.buyer && caller != offer.seller {
            return Err(Error::Unauthorized);
        }
        if t.status != TradeStatus::Initiated && t.status != TradeStatus::PaymentConfirmed {
            return Err(Error::InvalidTradeStatus);
        }
        let disputed = Trade { status: TradeStatus::Disputed, ..t };
        self.trades.update(trade_id, disputed);
        proof {
            assert(disputed == with_status(t, TradeStatus::Disputed));
            let post = *self;
            let pre = *old(self);
            assert forall|tid: u64| #[trigger]
                post.trades.as_map().contains_key(tid) && non_terminal(
                    post.trades.as_map()[tid].status,
                ) implies post.offers.as_map().contains_key(post.trades.as_map()[tid].offer_id) by {
                assert(pre.trades.as_map().contains_key(tid));
            }
            assert forall|t1: u64, t2: u64|
                #![trigger post.trades.as_map()[t1], post.trades.as_map()[t2]]
                post.trades.as_map().contains_key(t1) && post.trades.as_map().contains_key(t2)
                    && t1 != t2 && non_terminal(post.trades.as_map()[t1].status) && non_terminal(
                    post.trades.as_map()[t2].status,
                ) implies post.trades.as_map()[t1].offer_id
                != post.trades.as_map()[t2].offer_id by {
                assert(pre.trades.as_map().contains_key(t1));
                assert(pre.trades.as_map().contains_key(t2));
            }
        }
        Ok(())
    }

    /// Which error `resolve_dispute` reports for these arguments against
    /// this state, if any; `None` means the verdict is carried out.
    pub open spec fn resolve_dispute_err(
        self,
        ledger: TokenLedger,
        trade_id: u64,
        resolution: DisputeResolution,
        caller: u64,
    ) -> Option<Error> {
        if caller != self.admin {
            Some(Error::Unauthorized)
        } else if !self.trades.as_map().contains_key(trade_id) {
            Some(Error::TradeNotFound)
        } else {
            let t = self.trades.as_map()[trade_id];
            if t.status != TradeStatus::Disputed {
                Some(Error::InvalidTradeStatus)
            } else {
                let ofr = self.offers.as_map()[t.offer_id];
                match resolution {
                    DisputeResolution::ReleaseToBuyer => {
                        let fee = fee_of(ofr.usdc_amount, self.fee_rate);
                        if !ledger.can_transfer(
                            self.contract_id,
                            t.buyer,
                            ofr.usdc_amount - fee,
                        ) {
                            Some(Error::TokenTransferFailed)
                        } else {
                            None
                        }
                    },
                    DisputeResolution::RefundToSeller => {
                        if !ledger.can_transfer(
                            self.contract_id,
                            ofr.seller,
                            ofr.usdc_amount as int,
                        ) {
                            Some(Error::TokenTransferFailed)
                        } else {
                            None
                        }
                    },
                }
            }
        }
    }

    /// Carries out the administrator's verdict on a `Disputed` trade.
    /// `ReleaseToBuyer` pays the buyer the fee-bearing payout (fee collection
    /// attempted and swallowed on failure) and ends the trade `Completed`;
    /// `RefundToSeller` returns the full amount, no fee, and ends it
    /// `Cancelled`. Either way the offer leaves the ledger and the index. A
    /// failed primary transfer aborts the call with nothing changed. Only the
    /// administrator may resolve, and the pause switch does not block it.
    pub fn resolve_dispute(
        &mut self,
        ledger: &mut TokenLedger,
        trade_id: u64,
        resolution: DisputeResolution,
        caller: u64,
    ) -> (r: Result<(), Error>)
        requires
            old(self).wf(),
            old(ledger).wf(),
        ensures
            final(self).wf(),
            final(ledger).wf(),
            final(self).same_config(*old(self)),
            final(ledger).allowances_unchanged(*old(ledger)),
            final(self).next_offer_id == old(self).next_offer_id,
            final(self).next_trade_id == old(self).next_trade_id,
            match r {
                Ok(_) => ({
                    let t = old(self).trades.as_map()[trade_id];
                    let ofr = old(self).offers.as_map()[t.offer_id];
                    let fee = fee_of(ofr.usdc_amount, old(self).fee_rate);
                    &&& old(self).resolve_dispute_err(*old(ledger), trade_id, resolution, caller)
                        is None
                    &&& final(self).offers.as_map() == old(self).offers.as_map().remove(t.offer_id)
                    &&& final(self).active_offers.as_map() == old(
                        self,
                    ).active_offers.as_map().remove(ofr.seller)
                    &&& match resolution {
                        DisputeResolution::ReleaseToBuyer => {
                            &&& final(self).trades.as_map() == old(self).trades.as_map().insert(
                                trade_id,
                                with_status(t, TradeStatus::Completed),
                            )
                            &&& forall|a: u64| #[trigger]
                                final(ledger).bal(a) == released_bal(
                                    *old(ledger),
                                    old(self).contract_id,
                                    t.buyer,
                                    old(self).fee_collector,
                                    ofr.usdc_amount - fee,
                                    fee,
                                    a,
                                )
                        },
                        DisputeResolution::RefundToSeller => {
                            &&& final(self).trades.as_map() == old(self).trades.as_map().insert(
                                trade_id,
                                with_status(t, TradeStatus::Cancelled),
                            )
                            &&& forall|a: u64| #[trigger]
                                final(ledger).bal(a) == old(ledger).moved_bal(
                                    old(self).contract_id,
                                    ofr.seller,
                                    ofr.usdc_amount as int,
                                    a,
                                )
                        },
                    }
                }),
                Err(e) => {
                    &&& old(self).resolve_dispute_err(*old(ledger), trade_id, resolution, caller)
                        == Some(e)
                    &&& final(self).state_unchanged(*old(self))
                    &&& final(ledger).balances_unchanged(*old(ledger))
                },
            },
            ({
                let t = old(self).trades.as_map()[trade_id];
                let ofr = old(self).offers.as_map()[t.offer_id];
                match resolution {
                    DisputeResolution::ReleaseToBuyer => old(self).release_keeps_escrow_hyps(
                        *old(ledger),
                        trade_id,
                    ),
                    DisputeResolution::RefundToSeller => old(self).escrow_matches(*old(ledger))
                        && ofr.seller != old(self).contract_id,
                }
            }) ==> final(self).escrow_matches(*final(ledger)),
    {
        self._require_admin(caller)?;
        let t = match self.trades.get(trade_id) {
            Some(t) => t,
            None => {
                return Err(Error::TradeNotFound);
            },
        };
        if t.status != TradeStatus::Disputed {
            return Err(Error::InvalidTradeStatus);
        }
        let offer = match self.offers.get(t.offer_id) {
            Some(o) => o,
            None => {
                // a disputed trade always keeps its offer
                return Err(Error::OfferNotFound);
            },
        };
        let ghost pre = *old(self);
        let ghost led0 = *old(ledger);
        match resolution {
            DisputeResolution::ReleaseToBuyer => {
                let fee_amount = Self::_calculate_fee(offer.usdc_amount, self.fee_rate);
                let amount_to_buyer = offer.usdc_amount - fee_amount;
                match ledger.transfer(self.contract_id, t.buyer, amount_to_buyer) {
                    Ok(_) => {},
                    Err(_) => {
                        return Err(Error::TokenTransferFailed);
                    },
                }
                let ghost led1 = *ledger;
                let ghost fee_went = fee_amount > 0 && led1.can_transfer(
                    self.contract_id,
                    self.fee_collector,
                    fee_amount as int,
                );
                if fee_amount > 0 {
                    let collector = self.fee_collector;
                    match ledger.transfer(self.contract_id, collector, fee_amount) {
                        Ok(_) => {},
                        Err(_) => {
                            // swallowed: the verdict stands, the fee stays
                        },
                    }
                }
                let completed = Trade { status: TradeStatus::Completed, ..t };
                self.trades.update(trade_id, completed);
                self.offers.remove(t.offer_id);
                self.active_offers.remove(offer.seller);
                proof {
                    assert(completed == with_status(t, TradeStatus::Completed));
                    Self::lemma_settled_wf(pre, *self, trade_id, completed);
                    assert(fee_went <==> (fee_amount > 0 && fee_send_ok(
                        led0,
                        pre.contract_id,
                        t.buyer,
                        pre.fee_collector,
                        amount_to_buyer as int,
                        fee_amount as int,
                    )));
                    assert forall|a: u64| #[trigger]
                        ledger.bal(a) == released_bal(
                            led0,
                            pre.contract_id,
                            t.buyer,
                            pre.fee_collector,
                            amount_to_buyer as int,
                            fee_amount as int,
                            a,
                        ) by {
                        assert(led1.bal(a) == led0.moved_bal(
                            pre.contract_id,
                            t.buyer,
                            amount_to_buyer as int,
                            a,
                        ));
                    }
                    if pre.release_keeps_escrow_hyps(led0, trade_id) {
                        let s0 = pre.offers.seq();
                        pre.offers.lemma_key_lookup(t.offer_id);
                        let pos = crate::store::seq_index_of(s0, t.offer_id);
                        assert forall|j: int| 0 <= j < s0.len() implies (
                        #[trigger] s0[j]).1.usdc_amount >= 0 by {
                            pre.offers.lemma_entry_at(j);
                        }
                        lemma_escrow_total_remove(s0, pos);
                        lemma_escrow_total_member(s0, pos);
                        if fee_amount > 0 {
                            assert(fee_went);
                        }
                        assert(ledger.bal(pre.contract_id) == led0.bal(pre.contract_id)
                            - offer.usdc_amount);
                    }
                }
                Ok(())
            },
            DisputeResolution::RefundToSeller => {
                match ledger.transfer(self.contract_id, offer.seller, offer.usdc_amount) {
                    Ok(_) => {},
                    Err(_) => {
                        return Err(Error::TokenTransferFailed);
                    },
                }
                let cancelled = Trade { status: TradeStatus::Cancelled, ..t };
                self.trades.update(trade_id, cancelled);
                self.offers.remove(t.offer_id);
                self.active_offers.remove(offer.seller);
                proof {
                    assert(cancelled == with_status(t, TradeStatus::Cancelled));
                    Self::lemma_settled_wf(pre, *self, trade_id, cancelled);
                    if pre.escrow_matches(led0) && offer.seller != pre.contract_id {
                        let s0 = pre.offers.seq();
                        pre.offers.lemma_key_lookup(t.offer_id);
                        let pos = crate::store::seq_index_of(s0, t.offer_id);
                        lemma_escrow_total_remove(s0, pos);
                    }
                }
                Ok(())
            },
        }
    }

    /// The administrator's identity.
    pub fn get_admin(&self) -> (r: u64)
        ensures
            r == self.admin,
    {
        self.admin
    }

    /// The configured asset contract reference.
    pub fn get_usdc_token_id(&self) -> (r: u64)
        ensures
            r == self.usdc_token,
    {
        self.usdc_token
    }

    /// Where trading fees are sent.
    pub fn get_fee_collector(&self) -> (r: u64)
        ensures
            r == self.fee_collector,
    {
        self.fee_collector
    }

    /// The trading fee rate in basis points.
    pub fn get_fee_rate(&self) -> (r: u32)
        ensures
            r == self.fee_rate,
    {
        self.fee_rate
    }

    /// The accepted offer amount bounds, as (min, max).
    pub fn get_trade_limits(&self) -> (r: (i128, i128))
        ensures
            r.0 == self.min_trade_amount,
            r.1 == self.max_trade_amount,
    {
        (self.min_trade_amount, self.max_trade_amount)
    }

    /// The confirmation window in seconds.
    pub fn get_trade_expiration(&self) -> (r: u64)
        ensures
            r == self.trade_expiration,
    {
        self.trade_expiration
    }

    /// The next offer id to be allocated.
    pub fn get_next_offer_id(&self) -> (r: u64)
        ensures
            r == self.next_offer_id,
    {
        self.next_offer_id
    }

    /// The next trade id to be allocated.
    pub fn get_next_trade_id(&self) -> (r: u64)
        ensures
            r == self.next_trade_id,
    {
        self.next_trade_id
    }

    /// A snapshot of the whole offer ledger.
    pub fn get_offers(&self) -> (r: IdMap<Offer>)
        ensures
            r.seq() == self.offers.seq(),
            r.as_map() == self.offers.as_map(),
    {
        self.offers.duplicate()
    }

    /// The offer with id `offer_id`, if it is live.
    pub fn get_offer(&self, offer_id: u64) -> (r: Option<Offer>)
        requires
            self.wf(),
        ensures
            match r {
                Some(o) => self.offers.as_map().contains_key(offer_id) && o == self.offers.as_map()[
                    offer_id
                ],
                None => !self.offers.as_map().contains_key(offer_id),
            },
    {
        self.offers.get(offer_id)
    }

    /// A snapshot of the whole trade ledger.
    pub fn get_trades(&self) -> (r: IdMap<Trade>)
        ensures
            r.seq() == self.trades.seq(),
            r.as_map() == self.trades.as_map(),
    {
        self.trades.duplicate()
    }

    /// The trade with id `trade_id`, if it exists.
    pub fn get_trade(&self, trade_id: u64) -> (r: Option<Trade>)
        requires
            self.wf(),
        ensures
            match r {
                Some(t) => self.trades.as_map().contains_key(trade_id) && t == self.trades.as_map()[
                    trade_id
                ],
                None => !self.trades.as_map().contains_key(trade_id),
            },
    {
        self.trades.get(trade_id)
    }

    /// A snapshot of the seller-to-active-offer index.
    pub fn get_active_offers(&self) -> (r: IdMap<u64>)
        ensures
            r.seq() == self.active_offers.seq(),
            r.as_map() == self.active_offers.as_map(),
    {
        self.active_offers.duplicate()
    }

    /// The id of `seller`'s live offer, if they have one.
    pub fn get_seller_active_offer(&self, seller: u64) -> (r: Option<u64>)
        requires
            self.wf(),
        ensures
            match r {
                Some(o) => self.active_offers.as_map().contains_key(seller)
                    && self.active_offers.as_map()[seller] == o,
                None => !self.active_offers.as_map().contains_key(seller),
            },
    {
        self.active_offers.get(seller)
    }

    /// Whether trading operations are halted.
    pub fn is_paused(&self) -> (r: bool)
        ensures
            r == self.paused,
    {
        self.paused
    }

    /// The full configuration snapshot: (admin, asset reference, fee
    /// collector, fee rate, min amount, max amount, expiration, paused).
    pub fn get_contract_info(&self) -> (r: (u64, u64, u64, u32, i128, i128, u64, bool))
        ensures
            r == (
                self.admin,
                self.usdc_token,
                self.fee_collector,
                self.fee_rate,
                self.min_trade_amount,
                self.max_trade_amount,
                self.trade_expiration,
                self.paused,
            ),
    {
        (
            self.admin,
            self.usdc_token,
            self.fee_collector,
            self.fee_rate,
            self.min_trade_amount,
            self.max_trade_amount,
            self.trade_expiration,
            self.paused,
        )
    }
}

} // verus!

