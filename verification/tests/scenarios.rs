//! End-to-end scenarios: exact fee arithmetic, dispute resolution, the
//! one-offer-per-seller rule, expiration, double confirmation, rollback on a
//! failed payout transfer, and the escrow accounting across a lifecycle.

use p2p_marketplace::DisputeResolution;
use p2p_marketplace::Error;
use p2p_marketplace::P2PMarketplaceContract;
use p2p_marketplace::TokenLedger;
use p2p_marketplace::TradeStatus;

const ADMIN: u64 = 1;
const FEE_COLLECTOR: u64 = 2;
const CONTRACT: u64 = 3;
const USDC_TOKEN: u64 = 6;
const SELLER: u64 = 10;
const BUYER: u64 = 11;
const NOW: u64 = 1_000;

fn scenario_env() -> (P2PMarketplaceContract, TokenLedger) {
    let market = P2PMarketplaceContract::initialize(CONTRACT, ADMIN, USDC_TOKEN, FEE_COLLECTOR)
        .expect("valid configuration");
    let ledger = TokenLedger::new();
    (market, ledger)
}

fn fund(ledger: &mut TokenLedger, user: u64, amount: i128) {
    ledger.mint(user, amount);
    ledger.approve(user, CONTRACT, amount);
}

#[test]
fn test_fee_is_exact_at_25_basis_points() {
    // 0.25% of 100 USDC is 0.25 USDC.
    assert_eq!(P2PMarketplaceContract::_calculate_fee(100_000_000, 25), 250_000);
    assert_eq!(P2PMarketplaceContract::_calculate_fee(0, 25), 0);
    assert_eq!(P2PMarketplaceContract::_calculate_fee(100_000_000, 0), 0);
    // At the ceiling rate the fee is 10%.
    assert_eq!(P2PMarketplaceContract::_calculate_fee(100_000_000, 1000), 10_000_000);
    // Above the divide-first threshold the fee still lands without panicking.
    let huge: i128 = 170_141_183_460_469_231_731_687_303_715_884_106;
    let fee = P2PMarketplaceContract::_calculate_fee(huge, 1000);
    assert_eq!(fee, (huge / 10_000) * 1000);
}

#[test]
fn test_fee_payout_split_on_release() {
    let (mut market, mut ledger) = scenario_env();
    let amount: i128 = 100_000_000;
    fund(&mut ledger, SELLER, amount);
    let offer_id = market.create_offer(&mut ledger, SELLER, amount, 12_000_000_000).unwrap();
    let trade_id = market.initiate_trade(BUYER, offer_id, NOW).unwrap();
    market.confirm_payment(&mut ledger, trade_id, BUYER, NOW).unwrap();
    market.confirm_payment(&mut ledger, trade_id, SELLER, NOW).unwrap();

    assert_eq!(ledger.balance(BUYER), 99_750_000);
    assert_eq!(ledger.balance(FEE_COLLECTOR), 250_000);
    assert_eq!(ledger.balance(CONTRACT), 0);
}

#[test]
fn test_scenario_dispute_refund_to_seller() {
    let (mut market, mut ledger) = scenario_env();
    let amount: i128 = 100_000_000;
    fund(&mut ledger, SELLER, amount);
    let offer_id = market.create_offer(&mut ledger, SELLER, amount, 12_000_000_000).unwrap();
    let trade_id = market.initiate_trade(BUYER, offer_id, NOW).unwrap();

    market.raise_dispute(trade_id, BUYER).unwrap();
    assert_eq!(market.get_trade(trade_id).unwrap().status, TradeStatus::Disputed);

    market
        .resolve_dispute(&mut ledger, trade_id, DisputeResolution::RefundToSeller, ADMIN)
        .unwrap();

    assert_eq!(market.get_trade(trade_id).unwrap().status, TradeStatus::Cancelled);
    assert_eq!(ledger.balance(SELLER), amount);
    assert_eq!(ledger.balance(FEE_COLLECTOR), 0);
    assert_eq!(ledger.balance(CONTRACT), 0);
    assert!(market.get_offer(offer_id).is_none());
}

#[test]
fn test_scenario_dispute_release_to_buyer() {
    let (mut market, mut ledger) = scenario_env();
    let amount: i128 = 100_000_000;
    fund(&mut ledger, SELLER, amount);
    let offer_id = market.create_offer(&mut ledger, SELLER, amount, 12_000_000_000).unwrap();
    let trade_id = market.initiate_trade(BUYER, offer_id, NOW).unwrap();

    market.raise_dispute(trade_id, SELLER).unwrap();
    let by_stranger =
        market.resolve_dispute(&mut ledger, trade_id, DisputeResolution::ReleaseToBuyer, BUYER);
    assert_eq!(by_stranger, Err(Error::Unauthorized));

    market
        .resolve_dispute(&mut ledger, trade_id, DisputeResolution::ReleaseToBuyer, ADMIN)
        .unwrap();

    assert_eq!(market.get_trade(trade_id).unwrap().status, TradeStatus::Completed);
    assert_eq!(ledger.balance(BUYER), 99_750_000);
    assert_eq!(ledger.balance(FEE_COLLECTOR), 250_000);
    assert_eq!(ledger.balance(CONTRACT), 0);
}

#[test]
fn test_scenario_second_offer_rejected_without_transfer() {
    let (mut market, mut ledger) = scenario_env();
    let first: i128 = 100_000_000;
    let second: i128 = 50_000_000;
    fund(&mut ledger, SELLER, first + second);

    market.create_offer(&mut ledger, SELLER, first, 12_000_000_000).unwrap();
    assert_eq!(ledger.balance(SELLER), second);
    assert_eq!(ledger.balance(CONTRACT), first);

    let rejected = market.create_offer(&mut ledger, SELLER, second, 6_000_000_000);
    assert_eq!(rejected, Err(Error::AlreadyHasActiveOffer));
    // No second transfer happened.
    assert_eq!(ledger.balance(SELLER), second);
    assert_eq!(ledger.balance(CONTRACT), first);
}

#[test]
fn test_scenario_expired_trade_cannot_confirm() {
    let (mut market, mut ledger) = scenario_env();
    let amount: i128 = 100_000_000;
    fund(&mut ledger, SELLER, amount);
    let offer_id = market.create_offer(&mut ledger, SELLER, amount, 12_000_000_000).unwrap();
    let trade_id = market.initiate_trade(BUYER, offer_id, NOW).unwrap();

    let past_expiry = NOW + market.get_trade_expiration();
    let result = market.confirm_payment(&mut ledger, trade_id, BUYER, past_expiry);
    assert_eq!(result, Err(Error::TradeExpired));

    // Nothing changed: the trade is still open and unconfirmed, the escrow
    // still holds the amount.
    let trade = market.get_trade(trade_id).unwrap();
    assert_eq!(trade.status, TradeStatus::Initiated);
    assert!(!trade.buyer_confirmed_payment);
    assert!(!trade.seller_confirmed_payment);
    assert_eq!(ledger.balance(CONTRACT), amount);
    assert!(market.get_offer(offer_id).is_some());
}

#[test]
fn test_confirm_payment_is_idempotent_per_participant() {
    let (mut market, mut ledger) = scenario_env();
    let amount: i128 = 100_000_000;
    fund(&mut ledger, SELLER, amount);
    let offer_id = market.create_offer(&mut ledger, SELLER, amount, 12_000_000_000).unwrap();
    let trade_id = market.initiate_trade(BUYER, offer_id, NOW).unwrap();

    market.confirm_payment(&mut ledger, trade_id, BUYER, NOW).unwrap();
    let after_first = market.get_trade(trade_id).unwrap();

    // Confirming again from the same side succeeds and changes nothing.
    market.confirm_payment(&mut ledger, trade_id, BUYER, NOW).unwrap();
    let after_second = market.get_trade(trade_id).unwrap();
    assert_eq!(after_first, after_second);
    assert_eq!(after_second.status, TradeStatus::Initiated);
    assert_eq!(ledger.balance(CONTRACT), amount);
}

#[test]
fn test_release_rolls_back_when_payout_transfer_fails() {
    let (mut market, mut ledger) = scenario_env();
    let amount: i128 = 100_000_000;
    fund(&mut ledger, SELLER, amount);
    // The buyer's balance is saturated, so the payout transfer must fail.
    ledger.mint(BUYER, i128::MAX);

    let offer_id = market.create_offer(&mut ledger, SELLER, amount, 12_000_000_000).unwrap();
    let trade_id = market.initiate_trade(BUYER, offer_id, NOW).unwrap();
    market.confirm_payment(&mut ledger, trade_id, BUYER, NOW).unwrap();

    let second = market.confirm_payment(&mut ledger, trade_id, SELLER, NOW);
    assert_eq!(second, Err(Error::TokenTransferFailed));

    // The confirmation flags persisted and the trade stays ready for
    // release, but the staged completion was rolled back: the offer is
    // still live and the escrow still holds the amount.
    let trade = market.get_trade(trade_id).unwrap();
    assert_eq!(trade.status, TradeStatus::PaymentConfirmed);
    assert!(trade.buyer_confirmed_payment);
    assert!(trade.seller_confirmed_payment);
    assert!(market.get_offer(offer_id).is_some());
    assert!(market.get_active_offers().contains_key(SELLER));
    assert_eq!(ledger.balance(CONTRACT), amount);
    assert_eq!(ledger.balance(BUYER), i128::MAX);

    // Re-confirming cannot restart the protocol on a payment-confirmed
    // trade; the dispute path remains open.
    let retry = market.confirm_payment(&mut ledger, trade_id, SELLER, NOW);
    assert_eq!(retry, Err(Error::InvalidTradeStatus));
    market.raise_dispute(trade_id, SELLER).unwrap();
    assert_eq!(market.get_trade(trade_id).unwrap().status, TradeStatus::Disputed);
}

#[test]
fn test_cancel_trade_returns_escrow_to_seller() {
    let (mut market, mut ledger) = scenario_env();
    let amount: i128 = 100_000_000;
    fund(&mut ledger, SELLER, amount);
    let offer_id = market.create_offer(&mut ledger, SELLER, amount, 12_000_000_000).unwrap();
    let trade_id = market.initiate_trade(BUYER, offer_id, NOW).unwrap();

    let by_stranger = market.cancel_trade(&mut ledger, trade_id, ADMIN);
    assert_eq!(by_stranger, Err(Error::Unauthorized));

    market.cancel_trade(&mut ledger, trade_id, BUYER).unwrap();
    assert_eq!(market.get_trade(trade_id).unwrap().status, TradeStatus::Cancelled);
    assert_eq!(ledger.balance(SELLER), amount);
    assert_eq!(ledger.balance(CONTRACT), 0);
    assert!(market.get_offer(offer_id).is_none());
    // With the trade cancelled the seller can offer again.
    ledger.approve(SELLER, CONTRACT, amount);
    assert!(market.create_offer(&mut ledger, SELLER, amount, 12_000_000_000).is_ok());
}

#[test]
fn test_resolve_expired_trade_refunds_seller() {
    let (mut market, mut ledger) = scenario_env();
    let amount: i128 = 100_000_000;
    fund(&mut ledger, SELLER, amount);
    let offer_id = market.create_offer(&mut ledger, SELLER, amount, 12_000_000_000).unwrap();
    let trade_id = market.initiate_trade(BUYER, offer_id, NOW).unwrap();

    let too_early = market.resolve_expired_trade(&mut ledger, trade_id, NOW + 1);
    assert_eq!(too_early, Err(Error::TradeNotExpired));

    let past_expiry = NOW + market.get_trade_expiration();
    market.resolve_expired_trade(&mut ledger, trade_id, past_expiry).unwrap();
    assert_eq!(market.get_trade(trade_id).unwrap().status, TradeStatus::Cancelled);
    assert_eq!(ledger.balance(SELLER), amount);
    assert_eq!(ledger.balance(CONTRACT), 0);
    assert!(market.get_offer(offer_id).is_none());
}

#[test]
fn test_escrow_balance_tracks_live_offers() {
    let (mut market, mut ledger) = scenario_env();
    let first: i128 = 100_000_000;
    let second: i128 = 40_000_000;
    let other_seller: u64 = 12;
    fund(&mut ledger, SELLER, first);
    fund(&mut ledger, other_seller, second);

    // The escrow balance always equals the sum of the live offers' amounts.
    assert_eq!(ledger.balance(CONTRACT), 0);
    let offer_a = market.create_offer(&mut ledger, SELLER, first, 12_000_000_000).unwrap();
    assert_eq!(ledger.balance(CONTRACT), first);
    let offer_b = market.create_offer(&mut ledger, other_seller, second, 5_000_000_000).unwrap();
    assert_eq!(ledger.balance(CONTRACT), first + second);

    let trade_a = market.initiate_trade(BUYER, offer_a, NOW).unwrap();
    market.confirm_payment(&mut ledger, trade_a, BUYER, NOW).unwrap();
    market.confirm_payment(&mut ledger, trade_a, SELLER, NOW).unwrap();
    assert_eq!(ledger.balance(CONTRACT), second);

    market.cancel_offer(&mut ledger, other_seller, offer_b).unwrap();
    assert_eq!(ledger.balance(CONTRACT), 0);
}
