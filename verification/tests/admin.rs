//! Administration: the pause switch, configuration setters with their
//! bounds, and the authorization and validation errors.

use p2p_marketplace::DisputeResolution;
use p2p_marketplace::Error;
use p2p_marketplace::P2PMarketplaceContract;
use p2p_marketplace::TokenLedger;
use p2p_marketplace::TradeStatus;

const ADMIN: u64 = 1;
const FEE_COLLECTOR: u64 = 2;
const CONTRACT: u64 = 3;
const USDC_TOKEN: u64 = 6;
const SELLER: u64 = 10;
const BUYER: u64 = 11;
const NOW: u64 = 1_000;

fn admin_env() -> (P2PMarketplaceContract, TokenLedger) {
    let market = P2PMarketplaceContract::initialize(CONTRACT, ADMIN, USDC_TOKEN, FEE_COLLECTOR)
        .expect("valid configuration");
    let ledger = TokenLedger::new();
    (market, ledger)
}

fn stock(ledger: &mut TokenLedger, user: u64, amount: i128) {
    ledger.mint(user, amount);
    ledger.approve(user, CONTRACT, amount);
}

#[test]
fn test_initialize_rejects_invalid_identities() {
    assert_eq!(
        P2PMarketplaceContract::initialize(CONTRACT, 0, USDC_TOKEN, FEE_COLLECTOR).err(),
        Some(Error::InvalidAmount)
    );
    assert_eq!(
        P2PMarketplaceContract::initialize(CONTRACT, ADMIN, 0, FEE_COLLECTOR).err(),
        Some(Error::InvalidAmount)
    );
    assert_eq!(
        P2PMarketplaceContract::initialize(CONTRACT, ADMIN, USDC_TOKEN, 0).err(),
        Some(Error::InvalidAmount)
    );
}

#[test]
fn test_pause_blocks_trading_but_not_disputes() {
    let (mut market, mut ledger) = admin_env();
    let amount: i128 = 100_000_000;
    stock(&mut ledger, SELLER, amount);
    let offer_id = market.create_offer(&mut ledger, SELLER, amount, 12_000_000_000).unwrap();
    let trade_id = market.initiate_trade(BUYER, offer_id, NOW).unwrap();

    assert_eq!(market.pause(SELLER), Err(Error::Unauthorized));
    market.pause(ADMIN).unwrap();
    assert!(market.is_paused());

    // Trading operations are blocked while paused.
    assert_eq!(
        market.create_offer(&mut ledger, BUYER, amount, 1).err(),
        Some(Error::ContractPaused)
    );
    assert_eq!(market.initiate_trade(BUYER, offer_id, NOW).err(), Some(Error::ContractPaused));
    assert_eq!(
        market.confirm_payment(&mut ledger, trade_id, BUYER, NOW).err(),
        Some(Error::ContractPaused)
    );
    assert_eq!(
        market.cancel_trade(&mut ledger, trade_id, BUYER).err(),
        Some(Error::ContractPaused)
    );
    assert_eq!(
        market.cancel_offer(&mut ledger, SELLER, offer_id).err(),
        Some(Error::ContractPaused)
    );
    assert_eq!(
        market.resolve_expired_trade(&mut ledger, trade_id, NOW + 601).err(),
        Some(Error::ContractPaused)
    );

    // Disputes stay open during a pause.
    market.raise_dispute(trade_id, BUYER).unwrap();
    market
        .resolve_dispute(&mut ledger, trade_id, DisputeResolution::RefundToSeller, ADMIN)
        .unwrap();
    assert_eq!(market.get_trade(trade_id).unwrap().status, TradeStatus::Cancelled);
    assert_eq!(ledger.balance(SELLER), amount);

    assert_eq!(market.unpause(SELLER), Err(Error::Unauthorized));
    market.unpause(ADMIN).unwrap();
    assert!(!market.is_paused());
}

#[test]
fn test_update_fee_rate_bounds() {
    let (mut market, _ledger) = admin_env();
    assert_eq!(market.update_fee_rate(SELLER, 10), Err(Error::Unauthorized));
    assert_eq!(market.update_fee_rate(ADMIN, 1001), Err(Error::InvalidAmount));
    assert_eq!(market.get_fee_rate(), 25);
    market.update_fee_rate(ADMIN, 1000).unwrap();
    assert_eq!(market.get_fee_rate(), 1000);
}

#[test]
fn test_update_trade_limits_boundaries() {
    let (mut market, _ledger) = admin_env();
    let (min0, max0) = market.get_trade_limits();

    // min above max must fail and leave the prior bounds unchanged.
    assert_eq!(market.update_trade_limits(ADMIN, 500, 100), Err(Error::InvalidAmount));
    assert_eq!(market.get_trade_limits(), (min0, max0));

    // max above the fixed ceiling must fail and leave the bounds unchanged.
    assert_eq!(
        market.update_trade_limits(ADMIN, 1, 1_000_000_000_000_000_001),
        Err(Error::InvalidAmount)
    );
    assert_eq!(market.get_trade_limits(), (min0, max0));

    // Non-positive bounds are rejected too.
    assert_eq!(market.update_trade_limits(ADMIN, 0, 100), Err(Error::InvalidAmount));
    assert_eq!(market.update_trade_limits(ADMIN, -5, 100), Err(Error::InvalidAmount));
    assert_eq!(market.get_trade_limits(), (min0, max0));

    market.update_trade_limits(ADMIN, 2_000_000, 500_000_000).unwrap();
    assert_eq!(market.get_trade_limits(), (2_000_000, 500_000_000));
}

#[test]
fn test_update_trade_expiration_bounds() {
    let (mut market, _ledger) = admin_env();
    assert_eq!(market.update_trade_expiration(ADMIN, 59), Err(Error::InvalidAmount));
    assert_eq!(market.update_trade_expiration(ADMIN, 86_401), Err(Error::InvalidAmount));
    assert_eq!(market.get_trade_expiration(), 600);
    market.update_trade_expiration(ADMIN, 86_400).unwrap();
    assert_eq!(market.get_trade_expiration(), 86_400);
}

#[test]
fn test_update_admin_and_fee_collector() {
    let (mut market, _ledger) = admin_env();
    let new_admin: u64 = 7;
    assert_eq!(market.update_admin(SELLER, new_admin), Err(Error::Unauthorized));
    assert_eq!(market.update_admin(ADMIN, 0), Err(Error::InvalidAmount));
    market.update_admin(ADMIN, new_admin).unwrap();
    assert_eq!(market.get_admin(), new_admin);
    // The old administrator lost control.
    assert_eq!(market.pause(ADMIN), Err(Error::Unauthorized));

    assert_eq!(market.update_fee_collector(new_admin, 0), Err(Error::InvalidAmount));
    market.update_fee_collector(new_admin, 8).unwrap();
    assert_eq!(market.get_fee_collector(), 8);
}

#[test]
fn test_create_offer_validation_errors() {
    let (mut market, mut ledger) = admin_env();
    stock(&mut ledger, SELLER, 100_000_000);

    assert_eq!(
        market.create_offer(&mut ledger, 0, 100_000_000, 1).err(),
        Some(Error::InvalidAmount)
    );
    assert_eq!(market.create_offer(&mut ledger, SELLER, 0, 1).err(), Some(Error::InvalidAmount));
    assert_eq!(
        market.create_offer(&mut ledger, SELLER, 100_000_000, 0).err(),
        Some(Error::InvalidAmount)
    );
    // Below the configured minimum and above the configured maximum.
    assert_eq!(
        market.create_offer(&mut ledger, SELLER, 999_999, 1).err(),
        Some(Error::InvalidAmount)
    );
    assert_eq!(
        market.create_offer(&mut ledger, SELLER, 1_000_000_000_001, 1).err(),
        Some(Error::InvalidAmount)
    );
}

#[test]
fn test_create_offer_balance_and_allowance_errors() {
    let (mut market, mut ledger) = admin_env();

    // No balance at all.
    assert_eq!(
        market.create_offer(&mut ledger, SELLER, 100_000_000, 1_000).err(),
        Some(Error::InsufficientAllowance)
    );

    // Balance but no approval.
    ledger.mint(SELLER, 100_000_000);
    assert_eq!(
        market.create_offer(&mut ledger, SELLER, 100_000_000, 1_000).err(),
        Some(Error::InsufficientAllowance)
    );

    // Approval too small.
    ledger.approve(SELLER, CONTRACT, 99_999_999);
    assert_eq!(
        market.create_offer(&mut ledger, SELLER, 100_000_000, 1_000).err(),
        Some(Error::InsufficientAllowance)
    );

    ledger.approve(SELLER, CONTRACT, 100_000_000);
    assert!(market.create_offer(&mut ledger, SELLER, 100_000_000, 1_000).is_ok());
}

#[test]
fn test_participant_checks() {
    let (mut market, mut ledger) = admin_env();
    let amount: i128 = 100_000_000;
    stock(&mut ledger, SELLER, amount);
    let offer_id = market.create_offer(&mut ledger, SELLER, amount, 12_000_000_000).unwrap();

    // Self-trading is rejected.
    assert_eq!(market.initiate_trade(SELLER, offer_id, NOW), Err(Error::Unauthorized));

    let trade_id = market.initiate_trade(BUYER, offer_id, NOW).unwrap();

    // Only participants may confirm or dispute.
    assert_eq!(
        market.confirm_payment(&mut ledger, trade_id, ADMIN, NOW),
        Err(Error::Unauthorized)
    );
    assert_eq!(market.raise_dispute(trade_id, ADMIN), Err(Error::Unauthorized));

    // Only the offer's owner may cancel it.
    assert_eq!(market.cancel_offer(&mut ledger, BUYER, offer_id), Err(Error::Unauthorized));

    // Unknown trades are reported as such.
    assert_eq!(
        market.confirm_payment(&mut ledger, 999, BUYER, NOW),
        Err(Error::TradeNotFound)
    );
    assert_eq!(market.cancel_trade(&mut ledger, 999, BUYER), Err(Error::TradeNotFound));
    assert_eq!(market.raise_dispute(999, BUYER), Err(Error::TradeNotFound));
    assert_eq!(
        market.resolve_dispute(&mut ledger, 999, DisputeResolution::RefundToSeller, ADMIN),
        Err(Error::TradeNotFound)
    );
}

#[test]
fn test_dispute_status_rules() {
    let (mut market, mut ledger) = admin_env();
    let amount: i128 = 100_000_000;
    stock(&mut ledger, SELLER, amount);
    let offer_id = market.create_offer(&mut ledger, SELLER, amount, 12_000_000_000).unwrap();
    let trade_id = market.initiate_trade(BUYER, offer_id, NOW).unwrap();

    // A trade that is not disputed cannot be resolved.
    assert_eq!(
        market.resolve_dispute(&mut ledger, trade_id, DisputeResolution::RefundToSeller, ADMIN),
        Err(Error::InvalidTradeStatus)
    );

    market.raise_dispute(trade_id, BUYER).unwrap();
    // Disputing twice is rejected.
    assert_eq!(market.raise_dispute(trade_id, BUYER), Err(Error::InvalidTradeStatus));
    // A disputed trade cannot be cancelled through the ordinary path.
    assert_eq!(
        market.cancel_trade(&mut ledger, trade_id, BUYER),
        Err(Error::InvalidTradeStatus)
    );

    market
        .resolve_dispute(&mut ledger, trade_id, DisputeResolution::RefundToSeller, ADMIN)
        .unwrap();
    // A settled trade cannot be disputed again.
    assert_eq!(market.raise_dispute(trade_id, BUYER), Err(Error::InvalidTradeStatus));
}
