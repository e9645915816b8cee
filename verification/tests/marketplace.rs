//! The marketplace lifecycle end to end: initialization, offer creation,
//! trade initiation, payment confirmation with release, and cancellation.

use p2p_marketplace::Error;
use p2p_marketplace::P2PMarketplaceContract;
use p2p_marketplace::TokenLedger;
use p2p_marketplace::TradeStatus;

const ADMIN: u64 = 1;
const FEE_COLLECTOR: u64 = 2;
const CONTRACT: u64 = 3;
const USDC_TOKEN: u64 = 6;
const SELLER: u64 = 10;
const BUYER: u64 = 11;
const NOW: u64 = 1_000;

fn setup_test_env() -> (P2PMarketplaceContract, TokenLedger) {
    let market = P2PMarketplaceContract::initialize(CONTRACT, ADMIN, USDC_TOKEN, FEE_COLLECTOR)
        .expect("valid configuration");
    let ledger = TokenLedger::new();
    (market, ledger)
}

fn setup_token_balance(ledger: &mut TokenLedger, user: u64, amount: i128) {
    ledger.mint(user, amount);
    ledger.approve(user, CONTRACT, amount);
}

#[test]
fn test_initialize() {
    let (market, _ledger) = setup_test_env();
    let (read_admin, read_usdc_token, _, _, _, _, _, _) = market.get_contract_info();

    assert_eq!(read_admin, ADMIN);
    assert_eq!(read_usdc_token, USDC_TOKEN);
    assert_eq!(market.get_next_offer_id(), 0);
    assert_eq!(market.get_next_trade_id(), 0);
    assert_eq!(market.get_offers().len(), 0);
    assert!(!market.is_paused());
}

#[test]
fn test_create_offer() {
    let (mut market, mut ledger) = setup_test_env();
    let usdc_amount: i128 = 100_000_000; // 100 USDC
    let kes_amount: i128 = 12_000_000_000; // 12,000 KES

    setup_token_balance(&mut ledger, SELLER, usdc_amount);
    let offer_id = market.create_offer(&mut ledger, SELLER, usdc_amount, kes_amount).unwrap();

    assert_eq!(offer_id, 0);
    let offer = market.get_offer(offer_id).unwrap();
    assert_eq!(offer.seller, SELLER);
    assert_eq!(ledger.balance(CONTRACT), usdc_amount);
}

#[test]
fn test_create_offer_already_has_active_offer() {
    let (mut market, mut ledger) = setup_test_env();
    let usdc_amount: i128 = 100_000_000;
    let kes_amount: i128 = 12_000_000_000;

    setup_token_balance(&mut ledger, SELLER, usdc_amount * 2);
    market.create_offer(&mut ledger, SELLER, usdc_amount, kes_amount).unwrap();
    let second = market.create_offer(&mut ledger, SELLER, usdc_amount, kes_amount);
    assert_eq!(second, Err(Error::AlreadyHasActiveOffer));
}

#[test]
fn test_create_offer_paused() {
    let (mut market, mut ledger) = setup_test_env();
    let usdc_amount: i128 = 100_000_000;
    let kes_amount: i128 = 12_000_000_000;

    market.pause(ADMIN).unwrap();
    setup_token_balance(&mut ledger, SELLER, usdc_amount);
    let result = market.create_offer(&mut ledger, SELLER, usdc_amount, kes_amount);
    assert_eq!(result, Err(Error::ContractPaused));
}

#[test]
fn test_initiate_trade() {
    let (mut market, mut ledger) = setup_test_env();
    let usdc_amount: i128 = 100_000_000;
    let kes_amount: i128 = 12_000_000_000;

    setup_token_balance(&mut ledger, SELLER, usdc_amount);
    let offer_id = market.create_offer(&mut ledger, SELLER, usdc_amount, kes_amount).unwrap();
    let trade_id = market.initiate_trade(BUYER, offer_id, NOW).unwrap();

    assert_eq!(trade_id, 0);
    let trade = market.get_trade(trade_id).unwrap();
    assert_eq!(trade.buyer, BUYER);
    assert_eq!(trade.status, TradeStatus::Initiated);
}

#[test]
fn test_initiate_trade_offer_not_found() {
    let (mut market, _ledger) = setup_test_env();
    let result = market.initiate_trade(BUYER, 999, NOW);
    assert_eq!(result, Err(Error::OfferNotFound));
}

#[test]
fn test_initiate_trade_already_initiated() {
    let (mut market, mut ledger) = setup_test_env();
    let usdc_amount: i128 = 100_000_000;
    let kes_amount: i128 = 12_000_000_000;

    setup_token_balance(&mut ledger, SELLER, usdc_amount);
    let offer_id = market.create_offer(&mut ledger, SELLER, usdc_amount, kes_amount).unwrap();
    market.initiate_trade(BUYER, offer_id, NOW).unwrap();
    let second = market.initiate_trade(BUYER, offer_id, NOW);
    assert_eq!(second, Err(Error::TradeAlreadyInitiated));
}

#[test]
fn test_cancel_offer() {
    let (mut market, mut ledger) = setup_test_env();
    let usdc_amount: i128 = 100_000_000;
    let kes_amount: i128 = 12_000_000_000;

    setup_token_balance(&mut ledger, SELLER, usdc_amount);
    let offer_id = market.create_offer(&mut ledger, SELLER, usdc_amount, kes_amount).unwrap();
    assert_eq!(ledger.balance(CONTRACT), usdc_amount);

    market.cancel_offer(&mut ledger, SELLER, offer_id).unwrap();
    assert_eq!(market.get_offers().len(), 0);
    assert_eq!(ledger.balance(SELLER), usdc_amount);
}

#[test]
fn test_cancel_offer_trade_already_initiated() {
    let (mut market, mut ledger) = setup_test_env();
    let usdc_amount: i128 = 100_000_000;
    let kes_amount: i128 = 12_000_000_000;

    setup_token_balance(&mut ledger, SELLER, usdc_amount);
    let offer_id = market.create_offer(&mut ledger, SELLER, usdc_amount, kes_amount).unwrap();
    market.initiate_trade(BUYER, offer_id, NOW).unwrap();
    let result = market.cancel_offer(&mut ledger, SELLER, offer_id);
    assert_eq!(result, Err(Error::TradeAlreadyInitiated));
}

#[test]
fn test_confirm_payment_and_release() {
    let (mut market, mut ledger) = setup_test_env();
    let fee_collector = market.get_fee_collector();
    let usdc_amount: i128 = 100_000_000;
    let kes_amount: i128 = 12_000_000_000;

    setup_token_balance(&mut ledger, SELLER, usdc_amount);
    let offer_id = market.create_offer(&mut ledger, SELLER, usdc_amount, kes_amount).unwrap();
    let trade_id = market.initiate_trade(BUYER, offer_id, NOW).unwrap();

    market.confirm_payment(&mut ledger, trade_id, BUYER, NOW).unwrap();
    let trade = market.get_trade(trade_id).unwrap();
    assert!(trade.buyer_confirmed_payment);

    market.confirm_payment(&mut ledger, trade_id, SELLER, NOW).unwrap();
    let trade = market.get_trade(trade_id).unwrap();
    assert_eq!(trade.status, TradeStatus::Completed);

    let fee_rate = market.get_fee_rate();
    let fee = (usdc_amount * fee_rate as i128) / 10000;
    assert_eq!(ledger.balance(BUYER), usdc_amount - fee);
    assert_eq!(ledger.balance(fee_collector), fee);
    assert_eq!(ledger.balance(CONTRACT), 0);
}

#[test]
fn test_confirm_payment_trade_expired() {
    let (mut market, mut ledger) = setup_test_env();
    let usdc_amount: i128 = 100_000_000;
    let kes_amount: i128 = 12_000_000_000;

    setup_token_balance(&mut ledger, SELLER, usdc_amount);
    let offer_id = market.create_offer(&mut ledger, SELLER, usdc_amount, kes_amount).unwrap();
    let trade_id = market.initiate_trade(BUYER, offer_id, NOW).unwrap();

    let expiration = market.get_trade_expiration();
    let later = NOW + expiration + 1;

    let result = market.confirm_payment(&mut ledger, trade_id, BUYER, later);
    assert_eq!(result, Err(Error::TradeExpired));
}

#[test]
fn test_confirm_payment_invalid_trade_status() {
    let (mut market, mut ledger) = setup_test_env();
    let usdc_amount: i128 = 100_000_000;
    let kes_amount: i128 = 12_000_000_000;

    setup_token_balance(&mut ledger, SELLER, usdc_amount);
    let offer_id = market.create_offer(&mut ledger, SELLER, usdc_amount, kes_amount).unwrap();
    let trade_id = market.initiate_trade(BUYER, offer_id, NOW).unwrap();

    market.confirm_payment(&mut ledger, trade_id, BUYER, NOW).unwrap();
    market.confirm_payment(&mut ledger, trade_id, SELLER, NOW).unwrap();
    let third = market.confirm_payment(&mut ledger, trade_id, BUYER, NOW);
    assert_eq!(third, Err(Error::InvalidTradeStatus));
}

// Completing a trade must flip the seller's confirmation, finish the trade,
// and land every balance where it belongs, with the offer no longer active.
#[test]
fn test_trade_completion_after_fix() {
    let (mut market, mut ledger) = setup_test_env();
    let fee_collector = market.get_fee_collector();
    let usdc_amount: i128 = 500_000_000; // 500 USDC
    let kes_amount: i128 = 65_000_000_000; // 65,000 KES

    setup_token_balance(&mut ledger, SELLER, usdc_amount);

    // 1. Seller creates an offer.
    let offer_id = market.create_offer(&mut ledger, SELLER, usdc_amount, kes_amount).unwrap();
    assert_eq!(ledger.balance(CONTRACT), usdc_amount);

    // 2. Buyer initiates a trade.
    let trade_id = market.initiate_trade(BUYER, offer_id, NOW).unwrap();
    assert_eq!(market.get_trade(trade_id).unwrap().status, TradeStatus::Initiated);

    // 3. Buyer confirms payment.
    market.confirm_payment(&mut ledger, trade_id, BUYER, NOW).unwrap();
    let trade = market.get_trade(trade_id).unwrap();
    assert!(trade.buyer_confirmed_payment);
    assert!(!trade.seller_confirmed_payment);
    assert_eq!(trade.status, TradeStatus::Initiated);

    // 4. Seller confirms payment, which triggers the release.
    market.confirm_payment(&mut ledger, trade_id, SELLER, NOW).unwrap();

    // 5. The trade is now completed.
    let trade = market.get_trade(trade_id).unwrap();
    assert!(trade.seller_confirmed_payment);
    assert_eq!(trade.status, TradeStatus::Completed);

    // 6. Funds are released correctly.
    let fee_rate = market.get_fee_rate();
    let fee_amount = (usdc_amount * fee_rate as i128) / 10000;
    let amount_to_buyer = usdc_amount - fee_amount;

    assert_eq!(ledger.balance(BUYER), amount_to_buyer);
    assert_eq!(ledger.balance(fee_collector), fee_amount);
    assert_eq!(ledger.balance(CONTRACT), 0);

    // 7. The offer is no longer active.
    assert!(!market.get_active_offers().contains_key(SELLER));
}
