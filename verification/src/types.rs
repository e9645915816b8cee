//! The plain data model of the marketplace: offers, trades, their statuses,
//! the administrator's dispute verdicts, and the error taxonomy.
//!
//! Identities are `u64` tokens handed in by the caller-authentication
//! collaborator; `0` is reserved as the invalid identity. Asset amounts are
//! signed 128-bit integers, as on the underlying ledger.

use vstd::prelude::*;

verus! {

/// Default trade timeout in seconds: ten minutes for payment confirmation.
pub const DEFAULT_TRADE_EXPIRATION: u64 = 600;

/// Default minimum trade size: 1 USDC at six decimals, to discourage spam.
pub const DEFAULT_MIN_TRADE_AMOUNT: i128 = 1_000_000;

/// Default maximum trade size: one million USDC at six decimals.
pub const DEFAULT_MAX_TRADE_AMOUNT: i128 = 1_000_000_000_000;

/// Default trading fee: 25 basis points (0.25%).
pub const DEFAULT_FEE_RATE: u32 = 25;

/// Basis-point denominator: 10,000 basis points make 100%.
pub const BASIS_POINTS_DIVISOR: u32 = 10_000;

/// Hard ceiling on the configurable fee rate: 1000 basis points (10%).
pub const MAX_FEE_RATE: u32 = 1000;

/// Hard ceiling on the configurable maximum trade amount.
pub const MAX_REASONABLE_AMOUNT: i128 = 1_000_000_000_000_000_000;

/// Smallest configurable trade timeout: one minute.
pub const MIN_TRADE_EXPIRATION: u64 = 60;

/// Largest configurable trade timeout: twenty-four hours.
pub const MAX_TRADE_EXPIRATION: u64 = 86400;

/// Largest amount for which `amount * MAX_FEE_RATE` stays within `i128`;
/// above it the fee is computed divide-first.
pub const MAX_SAFE_FEE_AMOUNT: i128 = 170_141_183_460_469_231_731_687_303_715_884_105;

/// A seller's standing intent to exchange an escrowed USDC amount for an
/// off-chain KES amount. An offer exists in the offer ledger exactly while
/// the escrow holds its `usdc_amount` on the seller's behalf.
#[derive(Clone, Copy, Debug, PartialEq, Eq, Structural)]
pub struct Offer {
    /// The identity that created the offer and owns the escrowed amount.
    pub seller: u64,
    /// Escrowed USDC amount (six decimals); always positive.
    pub usdc_amount: i128,
    /// KES amount expected in return, settled off-chain; always positive.
    pub kes_amount: i128,
}

/// One buyer's attempt to settle a specific offer. Trades are never deleted;
/// they only move to a terminal status, preserving an audit trail.
#[derive(Clone, Copy, Debug, PartialEq, Eq, Structural)]
pub struct Trade {
    /// The offer this trade settles.
    pub offer_id: u64,
    /// The identity that initiated the trade and receives the payout.
    pub buyer: u64,
    /// Ledger time at initiation, for expiration checks.
    pub start_time: u64,
    /// Where the trade stands in its lifecycle.
    pub status: TradeStatus,
    /// Whether the buyer confirmed sending the off-chain payment.
    pub buyer_confirmed_payment: bool,
    /// Whether the seller confirmed receiving the off-chain payment.
    pub seller_confirmed_payment: bool,
}

/// Lifecycle of a trade. `Completed` and `Cancelled` are terminal and
/// immutable; the other three statuses are live.
#[derive(Clone, Copy, Debug, PartialEq, Eq, Structural)]
pub enum TradeStatus {
    /// Created and waiting for both payment confirmations.
    Initiated,
    /// Both parties confirmed; the payout is about to be released.
    PaymentConfirmed,
    /// Payout released to the buyer; terminal.
    Completed,
    /// Escrow returned to the seller; terminal.
    Cancelled,
    /// Escalated to the administrator; frozen until resolved.
    Disputed,
}

/// The administrator's verdict on a disputed trade.
#[derive(Clone, Copy, Debug, PartialEq, Eq, Structural)]
pub enum DisputeResolution {
    /// The buyer paid: release the escrow to the buyer, minus the fee.
    ReleaseToBuyer,
    /// The buyer did not pay: refund the full escrow to the seller, no fee.
    RefundToSeller,
}

/// Everything an entry point can report instead of completing.
#[derive(Clone, Copy, Debug, PartialEq, Eq, Structural)]
pub enum Error {
    /// The offer id is not in the offer ledger.
    OfferNotFound,
    /// The trade id is not in the trade ledger.
    TradeNotFound,
    /// The seller already has a live offer; one live offer per seller.
    AlreadyHasActiveOffer,
    /// The trade exceeded its confirmation window.
    TradeExpired,
    /// The operation is not allowed in the trade's current status.
    InvalidTradeStatus,
    /// The caller is not entitled to this operation.
    Unauthorized,
    /// The offer already has a live trade against it.
    TradeAlreadyInitiated,
    /// The system is paused; trading operations are disabled.
    ContractPaused,
    /// The trade has not yet exceeded its confirmation window.
    TradeNotExpired,
    /// The seller's balance or approved allowance does not cover the offer.
    InsufficientAllowance,
    /// An amount is non-positive or outside the configured bounds.
    InvalidAmount,
    /// The external asset transfer reported a failure.
    TokenTransferFailed,
    /// The configured asset reference is not a valid token.
    InvalidTokenAddress,
    /// Reserved for rate limiting.
    RateLimitExceeded,
}

/// Why the asset ledger refused a transfer.
#[derive(Clone, Copy, Debug, PartialEq, Eq, Structural)]
pub enum TransferError {
    /// The amount is negative or exceeds the sender's balance.
    InsufficientBalance,
    /// The recipient's balance would exceed the representable range.
    ReceiverOverflow,
}

/// The statuses in which a trade still holds claim to its offer's escrow.
pub open spec fn non_terminal(s: TradeStatus) -> bool {
    s == TradeStatus::Initiated || s == TradeStatus::PaymentConfirmed || s == TradeStatus::Disputed
}

} // verus!
