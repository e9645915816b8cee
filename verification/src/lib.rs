//! An escrow-backed peer-to-peer marketplace: sellers lock an on-ledger asset
//! (USDC) in escrow against an off-chain settled consideration (KES), buyers
//! commit to a single offer at a time, and the escrow is released only after
//! both parties confirm payment, a trade expires, or an administrator resolves
//! a dispute.
//!
//! The crate is organised leaf-first:
//!
//! - [`types`] holds the plain data model: offers, trades, trade statuses,
//!   dispute resolutions, and the error taxonomy.
//! - [`store`] provides [`store::IdMap`], a verified association map from
//!   integer identifiers to records, with a `Map` abstraction for contracts.
//! - [`token`] models the external asset ledger at its interface: balances,
//!   allowances, and a fallible `transfer`.
//! - [`marketplace`] is the escrow state machine itself. Every entry point
//!   carries a contract saying exactly which inputs succeed, which error each
//!   failing input produces, and how the ledgers change; the well-formedness
//!   invariants (active-offer index consistency, at most one live trade per
//!   offer) and the escrow accounting invariant are stated and proved there.
//!
//! Identities (addresses) are opaque tokens issued by the host's
//! caller-authentication collaborator; the library represents them as non-zero
//! `u64` values handed in already verified. Wall-clock access is likewise the
//! host's business: entry points that consult the clock take the current
//! ledger time as an argument.

pub mod marketplace;
pub mod store;
pub mod token;
pub mod types;

pub use marketplace::P2PMarketplaceContract;
pub use token::TokenLedger;
pub use types::DisputeResolution;
pub use types::Error;
pub use types::Offer;
pub use types::Trade;
pub use types::TradeStatus;
