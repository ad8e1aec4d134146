//! Escrow marketplace settlement: a registry of fixed-price listings, the
//! purchase protocol that delists and hands off to the custody service, the
//! settlement that disburses a reported payout or refunds the buyer, and the
//! read-only token enumeration of the asset contract.
pub mod enumerable;
pub mod market;
pub mod payout;
pub mod sale;
