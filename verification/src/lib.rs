//! Reconciliation engine for periodic fund-holdings disclosures.
//!
//! Vendors publish the holdings of a family of exchange-traded funds in
//! incompatible tabular shapes.  This crate normalizes such raw tables onto
//! one canonical record shape, rewrites vendor-specific spellings of a
//! security's identity onto one stable identity, and merges fresh batches
//! into an append-only per-fund history without duplicating or losing rows.
//! All transport, scheduling and storage stays outside; the crate works on
//! plain values and every function carries a verified contract.

pub mod date;
pub mod fetch;
pub mod identity;
pub mod merge;
pub mod normalize;
pub mod pipeline;
pub mod record;
pub mod registry;
pub mod table;
pub mod text;
