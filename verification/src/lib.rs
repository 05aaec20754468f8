//! A verified model of an on-chain marketplace and fee-distribution engine
//! for transferable digital assets.
//!
//! The library is organised bottom-up:
//! - `errors`: the error taxonomy shared by every operation;
//! - `fees`: the fee schedule (fixed and basis-point fees per operation kind);
//! - `addr` and `bank`: addresses and balances of key-held wallet accounts;
//! - `assets`: a model of the external asset registry at its interface
//!   boundary (ownership, authority delegation, freezing, transfer);
//! - `protocol`, `project`, `hub`, `listing`: the persisted records;
//! - `market`: the ledger state, its well-formedness invariant, and lookups;
//! - `market_registry`: protocol and project bookkeeping, fee payment, and
//!   the floor-checked treasury withdrawals;
//! - `market_trade`: trade hubs and the listing/escrow engine;
//! - `laws`: proofs of the global properties (mutual exclusion of listings,
//!   escrow consistency, fee conservation, round trips, reserve floors).

pub mod addr;
pub mod assets;
pub mod bank;
pub mod errors;
pub mod fees;
pub mod hub;
pub mod laws;
pub mod listing;
pub mod market;
pub mod market_registry;
pub mod market_trade;
pub mod project;
pub mod protocol;
