//! The listing record: one live escrow per `(asset, hub)` pair.

use vstd::prelude::*;

verus! {

/// One live listing. Identity is `(asset, hub)`. A listing existing is
/// itself the proof that the asset is escrowed: frozen, with transfer
/// authority delegated to the hub. The record holds `rent` lamports of
/// storage cost, paid by the owner at creation and refunded to the owner
/// when the listing resolves.
#[derive(Clone, Copy, Debug, PartialEq, Eq, Structural)]
pub struct Listing {
    pub owner: u64,
    pub asset: u64,
    pub price: u64,
    pub created_at: i64,
    /// Record address of the owning trade hub.
    pub hub: u64,
    /// Storage cost held by the record, refunded on resolution.
    pub rent: u64,
}

} // verus!
