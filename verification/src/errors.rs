//! Error taxonomy: authorization failures, state conflicts, arithmetic
//! overflow, resource exhaustion, and record-layer conflicts.

use vstd::prelude::*;

verus! {

/// Errors raised by the marketplace operations (trade hubs, listings,
/// minting).
#[derive(Clone, Copy, Debug, PartialEq, Eq, Structural)]
pub enum ErrorCode {
    /// Caller is not an authority of the project.
    Unauthorized,
    /// A collection was requested without a uri.
    RequiredUri,
    /// A plugin blob could not be decoded.
    InvalidPlugin,
    /// A minter without an assets config needs an explicit name and uri.
    RequireNameAnddUri,
    /// The collection handed in does not match the minter's collection.
    CollectionMismatch,
    /// The minter's maximum supply has been reached.
    MaxSupplyReached,
    /// The asset carries a transfer delegation that is not owner-held.
    AssetInvalidTransferAuthority,
    /// The asset already carries a freeze delegation (double-listing guard).
    AssetAlreadyFrozen,
    /// Caller is not the listing's owner.
    NotAssetOwner,
    /// Fee arithmetic overflowed or a percentage fee had no base amount.
    FeeCalculationOverflow,
}

/// Errors raised by the protocol registry and treasury operations.
#[derive(Clone, Copy, Debug, PartialEq, Eq, Structural)]
pub enum ProtocolError {
    /// Caller is not a protocol admin.
    Unauthorized,
    /// Destination is not on the withdrawal allow-list.
    AddressNotWhiteListed,
    /// The debited account holds fewer funds than requested.
    InsufficientFunds,
    /// The debit would leave the account below its rent-exempt floor.
    MinimumBalanceRequired,
    /// Fee arithmetic overflowed or a percentage fee had no base amount.
    FeeCalculationOverflow,
}

/// The error surface of a whole ledger operation: either a marketplace
/// error, a protocol error, or a record-layer conflict raised by the
/// storage environment (a record with that identity already exists, or a
/// named record is missing).
#[derive(Clone, Copy, Debug, PartialEq, Eq, Structural)]
pub enum MarketError {
    Core(ErrorCode),
    Protocol(ProtocolError),
    /// A record with the derived identity already exists.
    AlreadyInUse,
    /// A named record does not exist.
    NotInitialized,
}

} // verus!
