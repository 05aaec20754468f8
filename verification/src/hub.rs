//! The trade hub record: a named marketplace scoped to one project, with a
//! fee rate in basis points applied to each sale price.

use crate::errors::ErrorCode;
use vstd::prelude::*;

verus! {

/// One trade hub. Identity is `(project, name)`; `addr` is the derived
/// record address assigned by the ledger. Immutable after creation.
pub struct TradeHub {
    pub addr: u64,
    /// Record address of the owning project.
    pub project: u64,
    pub name: String,
    pub fee_bps: u64,
}

/// The hub's cut of a sale: `price * fee_bps / 10_000`, or an overflow
/// error if the multiplication exceeds a `u64`.
pub open spec fn spec_hub_fee(fee_bps: u64, price: u64) -> Result<u64, ErrorCode> {
    if price * fee_bps > u64::MAX {
        Err(ErrorCode::FeeCalculationOverflow)
    } else {
        Ok(((price * fee_bps) / 10_000) as u64)
    }
}

impl TradeHub {
    /// The hub's cut of a sale at `price`.
    pub fn calculate_fee_amount(&self, price: u64) -> (r: Result<u64, ErrorCode>)
        ensures
            r == spec_hub_fee(self.fee_bps, price),
    {
        match price.checked_mul(self.fee_bps) {
            None => Err(ErrorCode::FeeCalculationOverflow),
            Some(product) => Ok(product / 10_000),
        }
    }
}

} // verus!
