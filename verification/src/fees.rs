//! The fee schedule: a pure table mapping an operation kind to a fee that is
//! either a fixed amount or a percentage in basis points over 10,000.

use crate::errors::ProtocolError;
use vstd::prelude::*;

verus! {

/// How a fee amount is to be read.
#[derive(Clone, Copy, Debug, PartialEq, Eq, Structural)]
pub enum FeeType {
    /// `amount` is an absolute value; any base amount is ignored.
    Fixed,
    /// `amount` is in basis points of the base amount (10,000 = 100%).
    Percentage,
}

/// One entry of the fee schedule.
#[derive(Clone, Copy, Debug, PartialEq, Eq, Structural)]
pub struct Fee {
    pub amount: u64,
    pub fee_type: FeeType,
}

/// The whole fee schedule, one entry per operation kind.
#[derive(Clone, Copy, Debug, PartialEq, Eq, Structural)]
pub struct FeesStructure {
    pub create_project: Fee,
    pub create_minter_config: Fee,
    pub create_trade_hub: Fee,
    pub trade_nft: Fee,
    pub mint_asset: Fee,
    pub generic_operation: Fee,
}

/// The fee-bearing operation kinds.
#[derive(Clone, Copy, Debug, PartialEq, Eq, Structural)]
pub enum Operation {
    CreateProject,
    CreateMinterConfig,
    CreateTradeHub,
    TradeNFT,
    MintAsset,
    Generic,
}

/// What a fee evaluates to on a given optional base amount: the fixed
/// amount, or `base * amount / 10_000`. A percentage fee without a base
/// amount, or whose multiplication overflows a `u64`, is an error.
pub open spec fn spec_fee_amount(fee: Fee, base_amount: Option<u64>) -> Result<u64, ProtocolError> {
    match fee.fee_type {
        FeeType::Fixed => Ok(fee.amount),
        FeeType::Percentage => match base_amount {
            Option::None => Err(ProtocolError::FeeCalculationOverflow),
            Option::Some(base) => if base * fee.amount > u64::MAX {
                Err(ProtocolError::FeeCalculationOverflow)
            } else {
                Ok(((base * fee.amount) / 10_000) as u64)
            },
        },
    }
}

/// The fee amount when the fee evaluates successfully, and zero otherwise.
/// Convenient for stating overflow side conditions.
pub open spec fn spec_fee_or_zero(fee: Fee, base_amount: Option<u64>) -> u64 {
    match spec_fee_amount(fee, base_amount) {
        Ok(v) => v,
        Err(_) => 0,
    }
}

/// Evaluates a fee on an optional base amount.
pub fn fee_amount(fee: &Fee, base_amount: Option<u64>) -> (r: Result<u64, ProtocolError>)
    ensures
        r == spec_fee_amount(*fee, base_amount),
{
    match fee.fee_type {
        FeeType::Fixed => Ok(fee.amount),
        FeeType::Percentage => match base_amount {
            None => Err(ProtocolError::FeeCalculationOverflow),
            Some(base) => match base.checked_mul(fee.amount) {
                None => Err(ProtocolError::FeeCalculationOverflow),
                Some(product) => Ok(product / 10_000),
            },
        },
    }
}

} // verus!
