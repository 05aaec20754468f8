//! The protocol registry record: the admin set, the withdrawal allow-list,
//! and the fee schedule.

use crate::addr::addr_list_contains;
use crate::errors::ProtocolError;
use crate::fees::{spec_fee_amount, Fee, FeesStructure, Operation};
use vstd::prelude::*;

verus! {

/// The protocol-wide configuration record. Created once; its fee schedule
/// may be replaced, wholly or entry by entry, by an admin.
pub struct ProtocolConfig {
    pub admins: Vec<u64>,
    pub whitelist_transfer_addrs: Vec<u64>,
    pub fees: FeesStructure,
}

impl ProtocolConfig {
    /// Whether `key` is a protocol admin.
    pub open spec fn spec_is_admin(self, key: u64) -> bool {
        self.admins@.contains(key)
    }

    /// Whether `key` is on the withdrawal allow-list.
    pub open spec fn spec_is_whitelisted(self, key: u64) -> bool {
        self.whitelist_transfer_addrs@.contains(key)
    }

    /// The schedule entry for an operation kind.
    pub open spec fn spec_get_fee(self, operation: Operation) -> Fee {
        match operation {
            Operation::CreateProject => self.fees.create_project,
            Operation::CreateMinterConfig => self.fees.create_minter_config,
            Operation::CreateTradeHub => self.fees.create_trade_hub,
            Operation::MintAsset => self.fees.mint_asset,
            Operation::TradeNFT => self.fees.trade_nft,
            Operation::Generic => self.fees.generic_operation,
        }
    }

    /// The fee owed for an operation on an optional base amount.
    pub open spec fn spec_fee(self, operation: Operation, base_amount: Option<u64>) -> Result<
        u64,
        ProtocolError,
    > {
        spec_fee_amount(self.spec_get_fee(operation), base_amount)
    }

    pub fn check_admins(&self, key: u64) -> (r: bool)
        ensures
            r == self.spec_is_admin(key),
    {
        addr_list_contains(&self.admins, key)
    }

    pub fn check_whitelist_transfer_addrs(&self, key: u64) -> (r: bool)
        ensures
            r == self.spec_is_whitelisted(key),
    {
        addr_list_contains(&self.whitelist_transfer_addrs, key)
    }

    pub fn get_fee(&self, operation: Operation) -> (r: Fee)
        ensures
            r == self.spec_get_fee(operation),
    {
        match operation {
            Operation::CreateProject => self.fees.create_project,
            Operation::CreateMinterConfig => self.fees.create_minter_config,
            Operation::CreateTradeHub => self.fees.create_trade_hub,
            Operation::MintAsset => self.fees.mint_asset,
            Operation::TradeNFT => self.fees.trade_nft,
            Operation::Generic => self.fees.generic_operation,
        }
    }

    /// The fee owed for an operation. A percentage fee needs a base amount
    /// and overflow-checked multiplication; either failure is an error, not
    /// a silent zero.
    pub fn calculate_fee_amount(&self, operation: Operation, base_amount: Option<u64>) -> (r:
        Result<u64, ProtocolError>)
        ensures
            r == self.spec_fee(operation, base_amount),
    {
        let fee = self.get_fee(operation);
        crate::fees::fee_amount(&fee, base_amount)
    }
}

} // verus!
