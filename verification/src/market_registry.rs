//! Protocol and project registry operations: one-time protocol creation,
//! fee-schedule updates, project creation, and the floor-checked treasury
//! withdrawals.

use crate::errors::{MarketError, ProtocolError};
use crate::fees::{spec_fee_or_zero, Fee, FeesStructure, Operation};
use crate::market::Market;
use crate::project::ProjectConfig;
use crate::protocol::ProtocolConfig;
use vstd::prelude::*;

verus! {

/// What a floor-checked debit of `amount` from an account holding
/// `balance` with rent-exempt floor `floor` yields: an error if the amount
/// exceeds the balance or the remainder would fall below the floor.
pub open spec fn spec_validate_transfer(balance: u64, floor: u64, amount: u64) -> Result<
    (),
    ProtocolError,
> {
    if amount > balance {
        Err(ProtocolError::InsufficientFunds)
    } else if balance - amount < floor {
        Err(ProtocolError::MinimumBalanceRequired)
    } else {
        Ok(())
    }
}

/// Checks that debiting `amount` from an account holding `balance` leaves
/// at least the rent-exempt `floor`, converting a possible underflow into
/// an explicit error.
pub fn validate_transfer(balance: u64, floor: u64, amount: u64) -> (r: Result<(), ProtocolError>)
    ensures
        r == spec_validate_transfer(balance, floor, amount),
{
    if amount > balance {
        Err(ProtocolError::InsufficientFunds)
    } else if balance - amount < floor {
        Err(ProtocolError::MinimumBalanceRequired)
    } else {
        Ok(())
    }
}

impl Market {
    // ---- protocol fee payment ------------------------------------------

    /// Success condition and error of `pay_protocol_fee`.
    pub open spec fn pay_protocol_fee_chk(self, payer: u64, operation: Operation, base_amount:
        Option<u64>) -> Result<u64, MarketError> {
        match self.protocol->0.spec_fee(operation, base_amount) {
            Err(e) => Err(MarketError::Protocol(e)),
            Ok(fee) => if self.bank.spec_bal(payer) < fee {
                Err(MarketError::Protocol(ProtocolError::InsufficientFunds))
            } else {
                Ok(fee)
            },
        }
    }

    /// The fee owed for `operation` under the current schedule, or zero
    /// where the protocol is absent or the fee cannot be evaluated.
    pub open spec fn spec_protocol_fee_or_zero(self, operation: Operation, base_amount: Option<
        u64,
    >) -> u64 {
        match self.protocol {
            Some(c) => spec_fee_or_zero(c.spec_get_fee(operation), base_amount),
            None => 0,
        }
    }

    /// Evaluates the fee for `operation` and pays it from `payer` into the
    /// protocol treasury; a zero fee moves nothing. Returns the amount
    /// paid.
    pub fn pay_protocol_fee(&mut self, payer: u64, operation: Operation, base_amount: Option<u64>)
        -> (r: Result<u64, MarketError>)
        requires
            old(self).wf(),
            old(self).protocol is Some,
            old(self).protocol_treasury + old(self).spec_protocol_fee_or_zero(
                operation,
                base_amount,
            ) <= u64::MAX,
        ensures
            final(self).wf(),
            r == old(self).pay_protocol_fee_chk(payer, operation, base_amount),
            r matches Err(_) ==> *final(self) == *old(self),
            r matches Ok(fee) ==> {
                &&& fee == old(self).spec_protocol_fee_or_zero(operation, base_amount)
                &&& final(self).protocol_treasury == old(self).protocol_treasury + fee
                &&& final(self).bank.spec_bal(payer) == old(self).bank.spec_bal(payer) - fee
                &&& forall|b: u64|
                    b != payer ==> final(self).bank.spec_bal(b) == old(self).bank.spec_bal(b)
                &&& final(self).protocol == old(self).protocol
                &&& final(self).projects@ == old(self).projects@
                &&& final(self).hubs@ == old(self).hubs@
                &&& final(self).listings@ == old(self).listings@
                &&& final(self).assets.assets@ == old(self).assets.assets@
                &&& final(self).floor == old(self).floor
                &&& final(self).listing_rent == old(self).listing_rent
                &&& final(self).next_addr == old(self).next_addr
            },
    {
        let fee_res = match &self.protocol {
            Some(c) => c.calculate_fee_amount(operation, base_amount),
            None => {
                proof {
                    assert(false);
                }
                Err(ProtocolError::FeeCalculationOverflow)
            },
        };
        let fee = match fee_res {
            Err(e) => { return Err(MarketError::Protocol(e)) },
            Ok(fee) => fee,
        };
        if self.bank.balance_of(payer) < fee {
            return Err(MarketError::Protocol(ProtocolError::InsufficientFunds));
        }
        if fee > 0 {
            self.bank.debit(payer, fee);
            self.protocol_treasury = self.protocol_treasury + fee;
        }
        proof {
            Self::lemma_records_equal(*old(self), *self);
        }
        Ok(fee)
    }

    // ---- initialize_protocol -------------------------------------------

    /// Success condition and error of `initialize_protocol`.
    pub open spec fn init_protocol_chk(self, payer: u64) -> Result<(), MarketError> {
        if self.protocol is Some {
            Err(MarketError::AlreadyInUse)
        } else if self.bank.spec_bal(payer) < self.floor {
            Err(MarketError::Protocol(ProtocolError::InsufficientFunds))
        } else {
            Ok(())
        }
    }

    /// One-time creation of the protocol registry. The payer funds the
    /// protocol treasury sub-account up to its rent-exempt floor. Fails if
    /// the registry already exists.
    pub fn initialize_protocol(
        &mut self,
        payer: u64,
        admins: Vec<u64>,
        whitelist_transfer_addrs: Vec<u64>,
        fees: FeesStructure,
    ) -> (r: Result<(), MarketError>)
        requires
            old(self).wf(),
            admins@.len() <= 3,
            whitelist_transfer_addrs@.len() <= 3,
        ensures
            final(self).wf(),
            r == old(self).init_protocol_chk(payer),
            r matches Err(_) ==> *final(self) == *old(self),
            r is Ok ==> {
                &&& final(self).protocol == Some(
                    ProtocolConfig { admins, whitelist_transfer_addrs, fees },
                )
                &&& final(self).protocol_treasury == old(self).floor
                &&& final(self).bank.spec_bal(payer) == old(self).bank.spec_bal(payer) - old(
                    self,
                ).floor
                &&& forall|b: u64|
                    b != payer ==> final(self).bank.spec_bal(b) == old(self).bank.spec_bal(b)
                &&& final(self).projects@ == old(self).projects@
                &&& final(self).hubs@ == old(self).hubs@
                &&& final(self).listings@ == old(self).listings@
                &&& final(self).assets.assets@ == old(self).assets.assets@
                &&& final(self).floor == old(self).floor
                &&& final(self).listing_rent == old(self).listing_rent
                &&& final(self).next_addr == old(self).next_addr
            },
    {
        if self.protocol.is_some() {
            return Err(MarketError::AlreadyInUse);
        }
        let payer_bal = self.bank.balance_of(payer);
        if payer_bal < self.floor {
            return Err(MarketError::Protocol(ProtocolError::InsufficientFunds));
        }
        let floor = self.floor;
        self.bank.debit(payer, floor);
        self.protocol_treasury = floor;
        self.protocol = Some(ProtocolConfig { admins, whitelist_transfer_addrs, fees });
        proof {
            Self::lemma_records_equal(*old(self), *self);
        }
        Ok(())
    }

    // ---- fee-schedule updates ------------------------------------------

    /// Success condition and error of the two fee-schedule updates.
    pub open spec fn update_fees_chk(self, admin: u64) -> Result<(), MarketError> {
        match self.protocol {
            None => Err(MarketError::NotInitialized),
            Some(c) => if !c.spec_is_admin(admin) {
                Err(MarketError::Protocol(ProtocolError::Unauthorized))
            } else {
                Ok(())
            },
        }
    }

    /// Everything but the fee schedule is unchanged.
    pub open spec fn only_fees_changed(pre: Market, post: Market, fees: FeesStructure) -> bool {
        &&& match (pre.protocol, post.protocol) {
            (Some(a), Some(b)) => b == (ProtocolConfig { fees, ..a }),
            _ => false,
        }
        &&& post.protocol_treasury == pre.protocol_treasury
        &&& post.projects@ == pre.projects@
        &&& post.hubs@ == pre.hubs@
        &&& post.listings@ == pre.listings@
        &&& post.assets.assets@ == pre.assets.assets@
        &&& forall|b: u64| post.bank.spec_bal(b) == pre.bank.spec_bal(b)
        &&& post.floor == pre.floor
        &&& post.listing_rent == pre.listing_rent
        &&& post.next_addr == pre.next_addr
    }

    /// Replaces the whole fee schedule. Caller must be a protocol admin.
    pub fn update_fees(&mut self, admin: u64, fees: FeesStructure) -> (r: Result<(), MarketError>)
        requires
            old(self).wf(),
        ensures
            final(self).wf(),
            r == old(self).update_fees_chk(admin),
            r matches Err(_) ==> *final(self) == *old(self),
            r is Ok ==> Self::only_fees_changed(*old(self), *final(self), fees),
    {
        let is_admin = match &self.protocol {
            None => { return Err(MarketError::NotInitialized) },
            Some(c) => c.check_admins(admin),
        };
        if !is_admin {
            return Err(MarketError::Protocol(ProtocolError::Unauthorized));
        }
        let mut taken: Option<ProtocolConfig> = None;
        std::mem::swap(&mut taken, &mut self.protocol);
        let c = taken.unwrap();
        self.protocol = Some(ProtocolConfig { fees, ..c });
        proof {
            Self::lemma_records_equal(*old(self), *self);
        }
        Ok(())
    }

    /// The schedule with one entry replaced.
    pub open spec fn spec_update_entry(fees: FeesStructure, operation: Operation, fee: Fee)
        -> FeesStructure {
        match operation {
            Operation::CreateProject => FeesStructure { create_project: fee, ..fees },
            Operation::CreateMinterConfig => FeesStructure { create_minter_config: fee, ..fees },
            Operation::CreateTradeHub => FeesStructure { create_trade_hub: fee, ..fees },
            Operation::MintAsset => FeesStructure { mint_asset: fee, ..fees },
            Operation::TradeNFT => FeesStructure { trade_nft: fee, ..fees },
            Operation::Generic => FeesStructure { generic_operation: fee, ..fees },
        }
    }

    /// Replaces a single fee-schedule entry. Caller must be a protocol
    /// admin.
    pub fn update_single_fee(&mut self, admin: u64, operation: Operation, fee: Fee) -> (r: Result<
        (),
        MarketError,
    >)
        requires
            old(self).wf(),
        ensures
            final(self).wf(),
            r == old(self).update_fees_chk(admin),
            r matches Err(_) ==> *final(self) == *old(self),
            r is Ok ==> Self::only_fees_changed(
                *old(self),
                *final(self),
                Self::spec_update_entry(old(self).protocol->0.fees, operation, fee),
            ),
    {
        let is_admin = match &self.protocol {
            None => { return Err(MarketError::NotInitialized) },
            Some(c) => c.check_admins(admin),
        };
        if !is_admin {
            return Err(MarketError::Protocol(ProtocolError::Unauthorized));
        }
        let mut taken: Option<ProtocolConfig> = None;
        std::mem::swap(&mut taken, &mut self.protocol);
        let c = taken.unwrap();
        let fees = match operation {
            Operation::CreateProject => FeesStructure { create_project: fee, ..c.fees },
            Operation::CreateMinterConfig => FeesStructure { create_minter_config: fee, ..c.fees },
            Operation::CreateTradeHub => FeesStructure { create_trade_hub: fee, ..c.fees },
            Operation::MintAsset => FeesStructure { mint_asset: fee, ..c.fees },
            Operation::TradeNFT => FeesStructure { trade_nft: fee, ..c.fees },
            Operation::Generic => FeesStructure { generic_operation: fee, ..c.fees },
        };
        self.protocol = Some(ProtocolConfig { fees, ..c });
        proof {
            Self::lemma_records_equal(*old(self), *self);
        }
        Ok(())
    }

    // ---- treasury withdrawals ------------------------------------------

    /// Success condition and error of `transfer_protocol_fees`: caller must
    /// be an admin, the destination must be allow-listed, and the debit must
    /// neither exceed the balance nor push it below the reserve floor.
    pub open spec fn protocol_withdraw_chk(self, admin: u64, to: u64, amount: u64) -> Result<
        (),
        MarketError,
    > {
        match self.protocol {
            None => Err(MarketError::NotInitialized),
            Some(c) => if !c.spec_is_admin(admin) {
                Err(MarketError::Protocol(ProtocolError::Unauthorized))
            } else if !c.spec_is_whitelisted(to) {
                Err(MarketError::Protocol(ProtocolError::AddressNotWhiteListed))
            } else {
                match spec_validate_transfer(self.protocol_treasury, self.floor, amount) {
                    Err(e) => Err(MarketError::Protocol(e)),
                    Ok(()) => Ok(()),
                }
            },
        }
    }

    /// Debits the protocol treasury in favour of an allow-listed wallet,
    /// never below the treasury's rent-exempt floor.
    pub fn transfer_protocol_fees(&mut self, admin: u64, to: u64, amount: u64) -> (r: Result<
        (),
        MarketError,
    >)
        requires
            old(self).wf(),
            old(self).bank.spec_bal(to) + amount <= u64::MAX,
        ensures
            final(self).wf(),
            r == old(self).protocol_withdraw_chk(admin, to, amount),
            r matches Err(_) ==> *final(self) == *old(self),
            r is Ok ==> {
                &&& final(self).protocol_treasury == old(self).protocol_treasury - amount
                &&& final(self).bank.spec_bal(to) == old(self).bank.spec_bal(to) + amount
                &&& forall|b: u64|
                    b != to ==> final(self).bank.spec_bal(b) == old(self).bank.spec_bal(b)
                &&& final(self).protocol == old(self).protocol
                &&& final(self).projects@ == old(self).projects@
                &&& final(self).hubs@ == old(self).hubs@
                &&& final(self).listings@ == old(self).listings@
                &&& final(self).assets.assets@ == old(self).assets.assets@
                &&& final(self).floor == old(self).floor
                &&& final(self).listing_rent == old(self).listing_rent
                &&& final(self).next_addr == old(self).next_addr
            },
    {
        let (is_admin, is_whitelisted) = match &self.protocol {
            None => { return Err(MarketError::NotInitialized) },
            Some(c) => (c.check_admins(admin), c.check_whitelist_transfer_addrs(to)),
        };
        if !is_admin {
            return Err(MarketError::Protocol(ProtocolError::Unauthorized));
        }
        if !is_whitelisted {
            return Err(MarketError::Protocol(ProtocolError::AddressNotWhiteListed));
        }
        match validate_transfer(self.protocol_treasury, self.floor, amount) {
            Err(e) => { return Err(MarketError::Protocol(e)) },
            Ok(()) => {},
        }
        self.protocol_treasury = self.protocol_treasury - amount;
        self.bank.credit(to, amount);
        proof {
            Self::lemma_records_equal(*old(self), *self);
        }
        Ok(())
    }

    /// Success condition and error of `transfer_project_fees`. The project
    /// record's derived address depends on its owner, so a caller who is
    /// not the owner names a record that does not exist.
    pub open spec fn project_withdraw_chk(self, owner: u64, project: u64, to: u64, amount: u64)
        -> Result<(), MarketError> {
        if !self.has_project_addr(project) || self.spec_project(project).owner != owner {
            Err(MarketError::NotInitialized)
        } else {
            match spec_validate_transfer(self.spec_project(project).treasury, self.floor, amount) {
                Err(e) => Err(MarketError::Protocol(e)),
                Ok(()) => Ok(()),
            }
        }
    }

    /// Debits a project treasury in favour of a wallet, on the project
    /// owner's behalf, never below the treasury's rent-exempt floor.
    pub fn transfer_project_fees(&mut self, owner: u64, project: u64, to: u64, amount: u64) -> (r:
        Result<(), MarketError>)
        requires
            old(self).wf(),
            old(self).bank.spec_bal(to) + amount <= u64::MAX,
        ensures
            final(self).wf(),
            r == old(self).project_withdraw_chk(owner, project, to, amount),
            r matches Err(_) ==> *final(self) == *old(self),
            r is Ok ==> {
                &&& final(self).projects@ == old(self).projects@.update(
                    old(self).project_idx(project),
                    ProjectConfig {
                        treasury: (old(self).spec_project(project).treasury - amount) as u64,
                        ..old(self).spec_project(project)
                    },
                )
                &&& final(self).bank.spec_bal(to) == old(self).bank.spec_bal(to) + amount
                &&& forall|b: u64|
                    b != to ==> final(self).bank.spec_bal(b) == old(self).bank.spec_bal(b)
                &&& final(self).protocol == old(self).protocol
                &&& final(self).protocol_treasury == old(self).protocol_treasury
                &&& final(self).hubs@ == old(self).hubs@
                &&& final(self).listings@ == old(self).listings@
                &&& final(self).assets.assets@ == old(self).assets.assets@
                &&& final(self).floor == old(self).floor
                &&& final(self).listing_rent == old(self).listing_rent
                &&& final(self).next_addr == old(self).next_addr
            },
    {
        let idx = match self.find_project(project) {
            None => { return Err(MarketError::NotInitialized) },
            Some(i) => i,
        };
        proof {
            let j = self.project_idx(project);
            assert(0 <= j < self.projects@.len() && self.projects@[j].addr == project);
            assert(j == idx as int);
        }
        if self.projects[idx].owner != owner {
            return Err(MarketError::NotInitialized);
        }
        let treasury = self.projects[idx].treasury;
        match validate_transfer(treasury, self.floor, amount) {
            Err(e) => { return Err(MarketError::Protocol(e)) },
            Ok(()) => {},
        }
        let rec = self.projects.remove(idx);
        let updated = ProjectConfig { treasury: treasury - amount, ..rec };
        self.projects.insert(idx, updated);
        self.bank.credit(to, amount);
        proof {
            let pre = *old(self);
            let post = *self;
            assert(post.projects@ =~= pre.projects@.update(
                idx as int,
                ProjectConfig {
                    treasury: (pre.spec_project(project).treasury - amount) as u64,
                    ..pre.spec_project(project)
                },
            ));
            Self::lemma_hub_lookups(pre, post);
            Self::lemma_listing_lookups(pre, post);
            Self::lemma_asset_lookups(pre, post);
            assert forall|a: u64| pre.has_project_addr(a) implies post.has_project_addr(a) by {
                let i = pre.project_idx(a);
                assert(post.projects@[i].addr == a);
            }
        }
        Ok(())
    }

    // ---- create_project ------------------------------------------------

    /// The `CreateProject` fee owed under the current schedule, or zero if
    /// the protocol is absent or the fee cannot be evaluated.
    pub open spec fn create_project_fee(self) -> u64 {
        match self.protocol {
            Some(c) => spec_fee_or_zero(c.spec_get_fee(Operation::CreateProject), None),
            None => 0,
        }
    }

    /// Success condition and error of `create_project`.
    pub open spec fn create_project_chk(self, owner: u64, project_id: u64) -> Result<
        (),
        MarketError,
    > {
        match self.protocol {
            None => Err(MarketError::NotInitialized),
            Some(c) => if self.has_project_pair(owner, project_id) {
                Err(MarketError::AlreadyInUse)
            } else {
                match c.spec_fee(Operation::CreateProject, None) {
                    Err(e) => Err(MarketError::Protocol(e)),
                    Ok(fee) => if self.bank.spec_bal(owner) < fee + self.floor {
                        Err(MarketError::Protocol(ProtocolError::InsufficientFunds))
                    } else {
                        Ok(())
                    },
                }
            },
        }
    }

    /// Creates a project record and its treasury sub-account. The owner
    /// pays the `CreateProject` fee into the protocol treasury and tops the
    /// fresh project treasury up to its rent-exempt floor. Fails if a
    /// project with the same `(owner, project_id)` already exists. Returns
    /// the new record's address.
    pub fn create_project(
        &mut self,
        owner: u64,
        project_id: u64,
        name: String,
        description: String,
        authorities: Vec<u64>,
    ) -> (r: Result<u64, MarketError>)
        requires
            old(self).wf(),
            authorities@.len() <= 3,
            old(self).protocol_treasury + old(self).create_project_fee() <= u64::MAX,
            old(self).next_addr < u64::MAX,
        ensures
            final(self).wf(),
            r is Ok <==> old(self).create_project_chk(owner, project_id) is Ok,
            r matches Err(e) ==> *final(self) == *old(self) && Err::<(), MarketError>(e) == old(
                self,
            ).create_project_chk(owner, project_id),
            r matches Ok(addr) ==> {
                &&& addr == old(self).next_addr
                &&& final(self).projects@ == old(self).projects@.push(
                    ProjectConfig {
                        addr: old(self).next_addr,
                        project_id,
                        owner,
                        name,
                        description,
                        authorities,
                        treasury: old(self).floor,
                    },
                )
                &&& final(self).has_project_addr(addr)
                &&& final(self).spec_project(addr) == final(self).projects@.last()
                &&& final(self).protocol_treasury == old(self).protocol_treasury + old(
                    self,
                ).create_project_fee()
                &&& final(self).bank.spec_bal(owner) == old(self).bank.spec_bal(owner) - old(
                    self,
                ).create_project_fee() - old(self).floor
                &&& forall|b: u64|
                    b != owner ==> final(self).bank.spec_bal(b) == old(self).bank.spec_bal(b)
                &&& final(self).protocol == old(self).protocol
                &&& final(self).hubs@ == old(self).hubs@
                &&& final(self).listings@ == old(self).listings@
                &&& final(self).assets.assets@ == old(self).assets.assets@
                &&& final(self).floor == old(self).floor
                &&& final(self).listing_rent == old(self).listing_rent
                &&& final(self).next_addr == old(self).next_addr + 1
            },
    {
        if self.protocol.is_none() {
            return Err(MarketError::NotInitialized);
        }
        if self.find_project_pair(owner, project_id).is_some() {
            return Err(MarketError::AlreadyInUse);
        }
        let fee_res = match &self.protocol {
            Some(c) => c.calculate_fee_amount(Operation::CreateProject, None),
            None => {
                proof {
                    assert(false);
                }
                Err(ProtocolError::FeeCalculationOverflow)
            },
        };
        let fee = match fee_res {
            Err(e) => { return Err(MarketError::Protocol(e)) },
            Ok(fee) => fee,
        };
        // The owner must afford both the fee and the treasury top-up
        // before anything moves.
        let bal = self.bank.balance_of(owner);
        if bal < fee || bal - fee < self.floor {
            return Err(MarketError::Protocol(ProtocolError::InsufficientFunds));
        }
        let floor = self.floor;
        match self.pay_protocol_fee(owner, Operation::CreateProject, None) {
            Err(_) => {
                // The fee was just checked affordable.
                proof {
                    assert(false);
                }
                return Err(MarketError::Protocol(ProtocolError::InsufficientFunds));
            },
            Ok(_) => {},
        }
        self.bank.debit(owner, floor);
        let addr = self.next_addr;
        self.next_addr = self.next_addr + 1;
        self.projects.push(
            ProjectConfig {
                addr,
                project_id,
                owner,
                name,
                description,
                authorities,
                treasury: floor,
            },
        );
        proof {
            let pre = *old(self);
            let post = *self;
            Self::lemma_hub_lookups(pre, post);
            Self::lemma_listing_lookups(pre, post);
            Self::lemma_asset_lookups(pre, post);
            let n = pre.projects@.len() as int;
            assert forall|a: u64| pre.has_project_addr(a) implies post.has_project_addr(a) by {
                let i = pre.project_idx(a);
                assert(post.projects@[i].addr == a);
            }
            assert forall|i: int, j: int|
                0 <= i < j < post.projects@.len() implies (#[trigger] post.projects@[i]).addr != (
            #[trigger] post.projects@[j]).addr by {
                if j == n {
                    assert(post.projects@[i] == pre.projects@[i]);
                }
            }
            assert forall|i: int, j: int|
                0 <= i < j < post.projects@.len() implies !((#[trigger] post.projects@[i]).owner
                == (#[trigger] post.projects@[j]).owner && post.projects@[i].project_id
                == post.projects@[j].project_id) by {
                if j == n {
                    assert(post.projects@[i] == pre.projects@[i]);
                    if post.projects@[i].owner == owner && post.projects@[i].project_id
                        == project_id {
                        assert(pre.has_project_pair(owner, project_id));
                    }
                }
            }
            assert(post.projects@[n].addr == addr);
            assert(post.has_project_addr(addr));
            assert(post.project_idx(addr) == n);
        }
        Ok(addr)
    }
}

} // verus!
