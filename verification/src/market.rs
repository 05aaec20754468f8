//! The ledger state: a snapshot of every account the system owns, the
//! well-formedness invariant that every operation preserves, and the
//! lookup functions the operations build on.
//!
//! The operations themselves live in `market_registry` (protocol and
//! project bookkeeping, treasury withdrawals) and `market_trade` (trade
//! hubs and the listing/escrow engine).

use crate::assets::{AssetLedger, AssetRecord, Authority, FreezePlugin};
use crate::bank::Bank;
use crate::hub::TradeHub;
use crate::listing::Listing;
use crate::project::ProjectConfig;
use crate::protocol::ProtocolConfig;
use vstd::prelude::*;

verus! {

/// A snapshot of every account the system owns. Each public operation is
/// one atomic transaction against it: it either succeeds as a whole or
/// leaves the state exactly as it was.
pub struct Market {
    pub protocol: Option<ProtocolConfig>,
    /// Lamports held by the protocol treasury sub-account.
    pub protocol_treasury: u64,
    pub projects: Vec<ProjectConfig>,
    pub hubs: Vec<TradeHub>,
    pub listings: Vec<Listing>,
    pub assets: AssetLedger,
    /// Key-held wallet balances.
    pub bank: Bank,
    /// Rent-exempt floor of a zero-data account in the storage environment.
    pub floor: u64,
    /// Storage cost of one listing record.
    pub listing_rent: u64,
    /// Next derived record address to assign.
    pub next_addr: u64,
}

impl Market {
    // ---- Lookups -------------------------------------------------------

    pub open spec fn has_project_addr(self, addr: u64) -> bool {
        exists|i: int| 0 <= i < self.projects@.len() && (#[trigger] self.projects@[i]).addr == addr
    }

    pub open spec fn project_idx(self, addr: u64) -> int {
        choose|i: int| 0 <= i < self.projects@.len() && (#[trigger] self.projects@[i]).addr == addr
    }

    /// The project record at `addr`; meaningful only when `has_project_addr`.
    pub open spec fn spec_project(self, addr: u64) -> ProjectConfig {
        self.projects@[self.project_idx(addr)]
    }

    /// Whether a project with identity `(owner, project_id)` exists.
    pub open spec fn has_project_pair(self, owner: u64, project_id: u64) -> bool {
        exists|i: int|
            0 <= i < self.projects@.len() && (#[trigger] self.projects@[i]).owner == owner
                && self.projects@[i].project_id == project_id
    }

    pub open spec fn has_hub(self, addr: u64) -> bool {
        exists|i: int| 0 <= i < self.hubs@.len() && (#[trigger] self.hubs@[i]).addr == addr
    }

    pub open spec fn hub_idx(self, addr: u64) -> int {
        choose|i: int| 0 <= i < self.hubs@.len() && (#[trigger] self.hubs@[i]).addr == addr
    }

    /// The hub record at `addr`; meaningful only when `has_hub`.
    pub open spec fn spec_hub(self, addr: u64) -> TradeHub {
        self.hubs@[self.hub_idx(addr)]
    }

    /// Whether a hub with identity `(project, name)` exists.
    pub open spec fn has_hub_named(self, project: u64, name: Seq<char>) -> bool {
        exists|i: int|
            0 <= i < self.hubs@.len() && (#[trigger] self.hubs@[i]).project == project
                && self.hubs@[i].name@ == name
    }

    /// Whether a live listing exists for `(asset, hub)`.
    pub open spec fn has_listing(self, asset: u64, hub: u64) -> bool {
        exists|i: int|
            0 <= i < self.listings@.len() && (#[trigger] self.listings@[i]).asset == asset
                && self.listings@[i].hub == hub
    }

    pub open spec fn listing_idx(self, asset: u64, hub: u64) -> int {
        choose|i: int|
            0 <= i < self.listings@.len() && (#[trigger] self.listings@[i]).asset == asset
                && self.listings@[i].hub == hub
    }

    /// The listing for `(asset, hub)`; meaningful only when `has_listing`.
    pub open spec fn spec_listing(self, asset: u64, hub: u64) -> Listing {
        self.listings@[self.listing_idx(asset, hub)]
    }

    /// Whether any live listing exists for `asset`, on any hub.
    pub open spec fn asset_listed(self, asset: u64) -> bool {
        exists|i: int| 0 <= i < self.listings@.len() && (#[trigger] self.listings@[i]).asset == asset
    }

    // ---- The invariant -------------------------------------------------

    /// The escrow facts that a single live listing certifies: the listed
    /// asset exists, still belongs to the lister, is frozen with the freeze
    /// capability held by the listing's hub, and has its transfer capability
    /// delegated to that hub.
    pub open spec fn listing_escrowed(self, l: Listing) -> bool {
        &&& self.assets.has_asset(l.asset)
        &&& self.assets.spec_asset(l.asset).owner == l.owner
        &&& self.assets.spec_asset(l.asset).freeze == Some(
            FreezePlugin { authority: Authority::Address(l.hub), frozen: true },
        )
        &&& self.assets.spec_asset(l.asset).transfer_delegate == Some(Authority::Address(l.hub))
    }

    /// Well-formedness: record identities are unique, references resolve,
    /// treasuries sit at or above the reserve floor, and every listing is
    /// consistent with the asset registry (escrow consistency).
    pub open spec fn wf(self) -> bool {
        &&& self.bank.wf()
        &&& self.assets.wf()
        // Projects: unique addresses and unique (owner, id) identities;
        // treasuries at or above the floor; created under a protocol.
        &&& forall|i: int, j: int|
            0 <= i < j < self.projects@.len() ==> (#[trigger] self.projects@[i]).addr != (
            #[trigger] self.projects@[j]).addr
        &&& forall|i: int, j: int|
            0 <= i < j < self.projects@.len() ==> !((#[trigger] self.projects@[i]).owner == (
            #[trigger] self.projects@[j]).owner && self.projects@[i].project_id
                == self.projects@[j].project_id)
        &&& forall|i: int|
            0 <= i < self.projects@.len() ==> (#[trigger] self.projects@[i]).treasury >= self.floor
        &&& forall|i: int|
            0 <= i < self.projects@.len() ==> (#[trigger] self.projects@[i]).addr < self.next_addr
        &&& self.projects@.len() > 0 ==> self.protocol is Some
        // Hubs: unique addresses and unique (project, name) identities;
        // each hub belongs to an existing project.
        &&& forall|i: int, j: int|
            0 <= i < j < self.hubs@.len() ==> (#[trigger] self.hubs@[i]).addr != (
            #[trigger] self.hubs@[j]).addr
        &&& forall|i: int, j: int|
            0 <= i < j < self.hubs@.len() ==> !((#[trigger] self.hubs@[i]).project == (
            #[trigger] self.hubs@[j]).project && self.hubs@[i].name@ == self.hubs@[j].name@)
        &&& forall|i: int|
            0 <= i < self.hubs@.len() ==> self.has_project_addr((#[trigger] self.hubs@[i]).project)
        &&& forall|i: int|
            0 <= i < self.hubs@.len() ==> (#[trigger] self.hubs@[i]).addr < self.next_addr
        // Listings: unique (asset, hub) identities; each hub reference
        // resolves; each listing certifies its escrow facts.
        &&& forall|i: int, j: int|
            0 <= i < j < self.listings@.len() ==> !((#[trigger] self.listings@[i]).asset == (
            #[trigger] self.listings@[j]).asset && self.listings@[i].hub == self.listings@[j].hub)
        &&& forall|i: int|
            0 <= i < self.listings@.len() ==> self.has_hub((#[trigger] self.listings@[i]).hub)
        &&& forall|i: int|
            0 <= i < self.listings@.len() ==> self.listing_escrowed(#[trigger] self.listings@[i])
        // Assets: a frozen asset is frozen for a hub that holds a live
        // listing on it.
        &&& forall|i: int|
            0 <= i < self.assets.assets@.len() ==> (#[trigger] self.assets.assets@[i]).addr
                < self.next_addr
        &&& forall|i: int|
            0 <= i < self.assets.assets@.len() ==> match (#[trigger] self.assets.assets@[i]).freeze {
                Some(fp) => fp.frozen ==> match fp.authority {
                    Authority::Address(h) => self.has_listing(self.assets.assets@[i].addr, h),
                    Authority::OwnerHeld => false,
                },
                None => true,
            }
        // Protocol treasury: at or above the reserve floor once created.
        &&& self.protocol is Some ==> self.protocol_treasury >= self.floor
    }

    // ---- Construction and environment ----------------------------------

    /// Two states with the same project table agree on the project lookups.
    /// The uniqueness quantifiers of `pre.wf()` make the looked-up records
    /// well defined.
    pub proof fn lemma_project_lookups(pre: Market, post: Market)
        requires
            pre.wf(),
            post.projects@ == pre.projects@,
        ensures
            forall|a: u64| post.has_project_addr(a) == pre.has_project_addr(a),
            forall|a: u64|
                pre.has_project_addr(a) ==> post.spec_project(a) == pre.spec_project(a),
            forall|o: u64, id: u64| post.has_project_pair(o, id) == pre.has_project_pair(o, id),
    {
        assert forall|a: u64| post.has_project_addr(a) == pre.has_project_addr(a) by {
            if pre.has_project_addr(a) {
                let i = pre.project_idx(a);
                assert(post.projects@[i].addr == a);
                assert(post.has_project_addr(a));
            }
            if post.has_project_addr(a) {
                let i = post.project_idx(a);
                assert(pre.projects@[i].addr == a);
                assert(pre.has_project_addr(a));
            }
        }
        assert forall|a: u64|
            pre.has_project_addr(a) implies post.spec_project(a) == pre.spec_project(a) by {
            let i = pre.project_idx(a);
            let j = post.project_idx(a);
            assert(pre.projects@[i].addr == a);
            assert(post.projects@[j].addr == a);
            assert(pre.projects@[j].addr == a);
            assert(i == j);
        }
        assert forall|o: u64, id: u64|
            post.has_project_pair(o, id) == pre.has_project_pair(o, id) by {
            if pre.has_project_pair(o, id) {
                let i = choose|i: int|
                    0 <= i < pre.projects@.len() && (#[trigger] pre.projects@[i]).owner == o
                        && pre.projects@[i].project_id == id;
                assert(post.projects@[i].owner == o && post.projects@[i].project_id == id);
                assert(post.has_project_pair(o, id));
            }
            if post.has_project_pair(o, id) {
                let i = choose|i: int|
                    0 <= i < post.projects@.len() && (#[trigger] post.projects@[i]).owner == o
                        && post.projects@[i].project_id == id;
                assert(pre.projects@[i].owner == o && pre.projects@[i].project_id == id);
                assert(pre.has_project_pair(o, id));
            }
        }
    }

    /// Two states with the same hub table agree on the hub lookups.
    pub proof fn lemma_hub_lookups(pre: Market, post: Market)
        requires
            pre.wf(),
            post.hubs@ == pre.hubs@,
        ensures
            forall|h: u64| post.has_hub(h) == pre.has_hub(h),
            forall|h: u64| pre.has_hub(h) ==> post.spec_hub(h) == pre.spec_hub(h),
            forall|p: u64, n: Seq<char>| post.has_hub_named(p, n) == pre.has_hub_named(p, n),
    {
        assert forall|h: u64| post.has_hub(h) == pre.has_hub(h) by {
            if pre.has_hub(h) {
                let i = pre.hub_idx(h);
                assert(post.hubs@[i].addr == h);
                assert(post.has_hub(h));
            }
            if post.has_hub(h) {
                let i = post.hub_idx(h);
                assert(pre.hubs@[i].addr == h);
                assert(pre.has_hub(h));
            }
        }
        assert forall|h: u64| pre.has_hub(h) implies post.spec_hub(h) == pre.spec_hub(h) by {
            let i = pre.hub_idx(h);
            let j = post.hub_idx(h);
            assert(pre.hubs@[i].addr == h);
            assert(post.hubs@[j].addr == h);
            assert(pre.hubs@[j].addr == h);
            assert(i == j);
        }
        assert forall|p: u64, n: Seq<char>|
            post.has_hub_named(p, n) == pre.has_hub_named(p, n) by {
            if pre.has_hub_named(p, n) {
                let i = choose|i: int|
                    0 <= i < pre.hubs@.len() && (#[trigger] pre.hubs@[i]).project == p
                        && pre.hubs@[i].name@ == n;
                assert(post.hubs@[i].project == p && post.hubs@[i].name@ == n);
                assert(post.has_hub_named(p, n));
            }
            if post.has_hub_named(p, n) {
                let i = choose|i: int|
                    0 <= i < post.hubs@.len() && (#[trigger] post.hubs@[i]).project == p
                        && post.hubs@[i].name@ == n;
                assert(pre.hubs@[i].project == p && pre.hubs@[i].name@ == n);
                assert(pre.has_hub_named(p, n));
            }
        }
    }

    /// Two states with the same listing table agree on the listing lookups.
    pub proof fn lemma_listing_lookups(pre: Market, post: Market)
        requires
            pre.wf(),
            post.listings@ == pre.listings@,
        ensures
            forall|a: u64, h: u64| post.has_listing(a, h) == pre.has_listing(a, h),
            forall|a: u64, h: u64|
                pre.has_listing(a, h) ==> post.spec_listing(a, h) == pre.spec_listing(a, h),
            forall|a: u64| post.asset_listed(a) == pre.asset_listed(a),
    {
        assert forall|a: u64, h: u64| post.has_listing(a, h) == pre.has_listing(a, h) by {
            if pre.has_listing(a, h) {
                let i = pre.listing_idx(a, h);
                assert(post.listings@[i].asset == a && post.listings@[i].hub == h);
                assert(post.has_listing(a, h));
            }
            if post.has_listing(a, h) {
                let i = post.listing_idx(a, h);
                assert(pre.listings@[i].asset == a && pre.listings@[i].hub == h);
                assert(pre.has_listing(a, h));
            }
        }
        assert forall|a: u64, h: u64|
            pre.has_listing(a, h) implies post.spec_listing(a, h) == pre.spec_listing(a, h) by {
            let i = pre.listing_idx(a, h);
            let j = post.listing_idx(a, h);
            assert(pre.listings@[i].asset == a && pre.listings@[i].hub == h);
            assert(post.listings@[j].asset == a && post.listings@[j].hub == h);
            assert(pre.listings@[j].asset == a && pre.listings@[j].hub == h);
            assert(i == j);
        }
        assert forall|a: u64| post.asset_listed(a) == pre.asset_listed(a) by {
            if pre.asset_listed(a) {
                let i = choose|i: int|
                    0 <= i < pre.listings@.len() && (#[trigger] pre.listings@[i]).asset == a;
                assert(post.listings@[i].asset == a);
                assert(post.asset_listed(a));
            }
            if post.asset_listed(a) {
                let i = choose|i: int|
                    0 <= i < post.listings@.len() && (#[trigger] post.listings@[i]).asset == a;
                assert(pre.listings@[i].asset == a);
                assert(pre.asset_listed(a));
            }
        }
    }

    /// Two states with the same asset table agree on the asset lookups, and
    /// on the escrow facts when their listing tables also agree.
    pub proof fn lemma_asset_lookups(pre: Market, post: Market)
        requires
            pre.wf(),
            post.assets.assets@ == pre.assets.assets@,
        ensures
            forall|a: u64| post.assets.has_asset(a) == pre.assets.has_asset(a),
            forall|a: u64|
                pre.assets.has_asset(a) ==> post.assets.spec_asset(a) == pre.assets.spec_asset(a),
            forall|l: Listing| post.listing_escrowed(l) == pre.listing_escrowed(l),
    {
        assert forall|a: u64| post.assets.has_asset(a) == pre.assets.has_asset(a) by {
            if pre.assets.has_asset(a) {
                let i = pre.assets.asset_idx(a);
                assert(post.assets.assets@[i].addr == a);
                assert(post.assets.has_asset(a));
            }
            if post.assets.has_asset(a) {
                let i = post.assets.asset_idx(a);
                assert(pre.assets.assets@[i].addr == a);
                assert(pre.assets.has_asset(a));
            }
        }
        assert forall|a: u64|
            pre.assets.has_asset(a) implies post.assets.spec_asset(a) == pre.assets.spec_asset(
                a,
            ) by {
            let i = pre.assets.asset_idx(a);
            let j = post.assets.asset_idx(a);
            assert(pre.assets.assets@[i].addr == a);
            assert(post.assets.assets@[j].addr == a);
            assert(pre.assets.assets@[j].addr == a);
            assert(i == j);
        }
        assert forall|l: Listing| post.listing_escrowed(l) == pre.listing_escrowed(l) by {
            assert(post.assets.has_asset(l.asset) == pre.assets.has_asset(l.asset));
            if pre.assets.has_asset(l.asset) {
                assert(post.assets.spec_asset(l.asset) == pre.assets.spec_asset(l.asset));
            }
        }
    }

    /// Two states with the same record tables agree on every lookup.
    pub proof fn lemma_records_equal(pre: Market, post: Market)
        requires
            pre.wf(),
            post.projects@ == pre.projects@,
            post.hubs@ == pre.hubs@,
            post.listings@ == pre.listings@,
            post.assets.assets@ == pre.assets.assets@,
        ensures
            forall|a: u64| post.has_project_addr(a) == pre.has_project_addr(a),
            forall|a: u64|
                pre.has_project_addr(a) ==> post.spec_project(a) == pre.spec_project(a),
            forall|o: u64, id: u64| post.has_project_pair(o, id) == pre.has_project_pair(o, id),
            forall|h: u64| post.has_hub(h) == pre.has_hub(h),
            forall|h: u64| pre.has_hub(h) ==> post.spec_hub(h) == pre.spec_hub(h),
            forall|p: u64, n: Seq<char>| post.has_hub_named(p, n) == pre.has_hub_named(p, n),
            forall|a: u64, h: u64| post.has_listing(a, h) == pre.has_listing(a, h),
            forall|a: u64, h: u64|
                pre.has_listing(a, h) ==> post.spec_listing(a, h) == pre.spec_listing(a, h),
            forall|a: u64| post.asset_listed(a) == pre.asset_listed(a),
            forall|a: u64| post.assets.has_asset(a) == pre.assets.has_asset(a),
            forall|a: u64|
                pre.assets.has_asset(a) ==> post.assets.spec_asset(a) == pre.assets.spec_asset(a),
            forall|l: Listing| post.listing_escrowed(l) == pre.listing_escrowed(l),
    {
        Self::lemma_project_lookups(pre, post);
        Self::lemma_hub_lookups(pre, post);
        Self::lemma_listing_lookups(pre, post);
        Self::lemma_asset_lookups(pre, post);
    }

    pub fn new(floor: u64, listing_rent: u64) -> (r: Market)
        ensures
            r.wf(),
            r.protocol is None,
            r.projects@.len() == 0,
            r.hubs@.len() == 0,
            r.listings@.len() == 0,
            forall|a: u64| !r.assets.has_asset(a),
            forall|a: u64| r.bank.spec_bal(a) == 0,
            r.floor == floor,
            r.listing_rent == listing_rent,
            r.next_addr == 1,
    {
        Market {
            protocol: None,
            protocol_treasury: 0,
            projects: Vec::new(),
            hubs: Vec::new(),
            listings: Vec::new(),
            assets: AssetLedger::new(),
            bank: Bank::new(),
            floor,
            listing_rent,
            next_addr: 1,
        }
    }

    /// Funds a wallet from outside the system (models an airdrop or an
    /// external deposit).
    pub fn fund_wallet(&mut self, addr: u64, amount: u64)
        requires
            old(self).wf(),
            old(self).bank.spec_bal(addr) + amount <= u64::MAX,
        ensures
            final(self).wf(),
            final(self).bank.spec_bal(addr) == old(self).bank.spec_bal(addr) + amount,
            forall|b: u64| b != addr ==> final(self).bank.spec_bal(b) == old(self).bank.spec_bal(b),
            final(self).protocol == old(self).protocol,
            final(self).protocol_treasury == old(self).protocol_treasury,
            final(self).projects@ == old(self).projects@,
            final(self).hubs@ == old(self).hubs@,
            final(self).listings@ == old(self).listings@,
            final(self).assets == old(self).assets,
            final(self).floor == old(self).floor,
            final(self).listing_rent == old(self).listing_rent,
            final(self).next_addr == old(self).next_addr,
    {
        self.bank.credit(addr, amount);
        proof {
            Self::lemma_records_equal(*old(self), *self);
        }
    }

    /// Deposits lamports into the protocol treasury sub-account from
    /// outside the system.
    pub fn fund_protocol_treasury(&mut self, amount: u64)
        requires
            old(self).wf(),
            old(self).protocol is Some,
            old(self).protocol_treasury + amount <= u64::MAX,
        ensures
            final(self).wf(),
            final(self).protocol_treasury == old(self).protocol_treasury + amount,
            forall|b: u64| final(self).bank.spec_bal(b) == old(self).bank.spec_bal(b),
            final(self).protocol == old(self).protocol,
            final(self).projects@ == old(self).projects@,
            final(self).hubs@ == old(self).hubs@,
            final(self).listings@ == old(self).listings@,
            final(self).assets == old(self).assets,
            final(self).floor == old(self).floor,
            final(self).listing_rent == old(self).listing_rent,
            final(self).next_addr == old(self).next_addr,
    {
        self.protocol_treasury = self.protocol_treasury + amount;
        proof {
            Self::lemma_records_equal(*old(self), *self);
        }
    }

    /// Deposits lamports into a project's treasury sub-account from
    /// outside the system.
    pub fn fund_project_treasury(&mut self, project: u64, amount: u64) -> (r: Result<
        (),
        crate::errors::MarketError,
    >)
        requires
            old(self).wf(),
            old(self).has_project_addr(project) ==> old(self).spec_project(project).treasury
                + amount <= u64::MAX,
        ensures
            final(self).wf(),
            r is Ok <==> old(self).has_project_addr(project),
            r matches Err(e) ==> *final(self) == *old(self) && e
                == crate::errors::MarketError::NotInitialized,
            r is Ok ==> {
                &&& final(self).projects@ == old(self).projects@.update(
                    old(self).project_idx(project),
                    ProjectConfig {
                        treasury: (old(self).spec_project(project).treasury + amount) as u64,
                        ..old(self).spec_project(project)
                    },
                )
                &&& forall|b: u64| final(self).bank.spec_bal(b) == old(self).bank.spec_bal(b)
                &&& final(self).protocol == old(self).protocol
                &&& final(self).protocol_treasury == old(self).protocol_treasury
                &&& final(self).hubs@ == old(self).hubs@
                &&& final(self).listings@ == old(self).listings@
                &&& final(self).assets == old(self).assets
                &&& final(self).floor == old(self).floor
                &&& final(self).listing_rent == old(self).listing_rent
                &&& final(self).next_addr == old(self).next_addr
            },
    {
        let idx = match self.find_project(project) {
            None => { return Err(crate::errors::MarketError::NotInitialized) },
            Some(i) => i,
        };
        proof {
            let j = self.project_idx(project);
            assert(0 <= j < self.projects@.len() && self.projects@[j].addr == project);
            assert(j == idx as int);
        }
        let treasury = self.projects[idx].treasury;
        let rec = self.projects.remove(idx);
        let updated = ProjectConfig { treasury: treasury + amount, ..rec };
        self.projects.insert(idx, updated);
        proof {
            let pre = *old(self);
            let post = *self;
            assert(post.projects@ =~= pre.projects@.update(
                idx as int,
                ProjectConfig {
                    treasury: (pre.spec_project(project).treasury + amount) as u64,
                    ..pre.spec_project(project)
                },
            ));
            Self::lemma_hub_lookups(pre, post);
            Self::lemma_listing_lookups(pre, post);
            Self::lemma_asset_lookups(pre, post);
            assert forall|a: u64| pre.has_project_addr(a) implies post.has_project_addr(a) by {
                let i = pre.project_idx(a);
                assert(post.projects@[i].addr == a);
            }
        }
        Ok(())
    }

    // ---- Exec lookups --------------------------------------------------

    pub fn find_project(&self, addr: u64) -> (r: Option<usize>)
        ensures
            match r {
                Some(i) => i < self.projects@.len() && self.projects@[i as int].addr == addr,
                None => !self.has_project_addr(addr),
            },
    {
        let mut i: usize = 0;
        while i < self.projects.len()
            invariant
                i <= self.projects@.len(),
                forall|j: int| 0 <= j < i ==> (#[trigger] self.projects@[j]).addr != addr,
            decreases self.projects@.len() - i,
        {
            if self.projects[i].addr == addr {
                return Some(i);
            }
            i = i + 1;
        }
        None
    }

    pub fn find_project_pair(&self, owner: u64, project_id: u64) -> (r: Option<usize>)
        ensures
            match r {
                Some(i) => i < self.projects@.len() && self.projects@[i as int].owner == owner
                    && self.projects@[i as int].project_id == project_id,
                None => !self.has_project_pair(owner, project_id),
            },
    {
        let mut i: usize = 0;
        while i < self.projects.len()
            invariant
                i <= self.projects@.len(),
                forall|j: int|
                    0 <= j < i ==> !((#[trigger] self.projects@[j]).owner == owner
                        && self.projects@[j].project_id == project_id),
            decreases self.projects@.len() - i,
        {
            if self.projects[i].owner == owner && self.projects[i].project_id == project_id {
                return Some(i);
            }
            i = i + 1;
        }
        None
    }

    pub fn find_hub(&self, addr: u64) -> (r: Option<usize>)
        ensures
            match r {
                Some(i) => i < self.hubs@.len() && self.hubs@[i as int].addr == addr,
                None => !self.has_hub(addr),
            },
    {
        let mut i: usize = 0;
        while i < self.hubs.len()
            invariant
                i <= self.hubs@.len(),
                forall|j: int| 0 <= j < i ==> (#[trigger] self.hubs@[j]).addr != addr,
            decreases self.hubs@.len() - i,
        {
            if self.hubs[i].addr == addr {
                return Some(i);
            }
            i = i + 1;
        }
        None
    }

    pub fn find_hub_named(&self, project: u64, name: &String) -> (r: Option<usize>)
        ensures
            match r {
                Some(i) => i < self.hubs@.len() && self.hubs@[i as int].project == project
                    && self.hubs@[i as int].name@ == name@,
                None => !self.has_hub_named(project, name@),
            },
    {
        let mut i: usize = 0;
        while i < self.hubs.len()
            invariant
                i <= self.hubs@.len(),
                forall|j: int|
                    0 <= j < i ==> !((#[trigger] self.hubs@[j]).project == project
                        && self.hubs@[j].name@ == name@),
            decreases self.hubs@.len() - i,
        {
            if self.hubs[i].project == project && self.hubs[i].name == *name {
                return Some(i);
            }
            i = i + 1;
        }
        None
    }

    pub fn find_listing(&self, asset: u64, hub: u64) -> (r: Option<usize>)
        ensures
            match r {
                Some(i) => i < self.listings@.len() && self.listings@[i as int].asset == asset
                    && self.listings@[i as int].hub == hub,
                None => !self.has_listing(asset, hub),
            },
    {
        let mut i: usize = 0;
        while i < self.listings.len()
            invariant
                i <= self.listings@.len(),
                forall|j: int|
                    0 <= j < i ==> !((#[trigger] self.listings@[j]).asset == asset
                        && self.listings@[j].hub == hub),
            decreases self.listings@.len() - i,
        {
            if self.listings[i].asset == asset && self.listings[i].hub == hub {
                return Some(i);
            }
            i = i + 1;
        }
        None
    }

    // ---- Read-only views for callers and tests -------------------------

    /// The listing for `(asset, hub)`, if one is live.
    pub fn get_listing(&self, asset: u64, hub: u64) -> (r: Option<&Listing>)
        requires
            self.wf(),
        ensures
            match r {
                Some(l) => self.has_listing(asset, hub) && *l == self.spec_listing(asset, hub),
                None => !self.has_listing(asset, hub),
            },
    {
        match self.find_listing(asset, hub) {
            Some(i) => {
                proof {
                    let j = self.listing_idx(asset, hub);
                    assert(0 <= j < self.listings@.len() && self.listings@[j].asset == asset
                        && self.listings@[j].hub == hub);
                }
                Some(&self.listings[i])
            },
            None => None,
        }
    }

    /// The protocol configuration, if initialized.
    pub fn get_protocol_config(&self) -> (r: Option<&ProtocolConfig>)
        ensures
            match r {
                Some(c) => self.protocol == Some(*c),
                None => self.protocol is None,
            },
    {
        self.protocol.as_ref()
    }

    /// The project record at `addr`, if one exists.
    pub fn get_project(&self, addr: u64) -> (r: Option<&ProjectConfig>)
        requires
            self.wf(),
        ensures
            match r {
                Some(p) => self.has_project_addr(addr) && *p == self.spec_project(addr),
                None => !self.has_project_addr(addr),
            },
    {
        match self.find_project(addr) {
            Some(i) => {
                proof {
                    let j = self.project_idx(addr);
                    assert(0 <= j < self.projects@.len() && self.projects@[j].addr == addr);
                }
                Some(&self.projects[i])
            },
            None => None,
        }
    }

    /// The hub record with identity `(project, name)`, if one exists.
    pub fn get_trade_hub(&self, project: u64, name: &String) -> (r: Option<&TradeHub>)
        requires
            self.wf(),
        ensures
            match r {
                Some(h) => self.has_hub_named(project, name@) && h.project == project && h.name@
                    == name@ && self.has_hub(h.addr) && self.spec_hub(h.addr) == *h,
                None => !self.has_hub_named(project, name@),
            },
    {
        match self.find_hub_named(project, name) {
            Some(i) => {
                proof {
                    assert(self.has_hub_named(project, name@));
                    assert(self.has_hub(self.hubs@[i as int].addr));
                    let j = self.hub_idx(self.hubs@[i as int].addr);
                    assert(0 <= j < self.hubs@.len() && self.hubs@[j].addr == self.hubs@[
                        i as int].addr);
                    assert(j == i as int);
                }
                Some(&self.hubs[i])
            },
            None => None,
        }
    }

    /// The asset record at `addr`, if one exists.
    pub fn get_asset(&self, addr: u64) -> (r: Option<&AssetRecord>)
        requires
            self.wf(),
        ensures
            match r {
                Some(a) => self.assets.has_asset(addr) && *a == self.assets.spec_asset(addr),
                None => !self.assets.has_asset(addr),
            },
    {
        match self.assets.find_asset(addr) {
            Some(i) => {
                proof {
                    let j = self.assets.asset_idx(addr);
                    assert(0 <= j < self.assets.assets@.len() && self.assets.assets@[j].addr
                        == addr);
                }
                Some(&self.assets.assets[i])
            },
            None => None,
        }
    }

    /// The wallet balance of `addr`.
    pub fn balance_of(&self, addr: u64) -> (r: u64)
        requires
            self.wf(),
        ensures
            r == self.bank.spec_bal(addr),
    {
        self.bank.balance_of(addr)
    }
}

} // verus!
