//! Trade hubs and the listing/escrow engine: hub creation, asset
//! registration, listing, delisting, and purchase.

use crate::assets::{AssetRecord, Authority, AuthorityKind, FreezePlugin, Signer};
use crate::errors::{ErrorCode, MarketError, ProtocolError};
use crate::fees::{spec_fee_or_zero, Operation};
use crate::hub::{spec_hub_fee, TradeHub};
use crate::listing::Listing;
use crate::market::Market;
use crate::project::ProjectConfig;
use vstd::prelude::*;

verus! {

impl Market {
    // ---- mint_asset ----------------------------------------------------

    /// Registers a fresh asset for `owner` with the external registry: not
    /// frozen, optionally born with a transfer delegation (the registry
    /// lets an asset be created with delegation plugins in place). Returns
    /// the new asset's address. The minter-config flow that gates minting
    /// in the full system is outside this library's scope.
    pub fn mint_asset(
        &mut self,
        owner: u64,
        name: String,
        uri: String,
        transfer_delegate: Option<Authority>,
    ) -> (addr: u64)
        requires
            old(self).wf(),
            old(self).next_addr < u64::MAX,
        ensures
            final(self).wf(),
            addr == old(self).next_addr,
            final(self).assets.assets@ == old(self).assets.assets@.push(
                AssetRecord {
                    addr,
                    owner,
                    name,
                    uri,
                    transfer_delegate,
                    freeze: None,
                },
            ),
            final(self).assets.has_asset(addr),
            final(self).assets.spec_asset(addr) == (AssetRecord {
                addr,
                owner,
                name,
                uri,
                transfer_delegate,
                freeze: None,
            }),
            forall|b: u64|
                b != addr ==> final(self).assets.has_asset(b) == old(self).assets.has_asset(b),
            forall|b: u64|
                b != addr && old(self).assets.has_asset(b) ==> final(self).assets.spec_asset(b)
                    == old(self).assets.spec_asset(b),
            final(self).protocol == old(self).protocol,
            final(self).protocol_treasury == old(self).protocol_treasury,
            final(self).projects@ == old(self).projects@,
            final(self).hubs@ == old(self).hubs@,
            final(self).listings@ == old(self).listings@,
            forall|b: u64| final(self).bank.spec_bal(b) == old(self).bank.spec_bal(b),
            final(self).floor == old(self).floor,
            final(self).listing_rent == old(self).listing_rent,
            final(self).next_addr == old(self).next_addr + 1,
    {
        let addr = self.next_addr;
        self.next_addr = self.next_addr + 1;
        proof {
            let pre = *old(self);
            if pre.assets.has_asset(addr) {
                let i = pre.assets.asset_idx(addr);
                assert(pre.assets.assets@[i].addr == addr);
                assert(pre.assets.assets@[i].addr < pre.next_addr);
            }
        }
        self.assets.mint(addr, owner, name, uri, transfer_delegate);
        proof {
            let pre = *old(self);
            let post = *self;
            Self::lemma_project_lookups(pre, post);
            Self::lemma_hub_lookups(pre, post);
            Self::lemma_listing_lookups(pre, post);
            let n = pre.assets.assets@.len() as int;
            assert forall|i: int|
                0 <= i < post.listings@.len() implies post.listing_escrowed(
                #[trigger] post.listings@[i]) by {
                let l = pre.listings@[i];
                assert(pre.listing_escrowed(l));
                assert(l.asset != addr);
                assert(post.assets.spec_asset(l.asset) == pre.assets.spec_asset(l.asset));
            }
            assert forall|i: int|
                0 <= i < post.assets.assets@.len() implies (#[trigger] post.assets.assets@[i]).addr
                < post.next_addr by {
                if i < n {
                    assert(post.assets.assets@[i] == pre.assets.assets@[i]);
                }
            }
            assert forall|i: int| 0 <= i < n implies post.assets.assets@[i]
                == pre.assets.assets@[i] by {}
        }
        addr
    }

    // ---- create_trade_hub ----------------------------------------------

    /// The `CreateTradeHub` fee owed under the current schedule, or zero if
    /// the protocol is absent or the fee cannot be evaluated.
    pub open spec fn create_trade_hub_fee(self) -> u64 {
        match self.protocol {
            Some(c) => spec_fee_or_zero(c.spec_get_fee(Operation::CreateTradeHub), None),
            None => 0,
        }
    }

    /// Success condition and error of `create_trade_hub`.
    pub open spec fn create_trade_hub_chk(self, caller: u64, project: u64, name: Seq<char>)
        -> Result<(), MarketError> {
        match self.protocol {
            None => Err(MarketError::NotInitialized),
            Some(c) => if !self.has_project_addr(project) {
                Err(MarketError::NotInitialized)
            } else if !self.spec_project(project).spec_is_authorized(caller) {
                Err(MarketError::Core(ErrorCode::Unauthorized))
            } else if self.has_hub_named(project, name) {
                Err(MarketError::AlreadyInUse)
            } else {
                match c.spec_fee(Operation::CreateTradeHub, None) {
                    Err(e) => Err(MarketError::Protocol(e)),
                    Ok(fee) => if self.bank.spec_bal(caller) < fee {
                        Err(MarketError::Protocol(ProtocolError::InsufficientFunds))
                    } else {
                        Ok(())
                    },
                }
            },
        }
    }

    /// Creates a trade hub scoped to a project. The caller must be the
    /// project owner or an authorized operator, and pays the
    /// `CreateTradeHub` fee into the protocol treasury. Fails if a hub with
    /// the same `(project, name)` already exists. Returns the new record's
    /// address.
    pub fn create_trade_hub(&mut self, caller: u64, project: u64, name: String, fee_bps: u64) -> (r:
        Result<u64, MarketError>)
        requires
            old(self).wf(),
            old(self).protocol_treasury + old(self).create_trade_hub_fee() <= u64::MAX,
            old(self).next_addr < u64::MAX,
        ensures
            final(self).wf(),
            r is Ok <==> old(self).create_trade_hub_chk(caller, project, name@) is Ok,
            r matches Err(e) ==> *final(self) == *old(self) && Err::<(), MarketError>(e) == old(
                self,
            ).create_trade_hub_chk(caller, project, name@),
            r matches Ok(addr) ==> {
                &&& addr == old(self).next_addr
                &&& final(self).hubs@ == old(self).hubs@.push(
                    TradeHub { addr: old(self).next_addr, project, name, fee_bps },
                )
                &&& final(self).has_hub(addr)
                &&& final(self).spec_hub(addr) == final(self).hubs@.last()
                &&& final(self).has_hub_named(project, final(self).hubs@.last().name@)
                &&& final(self).protocol_treasury == old(self).protocol_treasury + old(
                    self,
                ).create_trade_hub_fee()
                &&& final(self).bank.spec_bal(caller) == old(self).bank.spec_bal(caller) - old(
                    self,
                ).create_trade_hub_fee()
                &&& forall|b: u64|
                    b != caller ==> final(self).bank.spec_bal(b) == old(self).bank.spec_bal(b)
                &&& final(self).protocol == old(self).protocol
                &&& final(self).projects@ == old(self).projects@
                &&& final(self).listings@ == old(self).listings@
                &&& final(self).assets.assets@ == old(self).assets.assets@
                &&& final(self).floor == old(self).floor
                &&& final(self).listing_rent == old(self).listing_rent
                &&& final(self).next_addr == old(self).next_addr + 1
            },
    {
        if self.protocol.is_none() {
            return Err(MarketError::NotInitialized);
        }
        let pi = match self.find_project(project) {
            None => { return Err(MarketError::NotInitialized) },
            Some(i) => i,
        };
        proof {
            let j = self.project_idx(project);
            assert(0 <= j < self.projects@.len() && self.projects@[j].addr == project);
            assert(j == pi as int);
        }
        if !self.projects[pi].check_authorities(caller) {
            return Err(MarketError::Core(ErrorCode::Unauthorized));
        }
        if self.find_hub_named(project, &name).is_some() {
            return Err(MarketError::AlreadyInUse);
        }
        match self.pay_protocol_fee(caller, Operation::CreateTradeHub, None) {
            Err(e) => { return Err(e) },
            Ok(_) => {},
        }
        let addr = self.next_addr;
        self.next_addr = self.next_addr + 1;
        self.hubs.push(TradeHub { addr, project, name, fee_bps });
        proof {
            let pre = *old(self);
            let post = *self;
            Self::lemma_project_lookups(pre, post);
            Self::lemma_listing_lookups(pre, post);
            Self::lemma_asset_lookups(pre, post);
            let n = pre.hubs@.len() as int;
            assert forall|i: int, j: int|
                0 <= i < j < post.hubs@.len() implies (#[trigger] post.hubs@[i]).addr != (
            #[trigger] post.hubs@[j]).addr by {
                if j == n {
                    assert(post.hubs@[i] == pre.hubs@[i]);
                    assert(pre.hubs@[i].addr < pre.next_addr);
                }
            }
            assert forall|i: int, j: int|
                0 <= i < j < post.hubs@.len() implies !((#[trigger] post.hubs@[i]).project == (
            #[trigger] post.hubs@[j]).project && post.hubs@[i].name@ == post.hubs@[j].name@) by {
                if j == n {
                    assert(post.hubs@[i] == pre.hubs@[i]);
                    if post.hubs@[i].project == project && post.hubs@[i].name@ == name@ {
                        assert(pre.has_hub_named(project, name@));
                    }
                }
            }
            assert forall|i: int|
                0 <= i < post.listings@.len() implies post.has_hub(
                (#[trigger] post.listings@[i]).hub) by {
                assert(pre.has_hub(pre.listings@[i].hub));
                let k = pre.hub_idx(pre.listings@[i].hub);
                assert(post.hubs@[k].addr == pre.listings@[i].hub);
            }
            assert(post.hubs@[n].addr == addr);
            assert(post.has_hub(addr));
            assert(post.hub_idx(addr) == n);
        }
        Ok(addr)
    }

    // ---- create_listing ------------------------------------------------

    /// Success condition and error of `create_listing`, in check order: the
    /// hub and the asset must exist; the asset must not already carry a
    /// freeze delegation (the double-listing guard); no listing may exist
    /// for `(asset, hub)`; an existing transfer delegation must be
    /// owner-held; the registry accepts the delegation calls only from the
    /// asset's owner; and the caller must afford the listing record's
    /// storage cost. The freeze guard comes first so that listing an
    /// already-escrowed asset always fails with the state-conflict error,
    /// whichever hub the second attempt names.
    pub open spec fn create_listing_chk(self, caller: u64, asset: u64, hub: u64) -> Result<
        (),
        MarketError,
    > {
        if !self.has_hub(hub) {
            Err(MarketError::NotInitialized)
        } else if !self.assets.has_asset(asset) {
            Err(MarketError::NotInitialized)
        } else if self.assets.spec_asset(asset).freeze is Some {
            Err(MarketError::Core(ErrorCode::AssetAlreadyFrozen))
        } else if self.has_listing(asset, hub) {
            Err(MarketError::AlreadyInUse)
        } else if self.assets.spec_asset(asset).transfer_delegate matches Some(
            Authority::Address(_),
        ) {
            Err(MarketError::Core(ErrorCode::AssetInvalidTransferAuthority))
        } else if caller != self.assets.spec_asset(asset).owner {
            Err(MarketError::Core(ErrorCode::Unauthorized))
        } else if self.bank.spec_bal(caller) < self.listing_rent {
            Err(MarketError::Protocol(ProtocolError::InsufficientFunds))
        } else {
            Ok(())
        }
    }

    /// What a successful `create_listing` did: the listing record exists,
    /// the asset is delegated to the hub and frozen, the caller paid the
    /// record's storage cost, and nothing else changed.
    pub open spec fn create_listing_post(
        pre: Market,
        post: Market,
        caller: u64,
        asset: u64,
        hub: u64,
        price: u64,
        now: i64,
    ) -> bool {
        &&& post.listings@ == pre.listings@.push(
            Listing { owner: caller, asset, price, created_at: now, hub, rent: pre.listing_rent },
        )
        &&& post.has_listing(asset, hub)
        &&& post.spec_listing(asset, hub) == post.listings@.last()
        &&& post.assets.spec_asset(asset) == (AssetRecord {
            transfer_delegate: Some(Authority::Address(hub)),
            freeze: Some(FreezePlugin { authority: Authority::Address(hub), frozen: true }),
            ..pre.assets.spec_asset(asset)
        })
        &&& forall|b: u64| post.assets.has_asset(b) == pre.assets.has_asset(b)
        &&& forall|b: u64|
            b != asset && pre.assets.has_asset(b) ==> post.assets.spec_asset(b)
                == pre.assets.spec_asset(b)
        &&& post.bank.spec_bal(caller) == pre.bank.spec_bal(caller) - pre.listing_rent
        &&& forall|b: u64| b != caller ==> post.bank.spec_bal(b) == pre.bank.spec_bal(b)
        &&& post.protocol == pre.protocol
        &&& post.protocol_treasury == pre.protocol_treasury
        &&& post.projects@ == pre.projects@
        &&& post.hubs@ == pre.hubs@
        &&& post.floor == pre.floor
        &&& post.listing_rent == pre.listing_rent
        &&& post.next_addr == pre.next_addr
    }

    /// Lists an asset on a hub: creates the listing record (its storage
    /// cost paid by the caller), delegates the transfer capability to the
    /// hub, adds a freeze delegation held by the hub, and freezes the
    /// asset — all atomically.
    pub fn create_listing(&mut self, caller: u64, asset: u64, hub: u64, price: u64, now: i64) -> (r:
        Result<(), MarketError>)
        requires
            old(self).wf(),
        ensures
            final(self).wf(),
            r == old(self).create_listing_chk(caller, asset, hub),
            r matches Err(_) ==> *final(self) == *old(self),
            r is Ok ==> Self::create_listing_post(
                *old(self),
                *final(self),
                caller,
                asset,
                hub,
                price,
                now,
            ),
    {
        if self.find_hub(hub).is_none() {
            return Err(MarketError::NotInitialized);
        }
        let ai = match self.assets.find_asset(asset) {
            None => { return Err(MarketError::NotInitialized) },
            Some(i) => i,
        };
        proof {
            let j = self.assets.asset_idx(asset);
            assert(0 <= j < self.assets.assets@.len() && self.assets.assets@[j].addr == asset);
            assert(j == ai as int);
        }
        if self.assets.assets[ai].freeze.is_some() {
            return Err(MarketError::Core(ErrorCode::AssetAlreadyFrozen));
        }
        if self.find_listing(asset, hub).is_some() {
            return Err(MarketError::AlreadyInUse);
        }
        let owner_held = match &self.assets.assets[ai].transfer_delegate {
            Some(Authority::Address(_)) => {
                return Err(MarketError::Core(ErrorCode::AssetInvalidTransferAuthority));
            },
            Some(Authority::OwnerHeld) => true,
            None => false,
        };
        if caller != self.assets.assets[ai].owner {
            return Err(MarketError::Core(ErrorCode::Unauthorized));
        }
        let rent = self.listing_rent;
        if self.bank.balance_of(caller) < rent {
            return Err(MarketError::Protocol(ProtocolError::InsufficientFunds));
        }
        if owner_held {
            self.assets.approve_authority(
                asset,
                AuthorityKind::Transfer,
                Authority::Address(hub),
                Signer::Wallet(caller),
            );
        } else {
            self.assets.add_authority(
                asset,
                AuthorityKind::Transfer,
                Authority::Address(hub),
                Signer::Wallet(caller),
            );
        }
        self.assets.add_authority(
            asset,
            AuthorityKind::Freeze,
            Authority::Address(hub),
            Signer::Wallet(caller),
        );
        self.assets.set_frozen(asset, true, Signer::Hub(hub));
        self.bank.debit(caller, rent);
        self.listings.push(
            Listing { owner: caller, asset, price, created_at: now, hub, rent },
        );
        proof {
            let pre = *old(self);
            let post = *self;
            Self::lemma_project_lookups(pre, post);
            Self::lemma_hub_lookups(pre, post);
            let n = pre.listings@.len() as int;
            // The listing table gained exactly the new listing.
            assert(post.listings@[n].asset == asset && post.listings@[n].hub == hub);
            assert forall|a: u64, h: u64|
                pre.has_listing(a, h) implies post.has_listing(a, h) by {
                let i = pre.listing_idx(a, h);
                assert(post.listings@[i].asset == a && post.listings@[i].hub == h);
            }
            // Uniqueness of listings.
            assert forall|i: int, j: int|
                0 <= i < j < post.listings@.len() implies !((#[trigger] post.listings@[i]).asset
                == (#[trigger] post.listings@[j]).asset && post.listings@[i].hub
                == post.listings@[j].hub) by {
                if j == n {
                    assert(post.listings@[i] == pre.listings@[i]);
                    if post.listings@[i].asset == asset && post.listings@[i].hub == hub {
                        assert(pre.has_listing(asset, hub));
                    }
                }
            }
            // Every listing's hub still exists.
            assert forall|i: int|
                0 <= i < post.listings@.len() implies post.has_hub(
                (#[trigger] post.listings@[i]).hub) by {
                if i < n {
                    assert(pre.has_hub(pre.listings@[i].hub));
                } else {
                    assert(pre.has_hub(hub));
                }
            }
            assert(post.has_listing(asset, hub));
            assert(post.listing_idx(asset, hub) == n);
            // No other listing concerns this asset: the asset was not
            // frozen before, but a listed asset is frozen.
            assert forall|i: int| 0 <= i < n implies (#[trigger] pre.listings@[i]).asset
                != asset by {
                assert(pre.listing_escrowed(pre.listings@[i]));
            }
            // Escrow facts hold for every listing.
            assert forall|i: int|
                0 <= i < post.listings@.len() implies post.listing_escrowed(
                #[trigger] post.listings@[i]) by {
                if i < n {
                    let l = pre.listings@[i];
                    assert(pre.listing_escrowed(l));
                    assert(l.asset != asset);
                    assert(post.assets.spec_asset(l.asset) == pre.assets.spec_asset(l.asset));
                } else {
                    assert(post.assets.spec_asset(asset).owner == caller);
                }
            }
            // The asset-side clauses.
            assert forall|i: int|
                0 <= i < post.assets.assets@.len() implies match (
            #[trigger] post.assets.assets@[i]).freeze {
                Some(fp) => fp.frozen ==> match fp.authority {
                    Authority::Address(h) => post.has_listing(post.assets.assets@[i].addr, h),
                    Authority::OwnerHeld => false,
                },
                None => true,
            } by {
                let b = post.assets.assets@[i].addr;
                assert(post.assets.has_asset(b));
                assert(post.assets.asset_idx(b) == i);
                assert(post.assets.spec_asset(b) == post.assets.assets@[i]);
                if b == asset {
                    assert(post.has_listing(asset, hub));
                } else {
                    assert(pre.assets.has_asset(b));
                    let k = pre.assets.asset_idx(b);
                    assert(pre.assets.assets@[k] == post.assets.assets@[i]);
                    match pre.assets.assets@[k].freeze {
                        Some(fp) => {
                            if fp.frozen {
                                match fp.authority {
                                    Authority::Address(h) => {
                                        assert(pre.has_listing(b, h));
                                        assert(post.has_listing(b, h));
                                    },
                                    Authority::OwnerHeld => {},
                                }
                            }
                        },
                        None => {},
                    }
                }
            }
            // Asset addresses still below the counter.
            assert forall|i: int|
                0 <= i < post.assets.assets@.len() implies (#[trigger] post.assets.assets@[i]).addr
                < post.next_addr by {
                let b = post.assets.assets@[i].addr;
                assert(post.assets.has_asset(b));
                assert(pre.assets.has_asset(b));
                let k = pre.assets.asset_idx(b);
                assert(pre.assets.assets@[k].addr == b);
                assert(pre.assets.assets@[k].addr < pre.next_addr);
            }
        }
        Ok(())
    }

    // ---- delist_asset --------------------------------------------------

    /// Success condition and error of `delist_asset`: a live listing must
    /// exist for `(asset, hub)` and the caller must be its owner.
    pub open spec fn delist_chk(self, caller: u64, asset: u64, hub: u64) -> Result<
        (),
        MarketError,
    > {
        if !self.has_listing(asset, hub) {
            Err(MarketError::NotInitialized)
        } else if self.spec_listing(asset, hub).owner != caller {
            Err(MarketError::Core(ErrorCode::NotAssetOwner))
        } else {
            Ok(())
        }
    }

    /// What a successful `delist_asset` did: the listing record is gone,
    /// the asset is unfrozen with both delegations removed, the owner got
    /// the storage cost back, and nothing else changed.
    pub open spec fn delist_post(
        pre: Market,
        post: Market,
        caller: u64,
        asset: u64,
        hub: u64,
    ) -> bool {
        &&& post.listings@ == pre.listings@.remove(pre.listing_idx(asset, hub))
        &&& !post.has_listing(asset, hub)
        &&& post.assets.spec_asset(asset) == (AssetRecord {
            transfer_delegate: None,
            freeze: None,
            ..pre.assets.spec_asset(asset)
        })
        &&& forall|b: u64| post.assets.has_asset(b) == pre.assets.has_asset(b)
        &&& forall|b: u64|
            b != asset && pre.assets.has_asset(b) ==> post.assets.spec_asset(b)
                == pre.assets.spec_asset(b)
        &&& post.bank.spec_bal(caller) == pre.bank.spec_bal(caller) + pre.spec_listing(
            asset,
            hub,
        ).rent
        &&& forall|b: u64| b != caller ==> post.bank.spec_bal(b) == pre.bank.spec_bal(b)
        &&& post.protocol == pre.protocol
        &&& post.protocol_treasury == pre.protocol_treasury
        &&& post.projects@ == pre.projects@
        &&& post.hubs@ == pre.hubs@
        &&& post.floor == pre.floor
        &&& post.listing_rent == pre.listing_rent
        &&& post.next_addr == pre.next_addr
    }

    /// Delists an asset: unfreezes it (the hub holds the freeze
    /// capability), removes the freeze and transfer delegations (control
    /// reverts to the owner), and destroys the listing record, refunding
    /// its storage cost to the owner — all atomically.
    pub fn delist_asset(&mut self, caller: u64, asset: u64, hub: u64) -> (r: Result<
        (),
        MarketError,
    >)
        requires
            old(self).wf(),
            old(self).has_listing(asset, hub) ==> old(self).bank.spec_bal(caller) + old(
                self,
            ).spec_listing(asset, hub).rent <= u64::MAX,
        ensures
            final(self).wf(),
            r == old(self).delist_chk(caller, asset, hub),
            r matches Err(_) ==> *final(self) == *old(self),
            r is Ok ==> Self::delist_post(*old(self), *final(self), caller, asset, hub),
    {
        let li = match self.find_listing(asset, hub) {
            None => { return Err(MarketError::NotInitialized) },
            Some(i) => i,
        };
        proof {
            let j = self.listing_idx(asset, hub);
            assert(0 <= j < self.listings@.len() && self.listings@[j].asset == asset
                && self.listings@[j].hub == hub);
            assert(j == li as int);
            assert(self.listing_escrowed(self.listings@[li as int]));
        }
        if self.listings[li].owner != caller {
            return Err(MarketError::Core(ErrorCode::NotAssetOwner));
        }
        let rent = self.listings[li].rent;
        self.assets.set_frozen(asset, false, Signer::Hub(hub));
        self.assets.remove_authority(asset, AuthorityKind::Freeze, Signer::Wallet(caller));
        self.assets.remove_authority(asset, AuthorityKind::Transfer, Signer::Wallet(caller));
        self.listings.remove(li);
        self.bank.credit(caller, rent);
        proof {
            let pre = *old(self);
            let post = *self;
            Self::lemma_project_lookups(pre, post);
            Self::lemma_hub_lookups(pre, post);
            let n = pre.listings@.len() as int;
            let lix = li as int;
            // Index mapping across the removal.
            assert forall|i: int|
                0 <= i < post.listings@.len() implies #[trigger] post.listings@[i] == (if i < lix {
                pre.listings@[i]
            } else {
                pre.listings@[i + 1]
            }) by {}
            // A surviving pre-listing survives at a shifted index.
            assert forall|a: u64, h: u64|
                pre.has_listing(a, h) && !(a == asset && h == hub) implies post.has_listing(
                a,
                h,
            ) by {
                let k = pre.listing_idx(a, h);
                assert(pre.listings@[k].asset == a && pre.listings@[k].hub == h);
                assert(k != lix);
                if k < lix {
                    assert(post.listings@[k].asset == a && post.listings@[k].hub == h);
                } else {
                    assert(post.listings@[k - 1].asset == a && post.listings@[k - 1].hub == h);
                }
            }
            // No other pre-listing concerns this asset: the freeze
            // delegation names exactly one hub.
            assert forall|i: int|
                0 <= i < n && i != lix implies (#[trigger] pre.listings@[i]).asset != asset by {
                assert(pre.listing_escrowed(pre.listings@[i]));
                if pre.listings@[i].asset == asset {
                    assert(pre.listings@[i].hub == hub);
                }
            }
            // Uniqueness of the remaining listings.
            assert forall|i: int, j: int|
                0 <= i < j < post.listings@.len() implies !((#[trigger] post.listings@[i]).asset
                == (#[trigger] post.listings@[j]).asset && post.listings@[i].hub
                == post.listings@[j].hub) by {
                let i0 = if i < lix {
                    i
                } else {
                    i + 1
                };
                let j0 = if j < lix {
                    j
                } else {
                    j + 1
                };
                assert(post.listings@[i] == pre.listings@[i0]);
                assert(post.listings@[j] == pre.listings@[j0]);
            }
            // Hubs of remaining listings exist; escrow facts preserved.
            assert forall|i: int|
                0 <= i < post.listings@.len() implies post.has_hub(
                (#[trigger] post.listings@[i]).hub) && post.listing_escrowed(post.listings@[i]) by {
                let i0 = if i < lix {
                    i
                } else {
                    i + 1
                };
                let l = pre.listings@[i0];
                assert(post.listings@[i] == l);
                assert(pre.has_hub(l.hub));
                assert(pre.listing_escrowed(l));
                assert(l.asset != asset);
                assert(post.assets.spec_asset(l.asset) == pre.assets.spec_asset(l.asset));
            }
            // Asset-side clauses.
            assert forall|i: int|
                0 <= i < post.assets.assets@.len() implies match (
            #[trigger] post.assets.assets@[i]).freeze {
                Some(fp) => fp.frozen ==> match fp.authority {
                    Authority::Address(h) => post.has_listing(post.assets.assets@[i].addr, h),
                    Authority::OwnerHeld => false,
                },
                None => true,
            } by {
                let b = post.assets.assets@[i].addr;
                assert(post.assets.has_asset(b));
                assert(post.assets.asset_idx(b) == i);
                assert(post.assets.spec_asset(b) == post.assets.assets@[i]);
                if b != asset {
                    assert(pre.assets.has_asset(b));
                    let k = pre.assets.asset_idx(b);
                    assert(pre.assets.assets@[k] == post.assets.assets@[i]);
                    match pre.assets.assets@[k].freeze {
                        Some(fp) => {
                            if fp.frozen {
                                match fp.authority {
                                    Authority::Address(h) => {
                                        assert(pre.has_listing(b, h));
                                        assert(post.has_listing(b, h));
                                    },
                                    Authority::OwnerHeld => {},
                                }
                            }
                        },
                        None => {},
                    }
                }
            }
            assert forall|i: int|
                0 <= i < post.assets.assets@.len() implies (#[trigger] post.assets.assets@[i]).addr
                < post.next_addr by {
                let b = post.assets.assets@[i].addr;
                assert(post.assets.has_asset(b));
                assert(pre.assets.has_asset(b));
                let k = pre.assets.asset_idx(b);
                assert(pre.assets.assets@[k].addr == b);
                assert(pre.assets.assets@[k].addr < pre.next_addr);
            }
            assert(!post.has_listing(asset, hub)) by {
                if post.has_listing(asset, hub) {
                    let i = post.listing_idx(asset, hub);
                    let i0 = if i < lix {
                        i
                    } else {
                        i + 1
                    };
                    assert(post.listings@[i] == pre.listings@[i0]);
                    assert(pre.listings@[i0].asset == asset && pre.listings@[i0].hub == hub);
                    assert(i0 != lix);
                    assert(pre.listings@[lix].asset == asset && pre.listings@[lix].hub == hub);
                }
            }
        }
        Ok(())
    }

    // ---- purchase_asset ------------------------------------------------

    /// The protocol's cut of the sale of `(asset, hub)` under the current
    /// schedule, or zero where it cannot be evaluated.
    pub open spec fn purchase_protocol_fee(self, asset: u64, hub: u64) -> u64 {
        match self.protocol {
            Some(c) => spec_fee_or_zero(
                c.spec_get_fee(Operation::TradeNFT),
                Some(self.spec_listing(asset, hub).price),
            ),
            None => 0,
        }
    }

    /// The hub's cut of the sale of `(asset, hub)`, or zero where it cannot
    /// be evaluated.
    pub open spec fn purchase_hub_fee(self, asset: u64, hub: u64) -> u64 {
        match spec_hub_fee(self.spec_hub(hub).fee_bps, self.spec_listing(asset, hub).price) {
            Ok(v) => v,
            Err(_) => 0,
        }
    }

    /// What the seller receives of the price: the price minus both fees.
    pub open spec fn purchase_seller_amount(self, asset: u64, hub: u64) -> u64 {
        (self.spec_listing(asset, hub).price - self.purchase_protocol_fee(asset, hub)
            - self.purchase_hub_fee(asset, hub)) as u64
    }

    /// Success condition and error of `purchase_asset`: the hub and a live
    /// listing must exist; both fees must evaluate; the fees must not
    /// exceed the price (defensive re-validation of the configuration);
    /// and the buyer must afford the price.
    pub open spec fn purchase_chk(self, buyer: u64, asset: u64, hub: u64) -> Result<
        (),
        MarketError,
    > {
        if !self.has_hub(hub) {
            Err(MarketError::NotInitialized)
        } else if !self.has_listing(asset, hub) {
            Err(MarketError::NotInitialized)
        } else {
            match self.protocol {
                None => Err(MarketError::NotInitialized),
                Some(c) => {
                    let price = self.spec_listing(asset, hub).price;
                    match c.spec_fee(Operation::TradeNFT, Some(price)) {
                        Err(e) => Err(MarketError::Protocol(e)),
                        Ok(pf) => match spec_hub_fee(self.spec_hub(hub).fee_bps, price) {
                            Err(e) => Err(MarketError::Core(e)),
                            Ok(hf) => if pf + hf > price {
                                Err(MarketError::Core(ErrorCode::FeeCalculationOverflow))
                            } else if self.bank.spec_bal(buyer) < price {
                                Err(MarketError::Protocol(ProtocolError::InsufficientFunds))
                            } else {
                                Ok(())
                            },
                        },
                    }
                },
            }
        }
    }

    /// The machine limits a successful purchase must fit in: no credited
    /// balance may overflow a `u64`.
    pub open spec fn purchase_fits(self, buyer: u64, asset: u64, hub: u64) -> bool {
        self.purchase_chk(buyer, asset, hub) is Ok ==> {
            &&& self.protocol_treasury + self.purchase_protocol_fee(asset, hub) <= u64::MAX
            &&& self.spec_project(self.spec_hub(hub).project).treasury + self.purchase_hub_fee(
                asset,
                hub,
            ) <= u64::MAX
            &&& self.bank.spec_bal(self.spec_listing(asset, hub).owner) + self.spec_listing(
                asset,
                hub,
            ).price + self.spec_listing(asset, hub).rent <= u64::MAX
        }
    }

    /// What a successful `purchase_asset` did: the listing record is gone;
    /// the asset belongs to the buyer, unfrozen, with the transfer
    /// delegation cleared; the price was split exactly into the protocol
    /// fee, the hub fee, and the seller's amount; the seller also got the
    /// record's storage cost back; and nothing else changed.
    pub open spec fn purchase_post(
        pre: Market,
        post: Market,
        buyer: u64,
        asset: u64,
        hub: u64,
    ) -> bool {
        let l = pre.spec_listing(asset, hub);
        let pf = pre.purchase_protocol_fee(asset, hub);
        let hf = pre.purchase_hub_fee(asset, hub);
        let sa = pre.purchase_seller_amount(asset, hub);
        let proj = pre.spec_hub(hub).project;
        &&& pf + hf + sa == l.price
        &&& post.listings@ == pre.listings@.remove(pre.listing_idx(asset, hub))
        &&& !post.has_listing(asset, hub)
        &&& post.assets.spec_asset(asset) == (AssetRecord {
            owner: buyer,
            transfer_delegate: None,
            freeze: Some(FreezePlugin { authority: Authority::Address(hub), frozen: false }),
            ..pre.assets.spec_asset(asset)
        })
        &&& forall|b: u64| post.assets.has_asset(b) == pre.assets.has_asset(b)
        &&& forall|b: u64|
            b != asset && pre.assets.has_asset(b) ==> post.assets.spec_asset(b)
                == pre.assets.spec_asset(b)
        &&& post.protocol_treasury == pre.protocol_treasury + pf
        &&& post.projects@ == pre.projects@.update(
            pre.project_idx(proj),
            ProjectConfig {
                treasury: (pre.spec_project(proj).treasury + hf) as u64,
                ..pre.spec_project(proj)
            },
        )
        &&& l.owner != buyer ==> post.bank.spec_bal(buyer) == pre.bank.spec_bal(buyer) - l.price
            && post.bank.spec_bal(l.owner) == pre.bank.spec_bal(l.owner) + sa + l.rent
        &&& l.owner == buyer ==> post.bank.spec_bal(buyer) == pre.bank.spec_bal(buyer) - l.price
            + sa + l.rent
        &&& forall|b: u64|
            b != buyer && b != l.owner ==> post.bank.spec_bal(b) == pre.bank.spec_bal(b)
        &&& post.protocol == pre.protocol
        &&& post.hubs@ == pre.hubs@
        &&& post.floor == pre.floor
        &&& post.listing_rent == pre.listing_rent
        &&& post.next_addr == pre.next_addr
    }

    /// Purchases a listed asset. The buyer is charged exactly the listing
    /// price, split into the protocol fee (to the protocol treasury), the
    /// hub fee (to the project treasury), and the remainder to the seller;
    /// the asset is unfrozen and transferred to the buyer, clearing the
    /// transfer delegation; and the listing record is destroyed, refunding
    /// its storage cost to the seller — all atomically.
    pub fn purchase_asset(&mut self, buyer: u64, asset: u64, hub: u64) -> (r: Result<
        (),
        MarketError,
    >)
        requires
            old(self).wf(),
            old(self).purchase_fits(buyer, asset, hub),
        ensures
            final(self).wf(),
            r == old(self).purchase_chk(buyer, asset, hub),
            r matches Err(_) ==> *final(self) == *old(self),
            r is Ok ==> Self::purchase_post(*old(self), *final(self), buyer, asset, hub),
    {
        let hi = match self.find_hub(hub) {
            None => { return Err(MarketError::NotInitialized) },
            Some(i) => i,
        };
        proof {
            let j = self.hub_idx(hub);
            assert(0 <= j < self.hubs@.len() && self.hubs@[j].addr == hub);
            assert(j == hi as int);
        }
        let li = match self.find_listing(asset, hub) {
            None => { return Err(MarketError::NotInitialized) },
            Some(i) => i,
        };
        proof {
            let j = self.listing_idx(asset, hub);
            assert(0 <= j < self.listings@.len() && self.listings@[j].asset == asset
                && self.listings@[j].hub == hub);
            assert(j == li as int);
            assert(self.listing_escrowed(self.listings@[li as int]));
        }
        if self.protocol.is_none() {
            return Err(MarketError::NotInitialized);
        }
        let price = self.listings[li].price;
        let rent = self.listings[li].rent;
        let seller = self.listings[li].owner;
        let pf_res = match &self.protocol {
            Some(c) => c.calculate_fee_amount(Operation::TradeNFT, Some(price)),
            None => {
                proof {
                    assert(false);
                }
                Err(ProtocolError::FeeCalculationOverflow)
            },
        };
        let pf = match pf_res {
            Err(e) => { return Err(MarketError::Protocol(e)) },
            Ok(v) => v,
        };
        let hf = match self.hubs[hi].calculate_fee_amount(price) {
            Err(e) => { return Err(MarketError::Core(e)) },
            Ok(v) => v,
        };
        if pf > price || hf > price - pf {
            return Err(MarketError::Core(ErrorCode::FeeCalculationOverflow));
        }
        let sa = price - pf - hf;
        if self.bank.balance_of(buyer) < price {
            return Err(MarketError::Protocol(ProtocolError::InsufficientFunds));
        }
        proof {
            assert(old(self).purchase_chk(buyer, asset, hub) is Ok);
            assert(old(self).purchase_protocol_fee(asset, hub) == pf);
            assert(old(self).purchase_hub_fee(asset, hub) == hf);
            assert(old(self).purchase_seller_amount(asset, hub) == sa);
        }
        let project_addr = self.hubs[hi].project;
        proof {
            assert(self.has_project_addr(project_addr));
        }
        let pi = match self.find_project(project_addr) {
            Some(i) => i,
            None => {
                proof {
                    assert(false);
                }
                return Err(MarketError::NotInitialized);
            },
        };
        proof {
            let j = self.project_idx(project_addr);
            assert(0 <= j < self.projects@.len() && self.projects@[j].addr == project_addr);
            assert(j == pi as int);
        }
        self.assets.set_frozen(asset, false, Signer::Hub(hub));
        self.assets.transfer(asset, buyer, Signer::Hub(hub));
        self.bank.debit(buyer, price);
        self.protocol_treasury = self.protocol_treasury + pf;
        let rec = self.projects.remove(pi);
        let new_treasury = rec.treasury + hf;
        let rec2 = ProjectConfig { treasury: new_treasury, ..rec };
        self.projects.insert(pi, rec2);
        self.bank.credit(seller, sa);
        self.bank.credit(seller, rent);
        self.listings.remove(li);
        proof {
            let pre = *old(self);
            let post = *self;
            Self::lemma_hub_lookups(pre, post);
            assert(post.projects@ =~= pre.projects@.update(
                pi as int,
                ProjectConfig {
                    treasury: (pre.spec_project(project_addr).treasury + hf) as u64,
                    ..pre.spec_project(project_addr)
                },
            ));
            // Project lookups survive the in-place treasury update.
            assert forall|a: u64| pre.has_project_addr(a) implies post.has_project_addr(a) by {
                let i = pre.project_idx(a);
                assert(post.projects@[i].addr == a);
            }
            let n = pre.listings@.len() as int;
            let lix = li as int;
            assert forall|i: int|
                0 <= i < post.listings@.len() implies #[trigger] post.listings@[i] == (if i < lix {
                pre.listings@[i]
            } else {
                pre.listings@[i + 1]
            }) by {}
            assert forall|a: u64, h: u64|
                pre.has_listing(a, h) && !(a == asset && h == hub) implies post.has_listing(
                a,
                h,
            ) by {
                let k = pre.listing_idx(a, h);
                assert(pre.listings@[k].asset == a && pre.listings@[k].hub == h);
                assert(k != lix);
                if k < lix {
                    assert(post.listings@[k].asset == a && post.listings@[k].hub == h);
                } else {
                    assert(post.listings@[k - 1].asset == a && post.listings@[k - 1].hub == h);
                }
            }
            assert forall|i: int|
                0 <= i < n && i != lix implies (#[trigger] pre.listings@[i]).asset != asset by {
                assert(pre.listing_escrowed(pre.listings@[i]));
                if pre.listings@[i].asset == asset {
                    assert(pre.listings@[i].hub == hub);
                }
            }
            assert forall|i: int, j: int|
                0 <= i < j < post.listings@.len() implies !((#[trigger] post.listings@[i]).asset
                == (#[trigger] post.listings@[j]).asset && post.listings@[i].hub
                == post.listings@[j].hub) by {
                let i0 = if i < lix {
                    i
                } else {
                    i + 1
                };
                let j0 = if j < lix {
                    j
                } else {
                    j + 1
                };
                assert(post.listings@[i] == pre.listings@[i0]);
                assert(post.listings@[j] == pre.listings@[j0]);
            }
            assert forall|i: int|
                0 <= i < post.listings@.len() implies post.has_hub(
                (#[trigger] post.listings@[i]).hub) && post.listing_escrowed(post.listings@[i]) by {
                let i0 = if i < lix {
                    i
                } else {
                    i + 1
                };
                let l = pre.listings@[i0];
                assert(post.listings@[i] == l);
                assert(pre.has_hub(l.hub));
                assert(pre.listing_escrowed(l));
                assert(l.asset != asset);
                assert(post.assets.spec_asset(l.asset) == pre.assets.spec_asset(l.asset));
            }
            assert forall|i: int|
                0 <= i < post.assets.assets@.len() implies match (
            #[trigger] post.assets.assets@[i]).freeze {
                Some(fp) => fp.frozen ==> match fp.authority {
                    Authority::Address(h) => post.has_listing(post.assets.assets@[i].addr, h),
                    Authority::OwnerHeld => false,
                },
                None => true,
            } by {
                let b = post.assets.assets@[i].addr;
                assert(post.assets.has_asset(b));
                assert(post.assets.asset_idx(b) == i);
                assert(post.assets.spec_asset(b) == post.assets.assets@[i]);
                if b != asset {
                    assert(pre.assets.has_asset(b));
                    let k = pre.assets.asset_idx(b);
                    assert(pre.assets.assets@[k] == post.assets.assets@[i]);
                    match pre.assets.assets@[k].freeze {
                        Some(fp) => {
                            if fp.frozen {
                                match fp.authority {
                                    Authority::Address(h) => {
                                        assert(pre.has_listing(b, h));
                                        assert(post.has_listing(b, h));
                                    },
                                    Authority::OwnerHeld => {},
                                }
                            }
                        },
                        None => {},
                    }
                }
            }
            assert forall|i: int|
                0 <= i < post.assets.assets@.len() implies (#[trigger] post.assets.assets@[i]).addr
                < post.next_addr by {
                let b = post.assets.assets@[i].addr;
                assert(post.assets.has_asset(b));
                assert(pre.assets.has_asset(b));
                let k = pre.assets.asset_idx(b);
                assert(pre.assets.assets@[k].addr == b);
                assert(pre.assets.assets@[k].addr < pre.next_addr);
            }
            assert(!post.has_listing(asset, hub)) by {
                if post.has_listing(asset, hub) {
                    let i = post.listing_idx(asset, hub);
                    let i0 = if i < lix {
                        i
                    } else {
                        i + 1
                    };
                    assert(post.listings@[i] == pre.listings@[i0]);
                    assert(pre.listings@[i0].asset == asset && pre.listings@[i0].hub == hub);
                    assert(i0 != lix);
                    assert(pre.listings@[lix].asset == asset && pre.listings@[lix].hub == hub);
                }
            }
        }
        Ok(())
    }
}

} // verus!
