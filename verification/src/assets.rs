//! A model of the external asset registry at its interface boundary.
//!
//! The registry owns digital-asset records and enforces, on every mutating
//! call, that the signer matches the currently-recorded authority for the
//! touched capability. The engine relies on that enforcement for its safety
//! argument; here it appears as `requires` clauses on the mutating calls,
//! so the engine must prove each call authorized.

use vstd::prelude::*;

verus! {

/// Who may exercise a delegated capability on an asset.
#[derive(Clone, Copy, Debug, PartialEq, Eq, Structural)]
pub enum Authority {
    /// The asset's current owner holds the capability.
    OwnerHeld,
    /// A derived record (a trade hub) holds the capability. Derived records
    /// have no signing key, so only the engine's own logic can act for them.
    Address(u64),
}

/// The two delegable capabilities.
#[derive(Clone, Copy, Debug, PartialEq, Eq, Structural)]
pub enum AuthorityKind {
    Transfer,
    Freeze,
}

/// Who signs a registry call: a key-held wallet, or the engine acting for
/// a derived record.
#[derive(Clone, Copy, Debug, PartialEq, Eq, Structural)]
pub enum Signer {
    Wallet(u64),
    Hub(u64),
}

/// The freeze capability as recorded on an asset: its authority and
/// whether the asset is currently frozen.
#[derive(Clone, Copy, Debug, PartialEq, Eq, Structural)]
pub struct FreezePlugin {
    pub authority: Authority,
    pub frozen: bool,
}

/// One asset record.
pub struct AssetRecord {
    pub addr: u64,
    pub owner: u64,
    pub name: String,
    pub uri: String,
    /// The transfer capability, if delegated.
    pub transfer_delegate: Option<Authority>,
    /// The freeze capability, if delegated.
    pub freeze: Option<FreezePlugin>,
}

/// Whether `signer` satisfies `authority` on an asset owned by `owner`.
pub open spec fn authority_allows(authority: Authority, owner: u64, signer: Signer) -> bool {
    match authority {
        Authority::OwnerHeld => signer == Signer::Wallet(owner),
        Authority::Address(a) => signer == Signer::Hub(a),
    }
}

/// The asset registry: all asset records, keyed by address.
pub struct AssetLedger {
    pub assets: Vec<AssetRecord>,
}

impl AssetLedger {
    /// Addresses are unique, so each asset has one well-defined record.
    pub open spec fn wf(self) -> bool {
        forall|i: int, j: int|
            0 <= i < j < self.assets@.len() ==> (#[trigger] self.assets@[i]).addr != (
            #[trigger] self.assets@[j]).addr
    }

    pub open spec fn has_asset(self, addr: u64) -> bool {
        exists|i: int| 0 <= i < self.assets@.len() && (#[trigger] self.assets@[i]).addr == addr
    }

    pub open spec fn asset_idx(self, addr: u64) -> int {
        choose|i: int| 0 <= i < self.assets@.len() && (#[trigger] self.assets@[i]).addr == addr
    }

    /// The record of asset `addr`; meaningful only when `has_asset(addr)`.
    pub open spec fn spec_asset(self, addr: u64) -> AssetRecord {
        self.assets@[self.asset_idx(addr)]
    }

    /// The effective transfer authority of an asset: its transfer
    /// delegation if one exists, and otherwise the owner.
    pub open spec fn spec_transfer_authority(self, addr: u64) -> Authority {
        match self.spec_asset(addr).transfer_delegate {
            Some(a) => a,
            None => Authority::OwnerHeld,
        }
    }

    /// Whether the asset is currently frozen.
    pub open spec fn spec_frozen(self, addr: u64) -> bool {
        match self.spec_asset(addr).freeze {
            Some(fp) => fp.frozen,
            None => false,
        }
    }

    pub fn new() -> (r: AssetLedger)
        ensures
            r.wf(),
            r.assets@.len() == 0,
            forall|a: u64| !r.has_asset(a),
    {
        AssetLedger { assets: Vec::new() }
    }

    /// An update at one index, keeping the address, changes no lookup but
    /// the record at that address.
    pub proof fn lemma_update_at(pre: AssetLedger, post: AssetLedger, i: int, rec: AssetRecord)
        requires
            pre.wf(),
            0 <= i < pre.assets@.len(),
            rec.addr == pre.assets@[i].addr,
            post.assets@ == pre.assets@.update(i, rec),
        ensures
            post.wf(),
            forall|b: u64| post.has_asset(b) == pre.has_asset(b),
            forall|b: u64|
                b != rec.addr && pre.has_asset(b) ==> post.spec_asset(b) == pre.spec_asset(b),
            post.spec_asset(rec.addr) == rec,
            post.asset_idx(rec.addr) == i,
            pre.asset_idx(rec.addr) == i,
    {
        assert forall|i2: int, j2: int|
            0 <= i2 < j2 < post.assets@.len() implies (#[trigger] post.assets@[i2]).addr != (
        #[trigger] post.assets@[j2]).addr by {
            assert(pre.assets@[i2].addr != pre.assets@[j2].addr);
        }
        assert forall|b: u64| post.has_asset(b) == pre.has_asset(b) by {
            if pre.has_asset(b) {
                let k = pre.asset_idx(b);
                assert(post.assets@[k].addr == b);
            }
            if post.has_asset(b) {
                let k = post.asset_idx(b);
                assert(pre.assets@[k].addr == b);
            }
        }
        assert(pre.has_asset(rec.addr));
        assert(pre.asset_idx(rec.addr) == i);
        assert(post.assets@[i].addr == rec.addr);
        assert(post.has_asset(rec.addr));
        assert(post.asset_idx(rec.addr) == i);
        assert forall|b: u64|
            b != rec.addr && pre.has_asset(b) implies post.spec_asset(b) == pre.spec_asset(b) by {
            let k = pre.asset_idx(b);
            assert(pre.assets@[k].addr == b);
            assert(k != i);
            assert(post.assets@[k].addr == b);
            let k2 = post.asset_idx(b);
            assert(post.assets@[k2].addr == b);
            assert(pre.assets@[k2].addr == b);
            assert(k2 == k);
        }
    }

    /// The index of an asset known to exist.
    fn index_of(&self, addr: u64) -> (i: usize)
        requires
            self.wf(),
            self.has_asset(addr),
        ensures
            i < self.assets@.len(),
            self.assets@[i as int].addr == addr,
            i as int == self.asset_idx(addr),
    {
        match self.find_asset(addr) {
            Some(i) => {
                proof {
                    let j = self.asset_idx(addr);
                    assert(0 <= j < self.assets@.len() && self.assets@[j].addr == addr);
                    assert(j == i as int);
                }
                i
            },
            None => {
                proof {
                    assert(false);
                }
                0
            },
        }
    }

    /// Registers a fresh asset for `owner`, not frozen, optionally born
    /// with a transfer delegation.
    pub(crate) fn mint(
        &mut self,
        addr: u64,
        owner: u64,
        name: String,
        uri: String,
        transfer_delegate: Option<Authority>,
    )
        requires
            old(self).wf(),
            !old(self).has_asset(addr),
        ensures
            final(self).wf(),
            final(self).assets@ == old(self).assets@.push(
                AssetRecord {
                    addr,
                    owner,
                    name,
                    uri,
                    transfer_delegate,
                    freeze: None,
                },
            ),
            forall|b: u64| b != addr ==> final(self).has_asset(b) == old(self).has_asset(b),
            forall|b: u64|
                b != addr && old(self).has_asset(b) ==> final(self).spec_asset(b) == old(
                    self,
                ).spec_asset(b),
            final(self).has_asset(addr),
            final(self).spec_asset(addr) == (AssetRecord {
                addr,
                owner,
                name,
                uri,
                transfer_delegate,
                freeze: None,
            }),
    {
        let rec = AssetRecord { addr, owner, name, uri, transfer_delegate, freeze: None };
        self.assets.push(rec);
        proof {
            let pre = *old(self);
            let post = *self;
            let n = pre.assets@.len() as int;
            assert(post.assets@[n].addr == addr);
            assert forall|i2: int, j2: int|
                0 <= i2 < j2 < post.assets@.len() implies (#[trigger] post.assets@[i2]).addr != (
            #[trigger] post.assets@[j2]).addr by {
                if j2 == n {
                    assert(post.assets@[i2] == pre.assets@[i2]);
                    if post.assets@[i2].addr == addr {
                        assert(pre.has_asset(addr));
                    }
                }
            }
            assert(post.has_asset(addr));
            assert(post.asset_idx(addr) == n);
            assert forall|b: u64| b != addr implies post.has_asset(b) == pre.has_asset(b) by {
                if pre.has_asset(b) {
                    let k = pre.asset_idx(b);
                    assert(post.assets@[k].addr == b);
                }
                if post.has_asset(b) {
                    let k = post.asset_idx(b);
                    assert(k != n);
                    assert(pre.assets@[k].addr == b);
                }
            }
            assert forall|b: u64|
                b != addr && pre.has_asset(b) implies post.spec_asset(b) == pre.spec_asset(b) by {
                let k = pre.asset_idx(b);
                assert(pre.assets@[k].addr == b);
                assert(post.assets@[k].addr == b);
                let k2 = post.asset_idx(b);
                assert(post.assets@[k2].addr == b);
                assert(k2 != n);
                assert(pre.assets@[k2].addr == b);
                assert(k2 == k);
            }
        }
    }

    /// Delegates a capability on an asset. The registry accepts an addition
    /// only when no delegation of that kind exists yet and the call is
    /// signed by the asset's owner; a freeze delegation starts unfrozen.
    pub(crate) fn add_authority(
        &mut self,
        asset: u64,
        kind: AuthorityKind,
        authority: Authority,
        signer: Signer,
    )
        requires
            old(self).wf(),
            old(self).has_asset(asset),
            match kind {
                AuthorityKind::Transfer => old(self).spec_asset(asset).transfer_delegate is None,
                AuthorityKind::Freeze => old(self).spec_asset(asset).freeze is None,
            },
            signer == Signer::Wallet(old(self).spec_asset(asset).owner),
        ensures
            final(self).wf(),
            final(self).assets@ == old(self).assets@.update(
                old(self).asset_idx(asset),
                match kind {
                    AuthorityKind::Transfer => AssetRecord {
                        transfer_delegate: Some(authority),
                        ..old(self).spec_asset(asset)
                    },
                    AuthorityKind::Freeze => AssetRecord {
                        freeze: Some(FreezePlugin { authority, frozen: false }),
                        ..old(self).spec_asset(asset)
                    },
                },
            ),
            forall|b: u64| final(self).has_asset(b) == old(self).has_asset(b),
            forall|b: u64|
                b != asset && old(self).has_asset(b) ==> final(self).spec_asset(b) == old(
                    self,
                ).spec_asset(b),
            final(self).spec_asset(asset) == match kind {
                AuthorityKind::Transfer => AssetRecord {
                    transfer_delegate: Some(authority),
                    ..old(self).spec_asset(asset)
                },
                AuthorityKind::Freeze => AssetRecord {
                    freeze: Some(FreezePlugin { authority, frozen: false }),
                    ..old(self).spec_asset(asset)
                },
            },
    {
        let i = self.index_of(asset);
        let rec = self.assets.remove(i);
        let rec2 = match kind {
            AuthorityKind::Transfer => AssetRecord { transfer_delegate: Some(authority), ..rec },
            AuthorityKind::Freeze => AssetRecord {
                freeze: Some(FreezePlugin { authority, frozen: false }),
                ..rec
            },
        };
        self.assets.insert(i, rec2);
        proof {
            assert(self.assets@ =~= old(self).assets@.update(i as int, self.assets@[i as int]));
            Self::lemma_update_at(*old(self), *self, i as int, self.assets@[i as int]);
        }
    }

    /// Reassigns an existing delegation to a new authority. The registry
    /// accepts the call only from the currently-recorded authority.
    pub(crate) fn approve_authority(
        &mut self,
        asset: u64,
        kind: AuthorityKind,
        new_authority: Authority,
        signer: Signer,
    )
        requires
            old(self).wf(),
            old(self).has_asset(asset),
            match kind {
                AuthorityKind::Transfer => old(self).spec_asset(asset).transfer_delegate matches
                    Some(a) && authority_allows(a, old(self).spec_asset(asset).owner, signer),
                AuthorityKind::Freeze => old(self).spec_asset(asset).freeze matches Some(fp)
                    && authority_allows(fp.authority, old(self).spec_asset(asset).owner, signer),
            },
        ensures
            final(self).wf(),
            final(self).assets@ == old(self).assets@.update(
                old(self).asset_idx(asset),
                match kind {
                    AuthorityKind::Transfer => AssetRecord {
                        transfer_delegate: Some(new_authority),
                        ..old(self).spec_asset(asset)
                    },
                    AuthorityKind::Freeze => AssetRecord {
                        freeze: Some(
                            FreezePlugin {
                                authority: new_authority,
                                frozen: old(self).spec_asset(asset).freeze->0.frozen,
                            },
                        ),
                        ..old(self).spec_asset(asset)
                    },
                },
            ),
            forall|b: u64| final(self).has_asset(b) == old(self).has_asset(b),
            forall|b: u64|
                b != asset && old(self).has_asset(b) ==> final(self).spec_asset(b) == old(
                    self,
                ).spec_asset(b),
            final(self).spec_asset(asset) == match kind {
                AuthorityKind::Transfer => AssetRecord {
                    transfer_delegate: Some(new_authority),
                    ..old(self).spec_asset(asset)
                },
                AuthorityKind::Freeze => AssetRecord {
                    freeze: Some(
                        FreezePlugin {
                            authority: new_authority,
                            frozen: old(self).spec_asset(asset).freeze->0.frozen,
                        },
                    ),
                    ..old(self).spec_asset(asset)
                },
            },
    {
        let i = self.index_of(asset);
        let rec = self.assets.remove(i);
        let rec2 = match kind {
            AuthorityKind::Transfer => AssetRecord {
                transfer_delegate: Some(new_authority),
                ..rec
            },
            AuthorityKind::Freeze => {
                let frozen = match &rec.freeze {
                    Some(fp) => fp.frozen,
                    None => {
                        proof {
                            assert(false);
                        }
                        false
                    },
                };
                AssetRecord { freeze: Some(FreezePlugin { authority: new_authority, frozen }), ..rec }
            },
        };
        self.assets.insert(i, rec2);
        proof {
            assert(self.assets@ =~= old(self).assets@.update(i as int, self.assets@[i as int]));
            Self::lemma_update_at(*old(self), *self, i as int, self.assets@[i as int]);
        }
    }

    /// Removes a delegation. The registry accepts the removal only from the
    /// asset's owner, and refuses to remove a freeze delegation while the
    /// asset is frozen.
    pub(crate) fn remove_authority(&mut self, asset: u64, kind: AuthorityKind, signer: Signer)
        requires
            old(self).wf(),
            old(self).has_asset(asset),
            match kind {
                AuthorityKind::Transfer => old(self).spec_asset(asset).transfer_delegate is Some,
                AuthorityKind::Freeze => old(self).spec_asset(asset).freeze matches Some(fp)
                    && !fp.frozen,
            },
            signer == Signer::Wallet(old(self).spec_asset(asset).owner),
        ensures
            final(self).wf(),
            final(self).assets@ == old(self).assets@.update(
                old(self).asset_idx(asset),
                match kind {
                    AuthorityKind::Transfer => AssetRecord {
                        transfer_delegate: None,
                        ..old(self).spec_asset(asset)
                    },
                    AuthorityKind::Freeze => AssetRecord {
                        freeze: None,
                        ..old(self).spec_asset(asset)
                    },
                },
            ),
            forall|b: u64| final(self).has_asset(b) == old(self).has_asset(b),
            forall|b: u64|
                b != asset && old(self).has_asset(b) ==> final(self).spec_asset(b) == old(
                    self,
                ).spec_asset(b),
            final(self).spec_asset(asset) == match kind {
                AuthorityKind::Transfer => AssetRecord {
                    transfer_delegate: None,
                    ..old(self).spec_asset(asset)
                },
                AuthorityKind::Freeze => AssetRecord {
                    freeze: None,
                    ..old(self).spec_asset(asset)
                },
            },
    {
        let i = self.index_of(asset);
        let rec = self.assets.remove(i);
        let rec2 = match kind {
            AuthorityKind::Transfer => AssetRecord { transfer_delegate: None, ..rec },
            AuthorityKind::Freeze => AssetRecord { freeze: None, ..rec },
        };
        self.assets.insert(i, rec2);
        proof {
            assert(self.assets@ =~= old(self).assets@.update(i as int, self.assets@[i as int]));
            Self::lemma_update_at(*old(self), *self, i as int, self.assets@[i as int]);
        }
    }

    /// Freezes or thaws an asset. The registry accepts the call only from
    /// the recorded freeze authority.
    pub(crate) fn set_frozen(&mut self, asset: u64, frozen: bool, signer: Signer)
        requires
            old(self).wf(),
            old(self).has_asset(asset),
            old(self).spec_asset(asset).freeze matches Some(fp) && authority_allows(
                fp.authority,
                old(self).spec_asset(asset).owner,
                signer,
            ),
        ensures
            final(self).wf(),
            final(self).assets@ == old(self).assets@.update(
                old(self).asset_idx(asset),
                AssetRecord {
                    freeze: Some(
                        FreezePlugin {
                            authority: old(self).spec_asset(asset).freeze->0.authority,
                            frozen,
                        },
                    ),
                    ..old(self).spec_asset(asset)
                },
            ),
            forall|b: u64| final(self).has_asset(b) == old(self).has_asset(b),
            forall|b: u64|
                b != asset && old(self).has_asset(b) ==> final(self).spec_asset(b) == old(
                    self,
                ).spec_asset(b),
            final(self).spec_asset(asset) == (AssetRecord {
                freeze: Some(
                    FreezePlugin {
                        authority: old(self).spec_asset(asset).freeze->0.authority,
                        frozen,
                    },
                ),
                ..old(self).spec_asset(asset)
            }),
    {
        let i = self.index_of(asset);
        let rec = self.assets.remove(i);
        let authority = match &rec.freeze {
            Some(fp) => fp.authority,
            None => {
                proof {
                    assert(false);
                }
                Authority::OwnerHeld
            },
        };
        let rec2 = AssetRecord { freeze: Some(FreezePlugin { authority, frozen }), ..rec };
        self.assets.insert(i, rec2);
        proof {
            assert(self.assets@ =~= old(self).assets@.update(i as int, self.assets@[i as int]));
            Self::lemma_update_at(*old(self), *self, i as int, self.assets@[i as int]);
        }
    }

    /// Transfers an asset to a new owner. The registry refuses the call
    /// while the asset is frozen, and accepts it only from the effective
    /// transfer authority; the transfer delegation is cleared as a side
    /// effect.
    pub(crate) fn transfer(&mut self, asset: u64, new_owner: u64, signer: Signer)
        requires
            old(self).wf(),
            old(self).has_asset(asset),
            !old(self).spec_frozen(asset),
            authority_allows(
                old(self).spec_transfer_authority(asset),
                old(self).spec_asset(asset).owner,
                signer,
            ),
        ensures
            final(self).wf(),
            final(self).assets@ == old(self).assets@.update(
                old(self).asset_idx(asset),
                AssetRecord {
                    owner: new_owner,
                    transfer_delegate: None,
                    ..old(self).spec_asset(asset)
                },
            ),
            forall|b: u64| final(self).has_asset(b) == old(self).has_asset(b),
            forall|b: u64|
                b != asset && old(self).has_asset(b) ==> final(self).spec_asset(b) == old(
                    self,
                ).spec_asset(b),
            final(self).spec_asset(asset) == (AssetRecord {
                owner: new_owner,
                transfer_delegate: None,
                ..old(self).spec_asset(asset)
            }),
    {
        let i = self.index_of(asset);
        let rec = self.assets.remove(i);
        let rec2 = AssetRecord { owner: new_owner, transfer_delegate: None, ..rec };
        self.assets.insert(i, rec2);
        proof {
            assert(self.assets@ =~= old(self).assets@.update(i as int, self.assets@[i as int]));
            Self::lemma_update_at(*old(self), *self, i as int, self.assets@[i as int]);
        }
    }

    pub fn find_asset(&self, addr: u64) -> (r: Option<usize>)
        ensures
            match r {
                Some(i) => i < self.assets@.len() && self.assets@[i as int].addr == addr,
                None => !self.has_asset(addr),
            },
    {
        let mut i: usize = 0;
        while i < self.assets.len()
            invariant
                i <= self.assets@.len(),
                forall|j: int| 0 <= j < i ==> (#[trigger] self.assets@[j]).addr != addr,
            decreases self.assets@.len() - i,
        {
            if self.assets[i].addr == addr {
                return Some(i);
            }
            i = i + 1;
        }
        None
    }
}

} // verus!
