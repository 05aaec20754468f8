//! Proofs of the global properties of the marketplace: mutual exclusion of
//! listings, escrow consistency, fee conservation, the list/delist round
//! trip, and the reserve-floor invariant.
//!
//! Each lemma assumes only `Market::wf`, which `Market::new` establishes
//! and every operation's contract preserves — so the properties hold in
//! every reachable state.

use crate::assets::Authority;
use crate::errors::{ErrorCode, MarketError, ProtocolError};
use crate::market::Market;
use vstd::prelude::*;

verus! {

/// Mutual exclusion: for any asset, at most one listing can exist at a
/// time — even across different hubs — because the freeze delegation on
/// the asset names exactly one hub.
pub proof fn lemma_listing_mutual_exclusion(s: Market, asset: u64, h1: u64, h2: u64)
    requires
        s.wf(),
        s.has_listing(asset, h1),
        s.has_listing(asset, h2),
    ensures
        h1 == h2,
{
    let i1 = s.listing_idx(asset, h1);
    let i2 = s.listing_idx(asset, h2);
    assert(s.listings@[i1].asset == asset && s.listings@[i1].hub == h1);
    assert(s.listings@[i2].asset == asset && s.listings@[i2].hub == h2);
    assert(s.listing_escrowed(s.listings@[i1]));
    assert(s.listing_escrowed(s.listings@[i2]));
}

/// Mutual exclusion, operationally: while any listing is live for an
/// asset, a further `create_listing` on that asset — on any hub, by any
/// caller — fails with the state-conflict error `AssetAlreadyFrozen`.
pub proof fn lemma_relist_fails(s: Market, caller: u64, asset: u64, listed_hub: u64, hub: u64)
    requires
        s.wf(),
        s.has_listing(asset, listed_hub),
        s.has_hub(hub),
    ensures
        s.create_listing_chk(caller, asset, hub) == Err::<(), MarketError>(
            MarketError::Core(ErrorCode::AssetAlreadyFrozen),
        ),
{
    let i = s.listing_idx(asset, listed_hub);
    assert(s.listings@[i].asset == asset && s.listings@[i].hub == listed_hub);
    assert(s.listing_escrowed(s.listings@[i]));
}

/// Escrow consistency: in every well-formed state, a listing exists for
/// `(asset, hub)` exactly when the asset is frozen and its transfer
/// authority is the hub.
pub proof fn lemma_escrow_consistency(s: Market, asset: u64, hub: u64)
    requires
        s.wf(),
        s.assets.has_asset(asset),
    ensures
        s.has_listing(asset, hub) <==> (s.assets.spec_frozen(asset)
            && s.assets.spec_transfer_authority(asset) == Authority::Address(hub)),
{
    if s.has_listing(asset, hub) {
        let i = s.listing_idx(asset, hub);
        assert(s.listings@[i].asset == asset && s.listings@[i].hub == hub);
        assert(s.listing_escrowed(s.listings@[i]));
    }
    if s.assets.spec_frozen(asset) && s.assets.spec_transfer_authority(asset)
        == Authority::Address(hub) {
        let k = s.assets.asset_idx(asset);
        assert(s.assets.assets@[k].addr == asset);
        assert(s.assets.spec_asset(asset) == s.assets.assets@[k]);
        let fp = s.assets.assets@[k].freeze->0;
        assert(fp.frozen);
        match fp.authority {
            Authority::Address(h) => {
                assert(s.has_listing(asset, h));
                let i = s.listing_idx(asset, h);
                assert(s.listings@[i].asset == asset && s.listings@[i].hub == h);
                assert(s.listing_escrowed(s.listings@[i]));
                assert(s.assets.spec_asset(asset).transfer_delegate == Some(Authority::Address(h)));
            },
            Authority::OwnerHeld => {},
        }
    }
}

/// Fee conservation: for every purchase that can succeed, the protocol
/// fee, the hub fee, and the seller's amount sum to the listing price
/// exactly — no rounding residue is lost or created.
pub proof fn lemma_fee_conservation(s: Market, buyer: u64, asset: u64, hub: u64)
    requires
        s.wf(),
        s.purchase_chk(buyer, asset, hub) is Ok,
    ensures
        s.purchase_protocol_fee(asset, hub) + s.purchase_hub_fee(asset, hub)
            + s.purchase_seller_amount(asset, hub) == s.spec_listing(asset, hub).price,
{
}

/// Round trip: listing an asset and then delisting it restores the asset
/// record — unfrozen, with no freeze delegation and no transfer
/// delegation — restores the owner's balance, and permits an immediate
/// re-listing on the same hub.
pub proof fn lemma_list_delist_round_trip(
    s0: Market,
    s1: Market,
    s2: Market,
    caller: u64,
    asset: u64,
    hub: u64,
    price: u64,
    now: i64,
)
    requires
        s0.wf(),
        s1.wf(),
        s0.create_listing_chk(caller, asset, hub) is Ok,
        Market::create_listing_post(s0, s1, caller, asset, hub, price, now),
        Market::delist_post(s1, s2, caller, asset, hub),
    ensures
        s2.assets.has_asset(asset),
        s2.assets.spec_asset(asset).freeze is None,
        s2.assets.spec_asset(asset).transfer_delegate is None,
        s2.assets.spec_asset(asset).owner == s0.assets.spec_asset(asset).owner,
        s2.bank.spec_bal(caller) == s0.bank.spec_bal(caller),
        s2.listings@ == s0.listings@,
        s2.create_listing_chk(caller, asset, hub) is Ok,
{
    let n = s0.listings@.len() as int;
    // The new listing sits at the end of s1's table, and no earlier entry
    // matches (asset, hub): an s0 listing on this asset would have left it
    // frozen, against the success of the first check.
    assert(s1.listings@[n].asset == asset && s1.listings@[n].hub == hub);
    assert forall|i: int| 0 <= i < n implies !((#[trigger] s1.listings@[i]).asset == asset
        && s1.listings@[i].hub == hub) by {
        assert(s1.listings@[i] == s0.listings@[i]);
        if s0.listings@[i].asset == asset && s0.listings@[i].hub == hub {
            assert(s0.has_listing(asset, hub));
            assert(s0.listing_escrowed(s0.listings@[i]));
        }
    }
    let j = s1.listing_idx(asset, hub);
    assert(s1.listings@[j].asset == asset && s1.listings@[j].hub == hub);
    assert(j == n);
    assert(s2.listings@ =~= s0.listings@);
    assert(s1.spec_listing(asset, hub).rent == s0.listing_rent);
    // The asset record is back to its pre-listing shape except that any
    // owner-held transfer delegation was consumed; the first check already
    // ruled out a hub-held one.
    assert(s0.assets.has_asset(asset));
    assert(s2.assets.spec_asset(asset).owner == caller);
    // Lookups in s2 agree with s0, so the re-listing checks pass again.
    Market::lemma_hub_lookups(s0, s2);
    Market::lemma_listing_lookups(s0, s2);
    assert(!s2.has_listing(asset, hub));
    assert(s2.has_hub(hub));
    assert(s2.assets.has_asset(asset));
    assert(s2.create_listing_chk(caller, asset, hub) is Ok);
}

/// Reserve floor, as an invariant: in every well-formed state the protocol
/// treasury and every project treasury hold at least the rent-exempt
/// floor.
pub proof fn lemma_treasuries_above_floor(s: Market)
    requires
        s.wf(),
    ensures
        s.protocol is Some ==> s.protocol_treasury >= s.floor,
        forall|p: u64| s.has_project_addr(p) ==> s.spec_project(p).treasury >= s.floor,
{
    assert forall|p: u64| s.has_project_addr(p) implies s.spec_project(p).treasury >= s.floor by {
        let i = s.project_idx(p);
        assert(0 <= i < s.projects@.len() && s.projects@[i].addr == p);
    }
}

/// Reserve floor, operationally: a protocol-treasury withdrawal that would
/// leave less than the floor fails with `MinimumBalanceRequired` — and, by
/// the contract of `transfer_protocol_fees`, a failed withdrawal changes
/// nothing.
pub proof fn lemma_protocol_floor_breach_fails(s: Market, admin: u64, to: u64, amount: u64)
    requires
        s.wf(),
        s.protocol matches Some(c) && c.spec_is_admin(admin) && c.spec_is_whitelisted(to),
        amount <= s.protocol_treasury,
        s.protocol_treasury - amount < s.floor,
    ensures
        s.protocol_withdraw_chk(admin, to, amount) == Err::<(), MarketError>(
            MarketError::Protocol(ProtocolError::MinimumBalanceRequired),
        ),
{
}

/// Reserve floor for project treasuries: a withdrawal that would leave
/// less than the floor fails with `MinimumBalanceRequired`.
pub proof fn lemma_project_floor_breach_fails(s: Market, owner: u64, project: u64, to: u64, amount: u64)
    requires
        s.wf(),
        s.has_project_addr(project),
        s.spec_project(project).owner == owner,
        amount <= s.spec_project(project).treasury,
        s.spec_project(project).treasury - amount < s.floor,
    ensures
        s.project_withdraw_chk(owner, project, to, amount) == Err::<(), MarketError>(
            MarketError::Protocol(ProtocolError::MinimumBalanceRequired),
        ),
{
}

} // verus!
