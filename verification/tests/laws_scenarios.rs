//! Concrete scenarios for the global properties: mutual exclusion, escrow
//! consistency, fee conservation, round trips, and the reserve floor —
//! plus one input for each error variant the operations can return.

use sol_mind::assets::Authority;
use sol_mind::errors::{ErrorCode, MarketError, ProtocolError};
use sol_mind::fees::{fee_amount, Fee, FeeType, FeesStructure, Operation};
use sol_mind::market::Market;
use sol_mind::market_registry::validate_transfer;

const LAMPORTS_PER_SOL: u64 = 1_000_000_000;
const FLOOR: u64 = 890_880;
const LISTING_RENT: u64 = 1_113_600;

const PAYER: u64 = 1;
const ADMIN_1: u64 = 2;
const ADMIN_2: u64 = 3;
const PROJECT_OWNER: u64 = 4;
const OPERATOR: u64 = 5;
const ASSET_OWNER: u64 = 7;
const BUYER: u64 = 8;

fn fees_with_trade_bps(trade_bps: u64) -> FeesStructure {
    FeesStructure {
        create_project: Fee { amount: 1_000_000, fee_type: FeeType::Fixed },
        create_minter_config: Fee { amount: 500_000, fee_type: FeeType::Fixed },
        create_trade_hub: Fee { amount: 200_000, fee_type: FeeType::Fixed },
        trade_nft: Fee { amount: trade_bps, fee_type: FeeType::Percentage },
        mint_asset: Fee { amount: 50_000, fee_type: FeeType::Fixed },
        generic_operation: Fee { amount: 100_000, fee_type: FeeType::Fixed },
    }
}

/// Protocol with a 250-bps trade fee, one project, one hub at 350 bps, and
/// one asset minted to `ASSET_OWNER`.
fn fixture(hub_fee_bps: u64) -> (Market, u64, u64, u64) {
    let mut m = Market::new(FLOOR, LISTING_RENT);
    m.fund_wallet(PAYER, 10 * LAMPORTS_PER_SOL);
    m.fund_wallet(PROJECT_OWNER, 10 * LAMPORTS_PER_SOL);
    m.fund_wallet(OPERATOR, 10 * LAMPORTS_PER_SOL);
    m.fund_wallet(ASSET_OWNER, 10 * LAMPORTS_PER_SOL);
    m.initialize_protocol(PAYER, vec![ADMIN_1], vec![ADMIN_2], fees_with_trade_bps(250))
        .expect("Failed to initialize protocol");
    let project = m
        .create_project(
            PROJECT_OWNER,
            1,
            "Test project".to_string(),
            "Project description".to_string(),
            vec![OPERATOR],
        )
        .expect("Failed to create project");
    let hub = m
        .create_trade_hub(OPERATOR, project, "Test Trade Hub".to_string(), hub_fee_bps)
        .expect("Failed to create trade hub");
    let asset = m.mint_asset(ASSET_OWNER, "Test Asset".to_string(), "https://".to_string(), None);
    (m, project, hub, asset)
}

#[test]
fn test_double_listing_rejected() {
    let (mut m, _project, hub, asset) = fixture(350);
    m.create_listing(ASSET_OWNER, asset, hub, 100_000_000, 1000)
        .expect("First listing should succeed");

    let result = m.create_listing(ASSET_OWNER, asset, hub, 100_000_000, 1001);
    assert_eq!(result, Err(MarketError::Core(ErrorCode::AssetAlreadyFrozen)));

    let listing = m.get_listing(asset, hub).expect("First listing should survive");
    assert_eq!(listing.created_at, 1000);
}

#[test]
fn test_double_listing_rejected_across_hubs() {
    let (mut m, project, hub, asset) = fixture(350);
    let other_hub = m
        .create_trade_hub(OPERATOR, project, "Second Hub".to_string(), 100)
        .expect("Failed to create second hub");
    m.create_listing(ASSET_OWNER, asset, hub, 100_000_000, 1000)
        .expect("First listing should succeed");

    let result = m.create_listing(ASSET_OWNER, asset, other_hub, 50_000_000, 1001);
    assert_eq!(result, Err(MarketError::Core(ErrorCode::AssetAlreadyFrozen)));
    assert!(m.get_listing(asset, other_hub).is_none());
}

#[test]
fn test_escrow_state_matches_listing() {
    let (mut m, _project, hub, asset) = fixture(350);

    let record = m.get_asset(asset).expect("Asset should exist");
    assert!(record.freeze.is_none());
    assert!(record.transfer_delegate.is_none());

    m.create_listing(ASSET_OWNER, asset, hub, 100_000_000, 1000)
        .expect("Listing should succeed");
    let record = m.get_asset(asset).expect("Asset should exist");
    assert!(m.get_listing(asset, hub).is_some());
    assert_eq!(record.freeze.expect("frozen").frozen, true);
    assert_eq!(record.transfer_delegate, Some(Authority::Address(hub)));

    m.delist_asset(ASSET_OWNER, asset, hub).expect("Delisting should succeed");
    let record = m.get_asset(asset).expect("Asset should exist");
    assert!(m.get_listing(asset, hub).is_none());
    assert!(record.freeze.is_none());
    assert!(record.transfer_delegate.is_none());
}

#[test]
fn test_fee_split_exact() {
    let (mut m, project, hub, asset) = fixture(350);
    m.create_listing(ASSET_OWNER, asset, hub, 100_000_000, 1000)
        .expect("Listing should succeed");
    m.fund_wallet(BUYER, LAMPORTS_PER_SOL);

    let protocol_before = m.protocol_treasury;
    let project_before = m.get_project(project).expect("Project should exist").treasury;
    let seller_before = m.balance_of(ASSET_OWNER);
    let buyer_before = m.balance_of(BUYER);

    m.purchase_asset(BUYER, asset, hub).expect("Purchase should succeed");

    let protocol_fee = m.protocol_treasury - protocol_before;
    let hub_fee = m.get_project(project).expect("Project should exist").treasury - project_before;
    let seller_gain = m.balance_of(ASSET_OWNER) - seller_before;

    assert_eq!(protocol_fee, 2_500_000);
    assert_eq!(hub_fee, 3_500_000);
    assert_eq!(seller_gain, 94_000_000 + LISTING_RENT);
    assert_eq!(protocol_fee + hub_fee + (seller_gain - LISTING_RENT), 100_000_000);
    assert_eq!(buyer_before - m.balance_of(BUYER), 100_000_000);
}

#[test]
fn test_relist_after_delist_matches_first_listing() {
    let (mut m, _project, hub, asset) = fixture(350);
    let owner_before = m.balance_of(ASSET_OWNER);

    m.create_listing(ASSET_OWNER, asset, hub, 100_000_000, 1000)
        .expect("Listing should succeed");
    let frozen_shape = m.get_asset(asset).expect("Asset should exist").freeze;
    let delegate_shape = m.get_asset(asset).expect("Asset should exist").transfer_delegate;

    m.delist_asset(ASSET_OWNER, asset, hub).expect("Delisting should succeed");
    assert_eq!(m.balance_of(ASSET_OWNER), owner_before);

    m.create_listing(ASSET_OWNER, asset, hub, 100_000_000, 2000)
        .expect("Re-listing should succeed");
    let record = m.get_asset(asset).expect("Asset should exist");
    assert_eq!(record.freeze, frozen_shape);
    assert_eq!(record.transfer_delegate, delegate_shape);
    assert_eq!(record.owner, ASSET_OWNER);
    assert_eq!(m.get_listing(asset, hub).expect("Listing should exist").created_at, 2000);
}

#[test]
fn test_reserve_floor_blocks_withdrawal() {
    let mut m = Market::new(FLOOR, LISTING_RENT);
    m.fund_wallet(PAYER, 10 * LAMPORTS_PER_SOL);
    m.initialize_protocol(PAYER, vec![ADMIN_1], vec![ADMIN_2], fees_with_trade_bps(250))
        .expect("Failed to initialize protocol");
    m.fund_protocol_treasury(1_000_000);
    let balance = m.protocol_treasury;
    assert_eq!(balance, FLOOR + 1_000_000);

    // More than the balance: a plain resource error.
    let result = m.transfer_protocol_fees(ADMIN_1, ADMIN_2, balance + 1);
    assert_eq!(result, Err(MarketError::Protocol(ProtocolError::InsufficientFunds)));
    assert_eq!(m.protocol_treasury, balance);

    // Within the balance but below the floor: the reserve-floor error,
    // and the balance is unchanged.
    let result = m.transfer_protocol_fees(ADMIN_1, ADMIN_2, 1_000_001);
    assert_eq!(
        result,
        Err(MarketError::Protocol(ProtocolError::MinimumBalanceRequired))
    );
    assert_eq!(m.protocol_treasury, balance);

    // Down to exactly the floor: allowed.
    m.transfer_protocol_fees(ADMIN_1, ADMIN_2, 1_000_000).expect("Withdrawal should succeed");
    assert_eq!(m.protocol_treasury, FLOOR);
    assert_eq!(m.balance_of(ADMIN_2), 1_000_000);
}

#[test]
fn test_purchase_insufficient_funds_no_mutation() {
    let (mut m, project, hub, asset) = fixture(350);
    m.create_listing(ASSET_OWNER, asset, hub, 100_000_000, 1000)
        .expect("Listing should succeed");
    m.fund_wallet(BUYER, 50_000_000);

    let protocol_before = m.protocol_treasury;
    let project_before = m.get_project(project).expect("Project should exist").treasury;
    let seller_before = m.balance_of(ASSET_OWNER);

    let result = m.purchase_asset(BUYER, asset, hub);
    assert_eq!(result, Err(MarketError::Protocol(ProtocolError::InsufficientFunds)));

    assert_eq!(m.protocol_treasury, protocol_before);
    assert_eq!(m.get_project(project).expect("Project should exist").treasury, project_before);
    assert_eq!(m.balance_of(ASSET_OWNER), seller_before);
    assert_eq!(m.balance_of(BUYER), 50_000_000);
    let record = m.get_asset(asset).expect("Asset should exist");
    assert_eq!(record.owner, ASSET_OWNER);
    assert_eq!(record.freeze.expect("frozen").frozen, true);
    assert!(m.get_listing(asset, hub).is_some());
}

#[test]
fn test_overfee_hub_rejected_at_purchase() {
    // A hub whose fee rate plus the protocol's 250 bps exceeds 100%: the
    // purchase re-validates the configuration instead of underflowing.
    let (mut m, _project, hub, asset) = fixture(20_000);
    m.create_listing(ASSET_OWNER, asset, hub, 100_000_000, 1000)
        .expect("Listing should succeed");
    m.fund_wallet(BUYER, LAMPORTS_PER_SOL);

    let result = m.purchase_asset(BUYER, asset, hub);
    assert_eq!(result, Err(MarketError::Core(ErrorCode::FeeCalculationOverflow)));
    assert!(m.get_listing(asset, hub).is_some());
}

#[test]
fn test_fee_calculation() {
    // Fixed fees ignore the base amount.
    let fixed = Fee { amount: 25_000, fee_type: FeeType::Fixed };
    assert_eq!(fee_amount(&fixed, None), Ok(25_000));
    assert_eq!(fee_amount(&fixed, Some(123)), Ok(25_000));

    // Percentage fees are basis points over 10,000.
    let pct = Fee { amount: 250, fee_type: FeeType::Percentage };
    assert_eq!(fee_amount(&pct, Some(100_000_000)), Ok(2_500_000));
    assert_eq!(fee_amount(&pct, Some(39)), Ok(0));

    // A percentage fee without a base amount is an error, not zero.
    assert_eq!(fee_amount(&pct, None), Err(ProtocolError::FeeCalculationOverflow));

    // An overflowing multiplication is an error.
    let big = Fee { amount: 2, fee_type: FeeType::Percentage };
    assert_eq!(
        fee_amount(&big, Some(u64::MAX)),
        Err(ProtocolError::FeeCalculationOverflow)
    );
}

#[test]
fn test_validate_transfer_formula() {
    assert_eq!(validate_transfer(1_000, 100, 900), Ok(()));
    assert_eq!(
        validate_transfer(1_000, 100, 901),
        Err(ProtocolError::MinimumBalanceRequired)
    );
    assert_eq!(
        validate_transfer(1_000, 100, 1_001),
        Err(ProtocolError::InsufficientFunds)
    );
    assert_eq!(validate_transfer(100, 100, 0), Ok(()));
}

#[test]
fn test_percentage_fee_without_base_rejected() {
    // An operation without a base amount cannot pay a percentage fee: the
    // schedule entry is an error for it, not a silent zero.
    let mut m = Market::new(FLOOR, LISTING_RENT);
    m.fund_wallet(PAYER, 10 * LAMPORTS_PER_SOL);
    m.fund_wallet(PROJECT_OWNER, 10 * LAMPORTS_PER_SOL);
    m.initialize_protocol(PAYER, vec![ADMIN_1], vec![ADMIN_2], fees_with_trade_bps(250))
        .expect("Failed to initialize protocol");
    let pct = Fee { amount: 100, fee_type: FeeType::Percentage };
    m.update_single_fee(ADMIN_1, Operation::CreateProject, pct)
        .expect("Failed to update fee");

    let result = m.create_project(
        PROJECT_OWNER,
        1,
        "Test project".to_string(),
        "Project description".to_string(),
        vec![OPERATOR],
    );
    assert_eq!(
        result,
        Err(MarketError::Protocol(ProtocolError::FeeCalculationOverflow))
    );
}

#[test]
fn test_operations_before_initialization_fail() {
    let mut m = Market::new(FLOOR, LISTING_RENT);
    m.fund_wallet(PROJECT_OWNER, LAMPORTS_PER_SOL);

    let result = m.create_project(
        PROJECT_OWNER,
        1,
        "Test project".to_string(),
        "Project description".to_string(),
        vec![OPERATOR],
    );
    assert_eq!(result, Err(MarketError::NotInitialized));

    let fee = Fee { amount: 0, fee_type: FeeType::Fixed };
    let result = m.update_single_fee(ADMIN_1, Operation::Generic, fee);
    assert_eq!(result, Err(MarketError::NotInitialized));

    let result = m.transfer_protocol_fees(ADMIN_1, ADMIN_2, 1);
    assert_eq!(result, Err(MarketError::NotInitialized));
}

#[test]
fn test_duplicate_identities_rejected() {
    let (mut m, project, _hub, _asset) = fixture(350);

    // A second protocol initialization.
    let result = m.initialize_protocol(PAYER, vec![ADMIN_1], vec![ADMIN_2], fees_with_trade_bps(250));
    assert_eq!(result, Err(MarketError::AlreadyInUse));

    // A project with the same (owner, id).
    let result = m.create_project(
        PROJECT_OWNER,
        1,
        "Another name".to_string(),
        "Another description".to_string(),
        vec![],
    );
    assert_eq!(result, Err(MarketError::AlreadyInUse));

    // A hub with the same (project, name).
    let result = m.create_trade_hub(OPERATOR, project, "Test Trade Hub".to_string(), 10);
    assert_eq!(result, Err(MarketError::AlreadyInUse));
}

#[test]
fn test_delist_by_non_owner_rejected() {
    let (mut m, _project, hub, asset) = fixture(350);
    m.create_listing(ASSET_OWNER, asset, hub, 100_000_000, 1000)
        .expect("Listing should succeed");

    let stranger: u64 = 44;
    m.fund_wallet(stranger, LAMPORTS_PER_SOL);
    let result = m.delist_asset(stranger, asset, hub);
    assert_eq!(result, Err(MarketError::Core(ErrorCode::NotAssetOwner)));
    assert!(m.get_listing(asset, hub).is_some());
}

#[test]
fn test_listing_rent_charged_and_refunded() {
    let (mut m, _project, hub, asset) = fixture(350);
    let before = m.balance_of(ASSET_OWNER);

    m.create_listing(ASSET_OWNER, asset, hub, 100_000_000, 1000)
        .expect("Listing should succeed");
    assert_eq!(m.balance_of(ASSET_OWNER), before - LISTING_RENT);

    m.delist_asset(ASSET_OWNER, asset, hub).expect("Delisting should succeed");
    assert_eq!(m.balance_of(ASSET_OWNER), before);
}

#[test]
fn test_list_asset_with_owner_held_delegate() {
    // An asset minted with an owner-held transfer delegation can be
    // listed: the delegation is reassigned to the hub.
    let (mut m, _project, hub, _asset) = fixture(350);
    let asset = m.mint_asset(
        ASSET_OWNER,
        "Delegated Asset".to_string(),
        "https://".to_string(),
        Some(Authority::OwnerHeld),
    );

    m.create_listing(ASSET_OWNER, asset, hub, 100_000_000, 1000)
        .expect("Listing should succeed");
    let record = m.get_asset(asset).expect("Asset should exist");
    assert_eq!(record.transfer_delegate, Some(Authority::Address(hub)));
}

#[test]
fn test_list_asset_with_foreign_delegate_rejected() {
    // An asset whose transfer delegation is held by a third party cannot
    // be listed.
    let (mut m, _project, hub, _asset) = fixture(350);
    let asset = m.mint_asset(
        ASSET_OWNER,
        "Delegated Asset".to_string(),
        "https://".to_string(),
        Some(Authority::Address(12345)),
    );

    let result = m.create_listing(ASSET_OWNER, asset, hub, 100_000_000, 1000);
    assert_eq!(
        result,
        Err(MarketError::Core(ErrorCode::AssetInvalidTransferAuthority))
    );
    assert!(m.get_listing(asset, hub).is_none());
}

#[test]
fn test_hub_fee_formula_exact() {
    // 350 bps of 100_000_000 is 3_500_000; fractional remainders round
    // down.
    let (mut m, project, _hub, _asset) = fixture(350);
    let hub2 = m
        .create_trade_hub(OPERATOR, project, "Odd Hub".to_string(), 333)
        .expect("Failed to create hub");
    let name = "Odd Hub".to_string();
    let trade_hub = m.get_trade_hub(project, &name).expect("Hub should exist");
    assert_eq!(trade_hub.addr, hub2);
    assert_eq!(trade_hub.calculate_fee_amount(100_000_000), Ok(3_330_000));
    assert_eq!(trade_hub.calculate_fee_amount(101), Ok(3));
    assert_eq!(
        trade_hub.calculate_fee_amount(u64::MAX),
        Err(ErrorCode::FeeCalculationOverflow)
    );
}
