//! Trade-hub and listing/escrow operations: hub creation, listing,
//! delisting, and purchase.

use sol_mind::assets::Authority;
use sol_mind::errors::{ErrorCode, MarketError};
use sol_mind::fees::{Fee, FeeType, FeesStructure, Operation};
use sol_mind::market::Market;

const LAMPORTS_PER_SOL: u64 = 1_000_000_000;
const FLOOR: u64 = 890_880;
const LISTING_RENT: u64 = 1_113_600;

const PAYER: u64 = 1;
const ADMIN_1: u64 = 2;
const ADMIN_2: u64 = 3;
const PROJECT_OWNER: u64 = 4;
const PROJECT_AUTHORITY_1: u64 = 5;
const PROJECT_AUTHORITY_2: u64 = 6;
const ASSET_OWNER: u64 = 7;
const BUYER: u64 = 8;

const PROJECT_1_ID: u64 = 1;
const ASSET_NAME: &str = "Test Asset";
const ASSET_URI: &str = "https://";
const TRADE_HUB_NAME: &str = "Test Trade Hub";
const TRADE_HUB_FEE_BPS: u64 = 350;
const LISTING_PRICE: u64 = 100_000_000;

const FEE_CREATE_PROJECT_AMOUNT: u64 = 1_000_000;
const FEE_CREATE_MINTER_CONFIG_AMOUNT: u64 = 500_000;
const FEE_MINT_ASSET_AMOUNT: u64 = 50_000;
const FEE_GENERIC_OPERATION_AMOUNT: u64 = 100_000;
const FEE_CREATE_TRADE_HUB_AMOUNT: u64 = 200_000;
const FEE_TRADE_NFT_BPS: u64 = 250;

fn fees_structure() -> FeesStructure {
    FeesStructure {
        create_project: Fee { amount: FEE_CREATE_PROJECT_AMOUNT, fee_type: FeeType::Fixed },
        create_minter_config: Fee {
            amount: FEE_CREATE_MINTER_CONFIG_AMOUNT,
            fee_type: FeeType::Fixed,
        },
        create_trade_hub: Fee { amount: FEE_CREATE_TRADE_HUB_AMOUNT, fee_type: FeeType::Fixed },
        trade_nft: Fee { amount: FEE_TRADE_NFT_BPS, fee_type: FeeType::Percentage },
        mint_asset: Fee { amount: FEE_MINT_ASSET_AMOUNT, fee_type: FeeType::Fixed },
        generic_operation: Fee { amount: FEE_GENERIC_OPERATION_AMOUNT, fee_type: FeeType::Fixed },
    }
}

/// A market with the protocol initialized and one project created.
fn fixture_with_project() -> (Market, u64) {
    let mut m = Market::new(FLOOR, LISTING_RENT);
    m.fund_wallet(PAYER, 10 * LAMPORTS_PER_SOL);
    m.fund_wallet(PROJECT_OWNER, 10 * LAMPORTS_PER_SOL);
    m.fund_wallet(PROJECT_AUTHORITY_1, 10 * LAMPORTS_PER_SOL);
    m.initialize_protocol(PAYER, vec![ADMIN_1, ADMIN_2], vec![ADMIN_2], fees_structure())
        .expect("Failed to initialize protocol");
    let project = m
        .create_project(
            PROJECT_OWNER,
            PROJECT_1_ID,
            "Test project".to_string(),
            "Project description".to_string(),
            vec![PROJECT_AUTHORITY_1, PROJECT_AUTHORITY_2],
        )
        .expect("Failed to create project");
    (m, project)
}

/// A market with a project, a trade hub, and an asset minted to
/// `ASSET_OWNER`.
fn fixture_with_listed_setup() -> (Market, u64, u64, u64) {
    let (mut m, project) = fixture_with_project();
    let hub = m
        .create_trade_hub(
            PROJECT_AUTHORITY_1,
            project,
            TRADE_HUB_NAME.to_string(),
            TRADE_HUB_FEE_BPS,
        )
        .expect("Failed to create trade hub");
    m.fund_wallet(ASSET_OWNER, 10 * LAMPORTS_PER_SOL);
    let asset = m.mint_asset(ASSET_OWNER, ASSET_NAME.to_string(), ASSET_URI.to_string(), None);
    (m, project, hub, asset)
}

#[test]
fn test_create_trade_hub() {
    let (mut m, project) = fixture_with_project();

    let protocol_treasury_initial_balance = m.protocol_treasury;

    let result = m.create_trade_hub(
        PROJECT_AUTHORITY_1,
        project,
        TRADE_HUB_NAME.to_string(),
        TRADE_HUB_FEE_BPS,
    );
    let hub_addr = result.expect("Transaction failed");

    let name = TRADE_HUB_NAME.to_string();
    let trade_hub = m.get_trade_hub(project, &name).expect("Trade hub account should exist");
    assert_eq!(trade_hub.name, TRADE_HUB_NAME);
    assert_eq!(trade_hub.fee_bps, TRADE_HUB_FEE_BPS);
    assert_eq!(trade_hub.project, project);
    assert_eq!(trade_hub.addr, hub_addr);

    let protocol_config = m.get_protocol_config().expect("Protocol should exist");
    assert_eq!(
        m.protocol_treasury,
        protocol_treasury_initial_balance + protocol_config.fees.create_trade_hub.amount
    );
}

#[test]
fn test_create_trade_hub_with_unauthorized_authority() {
    let (mut m, project) = fixture_with_project();

    let unauthorized_authority: u64 = 42;
    m.fund_wallet(unauthorized_authority, LAMPORTS_PER_SOL);

    let result = m.create_trade_hub(
        unauthorized_authority,
        project,
        TRADE_HUB_NAME.to_string(),
        TRADE_HUB_FEE_BPS,
    );
    assert_eq!(result, Err(MarketError::Core(ErrorCode::Unauthorized)));

    let name = TRADE_HUB_NAME.to_string();
    assert!(m.get_trade_hub(project, &name).is_none());
}

#[test]
fn test_list_asset() {
    let (mut m, _project, hub, asset) = fixture_with_listed_setup();

    let result = m.create_listing(ASSET_OWNER, asset, hub, LISTING_PRICE, 1000);
    assert!(result.is_ok(), "Transaction failed: {:?}", result);

    let listing = m.get_listing(asset, hub).expect("Listing should exist");
    assert_eq!(listing.owner, ASSET_OWNER);
    assert_eq!(listing.asset, asset);
    assert_eq!(listing.price, LISTING_PRICE);
    assert!(listing.created_at > 0);

    let record = m.get_asset(asset).expect("Asset should exist");
    let freeze_plugin = record.freeze.expect("Freeze delegate plugin should exist");
    assert_eq!(freeze_plugin.frozen, true);

    let transfer_authority = record
        .transfer_delegate
        .expect("Transfer delegate plugin should exist with trade hub authority");
    assert_eq!(transfer_authority, Authority::Address(hub));
}

#[test]
fn test_list_asset_by_non_owner() {
    let (mut m, _project, hub, asset) = fixture_with_listed_setup();

    let non_owner: u64 = 43;
    m.fund_wallet(non_owner, LAMPORTS_PER_SOL);

    let result = m.create_listing(non_owner, asset, hub, LISTING_PRICE, 1000);
    assert_eq!(
        result,
        Err(MarketError::Core(ErrorCode::Unauthorized)),
        "Transaction should have failed with non-owner"
    );
    assert!(m.get_listing(asset, hub).is_none());
}

#[test]
fn test_purchase_asset() {
    let (mut m, project, hub, asset) = fixture_with_listed_setup();
    m.create_listing(ASSET_OWNER, asset, hub, LISTING_PRICE, 1000)
        .expect("Failed to list asset");

    m.fund_wallet(BUYER, 10 * LAMPORTS_PER_SOL);

    let protocol_treasury_initial_balance = m.protocol_treasury;
    let treasury_initial_balance = m.get_project(project).expect("Project should exist").treasury;
    let owner_initial_balance = m.balance_of(ASSET_OWNER);
    let listing_balance = m.get_listing(asset, hub).expect("Listing should exist").rent;

    let result = m.purchase_asset(BUYER, asset, hub);
    assert!(result.is_ok(), "Transaction failed: {:?}", result);

    let record = m.get_asset(asset).expect("Asset should exist");
    assert_eq!(record.owner, BUYER, "Asset should be transferred to buyer");

    let protocol_config = m.get_protocol_config().expect("Protocol should exist");
    let protocol_fee = match protocol_config.fees.trade_nft.fee_type {
        FeeType::Percentage => LISTING_PRICE
            .checked_mul(protocol_config.fees.trade_nft.amount)
            .unwrap()
            .checked_div(10_000)
            .unwrap(),
        _ => panic!("Wrong fee type, should be Percentage"),
    };
    let name = TRADE_HUB_NAME.to_string();
    let trade_hub = m.get_trade_hub(project, &name).expect("Trade hub should exist");
    let trade_hub_fee = LISTING_PRICE
        .checked_mul(trade_hub.fee_bps)
        .unwrap()
        .checked_div(10_000)
        .unwrap();
    let seller_amount = LISTING_PRICE
        .checked_sub(protocol_fee)
        .unwrap()
        .checked_sub(trade_hub_fee)
        .unwrap();

    assert_eq!(
        m.protocol_treasury,
        protocol_treasury_initial_balance + protocol_fee,
        "Protocol should receive fee"
    );
    assert_eq!(
        m.get_project(project).expect("Project should exist").treasury,
        treasury_initial_balance + trade_hub_fee,
        "Treasury should receive trade hub fee"
    );
    assert_eq!(
        m.balance_of(ASSET_OWNER),
        owner_initial_balance + seller_amount + listing_balance,
        "Owner should receive seller amount and the listing rent"
    );

    let freeze_plugin = record.freeze.expect("Freeze delegate plugin should exist");
    assert_eq!(freeze_plugin.frozen, false);
    assert!(record.transfer_delegate.is_none(), "Transfer delegation should be cleared");
    assert!(m.get_listing(asset, hub).is_none());
}

#[test]
fn test_delist_asset() {
    let (mut m, _project, hub, asset) = fixture_with_listed_setup();
    m.create_listing(ASSET_OWNER, asset, hub, LISTING_PRICE, 1000)
        .expect("Failed to list asset");

    let result = m.delist_asset(ASSET_OWNER, asset, hub);
    assert!(result.is_ok(), "Transaction failed: {:?}", result);

    let record = m.get_asset(asset).expect("Asset should exist");
    assert!(record.freeze.is_none());
    assert!(record.transfer_delegate.is_none());
    assert!(m.get_listing(asset, hub).is_none());
}

#[test]
fn test_deslist_asset_and_than_list_again() {
    let (mut m, _project, hub, asset) = fixture_with_listed_setup();
    m.create_listing(ASSET_OWNER, asset, hub, LISTING_PRICE, 1000)
        .expect("Failed to list asset");
    m.delist_asset(ASSET_OWNER, asset, hub).expect("Failed to delist asset");
    m.create_listing(ASSET_OWNER, asset, hub, LISTING_PRICE, 1001)
        .expect("Failed to list asset again");

    let record = m.get_asset(asset).expect("Asset should exist");
    assert!(record.freeze.is_some());
    assert!(record.transfer_delegate.is_some());
    let listing = m.get_listing(asset, hub);
    assert!(listing.is_some());
    assert_eq!(listing.unwrap().price, LISTING_PRICE);
}
