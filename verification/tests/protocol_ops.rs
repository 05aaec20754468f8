//! Protocol registry operations: initialization, fee-schedule updates, and
//! floor-checked treasury withdrawals.

use sol_mind::errors::{MarketError, ProtocolError};
use sol_mind::fees::{Fee, FeeType, FeesStructure, Operation};
use sol_mind::market::Market;

const LAMPORTS_PER_SOL: u64 = 1_000_000_000;
const FLOOR: u64 = 890_880;
const LISTING_RENT: u64 = 1_113_600;

const PAYER: u64 = 1;
const ADMIN_1: u64 = 2;
const ADMIN_2: u64 = 3;
const PROJECT_OWNER: u64 = 4;
const PROJECT_AUTHORITY_1: u64 = 5;
const PROJECT_AUTHORITY_2: u64 = 6;

const PROJECT_1_ID: u64 = 1;
const DEFAULT_PROJECT_NAME: &str = "Test project";
const DEFAULT_PROJECT_DESCRIPTION: &str = "Project description";

const FEE_CREATE_PROJECT_AMOUNT: u64 = 1_000_000;
const FEE_CREATE_MINTER_CONFIG_AMOUNT: u64 = 500_000;
const FEE_MINT_ASSET_AMOUNT: u64 = 50_000;
const FEE_GENERIC_OPERATION_AMOUNT: u64 = 100_000;
const FEE_CREATE_TRADE_HUB_AMOUNT: u64 = 200_000;
const FEE_TRADE_NFT_AMOUNT: u64 = 25_000;

fn default_fees_structure() -> FeesStructure {
    FeesStructure {
        create_project: Fee { amount: FEE_CREATE_PROJECT_AMOUNT, fee_type: FeeType::Fixed },
        create_minter_config: Fee {
            amount: FEE_CREATE_MINTER_CONFIG_AMOUNT,
            fee_type: FeeType::Fixed,
        },
        create_trade_hub: Fee { amount: FEE_CREATE_TRADE_HUB_AMOUNT, fee_type: FeeType::Fixed },
        trade_nft: Fee { amount: FEE_TRADE_NFT_AMOUNT, fee_type: FeeType::Fixed },
        mint_asset: Fee { amount: FEE_MINT_ASSET_AMOUNT, fee_type: FeeType::Fixed },
        generic_operation: Fee { amount: FEE_GENERIC_OPERATION_AMOUNT, fee_type: FeeType::Fixed },
    }
}

fn fixture() -> Market {
    let mut m = Market::new(FLOOR, LISTING_RENT);
    m.fund_wallet(PAYER, 10 * LAMPORTS_PER_SOL);
    m.fund_wallet(PROJECT_OWNER, 10 * LAMPORTS_PER_SOL);
    m.fund_wallet(PROJECT_AUTHORITY_1, 10 * LAMPORTS_PER_SOL);
    m
}

fn with_initialize_protocol(m: &mut Market) {
    m.initialize_protocol(
        PAYER,
        vec![ADMIN_1, ADMIN_2],
        vec![ADMIN_2],
        default_fees_structure(),
    )
    .expect("Failed to initialize protocol");
}

fn with_project_created(m: &mut Market, project_id: u64) -> u64 {
    m.create_project(
        PROJECT_OWNER,
        project_id,
        DEFAULT_PROJECT_NAME.to_string(),
        DEFAULT_PROJECT_DESCRIPTION.to_string(),
        vec![PROJECT_AUTHORITY_1, PROJECT_AUTHORITY_2],
    )
    .expect("Failed to create project")
}

#[test]
fn test_initialize_protocol() {
    let mut m = fixture();

    let admins = vec![ADMIN_1];
    let whitelist_transfer_addrs = vec![ADMIN_1];
    let fees = default_fees_structure();

    let result = m.initialize_protocol(
        PAYER,
        admins.clone(),
        whitelist_transfer_addrs.clone(),
        fees,
    );
    assert!(result.is_ok());

    let protocol_config = m.get_protocol_config().expect("Protocol should exist");
    assert_eq!(protocol_config.admins, admins);
    assert_eq!(protocol_config.whitelist_transfer_addrs, whitelist_transfer_addrs);
    assert_eq!(protocol_config.fees.create_project.amount, fees.create_project.amount);
    assert_eq!(protocol_config.fees.create_project.fee_type, fees.create_project.fee_type);
}

#[test]
fn test_create_project() {
    let mut m = fixture();
    with_initialize_protocol(&mut m);

    let protocol_treasury_initial_balance = m.protocol_treasury;

    let project_name = "Test project".to_string();
    let project_description = "Project description".to_string();
    let authorities = vec![PROJECT_AUTHORITY_1, PROJECT_AUTHORITY_2];

    let result = m.create_project(
        PROJECT_OWNER,
        PROJECT_1_ID,
        project_name.clone(),
        project_description.clone(),
        authorities.clone(),
    );
    let addr = result.expect("Transaction failed");

    let project_config = m.get_project(addr).expect("Project should exist");
    assert_eq!(project_config.owner, PROJECT_OWNER);
    assert_eq!(project_config.name, project_name);
    assert_eq!(project_config.description, project_description);
    assert_eq!(project_config.authorities, authorities);
    assert_eq!(project_config.project_id, PROJECT_1_ID);

    let protocol_config = m.get_protocol_config().expect("Protocol should exist");
    assert_eq!(
        m.protocol_treasury,
        protocol_treasury_initial_balance + protocol_config.fees.create_project.amount
    );
}

#[test]
fn test_update_fees() {
    let mut m = fixture();
    with_initialize_protocol(&mut m);

    let new_fees = FeesStructure {
        create_project: Fee { amount: 2_000_000, fee_type: FeeType::Fixed },
        create_minter_config: Fee { amount: 1_000_000, fee_type: FeeType::Fixed },
        create_trade_hub: Fee { amount: 1_000_000, fee_type: FeeType::Fixed },
        mint_asset: Fee { amount: 100_000, fee_type: FeeType::Fixed },
        trade_nft: Fee { amount: 100, fee_type: FeeType::Percentage },
        generic_operation: Fee { amount: 200_000, fee_type: FeeType::Fixed },
    };

    let result = m.update_fees(ADMIN_1, new_fees);
    assert!(result.is_ok());

    let protocol_config = m.get_protocol_config().expect("Protocol should exist");
    assert_eq!(protocol_config.fees.create_project.amount, new_fees.create_project.amount);
    assert_eq!(
        protocol_config.fees.create_minter_config.amount,
        new_fees.create_minter_config.amount
    );
    assert_eq!(protocol_config.fees.mint_asset.amount, new_fees.mint_asset.amount);
    assert_eq!(
        protocol_config.fees.generic_operation.amount,
        new_fees.generic_operation.amount
    );
}

#[test]
fn test_update_fees_non_admin() {
    let mut m = fixture();
    with_initialize_protocol(&mut m);

    let non_admin: u64 = 96;
    let result = m.update_fees(non_admin, default_fees_structure());
    assert_eq!(result, Err(MarketError::Protocol(ProtocolError::Unauthorized)));

    let protocol_config = m.get_protocol_config().expect("Protocol should exist");
    assert_eq!(protocol_config.fees.create_project.amount, FEE_CREATE_PROJECT_AMOUNT);
}

#[test]
fn test_update_single_fee() {
    let mut m = fixture();
    with_initialize_protocol(&mut m);

    let new_fee = Fee { amount: 3_000_000, fee_type: FeeType::Fixed };

    let result = m.update_single_fee(ADMIN_1, Operation::CreateProject, new_fee);
    assert!(result.is_ok());

    let protocol_config = m.get_protocol_config().expect("Protocol should exist");
    assert_eq!(protocol_config.fees.create_project.amount, new_fee.amount);
    assert_eq!(protocol_config.fees.create_project.fee_type, new_fee.fee_type);
    assert_eq!(protocol_config.fees.mint_asset.amount, FEE_MINT_ASSET_AMOUNT);
    assert_eq!(
        protocol_config.fees.create_minter_config.amount,
        FEE_CREATE_MINTER_CONFIG_AMOUNT
    );
    assert_eq!(
        protocol_config.fees.generic_operation.amount,
        FEE_GENERIC_OPERATION_AMOUNT
    );
}

#[test]
fn test_protocol_fees_transfer() {
    let mut m = fixture();
    with_initialize_protocol(&mut m);

    m.fund_protocol_treasury(5 * LAMPORTS_PER_SOL);
    let initial_balance = m.protocol_treasury;

    let transfer_amount = LAMPORTS_PER_SOL;
    let destination = ADMIN_2;

    let result = m.transfer_protocol_fees(ADMIN_1, destination, transfer_amount);
    assert!(result.is_ok());

    assert_eq!(m.protocol_treasury, initial_balance - transfer_amount);
    assert_eq!(m.balance_of(destination), transfer_amount);
}

#[test]
fn test_protocol_fees_transfer_non_admin() {
    let mut m = fixture();
    with_initialize_protocol(&mut m);

    m.fund_protocol_treasury(5 * LAMPORTS_PER_SOL);
    let initial_balance = m.protocol_treasury;

    let transfer_amount = LAMPORTS_PER_SOL;
    let destination = ADMIN_2;
    let non_admin: u64 = 99;

    let result = m.transfer_protocol_fees(non_admin, destination, transfer_amount);
    assert_eq!(result, Err(MarketError::Protocol(ProtocolError::Unauthorized)));
    assert_eq!(
        m.protocol_treasury, initial_balance,
        "Balance should not change on failed transfer"
    );
}

#[test]
fn test_protocol_fees_transfer_to_non_whitelisted_address() {
    let mut m = fixture();
    with_initialize_protocol(&mut m);

    m.fund_protocol_treasury(5 * LAMPORTS_PER_SOL);
    let initial_balance = m.protocol_treasury;

    let transfer_amount = LAMPORTS_PER_SOL;
    let destination: u64 = 98;

    let result = m.transfer_protocol_fees(ADMIN_1, destination, transfer_amount);
    assert_eq!(
        result,
        Err(MarketError::Protocol(ProtocolError::AddressNotWhiteListed))
    );
    assert_eq!(
        m.protocol_treasury, initial_balance,
        "Balance should not change on failed transfer"
    );
}

#[test]
fn test_project_fees_transfer() {
    let mut m = fixture();
    with_initialize_protocol(&mut m);
    let project = with_project_created(&mut m, PROJECT_1_ID);

    m.fund_project_treasury(project, 3 * LAMPORTS_PER_SOL)
        .expect("Failed to fund treasury");
    let initial_balance = m.get_project(project).expect("Project should exist").treasury;

    let transfer_amount = LAMPORTS_PER_SOL;
    let destination = PROJECT_AUTHORITY_1;
    let destination_initial_balance = m.balance_of(destination);

    let result = m.transfer_project_fees(PROJECT_OWNER, project, destination, transfer_amount);
    assert!(result.is_ok());

    let final_balance = m.get_project(project).expect("Project should exist").treasury;
    assert_eq!(final_balance, initial_balance - transfer_amount);
    assert_eq!(
        m.balance_of(destination),
        destination_initial_balance + transfer_amount
    );
}

#[test]
fn test_project_fees_transfer_by_non_owner() {
    let mut m = fixture();
    with_initialize_protocol(&mut m);
    let project = with_project_created(&mut m, PROJECT_1_ID);

    m.fund_project_treasury(project, 3 * LAMPORTS_PER_SOL)
        .expect("Failed to fund treasury");
    let initial_balance = m.get_project(project).expect("Project should exist").treasury;

    let transfer_amount = LAMPORTS_PER_SOL;
    let destination = PROJECT_AUTHORITY_1;
    let non_owner: u64 = 97;

    let result = m.transfer_project_fees(non_owner, project, destination, transfer_amount);
    assert_eq!(result, Err(MarketError::NotInitialized));

    let final_balance = m.get_project(project).expect("Project should exist").treasury;
    assert_eq!(
        final_balance, initial_balance,
        "Balance should not change on failed transfer"
    );
}
