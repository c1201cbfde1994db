use std::str::FromStr;

use anchor_lang::prelude::Pubkey;
use spark_idea_vault::accounts::{
    AdminWithdraw, Deposit, InitializeAdminConfig, InitializeVault, TogglePause, UpdateAdmin,
    Withdraw,
};
use spark_idea_vault::address::Address;
use spark_idea_vault::allowed_mints::{is_allowed, USDC_DEVNET, USDC_MAINNET};
use spark_idea_vault::errors::ErrorCode;
use spark_idea_vault::events::{TransferAuthority, UserDeposited, UserWithdrawn};
use spark_idea_vault::spark_idea_vault::{
    admin_withdraw, deposit, initialize_admin_config, initialize_vault,
    initialize_vault_with_digest, toggle_pause, update_admin, withdraw,
};
use spark_idea_vault::state::VaultProgram;

const SOLAR_PANEL_SEED: [u8; 32] = [
    178, 104, 22, 43, 23, 201, 19, 1, 208, 142, 83, 219, 39, 37, 91, 76, 213, 145, 195, 120, 21,
    121, 5, 33, 174, 55, 31, 221, 52, 242, 40, 44,
];

const WIND_FARM_SEED: [u8; 32] = [
    134, 101, 235, 232, 237, 193, 88, 171, 242, 219, 79, 156, 23, 70, 72, 63, 177, 88, 100, 153,
    151, 18, 208, 242, 115, 209, 226, 242, 85, 77, 94, 148,
];

fn addr(b: u8) -> Address {
    Address::new([b; 32])
}

fn admin() -> Address {
    addr(1)
}

fn user() -> Address {
    addr(2)
}

fn mint() -> Address {
    Address::new(USDC_MAINNET)
}

fn vault_ata() -> Address {
    addr(3)
}

fn user_ata() -> Address {
    addr(4)
}

fn admin_ata() -> Address {
    addr(5)
}

/// A program with a configuration and a "solar-panel" vault.
fn setup() -> VaultProgram {
    let mut p = VaultProgram::new();
    initialize_admin_config(&mut p, &InitializeAdminConfig { admin: admin() }).unwrap();
    let ctx = InitializeVault { payer: admin(), mint: mint(), vault_ata: vault_ata() };
    initialize_vault(&mut p, &ctx, "solar-panel".to_string(), SOLAR_PANEL_SEED).unwrap();
    p
}

fn dep(seed: [u8; 32]) -> Deposit {
    Deposit { user: user(), vault: seed, mint: mint(), user_token_account: user_ata(), vault_ata: vault_ata() }
}

fn wd(seed: [u8; 32]) -> Withdraw {
    Withdraw { user: user(), vault: seed, mint: mint(), user_token_account: user_ata(), vault_ata: vault_ata() }
}

fn sweep(caller: Address, amount: u64) -> AdminWithdraw {
    AdminWithdraw {
        admin: caller,
        vault: SOLAR_PANEL_SEED,
        mint: mint(),
        vault_ata: vault_ata(),
        vault_ata_amount: amount,
        admin_token_account: admin_ata(),
    }
}

fn user_amount(p: &VaultProgram) -> u64 {
    p.deposits.iter().find(|d| d.vault == SOLAR_PANEL_SEED && d.user == user()).map(|d| d.amount).unwrap_or(0)
}

fn vault_total(p: &VaultProgram) -> u64 {
    p.vaults.iter().find(|v| v.vault_seed == SOLAR_PANEL_SEED).unwrap().total_deposited
}

#[test]
fn whitelist_constants_match_base58_mints() {
    let devnet = Pubkey::from_str("4zMMC9srt5Ri5X14GAgXhaHii3GnPAEERYPJgZJDncDU").unwrap();
    let mainnet = Pubkey::from_str("EPjFWdd5AufqSSqeM2qN1xzybapC8G4wEGGkZwyTDt1v").unwrap();
    assert_eq!(devnet.to_bytes(), USDC_DEVNET);
    assert_eq!(mainnet.to_bytes(), USDC_MAINNET);
}

#[test]
fn is_allowed_accepts_only_the_two_mints() {
    assert!(is_allowed(&Address::new(USDC_DEVNET)));
    assert!(is_allowed(&Address::new(USDC_MAINNET)));
    assert!(!is_allowed(&addr(9)));
}

#[test]
fn campaign_scenario() {
    let mut p = setup();
    let (t, ev) = deposit(&mut p, &dep(SOLAR_PANEL_SEED), 5000).unwrap();
    assert_eq!(t.amount, 5000);
    assert_eq!(t.from, user_ata());
    assert_eq!(t.to, vault_ata());
    assert_eq!(t.authority, TransferAuthority::Signer(user()));
    assert_eq!(
        ev,
        UserDeposited { vault: SOLAR_PANEL_SEED, user: user(), amount: 5000, user_total: 5000, vault_total: 5000 }
    );
    assert_eq!(user_amount(&p), 5000);
    assert_eq!(vault_total(&p), 5000);

    let (t, ev) = withdraw(&mut p, &wd(SOLAR_PANEL_SEED), 2000).unwrap();
    assert_eq!(t.from, vault_ata());
    assert_eq!(t.to, user_ata());
    assert_eq!(t.authority, TransferAuthority::Vault(SOLAR_PANEL_SEED));
    assert_eq!(
        ev,
        UserWithdrawn { vault: SOLAR_PANEL_SEED, user: user(), amount: 2000, user_remaining: 3000, vault_total: 3000 }
    );
    assert_eq!(user_amount(&p), 3000);
    assert_eq!(vault_total(&p), 3000);

    let before = p.clone();
    assert_eq!(withdraw(&mut p, &wd(SOLAR_PANEL_SEED), 4000), Err(ErrorCode::InsufficientDeposit));
    assert_eq!(p, before);
}

#[test]
fn admin_config_only_once() {
    let mut p = VaultProgram::new();
    let ev = initialize_admin_config(&mut p, &InitializeAdminConfig { admin: admin() }).unwrap();
    assert_eq!(ev.admin, admin());
    assert!(!p.admin_config.unwrap().is_paused);
    let r = initialize_admin_config(&mut p, &InitializeAdminConfig { admin: user() });
    assert_eq!(r, Err(ErrorCode::AlreadyInitialized));
    assert_eq!(p.admin_config.unwrap().admin, admin());
}

#[test]
fn operations_before_configuration_fail() {
    let mut p = VaultProgram::new();
    assert_eq!(toggle_pause(&mut p, &TogglePause { admin: admin() }), Err(ErrorCode::AccountNotInitialized));
    assert_eq!(deposit(&mut p, &dep(SOLAR_PANEL_SEED), 5000), Err(ErrorCode::AccountNotInitialized));
}

#[test]
fn update_admin_rules() {
    let mut p = setup();
    assert_eq!(update_admin(&mut p, &UpdateAdmin { admin: user() }, user()), Err(ErrorCode::Unauthorized));
    assert_eq!(
        update_admin(&mut p, &UpdateAdmin { admin: admin() }, Address::new([0; 32])),
        Err(ErrorCode::InvalidAdmin)
    );
    let ev = update_admin(&mut p, &UpdateAdmin { admin: admin() }, addr(7)).unwrap();
    assert_eq!(ev.old_admin, admin());
    assert_eq!(ev.new_admin, addr(7));
    assert_eq!(p.admin_config.unwrap().admin, addr(7));
    assert_eq!(toggle_pause(&mut p, &TogglePause { admin: admin() }), Err(ErrorCode::Unauthorized));
}

#[test]
fn pause_blocks_ledger_operations_but_not_sweep() {
    let mut p = setup();
    deposit(&mut p, &dep(SOLAR_PANEL_SEED), 5000).unwrap();
    let ev = toggle_pause(&mut p, &TogglePause { admin: admin() }).unwrap();
    assert!(ev.is_paused);
    assert_eq!(deposit(&mut p, &dep(SOLAR_PANEL_SEED), 5000), Err(ErrorCode::ProtocolPaused));
    assert_eq!(withdraw(&mut p, &wd(SOLAR_PANEL_SEED), 1000), Err(ErrorCode::ProtocolPaused));
    let ctx = InitializeVault { payer: admin(), mint: mint(), vault_ata: addr(8) };
    assert_eq!(
        initialize_vault(&mut p, &ctx, "wind-farm".to_string(), WIND_FARM_SEED),
        Err(ErrorCode::ProtocolPaused)
    );
    let (t, ev) = admin_withdraw(&mut p, &sweep(admin(), 5000)).unwrap();
    assert_eq!(t.amount, 5000);
    assert_eq!(t.to, admin_ata());
    assert_eq!(ev.amount, 5000);
    assert_eq!(vault_total(&p), 0);
    let ev = toggle_pause(&mut p, &TogglePause { admin: admin() }).unwrap();
    assert!(!ev.is_paused);
}

#[test]
fn only_admin_can_sweep() {
    let mut p = setup();
    deposit(&mut p, &dep(SOLAR_PANEL_SEED), 5000).unwrap();
    assert_eq!(admin_withdraw(&mut p, &sweep(user(), 5000)), Err(ErrorCode::Unauthorized));
    assert_eq!(admin_withdraw(&mut p, &sweep(admin(), 0)), Err(ErrorCode::InvalidAmount));
    assert_eq!(vault_total(&p), 5000);
}

#[test]
fn sweep_leaves_user_records() {
    let mut p = setup();
    deposit(&mut p, &dep(SOLAR_PANEL_SEED), 5000).unwrap();
    admin_withdraw(&mut p, &sweep(admin(), 5000)).unwrap();
    assert_eq!(vault_total(&p), 0);
    assert_eq!(user_amount(&p), 5000);
    assert_eq!(withdraw(&mut p, &wd(SOLAR_PANEL_SEED), 5000), Err(ErrorCode::Overflow));
}

#[test]
fn dust_floor() {
    let mut p = setup();
    assert_eq!(deposit(&mut p, &dep(SOLAR_PANEL_SEED), 999), Err(ErrorCode::AmountTooSmall));
    assert_eq!(deposit(&mut p, &dep(SOLAR_PANEL_SEED), 1), Err(ErrorCode::AmountTooSmall));
    assert_eq!(deposit(&mut p, &dep(SOLAR_PANEL_SEED), 0), Err(ErrorCode::InvalidAmount));
    assert!(deposit(&mut p, &dep(SOLAR_PANEL_SEED), 1000).is_ok());
    assert_eq!(user_amount(&p), 1000);
}

#[test]
fn deposit_then_withdraw_restores_balances() {
    let mut p = setup();
    deposit(&mut p, &dep(SOLAR_PANEL_SEED), 7000).unwrap();
    let (u0, v0) = (user_amount(&p), vault_total(&p));
    deposit(&mut p, &dep(SOLAR_PANEL_SEED), 2500).unwrap();
    withdraw(&mut p, &wd(SOLAR_PANEL_SEED), 2500).unwrap();
    assert_eq!(user_amount(&p), u0);
    assert_eq!(vault_total(&p), v0);
}

#[test]
fn overdraw_fails_regardless_of_vault_total() {
    let mut p = setup();
    let other = Deposit { user: addr(6), ..dep(SOLAR_PANEL_SEED) };
    deposit(&mut p, &other, 100_000).unwrap();
    deposit(&mut p, &dep(SOLAR_PANEL_SEED), 1000).unwrap();
    assert_eq!(vault_total(&p), 101_000);
    assert_eq!(withdraw(&mut p, &wd(SOLAR_PANEL_SEED), 1001), Err(ErrorCode::InsufficientDeposit));
    let stranger = Withdraw { user: addr(11), ..wd(SOLAR_PANEL_SEED) };
    assert_eq!(withdraw(&mut p, &stranger, 1), Err(ErrorCode::InsufficientDeposit));
    assert_eq!(withdraw(&mut p, &wd(SOLAR_PANEL_SEED), 0), Err(ErrorCode::InvalidAmount));
}

#[test]
fn vault_totals_match_user_records() {
    let mut p = setup();
    let ctx = InitializeVault { payer: admin(), mint: mint(), vault_ata: addr(8) };
    initialize_vault(&mut p, &ctx, "wind-farm".to_string(), WIND_FARM_SEED).unwrap();
    deposit(&mut p, &dep(SOLAR_PANEL_SEED), 4000).unwrap();
    deposit(&mut p, &Deposit { user: addr(6), ..dep(SOLAR_PANEL_SEED) }, 3000).unwrap();
    let wind = Deposit { vault: WIND_FARM_SEED, vault_ata: addr(8), ..dep(WIND_FARM_SEED) };
    deposit(&mut p, &wind, 2000).unwrap();
    withdraw(&mut p, &wd(SOLAR_PANEL_SEED), 1500).unwrap();
    for v in p.vaults.iter() {
        let sum: u64 = p.deposits.iter().filter(|d| d.vault == v.vault_seed).map(|d| d.amount).sum();
        assert_eq!(v.total_deposited, sum);
    }
    assert_eq!(vault_total(&p), 5500);
}

#[test]
fn second_vault_for_same_idea_rejected() {
    let mut p = setup();
    let ctx = InitializeVault { payer: user(), mint: mint(), vault_ata: addr(8) };
    assert_eq!(
        initialize_vault(&mut p, &ctx, "solar-panel".to_string(), SOLAR_PANEL_SEED),
        Err(ErrorCode::AlreadyInitialized)
    );
    assert_eq!(p.vaults.len(), 1);
}

#[test]
fn vault_creation_checks() {
    let mut p = setup();
    let ctx = InitializeVault { payer: user(), mint: mint(), vault_ata: addr(8) };
    assert_eq!(initialize_vault(&mut p, &ctx, "x".repeat(65), [7; 32]), Err(ErrorCode::IdeaIdTooLong));
    assert_eq!(initialize_vault(&mut p, &ctx, String::new(), [7; 32]), Err(ErrorCode::IdeaIdEmpty));
    // the seed must be the digest of the identifier, not the identifier itself
    let mut raw = [0u8; 32];
    raw[..9].copy_from_slice(b"wind-farm");
    assert_eq!(initialize_vault(&mut p, &ctx, "wind-farm".to_string(), raw), Err(ErrorCode::InvalidVaultSeed));
    assert_eq!(
        initialize_vault(&mut p, &ctx, "wind-farm".to_string(), SOLAR_PANEL_SEED),
        Err(ErrorCode::AlreadyInitialized)
    );
    let bad_mint = InitializeVault { mint: addr(9), ..ctx };
    assert_eq!(
        initialize_vault(&mut p, &bad_mint, "wind-farm".to_string(), WIND_FARM_SEED),
        Err(ErrorCode::UnauthorizedMint)
    );
    let ev = initialize_vault(&mut p, &ctx, "wind-farm".to_string(), WIND_FARM_SEED).unwrap();
    assert_eq!(ev.vault, WIND_FARM_SEED);
    assert_eq!(ev.idea_id, "wind-farm");
    assert_eq!(ev.initialized_by, user());
    assert_eq!(p.vaults.len(), 2);
    assert_eq!(p.vaults[1].total_deposited, 0);
}

#[test]
fn local_program_accepts_any_mint() {
    let mut p = VaultProgram::new_local();
    initialize_admin_config(&mut p, &InitializeAdminConfig { admin: admin() }).unwrap();
    let ctx = InitializeVault { payer: admin(), mint: addr(9), vault_ata: vault_ata() };
    assert!(initialize_vault_with_digest(&mut p, &ctx, "wind-farm".to_string(), [4; 32], &[4; 32]).is_ok());
    assert_eq!(
        initialize_vault_with_digest(&mut p, &ctx, "solar".to_string(), [5; 32], &[6; 32]),
        Err(ErrorCode::InvalidVaultSeed)
    );
}

#[test]
fn account_bindings_checked() {
    let mut p = setup();
    let wrong_mint = Deposit { mint: Address::new(USDC_DEVNET), ..dep(SOLAR_PANEL_SEED) };
    assert_eq!(deposit(&mut p, &wrong_mint, 5000), Err(ErrorCode::InvalidMint));
    let wrong_ata = Deposit { vault_ata: addr(12), ..dep(SOLAR_PANEL_SEED) };
    assert_eq!(deposit(&mut p, &wrong_ata, 5000), Err(ErrorCode::InvalidVaultAta));
    assert_eq!(deposit(&mut p, &dep(WIND_FARM_SEED), 5000), Err(ErrorCode::AccountNotInitialized));
    let sweep_wrong = AdminWithdraw { mint: addr(13), ..sweep(admin(), 10) };
    assert_eq!(admin_withdraw(&mut p, &sweep_wrong), Err(ErrorCode::InvalidMint));
}

#[test]
fn deposit_overflow_rejected() {
    let mut p = setup();
    deposit(&mut p, &dep(SOLAR_PANEL_SEED), u64::MAX - 10).unwrap();
    let before = p.clone();
    assert_eq!(deposit(&mut p, &dep(SOLAR_PANEL_SEED), 1000), Err(ErrorCode::Overflow));
    assert_eq!(p, before);
}

#[test]
fn error_messages() {
    assert_eq!(ErrorCode::ProtocolPaused.message(), "Protocol is paused");
    assert_eq!(ErrorCode::IdeaIdTooLong.message(), "Idea id must be 64 characters or less");
}

#[test]
fn lookups_find_records() {
    let mut p = setup();
    assert_eq!(p.find_vault(&SOLAR_PANEL_SEED), Some(0));
    assert_eq!(p.find_vault(&WIND_FARM_SEED), None);
    assert_eq!(p.find_deposit(&SOLAR_PANEL_SEED, &user()), None);
    deposit(&mut p, &dep(SOLAR_PANEL_SEED), 1000).unwrap();
    assert_eq!(p.find_deposit(&SOLAR_PANEL_SEED, &user()), Some(0));
    assert_eq!(p.find_deposit(&SOLAR_PANEL_SEED, &addr(6)), None);
}
