use vstd::prelude::*;
use crate::address::Address;

verus! {

/// Accounts for creating the configuration; `admin` signs and becomes administrator.
#[derive(Clone, Copy, Debug, PartialEq, Eq)]
pub struct InitializeAdminConfig {
    pub admin: Address,
}

/// Accounts for replacing the administrator; `admin` signs.
#[derive(Clone, Copy, Debug, PartialEq, Eq)]
pub struct UpdateAdmin {
    pub admin: Address,
}

/// Accounts for flipping the pause flag; `admin` signs.
#[derive(Clone, Copy, Debug, PartialEq, Eq)]
pub struct TogglePause {
    pub admin: Address,
}

/// Accounts for creating a vault: the payer, the mint it accepts and the
/// custody account created for it.
#[derive(Clone, Copy, Debug, PartialEq, Eq)]
pub struct InitializeVault {
    pub payer: Address,
    pub mint: Address,
    pub vault_ata: Address,
}

/// Accounts for a deposit into the vault with seed `vault`.
#[derive(Clone, Copy, Debug, PartialEq, Eq)]
pub struct Deposit {
    pub user: Address,
    pub vault: [u8; 32],
    pub mint: Address,
    pub user_token_account: Address,
    pub vault_ata: Address,
}

/// Accounts for a withdrawal from the vault with seed `vault`.
#[derive(Clone, Copy, Debug, PartialEq, Eq)]
pub struct Withdraw {
    pub user: Address,
    pub vault: [u8; 32],
    pub mint: Address,
    pub user_token_account: Address,
    pub vault_ata: Address,
}

/// Accounts for an administrator's sweep of the vault with seed `vault`;
/// `vault_ata_amount` is the custody account's current token balance.
#[derive(Clone, Copy, Debug, PartialEq, Eq)]
pub struct AdminWithdraw {
    pub admin: Address,
    pub vault: [u8; 32],
    pub mint: Address,
    pub vault_ata: Address,
    pub vault_ata_amount: u64,
    pub admin_token_account: Address,
}

} // verus!
