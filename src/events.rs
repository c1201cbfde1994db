use vstd::prelude::*;
use crate::address::Address;

verus! {

/// The configuration was created with `admin` as administrator.
#[derive(Clone, Copy, Debug, PartialEq, Eq)]
pub struct AdminConfigInitialized {
    pub admin: Address,
}

/// The administrator changed.
#[derive(Clone, Copy, Debug, PartialEq, Eq)]
pub struct AdminUpdated {
    pub old_admin: Address,
    pub new_admin: Address,
}

/// The pause flag was flipped; `is_paused` is its new value.
#[derive(Clone, Copy, Debug, PartialEq, Eq)]
pub struct PauseToggled {
    pub is_paused: bool,
    pub admin: Address,
}

/// A vault was created; `vault` is its seed.
#[derive(Clone, Debug, PartialEq, Eq)]
pub struct VaultInitialized {
    pub vault: [u8; 32],
    pub idea_id: String,
    pub mint: Address,
    pub initialized_by: Address,
}

/// A deposit was recorded, with the resulting totals.
#[derive(Clone, Copy, Debug, PartialEq, Eq)]
pub struct UserDeposited {
    pub vault: [u8; 32],
    pub user: Address,
    pub amount: u64,
    pub user_total: u64,
    pub vault_total: u64,
}

/// A withdrawal was recorded, with the resulting totals.
#[derive(Clone, Copy, Debug, PartialEq, Eq)]
pub struct UserWithdrawn {
    pub vault: [u8; 32],
    pub user: Address,
    pub amount: u64,
    pub user_remaining: u64,
    pub vault_total: u64,
}

/// The administrator swept a vault's custody balance.
#[derive(Clone, Copy, Debug, PartialEq, Eq)]
pub struct AdminWithdrawn {
    pub vault: [u8; 32],
    pub admin: Address,
    pub amount: u64,
}

/// Who authorises a token transfer.
#[derive(Clone, Copy, Debug, PartialEq, Eq)]
pub enum TransferAuthority {
    /// The holder of the source account signs.
    Signer(Address),
    /// The vault with this seed signs through its derived authority.
    Vault([u8; 32]),
}

/// A token movement that the caller must carry out after the ledger was
/// updated; if it fails, the whole operation is to be undone.
#[derive(Clone, Copy, Debug, PartialEq, Eq)]
pub struct TokenTransfer {
    pub from: Address,
    pub to: Address,
    pub authority: TransferAuthority,
    pub amount: u64,
}

} // verus!
