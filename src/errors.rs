use vstd::prelude::*;

verus! {

/// Why an operation was rejected. A rejected operation changes nothing.
#[derive(Clone, Copy, Debug, PartialEq, Eq)]
pub enum ErrorCode {
    /// The campaign identifier is longer than 64 bytes.
    IdeaIdTooLong,
    /// The campaign identifier is empty.
    IdeaIdEmpty,
    /// The amount is zero, or the custody account holds nothing to sweep.
    InvalidAmount,
    /// A deposit below the dust floor.
    AmountTooSmall,
    /// A withdrawal above the depositor's recorded balance.
    InsufficientDeposit,
    /// A balance would leave the range of `u64`.
    Overflow,
    /// The presented mint is not the vault's mint.
    InvalidMint,
    /// The mint is not on the whitelist.
    UnauthorizedMint,
    /// The presented custody account is not the vault's.
    InvalidVaultAta,
    /// The vault seed is not the digest of the campaign identifier.
    InvalidVaultSeed,
    /// The caller is not the administrator.
    Unauthorized,
    /// The protocol is paused.
    ProtocolPaused,
    /// The new administrator is the all-zero identity.
    InvalidAdmin,
    /// The record to create exists already.
    AlreadyInitialized,
    /// A record that the operation reads does not exist.
    AccountNotInitialized,
}

impl ErrorCode {
    /// A short human-readable description.
    pub fn message(&self) -> (r: &'static str) {
        match self {
            ErrorCode::IdeaIdTooLong => "Idea id must be 64 characters or less",
            ErrorCode::IdeaIdEmpty => "Idea id cannot be empty",
            ErrorCode::InvalidAmount => "Amount must be greater than zero",
            ErrorCode::AmountTooSmall => "Amount too small - minimum deposit is 0.001 USDC",
            ErrorCode::InsufficientDeposit => "Insufficient deposit to withdraw",
            ErrorCode::Overflow => "Arithmetic overflow",
            ErrorCode::InvalidMint => "Invalid mint",
            ErrorCode::UnauthorizedMint => "Unauthorized mint - only USDC is allowed",
            ErrorCode::InvalidVaultAta => "Invalid vault ATA",
            ErrorCode::InvalidVaultSeed => "Vault seed must be SHA256(idea_id)",
            ErrorCode::Unauthorized => "Unauthorized",
            ErrorCode::ProtocolPaused => "Protocol is paused",
            ErrorCode::InvalidAdmin => "Invalid admin address",
            ErrorCode::AlreadyInitialized => "Account already initialized",
            ErrorCode::AccountNotInitialized => "Account not initialized",
        }
    }
}

} // verus!
