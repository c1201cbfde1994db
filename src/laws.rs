use vstd::prelude::*;
use crate::accounts::{
    AdminWithdraw, Deposit, InitializeVault, TogglePause, UpdateAdmin, Withdraw,
};
use crate::address::Address;
use crate::errors::ErrorCode;
use crate::spark_idea_vault::{
    admin_withdraw_error, config, credited, debited, deposit_error, initialize_vault_error,
    new_vault, toggle_pause_error, update_admin_error, withdraw_error, MIN_DEPOSIT,
};
use crate::state::{AdminConfig, VaultProgram};

verus! {

/// Creating a vault a second time with the same identifier and seed fails
/// with `AlreadyInitialized`: the first creation occupied the seed.
pub proof fn lemma_second_initialization_rejected(
    p: VaultProgram,
    q: VaultProgram,
    ctx: InitializeVault,
    idea_id: String,
    vault_seed: [u8; 32],
    digest: Seq<u8>,
    ctx2: InitializeVault,
)
    requires
        p.wf(),
        initialize_vault_error(p, ctx, idea_id, vault_seed@, digest) is None,
        q.admin_config == p.admin_config,
        q.mint_whitelist == p.mint_whitelist,
        q.deposits == p.deposits,
        q.vaults@ == p.vaults@.push(new_vault(ctx, idea_id, vault_seed)),
    ensures
        initialize_vault_error(q, ctx2, idea_id, vault_seed@, digest) == Some(
            ErrorCode::AlreadyInitialized,
        ),
{
    assert(q.vaults@[p.vaults@.len() as int].vault_seed@ == vault_seed@);
}

/// A deposit followed by a withdrawal of the same amount, by the same
/// depositor through the same accounts, succeeds and restores both the
/// depositor's balance and the vault's total.
pub proof fn lemma_deposit_then_withdraw(
    p: VaultProgram,
    q: VaultProgram,
    r: VaultProgram,
    dctx: Deposit,
    wctx: Withdraw,
    amount: u64,
)
    requires
        p.wf(),
        deposit_error(p, dctx, amount) is None,
        credited(p, q, dctx.vault@, dctx.user, amount),
        wctx.user == dctx.user,
        wctx.vault == dctx.vault,
        wctx.mint == dctx.mint,
        wctx.vault_ata == dctx.vault_ata,
        debited(q, r, wctx.vault@, wctx.user, amount),
    ensures
        withdraw_error(q, wctx, amount) is None,
        r.owed(dctx.vault@, dctx.user@) == p.owed(dctx.vault@, dctx.user@),
        r.vault(dctx.vault@).total_deposited == p.vault(dctx.vault@).total_deposited,
{
    owed_nonnegative(p.deposits@, dctx.vault@, dctx.user@);
}

/// With the protocol running and the vault's accounts presented, a deposit
/// of 1 to 999 base units fails with `AmountTooSmall`, and one of exactly
/// 1000 succeeds unless a balance would overflow.
pub proof fn lemma_dust_floor(p: VaultProgram, ctx: Deposit, amount: u64)
    requires
        p.admin_config is Some,
        !config(p).is_paused,
        p.has_vault(ctx.vault@),
        p.vault(ctx.vault@).mint@ == ctx.mint@,
        p.vault(ctx.vault@).vault_ata@ == ctx.vault_ata@,
    ensures
        0 < amount < MIN_DEPOSIT ==> deposit_error(p, ctx, amount) == Some(ErrorCode::AmountTooSmall),
        amount == MIN_DEPOSIT && p.owed(ctx.vault@, ctx.user@) + amount <= u64::MAX
            && p.vault(ctx.vault@).total_deposited + amount <= u64::MAX ==> deposit_error(
            p,
            ctx,
            amount,
        ) is None,
{
}

/// With the protocol running and the vault's accounts presented, a
/// withdrawal above the depositor's balance fails with
/// `InsufficientDeposit`, whatever the vault's total.
pub proof fn lemma_overdraw_rejected(p: VaultProgram, ctx: Withdraw, amount: u64)
    requires
        p.admin_config is Some,
        !config(p).is_paused,
        p.has_vault(ctx.vault@),
        p.vault(ctx.vault@).mint@ == ctx.mint@,
        p.vault(ctx.vault@).vault_ata@ == ctx.vault_ata@,
        amount > p.owed(ctx.vault@, ctx.user@),
        p.wf(),
    ensures
        withdraw_error(p, ctx, amount) == Some(ErrorCode::InsufficientDeposit),
{
    owed_nonnegative(p.deposits@, ctx.vault@, ctx.user@);
}

/// No depositor is owed a negative amount.
proof fn owed_nonnegative(ds: Seq<crate::state::UserDeposit>, seed: Seq<u8>, user: Seq<u8>)
    ensures
        crate::state::owed_in(ds, seed, user) >= 0,
    decreases ds.len(),
{
    if ds.len() > 0 {
        owed_nonnegative(ds.drop_last(), seed, user);
    }
}

/// While paused, creating a vault, depositing and withdrawing all fail with
/// `ProtocolPaused`; the administrator's sweep does not depend on the pause
/// flag.
pub proof fn lemma_pause_gates(
    p: VaultProgram,
    unpaused: VaultProgram,
    vctx: InitializeVault,
    idea_id: String,
    vault_seed: Seq<u8>,
    digest: Seq<u8>,
    dctx: Deposit,
    damount: u64,
    wctx: Withdraw,
    wamount: u64,
    actx: AdminWithdraw,
)
    requires
        p.admin_config is Some,
        config(p).is_paused,
        unpaused.admin_config == Some(AdminConfig { admin: config(p).admin, is_paused: false }),
        unpaused.vaults == p.vaults,
        unpaused.deposits == p.deposits,
        unpaused.mint_whitelist == p.mint_whitelist,
    ensures
        initialize_vault_error(p, vctx, idea_id, vault_seed, digest) == Some(ErrorCode::ProtocolPaused),
        deposit_error(p, dctx, damount) == Some(ErrorCode::ProtocolPaused),
        withdraw_error(p, wctx, wamount) == Some(ErrorCode::ProtocolPaused),
        admin_withdraw_error(p, actx) == admin_withdraw_error(unpaused, actx),
{
}

/// Once the configuration exists, any caller other than the administrator
/// fails with `Unauthorized` at replacing the administrator, at pausing and
/// at sweeping a vault.
pub proof fn lemma_admin_only(
    p: VaultProgram,
    caller: Address,
    new_admin: Address,
    vault: [u8; 32],
    mint: Address,
    vault_ata: Address,
    vault_ata_amount: u64,
    admin_token_account: Address,
)
    requires
        p.admin_config is Some,
        caller@ != config(p).admin@,
    ensures
        update_admin_error(p, UpdateAdmin { admin: caller }, new_admin) == Some(
            ErrorCode::Unauthorized,
        ),
        toggle_pause_error(p, TogglePause { admin: caller }) == Some(ErrorCode::Unauthorized),
        admin_withdraw_error(
            p,
            AdminWithdraw { admin: caller, vault, mint, vault_ata, vault_ata_amount, admin_token_account },
        ) == Some(ErrorCode::Unauthorized),
{
}

} // verus!
