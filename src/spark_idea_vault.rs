use vstd::prelude::*;
use crate::accounts::{
    AdminWithdraw, Deposit, InitializeAdminConfig, InitializeVault, TogglePause, UpdateAdmin,
    Withdraw,
};
use crate::address::{bytes_equal, is_zero_address, Address};
use crate::allowed_mints::{is_allowed, mint_allowed};
use crate::digest::{sha256, sha256_of};
use crate::errors::ErrorCode;
use crate::events::{
    AdminConfigInitialized, AdminUpdated, AdminWithdrawn, PauseToggled, TokenTransfer,
    TransferAuthority, UserDeposited, UserWithdrawn, VaultInitialized,
};
use crate::state::{
    is_record_of, lemma_owed_update, lemma_pooled_none, lemma_push, lemma_same_ledger, lemma_pooled_update, owed_in, pooled_in, with_amount,
    with_total, AdminConfig, IdeaVault, UserDeposit, VaultProgram,
};

verus! {

/// The smallest deposit accepted, in base units of the token.
pub const MIN_DEPOSIT: u64 = 1000;

/// Whether `q` keeps the vaults, records and mint policy of `p`.
pub open spec fn same_ledger(p: VaultProgram, q: VaultProgram) -> bool {
    q.vaults == p.vaults && q.deposits == p.deposits && q.mint_whitelist == p.mint_whitelist
}

/// The configuration of `p`, where it exists.
pub open spec fn config(p: VaultProgram) -> AdminConfig {
    p.admin_config->0
}

// ---------------------------------------------------------------- configuration

/// Creates the configuration with the signer as administrator, unpaused.
/// Fails with `AlreadyInitialized` where it exists already.
pub fn initialize_admin_config(program: &mut VaultProgram, ctx: &InitializeAdminConfig) -> (r:
    Result<AdminConfigInitialized, ErrorCode>)
    requires
        old(program).wf(),
    ensures
        final(program).wf(),
        old(program).balanced() ==> final(program).balanced(),
        old(program).admin_config is Some ==> r == Err::<AdminConfigInitialized, ErrorCode>(
            ErrorCode::AlreadyInitialized,
        ) && *final(program) == *old(program),
        old(program).admin_config is None ==> r == Ok::<AdminConfigInitialized, ErrorCode>(
            AdminConfigInitialized { admin: ctx.admin },
        ) && final(program).admin_config == Some(AdminConfig { admin: ctx.admin, is_paused: false })
            && same_ledger(*old(program), *final(program)),
{
    if program.admin_config.is_some() {
        return Err(ErrorCode::AlreadyInitialized);
    }
    let ghost before = *program;
    program.admin_config = Some(AdminConfig { admin: ctx.admin, is_paused: false });
    proof {
        lemma_same_ledger(before, *program);
    }
    Ok(AdminConfigInitialized { admin: ctx.admin })
}

/// The first check that `update_admin` fails, if any.
pub open spec fn update_admin_error(p: VaultProgram, ctx: UpdateAdmin, new_admin: Address) -> Option<
    ErrorCode,
> {
    if p.admin_config is None {
        Some(ErrorCode::AccountNotInitialized)
    } else if ctx.admin@ != config(p).admin@ {
        Some(ErrorCode::Unauthorized)
    } else if is_zero_address(new_admin@) {
        Some(ErrorCode::InvalidAdmin)
    } else {
        None
    }
}

/// Hands the administrator role to `new_admin`; only the administrator may,
/// and the new one must not be the all-zero identity.
pub fn update_admin(program: &mut VaultProgram, ctx: &UpdateAdmin, new_admin: Address) -> (r:
    Result<AdminUpdated, ErrorCode>)
    requires
        old(program).wf(),
    ensures
        final(program).wf(),
        old(program).balanced() ==> final(program).balanced(),
        match update_admin_error(*old(program), *ctx, new_admin) {
            Some(e) => r == Err::<AdminUpdated, ErrorCode>(e) && *final(program) == *old(program),
            None => r == Ok::<AdminUpdated, ErrorCode>(
                AdminUpdated { old_admin: config(*old(program)).admin, new_admin },
            ) && final(program).admin_config == Some(
                AdminConfig { admin: new_admin, is_paused: config(*old(program)).is_paused },
            ) && same_ledger(*old(program), *final(program)),
        },
{
    let cfg = match &program.admin_config {
        None => return Err(ErrorCode::AccountNotInitialized),
        Some(c) => *c,
    };
    if !ctx.admin.same_as(&cfg.admin) {
        return Err(ErrorCode::Unauthorized);
    }
    if new_admin.is_zero() {
        return Err(ErrorCode::InvalidAdmin);
    }
    let ghost before = *program;
    program.admin_config = Some(AdminConfig { admin: new_admin, is_paused: cfg.is_paused });
    proof {
        lemma_same_ledger(before, *program);
    }
    Ok(AdminUpdated { old_admin: cfg.admin, new_admin })
}

/// The first check that `toggle_pause` fails, if any.
pub open spec fn toggle_pause_error(p: VaultProgram, ctx: TogglePause) -> Option<ErrorCode> {
    if p.admin_config is None {
        Some(ErrorCode::AccountNotInitialized)
    } else if ctx.admin@ != config(p).admin@ {
        Some(ErrorCode::Unauthorized)
    } else {
        None
    }
}

/// Flips the global pause flag; only the administrator may.
pub fn toggle_pause(program: &mut VaultProgram, ctx: &TogglePause) -> (r: Result<
    PauseToggled,
    ErrorCode,
>)
    requires
        old(program).wf(),
    ensures
        final(program).wf(),
        old(program).balanced() ==> final(program).balanced(),
        match toggle_pause_error(*old(program), *ctx) {
            Some(e) => r == Err::<PauseToggled, ErrorCode>(e) && *final(program) == *old(program),
            None => r == Ok::<PauseToggled, ErrorCode>(
                PauseToggled { is_paused: !config(*old(program)).is_paused, admin: ctx.admin },
            ) && final(program).admin_config == Some(
                AdminConfig { admin: config(*old(program)).admin, is_paused: !config(*old(program)).is_paused },
            ) && same_ledger(*old(program), *final(program)),
        },
{
    let cfg = match &program.admin_config {
        None => return Err(ErrorCode::AccountNotInitialized),
        Some(c) => *c,
    };
    if !ctx.admin.same_as(&cfg.admin) {
        return Err(ErrorCode::Unauthorized);
    }
    let ghost before = *program;
    program.admin_config = Some(AdminConfig { admin: cfg.admin, is_paused: !cfg.is_paused });
    proof {
        lemma_same_ledger(before, *program);
    }
    Ok(PauseToggled { is_paused: !cfg.is_paused, admin: ctx.admin })
}

} // verus!

verus! {

// ---------------------------------------------------------------- deposit

/// The first check that `deposit` fails, if any.
pub open spec fn deposit_error(p: VaultProgram, ctx: Deposit, amount: u64) -> Option<ErrorCode> {
    let seed = ctx.vault@;
    if p.admin_config is None {
        Some(ErrorCode::AccountNotInitialized)
    } else if config(p).is_paused {
        Some(ErrorCode::ProtocolPaused)
    } else if !p.has_vault(seed) {
        Some(ErrorCode::AccountNotInitialized)
    } else if p.vault(seed).mint@ != ctx.mint@ {
        Some(ErrorCode::InvalidMint)
    } else if p.vault(seed).vault_ata@ != ctx.vault_ata@ {
        Some(ErrorCode::InvalidVaultAta)
    } else if amount == 0 {
        Some(ErrorCode::InvalidAmount)
    } else if amount < MIN_DEPOSIT {
        Some(ErrorCode::AmountTooSmall)
    } else if p.owed(seed, ctx.user@) + amount > u64::MAX || p.vault(seed).total_deposited + amount
        > u64::MAX {
        Some(ErrorCode::Overflow)
    } else {
        None
    }
}

/// `q` is `p` after `amount` was credited to `user` in vault `seed`: the
/// vault's total and the depositor's record (created at zero where there was
/// none) both grow by `amount`, and nothing else changes.
pub open spec fn credited(p: VaultProgram, q: VaultProgram, seed: Seq<u8>, user: Address, amount: u64) -> bool {
    &&& q.admin_config == p.admin_config
    &&& q.mint_whitelist == p.mint_whitelist
    &&& q.vaults@.len() == p.vaults@.len()
    &&& forall|i: int|
        0 <= i < p.vaults@.len() ==> #[trigger] q.vaults@[i] == if p.vaults@[i].vault_seed@ == seed {
            with_total(p.vaults@[i], (p.vaults@[i].total_deposited + amount) as u64)
        } else {
            p.vaults@[i]
        }
    &&& if exists|k: int| 0 <= k < p.deposits@.len() && is_record_of(#[trigger] p.deposits@[k], seed, user@) {
        &&& q.deposits@.len() == p.deposits@.len()
        &&& forall|k: int|
            0 <= k < p.deposits@.len() ==> #[trigger] q.deposits@[k] == if is_record_of(
                p.deposits@[k],
                seed,
                user@,
            ) {
                with_amount(p.deposits@[k], (p.deposits@[k].amount + amount) as u64)
            } else {
                p.deposits@[k]
            }
    } else {
        q.deposits@ == p.deposits@.push(UserDeposit { vault: p.vault(seed).vault_seed, user, amount })
    }
    &&& q.has_vault(seed)
    &&& q.vault(seed) == with_total(p.vault(seed), (p.vault(seed).total_deposited + amount) as u64)
    &&& q.owed(seed, user@) == p.owed(seed, user@) + amount
    &&& forall|s: Seq<u8>, u: Seq<u8>|
        !(s == seed && u == user@) ==> #[trigger] q.owed(s, u) == p.owed(s, u)
}

/// Credits `amount` to the depositor in the vault, then asks for the tokens
/// to be moved from the depositor's token account into the vault's custody
/// account, with the depositor's signature.
pub fn deposit(program: &mut VaultProgram, ctx: &Deposit, amount: u64) -> (r: Result<
    (TokenTransfer, UserDeposited),
    ErrorCode,
>)
    requires
        old(program).wf(),
    ensures
        final(program).wf(),
        old(program).balanced() ==> final(program).balanced(),
        match deposit_error(*old(program), *ctx, amount) {
            Some(e) => r == Err::<(TokenTransfer, UserDeposited), ErrorCode>(e) && *final(program)
                == *old(program),
            None => credited(*old(program), *final(program), ctx.vault@, ctx.user, amount) && r
                == Ok::<(TokenTransfer, UserDeposited), ErrorCode>(
                (
                    TokenTransfer {
                        from: ctx.user_token_account,
                        to: ctx.vault_ata,
                        authority: TransferAuthority::Signer(ctx.user),
                        amount,
                    },
                    UserDeposited {
                        vault: ctx.vault,
                        user: ctx.user,
                        amount,
                        user_total: (old(program).owed(ctx.vault@, ctx.user@) + amount) as u64,
                        vault_total: (old(program).vault(ctx.vault@).total_deposited
                            + amount) as u64,
                    },
                ),
            ),
        },
{
    let cfg = match &program.admin_config {
        None => return Err(ErrorCode::AccountNotInitialized),
        Some(c) => *c,
    };
    if cfg.is_paused {
        return Err(ErrorCode::ProtocolPaused);
    }
    let vi = match program.find_vault(&ctx.vault) {
        None => return Err(ErrorCode::AccountNotInitialized),
        Some(i) => i,
    };
    if !program.vaults[vi].mint.same_as(&ctx.mint) {
        return Err(ErrorCode::InvalidMint);
    }
    if !program.vaults[vi].vault_ata.same_as(&ctx.vault_ata) {
        return Err(ErrorCode::InvalidVaultAta);
    }
    if amount == 0 {
        return Err(ErrorCode::InvalidAmount);
    }
    if amount < MIN_DEPOSIT {
        return Err(ErrorCode::AmountTooSmall);
    }
    let found = program.find_deposit(&ctx.vault, &ctx.user);
    let existing: u64 = match found {
        Some(k) => program.deposits[k].amount,
        None => 0,
    };
    let user_total = match existing.checked_add(amount) {
        None => return Err(ErrorCode::Overflow),
        Some(t) => t,
    };
    let vault_total = match program.vaults[vi].total_deposited.checked_add(amount) {
        None => return Err(ErrorCode::Overflow),
        Some(t) => t,
    };
    let ghost p = *program;
    let ghost seed = ctx.vault@;
    // Effects: the ledger is settled before any token moves.
    let v = &program.vaults[vi];
    let updated = IdeaVault {
        idea_id: v.idea_id.clone(),
        vault_seed: v.vault_seed,
        mint: v.mint,
        vault_ata: v.vault_ata,
        total_deposited: vault_total,
    };
    let vault_seed = v.vault_seed;
    program.vaults.set(vi, updated);
    match found {
        Some(k) => {
            let d = program.deposits[k];
            program.deposits.set(k, UserDeposit { vault: d.vault, user: d.user, amount: user_total });
        },
        None => {
            program.deposits.push(UserDeposit { vault: vault_seed, user: ctx.user, amount: user_total });
        },
    }
    proof {
        lemma_credit(p, *program, seed, ctx.user, amount, vi as int, found);
    }
    let transfer = TokenTransfer {
        from: ctx.user_token_account,
        to: ctx.vault_ata,
        authority: TransferAuthority::Signer(ctx.user),
        amount,
    };
    Ok((transfer, UserDeposited { vault: ctx.vault, user: ctx.user, amount, user_total, vault_total }))
}

/// The ledger after a credit is well formed, balanced where it was, and
/// related to the one before as `credited` says.
proof fn lemma_credit(
    p: VaultProgram,
    q: VaultProgram,
    seed: Seq<u8>,
    user: Address,
    amount: u64,
    vi: int,
    found: Option<usize>,
)
    requires
        p.wf(),
        0 <= vi < p.vaults@.len(),
        p.vaults@[vi].vault_seed@ == seed,
        p.vault(seed) == p.vaults@[vi],
        p.vaults@[vi].total_deposited + amount <= u64::MAX,
        p.owed(seed, user@) + amount <= u64::MAX,
        q.admin_config == p.admin_config,
        q.mint_whitelist == p.mint_whitelist,
        q.vaults@ == p.vaults@.update(
            vi,
            with_total(p.vaults@[vi], (p.vaults@[vi].total_deposited + amount) as u64),
        ),
        match found {
            Some(k) => k < p.deposits@.len() && is_record_of(p.deposits@[k as int], seed, user@)
                && p.owed(seed, user@) == p.deposits@[k as int].amount && q.deposits@
                == p.deposits@.update(
                k as int,
                with_amount(p.deposits@[k as int], (p.deposits@[k as int].amount + amount) as u64),
            ),
            None => (forall|k: int|
                0 <= k < p.deposits@.len() ==> !is_record_of(#[trigger] p.deposits@[k], seed, user@))
                && q.deposits@ == p.deposits@.push(
                UserDeposit { vault: p.vaults@[vi].vault_seed, user, amount },
            ),
        },
    ensures
        q.wf(),
        p.balanced() ==> q.balanced(),
        credited(p, q, seed, user, amount),
{
    assert forall|i: int| 0 <= i < p.vaults@.len() && i != vi implies p.vaults@[i].vault_seed@
        != seed by {
        if i < vi {
            assert(p.vaults@[i].vault_seed@ != p.vaults@[vi].vault_seed@);
        } else {
            assert(p.vaults@[vi].vault_seed@ != p.vaults@[i].vault_seed@);
        }
    }
    assert forall|s: Seq<u8>| #[trigger] q.has_vault(s) == p.has_vault(s) by {
        if p.has_vault(s) {
            let i = choose|i: int| 0 <= i < p.vaults@.len() && p.vaults@[i].vault_seed@ == s;
            assert(q.vaults@[i].vault_seed@ == s);
        }
        if q.has_vault(s) {
            let i = choose|i: int| 0 <= i < q.vaults@.len() && q.vaults@[i].vault_seed@ == s;
            assert(p.vaults@[i].vault_seed@ == s);
        }
    }
    let d = match found {
        Some(k) => with_amount(p.deposits@[k as int], (p.deposits@[k as int].amount + amount) as u64),
        None => UserDeposit { vault: p.vaults@[vi].vault_seed, user, amount },
    };
    match found {
        Some(k) => {
            let k = k as int;
            assert forall|s: Seq<u8>, u: Seq<u8>| #[trigger]
                owed_in(q.deposits@, s, u) == owed_in(p.deposits@, s, u) + if is_record_of(d, s, u) {
                    amount as int
                } else {
                    0
                } by {
                lemma_owed_update(p.deposits@, k, d, s, u);
            }
            assert forall|s: Seq<u8>| #[trigger]
                pooled_in(q.deposits@, s) == pooled_in(p.deposits@, s) + if d.vault@ == s {
                    amount as int
                } else {
                    0
                } by {
                lemma_pooled_update(p.deposits@, k, d, s);
            }
            assert(exists|j: int| 0 <= j < p.deposits@.len() && is_record_of(#[trigger] p.deposits@[j], seed, user@));
            assert forall|j: int| 0 <= j < q.deposits@.len() implies q.has_vault(
                #[trigger] q.deposits@[j].vault@,
            ) by {
                assert(p.has_vault(p.deposits@[j].vault@));
            }
            assert forall|i: int, j: int|
                0 <= i < j < q.deposits@.len() implies !is_record_of(
                q.deposits@[j],
                q.deposits@[i].vault@,
                q.deposits@[i].user@,
            ) by {
                assert(!is_record_of(p.deposits@[j], p.deposits@[i].vault@, p.deposits@[i].user@));
            }
        },
        None => {
            lemma_push(p.deposits@, d);
            assert(!exists|j: int| 0 <= j < p.deposits@.len() && is_record_of(#[trigger] p.deposits@[j], seed, user@));
            assert forall|j: int| 0 <= j < q.deposits@.len() implies q.has_vault(
                #[trigger] q.deposits@[j].vault@,
            ) by {
                if j < p.deposits@.len() {
                    assert(q.deposits@[j] == p.deposits@[j]);
                    assert(p.has_vault(p.deposits@[j].vault@));
                } else {
                    assert(q.vaults@[vi].vault_seed@ == seed);
                }
            }
            assert forall|i: int, j: int|
                0 <= i < j < q.deposits@.len() implies !is_record_of(
                q.deposits@[j],
                q.deposits@[i].vault@,
                q.deposits@[i].user@,
            ) by {
                assert(q.deposits@[i] == p.deposits@[i]);
                if j < p.deposits@.len() {
                    assert(q.deposits@[j] == p.deposits@[j]);
                    assert(!is_record_of(p.deposits@[j], p.deposits@[i].vault@, p.deposits@[i].user@));
                }
            }
        },
    }
    q.lemma_vault_at(seed, vi);
    if p.balanced() {
        assert forall|i: int| 0 <= i < q.vaults@.len() implies q.vaults@[i].total_deposited as int
            == pooled_in(q.deposits@, #[trigger] q.vaults@[i].vault_seed@) by {
            assert(p.vaults@[i].total_deposited as int == pooled_in(p.deposits@, p.vaults@[i].vault_seed@));
        }
    }
}

} // verus!

verus! {

// ---------------------------------------------------------------- withdraw

/// The first check that `withdraw` fails, if any.
pub open spec fn withdraw_error(p: VaultProgram, ctx: Withdraw, amount: u64) -> Option<ErrorCode> {
    let seed = ctx.vault@;
    if p.admin_config is None {
        Some(ErrorCode::AccountNotInitialized)
    } else if config(p).is_paused {
        Some(ErrorCode::ProtocolPaused)
    } else if !p.has_vault(seed) {
        Some(ErrorCode::AccountNotInitialized)
    } else if p.vault(seed).mint@ != ctx.mint@ {
        Some(ErrorCode::InvalidMint)
    } else if p.vault(seed).vault_ata@ != ctx.vault_ata@ {
        Some(ErrorCode::InvalidVaultAta)
    } else if amount == 0 {
        Some(ErrorCode::InvalidAmount)
    } else if p.owed(seed, ctx.user@) < amount {
        Some(ErrorCode::InsufficientDeposit)
    } else if p.vault(seed).total_deposited < amount {
        Some(ErrorCode::Overflow)
    } else {
        None
    }
}

/// `q` is `p` after `amount` was debited from `user`'s record in vault
/// `seed`: the record and the vault's total both shrink by `amount`, and
/// nothing else changes.
pub open spec fn debited(p: VaultProgram, q: VaultProgram, seed: Seq<u8>, user: Address, amount: u64) -> bool {
    &&& q.admin_config == p.admin_config
    &&& q.mint_whitelist == p.mint_whitelist
    &&& q.vaults@.len() == p.vaults@.len()
    &&& forall|i: int|
        0 <= i < p.vaults@.len() ==> #[trigger] q.vaults@[i] == if p.vaults@[i].vault_seed@ == seed {
            with_total(p.vaults@[i], (p.vaults@[i].total_deposited - amount) as u64)
        } else {
            p.vaults@[i]
        }
    &&& q.deposits@.len() == p.deposits@.len()
    &&& forall|k: int|
        0 <= k < p.deposits@.len() ==> #[trigger] q.deposits@[k] == if is_record_of(
            p.deposits@[k],
            seed,
            user@,
        ) {
            with_amount(p.deposits@[k], (p.deposits@[k].amount - amount) as u64)
        } else {
            p.deposits@[k]
        }
    &&& q.has_vault(seed)
    &&& q.vault(seed) == with_total(p.vault(seed), (p.vault(seed).total_deposited - amount) as u64)
    &&& q.owed(seed, user@) == p.owed(seed, user@) - amount
    &&& forall|s: Seq<u8>, u: Seq<u8>|
        !(s == seed && u == user@) ==> #[trigger] q.owed(s, u) == p.owed(s, u)
}

/// Debits `amount` from the depositor's record in the vault, then asks for
/// the tokens to be moved from the vault's custody account to the
/// depositor's token account, signed by the vault's derived authority.
pub fn withdraw(program: &mut VaultProgram, ctx: &Withdraw, amount: u64) -> (r: Result<
    (TokenTransfer, UserWithdrawn),
    ErrorCode,
>)
    requires
        old(program).wf(),
    ensures
        final(program).wf(),
        old(program).balanced() ==> final(program).balanced(),
        match withdraw_error(*old(program), *ctx, amount) {
            Some(e) => r == Err::<(TokenTransfer, UserWithdrawn), ErrorCode>(e) && *final(program)
                == *old(program),
            None => debited(*old(program), *final(program), ctx.vault@, ctx.user, amount) && r
                == Ok::<(TokenTransfer, UserWithdrawn), ErrorCode>(
                (
                    TokenTransfer {
                        from: ctx.vault_ata,
                        to: ctx.user_token_account,
                        authority: TransferAuthority::Vault(ctx.vault),
                        amount,
                    },
                    UserWithdrawn {
                        vault: ctx.vault,
                        user: ctx.user,
                        amount,
                        user_remaining: (old(program).owed(ctx.vault@, ctx.user@) - amount) as u64,
                        vault_total: (old(program).vault(ctx.vault@).total_deposited
                            - amount) as u64,
                    },
                ),
            ),
        },
{
    let cfg = match &program.admin_config {
        None => return Err(ErrorCode::AccountNotInitialized),
        Some(c) => *c,
    };
    if cfg.is_paused {
        return Err(ErrorCode::ProtocolPaused);
    }
    let vi = match program.find_vault(&ctx.vault) {
        None => return Err(ErrorCode::AccountNotInitialized),
        Some(i) => i,
    };
    if !program.vaults[vi].mint.same_as(&ctx.mint) {
        return Err(ErrorCode::InvalidMint);
    }
    if !program.vaults[vi].vault_ata.same_as(&ctx.vault_ata) {
        return Err(ErrorCode::InvalidVaultAta);
    }
    if amount == 0 {
        return Err(ErrorCode::InvalidAmount);
    }
    let k = match program.find_deposit(&ctx.vault, &ctx.user) {
        None => return Err(ErrorCode::InsufficientDeposit),
        Some(k) => k,
    };
    if program.deposits[k].amount < amount {
        return Err(ErrorCode::InsufficientDeposit);
    }
    let user_remaining = match program.deposits[k].amount.checked_sub(amount) {
        None => return Err(ErrorCode::Overflow),
        Some(t) => t,
    };
    let vault_total = match program.vaults[vi].total_deposited.checked_sub(amount) {
        None => return Err(ErrorCode::Overflow),
        Some(t) => t,
    };
    let ghost p = *program;
    let ghost seed = ctx.vault@;
    // Effects: the ledger is settled before any token moves.
    let v = &program.vaults[vi];
    let updated = IdeaVault {
        idea_id: v.idea_id.clone(),
        vault_seed: v.vault_seed,
        mint: v.mint,
        vault_ata: v.vault_ata,
        total_deposited: vault_total,
    };
    program.vaults.set(vi, updated);
    let d = program.deposits[k];
    program.deposits.set(k, UserDeposit { vault: d.vault, user: d.user, amount: user_remaining });
    proof {
        lemma_debit(p, *program, seed, ctx.user, amount, vi as int, k as int);
    }
    let transfer = TokenTransfer {
        from: ctx.vault_ata,
        to: ctx.user_token_account,
        authority: TransferAuthority::Vault(ctx.vault),
        amount,
    };
    Ok((transfer, UserWithdrawn { vault: ctx.vault, user: ctx.user, amount, user_remaining, vault_total }))
}

/// The ledger after a debit is well formed, balanced where it was, and
/// related to the one before as `debited` says.
proof fn lemma_debit(
    p: VaultProgram,
    q: VaultProgram,
    seed: Seq<u8>,
    user: Address,
    amount: u64,
    vi: int,
    k: int,
)
    requires
        p.wf(),
        0 <= vi < p.vaults@.len(),
        p.vaults@[vi].vault_seed@ == seed,
        p.vault(seed) == p.vaults@[vi],
        p.vaults@[vi].total_deposited >= amount,
        0 <= k < p.deposits@.len(),
        is_record_of(p.deposits@[k], seed, user@),
        p.owed(seed, user@) == p.deposits@[k].amount,
        p.deposits@[k].amount >= amount,
        q.admin_config == p.admin_config,
        q.mint_whitelist == p.mint_whitelist,
        q.vaults@ == p.vaults@.update(
            vi,
            with_total(p.vaults@[vi], (p.vaults@[vi].total_deposited - amount) as u64),
        ),
        q.deposits@ == p.deposits@.update(
            k,
            with_amount(p.deposits@[k], (p.deposits@[k].amount - amount) as u64),
        ),
    ensures
        q.wf(),
        p.balanced() ==> q.balanced(),
        debited(p, q, seed, user, amount),
{
    assert forall|i: int| 0 <= i < p.vaults@.len() && i != vi implies p.vaults@[i].vault_seed@
        != seed by {
        if i < vi {
            assert(p.vaults@[i].vault_seed@ != p.vaults@[vi].vault_seed@);
        } else {
            assert(p.vaults@[vi].vault_seed@ != p.vaults@[i].vault_seed@);
        }
    }
    assert forall|s: Seq<u8>| #[trigger] q.has_vault(s) == p.has_vault(s) by {
        if p.has_vault(s) {
            let i = choose|i: int| 0 <= i < p.vaults@.len() && p.vaults@[i].vault_seed@ == s;
            assert(q.vaults@[i].vault_seed@ == s);
        }
        if q.has_vault(s) {
            let i = choose|i: int| 0 <= i < q.vaults@.len() && q.vaults@[i].vault_seed@ == s;
            assert(p.vaults@[i].vault_seed@ == s);
        }
    }
    let d = with_amount(p.deposits@[k], (p.deposits@[k].amount - amount) as u64);
    assert forall|s: Seq<u8>, u: Seq<u8>| #[trigger]
        owed_in(q.deposits@, s, u) == owed_in(p.deposits@, s, u) - if is_record_of(d, s, u) {
            amount as int
        } else {
            0
        } by {
        lemma_owed_update(p.deposits@, k, d, s, u);
    }
    assert forall|s: Seq<u8>| #[trigger]
        pooled_in(q.deposits@, s) == pooled_in(p.deposits@, s) - if d.vault@ == s {
            amount as int
        } else {
            0
        } by {
        lemma_pooled_update(p.deposits@, k, d, s);
    }
    assert forall|j: int| 0 <= j < q.deposits@.len() implies q.has_vault(
        #[trigger] q.deposits@[j].vault@,
    ) by {
        assert(p.has_vault(p.deposits@[j].vault@));
    }
    assert forall|i: int, j: int|
        0 <= i < j < q.deposits@.len() implies !is_record_of(
        q.deposits@[j],
        q.deposits@[i].vault@,
        q.deposits@[i].user@,
    ) by {
        assert(!is_record_of(p.deposits@[j], p.deposits@[i].vault@, p.deposits@[i].user@));
    }
    assert forall|j: int| 0 <= j < p.deposits@.len() implies #[trigger] q.deposits@[j] == if is_record_of(
        p.deposits@[j],
        seed,
        user@,
    ) {
        with_amount(p.deposits@[j], (p.deposits@[j].amount - amount) as u64)
    } else {
        p.deposits@[j]
    } by {
        if j != k && is_record_of(p.deposits@[j], seed, user@) {
            if j < k {
                assert(!is_record_of(p.deposits@[k], p.deposits@[j].vault@, p.deposits@[j].user@));
            } else {
                assert(!is_record_of(p.deposits@[j], p.deposits@[k].vault@, p.deposits@[k].user@));
            }
        }
    }
    q.lemma_vault_at(seed, vi);
    if p.balanced() {
        assert forall|i: int| 0 <= i < q.vaults@.len() implies q.vaults@[i].total_deposited as int
            == pooled_in(q.deposits@, #[trigger] q.vaults@[i].vault_seed@) by {
            assert(p.vaults@[i].total_deposited as int == pooled_in(p.deposits@, p.vaults@[i].vault_seed@));
        }
    }
}

} // verus!

verus! {

// ---------------------------------------------------------------- vaults

/// The longest campaign identifier accepted, in bytes.
pub const MAX_IDEA_ID_LEN: usize = 64;

/// The UTF-8 bytes of a campaign identifier.
pub open spec fn idea_bytes(idea_id: String) -> Seq<u8> {
    vstd::utf8::encode_utf8(idea_id@)
}

/// The first check that creating a vault fails, if any, where `digest` is
/// the SHA-256 digest of the identifier's bytes.
pub open spec fn initialize_vault_error(
    p: VaultProgram,
    ctx: InitializeVault,
    idea_id: String,
    vault_seed: Seq<u8>,
    digest: Seq<u8>,
) -> Option<ErrorCode> {
    if p.admin_config is None {
        Some(ErrorCode::AccountNotInitialized)
    } else if config(p).is_paused {
        Some(ErrorCode::ProtocolPaused)
    } else if p.has_vault(vault_seed) {
        Some(ErrorCode::AlreadyInitialized)
    } else if idea_bytes(idea_id).len() > MAX_IDEA_ID_LEN {
        Some(ErrorCode::IdeaIdTooLong)
    } else if idea_bytes(idea_id).len() == 0 {
        Some(ErrorCode::IdeaIdEmpty)
    } else if digest != vault_seed {
        Some(ErrorCode::InvalidVaultSeed)
    } else if p.mint_whitelist && !mint_allowed(ctx.mint@) {
        Some(ErrorCode::UnauthorizedMint)
    } else {
        None
    }
}

/// The vault that a successful creation records.
pub open spec fn new_vault(ctx: InitializeVault, idea_id: String, vault_seed: [u8; 32]) -> IdeaVault {
    IdeaVault { idea_id, vault_seed, mint: ctx.mint, vault_ata: ctx.vault_ata, total_deposited: 0 }
}

/// The event that a successful creation emits.
pub open spec fn vault_initialized(ctx: InitializeVault, idea_id: String, vault_seed: [u8; 32]) -> VaultInitialized {
    VaultInitialized { vault: vault_seed, idea_id, mint: ctx.mint, initialized_by: ctx.payer }
}

/// Creates the vault for a campaign, given the SHA-256 digest of the
/// identifier's bytes: the seed must equal that digest, the identifier must
/// hold 1 to 64 bytes, the mint must be whitelisted (unless the program is a
/// local test deployment), and no vault may exist for the seed.
pub fn initialize_vault_with_digest(
    program: &mut VaultProgram,
    ctx: &InitializeVault,
    idea_id: String,
    vault_seed: [u8; 32],
    digest: &[u8; 32],
) -> (r: Result<VaultInitialized, ErrorCode>)
    requires
        old(program).wf(),
    ensures
        final(program).wf(),
        old(program).balanced() ==> final(program).balanced(),
        match initialize_vault_error(*old(program), *ctx, idea_id, vault_seed@, digest@) {
            Some(e) => r == Err::<VaultInitialized, ErrorCode>(e) && *final(program) == *old(program),
            None => r == Ok::<VaultInitialized, ErrorCode>(vault_initialized(*ctx, idea_id, vault_seed))
                && final(program).admin_config == old(program).admin_config
                && final(program).mint_whitelist == old(program).mint_whitelist
                && final(program).deposits == old(program).deposits
                && final(program).vaults@ == old(program).vaults@.push(new_vault(*ctx, idea_id, vault_seed)),
        },
{
    let cfg = match &program.admin_config {
        None => return Err(ErrorCode::AccountNotInitialized),
        Some(c) => *c,
    };
    if cfg.is_paused {
        return Err(ErrorCode::ProtocolPaused);
    }
    if program.find_vault(&vault_seed).is_some() {
        return Err(ErrorCode::AlreadyInitialized);
    }
    let len = idea_id.as_str().as_bytes().len();
    if len > MAX_IDEA_ID_LEN {
        return Err(ErrorCode::IdeaIdTooLong);
    }
    if len == 0 {
        return Err(ErrorCode::IdeaIdEmpty);
    }
    if !bytes_equal(digest, &vault_seed) {
        return Err(ErrorCode::InvalidVaultSeed);
    }
    if program.mint_whitelist && !is_allowed(&ctx.mint) {
        return Err(ErrorCode::UnauthorizedMint);
    }
    let ghost p = *program;
    let event = VaultInitialized {
        vault: vault_seed,
        idea_id: idea_id.clone(),
        mint: ctx.mint,
        initialized_by: ctx.payer,
    };
    program.vaults.push(
        IdeaVault { idea_id, vault_seed, mint: ctx.mint, vault_ata: ctx.vault_ata, total_deposited: 0 },
    );
    proof {
        lemma_vault_added(p, *program, vault_seed@);
    }
    Ok(event)
}

/// Creates the vault for a campaign as `initialize_vault_with_digest` does,
/// with the digest of the identifier computed here.
pub fn initialize_vault(
    program: &mut VaultProgram,
    ctx: &InitializeVault,
    idea_id: String,
    vault_seed: [u8; 32],
) -> (r: Result<VaultInitialized, ErrorCode>)
    requires
        old(program).wf(),
    ensures
        final(program).wf(),
        old(program).balanced() ==> final(program).balanced(),
        match initialize_vault_error(
            *old(program),
            *ctx,
            idea_id,
            vault_seed@,
            sha256_of(idea_bytes(idea_id)),
        ) {
            Some(e) => r == Err::<VaultInitialized, ErrorCode>(e) && *final(program) == *old(program),
            None => r == Ok::<VaultInitialized, ErrorCode>(vault_initialized(*ctx, idea_id, vault_seed))
                && final(program).admin_config == old(program).admin_config
                && final(program).mint_whitelist == old(program).mint_whitelist
                && final(program).deposits == old(program).deposits
                && final(program).vaults@ == old(program).vaults@.push(new_vault(*ctx, idea_id, vault_seed)),
        },
{
    let digest = sha256(idea_id.as_str().as_bytes());
    initialize_vault_with_digest(program, ctx, idea_id, vault_seed, &digest)
}

/// Appending a vault under a fresh seed keeps the invariants, and the new
/// vault, which no record refers to, is balanced at zero.
proof fn lemma_vault_added(p: VaultProgram, q: VaultProgram, seed: Seq<u8>)
    requires
        p.wf(),
        !p.has_vault(seed),
        q.deposits@ == p.deposits@,
        q.vaults@.len() == p.vaults@.len() + 1,
        forall|i: int| 0 <= i < p.vaults@.len() ==> q.vaults@[i] == p.vaults@[i],
        q.vaults@.last().vault_seed@ == seed,
        q.vaults@.last().total_deposited == 0,
    ensures
        q.wf(),
        p.balanced() ==> q.balanced(),
{
    assert forall|i: int, j: int|
        0 <= i < j < q.vaults@.len() implies q.vaults@[i].vault_seed@ != q.vaults@[j].vault_seed@ by {
        if j == p.vaults@.len() {
            assert(p.vaults@[i].vault_seed@ != seed);
        }
    }
    assert forall|k: int| 0 <= k < q.deposits@.len() implies q.has_vault(
        #[trigger] q.deposits@[k].vault@,
    ) by {
        assert(p.has_vault(p.deposits@[k].vault@));
        let i = choose|i: int|
            0 <= i < p.vaults@.len() && p.vaults@[i].vault_seed@ == p.deposits@[k].vault@;
        assert(q.vaults@[i] == p.vaults@[i]);
    }
    assert forall|k: int| 0 <= k < p.deposits@.len() implies (#[trigger] p.deposits@[k]).vault@ != seed by {
        assert(p.has_vault(p.deposits@[k].vault@));
    }
    lemma_pooled_none(p.deposits@, seed);
    if p.balanced() {
        assert forall|i: int| 0 <= i < q.vaults@.len() implies q.vaults@[i].total_deposited as int
            == pooled_in(q.deposits@, #[trigger] q.vaults@[i].vault_seed@) by {
            if i < p.vaults@.len() {
                assert(p.vaults@[i].total_deposited as int == pooled_in(p.deposits@, p.vaults@[i].vault_seed@));
            }
        }
    }
}

// ---------------------------------------------------------------- sweep

/// The first check that `admin_withdraw` fails, if any. The pause flag plays
/// no part.
pub open spec fn admin_withdraw_error(p: VaultProgram, ctx: AdminWithdraw) -> Option<ErrorCode> {
    let seed = ctx.vault@;
    if p.admin_config is None {
        Some(ErrorCode::AccountNotInitialized)
    } else if ctx.admin@ != config(p).admin@ {
        Some(ErrorCode::Unauthorized)
    } else if !p.has_vault(seed) {
        Some(ErrorCode::AccountNotInitialized)
    } else if p.vault(seed).mint@ != ctx.mint@ {
        Some(ErrorCode::InvalidMint)
    } else if p.vault(seed).vault_ata@ != ctx.vault_ata@ {
        Some(ErrorCode::InvalidVaultAta)
    } else if ctx.vault_ata_amount == 0 {
        Some(ErrorCode::InvalidAmount)
    } else {
        None
    }
}

/// The administrator's emergency sweep: sets the vault's total to zero and
/// asks for the custody account's whole balance to be moved to the
/// administrator's token account, signed by the vault's derived authority.
/// The depositors' records are left as they are, so the vault's total no
/// longer matches them afterwards.
pub fn admin_withdraw(program: &mut VaultProgram, ctx: &AdminWithdraw) -> (r: Result<
    (TokenTransfer, AdminWithdrawn),
    ErrorCode,
>)
    requires
        old(program).wf(),
    ensures
        final(program).wf(),
        match admin_withdraw_error(*old(program), *ctx) {
            Some(e) => r == Err::<(TokenTransfer, AdminWithdrawn), ErrorCode>(e) && *final(program)
                == *old(program),
            None => r == Ok::<(TokenTransfer, AdminWithdrawn), ErrorCode>(
                (
                    TokenTransfer {
                        from: ctx.vault_ata,
                        to: ctx.admin_token_account,
                        authority: TransferAuthority::Vault(ctx.vault),
                        amount: ctx.vault_ata_amount,
                    },
                    AdminWithdrawn { vault: ctx.vault, admin: ctx.admin, amount: ctx.vault_ata_amount },
                ),
            ) && final(program).admin_config == old(program).admin_config
                && final(program).mint_whitelist == old(program).mint_whitelist
                && final(program).deposits == old(program).deposits
                && final(program).vaults@.len() == old(program).vaults@.len()
                && forall|i: int|
                0 <= i < old(program).vaults@.len() ==> #[trigger] final(program).vaults@[i] == if old(
                    program,
                ).vaults@[i].vault_seed@ == ctx.vault@ {
                    with_total(old(program).vaults@[i], 0)
                } else {
                    old(program).vaults@[i]
                },
        },
{
    let cfg = match &program.admin_config {
        None => return Err(ErrorCode::AccountNotInitialized),
        Some(c) => *c,
    };
    if !ctx.admin.same_as(&cfg.admin) {
        return Err(ErrorCode::Unauthorized);
    }
    let vi = match program.find_vault(&ctx.vault) {
        None => return Err(ErrorCode::AccountNotInitialized),
        Some(i) => i,
    };
    if !program.vaults[vi].mint.same_as(&ctx.mint) {
        return Err(ErrorCode::InvalidMint);
    }
    if !program.vaults[vi].vault_ata.same_as(&ctx.vault_ata) {
        return Err(ErrorCode::InvalidVaultAta);
    }
    let amount = ctx.vault_ata_amount;
    if amount == 0 {
        return Err(ErrorCode::InvalidAmount);
    }
    let ghost p = *program;
    // Effects: the vault's total is cleared before any token moves.
    let v = &program.vaults[vi];
    let updated = IdeaVault {
        idea_id: v.idea_id.clone(),
        vault_seed: v.vault_seed,
        mint: v.mint,
        vault_ata: v.vault_ata,
        total_deposited: 0,
    };
    program.vaults.set(vi, updated);
    proof {
        assert forall|i: int| 0 <= i < p.vaults@.len() && i != vi implies p.vaults@[i].vault_seed@
            != ctx.vault@ by {
            if i < vi {
                assert(p.vaults@[i].vault_seed@ != p.vaults@[vi as int].vault_seed@);
            } else {
                assert(p.vaults@[vi as int].vault_seed@ != p.vaults@[i].vault_seed@);
            }
        }
        assert forall|k: int| 0 <= k < program.deposits@.len() implies program.has_vault(
            #[trigger] program.deposits@[k].vault@,
        ) by {
            assert(p.has_vault(p.deposits@[k].vault@));
            let i = choose|i: int|
                0 <= i < p.vaults@.len() && p.vaults@[i].vault_seed@ == p.deposits@[k].vault@;
            assert(program.vaults@[i].vault_seed@ == p.vaults@[i].vault_seed@);
        }
    }
    let transfer = TokenTransfer {
        from: ctx.vault_ata,
        to: ctx.admin_token_account,
        authority: TransferAuthority::Vault(ctx.vault),
        amount,
    };
    Ok((transfer, AdminWithdrawn { vault: ctx.vault, admin: ctx.admin, amount }))
}

} // verus!
