use vstd::prelude::*;
use crate::address::{bytes_equal, Address};

verus! {

/// The singleton configuration: the administrator and the global pause flag.
#[derive(Clone, Copy, Debug, PartialEq, Eq)]
pub struct AdminConfig {
    pub admin: Address,
    pub is_paused: bool,
}

/// One campaign's vault, addressed by `vault_seed`.
#[derive(Clone, Debug, PartialEq, Eq)]
pub struct IdeaVault {
    pub idea_id: String,
    pub vault_seed: [u8; 32],
    pub mint: Address,
    pub vault_ata: Address,
    pub total_deposited: u64,
}

/// What the vault with seed `vault` owes to `user`.
#[derive(Clone, Copy, Debug, PartialEq, Eq)]
pub struct UserDeposit {
    pub vault: [u8; 32],
    pub user: Address,
    pub amount: u64,
}

/// Every record of the program: the configuration once it exists, the vaults,
/// and the depositors' records. `mint_whitelist` is false only in local test
/// deployments, which accept any mint.
#[derive(Clone, Debug, PartialEq, Eq)]
pub struct VaultProgram {
    pub admin_config: Option<AdminConfig>,
    pub vaults: Vec<IdeaVault>,
    pub deposits: Vec<UserDeposit>,
    pub mint_whitelist: bool,
}

/// `v` with its total replaced by `t`.
pub open spec fn with_total(v: IdeaVault, t: u64) -> IdeaVault {
    IdeaVault {
        idea_id: v.idea_id,
        vault_seed: v.vault_seed,
        mint: v.mint,
        vault_ata: v.vault_ata,
        total_deposited: t,
    }
}

/// `d` with its amount replaced by `a`.
pub open spec fn with_amount(d: UserDeposit, a: u64) -> UserDeposit {
    UserDeposit { vault: d.vault, user: d.user, amount: a }
}

/// Whether `d` is the record of `user` in the vault with seed `seed`.
pub open spec fn is_record_of(d: UserDeposit, seed: Seq<u8>, user: Seq<u8>) -> bool {
    d.vault@ == seed && d.user@ == user
}

/// The sum of the amounts that the records in `ds` give to `user` in vault `seed`.
pub open spec fn owed_in(ds: Seq<UserDeposit>, seed: Seq<u8>, user: Seq<u8>) -> int
    decreases ds.len(),
{
    if ds.len() == 0 {
        0
    } else {
        owed_in(ds.drop_last(), seed, user) + if is_record_of(ds.last(), seed, user) {
            ds.last().amount as int
        } else {
            0
        }
    }
}

/// The sum of the amounts of all records in `ds` of vault `seed`.
pub open spec fn pooled_in(ds: Seq<UserDeposit>, seed: Seq<u8>) -> int
    decreases ds.len(),
{
    if ds.len() == 0 {
        0
    } else {
        pooled_in(ds.drop_last(), seed) + if ds.last().vault@ == seed {
            ds.last().amount as int
        } else {
            0
        }
    }
}

impl VaultProgram {
    /// Vault seeds are unique, each depositor has at most one record per
    /// vault, and every record belongs to an existing vault.
    pub open spec fn wf(&self) -> bool {
        &&& forall|i: int, j: int|
            0 <= i < j < self.vaults@.len() ==> self.vaults@[i].vault_seed@
                != self.vaults@[j].vault_seed@
        &&& forall|i: int, j: int|
            0 <= i < j < self.deposits@.len() ==> !is_record_of(
                self.deposits@[j],
                self.deposits@[i].vault@,
                self.deposits@[i].user@,
            )
        &&& forall|k: int|
            0 <= k < self.deposits@.len() ==> self.has_vault(#[trigger] self.deposits@[k].vault@)
    }

    /// Whether a vault with this seed exists.
    pub open spec fn has_vault(&self, seed: Seq<u8>) -> bool {
        exists|i: int| 0 <= i < self.vaults@.len() && self.vaults@[i].vault_seed@ == seed
    }

    /// The vault with this seed, where one exists.
    pub open spec fn vault(&self, seed: Seq<u8>) -> IdeaVault {
        self.vaults@[choose|i: int| 0 <= i < self.vaults@.len() && self.vaults@[i].vault_seed@ == seed]
    }

    /// What the vault with this seed owes to `user` by the records.
    pub open spec fn owed(&self, seed: Seq<u8>, user: Seq<u8>) -> int {
        owed_in(self.deposits@, seed, user)
    }

    /// Every vault's total equals the sum of its depositors' balances.
    pub open spec fn balanced(&self) -> bool {
        forall|i: int|
            0 <= i < self.vaults@.len() ==> self.vaults@[i].total_deposited as int == pooled_in(
                self.deposits@,
                #[trigger] self.vaults@[i].vault_seed@,
            )
    }

    /// A program with no configuration and no vaults, which accepts only
    /// whitelisted mints.
    pub fn new() -> (r: VaultProgram)
        ensures
            r.wf(),
            r.balanced(),
            r.admin_config is None,
            r.vaults@.len() == 0,
            r.deposits@.len() == 0,
            r.mint_whitelist,
    {
        VaultProgram { admin_config: None, vaults: Vec::new(), deposits: Vec::new(), mint_whitelist: true }
    }

    /// A program for local test deployments, which accepts any mint.
    pub fn new_local() -> (r: VaultProgram)
        ensures
            r.wf(),
            r.balanced(),
            r.admin_config is None,
            r.vaults@.len() == 0,
            r.deposits@.len() == 0,
            !r.mint_whitelist,
    {
        VaultProgram { admin_config: None, vaults: Vec::new(), deposits: Vec::new(), mint_whitelist: false }
    }

    /// The position of the vault with this seed.
    pub fn find_vault(&self, seed: &[u8; 32]) -> (r: Option<usize>)
        requires
            self.wf(),
        ensures
            match r {
                Some(i) => i < self.vaults@.len() && self.vaults@[i as int].vault_seed@ == seed@
                    && self.vault(seed@) == self.vaults@[i as int],
                None => !self.has_vault(seed@),
            },
    {
        let mut i: usize = 0;
        while i < self.vaults.len()
            invariant
                self.wf(),
                i <= self.vaults@.len(),
                forall|j: int| 0 <= j < i ==> self.vaults@[j].vault_seed@ != seed@,
            decreases self.vaults@.len() - i,
        {
            if bytes_equal(&self.vaults[i].vault_seed, seed) {
                proof {
                    self.lemma_vault_at(seed@, i as int);
                }
                return Some(i);
            }
            i = i + 1;
        }
        None
    }

    /// The position of `user`'s record in the vault with this seed.
    pub fn find_deposit(&self, seed: &[u8; 32], user: &Address) -> (r: Option<usize>)
        requires
            self.wf(),
        ensures
            match r {
                Some(k) => k < self.deposits@.len() && is_record_of(
                    self.deposits@[k as int],
                    seed@,
                    user@,
                ) && self.owed(seed@, user@) == self.deposits@[k as int].amount,
                None => (forall|k: int|
                    0 <= k < self.deposits@.len() ==> !is_record_of(
                        #[trigger] self.deposits@[k],
                        seed@,
                        user@,
                    )) && self.owed(seed@, user@) == 0,
            },
    {
        let mut k: usize = 0;
        while k < self.deposits.len()
            invariant
                self.wf(),
                k <= self.deposits@.len(),
                forall|j: int|
                    0 <= j < k ==> !is_record_of(#[trigger] self.deposits@[j], seed@, user@),
            decreases self.deposits@.len() - k,
        {
            let d = &self.deposits[k];
            if bytes_equal(&d.vault, seed) && d.user.same_as(user) {
                proof {
                    lemma_owed_at(self.deposits@, k as int, seed@, user@);
                }
                return Some(k);
            }
            k = k + 1;
        }
        proof {
            lemma_owed_none(self.deposits@, seed@, user@);
        }
        None
    }

    /// Under unique seeds, the vault with a seed is the one at any position
    /// that holds that seed.
    pub proof fn lemma_vault_at(&self, seed: Seq<u8>, i: int)
        requires
            self.wf(),
            0 <= i < self.vaults@.len(),
            self.vaults@[i].vault_seed@ == seed,
        ensures
            self.has_vault(seed),
            self.vault(seed) == self.vaults@[i],
    {
        let j = choose|j: int| 0 <= j < self.vaults@.len() && self.vaults@[j].vault_seed@ == seed;
        if j < i {
            assert(self.vaults@[j].vault_seed@ != self.vaults@[i].vault_seed@);
        } else if i < j {
            assert(self.vaults@[i].vault_seed@ != self.vaults@[j].vault_seed@);
        }
    }
}

/// The invariants and balances depend on the vaults and records alone.
pub proof fn lemma_same_ledger(p: VaultProgram, q: VaultProgram)
    requires
        p.wf(),
        q.vaults@ == p.vaults@,
        q.deposits@ == p.deposits@,
    ensures
        q.wf(),
        p.balanced() ==> q.balanced(),
        forall|s: Seq<u8>| q.has_vault(s) == p.has_vault(s),
{
    assert forall|k: int| 0 <= k < q.deposits@.len() implies q.has_vault(
        #[trigger] q.deposits@[k].vault@,
    ) by {
        assert(p.has_vault(p.deposits@[k].vault@));
        let i = choose|i: int|
            0 <= i < p.vaults@.len() && p.vaults@[i].vault_seed@ == p.deposits@[k].vault@;
        assert(q.vaults@[i] == p.vaults@[i]);
    }
}

/// Appending a record adds its amount to its depositor's balance and to its
/// vault's pool.
pub proof fn lemma_push(ds: Seq<UserDeposit>, d: UserDeposit)
    ensures
        forall|seed: Seq<u8>, user: Seq<u8>|
            #[trigger] owed_in(ds.push(d), seed, user) == owed_in(ds, seed, user) + if is_record_of(
                d,
                seed,
                user,
            ) {
                d.amount as int
            } else {
                0
            },
        forall|seed: Seq<u8>|
            #[trigger] pooled_in(ds.push(d), seed) == pooled_in(ds, seed) + if d.vault@ == seed {
                d.amount as int
            } else {
                0
            },
{
    assert(ds.push(d).drop_last() =~= ds);
}

/// With no record of `user` in vault `seed`, nothing is owed.
pub proof fn lemma_owed_none(ds: Seq<UserDeposit>, seed: Seq<u8>, user: Seq<u8>)
    requires
        forall|k: int| 0 <= k < ds.len() ==> !is_record_of(#[trigger] ds[k], seed, user),
    ensures
        owed_in(ds, seed, user) == 0,
    decreases ds.len(),
{
    if ds.len() > 0 {
        let p = ds.drop_last();
        assert forall|k: int| 0 <= k < p.len() implies !is_record_of(#[trigger] p[k], seed, user) by {
            assert(p[k] == ds[k]);
        }
        lemma_owed_none(p, seed, user);
    }
}

/// With records unique per depositor and vault, what is owed is the amount
/// of the one record.
pub proof fn lemma_owed_at(ds: Seq<UserDeposit>, k: int, seed: Seq<u8>, user: Seq<u8>)
    requires
        0 <= k < ds.len(),
        is_record_of(ds[k], seed, user),
        forall|i: int, j: int|
            0 <= i < j < ds.len() ==> !is_record_of(ds[j], ds[i].vault@, ds[i].user@),
    ensures
        owed_in(ds, seed, user) == ds[k].amount,
    decreases ds.len(),
{
    let p = ds.drop_last();
    if k == ds.len() - 1 {
        assert forall|i: int| 0 <= i < p.len() implies !is_record_of(#[trigger] p[i], seed, user) by {
            assert(p[i] == ds[i]);
            if is_record_of(ds[i], seed, user) {
                assert(!is_record_of(ds[k], ds[i].vault@, ds[i].user@));
            }
        }
        lemma_owed_none(p, seed, user);
    } else {
        assert(!is_record_of(ds.last(), seed, user)) by {
            assert(!is_record_of(ds[ds.len() - 1], ds[k].vault@, ds[k].user@));
        }
        assert forall|i: int, j: int|
            0 <= i < j < p.len() implies !is_record_of(p[j], p[i].vault@, p[i].user@) by {
            assert(p[i] == ds[i] && p[j] == ds[j]);
        }
        lemma_owed_at(p, k, seed, user);
    }
}

/// Replacing one record changes what is owed by the difference of the two.
pub proof fn lemma_owed_update(
    ds: Seq<UserDeposit>,
    k: int,
    d: UserDeposit,
    seed: Seq<u8>,
    user: Seq<u8>,
)
    requires
        0 <= k < ds.len(),
    ensures
        owed_in(ds.update(k, d), seed, user) == owed_in(ds, seed, user) - (if is_record_of(
            ds[k],
            seed,
            user,
        ) {
            ds[k].amount as int
        } else {
            0
        }) + (if is_record_of(d, seed, user) {
            d.amount as int
        } else {
            0
        }),
    decreases ds.len(),
{
    let u = ds.update(k, d);
    if k == ds.len() - 1 {
        assert(u.drop_last() =~= ds.drop_last());
    } else {
        assert(u.drop_last() =~= ds.drop_last().update(k, d));
        lemma_owed_update(ds.drop_last(), k, d, seed, user);
    }
}

/// Replacing one record changes a vault's pool by the difference of the two.
pub proof fn lemma_pooled_update(ds: Seq<UserDeposit>, k: int, d: UserDeposit, seed: Seq<u8>)
    requires
        0 <= k < ds.len(),
    ensures
        pooled_in(ds.update(k, d), seed) == pooled_in(ds, seed) - (if ds[k].vault@ == seed {
            ds[k].amount as int
        } else {
            0
        }) + (if d.vault@ == seed {
            d.amount as int
        } else {
            0
        }),
    decreases ds.len(),
{
    let u = ds.update(k, d);
    if k == ds.len() - 1 {
        assert(u.drop_last() =~= ds.drop_last());
    } else {
        assert(u.drop_last() =~= ds.drop_last().update(k, d));
        lemma_pooled_update(ds.drop_last(), k, d, seed);
    }
}

/// A vault that no record refers to has an empty pool.
pub proof fn lemma_pooled_none(ds: Seq<UserDeposit>, seed: Seq<u8>)
    requires
        forall|k: int| 0 <= k < ds.len() ==> (#[trigger] ds[k]).vault@ != seed,
    ensures
        pooled_in(ds, seed) == 0,
    decreases ds.len(),
{
    if ds.len() > 0 {
        let p = ds.drop_last();
        assert forall|k: int| 0 <= k < p.len() implies (#[trigger] p[k]).vault@ != seed by {
            assert(p[k] == ds[k]);
        }
        lemma_pooled_none(p, seed);
    }
}

} // verus!
