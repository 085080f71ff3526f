//! The mathematical model of the ledger: its view type, well-formedness,
//! record lookup by address, and the per-vault deposit sum.

use vstd::prelude::*;

use crate::identity::Identity;
use crate::records::{Depositor, FactoryView, Vault};

verus! {

/// The mathematical value of a whole ledger.
pub struct LedgerView {
    pub program_id: Identity,
    pub usdc_mint: Identity,
    pub factory: Option<FactoryView>,
    pub vaults: Seq<Vault>,
    pub depositors: Seq<Depositor>,
}

/// Whether some vault record lives at `addr`.
pub open spec fn has_vault_at(vaults: Seq<Vault>, addr: Identity) -> bool {
    exists|i: int| 0 <= i < vaults.len() && vaults[i].addr == addr
}

/// The index of the vault record at `addr`; meaningful when exactly one
/// exists.
pub open spec fn vault_idx_at(vaults: Seq<Vault>, addr: Identity) -> int {
    choose|i: int| 0 <= i < vaults.len() && vaults[i].addr == addr
}

/// Whether some depositor record lives at `addr`.
pub open spec fn has_depositor_at(ds: Seq<Depositor>, addr: Identity) -> bool {
    exists|i: int| 0 <= i < ds.len() && ds[i].addr == addr
}

/// The index of the depositor record at `addr`; meaningful when exactly one
/// exists.
pub open spec fn depositor_idx_at(ds: Seq<Depositor>, addr: Identity) -> int {
    choose|i: int| 0 <= i < ds.len() && ds[i].addr == addr
}

/// No two vault records share an address.
pub open spec fn vaults_distinct(vaults: Seq<Vault>) -> bool {
    forall|i: int, j: int|
        0 <= i < j < vaults.len() ==> (#[trigger] vaults[i]).addr != (#[trigger] vaults[j]).addr
}

/// No two depositor records share an address.
pub open spec fn depositors_distinct(ds: Seq<Depositor>) -> bool {
    forall|i: int, j: int| 0 <= i < j < ds.len() ==> (#[trigger] ds[i]).addr != (#[trigger] ds[j]).addr
}

/// No manager identity appears twice.
pub open spec fn managers_distinct(ms: Seq<Identity>) -> bool {
    forall|i: int, j: int| 0 <= i < j < ms.len() ==> ms[i] != ms[j]
}

/// The factory's registry agrees with the stored vault records: same length,
/// entry `i` of the registry names the manager, address and index of vault
/// record `i`, and no manager appears twice. With no factory there are no
/// vaults.
pub open spec fn factory_consistent(l: LedgerView) -> bool {
    match l.factory {
        Option::None => l.vaults.len() == 0,
        Option::Some(f) => {
            &&& f.vault_count as int == l.vaults.len()
            &&& f.vaults.len() == l.vaults.len()
            &&& f.vault_managers.len() == l.vaults.len()
            &&& managers_distinct(f.vault_managers)
            &&& forall|i: int|
                0 <= i < l.vaults.len() ==> (#[trigger] l.vaults[i]).manager == f.vault_managers[i]
            &&& forall|i: int|
                0 <= i < l.vaults.len() ==> (#[trigger] l.vaults[i]).addr == f.vaults[i]
            &&& forall|i: int| 0 <= i < l.vaults.len() ==> (#[trigger] l.vaults[i]).index as int == i
        },
    }
}

/// Structural well-formedness of a ledger: the factory registry is
/// consistent, record addresses are unique keys, every stored depositor is
/// initialized, and every depositor's back-reference names an existing vault.
pub open spec fn wf(l: LedgerView) -> bool {
    &&& factory_consistent(l)
    &&& vaults_distinct(l.vaults)
    &&& depositors_distinct(l.depositors)
    &&& forall|i: int| 0 <= i < l.depositors.len() ==> (#[trigger] l.depositors[i]).is_initialized
    &&& forall|i: int|
        0 <= i < l.depositors.len() ==> has_vault_at(l.vaults, (#[trigger] l.depositors[i]).vault_pda)
}

/// The sum of the native-coin balances of the depositors attributed to the
/// vault at `vault_addr`.
pub open spec fn sol_sum(ds: Seq<Depositor>, vault_addr: Identity) -> int
    decreases ds.len(),
{
    if ds.len() == 0 {
        0
    } else {
        sol_sum(ds.drop_last(), vault_addr) + if ds.last().vault_pda == vault_addr {
            ds.last().sol_amount as int
        } else {
            0
        }
    }
}

/// Every vault's accumulator equals the sum of its depositors' native-coin
/// balances.
pub open spec fn balanced(l: LedgerView) -> bool {
    forall|i: int|
        0 <= i < l.vaults.len() ==> (#[trigger] l.vaults[i]).total_deposit as int == sol_sum(
            l.depositors,
            l.vaults[i].addr,
        )
}

pub proof fn lemma_sol_sum_nonneg(ds: Seq<Depositor>, vault_addr: Identity)
    ensures
        sol_sum(ds, vault_addr) >= 0,
    decreases ds.len(),
{
    if ds.len() > 0 {
        lemma_sol_sum_nonneg(ds.drop_last(), vault_addr);
    }
}

/// One attributed depositor's balance never exceeds the vault's sum.
pub proof fn lemma_sol_sum_entry_bound(ds: Seq<Depositor>, i: int, vault_addr: Identity)
    requires
        0 <= i < ds.len(),
        ds[i].vault_pda == vault_addr,
    ensures
        sol_sum(ds, vault_addr) >= ds[i].sol_amount as int,
    decreases ds.len(),
{
    if i == ds.len() - 1 {
        lemma_sol_sum_nonneg(ds.drop_last(), vault_addr);
    } else {
        lemma_sol_sum_entry_bound(ds.drop_last(), i, vault_addr);
    }
}

/// Updating one record without re-attributing it shifts the sum by exactly
/// that record's balance change.
pub proof fn lemma_sol_sum_update(ds: Seq<Depositor>, i: int, d2: Depositor, vault_addr: Identity)
    requires
        0 <= i < ds.len(),
        d2.vault_pda == ds[i].vault_pda,
    ensures
        sol_sum(ds.update(i, d2), vault_addr) == sol_sum(ds, vault_addr) + (if ds[i].vault_pda
            == vault_addr {
            d2.sol_amount - ds[i].sol_amount
        } else {
            0
        }),
    decreases ds.len(),
{
    let ds2 = ds.update(i, d2);
    if i == ds.len() - 1 {
        assert(ds2.drop_last() =~= ds.drop_last());
    } else {
        assert(ds2.drop_last() =~= ds.drop_last().update(i, d2));
        lemma_sol_sum_update(ds.drop_last(), i, d2, vault_addr);
    }
}

/// Appending a record adds exactly its contribution.
pub proof fn lemma_sol_sum_push(ds: Seq<Depositor>, d: Depositor, vault_addr: Identity)
    ensures
        sol_sum(ds.push(d), vault_addr) == sol_sum(ds, vault_addr) + (if d.vault_pda == vault_addr {
            d.sol_amount as int
        } else {
            0
        }),
{
    assert(ds.push(d).drop_last() =~= ds);
}

/// A vault no depositor is attributed to sums to zero.
pub proof fn lemma_sol_sum_absent(ds: Seq<Depositor>, vault_addr: Identity)
    requires
        forall|i: int| 0 <= i < ds.len() ==> (#[trigger] ds[i]).vault_pda != vault_addr,
    ensures
        sol_sum(ds, vault_addr) == 0,
    decreases ds.len(),
{
    if ds.len() > 0 {
        lemma_sol_sum_absent(ds.drop_last(), vault_addr);
    }
}

/// With unique addresses, an index holding `addr` is the looked-up index.
pub proof fn lemma_vault_idx_unique(vaults: Seq<Vault>, i: int)
    requires
        vaults_distinct(vaults),
        0 <= i < vaults.len(),
    ensures
        vault_idx_at(vaults, vaults[i].addr) == i,
        has_vault_at(vaults, vaults[i].addr),
{
    let a = vaults[i].addr;
    assert(has_vault_at(vaults, a));
    let j = vault_idx_at(vaults, a);
    if j != i {
        assert(vaults[i].addr != vaults[j].addr);
    }
}

/// With unique addresses, an index holding `addr` is the looked-up index.
pub proof fn lemma_depositor_idx_unique(ds: Seq<Depositor>, i: int)
    requires
        depositors_distinct(ds),
        0 <= i < ds.len(),
    ensures
        depositor_idx_at(ds, ds[i].addr) == i,
        has_depositor_at(ds, ds[i].addr),
{
    let a = ds[i].addr;
    assert(has_depositor_at(ds, a));
    let j = depositor_idx_at(ds, a);
    if j != i {
        assert(ds[i].addr != ds[j].addr);
    }
}

} // verus!
