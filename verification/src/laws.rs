//! The laws of the accounting engine, stated over the transition functions of
//! [`crate::transitions`] and proved once and for all. The executable
//! operations agree exactly with those transitions, so each law carries over
//! to the running code; in particular, every operation's contract already
//! states that an error leaves the ledger unchanged.

use vstd::prelude::*;

use crate::errors::CustomError;
use crate::identity::Identity;
use crate::model::{
    balanced, depositor_idx_at, has_depositor_at, has_vault_at, lemma_depositor_idx_unique,
    lemma_vault_idx_unique, sol_sum, vault_idx_at, wf, LedgerView,
};
use crate::records::{AssetRequest, Depositor, TokenMints, TransferInstruction};
use crate::transitions::{
    create_vault_spec, deposit_spec, lemma_deposit_preserves, lemma_withdraw_preserves,
    owner_withdraw_spec, withdraw_spec,
};

verus! {

/// The native-coin balance of the depositor record at `depositor_addr`, or
/// zero while no record exists.
pub open spec fn depositor_sol_at(l: LedgerView, depositor_addr: Identity) -> int {
    if has_depositor_at(l.depositors, depositor_addr) {
        l.depositors[depositor_idx_at(l.depositors, depositor_addr)].sol_amount as int
    } else {
        0
    }
}

/// The token balance of the depositor record at `depositor_addr`, or zero
/// while no record exists.
pub open spec fn depositor_usdc_at(l: LedgerView, depositor_addr: Identity) -> int {
    if has_depositor_at(l.depositors, depositor_addr) {
        l.depositors[depositor_idx_at(l.depositors, depositor_addr)].usdc_amount as int
    } else {
        0
    }
}

/// The accumulator of the vault record at `vault_addr`, or zero while no
/// record exists.
pub open spec fn vault_total_at(l: LedgerView, vault_addr: Identity) -> int {
    if has_vault_at(l.vaults, vault_addr) {
        l.vaults[vault_idx_at(l.vaults, vault_addr)].total_deposit as int
    } else {
        0
    }
}

/// The effect of one successful native-coin deposit: both the depositor's
/// balance and the vault's accumulator grow by exactly the amount, the token
/// balance stays, and the resolved record is owned by the caller and
/// attributed to the named vault.
pub proof fn lemma_deposit_sol_step(
    l: LedgerView,
    caller: Identity,
    vault_addr: Identity,
    depositor_addr: Identity,
    amount: u64,
    now: i64,
)
    requires
        wf(l),
        has_vault_at(l.vaults, vault_addr),
    ensures
        (match deposit_spec(l, caller, vault_addr, depositor_addr, AssetRequest::Sol, amount, now) {
            Ok(p) => {
                &&& wf(p.0)
                &&& (balanced(l) ==> balanced(p.0))
                &&& has_vault_at(p.0.vaults, vault_addr)
                &&& has_depositor_at(p.0.depositors, depositor_addr)
                &&& depositor_sol_at(p.0, depositor_addr) == depositor_sol_at(l, depositor_addr)
                    + amount
                &&& depositor_usdc_at(p.0, depositor_addr) == depositor_usdc_at(l, depositor_addr)
                &&& vault_total_at(p.0, vault_addr) == vault_total_at(l, vault_addr) + amount
                &&& p.0.depositors[depositor_idx_at(p.0.depositors, depositor_addr)].owner
                    == caller
                &&& p.0.depositors[depositor_idx_at(p.0.depositors, depositor_addr)].vault_pda
                    == vault_addr
                &&& p.0.usdc_mint == l.usdc_mint
                &&& p.0.program_id == l.program_id
            },
            Err(_) => true,
        }),
{
    lemma_deposit_preserves(l, caller, vault_addr, depositor_addr, AssetRequest::Sol, amount, now);
    let r = deposit_spec(l, caller, vault_addr, depositor_addr, AssetRequest::Sol, amount, now);
    if r is Ok {
        let l2 = r->Ok_0.0;
        let vi = vault_idx_at(l.vaults, vault_addr);
        assert(0 <= vi < l.vaults.len() && l.vaults[vi].addr == vault_addr);
        if has_depositor_at(l.depositors, depositor_addr) {
            let di = depositor_idx_at(l.depositors, depositor_addr);
            assert(0 <= di < l.depositors.len() && l.depositors[di].addr == depositor_addr);
            let d = l.depositors[di];
            let d2 = Depositor { sol_amount: (d.sol_amount + amount) as u64, deposit_time: now, ..d };
            assert(l2.depositors == l.depositors.update(di, d2));
            lemma_depositor_idx_unique(l2.depositors, di);
            lemma_vault_idx_unique(l2.vaults, vi);
        } else {
            let di = l.depositors.len() as int;
            assert(l2.depositors[di].addr == depositor_addr);
            lemma_depositor_idx_unique(l2.depositors, di);
            lemma_vault_idx_unique(l2.vaults, vi);
        }
    }
}

/// The sum of a sequence of deposit amounts.
pub open spec fn seq_sum(amounts: Seq<u64>) -> int
    decreases amounts.len(),
{
    if amounts.len() == 0 {
        0
    } else {
        amounts[0] + seq_sum(amounts.drop_first())
    }
}

/// A whole sequence of native-coin deposits by one caller against one vault,
/// applied first to last; stops at the first error.
pub open spec fn iter_deposit_sol(
    l: LedgerView,
    caller: Identity,
    vault_addr: Identity,
    depositor_addr: Identity,
    amounts: Seq<u64>,
    now: i64,
) -> Result<LedgerView, CustomError>
    decreases amounts.len(),
{
    if amounts.len() == 0 {
        Ok(l)
    } else {
        match deposit_spec(l, caller, vault_addr, depositor_addr, AssetRequest::Sol, amounts[0], now) {
            Ok(p) => iter_deposit_sol(
                p.0,
                caller,
                vault_addr,
                depositor_addr,
                amounts.drop_first(),
                now,
            ),
            Err(e) => Err(e),
        }
    }
}

/// After any sequence of successful native-coin deposits, the depositor's
/// balance has grown by exactly the sum of the deposited amounts, and the
/// vault's accumulator by the same sum; well-formedness and the balance
/// invariant (every vault accumulator equals the sum over its depositors)
/// are kept throughout.
pub proof fn lemma_deposit_sum(
    l: LedgerView,
    caller: Identity,
    vault_addr: Identity,
    depositor_addr: Identity,
    amounts: Seq<u64>,
    now: i64,
)
    requires
        wf(l),
        has_vault_at(l.vaults, vault_addr),
    ensures
        (match iter_deposit_sol(l, caller, vault_addr, depositor_addr, amounts, now) {
            Ok(l2) => {
                &&& wf(l2)
                &&& (balanced(l) ==> balanced(l2))
                &&& has_vault_at(l2.vaults, vault_addr)
                &&& depositor_sol_at(l2, depositor_addr) == depositor_sol_at(l, depositor_addr)
                    + seq_sum(amounts)
                &&& vault_total_at(l2, vault_addr) == vault_total_at(l, vault_addr) + seq_sum(
                    amounts,
                )
            },
            Err(_) => true,
        }),
    decreases amounts.len(),
{
    if amounts.len() > 0 {
        lemma_deposit_sol_step(l, caller, vault_addr, depositor_addr, amounts[0], now);
        match deposit_spec(l, caller, vault_addr, depositor_addr, AssetRequest::Sol, amounts[0], now) {
            Ok(p) => {
                lemma_deposit_sum(
                    p.0,
                    caller,
                    vault_addr,
                    depositor_addr,
                    amounts.drop_first(),
                    now,
                );
            },
            Err(_) => {},
        }
    }
}

/// In a balanced ledger, every vault's accumulator equals the sum of the
/// native-coin balances of the depositors attributed to it.
pub proof fn lemma_vault_total_is_deposit_sum(l: LedgerView, i: int)
    requires
        balanced(l),
        0 <= i < l.vaults.len(),
    ensures
        l.vaults[i].total_deposit as int == sol_sum(l.depositors, l.vaults[i].addr),
{
}

/// Withdrawal is the exact inverse of deposit: a successful native-coin
/// deposit followed by a withdrawal of the same amount is always possible
/// and returns the depositor's balances and the vault's accumulator to their
/// pre-deposit values.
pub proof fn lemma_deposit_withdraw_round_trip(
    l: LedgerView,
    caller: Identity,
    vault_addr: Identity,
    depositor_addr: Identity,
    amount: u64,
    now: i64,
    mints: TokenMints,
)
    requires
        wf(l),
        has_vault_at(l.vaults, vault_addr),
    ensures
        (match deposit_spec(l, caller, vault_addr, depositor_addr, AssetRequest::Sol, amount, now) {
            Ok(p) => (match withdraw_spec(p.0, caller, depositor_addr, amount, 0, mints) {
                Ok(q) => {
                    &&& depositor_sol_at(q.0, depositor_addr) == depositor_sol_at(
                        l,
                        depositor_addr,
                    )
                    &&& depositor_usdc_at(q.0, depositor_addr) == depositor_usdc_at(
                        l,
                        depositor_addr,
                    )
                    &&& vault_total_at(q.0, vault_addr) == vault_total_at(l, vault_addr)
                },
                Err(_) => false,
            }),
            Err(_) => true,
        }),
{
    lemma_deposit_sol_step(l, caller, vault_addr, depositor_addr, amount, now);
    let r = deposit_spec(l, caller, vault_addr, depositor_addr, AssetRequest::Sol, amount, now);
    if r is Ok {
        let l1 = r->Ok_0.0;
        lemma_withdraw_preserves(l1, caller, depositor_addr, amount, 0, mints);
        let di = depositor_idx_at(l1.depositors, depositor_addr);
        assert(0 <= di < l1.depositors.len() && l1.depositors[di].addr == depositor_addr);
        let d1 = l1.depositors[di];
        let vi = vault_idx_at(l1.vaults, d1.vault_pda);
        assert(0 <= vi < l1.vaults.len() && l1.vaults[vi].addr == vault_addr);
        let w = withdraw_spec(l1, caller, depositor_addr, amount, 0, mints);
        assert(w is Ok);
        let l2 = w->Ok_0.0;
        let d2 = Depositor {
            sol_amount: (d1.sol_amount - amount) as u64,
            usdc_amount: (d1.usdc_amount - 0) as u64,
            ..d1
        };
        assert(l2.depositors == l1.depositors.update(di, d2));
        lemma_depositor_idx_unique(l2.depositors, di);
        assert(l2.vaults[vi].addr == vault_addr);
        lemma_vault_idx_unique(l2.vaults, vi);
    }
}

/// A withdrawal request exceeding the current balance of either asset is
/// rejected with `InsufficientBalance`; by the operation's contract the
/// rejection leaves every balance unchanged, and balances, being unsigned,
/// are never negative.
pub proof fn lemma_withdraw_insufficient(
    l: LedgerView,
    caller: Identity,
    depositor_addr: Identity,
    sol_amount: u64,
    usdc_amount: u64,
    mints: TokenMints,
)
    requires
        wf(l),
        balanced(l),
        has_depositor_at(l.depositors, depositor_addr),
        l.depositors[depositor_idx_at(l.depositors, depositor_addr)].owner == caller,
        sol_amount > l.depositors[depositor_idx_at(l.depositors, depositor_addr)].sol_amount
            || usdc_amount > l.depositors[depositor_idx_at(l.depositors, depositor_addr)].usdc_amount,
    ensures
        withdraw_spec(l, caller, depositor_addr, sol_amount, usdc_amount, mints) == Err::<
            (LedgerView, Seq<TransferInstruction>),
            CustomError,
        >(CustomError::InsufficientBalance),
{
    let di = depositor_idx_at(l.depositors, depositor_addr);
    assert(0 <= di < l.depositors.len() && l.depositors[di].addr == depositor_addr);
    let d = l.depositors[di];
    if sol_amount <= d.sol_amount {
        let vi = vault_idx_at(l.vaults, d.vault_pda);
        assert(has_vault_at(l.vaults, d.vault_pda));
        assert(0 <= vi < l.vaults.len() && l.vaults[vi].addr == d.vault_pda);
        crate::model::lemma_sol_sum_entry_bound(l.depositors, di, d.vault_pda);
        assert(l.vaults[vi].total_deposit as int >= d.sol_amount as int);
    }
}

/// An operation whose caller is not the resolved record's owner is rejected
/// with `Unauthorized`; by the operations' contracts the rejection causes
/// zero state mutation. One clause per owner-gated operation.
pub proof fn lemma_authorization_strict(
    l: LedgerView,
    caller: Identity,
    vault_addr: Identity,
    depositor_addr: Identity,
    asset: AssetRequest,
    amount: u64,
    now: i64,
    sol_amount: u64,
    usdc_amount: u64,
    mints: TokenMints,
    manager: Identity,
)
    requires
        wf(l),
    ensures
        has_depositor_at(l.depositors, depositor_addr) && l.depositors[depositor_idx_at(
            l.depositors,
            depositor_addr,
        )].owner != caller ==> withdraw_spec(l, caller, depositor_addr, sol_amount, usdc_amount, mints)
            == Err::<(LedgerView, Seq<TransferInstruction>), CustomError>(CustomError::Unauthorized),
        amount > 0 && has_depositor_at(l.depositors, depositor_addr) && l.depositors[
            depositor_idx_at(l.depositors, depositor_addr)
        ].owner != caller ==> deposit_spec(l, caller, vault_addr, depositor_addr, asset, amount, now)
            == Err::<(LedgerView, TransferInstruction), CustomError>(CustomError::Unauthorized),
        l.factory is Some && caller != (l.factory->Some_0).owner ==> create_vault_spec(
            l,
            caller,
            manager,
            vault_addr,
        ) == Err::<LedgerView, CustomError>(CustomError::Unauthorized),
        has_vault_at(l.vaults, vault_addr) && l.vaults[vault_idx_at(l.vaults, vault_addr)].manager
            != caller ==> owner_withdraw_spec(l, caller, vault_addr, amount) == Err::<
            TransferInstruction,
            CustomError,
        >(CustomError::Unauthorized),
{
}

/// `create_vault` with a manager identity already present in the registry
/// fails with `ManagerAlreadyExists`; by the operation's contract the ledger
/// — its `vault_count` included — is unchanged.
pub proof fn lemma_duplicate_manager_rejected(
    l: LedgerView,
    caller: Identity,
    manager: Identity,
    vault_addr: Identity,
)
    requires
        l.factory is Some,
        caller == (l.factory->Some_0).owner,
        (l.factory->Some_0).vault_managers.contains(manager),
    ensures
        create_vault_spec(l, caller, manager, vault_addr) == Err::<LedgerView, CustomError>(
            CustomError::ManagerAlreadyExists,
        ),
{
}

} // verus!
