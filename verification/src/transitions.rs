//! The operations of the accounting engine as mathematical transitions.
//!
//! Each executable operation of [`crate::ledger::Ledger`] is proved to agree
//! exactly with the transition function here: same error on the same input,
//! and on success the same new ledger value. The laws of the engine are then
//! proved once, about these transitions.

use vstd::prelude::*;

use crate::errors::CustomError;
use crate::identity::Identity;
use crate::model::{
    balanced, depositor_idx_at, has_depositor_at, has_vault_at, lemma_sol_sum_absent,
    lemma_sol_sum_push, lemma_sol_sum_update, sol_sum, vault_idx_at, wf, LedgerView,
};
use crate::records::{
    AssetKind, AssetRequest, Depositor, FactoryView, TokenMints, TransferInstruction,
    TransferParty, Vault,
};

verus! {

/// How many vault entries the factory's sequences are sized for at creation.
pub const MAX_VAULTS: u32 = 1000;

/// Creates the factory record if and only if none exists: owner is the
/// caller, the registry starts empty.
pub open spec fn initialize_factory_spec(l: LedgerView, caller: Identity) -> Result<
    LedgerView,
    CustomError,
> {
    if l.factory is Some {
        Err(CustomError::AlreadyInitialized)
    } else {
        Ok(
            LedgerView {
                factory: Some(
                    FactoryView {
                        owner: caller,
                        vault_count: 0,
                        vaults: Seq::empty(),
                        vault_managers: Seq::empty(),
                    },
                ),
                ..l
            },
        )
    }
}

/// Creates a vault for `manager` at `vault_addr`: only the factory owner may,
/// and only once per manager. The new vault starts empty and takes the next
/// index; the factory registry grows by one entry.
pub open spec fn create_vault_spec(
    l: LedgerView,
    caller: Identity,
    manager: Identity,
    vault_addr: Identity,
) -> Result<LedgerView, CustomError>
    recommends
        l.factory is Some,
        l.factory matches Some(f) && f.vault_count < MAX_VAULTS,
{
    let f = l.factory->Some_0;
    if caller != f.owner {
        Err(CustomError::Unauthorized)
    } else if f.vault_managers.contains(manager) {
        Err(CustomError::ManagerAlreadyExists)
    } else {
        let v = Vault { manager, total_deposit: 0, index: f.vault_count, addr: vault_addr };
        Ok(
            LedgerView {
                factory: Some(
                    FactoryView {
                        vault_count: (f.vault_count + 1) as u32,
                        vaults: f.vaults.push(vault_addr),
                        vault_managers: f.vault_managers.push(manager),
                        ..f
                    },
                ),
                vaults: l.vaults.push(v),
                ..l
            },
        )
    }
}

/// The asset-specific tail of a deposit, once the depositor record `d` is
/// resolved (`fresh` says whether it was just created at index `di ==
/// l.depositors.len()`). Native-coin deposits credit the depositor and the
/// vault's accumulator; token deposits validate the mints and credit only the
/// depositor. All additions are checked.
pub open spec fn deposit_apply(
    l: LedgerView,
    di: int,
    d: Depositor,
    fresh: bool,
    vault_addr: Identity,
    asset: AssetRequest,
    amount: u64,
    now: i64,
) -> Result<(LedgerView, TransferInstruction), CustomError>
    recommends
        has_vault_at(l.vaults, vault_addr),
{
    let vi = vault_idx_at(l.vaults, vault_addr);
    let v = l.vaults[vi];
    match asset {
        AssetRequest::Sol => {
            if d.sol_amount + amount > u64::MAX {
                Err(CustomError::ArithmeticOverflow)
            } else if v.total_deposit + amount > u64::MAX {
                Err(CustomError::ArithmeticOverflow)
            } else {
                let d2 = Depositor {
                    sol_amount: (d.sol_amount + amount) as u64,
                    deposit_time: now,
                    ..d
                };
                let v2 = Vault { total_deposit: (v.total_deposit + amount) as u64, ..v };
                let ds2 = if fresh {
                    l.depositors.push(d2)
                } else {
                    l.depositors.update(di, d2)
                };
                Ok(
                    (
                        LedgerView { vaults: l.vaults.update(vi, v2), depositors: ds2, ..l },
                        TransferInstruction {
                            asset: AssetKind::Sol,
                            from: TransferParty::Caller,
                            to: TransferParty::SolVault,
                            authority: TransferParty::Caller,
                            amount,
                        },
                    ),
                )
            }
        },
        AssetRequest::Usdc(mints) => {
            if mints.mint != l.usdc_mint {
                Err(CustomError::InvalidMint)
            } else if mints.user_account_mint != mints.mint {
                Err(CustomError::InvalidMint)
            } else if mints.vault_account_mint != mints.mint {
                Err(CustomError::InvalidMint)
            } else if d.usdc_amount + amount > u64::MAX {
                Err(CustomError::ArithmeticOverflow)
            } else {
                let d2 = Depositor {
                    usdc_amount: (d.usdc_amount + amount) as u64,
                    deposit_time: now,
                    ..d
                };
                let ds2 = if fresh {
                    l.depositors.push(d2)
                } else {
                    l.depositors.update(di, d2)
                };
                Ok(
                    (
                        LedgerView { depositors: ds2, ..l },
                        TransferInstruction {
                            asset: AssetKind::Usdc,
                            from: TransferParty::Caller,
                            to: TransferParty::UsdcVault,
                            authority: TransferParty::Caller,
                            amount,
                        },
                    ),
                )
            }
        },
    }
}

/// A deposit of `amount > 0` of `asset` by `caller` against the vault at
/// `vault_addr`, with the depositor record at `depositor_addr`: resolved
/// lazily on first touch, owner-checked on every later touch, and rejected
/// when the record does not belong to the named vault.
pub open spec fn deposit_spec(
    l: LedgerView,
    caller: Identity,
    vault_addr: Identity,
    depositor_addr: Identity,
    asset: AssetRequest,
    amount: u64,
    now: i64,
) -> Result<(LedgerView, TransferInstruction), CustomError>
    recommends
        wf(l),
        has_vault_at(l.vaults, vault_addr),
{
    if amount == 0 {
        Err(CustomError::InvalidAmount)
    } else if has_depositor_at(l.depositors, depositor_addr) {
        let di = depositor_idx_at(l.depositors, depositor_addr);
        let d = l.depositors[di];
        if d.owner != caller {
            Err(CustomError::Unauthorized)
        } else if d.vault_pda != vault_addr {
            Err(CustomError::AddressMismatch)
        } else {
            deposit_apply(l, di, d, false, vault_addr, asset, amount, now)
        }
    } else {
        let d0 = Depositor {
            owner: caller,
            is_initialized: true,
            deposit_time: now,
            sol_amount: 0,
            usdc_amount: 0,
            vault_pda: vault_addr,
            addr: depositor_addr,
        };
        deposit_apply(l, l.depositors.len() as int, d0, true, vault_addr, asset, amount, now)
    }
}

/// A withdrawal by `caller` from the depositor record at `depositor_addr`:
/// owner-checked, every balance check made before any transfer is issued,
/// and each non-zero leg debited with checked subtraction. The native-coin
/// leg also debits the vault's accumulator.
pub open spec fn withdraw_spec(
    l: LedgerView,
    caller: Identity,
    depositor_addr: Identity,
    sol_amount: u64,
    usdc_amount: u64,
    mints: TokenMints,
) -> Result<(LedgerView, Seq<TransferInstruction>), CustomError>
    recommends
        wf(l),
        has_depositor_at(l.depositors, depositor_addr),
{
    let di = depositor_idx_at(l.depositors, depositor_addr);
    let d = l.depositors[di];
    let vi = vault_idx_at(l.vaults, d.vault_pda);
    let v = l.vaults[vi];
    if d.owner != caller {
        Err(CustomError::Unauthorized)
    } else if sol_amount > 0 && d.sol_amount < sol_amount {
        Err(CustomError::InsufficientBalance)
    } else if sol_amount > 0 && v.total_deposit < sol_amount {
        Err(CustomError::ArithmeticUnderflow)
    } else if usdc_amount > 0 && d.usdc_amount < usdc_amount {
        Err(CustomError::InsufficientBalance)
    } else if usdc_amount > 0 && mints.mint != l.usdc_mint {
        Err(CustomError::InvalidMint)
    } else if usdc_amount > 0 && mints.user_account_mint != mints.mint {
        Err(CustomError::InvalidMint)
    } else if usdc_amount > 0 && mints.vault_account_mint != mints.mint {
        Err(CustomError::InvalidMint)
    } else {
        let d2 = Depositor {
            sol_amount: (d.sol_amount - sol_amount) as u64,
            usdc_amount: (d.usdc_amount - usdc_amount) as u64,
            ..d
        };
        let v2 = Vault { total_deposit: (v.total_deposit - sol_amount) as u64, ..v };
        let vaults2 = if sol_amount > 0 {
            l.vaults.update(vi, v2)
        } else {
            l.vaults
        };
        let sol_leg = TransferInstruction {
            asset: AssetKind::Sol,
            from: TransferParty::SolVault,
            to: TransferParty::Caller,
            authority: TransferParty::SolVault,
            amount: sol_amount,
        };
        let usdc_leg = TransferInstruction {
            asset: AssetKind::Usdc,
            from: TransferParty::UsdcVault,
            to: TransferParty::Caller,
            authority: TransferParty::UsdcVault,
            amount: usdc_amount,
        };
        let legs = (if sol_amount > 0 {
            seq![sol_leg]
        } else {
            Seq::empty()
        }) + (if usdc_amount > 0 {
            seq![usdc_leg]
        } else {
            Seq::empty()
        });
        Ok((LedgerView { vaults: vaults2, depositors: l.depositors.update(di, d2), ..l }, legs))
    }
}

/// Initializing the factory preserves well-formedness and the balance
/// invariant; it touches no vault and no depositor record.
pub proof fn lemma_initialize_factory_preserves(l: LedgerView, caller: Identity)
    requires
        wf(l),
    ensures
        (match initialize_factory_spec(l, caller) {
            Ok(l2) => wf(l2) && (balanced(l) ==> balanced(l2)) && l2.vaults == l.vaults
                && l2.depositors == l.depositors,
            Err(_) => true,
        }),
{
}

/// Creating a vault at a fresh address preserves well-formedness, and the
/// new vault's zero accumulator matches its (empty) set of depositors.
pub proof fn lemma_create_vault_preserves(
    l: LedgerView,
    caller: Identity,
    manager: Identity,
    vault_addr: Identity,
)
    requires
        wf(l),
        l.factory is Some,
        (l.factory->Some_0).vault_count < MAX_VAULTS,
        !has_vault_at(l.vaults, vault_addr),
    ensures
        (match create_vault_spec(l, caller, manager, vault_addr) {
            Ok(l2) => wf(l2) && (balanced(l) ==> balanced(l2)),
            Err(_) => true,
        }),
{
    let f = l.factory->Some_0;
    if caller == f.owner && !f.vault_managers.contains(manager) {
        let l2 = create_vault_spec(l, caller, manager, vault_addr)->Ok_0;
        let v = Vault { manager, total_deposit: 0, index: f.vault_count, addr: vault_addr };
        assert(l2.vaults =~= l.vaults.push(v));
        assert forall|i: int| 0 <= i < l.vaults.len() implies (#[trigger] l2.vaults[i])
            == l.vaults[i] by {}
        assert(forall|i: int|
            0 <= i < f.vault_managers.len() ==> #[trigger] f.vault_managers[i] != manager);
        assert forall|i: int|
            0 <= i < l2.depositors.len() implies has_vault_at(
            l2.vaults,
            (#[trigger] l2.depositors[i]).vault_pda,
        ) by {
            assert(has_vault_at(l.vaults, l.depositors[i].vault_pda));
            let j = choose|j: int|
                0 <= j < l.vaults.len() && l.vaults[j].addr == l.depositors[i].vault_pda;
            assert(l2.vaults[j].addr == l.depositors[i].vault_pda);
        }
        assert(wf(l2));
        if balanced(l) {
            assert forall|k: int|
                0 <= k < l2.vaults.len() implies (#[trigger] l2.vaults[k]).total_deposit as int
                == sol_sum(l2.depositors, l2.vaults[k].addr) by {
                if k == l.vaults.len() {
                    assert forall|i: int|
                        0 <= i < l.depositors.len() implies (#[trigger] l.depositors[i]).vault_pda
                        != vault_addr by {
                        assert(has_vault_at(l.vaults, l.depositors[i].vault_pda));
                    }
                    lemma_sol_sum_absent(l.depositors, vault_addr);
                } else {
                    assert(l2.vaults[k] == l.vaults[k]);
                }
            }
        }
    }
}

/// The tail of a deposit preserves well-formedness and the balance
/// invariant: the credited record stays attributed to the vault named by the
/// operation, so the vault accumulator and the depositor sum move together.
proof fn lemma_deposit_apply_preserves(
    l: LedgerView,
    di: int,
    d: Depositor,
    fresh: bool,
    vault_addr: Identity,
    asset: AssetRequest,
    amount: u64,
    now: i64,
)
    requires
        wf(l),
        has_vault_at(l.vaults, vault_addr),
        d.vault_pda == vault_addr,
        d.is_initialized,
        fresh ==> di == l.depositors.len() && !has_depositor_at(l.depositors, d.addr)
            && d.sol_amount == 0,
        !fresh ==> 0 <= di < l.depositors.len() && d == l.depositors[di],
    ensures
        (match deposit_apply(l, di, d, fresh, vault_addr, asset, amount, now) {
            Ok(p) => wf(p.0) && (balanced(l) ==> balanced(p.0)),
            Err(_) => true,
        }),
{
    let r = deposit_apply(l, di, d, fresh, vault_addr, asset, amount, now);
    if r is Ok {
        let l2 = r->Ok_0.0;
        let vi = vault_idx_at(l.vaults, vault_addr);
        assert(0 <= vi < l.vaults.len() && l.vaults[vi].addr == vault_addr);
        let d2 = match asset {
            AssetRequest::Sol => Depositor {
                sol_amount: (d.sol_amount + amount) as u64,
                deposit_time: now,
                ..d
            },
            AssetRequest::Usdc(_) => Depositor {
                usdc_amount: (d.usdc_amount + amount) as u64,
                deposit_time: now,
                ..d
            },
        };
        assert(l2.depositors == if fresh {
            l.depositors.push(d2)
        } else {
            l.depositors.update(di, d2)
        });
        assert(l2.factory == l.factory);
        assert forall|k: int| 0 <= k < l.vaults.len() implies {
            &&& (#[trigger] l2.vaults[k]).addr == l.vaults[k].addr
            &&& l2.vaults[k].manager == l.vaults[k].manager
            &&& l2.vaults[k].index == l.vaults[k].index
        } by {}
        assert(l2.vaults.len() == l.vaults.len());
        assert forall|i: int|
            0 <= i < l2.depositors.len() implies has_vault_at(
            l2.vaults,
            (#[trigger] l2.depositors[i]).vault_pda,
        ) by {
            let pda = l2.depositors[i].vault_pda;
            assert(has_vault_at(l.vaults, pda));
            let j = choose|j: int| 0 <= j < l.vaults.len() && l.vaults[j].addr == pda;
            assert(l2.vaults[j].addr == pda);
        }
        assert(wf(l2));
        if balanced(l) {
            let delta = if asset is Sol {
                amount as int
            } else {
                0
            };
            assert forall|k: int|
                0 <= k < l2.vaults.len() implies (#[trigger] l2.vaults[k]).total_deposit as int
                == sol_sum(l2.depositors, l2.vaults[k].addr) by {
                let a = l.vaults[k].addr;
                if fresh {
                    lemma_sol_sum_push(l.depositors, d2, a);
                } else {
                    lemma_sol_sum_update(l.depositors, di, d2, a);
                }
                if k != vi {
                    assert(a != vault_addr);
                    assert(l2.vaults[k] == l.vaults[k]);
                }
            }
        }
    }
}

/// A deposit preserves well-formedness and the balance invariant.
pub proof fn lemma_deposit_preserves(
    l: LedgerView,
    caller: Identity,
    vault_addr: Identity,
    depositor_addr: Identity,
    asset: AssetRequest,
    amount: u64,
    now: i64,
)
    requires
        wf(l),
        has_vault_at(l.vaults, vault_addr),
    ensures
        (match deposit_spec(l, caller, vault_addr, depositor_addr, asset, amount, now) {
            Ok(p) => wf(p.0) && (balanced(l) ==> balanced(p.0)),
            Err(_) => true,
        }),
{
    if amount != 0 {
        if has_depositor_at(l.depositors, depositor_addr) {
            let di = depositor_idx_at(l.depositors, depositor_addr);
            let d = l.depositors[di];
            assert(0 <= di < l.depositors.len() && l.depositors[di].addr == depositor_addr);
            if d.owner == caller && d.vault_pda == vault_addr {
                lemma_deposit_apply_preserves(l, di, d, false, vault_addr, asset, amount, now);
            }
        } else {
            let d0 = Depositor {
                owner: caller,
                is_initialized: true,
                deposit_time: now,
                sol_amount: 0,
                usdc_amount: 0,
                vault_pda: vault_addr,
                addr: depositor_addr,
            };
            lemma_deposit_apply_preserves(
                l,
                l.depositors.len() as int,
                d0,
                true,
                vault_addr,
                asset,
                amount,
                now,
            );
        }
    }
}

/// A withdrawal preserves well-formedness and the balance invariant: the
/// vault accumulator and the depositor balance are debited together.
pub proof fn lemma_withdraw_preserves(
    l: LedgerView,
    caller: Identity,
    depositor_addr: Identity,
    sol_amount: u64,
    usdc_amount: u64,
    mints: TokenMints,
)
    requires
        wf(l),
        has_depositor_at(l.depositors, depositor_addr),
    ensures
        (match withdraw_spec(l, caller, depositor_addr, sol_amount, usdc_amount, mints) {
            Ok(p) => wf(p.0) && (balanced(l) ==> balanced(p.0)),
            Err(_) => true,
        }),
{
    let r = withdraw_spec(l, caller, depositor_addr, sol_amount, usdc_amount, mints);
    if r is Ok {
        let l2 = r->Ok_0.0;
        let di = depositor_idx_at(l.depositors, depositor_addr);
        assert(0 <= di < l.depositors.len() && l.depositors[di].addr == depositor_addr);
        let d = l.depositors[di];
        assert(has_vault_at(l.vaults, d.vault_pda));
        let vi = vault_idx_at(l.vaults, d.vault_pda);
        assert(0 <= vi < l.vaults.len() && l.vaults[vi].addr == d.vault_pda);
        let d2 = Depositor {
            sol_amount: (d.sol_amount - sol_amount) as u64,
            usdc_amount: (d.usdc_amount - usdc_amount) as u64,
            ..d
        };
        assert(l2.depositors == l.depositors.update(di, d2));
        assert forall|k: int| 0 <= k < l.vaults.len() implies {
            &&& (#[trigger] l2.vaults[k]).addr == l.vaults[k].addr
            &&& l2.vaults[k].manager == l.vaults[k].manager
            &&& l2.vaults[k].index == l.vaults[k].index
        } by {}
        assert(l2.vaults.len() == l.vaults.len());
        assert forall|i: int|
            0 <= i < l2.depositors.len() implies has_vault_at(
            l2.vaults,
            (#[trigger] l2.depositors[i]).vault_pda,
        ) by {
            let pda = l2.depositors[i].vault_pda;
            assert(has_vault_at(l.vaults, pda));
            let j = choose|j: int| 0 <= j < l.vaults.len() && l.vaults[j].addr == pda;
            assert(l2.vaults[j].addr == pda);
        }
        assert(wf(l2));
        if balanced(l) {
            assert forall|k: int|
                0 <= k < l2.vaults.len() implies (#[trigger] l2.vaults[k]).total_deposit as int
                == sol_sum(l2.depositors, l2.vaults[k].addr) by {
                let a = l.vaults[k].addr;
                lemma_sol_sum_update(l.depositors, di, d2, a);
                if k != vi {
                    assert(a != d.vault_pda);
                    assert(l2.vaults[k] == l.vaults[k]);
                }
            }
        }
    }
}

/// The administrative sweep: the vault's manager moves `amount` out of the
/// vault's native-coin holding sub-account with no balance bookkeeping. This
/// deliberately bypasses per-depositor accounting; the ledger records are not
/// touched.
pub open spec fn owner_withdraw_spec(
    l: LedgerView,
    caller: Identity,
    vault_addr: Identity,
    amount: u64,
) -> Result<TransferInstruction, CustomError>
    recommends
        has_vault_at(l.vaults, vault_addr),
{
    let v = l.vaults[vault_idx_at(l.vaults, vault_addr)];
    if v.manager != caller {
        Err(CustomError::Unauthorized)
    } else {
        Ok(
            TransferInstruction {
                asset: AssetKind::Sol,
                from: TransferParty::SolVault,
                to: TransferParty::Caller,
                authority: TransferParty::SolVault,
                amount,
            },
        )
    }
}

} // verus!
