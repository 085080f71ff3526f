//! The ledger entry store and the executable operations of the accounting
//! engine. Every operation is proved to agree exactly with its transition
//! function in [`crate::transitions`]: same error on the same input, the same
//! new ledger value on success, and no change at all on any error.

use vstd::prelude::*;

use crate::errors::CustomError;
use crate::identity::Identity;
use crate::model::{
    depositor_idx_at, depositors_distinct, has_depositor_at, has_vault_at,
    lemma_depositor_idx_unique, lemma_vault_idx_unique, vault_idx_at, vaults_distinct, LedgerView,
};
use crate::records::{
    AssetKind, AssetRequest, Depositor, Factory, FactoryView, TokenMints, TransferInstruction,
    TransferParty, Vault,
};
use crate::transitions::{
    create_vault_spec, deposit_apply, deposit_spec, initialize_factory_spec,
    lemma_create_vault_preserves, lemma_deposit_preserves, lemma_initialize_factory_preserves,
    lemma_withdraw_preserves, owner_withdraw_spec, withdraw_spec, MAX_VAULTS,
};

verus! {

/// The ledger: the engine's configuration (its own program identity and the
/// configured token mint) plus the three record kinds, each vault and each
/// depositor stored at its deterministic address.
pub struct Ledger {
    pub program_id: Identity,
    pub usdc_mint: Identity,
    pub factory: Option<Factory>,
    pub vaults: Vec<Vault>,
    pub depositors: Vec<Depositor>,
}

impl View for Ledger {
    type V = LedgerView;

    open spec fn view(&self) -> LedgerView {
        LedgerView {
            program_id: self.program_id,
            usdc_mint: self.usdc_mint,
            factory: match self.factory {
                Option::Some(f) => Option::Some(f@),
                Option::None => Option::None,
            },
            vaults: self.vaults@,
            depositors: self.depositors@,
        }
    }
}

/// Whether `v` holds an entry equal to `x`.
pub fn contains_identity(v: &Vec<Identity>, x: &Identity) -> (r: bool)
    ensures
        r == v@.contains(*x),
{
    let mut i: usize = 0;
    while i < v.len()
        invariant
            i <= v.len(),
            forall|j: int| 0 <= j < i ==> v@[j] != *x,
        decreases v.len() - i,
    {
        if v[i] == *x {
            return true;
        }
        i += 1;
    }
    false
}

impl Ledger {
    /// Structural well-formedness of the stored records.
    pub open spec fn wf(self) -> bool {
        crate::model::wf(self@)
    }

    /// Every vault accumulator equals the sum of its depositors' native-coin
    /// balances.
    pub open spec fn balanced(self) -> bool {
        crate::model::balanced(self@)
    }

    /// An empty ledger for the engine at `program_id` whose configured token
    /// asset is `usdc_mint`.
    pub fn new(program_id: Identity, usdc_mint: Identity) -> (r: Ledger)
        ensures
            r@ == (LedgerView {
                program_id,
                usdc_mint,
                factory: Option::None::<FactoryView>,
                vaults: Seq::empty(),
                depositors: Seq::empty(),
            }),
            r.wf(),
            r.balanced(),
    {
        Ledger {
            program_id,
            usdc_mint,
            factory: Option::None,
            vaults: Vec::new(),
            depositors: Vec::new(),
        }
    }

    /// The index of the vault record at `addr`, if one exists.
    pub fn find_vault(&self, addr: &Identity) -> (r: Option<usize>)
        requires
            vaults_distinct(self@.vaults),
        ensures
            (match r {
                Option::Some(i) => has_vault_at(self@.vaults, *addr) && i < self.vaults.len()
                    && self@.vaults[i as int].addr == *addr && vault_idx_at(self@.vaults, *addr)
                    == i as int,
                Option::None => !has_vault_at(self@.vaults, *addr),
            }),
    {
        let mut i: usize = 0;
        while i < self.vaults.len()
            invariant
                i <= self.vaults.len(),
                forall|j: int| 0 <= j < i ==> (#[trigger] self@.vaults[j]).addr != *addr,
                vaults_distinct(self@.vaults),
            decreases self.vaults.len() - i,
        {
            if self.vaults[i].addr == *addr {
                proof {
                    lemma_vault_idx_unique(self@.vaults, i as int);
                }
                return Option::Some(i);
            }
            i += 1;
        }
        Option::None
    }

    /// The index of the depositor record at `addr`, if one exists.
    pub fn find_depositor(&self, addr: &Identity) -> (r: Option<usize>)
        requires
            depositors_distinct(self@.depositors),
        ensures
            (match r {
                Option::Some(i) => has_depositor_at(self@.depositors, *addr) && i
                    < self.depositors.len() && self@.depositors[i as int].addr == *addr
                    && depositor_idx_at(self@.depositors, *addr) == i as int,
                Option::None => !has_depositor_at(self@.depositors, *addr),
            }),
    {
        let mut i: usize = 0;
        while i < self.depositors.len()
            invariant
                i <= self.depositors.len(),
                forall|j: int| 0 <= j < i ==> (#[trigger] self@.depositors[j]).addr != *addr,
                depositors_distinct(self@.depositors),
            decreases self.depositors.len() - i,
        {
            if self.depositors[i].addr == *addr {
                proof {
                    lemma_depositor_idx_unique(self@.depositors, i as int);
                }
                return Option::Some(i);
            }
            i += 1;
        }
        Option::None
    }

    /// Creates the factory record if and only if none exists; the caller
    /// becomes its owner.
    pub fn initialize_factory(&mut self, caller: Identity) -> (r: Result<(), CustomError>)
        requires
            old(self).wf(),
        ensures
            final(self).wf(),
            old(self).balanced() ==> final(self).balanced(),
            (match initialize_factory_spec(old(self)@, caller) {
                Ok(l2) => r is Ok && final(self)@ == l2,
                Err(e) => r == Err::<(), CustomError>(e) && final(self)@ == old(self)@,
            }),
    {
        proof {
            lemma_initialize_factory_preserves(old(self)@, caller);
        }
        match &self.factory {
            Option::Some(_) => Err(CustomError::AlreadyInitialized),
            Option::None => {
                self.factory = Option::Some(
                    Factory {
                        owner: caller,
                        vault_count: 0,
                        vaults: Vec::new(),
                        vault_managers: Vec::new(),
                    },
                );
                Ok(())
            },
        }
    }

    /// Creates a vault for `manager` at the (fresh) address `vault_addr`:
    /// only the factory owner may, and only once per manager identity.
    pub fn create_vault(&mut self, caller: Identity, manager: Identity, vault_addr: Identity) -> (r:
        Result<(), CustomError>)
        requires
            old(self).wf(),
            old(self)@.factory is Some,
            (old(self)@.factory->Some_0).vault_count < MAX_VAULTS,
            !has_vault_at(old(self)@.vaults, vault_addr),
        ensures
            final(self).wf(),
            old(self).balanced() ==> final(self).balanced(),
            (match create_vault_spec(old(self)@, caller, manager, vault_addr) {
                Ok(l2) => r is Ok && final(self)@ == l2,
                Err(e) => r == Err::<(), CustomError>(e) && final(self)@ == old(self)@,
            }),
    {
        proof {
            lemma_create_vault_preserves(old(self)@, caller, manager, vault_addr);
        }
        let index = match &self.factory {
            Option::Some(f) => {
                if !(caller == f.owner) {
                    return Err(CustomError::Unauthorized);
                }
                if contains_identity(&f.vault_managers, &manager) {
                    return Err(CustomError::ManagerAlreadyExists);
                }
                f.vault_count
            },
            Option::None => {
                proof {
                    assert(false);
                }
                return Err(CustomError::AlreadyInitialized);
            },
        };
        match &mut self.factory {
            Option::Some(f) => {
                f.vaults.push(vault_addr);
                f.vault_managers.push(manager);
                f.vault_count = index + 1;
            },
            Option::None => {
                proof {
                    assert(false);
                }
            },
        }
        self.vaults.push(Vault { manager, total_deposit: 0, index, addr: vault_addr });
        Ok(())
    }

    /// The asset-specific tail of a deposit, once the depositor record is
    /// resolved: validates the mints for the token kind, credits the balances
    /// with checked additions, and returns the one transfer the host must
    /// perform.
    fn apply_deposit(
        &mut self,
        vi: usize,
        di: usize,
        d: Depositor,
        fresh: bool,
        vault_addr: Identity,
        asset: AssetRequest,
        amount: u64,
        now: i64,
    ) -> (r: Result<TransferInstruction, CustomError>)
        requires
            vi < old(self).vaults.len(),
            old(self)@.vaults[vi as int].addr == vault_addr,
            vault_idx_at(old(self)@.vaults, vault_addr) == vi as int,
            fresh ==> di == old(self).depositors.len(),
            !fresh ==> di < old(self).depositors.len() && d == old(self)@.depositors[di as int],
        ensures
            (match deposit_apply(old(self)@, di as int, d, fresh, vault_addr, asset, amount, now) {
                Ok(p) => r == Ok::<TransferInstruction, CustomError>(p.1) && final(self)@ == p.0,
                Err(e) => r == Err::<TransferInstruction, CustomError>(e) && final(self)@ == old(
                    self,
                )@,
            }),
    {
        match asset {
            AssetRequest::Sol => {
                let new_sol = match d.sol_amount.checked_add(amount) {
                    Option::Some(x) => x,
                    Option::None => {
                        return Err(CustomError::ArithmeticOverflow);
                    },
                };
                let v = self.vaults[vi];
                let new_total = match v.total_deposit.checked_add(amount) {
                    Option::Some(x) => x,
                    Option::None => {
                        return Err(CustomError::ArithmeticOverflow);
                    },
                };
                let d2 = Depositor { sol_amount: new_sol, deposit_time: now, ..d };
                if fresh {
                    self.depositors.push(d2);
                } else {
                    self.depositors[di] = d2;
                }
                self.vaults[vi] = Vault { total_deposit: new_total, ..v };
                Ok(
                    TransferInstruction {
                        asset: AssetKind::Sol,
                        from: TransferParty::Caller,
                        to: TransferParty::SolVault,
                        authority: TransferParty::Caller,
                        amount,
                    },
                )
            },
            AssetRequest::Usdc(mints) => {
                if !(mints.mint == self.usdc_mint) {
                    return Err(CustomError::InvalidMint);
                }
                if !(mints.user_account_mint == mints.mint) {
                    return Err(CustomError::InvalidMint);
                }
                if !(mints.vault_account_mint == mints.mint) {
                    return Err(CustomError::InvalidMint);
                }
                let new_usdc = match d.usdc_amount.checked_add(amount) {
                    Option::Some(x) => x,
                    Option::None => {
                        return Err(CustomError::ArithmeticOverflow);
                    },
                };
                let d2 = Depositor { usdc_amount: new_usdc, deposit_time: now, ..d };
                if fresh {
                    self.depositors.push(d2);
                } else {
                    self.depositors[di] = d2;
                }
                Ok(
                    TransferInstruction {
                        asset: AssetKind::Usdc,
                        from: TransferParty::Caller,
                        to: TransferParty::UsdcVault,
                        authority: TransferParty::Caller,
                        amount,
                    },
                )
            },
        }
    }

    /// A deposit of `amount > 0` of `asset` by `caller` against the vault at
    /// `vault_addr`. The depositor record at `depositor_addr` is created on
    /// first touch with the caller as its immutable owner; on every later
    /// touch the caller must be that owner, and the record must belong to the
    /// vault named by the operation. Returns the one transfer the host must
    /// perform; on any error the ledger is unchanged.
    pub fn deposit(
        &mut self,
        caller: Identity,
        vault_addr: Identity,
        depositor_addr: Identity,
        asset: AssetRequest,
        amount: u64,
        now: i64,
    ) -> (r: Result<TransferInstruction, CustomError>)
        requires
            old(self).wf(),
            has_vault_at(old(self)@.vaults, vault_addr),
        ensures
            final(self).wf(),
            old(self).balanced() ==> final(self).balanced(),
            (match deposit_spec(old(self)@, caller, vault_addr, depositor_addr, asset, amount, now) {
                Ok(p) => r == Ok::<TransferInstruction, CustomError>(p.1) && final(self)@ == p.0,
                Err(e) => r == Err::<TransferInstruction, CustomError>(e) && final(self)@ == old(
                    self,
                )@,
            }),
    {
        proof {
            lemma_deposit_preserves(old(self)@, caller, vault_addr, depositor_addr, asset, amount, now);
        }
        if amount == 0 {
            return Err(CustomError::InvalidAmount);
        }
        let vi = match self.find_vault(&vault_addr) {
            Option::Some(i) => i,
            Option::None => {
                proof {
                    assert(false);
                }
                return Err(CustomError::InvalidAmount);
            },
        };
        match self.find_depositor(&depositor_addr) {
            Option::Some(di) => {
                let d = self.depositors[di];
                if !(d.owner == caller) {
                    return Err(CustomError::Unauthorized);
                }
                if !(d.vault_pda == vault_addr) {
                    return Err(CustomError::AddressMismatch);
                }
                self.apply_deposit(vi, di, d, false, vault_addr, asset, amount, now)
            },
            Option::None => {
                let d0 = Depositor {
                    owner: caller,
                    is_initialized: true,
                    deposit_time: now,
                    sol_amount: 0,
                    usdc_amount: 0,
                    vault_pda: vault_addr,
                    addr: depositor_addr,
                };
                let di = self.depositors.len();
                self.apply_deposit(vi, di, d0, true, vault_addr, asset, amount, now)
            },
        }
    }

    /// A native-coin deposit; see [`Ledger::deposit`].
    pub fn deposit_sol(
        &mut self,
        caller: Identity,
        vault_addr: Identity,
        depositor_addr: Identity,
        amount: u64,
        now: i64,
    ) -> (r: Result<TransferInstruction, CustomError>)
        requires
            old(self).wf(),
            has_vault_at(old(self)@.vaults, vault_addr),
        ensures
            final(self).wf(),
            old(self).balanced() ==> final(self).balanced(),
            (match deposit_spec(
                old(self)@,
                caller,
                vault_addr,
                depositor_addr,
                AssetRequest::Sol,
                amount,
                now,
            ) {
                Ok(p) => r == Ok::<TransferInstruction, CustomError>(p.1) && final(self)@ == p.0,
                Err(e) => r == Err::<TransferInstruction, CustomError>(e) && final(self)@ == old(
                    self,
                )@,
            }),
    {
        self.deposit(caller, vault_addr, depositor_addr, AssetRequest::Sol, amount, now)
    }

    /// A token deposit against the presented mints; see [`Ledger::deposit`].
    pub fn deposit_usdc(
        &mut self,
        caller: Identity,
        vault_addr: Identity,
        depositor_addr: Identity,
        mints: TokenMints,
        amount: u64,
        now: i64,
    ) -> (r: Result<TransferInstruction, CustomError>)
        requires
            old(self).wf(),
            has_vault_at(old(self)@.vaults, vault_addr),
        ensures
            final(self).wf(),
            old(self).balanced() ==> final(self).balanced(),
            (match deposit_spec(
                old(self)@,
                caller,
                vault_addr,
                depositor_addr,
                AssetRequest::Usdc(mints),
                amount,
                now,
            ) {
                Ok(p) => r == Ok::<TransferInstruction, CustomError>(p.1) && final(self)@ == p.0,
                Err(e) => r == Err::<TransferInstruction, CustomError>(e) && final(self)@ == old(
                    self,
                )@,
            }),
    {
        self.deposit(caller, vault_addr, depositor_addr, AssetRequest::Usdc(mints), amount, now)
    }

    /// A withdrawal by `caller` from its depositor record: every balance
    /// check is made before any transfer instruction is issued, each
    /// non-zero leg is debited, and the native-coin leg also debits the
    /// vault's accumulator. Returns the transfers the host must perform, in
    /// order; on any error the ledger is unchanged.
    pub fn withdraw(
        &mut self,
        caller: Identity,
        depositor_addr: Identity,
        sol_amount: u64,
        usdc_amount: u64,
        mints: TokenMints,
    ) -> (r: Result<Vec<TransferInstruction>, CustomError>)
        requires
            old(self).wf(),
            has_depositor_at(old(self)@.depositors, depositor_addr),
        ensures
            final(self).wf(),
            old(self).balanced() ==> final(self).balanced(),
            (match withdraw_spec(old(self)@, caller, depositor_addr, sol_amount, usdc_amount, mints) {
                Ok(p) => final(self)@ == p.0 && (r matches Ok(instrs) && instrs@ == p.1),
                Err(e) => r == Err::<Vec<TransferInstruction>, CustomError>(e) && final(self)@
                    == old(self)@,
            }),
    {
        proof {
            lemma_withdraw_preserves(old(self)@, caller, depositor_addr, sol_amount, usdc_amount, mints);
        }
        let di = match self.find_depositor(&depositor_addr) {
            Option::Some(i) => i,
            Option::None => {
                proof {
                    assert(false);
                }
                return Err(CustomError::Unauthorized);
            },
        };
        let d = self.depositors[di];
        if !(d.owner == caller) {
            return Err(CustomError::Unauthorized);
        }
        proof {
            assert(has_vault_at(self@.vaults, self@.depositors[di as int].vault_pda));
        }
        let vi = match self.find_vault(&d.vault_pda) {
            Option::Some(i) => i,
            Option::None => {
                proof {
                    assert(false);
                }
                return Err(CustomError::Unauthorized);
            },
        };
        let v = self.vaults[vi];
        if sol_amount > 0 && d.sol_amount < sol_amount {
            return Err(CustomError::InsufficientBalance);
        }
        if sol_amount > 0 && v.total_deposit < sol_amount {
            return Err(CustomError::ArithmeticUnderflow);
        }
        if usdc_amount > 0 && d.usdc_amount < usdc_amount {
            return Err(CustomError::InsufficientBalance);
        }
        if usdc_amount > 0 {
            if !(mints.mint == self.usdc_mint) {
                return Err(CustomError::InvalidMint);
            }
            if !(mints.user_account_mint == mints.mint) {
                return Err(CustomError::InvalidMint);
            }
            if !(mints.vault_account_mint == mints.mint) {
                return Err(CustomError::InvalidMint);
            }
        }
        let d2 = Depositor {
            sol_amount: d.sol_amount - sol_amount,
            usdc_amount: d.usdc_amount - usdc_amount,
            ..d
        };
        self.depositors[di] = d2;
        if sol_amount > 0 {
            self.vaults[vi] = Vault { total_deposit: v.total_deposit - sol_amount, ..v };
        }
        let mut instrs: Vec<TransferInstruction> = Vec::new();
        if sol_amount > 0 {
            instrs.push(
                TransferInstruction {
                    asset: AssetKind::Sol,
                    from: TransferParty::SolVault,
                    to: TransferParty::Caller,
                    authority: TransferParty::SolVault,
                    amount: sol_amount,
                },
            );
        }
        if usdc_amount > 0 {
            instrs.push(
                TransferInstruction {
                    asset: AssetKind::Usdc,
                    from: TransferParty::UsdcVault,
                    to: TransferParty::Caller,
                    authority: TransferParty::UsdcVault,
                    amount: usdc_amount,
                },
            );
        }
        proof {
            let p = withdraw_spec(
                old(self)@,
                caller,
                depositor_addr,
                sol_amount,
                usdc_amount,
                mints,
            )->Ok_0;
            assert(instrs@ =~= p.1);
        }
        Ok(instrs)
    }

    /// The administrative sweep: the vault's manager moves `amount` out of
    /// the vault's native-coin holding sub-account. This deliberately
    /// bypasses per-depositor accounting: no record is touched, so the
    /// vault's accumulator may afterwards exceed the funds actually held.
    pub fn owner_withdraw(&self, caller: Identity, vault_addr: Identity, amount: u64) -> (r: Result<
        TransferInstruction,
        CustomError,
    >)
        requires
            self.wf(),
            has_vault_at(self@.vaults, vault_addr),
        ensures
            (match owner_withdraw_spec(self@, caller, vault_addr, amount) {
                Ok(t) => r == Ok::<TransferInstruction, CustomError>(t),
                Err(e) => r == Err::<TransferInstruction, CustomError>(e),
            }),
    {
        let vi = match self.find_vault(&vault_addr) {
            Option::Some(i) => i,
            Option::None => {
                proof {
                    assert(false);
                }
                return Err(CustomError::Unauthorized);
            },
        };
        if self.vaults[vi].manager == caller {
            Ok(
                TransferInstruction {
                    asset: AssetKind::Sol,
                    from: TransferParty::SolVault,
                    to: TransferParty::Caller,
                    authority: TransferParty::SolVault,
                    amount,
                },
            )
        } else {
            Err(CustomError::Unauthorized)
        }
    }
}

} // verus!
