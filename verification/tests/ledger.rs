use vault_ledger::errors::CustomError;
use vault_ledger::identity::Identity;
use vault_ledger::ledger::Ledger;
use vault_ledger::records::{
    AssetKind, Depositor, TokenMints, TransferInstruction, TransferParty, Vault,
};

fn id(b: u8) -> Identity {
    Identity { bytes: [b; 32] }
}

const PROGRAM: u8 = 1;
const USDC: u8 = 2;
const OWNER: u8 = 3;
const MANAGER: u8 = 4;
const DEPOSITOR: u8 = 5;
const STRANGER: u8 = 6;
const VAULT_ADDR: u8 = 10;
const DEPOSITOR_ADDR: u8 = 11;

fn fresh_ledger() -> Ledger {
    Ledger::new(id(PROGRAM), id(USDC))
}

fn ledger_with_vault() -> Ledger {
    let mut l = fresh_ledger();
    l.initialize_factory(id(OWNER)).unwrap();
    l.create_vault(id(OWNER), id(MANAGER), id(VAULT_ADDR)).unwrap();
    l
}

fn good_mints() -> TokenMints {
    TokenMints { mint: id(USDC), user_account_mint: id(USDC), vault_account_mint: id(USDC) }
}

#[test]
fn initialize_factory_sets_owner_once() {
    let mut l = fresh_ledger();
    assert_eq!(l.initialize_factory(id(OWNER)), Ok(()));
    let f = l.factory.as_ref().unwrap();
    assert_eq!(f.owner, id(OWNER));
    assert_eq!(f.vault_count, 0);
    assert!(f.vaults.is_empty());
    assert!(f.vault_managers.is_empty());
    assert_eq!(l.initialize_factory(id(STRANGER)), Err(CustomError::AlreadyInitialized));
    assert_eq!(l.factory.as_ref().unwrap().owner, id(OWNER));
}

#[test]
fn create_vault_registers_manager() {
    let l = ledger_with_vault();
    let f = l.factory.as_ref().unwrap();
    assert_eq!(f.vault_count, 1);
    assert_eq!(f.vaults, vec![id(VAULT_ADDR)]);
    assert_eq!(f.vault_managers, vec![id(MANAGER)]);
    assert_eq!(l.vaults.len(), 1);
    assert_eq!(l.vaults[0].manager, id(MANAGER));
    assert_eq!(l.vaults[0].total_deposit, 0);
    assert_eq!(l.vaults[0].index, 0);
    assert_eq!(l.vaults[0].addr, id(VAULT_ADDR));
}

#[test]
fn create_vault_requires_factory_owner() {
    let mut l = fresh_ledger();
    l.initialize_factory(id(OWNER)).unwrap();
    assert_eq!(
        l.create_vault(id(STRANGER), id(MANAGER), id(VAULT_ADDR)),
        Err(CustomError::Unauthorized)
    );
    assert_eq!(l.factory.as_ref().unwrap().vault_count, 0);
    assert!(l.vaults.is_empty());
}

#[test]
fn duplicate_manager_rejected() {
    let mut l = ledger_with_vault();
    assert_eq!(
        l.create_vault(id(OWNER), id(MANAGER), id(20)),
        Err(CustomError::ManagerAlreadyExists)
    );
    assert_eq!(l.factory.as_ref().unwrap().vault_count, 1);
    assert_eq!(l.vaults.len(), 1);
}

#[test]
fn deposit_sol_credits_depositor_and_vault() {
    let mut l = ledger_with_vault();
    let r = l.deposit_sol(id(DEPOSITOR), id(VAULT_ADDR), id(DEPOSITOR_ADDR), 100, 1000);
    assert_eq!(
        r,
        Ok(TransferInstruction {
            asset: AssetKind::Sol,
            from: TransferParty::Caller,
            to: TransferParty::SolVault,
            authority: TransferParty::Caller,
            amount: 100,
        })
    );
    assert_eq!(l.depositors.len(), 1);
    let d = &l.depositors[0];
    assert_eq!(d.owner, id(DEPOSITOR));
    assert!(d.is_initialized);
    assert_eq!(d.sol_amount, 100);
    assert_eq!(d.usdc_amount, 0);
    assert_eq!(d.deposit_time, 1000);
    assert_eq!(d.vault_pda, id(VAULT_ADDR));
    assert_eq!(l.vaults[0].total_deposit, 100);

    // the sum of several deposits accumulates
    l.deposit_sol(id(DEPOSITOR), id(VAULT_ADDR), id(DEPOSITOR_ADDR), 150, 1001).unwrap();
    assert_eq!(l.depositors[0].sol_amount, 250);
    assert_eq!(l.vaults[0].total_deposit, 250);
    assert_eq!(l.depositors[0].deposit_time, 1001);
}

#[test]
fn deposit_of_zero_rejected() {
    let mut l = ledger_with_vault();
    assert_eq!(
        l.deposit_sol(id(DEPOSITOR), id(VAULT_ADDR), id(DEPOSITOR_ADDR), 0, 1000),
        Err(CustomError::InvalidAmount)
    );
    assert!(l.depositors.is_empty());
}

#[test]
fn factory_scenario_deposit_then_withdraw_then_insufficient() {
    let mut l = fresh_ledger();
    assert_eq!(l.initialize_factory(id(OWNER)), Ok(()));
    assert_eq!(l.create_vault(id(OWNER), id(MANAGER), id(VAULT_ADDR)), Ok(()));
    assert_eq!(l.factory.as_ref().unwrap().vault_count, 1);

    l.deposit_sol(id(DEPOSITOR), id(VAULT_ADDR), id(DEPOSITOR_ADDR), 500, 7).unwrap();
    assert_eq!(l.depositors[0].sol_amount, 500);
    assert_eq!(l.vaults[0].total_deposit, 500);

    let instrs = l.withdraw(id(DEPOSITOR), id(DEPOSITOR_ADDR), 500, 0, good_mints()).unwrap();
    assert_eq!(
        instrs,
        vec![TransferInstruction {
            asset: AssetKind::Sol,
            from: TransferParty::SolVault,
            to: TransferParty::Caller,
            authority: TransferParty::SolVault,
            amount: 500,
        }]
    );
    assert_eq!(l.depositors[0].sol_amount, 0);
    assert_eq!(l.vaults[0].total_deposit, 0);

    assert_eq!(
        l.withdraw(id(DEPOSITOR), id(DEPOSITOR_ADDR), 1, 0, good_mints()),
        Err(CustomError::InsufficientBalance)
    );
    assert_eq!(l.depositors[0].sol_amount, 0);
}

#[test]
fn withdraw_by_stranger_rejected_and_balance_kept() {
    let mut l = ledger_with_vault();
    l.deposit_sol(id(DEPOSITOR), id(VAULT_ADDR), id(DEPOSITOR_ADDR), 100, 5).unwrap();
    assert_eq!(
        l.withdraw(id(STRANGER), id(DEPOSITOR_ADDR), 100, 0, good_mints()),
        Err(CustomError::Unauthorized)
    );
    assert_eq!(l.depositors[0].sol_amount, 100);
    assert_eq!(l.vaults[0].total_deposit, 100);
}

#[test]
fn deposit_by_stranger_against_existing_record_rejected() {
    let mut l = ledger_with_vault();
    l.deposit_sol(id(DEPOSITOR), id(VAULT_ADDR), id(DEPOSITOR_ADDR), 100, 5).unwrap();
    assert_eq!(
        l.deposit_sol(id(STRANGER), id(VAULT_ADDR), id(DEPOSITOR_ADDR), 10, 6),
        Err(CustomError::Unauthorized)
    );
    assert_eq!(l.depositors[0].sol_amount, 100);
}

#[test]
fn deposit_withdraw_round_trip_restores_balances() {
    let mut l = ledger_with_vault();
    l.deposit_sol(id(DEPOSITOR), id(VAULT_ADDR), id(DEPOSITOR_ADDR), 30, 1).unwrap();
    let sol_before = l.depositors[0].sol_amount;
    let usdc_before = l.depositors[0].usdc_amount;
    let total_before = l.vaults[0].total_deposit;

    l.deposit_sol(id(DEPOSITOR), id(VAULT_ADDR), id(DEPOSITOR_ADDR), 70, 2).unwrap();
    l.withdraw(id(DEPOSITOR), id(DEPOSITOR_ADDR), 70, 0, good_mints()).unwrap();

    assert_eq!(l.depositors[0].sol_amount, sol_before);
    assert_eq!(l.depositors[0].usdc_amount, usdc_before);
    assert_eq!(l.vaults[0].total_deposit, total_before);
}

#[test]
fn token_deposit_against_matching_mint() {
    let mut l = ledger_with_vault();

    // a mismatched mint is rejected and no record is created
    let bad = TokenMints {
        mint: id(9),
        user_account_mint: id(9),
        vault_account_mint: id(9),
    };
    assert_eq!(
        l.deposit_usdc(id(DEPOSITOR), id(VAULT_ADDR), id(DEPOSITOR_ADDR), bad, 200, 1),
        Err(CustomError::InvalidMint)
    );
    assert!(l.depositors.is_empty());

    // a matching mint succeeds
    let r = l.deposit_usdc(id(DEPOSITOR), id(VAULT_ADDR), id(DEPOSITOR_ADDR), good_mints(), 200, 2);
    assert_eq!(
        r,
        Ok(TransferInstruction {
            asset: AssetKind::Usdc,
            from: TransferParty::Caller,
            to: TransferParty::UsdcVault,
            authority: TransferParty::Caller,
            amount: 200,
        })
    );
    assert_eq!(l.depositors[0].usdc_amount, 200);
    assert_eq!(l.depositors[0].sol_amount, 0);
    // the vault's native-coin accumulator is not touched by the token leg
    assert_eq!(l.vaults[0].total_deposit, 0);
}

#[test]
fn token_account_mint_consistency_checked() {
    let mut l = ledger_with_vault();
    let inconsistent = TokenMints {
        mint: id(USDC),
        user_account_mint: id(9),
        vault_account_mint: id(USDC),
    };
    assert_eq!(
        l.deposit_usdc(id(DEPOSITOR), id(VAULT_ADDR), id(DEPOSITOR_ADDR), inconsistent, 10, 1),
        Err(CustomError::InvalidMint)
    );
}

#[test]
fn withdraw_token_leg_checks_mints() {
    let mut l = ledger_with_vault();
    l.deposit_usdc(id(DEPOSITOR), id(VAULT_ADDR), id(DEPOSITOR_ADDR), good_mints(), 200, 1)
        .unwrap();
    let bad = TokenMints {
        mint: id(USDC),
        user_account_mint: id(USDC),
        vault_account_mint: id(9),
    };
    assert_eq!(
        l.withdraw(id(DEPOSITOR), id(DEPOSITOR_ADDR), 0, 50, bad),
        Err(CustomError::InvalidMint)
    );
    assert_eq!(l.depositors[0].usdc_amount, 200);
}

#[test]
fn withdraw_both_legs_in_order() {
    let mut l = ledger_with_vault();
    l.deposit_sol(id(DEPOSITOR), id(VAULT_ADDR), id(DEPOSITOR_ADDR), 100, 1).unwrap();
    l.deposit_usdc(id(DEPOSITOR), id(VAULT_ADDR), id(DEPOSITOR_ADDR), good_mints(), 50, 2)
        .unwrap();
    let instrs = l.withdraw(id(DEPOSITOR), id(DEPOSITOR_ADDR), 60, 20, good_mints()).unwrap();
    assert_eq!(instrs.len(), 2);
    assert_eq!(instrs[0].asset, AssetKind::Sol);
    assert_eq!(instrs[0].amount, 60);
    assert_eq!(instrs[1].asset, AssetKind::Usdc);
    assert_eq!(instrs[1].amount, 20);
    assert_eq!(l.depositors[0].sol_amount, 40);
    assert_eq!(l.depositors[0].usdc_amount, 30);
    assert_eq!(l.vaults[0].total_deposit, 40);
}

#[test]
fn withdraw_of_nothing_changes_nothing() {
    let mut l = ledger_with_vault();
    l.deposit_sol(id(DEPOSITOR), id(VAULT_ADDR), id(DEPOSITOR_ADDR), 100, 1).unwrap();
    let instrs = l.withdraw(id(DEPOSITOR), id(DEPOSITOR_ADDR), 0, 0, good_mints()).unwrap();
    assert!(instrs.is_empty());
    assert_eq!(l.depositors[0].sol_amount, 100);
    assert_eq!(l.vaults[0].total_deposit, 100);
}

#[test]
fn deposit_overflow_rejected() {
    let mut l = ledger_with_vault();
    l.deposit_sol(id(DEPOSITOR), id(VAULT_ADDR), id(DEPOSITOR_ADDR), u64::MAX, 1).unwrap();
    assert_eq!(l.depositors[0].sol_amount, u64::MAX);
    assert_eq!(
        l.deposit_sol(id(DEPOSITOR), id(VAULT_ADDR), id(DEPOSITOR_ADDR), 1, 2),
        Err(CustomError::ArithmeticOverflow)
    );
    assert_eq!(l.depositors[0].sol_amount, u64::MAX);
    assert_eq!(l.vaults[0].total_deposit, u64::MAX);
}

#[test]
fn withdraw_underflow_of_vault_accumulator() {
    // A hand-built ledger whose vault accumulator lags behind the depositor
    // balance: the native-coin leg's checked subtraction on the accumulator
    // fails before any state changes.
    let l0 = ledger_with_vault();
    let mut l = Ledger {
        program_id: l0.program_id,
        usdc_mint: l0.usdc_mint,
        factory: l0.factory,
        vaults: vec![Vault {
            manager: id(MANAGER),
            total_deposit: 0,
            index: 0,
            addr: id(VAULT_ADDR),
        }],
        depositors: vec![Depositor {
            owner: id(DEPOSITOR),
            is_initialized: true,
            deposit_time: 0,
            sol_amount: 5,
            usdc_amount: 0,
            vault_pda: id(VAULT_ADDR),
            addr: id(DEPOSITOR_ADDR),
        }],
    };
    assert_eq!(
        l.withdraw(id(DEPOSITOR), id(DEPOSITOR_ADDR), 5, 0, good_mints()),
        Err(CustomError::ArithmeticUnderflow)
    );
    assert_eq!(l.depositors[0].sol_amount, 5);
    assert_eq!(l.vaults[0].total_deposit, 0);
}

#[test]
fn deposit_against_foreign_vault_rejected() {
    let mut l = ledger_with_vault();
    l.create_vault(id(OWNER), id(7), id(21)).unwrap();
    l.deposit_sol(id(DEPOSITOR), id(VAULT_ADDR), id(DEPOSITOR_ADDR), 100, 1).unwrap();
    // the record at DEPOSITOR_ADDR belongs to the first vault
    assert_eq!(
        l.deposit_sol(id(DEPOSITOR), id(21), id(DEPOSITOR_ADDR), 10, 2),
        Err(CustomError::AddressMismatch)
    );
    assert_eq!(l.depositors[0].sol_amount, 100);
    assert_eq!(l.vaults[1].total_deposit, 0);
}

#[test]
fn owner_withdraw_is_manager_gated_bypass() {
    let mut l = ledger_with_vault();
    l.deposit_sol(id(DEPOSITOR), id(VAULT_ADDR), id(DEPOSITOR_ADDR), 100, 1).unwrap();
    assert_eq!(
        l.owner_withdraw(id(STRANGER), id(VAULT_ADDR), 40),
        Err(CustomError::Unauthorized)
    );
    let r = l.owner_withdraw(id(MANAGER), id(VAULT_ADDR), 40);
    assert_eq!(
        r,
        Ok(TransferInstruction {
            asset: AssetKind::Sol,
            from: TransferParty::SolVault,
            to: TransferParty::Caller,
            authority: TransferParty::SolVault,
            amount: 40,
        })
    );
    // the sweep does no per-depositor bookkeeping
    assert_eq!(l.depositors[0].sol_amount, 100);
    assert_eq!(l.vaults[0].total_deposit, 100);
}

#[test]
fn factory_reference_is_kept() {
    // the factory registry stays in lockstep with the stored vaults
    let mut l = fresh_ledger();
    l.initialize_factory(id(OWNER)).unwrap();
    l.create_vault(id(OWNER), id(40), id(50)).unwrap();
    l.create_vault(id(OWNER), id(41), id(51)).unwrap();
    l.create_vault(id(OWNER), id(42), id(52)).unwrap();
    let f = l.factory.as_ref().unwrap();
    assert_eq!(f.vault_count, 3);
    assert_eq!(f.vaults, vec![id(50), id(51), id(52)]);
    assert_eq!(f.vault_managers, vec![id(40), id(41), id(42)]);
    for (i, v) in l.vaults.iter().enumerate() {
        assert_eq!(v.index as usize, i);
        assert_eq!(v.addr, f.vaults[i]);
        assert_eq!(v.manager, f.vault_managers[i]);
    }
}
