use vault_ledger::addressing::{
    derive_depositor_address, derive_factory_address, derive_sol_vault_address,
    derive_usdc_vault_address, derive_vault_address, mainnet_usdc_mint,
};
use vault_ledger::errors::CustomError;
use vault_ledger::identity::Identity;
use vault_ledger::ledger::Ledger;
use vault_ledger::records::{AssetRequest, TokenMints};

fn id(b: u8) -> Identity {
    Identity { bytes: [b; 32] }
}

fn good_mints() -> TokenMints {
    TokenMints { mint: id(2), user_account_mint: id(2), vault_account_mint: id(2) }
}

#[test]
fn derivation_is_deterministic_and_not_the_input() {
    let program = id(1);
    let manager = id(4);
    let a = derive_vault_address(&program, &manager);
    let b = derive_vault_address(&program, &manager);
    assert_eq!(a, b);
    // the derivation hashes; it does not hand back its key material
    assert_ne!(a, manager);
    assert_ne!(a, program);
    // different key material gives a different address
    assert_ne!(a, derive_vault_address(&program, &id(5)));
    // different namespace tags give different addresses
    assert_ne!(derive_factory_address(&program), derive_sol_vault_address(&program));
    assert_ne!(derive_sol_vault_address(&program), derive_usdc_vault_address(&program));
}

#[test]
fn depositor_address_depends_on_owner_and_vault() {
    let program = id(1);
    let vault = derive_vault_address(&program, &id(4));
    let a = derive_depositor_address(&program, &id(5), &vault);
    assert_eq!(a, derive_depositor_address(&program, &id(5), &vault));
    assert_ne!(a, derive_depositor_address(&program, &id(6), &vault));
    assert_ne!(a, derive_depositor_address(&program, &id(5), &id(9)));
}

#[test]
fn mainnet_usdc_mint_decodes_to_raw_bytes() {
    let mint = mainnet_usdc_mint().unwrap();
    // base58 decoding produced 32 raw bytes, not the ASCII of the string
    let ascii: Vec<u8> = "EPjFWdd5AufqSSqeM2qN1xzybapC8G4wEGGkZwyTDt1v".bytes().collect();
    assert_ne!(&mint.bytes[..], &ascii[..32]);
    // and it is stable
    assert_eq!(mainnet_usdc_mint().unwrap(), mint);
}

#[test]
fn checked_entry_points_enforce_derived_addresses() {
    let program = id(1);
    let owner = id(3);
    let manager = id(4);
    let depositor = id(5);
    let mut l = Ledger::new(program, id(2));

    // a wrong factory address is rejected before anything happens
    assert_eq!(
        l.submit_initialize_factory(owner, id(99)),
        Err(CustomError::AddressMismatch)
    );
    assert!(l.factory.is_none());

    let factory_addr = derive_factory_address(&program);
    assert_eq!(l.submit_initialize_factory(owner, factory_addr), Ok(()));

    // a wrong vault address is rejected
    assert_eq!(
        l.submit_create_vault(owner, manager, id(99)),
        Err(CustomError::AddressMismatch)
    );
    let vault_addr = derive_vault_address(&program, &manager);
    assert_eq!(l.submit_create_vault(owner, manager, vault_addr), Ok(()));

    // a deposit must name the depositor record derived from the caller
    let depositor_addr = derive_depositor_address(&program, &depositor, &vault_addr);
    assert_eq!(
        l.submit_deposit(depositor, manager, vault_addr, id(99), AssetRequest::Sol, 100, 7),
        Err(CustomError::AddressMismatch)
    );
    assert!(l
        .submit_deposit(depositor, manager, vault_addr, depositor_addr, AssetRequest::Sol, 100, 7)
        .is_ok());
    assert_eq!(l.depositors[0].sol_amount, 100);

    // a stranger pointing the operation at the depositor's record is caught
    // by re-derivation: the expected address for the stranger differs
    let stranger = id(6);
    assert_eq!(
        l.submit_withdraw(stranger, manager, depositor_addr, 100, 0, good_mints()),
        Err(CustomError::AddressMismatch)
    );
    assert_eq!(l.depositors[0].sol_amount, 100);

    // the owner itself withdraws fine
    let instrs = l
        .submit_withdraw(depositor, manager, depositor_addr, 100, 0, good_mints())
        .unwrap();
    assert_eq!(instrs.len(), 1);
    assert_eq!(l.depositors[0].sol_amount, 0);

    // the administrative sweep checks the vault address too
    assert_eq!(
        l.submit_owner_withdraw(manager, manager, id(99), 1),
        Err(CustomError::AddressMismatch)
    );
    assert!(l.submit_owner_withdraw(manager, manager, vault_addr, 1).is_ok());
}
