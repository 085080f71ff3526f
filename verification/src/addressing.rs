//! Deterministic addressing: every record address is derived from a
//! namespace tag and key material, never stored in a table, so the engine can
//! re-derive the expected address of every record it touches and reject an
//! operation whose caller-supplied address does not match.
//!
//! The derivation itself is the outside crate's work; the checked entry
//! points (`submit_*`) wrap the verified operations of
//! [`crate::ledger::Ledger`] with the re-derive-and-compare guard.

use vstd::prelude::*;

use anchor_lang::prelude::Pubkey;

use crate::errors::CustomError;
use crate::identity::{lemma_identity_bytes_eq, Identity};
use crate::ledger::Ledger;
use crate::model::{has_depositor_at, has_vault_at};
use crate::records::{AssetRequest, TokenMints, TransferInstruction};
use crate::transitions::{
    create_vault_spec, deposit_spec, initialize_factory_spec, owner_withdraw_spec, withdraw_spec,
    MAX_VAULTS,
};

verus! {

broadcast use vstd::array::group_array_axioms;

/// The namespace tag of the factory record: the bytes of "vault_factory".
pub const FACTORY_SEED: [u8; 13] = [118, 97, 117, 108, 116, 95, 102, 97, 99, 116, 111, 114, 121];

/// The namespace tag of a vault record: the bytes of "vault".
pub const VAULT_SEED: [u8; 5] = [118, 97, 117, 108, 116];

/// The namespace tag of a depositor record: the bytes of "depositor".
pub const DEPOSITOR_SEED: [u8; 9] = [100, 101, 112, 111, 115, 105, 116, 111, 114];

/// The namespace tag of the native-coin holding sub-account: the bytes of
/// "vault_pda".
pub const SOL_VAULT_SEED: [u8; 9] = [118, 97, 117, 108, 116, 95, 112, 100, 97];

/// The namespace tag of the token holding sub-account: the bytes of
/// "vault_usdc_account".
pub const USDC_VAULT_SEED: [u8; 18] = [
    118,
    97,
    117,
    108,
    116,
    95,
    117,
    115,
    100,
    99,
    95,
    97,
    99,
    99,
    111,
    117,
    110,
    116,
];

/// The address that the outside derivation returns for three seeds and a
/// program identity. It is a pure function of its arguments (a SHA-256
/// digest); nothing more is assumed of it.
pub uninterp spec fn pda_of(seed_a: Seq<u8>, seed_b: Seq<u8>, seed_c: Seq<u8>, program: Seq<u8>) -> Seq<
    u8,
>;

/// What base58 decoding of a string returns. A pure function of the
/// characters alone; nothing more is assumed of it.
pub uninterp spec fn base58_key_of(s: Seq<char>) -> Seq<u8>;

/// Relies on `Pubkey::try_derive_address` of the solana-pubkey crate,
/// reached through anchor_lang's re-export: the returned address is the
/// SHA-256 digest of the seeds, the program id and a fixed domain marker — a
/// function of the arguments alone — and with every seed at most 32 bytes
/// (its documented maximum seed length) the derivation never fails.
#[verifier::external_body]
fn derive_address_raw(seed_a: &Vec<u8>, seed_b: &Vec<u8>, seed_c: &Vec<u8>, program: &Identity) -> (r:
    [u8; 32])
    requires
        seed_a@.len() <= 32,
        seed_b@.len() <= 32,
        seed_c@.len() <= 32,
    ensures
        r@ == pda_of(seed_a@, seed_b@, seed_c@, program.bytes@),
{
    let pk = Pubkey::try_derive_address(
        &[seed_a.as_slice(), seed_b.as_slice(), seed_c.as_slice()],
        None,
        &Pubkey::new_from_array(program.bytes),
    ).unwrap();
    pk.to_bytes()
}

/// Relies on `Pubkey`'s `FromStr` impl of the solana-pubkey crate, reached
/// through anchor_lang's re-export: base58 decoding is a function of the
/// characters alone, and a string that does not decode to exactly 32 bytes is
/// rejected.
#[verifier::external_body]
fn parse_base58(s: &str) -> (r: Option<[u8; 32]>)
    ensures
        (r matches Some(a) ==> a@ == base58_key_of(s@)),
{
    match <Pubkey as core::str::FromStr>::from_str(s) {
        Ok(p) => Some(p.to_bytes()),
        Err(_) => None,
    }
}

/// The deterministic address of the factory record.
pub open spec fn factory_address_of(program: Identity) -> Seq<u8> {
    pda_of(FACTORY_SEED@, Seq::empty(), Seq::empty(), program.bytes@)
}

/// The deterministic address of the vault record of `manager`.
pub open spec fn vault_address_of(program: Identity, manager: Identity) -> Seq<u8> {
    pda_of(VAULT_SEED@, manager.bytes@, Seq::empty(), program.bytes@)
}

/// The deterministic address of the depositor record of `owner` against the
/// vault at `vault_addr_bytes`.
pub open spec fn depositor_address_of(
    program: Identity,
    owner: Identity,
    vault_addr_bytes: Seq<u8>,
) -> Seq<u8> {
    pda_of(DEPOSITOR_SEED@, owner.bytes@, vault_addr_bytes, program.bytes@)
}

/// The deterministic address of the native-coin holding sub-account.
pub open spec fn sol_vault_address_of(program: Identity) -> Seq<u8> {
    pda_of(SOL_VAULT_SEED@, Seq::empty(), Seq::empty(), program.bytes@)
}

/// The deterministic address of the token holding sub-account.
pub open spec fn usdc_vault_address_of(program: Identity) -> Seq<u8> {
    pda_of(USDC_VAULT_SEED@, Seq::empty(), Seq::empty(), program.bytes@)
}

/// Re-derives the factory record's address.
pub fn derive_factory_address(program: &Identity) -> (r: Identity)
    ensures
        r.bytes@ == factory_address_of(*program),
{
    let seed = vstd::slice::slice_to_vec(vstd::array::array_as_slice(&FACTORY_SEED));
    let empty_b: Vec<u8> = Vec::new();
    let empty_c: Vec<u8> = Vec::new();
    Identity { bytes: derive_address_raw(&seed, &empty_b, &empty_c, program) }
}

/// Re-derives the address of the vault record of `manager`.
pub fn derive_vault_address(program: &Identity, manager: &Identity) -> (r: Identity)
    ensures
        r.bytes@ == vault_address_of(*program, *manager),
{
    let seed = vstd::slice::slice_to_vec(vstd::array::array_as_slice(&VAULT_SEED));
    let key = vstd::slice::slice_to_vec(vstd::array::array_as_slice(&manager.bytes));
    let empty_c: Vec<u8> = Vec::new();
    Identity { bytes: derive_address_raw(&seed, &key, &empty_c, program) }
}

/// Re-derives the address of the depositor record of `owner` against the
/// vault at `vault_addr`.
pub fn derive_depositor_address(program: &Identity, owner: &Identity, vault_addr: &Identity) -> (r:
    Identity)
    ensures
        r.bytes@ == depositor_address_of(*program, *owner, vault_addr.bytes@),
{
    let seed = vstd::slice::slice_to_vec(vstd::array::array_as_slice(&DEPOSITOR_SEED));
    let key = vstd::slice::slice_to_vec(vstd::array::array_as_slice(&owner.bytes));
    let vkey = vstd::slice::slice_to_vec(vstd::array::array_as_slice(&vault_addr.bytes));
    Identity { bytes: derive_address_raw(&seed, &key, &vkey, program) }
}

/// Re-derives the address of the native-coin holding sub-account.
pub fn derive_sol_vault_address(program: &Identity) -> (r: Identity)
    ensures
        r.bytes@ == sol_vault_address_of(*program),
{
    let seed = vstd::slice::slice_to_vec(vstd::array::array_as_slice(&SOL_VAULT_SEED));
    let empty_b: Vec<u8> = Vec::new();
    let empty_c: Vec<u8> = Vec::new();
    Identity { bytes: derive_address_raw(&seed, &empty_b, &empty_c, program) }
}

/// Re-derives the address of the token holding sub-account.
pub fn derive_usdc_vault_address(program: &Identity) -> (r: Identity)
    ensures
        r.bytes@ == usdc_vault_address_of(*program),
{
    let seed = vstd::slice::slice_to_vec(vstd::array::array_as_slice(&USDC_VAULT_SEED));
    let empty_b: Vec<u8> = Vec::new();
    let empty_c: Vec<u8> = Vec::new();
    Identity { bytes: derive_address_raw(&seed, &empty_b, &empty_c, program) }
}

/// The configured fungible asset: the mainnet USDC mint, written in base58.
pub fn mainnet_usdc_mint() -> (r: Option<Identity>)
    ensures
        (r matches Some(i) ==> i.bytes@ == base58_key_of(
            "EPjFWdd5AufqSSqeM2qN1xzybapC8G4wEGGkZwyTDt1v"@,
        )),
{
    match parse_base58("EPjFWdd5AufqSSqeM2qN1xzybapC8G4wEGGkZwyTDt1v") {
        Option::Some(b) => Option::Some(Identity { bytes: b }),
        Option::None => Option::None,
    }
}

impl Ledger {
    /// Initializes the factory after checking that the caller-supplied
    /// factory address matches the re-derived one.
    pub fn submit_initialize_factory(&mut self, caller: Identity, claimed_factory_addr: Identity) -> (r:
        Result<(), CustomError>)
        requires
            old(self).wf(),
        ensures
            final(self).wf(),
            old(self).balanced() ==> final(self).balanced(),
            claimed_factory_addr.bytes@ != factory_address_of(old(self).program_id) ==> r == Err::<
                (),
                CustomError,
            >(CustomError::AddressMismatch) && final(self)@ == old(self)@,
            claimed_factory_addr.bytes@ == factory_address_of(old(self).program_id) ==> (
            match initialize_factory_spec(old(self)@, caller) {
                Ok(l2) => r is Ok && final(self)@ == l2,
                Err(e) => r == Err::<(), CustomError>(e) && final(self)@ == old(self)@,
            }),
    {
        let expected = derive_factory_address(&self.program_id);
        proof {
            lemma_identity_bytes_eq(claimed_factory_addr, expected);
        }
        if !(claimed_factory_addr == expected) {
            return Err(CustomError::AddressMismatch);
        }
        self.initialize_factory(caller)
    }

    /// Creates a vault after checking that the caller-supplied vault address
    /// matches the one re-derived from the manager identity.
    pub fn submit_create_vault(
        &mut self,
        caller: Identity,
        manager: Identity,
        claimed_vault_addr: Identity,
    ) -> (r: Result<(), CustomError>)
        requires
            old(self).wf(),
            old(self)@.factory is Some,
            (old(self)@.factory->Some_0).vault_count < MAX_VAULTS,
            !has_vault_at(old(self)@.vaults, claimed_vault_addr),
        ensures
            final(self).wf(),
            old(self).balanced() ==> final(self).balanced(),
            claimed_vault_addr.bytes@ != vault_address_of(old(self).program_id, manager) ==> r
                == Err::<(), CustomError>(CustomError::AddressMismatch) && final(self)@ == old(
                self,
            )@,
            claimed_vault_addr.bytes@ == vault_address_of(old(self).program_id, manager) ==> (
            match create_vault_spec(old(self)@, caller, manager, claimed_vault_addr) {
                Ok(l2) => r is Ok && final(self)@ == l2,
                Err(e) => r == Err::<(), CustomError>(e) && final(self)@ == old(self)@,
            }),
    {
        let expected = derive_vault_address(&self.program_id, &manager);
        proof {
            lemma_identity_bytes_eq(claimed_vault_addr, expected);
        }
        if !(claimed_vault_addr == expected) {
            return Err(CustomError::AddressMismatch);
        }
        self.create_vault(caller, manager, claimed_vault_addr)
    }

    /// A deposit after checking both caller-supplied addresses: the vault
    /// address against the one re-derived from the manager, and the depositor
    /// address against the one re-derived from the caller and that vault.
    pub fn submit_deposit(
        &mut self,
        caller: Identity,
        manager: Identity,
        claimed_vault_addr: Identity,
        claimed_depositor_addr: Identity,
        asset: AssetRequest,
        amount: u64,
        now: i64,
    ) -> (r: Result<TransferInstruction, CustomError>)
        requires
            old(self).wf(),
            has_vault_at(old(self)@.vaults, claimed_vault_addr),
        ensures
            final(self).wf(),
            old(self).balanced() ==> final(self).balanced(),
            claimed_vault_addr.bytes@ != vault_address_of(old(self).program_id, manager) ==> r
                == Err::<TransferInstruction, CustomError>(CustomError::AddressMismatch)
                && final(self)@ == old(self)@,
            claimed_vault_addr.bytes@ == vault_address_of(old(self).program_id, manager)
                && claimed_depositor_addr.bytes@ != depositor_address_of(
                old(self).program_id,
                caller,
                claimed_vault_addr.bytes@,
            ) ==> r == Err::<TransferInstruction, CustomError>(CustomError::AddressMismatch)
                && final(self)@ == old(self)@,
            claimed_vault_addr.bytes@ == vault_address_of(old(self).program_id, manager)
                && claimed_depositor_addr.bytes@ == depositor_address_of(
                old(self).program_id,
                caller,
                claimed_vault_addr.bytes@,
            ) ==> (match deposit_spec(
                old(self)@,
                caller,
                claimed_vault_addr,
                claimed_depositor_addr,
                asset,
                amount,
                now,
            ) {
                Ok(p) => r == Ok::<TransferInstruction, CustomError>(p.1) && final(self)@ == p.0,
                Err(e) => r == Err::<TransferInstruction, CustomError>(e) && final(self)@ == old(
                    self,
                )@,
            }),
    {
        let expected_vault = derive_vault_address(&self.program_id, &manager);
        proof {
            lemma_identity_bytes_eq(claimed_vault_addr, expected_vault);
        }
        if !(claimed_vault_addr == expected_vault) {
            return Err(CustomError::AddressMismatch);
        }
        let expected_depositor = derive_depositor_address(
            &self.program_id,
            &caller,
            &claimed_vault_addr,
        );
        proof {
            lemma_identity_bytes_eq(claimed_depositor_addr, expected_depositor);
        }
        if !(claimed_depositor_addr == expected_depositor) {
            return Err(CustomError::AddressMismatch);
        }
        self.deposit(caller, claimed_vault_addr, claimed_depositor_addr, asset, amount, now)
    }

    /// A withdrawal after checking the caller-supplied depositor address
    /// against the one re-derived from the caller and the manager's vault.
    pub fn submit_withdraw(
        &mut self,
        caller: Identity,
        manager: Identity,
        claimed_depositor_addr: Identity,
        sol_amount: u64,
        usdc_amount: u64,
        mints: TokenMints,
    ) -> (r: Result<Vec<TransferInstruction>, CustomError>)
        requires
            old(self).wf(),
            has_depositor_at(old(self)@.depositors, claimed_depositor_addr),
        ensures
            final(self).wf(),
            old(self).balanced() ==> final(self).balanced(),
            claimed_depositor_addr.bytes@ != depositor_address_of(
                old(self).program_id,
                caller,
                vault_address_of(old(self).program_id, manager),
            ) ==> r == Err::<Vec<TransferInstruction>, CustomError>(CustomError::AddressMismatch)
                && final(self)@ == old(self)@,
            claimed_depositor_addr.bytes@ == depositor_address_of(
                old(self).program_id,
                caller,
                vault_address_of(old(self).program_id, manager),
            ) ==> (match withdraw_spec(
                old(self)@,
                caller,
                claimed_depositor_addr,
                sol_amount,
                usdc_amount,
                mints,
            ) {
                Ok(p) => final(self)@ == p.0 && (r matches Ok(instrs) && instrs@ == p.1),
                Err(e) => r == Err::<Vec<TransferInstruction>, CustomError>(e) && final(self)@
                    == old(self)@,
            }),
    {
        let vault_addr = derive_vault_address(&self.program_id, &manager);
        let expected = derive_depositor_address(&self.program_id, &caller, &vault_addr);
        proof {
            lemma_identity_bytes_eq(claimed_depositor_addr, expected);
        }
        if !(claimed_depositor_addr == expected) {
            return Err(CustomError::AddressMismatch);
        }
        self.withdraw(caller, claimed_depositor_addr, sol_amount, usdc_amount, mints)
    }

    /// An administrative sweep after checking the caller-supplied vault
    /// address against the one re-derived from the manager identity.
    pub fn submit_owner_withdraw(
        &self,
        caller: Identity,
        manager: Identity,
        claimed_vault_addr: Identity,
        amount: u64,
    ) -> (r: Result<TransferInstruction, CustomError>)
        requires
            self.wf(),
            has_vault_at(self@.vaults, claimed_vault_addr),
        ensures
            claimed_vault_addr.bytes@ != vault_address_of(self.program_id, manager) ==> r == Err::<
                TransferInstruction,
                CustomError,
            >(CustomError::AddressMismatch),
            claimed_vault_addr.bytes@ == vault_address_of(self.program_id, manager) ==> (
            match owner_withdraw_spec(self@, caller, claimed_vault_addr, amount) {
                Ok(t) => r == Ok::<TransferInstruction, CustomError>(t),
                Err(e) => r == Err::<TransferInstruction, CustomError>(e),
            }),
    {
        let expected = derive_vault_address(&self.program_id, &manager);
        proof {
            lemma_identity_bytes_eq(claimed_vault_addr, expected);
        }
        if !(claimed_vault_addr == expected) {
            return Err(CustomError::AddressMismatch);
        }
        self.owner_withdraw(caller, claimed_vault_addr, amount)
    }
}

} // verus!
