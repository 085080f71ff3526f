//! The three record kinds of the ledger, and the values that operations
//! exchange with the host: asset kinds, token-account mints and transfer
//! instructions.

use vstd::prelude::*;

use crate::identity::Identity;

verus! {

/// The process-wide registry: at most one instance. `vaults` holds the
/// addresses of the vault records in creation order; `vault_managers` holds
/// the manager identities, one per vault, no identity twice.
pub struct Factory {
    pub owner: Identity,
    pub vault_count: u32,
    pub vaults: Vec<Identity>,
    pub vault_managers: Vec<Identity>,
}

/// The mathematical value of a [`Factory`].
pub struct FactoryView {
    pub owner: Identity,
    pub vault_count: u32,
    pub vaults: Seq<Identity>,
    pub vault_managers: Seq<Identity>,
}

impl View for Factory {
    type V = FactoryView;

    open spec fn view(&self) -> FactoryView {
        FactoryView {
            owner: self.owner,
            vault_count: self.vault_count,
            vaults: self.vaults@,
            vault_managers: self.vault_managers@,
        }
    }
}

/// One vault per registered manager. `addr` is the deterministic address the
/// record lives at; `total_deposit` accumulates the native-coin balance
/// attributed to this vault's depositors.
#[derive(Clone, Copy, Debug)]
pub struct Vault {
    pub manager: Identity,
    pub total_deposit: u64,
    pub index: u32,
    pub addr: Identity,
}

/// One depositor record per (owner, vault) pair, lazily created on first
/// deposit and never destroyed. `addr` is the deterministic address the
/// record lives at; `vault_pda` is the non-owning back-reference to the
/// vault's address.
#[derive(Clone, Copy, Debug)]
pub struct Depositor {
    pub owner: Identity,
    pub is_initialized: bool,
    pub deposit_time: i64,
    pub sol_amount: u64,
    pub usdc_amount: u64,
    pub vault_pda: Identity,
    pub addr: Identity,
}

/// The two asset kinds the engine accounts for.
#[derive(Clone, Copy, Debug, PartialEq, Eq, Structural)]
pub enum AssetKind {
    Sol,
    Usdc,
}

/// The mint identities presented with a token-leg operation: the mint account
/// itself and the mints recorded in the user's and the vault's token
/// accounts. All three must equal the configured asset identity.
#[derive(Clone, Copy, Debug)]
pub struct TokenMints {
    pub mint: Identity,
    pub user_account_mint: Identity,
    pub vault_account_mint: Identity,
}

/// What a deposit moves: the native coin, or the fungible token together
/// with the mint identities to validate.
#[derive(Clone, Copy, Debug)]
pub enum AssetRequest {
    Sol,
    Usdc(TokenMints),
}

/// An endpoint of the asset-transfer service, named symbolically: the host
/// resolves each party to a concrete address when it performs the transfer.
#[derive(Clone, Copy, Debug, PartialEq, Eq, Structural)]
pub enum TransferParty {
    /// The authenticated caller of the operation.
    Caller,
    /// The vault's native-coin holding sub-account.
    SolVault,
    /// The vault's token holding sub-account.
    UsdcVault,
}

/// One instruction to the asset-transfer service. The `authority` is the
/// party that authorizes the movement; a holding sub-account authorizes
/// transfers of funds it holds itself.
#[derive(Clone, Copy, Debug, PartialEq, Eq, Structural)]
pub struct TransferInstruction {
    pub asset: AssetKind,
    pub from: TransferParty,
    pub to: TransferParty,
    pub authority: TransferParty,
    pub amount: u64,
}

} // verus!
