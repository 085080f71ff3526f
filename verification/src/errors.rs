//! The error taxonomy shared by every operation of the engine.

use vstd::prelude::*;

verus! {

/// Every error is a local validation failure detected before or during an
/// operation; an operation that returns an error leaves the ledger unchanged.
#[derive(Clone, Copy, Debug, PartialEq, Eq, Structural)]
pub enum CustomError {
    /// The caller is not the owner of the record the operation targets.
    Unauthorized,
    /// A deposit of zero was requested.
    InvalidAmount,
    /// A withdrawal asks for more than the corresponding balance holds.
    InsufficientBalance,
    /// A token operation was presented with a mint that is not the configured
    /// asset identity, or with token accounts of an inconsistent mint.
    InvalidMint,
    /// A checked addition would exceed the range of the counter or balance.
    ArithmeticOverflow,
    /// A checked subtraction would fall below zero.
    ArithmeticUnderflow,
    /// `create_vault` was asked for a manager that already has a vault.
    ManagerAlreadyExists,
    /// `initialize_factory` found the factory record already present.
    AlreadyInitialized,
    /// A caller-supplied record address differs from the re-derived one, or a
    /// depositor record does not belong to the vault the caller named.
    AddressMismatch,
}

} // verus!
