//! A custodial value-accounting engine.
//!
//! The crate tracks deposits and withdrawals of two asset kinds (a native
//! coin and a fungible token) made by independent depositors into vaults
//! registered with a vault factory. Every balance mutation is gated by an
//! authorization check, every balance update uses checked arithmetic, and
//! every record lives at a deterministic address that the engine re-derives
//! rather than trusts.
//!
//! The engine itself never moves funds: each operation returns the transfer
//! instructions that an outer host layer must perform, so that an operation
//! either applies in full or not at all.

pub mod addressing;
pub mod counter;
pub mod errors;
pub mod identity;
pub mod laws;
pub mod ledger;
pub mod model;
pub mod records;
pub mod transitions;
