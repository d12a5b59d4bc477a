//! An in-memory emulation of the host side of a smart-contract runtime.
//!
//! Contract code under test talks to its host through a byte-buffer ABI:
//! storage access, balance transfers, event emission, hashing and queries
//! about the current execution context. This crate provides that surface,
//! backed by a plain in-memory world that a test harness owns and inspects.

use vstd::prelude::*;

pub mod backend;
pub mod bytemap;
pub mod codec;
pub mod exec_context;
pub mod ext;
pub mod hashing;
pub mod laws;
pub mod storage;
pub mod test_api;

pub use test_api::EmittedEvent;

verus! {

/// An amount of the fungible unit an account holds.
pub type Balance = u128;

/// Errors raised by the test harness around the engine itself.
#[derive(Debug, Clone, Copy, PartialEq, Eq, Structural)]
pub enum AccountError {
    /// The stored bytes for an account could not be decoded as a balance.
    Decoding,
    /// An account was expected to be a user account but is not.
    UnexpectedUserAccount,
    /// No account exists for the given identifier.
    NoAccountForId,
}

/// Errors which can happen when interacting with this crate.
#[derive(Debug, Clone, Copy, PartialEq, Eq, Structural)]
pub enum Error {
    Account(AccountError),
    UninitializedBlocks,
    UninitializedExecutionContext,
    UnregisteredChainExtension,
}

} // verus!
