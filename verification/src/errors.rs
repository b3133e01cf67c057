//! The failure taxonomy of the library.
//!
//! Every operation either commits whole or fails with one of these values and
//! leaves the state untouched; nothing is retried internally.

use vstd::prelude::*;

verus! {

/// Why an operation on a chat room was refused.
#[derive(Clone, Copy, Debug, PartialEq, Eq, Structural)]
pub enum ChatError {
    /// The derived address already holds a record.
    AlreadyInitialized,
    /// The executing party is not the identity that owns the record.
    Unauthorized,
    /// The operation requires the other execution context to hold authority.
    WrongContext,
    /// The delegation service refused to accept authority over the record.
    DelegationRejected,
    /// The delegation service refused to release authority over the record.
    UndelegationRejected,
    /// No record exists at the derived address.
    AddressMismatch,
}

impl ChatError {
    /// A short human-readable name for the error.
    pub fn describe(&self) -> (r: &'static str)
        ensures
            r@ == match self {
                ChatError::AlreadyInitialized => "already initialized"@,
                ChatError::Unauthorized => "unauthorized"@,
                ChatError::WrongContext => "wrong context"@,
                ChatError::DelegationRejected => "delegation rejected"@,
                ChatError::UndelegationRejected => "undelegation rejected"@,
                ChatError::AddressMismatch => "address mismatch"@,
            },
    {
        match self {
            ChatError::AlreadyInitialized => "already initialized",
            ChatError::Unauthorized => "unauthorized",
            ChatError::WrongContext => "wrong context",
            ChatError::DelegationRejected => "delegation rejected",
            ChatError::UndelegationRejected => "undelegation rejected",
            ChatError::AddressMismatch => "address mismatch",
        }
    }
}

} // verus!
