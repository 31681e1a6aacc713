//! The error taxonomy of the ledger.
//!
//! Every failure aborts the current instruction immediately: no partial
//! state is retained and nothing is retried internally. Errors are surfaced
//! verbatim to the invocation's caller.

use vstd::prelude::*;

verus! {

/// Why an instruction was rejected.
#[derive(Clone, Copy, Debug, PartialEq, Eq, Structural)]
pub enum DataNexusError {
    /// Unknown or missing discriminator, truncated payload, unknown sub-tag.
    InvalidInstruction,
    /// A record buffer has the wrong length, an `initialized` byte outside
    /// `{0, 1}`, or otherwise fails to decode.
    InvalidAccountData,
    /// The signer does not match the required authority (record owner,
    /// grant holder), or an address re-derivation does not match the
    /// supplied account.
    Unauthorized,
    /// A guarded decrement (share limit) would underflow.
    ArithmeticError,
    /// The external payment collaborator reported a transfer failure.
    PaymentFailed,
}

impl DataNexusError {
    /// The stable numeric code under which the error is surfaced to the
    /// hosting runtime's caller.
    pub fn code(&self) -> (r: u32)
        ensures
            r == self.spec_code(),
    {
        match self {
            DataNexusError::InvalidInstruction => 0,
            DataNexusError::InvalidAccountData => 1,
            DataNexusError::Unauthorized => 2,
            DataNexusError::ArithmeticError => 3,
            DataNexusError::PaymentFailed => 4,
        }
    }

    /// The numeric code of each error kind.
    pub open spec fn spec_code(&self) -> u32 {
        match self {
            DataNexusError::InvalidInstruction => 0,
            DataNexusError::InvalidAccountData => 1,
            DataNexusError::Unauthorized => 2,
            DataNexusError::ArithmeticError => 3,
            DataNexusError::PaymentFailed => 4,
        }
    }
}

} // verus!
