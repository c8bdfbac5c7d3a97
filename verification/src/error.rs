//! Failures that one invocation can report.

use vstd::prelude::*;

verus! {

/// Why an invocation failed.
#[derive(Clone, Copy, Debug, PartialEq, Eq, Structural)]
pub enum AirdropError {
    /// The authority did not sign the invocation.
    MissingRequiredSignature,
    /// The token-program reference is not the token program.
    WrongProgram,
    /// The instruction bytes are not a whole number of records.
    MalformedPayload,
    /// The host supplied fewer accounts than the invocation needs.
    InsufficientAccounts,
    /// The ledger refused to initialize the authority's token account.
    InitializationFailed,
    /// A transfer instruction has no recipient account at its position.
    RecipientNotFound,
    /// The ledger refused a transfer.
    TransferFailed,
}

} // verus!
