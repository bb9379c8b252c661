//! The failure taxonomy of the ledger. Every fallible operation reports one
//! of these as a recoverable value; no operation terminates the process.

use vstd::prelude::*;

verus! {

/// Why a ledger operation was refused. Each operation's contract says
/// exactly which inputs produce which variant.
#[derive(Clone, Copy, Debug, PartialEq, Eq, Structural)]
pub enum Error {
    /// A transfer named the zero identity as its recipient.
    InvalidRecipient,
    /// A debit asked for more than the account holds.
    InsufficientBalance,
    /// A delegated transfer asked for more than the spender was granted.
    InsufficientAllowance,
    /// The operation would push a balance or the supply counter past the
    /// largest representable value.
    Overflow,
    /// The caller is not permitted to perform this operation.
    Unauthorized,
    /// An outbound call to another contract did not declare success.
    ExternalCallFailed,
}

impl Error {
    /// A short human-readable reason, for callers that report errors as text.
    pub fn message(&self) -> String {
        match self {
            Error::InvalidRecipient => "transfer to the zero address".to_string(),
            Error::InsufficientBalance => "insufficient balance".to_string(),
            Error::InsufficientAllowance => "insufficient allowance".to_string(),
            Error::Overflow => "arithmetic overflow".to_string(),
            Error::Unauthorized => "caller is not authorized".to_string(),
            Error::ExternalCallFailed => "external call failed".to_string(),
        }
    }
}

} // verus!
