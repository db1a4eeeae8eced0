//! The errors the engine can report.
//!
//! Authorization errors and state errors are deterministic answers to a
//! caller that attempted an operation invalid for the current state;
//! configuration errors are raised when a threshold rule is internally
//! inconsistent; the remaining variants guard machine limits and the
//! host's height clock.

use vstd::prelude::*;

verus! {

/// Every failure a governance call can report.
#[derive(Clone, Copy, Debug, PartialEq, Eq, Structural)]
pub enum ContractError {
    /// The sender lacks the weight or role the operation demands.
    Unauthorized,
    /// The proposal has reached a terminal state and takes no more votes.
    NotOpen,
    /// The proposal's voting period is over.
    Expired,
    /// The proposal's voting period is not over yet.
    NotExpired,
    /// An explicit expiration uses a unit incompatible with the configured
    /// voting period.
    WrongExpiration,
    /// A ballot for this proposal and voter already exists.
    AlreadyVoted,
    /// Only a passed, not yet executed proposal can be executed.
    WrongExecuteStatus,
    /// Executed, closed or passed proposals cannot be closed.
    WrongCloseStatus,
    /// The threshold rule is internally inconsistent (for example a zero
    /// required weight or a zero or over-unit fraction).
    InvalidThreshold,
    /// The required absolute weight exceeds the total weight, so the rule
    /// could never be met.
    UnreachableWeight,
    /// No proposal carries the given identifier.
    NoSuchProposal,
    /// The height passed by the host is lower than one already seen; the
    /// host's clock only moves forward, so this is a fatal internal error.
    InvalidHeight,
    /// A weight total or tally left the machine's integer range.
    Overflow,
}

} // verus!
