//! Error kinds reported by ledger and swap commands.

use vstd::prelude::*;

verus! {

/// Why a command was rejected. A rejected command leaves all state as it was.
#[derive(Debug, Clone, Copy, PartialEq, Eq, Structural)]
pub enum Error {
    /// A debit or transfer asked for more than the account holds.
    InsufficientBalance,
    /// A credit would push a balance past the largest representable value.
    Overflow,
    /// A swap with this commitment is already pending.
    DuplicateProof,
    /// No swap with this commitment is pending.
    UnknownSwap,
    /// The deadline of a new swap is not after the current time.
    InvalidDeadline,
    /// The swap's deadline has been reached; it can only be cancelled.
    Expired,
}

} // verus!
