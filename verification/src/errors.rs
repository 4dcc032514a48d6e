use vstd::prelude::*;

verus! {

/// The closed set of failures a ledger operation can report. Every failure is
/// a normal, typed return value; no operation panics.
#[derive(Debug, Clone, Copy, PartialEq, Eq, Structural)]
pub enum Error {
    /// The debited account holds fewer tokens than requested.
    InsufficientBalance,
    /// The spender's allowance is smaller than the requested amount.
    InsufficientAllowance,
    /// A value supplied with the call cannot be accounted for.
    IncorrectValue,
    /// A token movement could not be carried out.
    TransferFailed,
    /// The payment attached to a purchase does not equal the required price.
    IncorrectPrice,
    /// The caller is not the contract owner.
    NotOwner,
    /// The caller is not a registered verifier.
    NotVerifier,
    /// The requested record does not exist.
    CannotFetch,
    /// A requested seat is already taken or unknown.
    SeatTaken,
    /// The number of tickets does not equal the number of seats requested.
    SeatMismatch,
}

} // verus!
