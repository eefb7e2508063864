use vstd::prelude::*;

verus! {

/// Typed failures of the ledger. Every operation either commits in full or
/// returns one of these having changed nothing.
#[derive(Clone, Copy, Debug, PartialEq, Eq, Structural)]
pub enum ContractError {
    /// A deposit notification that did not come from the trusted token
    /// contract, or an unlock by an address that does not own the position.
    Unauthorized,
    /// A lock whose position id is already in use.
    DuplicateIdentifier,
    /// An unlock against an unknown position id.
    NotFound,
    /// An unlock of more than the position's remaining principal.
    InsufficientBalance,
    /// A zero-amount lock or unlock; rejected outright rather than treated as
    /// a no-op, so that every stored position keeps a positive principal.
    ZeroAmount,
    /// A checked addition on the ledger totals would exceed the representable
    /// range.
    Overflow,
    /// A checked subtraction on the ledger totals would go below zero; the
    /// totals and the positions have diverged.
    Underflow,
    /// A malformed or unrecognized deposit payload.
    InvalidPayload,
}

} // verus!
