//! The closed error taxonomy shared by both engines.

use vstd::prelude::*;

verus! {

/// A collaborator contract that must be registered in the hub's config
/// before the operations that rely on it may run.
#[derive(Clone, Copy, PartialEq, Eq, Structural, Debug)]
pub enum Reference {
    /// The reward ledger contract.
    Reward,
    /// The derivative-token contract.
    Token,
    /// The validator registry contract.
    ValidatorsRegistry,
}

/// The concrete way an operation would have broken a financial invariant.
#[derive(Clone, Copy, PartialEq, Eq, Structural, Debug)]
pub enum Violation {
    /// A bond or unbond request carried a zero amount.
    ZeroAmount,
    /// The deposited denomination differs from the configured underlying one.
    DenomMismatch,
    /// A peg-recovery fee above 1.0 was supplied.
    FeeAboveOne,
    /// A checked addition, subtraction, multiplication or division could not
    /// produce a representable result; the call aborts instead of wrapping.
    Arithmetic,
    /// A balance decrease exceeded the holder's tracked balance.
    DecreaseExceedsBalance { available: u128 },
    /// The reward ledger tracks no balance, so there is nothing to
    /// distribute newly arrived rewards against.
    NoAssetBonded,
}

/// Every failure an operation of this crate can report. Any error aborts the
/// triggering call atomically: the store is left exactly as it was.
#[derive(Clone, Copy, PartialEq, Eq, Structural, Debug)]
pub enum Error {
    /// The caller lacks the role the operation is gated on.
    Unauthorized,
    /// A required collaborator reference has not been configured yet.
    Uninitialized(Reference),
    /// The operation would have broken a financial invariant.
    InvariantViolation(Violation),
}

} // verus!
