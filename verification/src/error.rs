//! Typed errors of the game engine. Every error aborts the whole
//! operation with no partial state mutation.

use vstd::prelude::*;

verus! {

/// Everything that can go wrong in an engine operation.
#[derive(Clone, Debug)]
pub enum ContractError {
    /// A non-owner attempted an owner-gated operation.
    Unauthorized {},
    /// The payment carried the wrong denomination.
    InvalidPayment {},
    /// The payment amount was below the requirement.
    InsufficientFunds {},
    /// Harvest or ascend was attempted with zero pending reward.
    NoRewards {},
    /// Ascend was attempted before all volatile stats reached +3.
    NotMaxLevel {},
    /// A spin was requested while one is already pending.
    HasPendingSpin {},
    /// A resolve was requested with no spin pending.
    NoPendingSpin {},
    /// Ascend was attempted at the top substrate tier.
    MaxSubstrate {},
    /// Splice was attempted with a parent spliced to itself.
    InvalidParents {},
    /// A trait value handed to the registry boundary was out of range.
    InvalidTrait { trait_name: String },
    /// An entity the operation needs has no ledger account.
    NotFound {},
    /// Ledger arithmetic would exceed the 128-bit range.
    Overflow {},
    /// Fixed-point division hit a zero divisor.
    DivideByZero {},
}

} // verus!
