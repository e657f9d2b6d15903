use vstd::prelude::*;

verus! {

/// The failures that minting, appending and transaction construction report.
/// Every failure is returned to the caller; none is raised as a fault.
#[derive(Clone, Copy, Debug, PartialEq, Eq, Structural)]
pub enum EssexError {
    /// The candidate parent block did not validate.
    InvalidParent,
    /// The validator's stake balance is at or below the minimum stake.
    InsufficientStake,
    /// The authorization signature does not verify against the validator's
    /// public key and the message.
    BadSignature,
    /// The block handed to the chain store does not link to the current tip.
    LinkageMismatch,
    /// A fresh transaction identifier could not be generated.
    IdGeneration,
}

} // verus!
