//! Failure taxonomy of the ledger core.
use vstd::prelude::*;

verus! {

/// Why an operation was rejected. The first four variants are recoverable:
/// the caller may resubmit with corrected input. `InvariantViolation` signals
/// caller or internal-state corruption; the host must abort the whole call
/// and never retry it.
#[derive(Clone, Copy, Debug, PartialEq, Eq, Structural)]
pub enum NftError {
    /// The referenced token or metadata record does not exist.
    NotFound,
    /// The caller is not the contract administrator.
    Unauthorized,
    /// The caller attached no payment where one is mandatory.
    PaymentRequired,
    /// The attached payment is below the computed storage cost; carries the
    /// exact amount required so a corrected retry can succeed.
    InsufficientDeposit { required: u128 },
    /// A token was removed from an owner that has no token set at all.
    InvariantViolation,
}

} // verus!
