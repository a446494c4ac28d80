//! The failure kinds that registry operations report to their caller.
//!
//! Every failure is returned as a value and leaves the registry unchanged; no
//! verified operation of this crate panics.

use vstd::prelude::*;

verus! {

/// Why a registry operation was refused.
#[derive(Clone, Copy, Debug, PartialEq, Eq)]
pub enum Error {
    /// The requested claim duration is below the configured minimum.
    DurationIsNotEnough,
    /// The domain key is the empty string.
    DomainLengthIsZero,
    /// A reservation already exists for this commitment.
    SecretAlreadyUsed,
    /// The finalizing caller is not the account that made the reservation.
    NotTheOriginalRequester,
    /// Finalization was attempted at or before the reservation's own instant.
    RentCannotBeDoneInSameBlock,
    /// The value attached to the call does not cover the fee.
    SentValueIsNotEnough,
    /// The domain is still owned by a live, unexpired claim.
    DomainUnavailable,
    /// Renewal was attempted on a domain with no live claim.
    DomainExpired,
    /// Renewal was attempted by an account that does not own the claim.
    NotDomainOwner,
    /// A refund was requested before the associated claim expired.
    DomainNotExpired,
    /// An administrative operation was attempted by a non-privileged account.
    NotContractOwner,
    /// No reservation exists for this commitment.
    NoSuchReservation,
    /// No escrow entry exists for this domain and caller.
    NoSuchRefund,
    /// A fee or balance computation would exceed its integer type.
    Overflow,
}

} // verus!
