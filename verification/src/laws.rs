//! The registry's laws: properties that relate several operations, stated over
//! the transition functions and proved once and for all.

use vstd::prelude::*;

use crate::errors::Error;
use crate::hashing::pair_digest;
use crate::pricing::{key_len, spec_price};
use crate::registry::{spec_refund, spec_renew, spec_rent, spec_request, RegistryView};

verus! {

/// Committing is deterministic: the digest depends on the key and the 32 bytes
/// beside it alone, so equal inputs give equal commitments across calls.
pub proof fn lemma_commitment_deterministic(d1: Seq<char>, b1: Seq<u8>, d2: Seq<char>, b2: Seq<u8>)
    requires
        d1 == d2,
        b1 == b2,
    ensures
        pair_digest(d1, b1) == pair_digest(d2, b2),
{
}

/// Reserving a commitment that already holds a reservation fails, whoever
/// calls and whenever: reservations are never released.
pub proof fn lemma_reserve_exclusive(v: RegistryView, caller: Seq<u8>, now: u64, secret: Seq<u8>)
    requires
        v.reservations.contains_key(secret),
    ensures
        spec_request(v, caller, now, secret) == (v, Err::<(), Error>(Error::SecretAlreadyUsed)),
{
}

/// After any successful reservation, every further reservation of the same
/// commitment fails, whoever makes it.
pub proof fn lemma_reserve_then_reserve_fails(
    v: RegistryView,
    first_caller: Seq<u8>,
    first_time: u64,
    second_caller: Seq<u8>,
    second_time: u64,
    secret: Seq<u8>,
)
    requires
        spec_request(v, first_caller, first_time, secret).1 is Ok,
    ensures
        spec_request(
            spec_request(v, first_caller, first_time, secret).0,
            second_caller,
            second_time,
            secret,
        ).1 == Err::<(), Error>(Error::SecretAlreadyUsed),
{
}

/// Finalizing a claim on a key whose claim is still live fails and changes
/// nothing, regardless of the caller.
pub proof fn lemma_rent_live_claim_fails(
    v: RegistryView,
    caller: Seq<u8>,
    now: u64,
    payment: u128,
    domain: Seq<char>,
    salt: Seq<u8>,
    duration: u64,
    metadata: Seq<char>,
)
    requires
        v.domains.contains_key(domain),
        v.domains[domain].expiration_date > now,
    ensures
        spec_rent(v, caller, now, payment, domain, salt, duration, metadata).0 == v,
        spec_rent(v, caller, now, payment, domain, salt, duration, metadata).1 is Err,
{
}

/// And when every earlier check passes, that failure is `DomainUnavailable`.
pub proof fn lemma_rent_live_claim_error_kind(
    v: RegistryView,
    caller: Seq<u8>,
    now: u64,
    payment: u128,
    domain: Seq<char>,
    salt: Seq<u8>,
    duration: u64,
    metadata: Seq<char>,
    cost: u128,
)
    requires
        v.reservations.contains_key(pair_digest(domain, salt)),
        v.reservations[pair_digest(domain, salt)].claimant == caller,
        v.reservations[pair_digest(domain, salt)].created_at < now,
        spec_price(v.default_fee_by_letter, v.min_lock_time, key_len(domain), duration)
            == Ok::<u128, Error>(cost),
        payment >= cost,
        v.domains.contains_key(domain),
        v.domains[domain].expiration_date > now,
    ensures
        spec_rent(v, caller, now, payment, domain, salt, duration, metadata) == (
            v,
            Err::<u128, Error>(Error::DomainUnavailable),
        ),
{
}

/// An overpaid finalization owes back exactly the excess: with a payment of
/// `cost + x`, a successful finalization returns `x` to the caller, and the
/// escrowed fee is `cost` itself.
pub proof fn lemma_overpayment_refund(
    v: RegistryView,
    caller: Seq<u8>,
    now: u64,
    x: u128,
    domain: Seq<char>,
    salt: Seq<u8>,
    duration: u64,
    metadata: Seq<char>,
    cost: u128,
)
    requires
        spec_price(v.default_fee_by_letter, v.min_lock_time, key_len(domain), duration)
            == Ok::<u128, Error>(cost),
        cost + x <= u128::MAX,
        spec_rent(v, caller, now, (cost + x) as u128, domain, salt, duration, metadata).1 is Ok,
    ensures
        spec_rent(v, caller, now, (cost + x) as u128, domain, salt, duration, metadata).1
            == Ok::<u128, Error>(x),
        spec_rent(
            v,
            caller,
            now,
            (cost + x) as u128,
            domain,
            salt,
            duration,
            metadata,
        ).0.refunds[pair_digest(domain, caller)].refund.paid_price == cost,
{
}

/// Renewing a live claim owned by another account fails `NotDomainOwner` and
/// changes nothing.
pub proof fn lemma_renew_wrong_owner(
    v: RegistryView,
    caller: Seq<u8>,
    now: u64,
    payment: u128,
    domain: Seq<char>,
    duration: u64,
    cost: u128,
    owner_account: Seq<u8>,
)
    requires
        spec_price(v.default_fee_by_letter, v.min_lock_time, key_len(domain), duration)
            == Ok::<u128, Error>(cost),
        payment >= cost,
        v.domains.contains_key(domain),
        v.domains[domain].expiration_date > now,
        v.domains[domain].owner == owner_account,
        caller != owner_account,
    ensures
        spec_renew(v, caller, now, payment, domain, duration) == (
            v,
            Err::<u128, Error>(Error::NotDomainOwner),
        ),
{
}

/// Renewing a key with no live claim — absent or expired — fails
/// `DomainExpired` and changes nothing, even for the claim's own past owner.
pub proof fn lemma_renew_expired(
    v: RegistryView,
    caller: Seq<u8>,
    now: u64,
    payment: u128,
    domain: Seq<char>,
    duration: u64,
    cost: u128,
)
    requires
        spec_price(v.default_fee_by_letter, v.min_lock_time, key_len(domain), duration)
            == Ok::<u128, Error>(cost),
        payment >= cost,
        !v.domains.contains_key(domain) || v.domains[domain].expiration_date <= now,
    ensures
        spec_renew(v, caller, now, payment, domain, duration) == (
            v,
            Err::<u128, Error>(Error::DomainExpired),
        ),
{
}

/// A successful refund consumes its escrow record: a second refund of the same
/// domain by the same caller, without a fee-bearing action in between, fails.
pub proof fn lemma_refund_not_twice(
    v: RegistryView,
    caller: Seq<u8>,
    first_time: u64,
    second_time: u64,
    domain: Seq<char>,
)
    requires
        spec_refund(v, caller, first_time, domain).1 is Ok,
    ensures
        spec_refund(spec_refund(v, caller, first_time, domain).0, caller, second_time, domain).1
            == Err::<u128, Error>(Error::NoSuchRefund),
{
}

} // verus!
