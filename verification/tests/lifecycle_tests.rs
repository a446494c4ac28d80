//! Lifecycle scenarios: the commit-reveal round trip, exclusivity, escrow
//! conservation, overpayment refunds, renewal checks, and every failure kind
//! the registry reports.

use domain_registry::errors::Error;
use domain_registry::registry::DomainRegistry;

fn alice() -> [u8; 32] {
    [1u8; 32]
}

fn bob() -> [u8; 32] {
    [2u8; 32]
}

const DAY: u64 = 24 * 60 * 60;

#[test]
fn round_trip_scenario() {
    let caller = alice();
    let mut registry = DomainRegistry::new(caller);
    let domain = "example.com".to_string();
    let salt = [7u8; 32];
    let duration = 60 * 60 * 24 * 31;
    let t0 = 100;

    let secret = registry.generate_secret(domain.clone(), salt);
    let price = registry.rent_price(domain.clone(), duration);
    assert!(price > 0);

    registry.request_domain(caller, t0, secret).unwrap();

    // One time unit after the reservation, finalizing with the exact price
    // succeeds and owes no refund.
    let (event, refund) = registry
        .rent_domain(caller, t0 + 1, price, domain.clone(), salt, duration, "meta".to_string())
        .unwrap();
    assert_eq!(refund, 0);
    assert_eq!(event.domain, domain);
    assert_eq!(event.owner, caller);
    assert_eq!(event.expiration_data, t0 + 1 + duration);

    let claim = registry.get_domain_data(domain.clone());
    assert_eq!(claim.owner, caller);
    assert_eq!(claim.expiration_date, t0 + 1 + duration);
    assert_eq!(claim.metadata, "meta");
    assert_eq!(registry.get_locked_balance(caller), price);

    // Finalizing again immediately with the same commitment fails: the claim
    // is live.
    let again = registry.rent_domain(
        caller,
        t0 + 2,
        price,
        domain.clone(),
        salt,
        duration,
        "meta".to_string(),
    );
    assert!(matches!(again, Err(Error::DomainUnavailable)));

    // Past the expiration the escrowed fee is released and the locked balance
    // drops by exactly the paid amount.
    let expiry = t0 + 1 + duration;
    let amount = registry.refund_domain(caller, expiry + 1, domain.clone()).unwrap();
    assert_eq!(amount, price);
    assert_eq!(registry.get_locked_balance(caller), 0);
}

#[test]
fn commitments_are_deterministic_and_salt_sensitive() {
    let mut registry = DomainRegistry::new(alice());
    let domain = "example.com".to_string();
    let first = registry.generate_secret(domain.clone(), [7u8; 32]);
    let second = registry.generate_secret(domain.clone(), [7u8; 32]);
    assert_eq!(first, second);

    let other_salt = registry.generate_secret(domain.clone(), [8u8; 32]);
    assert_ne!(first, other_salt);
    let other_domain = registry.generate_secret("example.org".to_string(), [7u8; 32]);
    assert_ne!(first, other_domain);
}

#[test]
fn reserving_a_used_commitment_fails() {
    let mut registry = DomainRegistry::new(alice());
    let secret = registry.generate_secret("example.com".to_string(), [7u8; 32]);
    registry.request_domain(alice(), 100, secret).unwrap();
    assert_eq!(registry.request_domain(alice(), 200, secret), Err(Error::SecretAlreadyUsed));
    assert_eq!(registry.request_domain(bob(), 300, secret), Err(Error::SecretAlreadyUsed));
    // The original reservation is untouched.
    let reservation = registry.get_reservation(secret).unwrap();
    assert_eq!(reservation.claimant, alice());
    assert_eq!(reservation.created_at, 100);
}

#[test]
fn live_claim_blocks_rent_regardless_of_caller() {
    let mut registry = DomainRegistry::new(alice());
    let domain = "example.com".to_string();
    let duration = 35 * DAY;
    let price = registry.rent_price(domain.clone(), duration);

    let secret_a = registry.generate_secret(domain.clone(), [7u8; 32]);
    registry.request_domain(alice(), 0, secret_a).unwrap();
    registry
        .rent_domain(alice(), 1, price, domain.clone(), [7u8; 32], duration, "a".to_string())
        .unwrap();

    // Another account with its own reservation still cannot take the key.
    let secret_b = registry.generate_secret(domain.clone(), [9u8; 32]);
    registry.request_domain(bob(), 2, secret_b).unwrap();
    let attempt = registry.rent_domain(
        bob(),
        3,
        price,
        domain.clone(),
        [9u8; 32],
        duration,
        "b".to_string(),
    );
    assert_eq!(attempt.unwrap_err(), Error::DomainUnavailable);
}

#[test]
fn rent_requires_reservation_and_requester() {
    let mut registry = DomainRegistry::new(alice());
    let domain = "example.com".to_string();
    let duration = 35 * DAY;
    let price = registry.rent_price(domain.clone(), duration);

    // No reservation at all.
    let unreserved = registry.rent_domain(
        alice(),
        1,
        price,
        domain.clone(),
        [7u8; 32],
        duration,
        "m".to_string(),
    );
    assert_eq!(unreserved.unwrap_err(), Error::NoSuchReservation);

    // Reserved by alice, finalized by bob.
    let secret = registry.generate_secret(domain.clone(), [7u8; 32]);
    registry.request_domain(alice(), 10, secret).unwrap();
    let stolen = registry.rent_domain(
        bob(),
        11,
        price,
        domain.clone(),
        [7u8; 32],
        duration,
        "m".to_string(),
    );
    assert_eq!(stolen.unwrap_err(), Error::NotTheOriginalRequester);

    // Finalized in the reservation's own instant.
    let same_block = registry.rent_domain(
        alice(),
        10,
        price,
        domain.clone(),
        [7u8; 32],
        duration,
        "m".to_string(),
    );
    assert_eq!(same_block.unwrap_err(), Error::RentCannotBeDoneInSameBlock);
}

#[test]
fn rent_validation_failures() {
    let mut registry = DomainRegistry::new(alice());
    let duration = 35 * DAY;

    // Empty key: reserved fine, but priced as invalid.
    let empty = "".to_string();
    let secret = registry.generate_secret(empty.clone(), [7u8; 32]);
    registry.request_domain(alice(), 0, secret).unwrap();
    let attempt = registry.rent_domain(
        alice(),
        1,
        1_000_000,
        empty.clone(),
        [7u8; 32],
        duration,
        "m".to_string(),
    );
    assert_eq!(attempt.unwrap_err(), Error::DomainLengthIsZero);

    // Too short a duration.
    let domain = "example.com".to_string();
    let secret = registry.generate_secret(domain.clone(), [7u8; 32]);
    registry.request_domain(alice(), 0, secret).unwrap();
    let attempt = registry.rent_domain(
        alice(),
        1,
        1_000_000,
        domain.clone(),
        [7u8; 32],
        29 * DAY,
        "m".to_string(),
    );
    assert_eq!(attempt.unwrap_err(), Error::DurationIsNotEnough);

    // Payment short of the fee by one.
    let price = registry.rent_price(domain.clone(), duration);
    let attempt = registry.rent_domain(
        alice(),
        1,
        price - 1,
        domain.clone(),
        [7u8; 32],
        duration,
        "m".to_string(),
    );
    assert_eq!(attempt.unwrap_err(), Error::SentValueIsNotEnough);

    // An expiration beyond the clock's range.
    let late = u64::MAX - 1;
    let secret2 = registry.generate_secret("overflow.com".to_string(), [7u8; 32]);
    registry.request_domain(alice(), late, secret2).unwrap();
    let price2 = registry.rent_price("overflow.com".to_string(), duration);
    let attempt = registry.rent_domain(
        alice(),
        u64::MAX,
        price2,
        "overflow.com".to_string(),
        [7u8; 32],
        duration,
        "m".to_string(),
    );
    assert_eq!(attempt.unwrap_err(), Error::Overflow);
}

#[test]
fn overpayment_is_refunded_exactly() {
    let mut registry = DomainRegistry::new(alice());
    let domain = "example.com".to_string();
    let duration = 31 * DAY;
    let price = registry.rent_price(domain.clone(), duration);
    let extra = 12345u128;

    let secret = registry.generate_secret(domain.clone(), [7u8; 32]);
    registry.request_domain(alice(), 0, secret).unwrap();
    let (_, refund) = registry
        .rent_domain(
            alice(),
            1,
            price + extra,
            domain.clone(),
            [7u8; 32],
            duration,
            "m".to_string(),
        )
        .unwrap();
    assert_eq!(refund, extra);
    // The escrowed fee is the price itself, not the payment.
    assert_eq!(registry.get_locked_balance(alice()), price);
}

#[test]
fn renewal_checks_owner_and_liveness() {
    let mut registry = DomainRegistry::new(alice());
    let domain = "example.com".to_string();
    let duration = 31 * DAY;
    let price = registry.rent_price(domain.clone(), duration);

    let secret = registry.generate_secret(domain.clone(), [7u8; 32]);
    registry.request_domain(alice(), 0, secret).unwrap();
    registry
        .rent_domain(alice(), 1, price, domain.clone(), [7u8; 32], duration, "m".to_string())
        .unwrap();

    // Owned by alice, renewed by bob: refused.
    let by_bob = registry.renew_domain(bob(), 2, price, domain.clone(), duration);
    assert_eq!(by_bob.unwrap_err(), Error::NotDomainOwner);

    // Renewed by alice after the expiration: refused.
    let past_expiry = 1 + duration;
    let too_late = registry.renew_domain(alice(), past_expiry, price, domain.clone(), duration);
    assert_eq!(too_late.unwrap_err(), Error::DomainExpired);

    // A never-claimed key cannot be renewed either.
    let fresh = registry.renew_domain(alice(), 2, price, "fresh.com".to_string(), duration);
    assert_eq!(fresh.unwrap_err(), Error::DomainExpired);

    // A live claim renewed by its owner moves its expiration and keeps its
    // metadata.
    let (event, refund) = registry
        .renew_domain(alice(), 2, price, domain.clone(), duration)
        .unwrap();
    assert_eq!(refund, 0);
    assert_eq!(event.expiration_data, 2 + duration);
    let claim = registry.get_domain_data(domain.clone());
    assert_eq!(claim.expiration_date, 2 + duration);
    assert_eq!(claim.metadata, "m");
}

#[test]
fn refund_checks_and_consumes_the_entry() {
    let mut registry = DomainRegistry::new(alice());
    let domain = "example.com".to_string();
    let duration = 31 * DAY;
    let price = registry.rent_price(domain.clone(), duration);

    // No escrow entry yet.
    assert_eq!(
        registry.refund_domain(alice(), 5, domain.clone()).unwrap_err(),
        Error::NoSuchRefund
    );

    let secret = registry.generate_secret(domain.clone(), [7u8; 32]);
    registry.request_domain(alice(), 0, secret).unwrap();
    registry
        .rent_domain(alice(), 1, price, domain.clone(), [7u8; 32], duration, "m".to_string())
        .unwrap();

    // Before the claim expires — the expiration instant itself not yet
    // reached — the deposit stays locked.
    assert_eq!(
        registry.refund_domain(alice(), duration, domain.clone()).unwrap_err(),
        Error::DomainNotExpired
    );
    // Another account has no entry under this key.
    assert_eq!(
        registry.refund_domain(bob(), 2 + duration, domain.clone()).unwrap_err(),
        Error::NoSuchRefund
    );

    // Past the expiration it is released, once.
    let amount = registry.refund_domain(alice(), 2 + duration, domain.clone()).unwrap();
    assert_eq!(amount, price);
    assert_eq!(registry.get_locked_balance(alice()), 0);
    assert_eq!(
        registry.refund_domain(alice(), 3 + duration, domain.clone()).unwrap_err(),
        Error::NoSuchRefund
    );
}

#[test]
fn locked_balance_follows_escrow_across_accounts() {
    let mut registry = DomainRegistry::new(alice());
    let duration = 31 * DAY;

    let domain_a = "alpha.com".to_string();
    let price_a = registry.rent_price(domain_a.clone(), duration);
    let secret_a = registry.generate_secret(domain_a.clone(), [3u8; 32]);
    registry.request_domain(alice(), 0, secret_a).unwrap();
    registry
        .rent_domain(alice(), 1, price_a, domain_a.clone(), [3u8; 32], duration, "a".to_string())
        .unwrap();

    let domain_b = "beta.com".to_string();
    let price_b = registry.rent_price(domain_b.clone(), duration);
    let secret_b = registry.generate_secret(domain_b.clone(), [4u8; 32]);
    registry.request_domain(bob(), 0, secret_b).unwrap();
    registry
        .rent_domain(bob(), 1, price_b, domain_b.clone(), [4u8; 32], duration, "b".to_string())
        .unwrap();

    assert_eq!(registry.get_locked_balance(alice()), price_a);
    assert_eq!(registry.get_locked_balance(bob()), price_b);

    // Releasing bob's deposit leaves alice's untouched.
    let amount = registry.refund_domain(bob(), 2 + duration, domain_b.clone()).unwrap();
    assert_eq!(amount, price_b);
    assert_eq!(registry.get_locked_balance(alice()), price_a);
    assert_eq!(registry.get_locked_balance(bob()), 0);
}

#[test]
fn reservation_survives_finalization_and_can_be_reused() {
    // Reservations are never deleted: after the first claim lapses, the same
    // claimant can finalize again on the original reservation. While the claim
    // is live, re-finalization is stopped by the claim ledger, not the store.
    let mut registry = DomainRegistry::new(alice());
    let domain = "example.com".to_string();
    let duration = 31 * DAY;
    let price = registry.rent_price(domain.clone(), duration);

    let secret = registry.generate_secret(domain.clone(), [7u8; 32]);
    registry.request_domain(alice(), 0, secret).unwrap();
    registry
        .rent_domain(alice(), 1, price, domain.clone(), [7u8; 32], duration, "m".to_string())
        .unwrap();
    assert!(registry.get_reservation(secret).is_some());

    let t1 = 2 + duration;
    let (event, _) = registry
        .rent_domain(alice(), t1, price, domain.clone(), [7u8; 32], duration, "m2".to_string())
        .unwrap();
    assert_eq!(event.expiration_data, t1 + duration);
    assert_eq!(registry.get_domain_data(domain.clone()).metadata, "m2");

    // The second claim overwrote the escrow record for (domain, claimant)
    // without releasing the first deposit: both fees stay locked, and only the
    // most recent one is ever refundable.
    assert_eq!(registry.get_locked_balance(alice()), 2 * price);
    let released = registry.refund_domain(alice(), t1 + duration + 1, domain.clone()).unwrap();
    assert_eq!(released, price);
    assert_eq!(registry.get_locked_balance(alice()), price);
}

#[test]
fn unclaimed_domain_reads_as_zero_claim() {
    let registry = DomainRegistry::new(alice());
    let claim = registry.get_domain_data("nobody.example".to_string());
    assert_eq!(claim.owner, [0u8; 32]);
    assert_eq!(claim.expiration_date, 0);
    assert_eq!(claim.metadata, "");
}

#[test]
fn expired_claim_can_be_taken_by_a_new_owner() {
    let mut registry = DomainRegistry::new(alice());
    let domain = "example.com".to_string();
    let duration = 31 * DAY;
    let price = registry.rent_price(domain.clone(), duration);

    let secret_a = registry.generate_secret(domain.clone(), [3u8; 32]);
    registry.request_domain(alice(), 0, secret_a).unwrap();
    registry
        .rent_domain(alice(), 1, price, domain.clone(), [3u8; 32], duration, "a".to_string())
        .unwrap();

    // After the claim lapses, another account can claim the key.
    let t1 = 2 + duration;
    let secret_b = registry.generate_secret(domain.clone(), [4u8; 32]);
    registry.request_domain(bob(), t1, secret_b).unwrap();
    let (event, _) = registry
        .rent_domain(bob(), t1 + 1, price, domain.clone(), [4u8; 32], duration, "b".to_string())
        .unwrap();
    assert_eq!(event.owner, bob());
    let claim = registry.get_domain_data(domain.clone());
    assert_eq!(claim.owner, bob());
    assert_eq!(claim.metadata, "b");
}
