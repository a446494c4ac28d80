//! The original unit tests, with the hosting environment's inputs passed as
//! plain values: the constructing caller plays the privileged account, and
//! timestamps and payments are explicit.

use domain_registry::errors::Error;
use domain_registry::registry::DomainRegistry;

fn alice() -> [u8; 32] {
    [1u8; 32]
}

#[test]
fn update_min_lock_time_works() {
    // given
    let mut domain_registry = DomainRegistry::new(alice());
    let new_lock_time = 60 * 24 * 60 * 60; // 60 days

    // when
    domain_registry.update_min_lock_time(alice(), new_lock_time).unwrap();

    // then
    assert_eq!(domain_registry.get_min_lock_time(), new_lock_time);
}

#[test]
fn generate_secret_works() {
    // given
    let mut domain_registry = DomainRegistry::new(alice());
    let domain = "mydomain".to_string();
    let salt = [1u8; 32];

    // when
    let secret = domain_registry.generate_secret(domain.clone(), salt);

    // then
    let encodable = (domain, ink::primitives::Hash::from(salt));
    let mut hash = <ink::env::hash::Sha2x256 as ink::env::hash::HashOutput>::Type::default(); // 256-bit buffer
    ink::env::hash_encoded::<ink::env::hash::Sha2x256, _>(&encodable, &mut hash);
    assert_eq!(secret, hash);
}

#[test]
fn rent_price_works() {
    // given
    let mut domain_registry = DomainRegistry::new(alice());
    let domain = "mydomain".to_string();
    let duration = 30 * 24 * 60 * 60; // 30 days

    // when
    let price = domain_registry.rent_price(domain.clone(), duration);

    // then
    assert_eq!(price, 500u128 * domain.len() as u128 * duration as u128);
}

#[test]
fn request_domain_works() {
    // given
    let caller = alice();
    let mut domain_registry = DomainRegistry::new(caller);
    let domain = "mydomain".to_string();
    let salt = [1u8; 32];
    let secret = domain_registry.generate_secret(domain.clone(), salt);

    // when
    domain_registry.request_domain(caller, 0, secret).unwrap();

    // then
    assert_eq!(domain_registry.get_reservation(secret).unwrap().claimant, caller);
}

#[test]
fn test_rent_domain() {
    // Initialize a registry instance
    let mut domain_registry = DomainRegistry::new(alice());

    let owner = alice();
    let domain = "example.com".to_string();
    let duration = 60 * 60 * 24 * 31;
    let secret = domain_registry.generate_secret(domain.clone(), [0u8; 32]);
    let price = domain_registry.rent_price(domain.clone(), duration);

    domain_registry.request_domain(owner, 0, secret).unwrap();

    // Call the rent_domain function at timestamp 1000 with the exact price
    let result =
        domain_registry.rent_domain(owner, 1000, price, domain.clone(), [0u8; 32], duration, "meta_data".to_string());

    // Check that the result is Ok
    assert!(result.is_ok());

    // Check that the domain data was stored correctly
    let domain_data = domain_registry.get_domain_data(domain.clone());
    assert_eq!(&domain_data.owner, &owner);
    assert_eq!(&domain_data.expiration_date, &(duration + 1000));
}

#[test]
fn test_renew_domain() {
    // Initialize a registry instance
    let mut domain_registry = DomainRegistry::new(alice());

    let owner = alice();
    let domain = "example.com".to_string();
    let duration = 60 * 60 * 24 * 31;
    let secret = domain_registry.generate_secret(domain.clone(), [0u8; 32]);
    let price = domain_registry.rent_price(domain.clone(), duration);

    // Rent the domain
    domain_registry.request_domain(owner, 0, secret).unwrap();
    let _result =
        domain_registry.rent_domain(owner, 1000, price, domain.clone(), [0u8; 32], duration, "meta_data".to_string());

    // Renew the domain at the same timestamp, paying twice the price
    let new_expiration_date = 60 * 60 * 24 * 62;
    domain_registry
        .renew_domain(owner, 1000, price * 2, domain.clone(), new_expiration_date)
        .unwrap();

    // Check that the domain was updated
    let updated_domain_data = domain_registry.get_domain_data(domain.clone());
    assert_eq!(updated_domain_data.owner, owner);
    assert_eq!(updated_domain_data.expiration_date, new_expiration_date + 1000);
    assert_eq!(updated_domain_data.metadata, "meta_data");
}

#[test]
fn rent_price_rejections_quote_as_zero() {
    let mut domain_registry = DomainRegistry::new(alice());
    let duration = 30 * 24 * 60 * 60;
    assert_eq!(domain_registry.rent_price("".to_string(), duration), 0);
    assert_eq!(domain_registry.rent_price("mydomain".to_string(), duration - 1), 0);
}

#[test]
fn update_min_lock_time_is_privileged() {
    let mut domain_registry = DomainRegistry::new(alice());
    let bob = [2u8; 32];
    assert_eq!(
        domain_registry.update_min_lock_time(bob, 60),
        Err(Error::NotContractOwner)
    );
    assert_eq!(domain_registry.get_min_lock_time(), 30 * 24 * 60 * 60);
}

#[test]
fn salt_and_account_derivations_agree_on_equal_bytes() {
    // The registry derives claim commitments over (domain, Hash) and escrow
    // indices over (domain, AccountId). Both 32-byte types hash identically,
    // which is what lets one digest function describe the two derivations.
    let domain = "mydomain".to_string();
    let bytes = [5u8; 32];

    let salt_encodable = (domain.clone(), ink::primitives::Hash::from(bytes));
    let mut salt_hash = <ink::env::hash::Sha2x256 as ink::env::hash::HashOutput>::Type::default();
    ink::env::hash_encoded::<ink::env::hash::Sha2x256, _>(&salt_encodable, &mut salt_hash);

    let account_encodable = (domain, ink::primitives::AccountId::from(bytes));
    let mut account_hash =
        <ink::env::hash::Sha2x256 as ink::env::hash::HashOutput>::Type::default();
    ink::env::hash_encoded::<ink::env::hash::Sha2x256, _>(&account_encodable, &mut account_hash);

    assert_eq!(salt_hash, account_hash);
}

#[test]
fn zero_salt_commitment_is_caller_free() {
    // With the all-zero sentinel salt the commitment hashes the domain beside
    // the all-zero account instead of the salt; the two encode identically.
    let mut domain_registry = DomainRegistry::new(alice());
    let domain = "mydomain".to_string();
    let secret = domain_registry.generate_secret(domain.clone(), [0u8; 32]);

    let encodable = (domain, ink::primitives::AccountId::from([0u8; 32]));
    let mut hash = <ink::env::hash::Sha2x256 as ink::env::hash::HashOutput>::Type::default();
    ink::env::hash_encoded::<ink::env::hash::Sha2x256, _>(&encodable, &mut hash);
    assert_eq!(secret, hash);
}
