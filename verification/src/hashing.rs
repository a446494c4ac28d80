//! The hash committer: commitments are SHA2-256 digests, computed by the
//! hosting environment's hashing routine over the SCALE encoding of a
//! (domain, 32-byte value) pair. The pair's second half is a secret salt when
//! deriving a claim commitment, and a claimant's account when deriving an
//! escrow index; both halves SCALE-encode as their 32 raw bytes, so one digest
//! function covers the two derivations.

use vstd::prelude::*;

verus! {

/// The digest of a (domain, 32-byte value) pair: SHA2-256 over the pair's
/// SCALE encoding. A function of its arguments alone.
pub uninterp spec fn pair_digest(domain: Seq<char>, bytes: Seq<u8>) -> Seq<u8>;

/// Relies on `ink::env::hash_encoded` with the `Sha2x256` hasher, applied to
/// `(domain, salt)` where `salt` is an `ink::primitives::Hash`: it returns the
/// SHA2-256 digest of the pair's SCALE encoding. `Hash` encodes as its 32 raw
/// bytes, so the digest depends on the domain's characters and the salt's
/// bytes alone.
#[verifier::external_body]
pub fn digest_of_domain_and_salt(domain: &String, salt: &[u8; 32]) -> (r: [u8; 32])
    ensures
        r@ == pair_digest(domain@, salt@),
{
    let encodable = (domain, ink::primitives::Hash::from(*salt));
    let mut output = <ink::env::hash::Sha2x256 as ink::env::hash::HashOutput>::Type::default();
    ink::env::hash_encoded::<ink::env::hash::Sha2x256, _>(&encodable, &mut output);
    output
}

/// Relies on `ink::env::hash_encoded` with the `Sha2x256` hasher, applied to
/// `(domain, account)` where `account` is an `ink::primitives::AccountId`: it
/// returns the SHA2-256 digest of the pair's SCALE encoding. `AccountId`
/// encodes as its 32 raw bytes — exactly as `Hash` does — so this digest
/// coincides with [`digest_of_domain_and_salt`] on equal bytes.
#[verifier::external_body]
pub fn digest_of_domain_and_account(domain: &String, account: &[u8; 32]) -> (r: [u8; 32])
    ensures
        r@ == pair_digest(domain@, account@),
{
    let encodable = (domain, ink::primitives::AccountId::from(*account));
    let mut output = <ink::env::hash::Sha2x256 as ink::env::hash::HashOutput>::Type::default();
    ink::env::hash_encoded::<ink::env::hash::Sha2x256, _>(&encodable, &mut output);
    output
}

} // verus!
