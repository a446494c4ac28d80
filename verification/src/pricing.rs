//! The pricing engine: a pure fee schedule over key length and claim duration,
//! together with its validation rules and monotonicity laws.

use vstd::prelude::*;

use crate::errors::Error;

verus! {

/// A key's length for pricing purposes: the number of bytes of its UTF-8
/// encoding, as the machine reports it.
pub open spec fn key_len(domain: Seq<char>) -> nat {
    (vstd::utf8::encode_utf8(domain).len() as usize) as nat
}

/// A key is empty exactly when its encoding is, so the empty key has length
/// zero and only the empty key does.
pub proof fn lemma_key_len_zero(domain: Seq<char>)
    requires
        domain.len() == 0,
    ensures
        key_len(domain) == 0,
{
    assert(domain =~= Seq::<char>::empty());
}

/// The fee schedule. A key of length `len` claimed for `duration` seconds costs
/// `fee_per_letter * len * duration`; empty keys and durations under the
/// configured minimum are refused, and so is a fee beyond what `u128` holds.
pub open spec fn spec_price(
    fee_per_letter: u128,
    min_lock_time: u64,
    len: nat,
    duration: u64,
) -> Result<u128, Error> {
    if len == 0 {
        Err(Error::DomainLengthIsZero)
    } else if duration < min_lock_time {
        Err(Error::DurationIsNotEnough)
    } else if fee_per_letter * len * duration > u128::MAX {
        Err(Error::Overflow)
    } else {
        Ok((fee_per_letter * len * duration) as u128)
    }
}

/// Computes the fee schedule on machine values.
pub fn price_for(fee_per_letter: u128, min_lock_time: u64, domain: &String, duration: u64) -> (r:
    Result<u128, Error>)
    ensures
        r == spec_price(fee_per_letter, min_lock_time, key_len(domain@), duration),
{
    let len = domain.as_str().len();
    if len == 0 {
        return Err(Error::DomainLengthIsZero);
    }
    if duration < min_lock_time {
        return Err(Error::DurationIsNotEnough);
    }
    if duration == 0 {
        // A zero-second claim (possible only when the configured minimum is
        // zero) costs nothing, whatever the key's length.
        assert(fee_per_letter * len as nat * 0 == 0) by (nonlinear_arith);
        return Ok(0);
    }
    match fee_per_letter.checked_mul(len as u128) {
        None => {
            proof {
                assert(fee_per_letter * len as nat * duration >= fee_per_letter * len as nat) by (
                nonlinear_arith)
                    requires
                        duration >= 1,
                        fee_per_letter * len as nat >= 0,
                ;
            }
            Err(Error::Overflow)
        },
        Some(a) => match a.checked_mul(duration as u128) {
            None => Err(Error::Overflow),
            Some(b) => Ok(b),
        },
    }
}

/// For a fixed duration, the fee is non-decreasing in key length.
pub proof fn lemma_price_monotonic_in_length(
    fee_per_letter: u128,
    min_lock_time: u64,
    len1: nat,
    len2: nat,
    duration: u64,
    p1: u128,
    p2: u128,
)
    requires
        len1 <= len2,
        spec_price(fee_per_letter, min_lock_time, len1, duration) == Ok::<u128, Error>(p1),
        spec_price(fee_per_letter, min_lock_time, len2, duration) == Ok::<u128, Error>(p2),
    ensures
        p1 <= p2,
{
    assert(fee_per_letter * len1 * duration <= fee_per_letter * len2 * duration) by (
    nonlinear_arith)
        requires
            len1 <= len2,
            fee_per_letter >= 0,
            duration >= 0,
    ;
}

/// For a fixed key, the fee is non-decreasing in duration.
pub proof fn lemma_price_monotonic_in_duration(
    fee_per_letter: u128,
    min_lock_time: u64,
    len: nat,
    duration1: u64,
    duration2: u64,
    p1: u128,
    p2: u128,
)
    requires
        duration1 <= duration2,
        spec_price(fee_per_letter, min_lock_time, len, duration1) == Ok::<u128, Error>(p1),
        spec_price(fee_per_letter, min_lock_time, len, duration2) == Ok::<u128, Error>(p2),
    ensures
        p1 <= p2,
{
    assert(fee_per_letter * len * duration1 <= fee_per_letter * len * duration2) by (
    nonlinear_arith)
        requires
            duration1 <= duration2,
            fee_per_letter >= 0,
            len >= 0,
    ;
}

/// An empty key is refused whatever the duration.
pub proof fn lemma_price_empty_key(fee_per_letter: u128, min_lock_time: u64, duration: u64)
    ensures
        spec_price(fee_per_letter, min_lock_time, 0, duration) == Err::<u128, Error>(
            Error::DomainLengthIsZero,
        ),
{
}

/// A non-empty key with a duration under the minimum is refused as too short.
pub proof fn lemma_price_short_duration(
    fee_per_letter: u128,
    min_lock_time: u64,
    len: nat,
    duration: u64,
)
    requires
        len > 0,
        duration < min_lock_time,
    ensures
        spec_price(fee_per_letter, min_lock_time, len, duration) == Err::<u128, Error>(
            Error::DurationIsNotEnough,
        ),
{
}

} // verus!
