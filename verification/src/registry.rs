//! The registry itself: a deterministic state machine over the claim ledger,
//! the reservation store, the escrow ledger and the administrative parameters.
//!
//! Each operation takes the hosting environment's inputs — the calling account,
//! the current time, the value attached to the call — as plain parameters, and
//! returns what the environment must do next: the amount to pay back to the
//! caller, and the event to announce. Every operation's effect is stated by a
//! transition function over [`RegistryView`], the registry's mathematical
//! value, and the executable code is proved to follow it exactly.

use vstd::prelude::*;

use crate::bytemap::ByteMap;
use crate::domain_map::DomainMap;
use crate::errors::Error;
use crate::escrow_map::{contribution, EscrowMap, EscrowRecord, EscrowRecordView};
use crate::hashing::{digest_of_domain_and_account, digest_of_domain_and_salt, pair_digest};
use crate::pricing::{key_len, price_for, spec_price};
use crate::types::{
    bytes32_eq, zero_account, zero_address, AccountId, Balance, Commitment, DomainData,
    DomainDataView, RefundData, RefundDataView, Reservation, ReservationView,
};

verus! {

/// What the environment announces after a successful claim registration.
#[derive(Debug)]
pub struct DomainRegistered {
    pub domain: String,
    pub owner: AccountId,
    pub expiration_data: u64,
}

/// What the environment announces after a successful claim renewal.
#[derive(Debug)]
pub struct DomainRenewed {
    pub domain: String,
    pub owner: AccountId,
    pub expiration_data: u64,
}

/// The registry's mathematical value.
pub ghost struct RegistryView {
    /// Each claimed domain's live or expired claim.
    pub domains: Map<Seq<char>, DomainDataView>,
    /// Escrow records, indexed by the digest of (domain, depositor).
    pub refunds: Map<Seq<u8>, EscrowRecordView>,
    /// Reservations, indexed by the claim commitment.
    pub reservations: Map<Seq<u8>, ReservationView>,
    /// Outstanding escrow per account.
    pub locked_balance: Map<Seq<u8>, u128>,
    /// Fee per key byte per second of claim duration.
    pub default_fee_by_letter: u128,
    /// Shortest claim duration the pricing engine accepts.
    pub min_lock_time: u64,
    /// The privileged account, fixed at construction.
    pub owner: Seq<u8>,
}

/// An account's recorded locked balance; an account without a record has
/// nothing locked.
pub open spec fn locked_of(locked_balance: Map<Seq<u8>, u128>, a: Seq<u8>) -> int {
    if locked_balance.contains_key(a) {
        locked_balance[a] as int
    } else {
        0
    }
}

/// The refund part of an operation's outcome, with the event data dropped.
pub open spec fn refund_part<T>(r: Result<(T, u128), Error>) -> Result<u128, Error> {
    match r {
        Ok(p) => Ok(p.1),
        Err(e) => Err(e),
    }
}

/// What submitting a commitment does: it is refused if the commitment is
/// already reserved, and otherwise binds it to the caller and the current time.
pub open spec fn spec_request(v: RegistryView, caller: Seq<u8>, now: u64, secret: Seq<u8>) -> (
    RegistryView,
    Result<(), Error>,
) {
    if v.reservations.contains_key(secret) {
        (v, Err(Error::SecretAlreadyUsed))
    } else {
        (
            RegistryView {
                reservations: v.reservations.insert(
                    secret,
                    ReservationView { claimant: caller, created_at: now },
                ),
                ..v
            },
            Ok(()),
        )
    }
}

/// What finalizing a claim does, in the order the checks are made: the
/// commitment is recomputed from (domain, salt); the reservation must exist,
/// belong to the caller, and be strictly older than the current time; the fee
/// must be computable and covered by the payment; the domain must hold no live
/// claim; the new expiration and the claimant's grown locked balance must fit
/// their types. Then the claim is written, the fee is escrowed against the
/// claimant, and the excess payment is owed back to the caller.
///
/// The reservation is deliberately left in place after use: consuming it again
/// is harmless, because taking the key anew is gated by the claim ledger's own
/// exclusivity check, never by the reservation store.
pub open spec fn spec_rent(
    v: RegistryView,
    caller: Seq<u8>,
    now: u64,
    payment: u128,
    domain: Seq<char>,
    salt: Seq<u8>,
    duration: u64,
    metadata: Seq<char>,
) -> (RegistryView, Result<u128, Error>) {
    let secret = pair_digest(domain, salt);
    if !v.reservations.contains_key(secret) {
        (v, Err(Error::NoSuchReservation))
    } else if v.reservations[secret].claimant != caller {
        (v, Err(Error::NotTheOriginalRequester))
    } else if v.reservations[secret].created_at >= now {
        (v, Err(Error::RentCannotBeDoneInSameBlock))
    } else {
        match spec_price(v.default_fee_by_letter, v.min_lock_time, key_len(domain), duration) {
            Err(e) => (v, Err(e)),
            Ok(cost) => {
                if payment < cost {
                    (v, Err(Error::SentValueIsNotEnough))
                } else if v.domains.contains_key(domain) && v.domains[domain].expiration_date
                    > now {
                    (v, Err(Error::DomainUnavailable))
                } else if now + duration > u64::MAX {
                    (v, Err(Error::Overflow))
                } else if locked_of(v.locked_balance, caller) + cost > u128::MAX {
                    (v, Err(Error::Overflow))
                } else {
                    let expiration_date = (now + duration) as u64;
                    (
                        RegistryView {
                            domains: v.domains.insert(
                                domain,
                                DomainDataView { owner: caller, expiration_date, metadata },
                            ),
                            refunds: v.refunds.insert(
                                pair_digest(domain, caller),
                                EscrowRecordView {
                                    account: caller,
                                    refund: RefundDataView { expiration_date, paid_price: cost },
                                },
                            ),
                            locked_balance: v.locked_balance.insert(
                                caller,
                                (locked_of(v.locked_balance, caller) + cost) as u128,
                            ),
                            ..v
                        },
                        Ok((payment - cost) as u128),
                    )
                }
            },
        }
    }
}

/// What renewing a claim does, in the order the checks are made: the fee must
/// be computable and covered by the payment; the domain must hold a live claim,
/// owned by the caller; the new expiration and the caller's grown locked
/// balance must fit their types. Then the claim's expiration moves, the fee is
/// escrowed against the caller, and the excess payment is owed back.
pub open spec fn spec_renew(
    v: RegistryView,
    caller: Seq<u8>,
    now: u64,
    payment: u128,
    domain: Seq<char>,
    duration: u64,
) -> (RegistryView, Result<u128, Error>) {
    match spec_price(v.default_fee_by_letter, v.min_lock_time, key_len(domain), duration) {
        Err(e) => (v, Err(e)),
        Ok(cost) => {
            if payment < cost {
                (v, Err(Error::SentValueIsNotEnough))
            } else if !v.domains.contains_key(domain) || v.domains[domain].expiration_date <= now {
                (v, Err(Error::DomainExpired))
            } else if v.domains[domain].owner != caller {
                (v, Err(Error::NotDomainOwner))
            } else if now + duration > u64::MAX {
                (v, Err(Error::Overflow))
            } else if locked_of(v.locked_balance, caller) + cost > u128::MAX {
                (v, Err(Error::Overflow))
            } else {
                let expiration_date = (now + duration) as u64;
                (
                    RegistryView {
                        domains: v.domains.insert(
                            domain,
                            DomainDataView {
                                owner: v.domains[domain].owner,
                                expiration_date,
                                metadata: v.domains[domain].metadata,
                            },
                        ),
                        refunds: v.refunds.insert(
                            pair_digest(domain, caller),
                            EscrowRecordView {
                                account: caller,
                                refund: RefundDataView { expiration_date, paid_price: cost },
                            },
                        ),
                        locked_balance: v.locked_balance.insert(
                            caller,
                            (locked_of(v.locked_balance, caller) + cost) as u128,
                        ),
                        ..v
                    },
                    Ok((payment - cost) as u128),
                )
            }
        },
    }
}

/// What asking for a refund does: the escrow record indexed by (domain, caller)
/// must exist, belong to the caller, and be past its expiration. Then the
/// record is consumed, the caller's locked balance shrinks by the deposit, and
/// the deposit is owed back to the caller.
pub open spec fn spec_refund(v: RegistryView, caller: Seq<u8>, now: u64, domain: Seq<char>) -> (
    RegistryView,
    Result<u128, Error>,
) {
    let refund_key = pair_digest(domain, caller);
    if !v.refunds.contains_key(refund_key) || v.refunds[refund_key].account != caller {
        (v, Err(Error::NoSuchRefund))
    } else if v.refunds[refund_key].refund.expiration_date > now {
        (v, Err(Error::DomainNotExpired))
    } else {
        let paid = v.refunds[refund_key].refund.paid_price;
        if paid > 0 {
            (
                RegistryView {
                    refunds: v.refunds.remove(refund_key),
                    locked_balance: v.locked_balance.insert(
                        caller,
                        (locked_of(v.locked_balance, caller) - paid) as u128,
                    ),
                    ..v
                },
                Ok(paid),
            )
        } else {
            (RegistryView { refunds: v.refunds.remove(refund_key), ..v }, Ok(0))
        }
    }
}

/// What changing the minimum claim duration does: only the privileged account
/// may do it.
pub open spec fn spec_update_min_lock_time(v: RegistryView, caller: Seq<u8>, locking_time: u64) -> (
    RegistryView,
    Result<(), Error>,
) {
    if caller != v.owner {
        (v, Err(Error::NotContractOwner))
    } else {
        (RegistryView { min_lock_time: locking_time, ..v }, Ok(()))
    }
}

/// The registry: claim ledger, reservation store, escrow ledger, locked
/// balances and administrative parameters.
pub struct DomainRegistry {
    domains: DomainMap,
    refunds: EscrowMap,
    reservations: ByteMap<Reservation>,
    locked_balance: ByteMap<u128>,
    default_fee_by_letter: Balance,
    min_lock_time: u64,
    owner: AccountId,
}

impl View for DomainRegistry {
    type V = RegistryView;

    closed spec fn view(&self) -> RegistryView {
        RegistryView {
            domains: self.domains@,
            refunds: self.refunds@,
            reservations: self.reservations@,
            locked_balance: self.locked_balance@,
            default_fee_by_letter: self.default_fee_by_letter,
            min_lock_time: self.min_lock_time,
            owner: self.owner@,
        }
    }
}

impl DomainRegistry {
    /// The escrow the registry holds for an account: the sum of the deposits
    /// recorded against it.
    pub closed spec fn escrow_sum(self, a: Seq<u8>) -> int {
        self.refunds.account_sum(a)
    }

    /// An account's recorded locked balance.
    pub open spec fn locked_amount(self, a: Seq<u8>) -> int {
        locked_of(self@.locked_balance, a)
    }

    /// The registry's internal well-formedness: each store binds a key at most
    /// once, and every account's locked balance covers the escrow held for it.
    pub closed spec fn inv(self) -> bool {
        &&& self.domains.wf()
        &&& self.refunds.wf()
        &&& self.reservations.wf()
        &&& self.locked_balance.wf()
        &&& forall|a: Seq<u8>| locked_of(self@.locked_balance, a) >= #[trigger] self.escrow_sum(a)
    }

    /// Escrow conservation: every account's locked balance is exactly the
    /// escrow held for it. Established at construction; preserved by every
    /// operation except a finalize or renew that overwrites an existing escrow
    /// record, which strands the overwritten deposit in the locked balance.
    pub closed spec fn conserving(self) -> bool {
        forall|a: Seq<u8>| locked_of(self@.locked_balance, a) == #[trigger] self.escrow_sum(a)
    }

    /// A fresh registry, owned by the constructing caller.
    pub fn new(caller: AccountId) -> (r: Self)
        ensures
            r.inv(),
            r.conserving(),
            r@.domains == Map::<Seq<char>, DomainDataView>::empty(),
            r@.refunds == Map::<Seq<u8>, EscrowRecordView>::empty(),
            r@.reservations == Map::<Seq<u8>, ReservationView>::empty(),
            r@.locked_balance == Map::<Seq<u8>, u128>::empty(),
            r@.default_fee_by_letter == 500,
            r@.min_lock_time == 30 * 24 * 60 * 60,
            r@.owner == caller@,
    {
        DomainRegistry {
            domains: DomainMap::new(),
            refunds: EscrowMap::new(),
            reservations: ByteMap::new(),
            locked_balance: ByteMap::new(),
            default_fee_by_letter: 500,
            min_lock_time: 30 * 24 * 60 * 60,
            owner: caller,
        }
    }

    /// Changes the minimum claim duration; a privileged operation.
    pub fn update_min_lock_time(&mut self, caller: AccountId, locking_time: u64) -> (r: Result<
        (),
        Error,
    >)
        requires
            old(self).inv(),
        ensures
            final(self).inv(),
            (final(self)@, r) == spec_update_min_lock_time(old(self)@, caller@, locking_time),
            old(self).conserving() ==> final(self).conserving(),
    {
        if !bytes32_eq(&caller, &self.owner) {
            return Err(Error::NotContractOwner);
        }
        self.min_lock_time = locking_time;
        proof {
            (*old(self)).lemma_escrow_sum_congruent(*self);
        }
        Ok(())
    }

    /// The minimum claim duration.
    pub fn get_min_lock_time(&mut self) -> (r: u64)
        ensures
            *final(self) == *old(self),
            r == old(self)@.min_lock_time,
    {
        self.min_lock_time
    }

    /// The commitment for (domain, salt). With the all-zero sentinel salt the
    /// derivation is caller-free as well: the digest is taken over the domain
    /// and the all-zero account, which encode exactly as the domain and the
    /// sentinel salt do.
    pub fn generate_secret(&mut self, domain: String, salt: [u8; 32]) -> (r: Commitment)
        ensures
            *final(self) == *old(self),
            r@ == pair_digest(domain@, salt@),
    {
        self.generate_secret_internal(&domain, &salt)
    }

    /// The fee for claiming `domain` for `duration` seconds, or zero where the
    /// pricing engine refuses the request.
    pub fn rent_price(&mut self, domain: String, duration: u64) -> (r: u128)
        ensures
            *final(self) == *old(self),
            r == (match spec_price(
                old(self)@.default_fee_by_letter,
                old(self)@.min_lock_time,
                key_len(domain@),
                duration,
            ) {
                Ok(c) => c,
                Err(_) => 0u128,
            }),
    {
        match self.rent_price_internal(&domain, duration) {
            Ok(c) => c,
            Err(_) => 0,
        }
    }

    /// Reserves a commitment for the caller.
    pub fn request_domain(&mut self, caller: AccountId, now: u64, secret: Commitment) -> (r: Result<
        (),
        Error,
    >)
        requires
            old(self).inv(),
        ensures
            final(self).inv(),
            (final(self)@, r) == spec_request(old(self)@, caller@, now, secret@),
            old(self).conserving() ==> final(self).conserving(),
    {
        if self.reservations.get(&secret).is_some() {
            return Err(Error::SecretAlreadyUsed);
        }
        self.reservations.insert(secret, Reservation { claimant: caller, created_at: now });
        proof {
            (*old(self)).lemma_escrow_sum_congruent(*self);
        }
        Ok(())
    }

    /// Finalizes a reserved claim. On success the returned event describes the
    /// new claim and the returned amount — the payment less the fee — is owed
    /// back to the caller.
    pub fn rent_domain(
        &mut self,
        caller: AccountId,
        now: u64,
        payment: u128,
        domain: String,
        salt: [u8; 32],
        duration: u64,
        metadata: String,
    ) -> (r: Result<(DomainRegistered, u128), Error>)
        requires
            old(self).inv(),
        ensures
            final(self).inv(),
            (final(self)@, refund_part(r)) == spec_rent(
                old(self)@,
                caller@,
                now,
                payment,
                domain@,
                salt@,
                duration,
                metadata@,
            ),
            r matches Ok(p) ==> p.0.domain@ == domain@ && p.0.owner == caller
                && p.0.expiration_data == (now + duration) as u64,
            old(self).conserving() && !old(self)@.refunds.contains_key(
                pair_digest(domain@, caller@),
            ) ==> final(self).conserving(),
    {
        let secret = self.generate_secret_internal(&domain, &salt);
        let reservation: Reservation = match self.reservations.get(&secret) {
            None => {
                return Err(Error::NoSuchReservation);
            },
            Some(r) => *r,
        };
        if !bytes32_eq(&reservation.claimant, &caller) {
            return Err(Error::NotTheOriginalRequester);
        }
        if reservation.created_at >= now {
            return Err(Error::RentCannotBeDoneInSameBlock);
        }
        let domain_cost = match self.rent_price_internal(&domain, duration) {
            Err(e) => {
                return Err(e);
            },
            Ok(c) => c,
        };
        if payment < domain_cost {
            return Err(Error::SentValueIsNotEnough);
        }
        match self.domains.get(&domain) {
            Some(domain_data) => {
                if domain_data.expiration_date > now {
                    return Err(Error::DomainUnavailable);
                }
            },
            None => {},
        }
        let expiration_date = match now.checked_add(duration) {
            None => {
                return Err(Error::Overflow);
            },
            Some(e) => e,
        };
        let locked: u128 = match self.locked_balance.get(&caller) {
            None => 0,
            Some(b) => *b,
        };
        let new_locked = match locked.checked_add(domain_cost) {
            None => {
                return Err(Error::Overflow);
            },
            Some(x) => x,
        };

        let domain_data = DomainData { owner: caller, expiration_date, metadata };
        self.domains.insert(domain.clone(), domain_data);

        let refund_key = self.generate_key(&domain, &caller);
        let record = EscrowRecord {
            account: caller,
            refund: RefundData { expiration_date, paid_price: domain_cost },
        };
        self.refunds.insert(refund_key, record);

        self.locked_balance.insert(caller, new_locked);

        proof {
            assert forall|a: Seq<u8>|
                locked_of(self@.locked_balance, a) >= #[trigger] self.escrow_sum(a) by {
                assert(self.escrow_sum(a) == self.refunds.account_sum(a));
                assert(old(self).escrow_sum(a) == old(self).refunds.account_sum(a));
                assert(locked_of(old(self)@.locked_balance, a) >= old(self).escrow_sum(a));
            }
            if old(self).conserving() && !old(self)@.refunds.contains_key(
                pair_digest(domain@, caller@),
            ) {
                assert forall|a: Seq<u8>|
                    locked_of(self@.locked_balance, a) == #[trigger] self.escrow_sum(a) by {
                    assert(self.escrow_sum(a) == self.refunds.account_sum(a));
                    assert(old(self).escrow_sum(a) == old(self).refunds.account_sum(a));
                    assert(locked_of(old(self)@.locked_balance, a) == old(self).escrow_sum(a));
                }
            }
        }

        let refund_amount = payment - domain_cost;
        Ok((
            DomainRegistered { domain, owner: caller, expiration_data: expiration_date },
            refund_amount,
        ))
    }

    /// Extends a live claim the caller owns. On success the returned event
    /// describes the extended claim and the returned amount — the payment less
    /// the fee — is owed back to the caller.
    pub fn renew_domain(
        &mut self,
        caller: AccountId,
        now: u64,
        payment: u128,
        domain: String,
        duration: u64,
    ) -> (r: Result<(DomainRenewed, u128), Error>)
        requires
            old(self).inv(),
        ensures
            final(self).inv(),
            (final(self)@, refund_part(r)) == spec_renew(
                old(self)@,
                caller@,
                now,
                payment,
                domain@,
                duration,
            ),
            r matches Ok(p) ==> p.0.domain@ == domain@ && p.0.owner == caller
                && p.0.expiration_data == (now + duration) as u64,
            old(self).conserving() && !old(self)@.refunds.contains_key(
                pair_digest(domain@, caller@),
            ) ==> final(self).conserving(),
    {
        let domain_cost = match self.rent_price_internal(&domain, duration) {
            Err(e) => {
                return Err(e);
            },
            Ok(c) => c,
        };
        if payment < domain_cost {
            return Err(Error::SentValueIsNotEnough);
        }
        let (domain_owner, domain_expiration) = match self.domains.get(&domain) {
            None => {
                return Err(Error::DomainExpired);
            },
            Some(domain_data) => (domain_data.owner, domain_data.expiration_date),
        };
        if domain_expiration <= now {
            return Err(Error::DomainExpired);
        }
        if !bytes32_eq(&domain_owner, &caller) {
            return Err(Error::NotDomainOwner);
        }
        let expiration_date = match now.checked_add(duration) {
            None => {
                return Err(Error::Overflow);
            },
            Some(e) => e,
        };
        let locked: u128 = match self.locked_balance.get(&caller) {
            None => 0,
            Some(b) => *b,
        };
        let new_locked = match locked.checked_add(domain_cost) {
            None => {
                return Err(Error::Overflow);
            },
            Some(x) => x,
        };

        self.domains.set_expiration(&domain, expiration_date);

        let refund_key = self.generate_key(&domain, &caller);
        let record = EscrowRecord {
            account: caller,
            refund: RefundData { expiration_date, paid_price: domain_cost },
        };
        self.refunds.insert(refund_key, record);

        self.locked_balance.insert(caller, new_locked);

        proof {
            assert forall|a: Seq<u8>|
                locked_of(self@.locked_balance, a) >= #[trigger] self.escrow_sum(a) by {
                assert(self.escrow_sum(a) == self.refunds.account_sum(a));
                assert(old(self).escrow_sum(a) == old(self).refunds.account_sum(a));
                assert(locked_of(old(self)@.locked_balance, a) >= old(self).escrow_sum(a));
            }
            if old(self).conserving() && !old(self)@.refunds.contains_key(
                pair_digest(domain@, caller@),
            ) {
                assert forall|a: Seq<u8>|
                    locked_of(self@.locked_balance, a) == #[trigger] self.escrow_sum(a) by {
                    assert(self.escrow_sum(a) == self.refunds.account_sum(a));
                    assert(old(self).escrow_sum(a) == old(self).refunds.account_sum(a));
                    assert(locked_of(old(self)@.locked_balance, a) == old(self).escrow_sum(a));
                }
            }
        }

        let refund_amount = payment - domain_cost;
        Ok((
            DomainRenewed { domain, owner: caller, expiration_data: expiration_date },
            refund_amount,
        ))
    }

    /// Releases the caller's escrowed deposit on an expired claim. On success
    /// the returned amount is owed to the caller, the deposit is removed from
    /// escrow, and the caller's locked balance shrinks by it; a second refund
    /// without a fee-bearing action in between finds no record and fails.
    pub fn refund_domain(&mut self, caller: AccountId, now: u64, domain: String) -> (r: Result<
        u128,
        Error,
    >)
        requires
            old(self).inv(),
        ensures
            final(self).inv(),
            (final(self)@, r) == spec_refund(old(self)@, caller@, now, domain@),
            old(self).conserving() ==> final(self).conserving(),
    {
        let refund_key = self.generate_key(&domain, &caller);
        let (entry_account, entry_expiration, amount) = match self.refunds.get(&refund_key) {
            None => {
                return Err(Error::NoSuchRefund);
            },
            Some(record) => (record.account, record.refund.expiration_date, record.refund.paid_price),
        };
        if !bytes32_eq(&entry_account, &caller) {
            return Err(Error::NoSuchRefund);
        }
        if entry_expiration > now {
            return Err(Error::DomainNotExpired);
        }
        proof {
            self.refunds.lemma_record_le_account_sum(refund_key@, caller@);
            assert(old(self).escrow_sum(caller@) == old(self).refunds.account_sum(caller@));
            assert(locked_of(old(self)@.locked_balance, caller@) >= old(self).escrow_sum(caller@));
            assert(contribution(old(self)@.refunds[refund_key@], caller@) == amount as int);
        }
        self.refunds.remove(&refund_key);
        if amount > 0 {
            let locked: u128 = match self.locked_balance.get(&caller) {
                None => 0,
                Some(b) => *b,
            };
            self.locked_balance.insert(caller, locked - amount);
        }
        proof {
            assert forall|a: Seq<u8>|
                locked_of(self@.locked_balance, a) >= #[trigger] self.escrow_sum(a) by {
                assert(self.escrow_sum(a) == self.refunds.account_sum(a));
                assert(old(self).escrow_sum(a) == old(self).refunds.account_sum(a));
                assert(locked_of(old(self)@.locked_balance, a) >= old(self).escrow_sum(a));
            }
            if old(self).conserving() {
                assert forall|a: Seq<u8>|
                    locked_of(self@.locked_balance, a) == #[trigger] self.escrow_sum(a) by {
                    assert(self.escrow_sum(a) == self.refunds.account_sum(a));
                    assert(old(self).escrow_sum(a) == old(self).refunds.account_sum(a));
                    assert(locked_of(old(self)@.locked_balance, a) == old(self).escrow_sum(a));
                }
            }
        }
        Ok(amount)
    }

    /// The stored claim for a domain, or the zero-valued claim — zero owner,
    /// zero expiration, empty metadata — where none exists; the zero owner
    /// marks the domain as never claimed, not an error.
    pub fn get_domain_data(&self, domain: String) -> (r: DomainData)
        requires
            self.inv(),
        ensures
            self@.domains.contains_key(domain@) ==> r@ == self@.domains[domain@],
            !self@.domains.contains_key(domain@) ==> r@ == (DomainDataView {
                owner: zero_account(),
                expiration_date: 0,
                metadata: Seq::<char>::empty(),
            }),
    {
        match self.domains.get(&domain) {
            Some(domain_data) => DomainData {
                owner: domain_data.owner,
                expiration_date: domain_data.expiration_date,
                metadata: domain_data.metadata.clone(),
            },
            None => DomainData {
                owner: zero_address(),
                expiration_date: 0,
                metadata: String::new(),
            },
        }
    }

    /// The reservation recorded for a commitment, if any.
    pub fn get_reservation(&self, secret: Commitment) -> (r: Option<Reservation>)
        requires
            self.inv(),
        ensures
            match r {
                Some(res) => self@.reservations.contains_key(secret@) && res@
                    == self@.reservations[secret@],
                None => !self@.reservations.contains_key(secret@),
            },
    {
        match self.reservations.get(&secret) {
            Some(res) => Some(*res),
            None => None,
        }
    }

    /// The locked balance recorded for an account.
    pub fn get_locked_balance(&self, account: AccountId) -> (r: u128)
        requires
            self.inv(),
        ensures
            r == locked_of(self@.locked_balance, account@),
    {
        match self.locked_balance.get(&account) {
            Some(b) => *b,
            None => 0,
        }
    }

    /// The escrow-index digest for (domain, account).
    fn generate_key(&self, domain: &String, account: &AccountId) -> (r: Commitment)
        ensures
            r@ == pair_digest(domain@, account@),
    {
        digest_of_domain_and_account(domain, account)
    }

    /// The claim commitment for (domain, salt), with the all-zero salt falling
    /// back to the all-zero account as the pair's second half.
    fn generate_secret_internal(&self, domain: &String, salt: &[u8; 32]) -> (r: Commitment)
        ensures
            r@ == pair_digest(domain@, salt@),
    {
        let zero = zero_address();
        if !bytes32_eq(salt, &zero) {
            digest_of_domain_and_salt(domain, salt)
        } else {
            digest_of_domain_and_account(domain, &zero)
        }
    }

    /// The fee for claiming `domain` for `duration` seconds.
    fn rent_price_internal(&self, domain: &String, duration: u64) -> (r: Result<u128, Error>)
        ensures
            r == spec_price(
                self@.default_fee_by_letter,
                self@.min_lock_time,
                key_len(domain@),
                duration,
            ),
    {
        price_for(self.default_fee_by_letter, self.min_lock_time, domain, duration)
    }

    /// Where conservation holds, an account's locked balance is exactly the
    /// escrow held for it.
    pub proof fn lemma_conserving_at(self, a: Seq<u8>)
        requires
            self.conserving(),
        ensures
            locked_of(self@.locked_balance, a) == self.escrow_sum(a),
    {
    }

    /// The registry's invariant keeps every account's locked balance at or
    /// above the escrow held for it.
    pub proof fn lemma_locked_covers_escrow(self, a: Seq<u8>)
        requires
            self.inv(),
        ensures
            locked_of(self@.locked_balance, a) >= self.escrow_sum(a),
    {
    }

    /// Two registries with the same escrow store hold the same escrow for
    /// every account.
    proof fn lemma_escrow_sum_congruent(self, other: Self)
        requires
            self.refunds == other.refunds,
        ensures
            forall|a: Seq<u8>|
                #![trigger self.escrow_sum(a)]
                #![trigger other.escrow_sum(a)]
                self.escrow_sum(a) == other.escrow_sum(a),
    {
    }
}

} // verus!
