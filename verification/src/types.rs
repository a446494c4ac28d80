//! The registry's data model: accounts, commitments, claims, reservations and
//! escrow entries, together with their mathematical views.

use vstd::prelude::*;

verus! {

broadcast use vstd::array::group_array_axioms;

/// An account is identified by 32 bytes.
pub type AccountId = [u8; 32];

/// A commitment is a 32-byte digest, either of (domain, secret salt) when
/// reserving, or of (domain, claimant account) when indexing escrow.
pub type Commitment = [u8; 32];

/// Monetary amounts.
pub type Balance = u128;

/// The all-zero account, used as the sentinel "no salt" value and as the owner
/// of unclaimed domains.
pub open spec fn zero_account() -> Seq<u8> {
    Seq::new(32, |i: int| 0u8)
}

/// The all-zero account as an executable value.
pub fn zero_address() -> (r: AccountId)
    ensures
        r@ == zero_account(),
{
    let r: AccountId = [0u8; 32];
    proof {
        assert(r@ =~= zero_account());
    }
    r
}

/// Byte-for-byte equality of two 32-byte values.
pub fn bytes32_eq(a: &[u8; 32], b: &[u8; 32]) -> (r: bool)
    ensures
        r == (a@ == b@),
{
    let mut i: usize = 0;
    while i < 32
        invariant
            i <= 32,
            forall|j: int| 0 <= j < i ==> a@[j] == b@[j],
        decreases 32 - i,
    {
        if a[i] != b[i] {
            assert(a@ != b@);
            return false;
        }
        i += 1;
    }
    proof {
        assert(a@ =~= b@);
    }
    true
}

/// A domain's claim: who owns it, until when, and its free-form metadata.
pub struct DomainData {
    pub owner: AccountId,
    pub expiration_date: u64,
    pub metadata: String,
}

/// The mathematical value of a [`DomainData`].
pub ghost struct DomainDataView {
    pub owner: Seq<u8>,
    pub expiration_date: u64,
    pub metadata: Seq<char>,
}

impl View for DomainData {
    type V = DomainDataView;

    open spec fn view(&self) -> DomainDataView {
        DomainDataView {
            owner: self.owner@,
            expiration_date: self.expiration_date,
            metadata: self.metadata@,
        }
    }
}

/// An escrow entry: the fee paid for the most recent fee-bearing action on a
/// domain, and the moment from which it becomes refundable.
#[derive(Clone, Copy)]
pub struct RefundData {
    pub expiration_date: u64,
    pub paid_price: Balance,
}

/// The mathematical value of a [`RefundData`].
pub ghost struct RefundDataView {
    pub expiration_date: u64,
    pub paid_price: Balance,
}

impl View for RefundData {
    type V = RefundDataView;

    open spec fn view(&self) -> RefundDataView {
        RefundDataView { expiration_date: self.expiration_date, paid_price: self.paid_price }
    }
}

/// A reservation: who first submitted a commitment, and when.
#[derive(Clone, Copy)]
pub struct Reservation {
    pub claimant: AccountId,
    pub created_at: u64,
}

/// The mathematical value of a [`Reservation`].
pub ghost struct ReservationView {
    pub claimant: Seq<u8>,
    pub created_at: u64,
}

impl View for Reservation {
    type V = ReservationView;

    open spec fn view(&self) -> ReservationView {
        ReservationView { claimant: self.claimant@, created_at: self.created_at }
    }
}

} // verus!
