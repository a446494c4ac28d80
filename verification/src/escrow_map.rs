//! The escrow ledger's store: commitment-indexed escrow records, each naming
//! the account that deposited it. Besides the map abstraction shared with the
//! other stores, this store tracks, per account, the sum of the deposits it
//! holds — the quantity the registry's locked balances must cover.

use vstd::prelude::*;

use crate::assoc::{
    lemma_map_of_contains, lemma_map_of_entry, lemma_map_of_push, lemma_map_of_remove,
    lemma_map_of_update, map_of, unique_keys,
};
use crate::types::{bytes32_eq, AccountId, Commitment, RefundData, RefundDataView};

verus! {

/// An escrow record: the depositing account and its refundable entry.
#[derive(Clone, Copy)]
pub struct EscrowRecord {
    pub account: AccountId,
    pub refund: RefundData,
}

/// The mathematical value of an [`EscrowRecord`].
pub ghost struct EscrowRecordView {
    pub account: Seq<u8>,
    pub refund: RefundDataView,
}

impl View for EscrowRecord {
    type V = EscrowRecordView;

    open spec fn view(&self) -> EscrowRecordView {
        EscrowRecordView { account: self.account@, refund: self.refund@ }
    }
}

/// What a record contributes to an account's escrow: its deposit if the record
/// belongs to that account, nothing otherwise.
pub open spec fn contribution(r: EscrowRecordView, a: Seq<u8>) -> int {
    if r.account == a {
        r.refund.paid_price as int
    } else {
        0
    }
}

/// The sum of an account's deposits over a list of records.
pub open spec fn seq_account_sum(s: Seq<(Commitment, EscrowRecord)>, a: Seq<u8>) -> int
    decreases s.len(),
{
    if s.len() == 0 {
        0
    } else {
        seq_account_sum(s.drop_last(), a) + contribution(s.last().1@, a)
    }
}

proof fn lemma_sum_nonneg(s: Seq<(Commitment, EscrowRecord)>, a: Seq<u8>)
    ensures
        seq_account_sum(s, a) >= 0,
    decreases s.len(),
{
    if s.len() > 0 {
        lemma_sum_nonneg(s.drop_last(), a);
    }
}

proof fn lemma_sum_update(
    s: Seq<(Commitment, EscrowRecord)>,
    i: int,
    e: (Commitment, EscrowRecord),
    a: Seq<u8>,
)
    requires
        0 <= i < s.len(),
    ensures
        seq_account_sum(s.update(i, e), a) == seq_account_sum(s, a) - contribution(s[i].1@, a)
            + contribution(e.1@, a),
    decreases s.len(),
{
    let t = s.update(i, e);
    if i == s.len() - 1 {
        assert(t.drop_last() =~= s.drop_last());
    } else {
        assert(t.drop_last() =~= s.drop_last().update(i, e));
        assert(s.drop_last()[i] == s[i]);
        lemma_sum_update(s.drop_last(), i, e, a);
        assert(t.last() == s.last());
    }
}

proof fn lemma_sum_remove(s: Seq<(Commitment, EscrowRecord)>, i: int, a: Seq<u8>)
    requires
        0 <= i < s.len(),
    ensures
        seq_account_sum(s.remove(i), a) == seq_account_sum(s, a) - contribution(s[i].1@, a),
    decreases s.len(),
{
    let t = s.remove(i);
    if i == s.len() - 1 {
        assert(t =~= s.drop_last());
    } else {
        assert(t.drop_last() =~= s.drop_last().remove(i));
        assert(s.drop_last()[i] == s[i]);
        lemma_sum_remove(s.drop_last(), i, a);
        assert(t.last() == s.last());
    }
}

proof fn lemma_entry_le_sum(s: Seq<(Commitment, EscrowRecord)>, i: int, a: Seq<u8>)
    requires
        0 <= i < s.len(),
        s[i].1@.account == a,
    ensures
        contribution(s[i].1@, a) <= seq_account_sum(s, a),
    decreases s.len(),
{
    if i == s.len() - 1 {
        lemma_sum_nonneg(s.drop_last(), a);
    } else {
        assert(s.drop_last()[i] == s[i]);
        lemma_entry_le_sum(s.drop_last(), i, a);
    }
}

/// The escrow ledger's store, kept as an association list whose keys are
/// pairwise distinct.
pub struct EscrowMap {
    entries: Vec<(Commitment, EscrowRecord)>,
}

impl View for EscrowMap {
    type V = Map<Seq<u8>, EscrowRecordView>;

    closed spec fn view(&self) -> Map<Seq<u8>, EscrowRecordView> {
        map_of(self.entries@)
    }
}

impl EscrowMap {
    /// The stored keys are pairwise distinct.
    pub closed spec fn wf(self) -> bool {
        unique_keys(self.entries@)
    }

    /// The sum of the deposits this store holds for an account.
    pub closed spec fn account_sum(self, a: Seq<u8>) -> int {
        seq_account_sum(self.entries@, a)
    }

    /// An account's escrow is never negative.
    pub proof fn lemma_account_sum_nonneg(self, a: Seq<u8>)
        ensures
            self.account_sum(a) >= 0,
    {
        lemma_sum_nonneg(self.entries@, a);
    }

    /// A record an account holds never exceeds that account's whole escrow.
    pub proof fn lemma_record_le_account_sum(self, k: Seq<u8>, a: Seq<u8>)
        requires
            self.wf(),
            self@.contains_key(k),
            self@[k].account == a,
        ensures
            contribution(self@[k], a) <= self.account_sum(a),
    {
        lemma_map_of_contains(self.entries@, k);
        let i = choose|i: int| 0 <= i < self.entries@.len() && self.entries@[i].0@ == k;
        lemma_map_of_entry(self.entries@, i);
        lemma_entry_le_sum(self.entries@, i, a);
    }

    /// An empty store.
    pub fn new() -> (r: Self)
        ensures
            r.wf(),
            r@ == Map::<Seq<u8>, EscrowRecordView>::empty(),
            forall|a: Seq<u8>| #[trigger] r.account_sum(a) == 0,
    {
        let r = EscrowMap { entries: Vec::new() };
        proof {
            assert(r@ =~= Map::<Seq<u8>, EscrowRecordView>::empty());
        }
        r
    }

    /// Looks a key up.
    pub fn get(&self, k: &Commitment) -> (r: Option<&EscrowRecord>)
        requires
            self.wf(),
        ensures
            match r {
                Some(v) => self@.contains_key(k@) && v@ == self@[k@],
                None => !self@.contains_key(k@),
            },
    {
        let n = self.entries.len();
        let mut i: usize = 0;
        while i < n
            invariant
                n == self.entries@.len(),
                i <= n,
                self.wf(),
                forall|j: int| 0 <= j < i ==> #[trigger] self.entries@[j].0@ != k@,
            decreases n - i,
        {
            if bytes32_eq(&self.entries[i].0, k) {
                proof {
                    lemma_map_of_entry(self.entries@, i as int);
                }
                return Some(&self.entries[i].1);
            }
            i += 1;
        }
        proof {
            lemma_map_of_contains(self.entries@, k@);
        }
        None
    }

    /// Binds a key to a record, replacing any prior binding; each account's
    /// escrow changes by exactly the deposit that arrived minus the one that
    /// left.
    pub fn insert(&mut self, k: Commitment, rec: EscrowRecord)
        requires
            old(self).wf(),
        ensures
            final(self).wf(),
            final(self)@ == old(self)@.insert(k@, rec@),
            forall|a: Seq<u8>|
                #[trigger] final(self).account_sum(a) == old(self).account_sum(a) - (
                if old(self)@.contains_key(k@) {
                    contribution(old(self)@[k@], a)
                } else {
                    0
                }) + contribution(rec@, a),
    {
        let n = self.entries.len();
        let mut i: usize = 0;
        while i < n
            invariant
                n == self.entries@.len(),
                i <= n,
                self == old(self),
                self.wf(),
                forall|j: int| 0 <= j < i ==> #[trigger] self.entries@[j].0@ != k@,
            decreases n - i,
        {
            if bytes32_eq(&self.entries[i].0, &k) {
                let ghost s_old = self.entries@;
                proof {
                    lemma_map_of_entry(s_old, i as int);
                }
                self.entries[i].1 = rec;
                proof {
                    assert(self.entries@ == s_old.update(i as int, (s_old[i as int].0, rec)));
                    lemma_map_of_update(s_old, i as int, (s_old[i as int].0, rec));
                    assert forall|a: Seq<u8>|
                        #[trigger] self.account_sum(a) == old(self).account_sum(a) - contribution(
                            old(self)@[k@],
                            a,
                        ) + contribution(rec@, a) by {
                        lemma_sum_update(s_old, i as int, (s_old[i as int].0, rec), a);
                    }
                }
                return ;
            }
            i += 1;
        }
        let ghost s_old = self.entries@;
        self.entries.push((k, rec));
        proof {
            lemma_map_of_contains(s_old, k@);
            lemma_map_of_push(s_old, (k, rec));
            assert forall|a: Seq<u8>|
                #[trigger] self.account_sum(a) == old(self).account_sum(a) + contribution(
                    rec@,
                    a,
                ) by {
                assert(self.entries@.drop_last() =~= s_old);
            }
        }
    }

    /// Removes a key's binding; the depositing account's escrow shrinks by
    /// exactly the deposit removed.
    pub fn remove(&mut self, k: &Commitment)
        requires
            old(self).wf(),
            old(self)@.contains_key(k@),
        ensures
            final(self).wf(),
            final(self)@ == old(self)@.remove(k@),
            forall|a: Seq<u8>|
                #[trigger] final(self).account_sum(a) == old(self).account_sum(a) - contribution(
                    old(self)@[k@],
                    a,
                ),
    {
        let n = self.entries.len();
        let mut i: usize = 0;
        while i < n
            invariant
                n == self.entries@.len(),
                i <= n,
                self == old(self),
                self.wf(),
                old(self)@.contains_key(k@),
                forall|j: int| 0 <= j < i ==> #[trigger] self.entries@[j].0@ != k@,
            decreases n - i,
        {
            if bytes32_eq(&self.entries[i].0, k) {
                let ghost s_old = self.entries@;
                proof {
                    lemma_map_of_entry(s_old, i as int);
                }
                self.entries.remove(i);
                proof {
                    lemma_map_of_remove(s_old, i as int);
                    assert forall|a: Seq<u8>|
                        #[trigger] self.account_sum(a) == old(self).account_sum(a) - contribution(
                            old(self)@[k@],
                            a,
                        ) by {
                        lemma_sum_remove(s_old, i as int, a);
                    }
                }
                return ;
            }
            i += 1;
        }
        proof {
            lemma_map_of_contains(self.entries@, k@);
            assert(false);
        }
    }
}

} // verus!
