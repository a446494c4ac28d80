//! The claim ledger's store: domain keys bound to their claims, abstracted as a
//! finite map from key characters to claim views.

use vstd::prelude::*;

use crate::assoc::{
    lemma_map_of_contains, lemma_map_of_entry, lemma_map_of_push, lemma_map_of_update, map_of,
    unique_keys,
};
use crate::types::{DomainData, DomainDataView};

verus! {

/// The claim ledger's store, kept as an association list whose keys are
/// pairwise distinct.
pub struct DomainMap {
    entries: Vec<(String, DomainData)>,
}

impl View for DomainMap {
    type V = Map<Seq<char>, DomainDataView>;

    closed spec fn view(&self) -> Map<Seq<char>, DomainDataView> {
        map_of(self.entries@)
    }
}

impl DomainMap {
    /// The stored keys are pairwise distinct.
    pub closed spec fn wf(self) -> bool {
        unique_keys(self.entries@)
    }

    /// An empty store.
    pub fn new() -> (r: Self)
        ensures
            r.wf(),
            r@ == Map::<Seq<char>, DomainDataView>::empty(),
    {
        let r = DomainMap { entries: Vec::new() };
        proof {
            assert(r@ =~= Map::<Seq<char>, DomainDataView>::empty());
        }
        r
    }

    /// Looks a domain up.
    pub fn get(&self, k: &String) -> (r: Option<&DomainData>)
        requires
            self.wf(),
        ensures
            match r {
                Some(v) => self@.contains_key(k@) && v@ == self@[k@],
                None => !self@.contains_key(k@),
            },
    {
        let n = self.entries.len();
        let mut i: usize = 0;
        while i < n
            invariant
                n == self.entries@.len(),
                i <= n,
                self.wf(),
                forall|j: int| 0 <= j < i ==> #[trigger] self.entries@[j].0@ != k@,
            decreases n - i,
        {
            if self.entries[i].0 == *k {
                proof {
                    lemma_map_of_entry(self.entries@, i as int);
                }
                return Some(&self.entries[i].1);
            }
            i += 1;
        }
        proof {
            lemma_map_of_contains(self.entries@, k@);
        }
        None
    }

    /// Binds a domain to a claim, replacing any prior claim.
    pub fn insert(&mut self, k: String, v: DomainData)
        requires
            old(self).wf(),
        ensures
            final(self).wf(),
            final(self)@ == old(self)@.insert(k@, v@),
    {
        let n = self.entries.len();
        let mut i: usize = 0;
        while i < n
            invariant
                n == self.entries@.len(),
                i <= n,
                self == old(self),
                self.wf(),
                forall|j: int| 0 <= j < i ==> #[trigger] self.entries@[j].0@ != k@,
        decreases n - i,
        {
            if self.entries[i].0 == k {
                let ghost s_old = self.entries@;
                self.entries[i].1 = v;
                proof {
                    assert(self.entries@ == s_old.update(i as int, (s_old[i as int].0, v)));
                    lemma_map_of_update(s_old, i as int, (s_old[i as int].0, v));
                }
                return ;
            }
            i += 1;
        }
        let ghost s_old = self.entries@;
        self.entries.push((k, v));
        proof {
            lemma_map_of_push(s_old, (k, v));
        }
    }

    /// Moves an existing claim's expiration, keeping its owner and metadata.
    pub fn set_expiration(&mut self, k: &String, expiration_date: u64)
        requires
            old(self).wf(),
            old(self)@.contains_key(k@),
        ensures
            final(self).wf(),
            final(self)@ == old(self)@.insert(
                k@,
                DomainDataView {
                    owner: old(self)@[k@].owner,
                    expiration_date: expiration_date,
                    metadata: old(self)@[k@].metadata,
                },
            ),
    {
        let n = self.entries.len();
        let mut i: usize = 0;
        while i < n
            invariant
                n == self.entries@.len(),
                i <= n,
                self == old(self),
                self.wf(),
                old(self)@.contains_key(k@),
                forall|j: int| 0 <= j < i ==> #[trigger] self.entries@[j].0@ != k@,
            decreases n - i,
        {
            if self.entries[i].0 == *k {
                let ghost s_old = self.entries@;
                proof {
                    lemma_map_of_entry(s_old, i as int);
                }
                self.entries[i].1.expiration_date = expiration_date;
                proof {
                    let e = (s_old[i as int].0, self.entries@[i as int].1);
                    assert(self.entries@ == s_old.update(i as int, e));
                    lemma_map_of_update(s_old, i as int, e);
                }
                return ;
            }
            i += 1;
        }
        proof {
            lemma_map_of_contains(self.entries@, k@);
            assert(false);
        }
    }
}

} // verus!
