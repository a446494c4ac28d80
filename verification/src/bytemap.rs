//! An executable store from 32-byte keys to values, abstracted as a finite map
//! from key bytes to value views. The registry keeps its reservations and its
//! per-account locked balances in such stores.

use vstd::prelude::*;

use crate::assoc::{
    lemma_map_of_contains, lemma_map_of_entry, lemma_map_of_push, lemma_map_of_update, map_of,
    unique_keys,
};
use crate::types::{bytes32_eq, Commitment};

verus! {

/// A store from 32-byte keys to values, kept as an association list whose keys
/// are pairwise distinct.
pub struct ByteMap<V> {
    entries: Vec<(Commitment, V)>,
}

impl<V: View> View for ByteMap<V> {
    type V = Map<Seq<u8>, V::V>;

    closed spec fn view(&self) -> Map<Seq<u8>, V::V> {
        map_of(self.entries@)
    }
}

impl<V: View> ByteMap<V> {
    /// The stored keys are pairwise distinct.
    pub closed spec fn wf(self) -> bool {
        unique_keys(self.entries@)
    }

    /// An empty store.
    pub fn new() -> (r: Self)
        ensures
            r.wf(),
            r@ == Map::<Seq<u8>, V::V>::empty(),
    {
        let r = ByteMap { entries: Vec::new() };
        proof {
            assert(r@ =~= Map::<Seq<u8>, V::V>::empty());
        }
        r
    }

    /// Looks a key up.
    pub fn get(&self, k: &Commitment) -> (r: Option<&V>)
        requires
            self.wf(),
        ensures
            match r {
                Some(v) => self@.contains_key(k@) && v@ == self@[k@],
                None => !self@.contains_key(k@),
            },
    {
        let n = self.entries.len();
        let mut i: usize = 0;
        while i < n
            invariant
                n == self.entries@.len(),
                i <= n,
                self.wf(),
                forall|j: int| 0 <= j < i ==> #[trigger] self.entries@[j].0@ != k@,
            decreases n - i,
        {
            if bytes32_eq(&self.entries[i].0, k) {
                proof {
                    lemma_map_of_entry(self.entries@, i as int);
                }
                return Some(&self.entries[i].1);
            }
            i += 1;
        }
        proof {
            lemma_map_of_contains(self.entries@, k@);
        }
        None
    }

    /// Binds a key to a value, replacing any prior binding.
    pub fn insert(&mut self, k: Commitment, v: V)
        requires
            old(self).wf(),
        ensures
            final(self).wf(),
            final(self)@ == old(self)@.insert(k@, v@),
    {
        let n = self.entries.len();
        let mut i: usize = 0;
        while i < n
            invariant
                n == self.entries@.len(),
                i <= n,
                self == old(self),
                self.wf(),
                forall|j: int| 0 <= j < i ==> #[trigger] self.entries@[j].0@ != k@,
            decreases n - i,
        {
            if bytes32_eq(&self.entries[i].0, &k) {
                let ghost s_old = self.entries@;
                self.entries[i].1 = v;
                proof {
                    assert(self.entries@ == s_old.update(i as int, (s_old[i as int].0, v)));
                    lemma_map_of_update(s_old, i as int, (s_old[i as int].0, v));
                }
                return ;
            }
            i += 1;
        }
        let ghost s_old = self.entries@;
        self.entries.push((k, v));
        proof {
            lemma_map_of_push(s_old, (k, v));
        }
    }
}

} // verus!
