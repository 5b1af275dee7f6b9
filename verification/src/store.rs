//! Persistent contract storage keyed by 32-byte identifiers.
//!
//! A `PersistentMap` holds one value per identifier, as the persistent
//! storage of a contract does for keys such as `Commitment(id)`: `has`,
//! `get` and `set` behave as the map operations they are named after.

use vstd::prelude::*;

verus! {

/// Whether the bytes of two 32-byte identifiers are the same.
pub fn same_id(a: &[u8; 32], b: &[u8; 32]) -> (r: bool)
    ensures
        r == (a@ == b@),
{
    let mut i: usize = 0;
    while i < 32
        invariant
            i <= 32,
            a@.len() == 32,
            b@.len() == 32,
            forall|k: int| 0 <= k < i ==> a@[k] == b@[k],
        decreases 32 - i,
    {
        if a[i] != b[i] {
            return false;
        }
        i = i + 1;
    }
    assert(a@ =~= b@);
    true
}

/// A map from 32-byte identifiers to values, one value per identifier.
pub struct PersistentMap<V> {
    ids: Vec<[u8; 32]>,
    values: Vec<V>,
}

impl<V: View> PersistentMap<V> {
    /// The identifiers and values line up, and no identifier occurs twice.
    pub closed spec fn wf(&self) -> bool {
        &&& self.ids@.len() == self.values@.len()
        &&& forall|i: int, j: int|
            0 <= i < self.ids@.len() && 0 <= j < self.ids@.len() && i != j ==> #[trigger] self.ids@[i]@
                != #[trigger] self.ids@[j]@
    }

    spec fn holds_at(&self, k: Seq<u8>, i: int) -> bool {
        0 <= i < self.ids@.len() && self.ids@[i]@ == k
    }

    spec fn index_of(&self, k: Seq<u8>) -> int {
        choose|i: int| self.holds_at(k, i)
    }

    /// The stored entries, identifier bytes to value.
    pub closed spec fn entries(&self) -> Map<Seq<u8>, V::V> {
        Map::new(
            |k: Seq<u8>| exists|i: int| self.holds_at(k, i),
            |k: Seq<u8>| self.values@[self.index_of(k)]@,
        )
    }

    proof fn lemma_unique(&self, k: Seq<u8>, i: int)
        requires
            self.wf(),
            self.holds_at(k, i),
        ensures
            self.index_of(k) == i,
            self.entries().dom().contains(k),
            self.entries()[k] == self.values@[i]@,
    {
        let j = self.index_of(k);
        assert(self.holds_at(k, j));
        if i != j {
            assert(self.ids@[i]@ != self.ids@[j]@);
        }
    }

    /// An empty map.
    pub fn new() -> (m: Self)
        ensures
            m.wf(),
            m.entries() == Map::<Seq<u8>, V::V>::empty(),
    {
        let m = PersistentMap { ids: Vec::new(), values: Vec::new() };
        assert(m.entries() =~= Map::<Seq<u8>, V::V>::empty());
        m
    }

    fn position(&self, id: &[u8; 32]) -> (r: Option<usize>)
        requires
            self.wf(),
        ensures
            r matches Some(i) ==> self.holds_at(id@, i as int),
            r is None <==> !self.entries().dom().contains(id@),
    {
        let mut i: usize = 0;
        while i < self.ids.len()
            invariant
                self.wf(),
                i <= self.ids@.len(),
                forall|k: int| 0 <= k < i ==> self.ids@[k]@ != id@,
            decreases self.ids@.len() - i,
        {
            if same_id(&self.ids[i], id) {
                assert(self.holds_at(id@, i as int));
                return Some(i);
            }
            i = i + 1;
        }
        assert(!self.entries().dom().contains(id@)) by {
            if exists|k: int| self.holds_at(id@, k) {
                let k = choose|k: int| self.holds_at(id@, k);
                assert(self.ids@[k]@ != id@);
            }
        }
        None
    }

    /// Whether a value is stored under `id`.
    pub fn has(&self, id: &[u8; 32]) -> (r: bool)
        requires
            self.wf(),
        ensures
            r == self.entries().dom().contains(id@),
    {
        match self.position(id) {
            Some(_) => true,
            None => false,
        }
    }

    /// The value stored under `id`, if any.
    pub fn get(&self, id: &[u8; 32]) -> (r: Option<&V>)
        requires
            self.wf(),
        ensures
            r is Some <==> self.entries().dom().contains(id@),
            r matches Some(v) ==> v@ == self.entries()[id@],
    {
        match self.position(id) {
            Some(i) => {
                proof {
                    self.lemma_unique(id@, i as int);
                }
                Some(&self.values[i])
            },
            None => None,
        }
    }

    /// Stores `value` under `id`, replacing what was stored there.
    pub fn set(&mut self, id: [u8; 32], value: V)
        requires
            old(self).wf(),
        ensures
            final(self).wf(),
            final(self).entries() == old(self).entries().insert(id@, value@),
    {
        let ghost before = *self;
        match self.position(&id) {
            Some(i) => {
                self.values.set(i, value);
                assert forall|k: Seq<u8>| #[trigger] self.entries().dom().contains(k) implies before.entries().insert(id@, value@).dom().contains(k)
                    && self.entries()[k] == before.entries().insert(id@, value@)[k] by {
                    let j = choose|j: int| self.holds_at(k, j);
                    self.lemma_unique(k, j);
                    before.lemma_unique(k, j);
                    if k == id@ {
                        before.lemma_unique(k, i as int);
                    }
                    assert(before.entries().insert(id@, value@).dom().contains(k));
                }
                assert forall|k: Seq<u8>| #[trigger] before.entries().insert(id@, value@).dom().contains(k) implies self.entries().dom().contains(k) by {
                    if k == id@ {
                        assert(self.holds_at(k, i as int));
                    } else {
                        let j = choose|j: int| before.holds_at(k, j);
                        assert(self.holds_at(k, j));
                    }
                }
                assert(self.entries() =~= before.entries().insert(id@, value@));
            },
            None => {
                self.ids.push(id);
                self.values.push(value);
                let ghost n = before.ids@.len() as int;
                assert(self.holds_at(id@, n));
                assert forall|i: int, j: int|
                    0 <= i < self.ids@.len() && 0 <= j < self.ids@.len() && i != j implies #[trigger] self.ids@[i]@
                        != #[trigger] self.ids@[j]@ by {
                    if i < n && j < n {
                        assert(before.ids@[i] == self.ids@[i]);
                        assert(before.ids@[j] == self.ids@[j]);
                    } else if i < n {
                        assert(before.holds_at(self.ids@[i]@, i));
                    } else {
                        assert(before.holds_at(self.ids@[j]@, j));
                    }
                }
                assert forall|k: Seq<u8>| #[trigger] self.entries().dom().contains(k) implies before.entries().insert(id@, value@).dom().contains(k)
                    && self.entries()[k] == before.entries().insert(id@, value@)[k] by {
                    let j = choose|j: int| self.holds_at(k, j);
                    self.lemma_unique(k, j);
                    if j < n {
                        assert(before.holds_at(k, j));
                        before.lemma_unique(k, j);
                    }
                    assert(before.entries().insert(id@, value@).dom().contains(k));
                }
                assert forall|k: Seq<u8>| #[trigger] before.entries().insert(id@, value@).dom().contains(k) implies self.entries().dom().contains(k) by {
                    if k != id@ {
                        let j = choose|j: int| before.holds_at(k, j);
                        assert(self.holds_at(k, j));
                    }
                }
                assert(self.entries() =~= before.entries().insert(id@, value@));
            },
        }
    }
}

} // verus!
