//! A map keyed by plain values, kept in the order in which the keys first came.
use vstd::prelude::*;

verus! {

/// A value that can be compared exactly.
pub trait PlainKey: Copy {
    fn same_key(&self, other: &Self) -> (r: bool)
        ensures
            r == (*self == *other),
    ;
}

/// A map from plain keys to values. No two entries have the same key.
pub struct EntryMap<K: PlainKey, V> {
    entries: Vec<(K, V)>,
}

impl<K: PlainKey, V> EntryMap<K, V> {
    #[verifier::type_invariant]
    closed spec fn distinct(&self) -> bool {
        forall|i: int, j: int|
            0 <= i < j < self.entries@.len() ==> self.entries@[i].0 != self.entries@[j].0
    }

    pub closed spec fn position(&self, key: K) -> Option<int> {
        if exists|i: int| 0 <= i < self.entries@.len() && self.entries@[i].0 == key {
            Some(choose|i: int| 0 <= i < self.entries@.len() && self.entries@[i].0 == key)
        } else {
            None
        }
    }

    /// The value stored under each key.
    pub closed spec fn view(&self) -> Map<K, V> {
        Map::new(
            |k: K| self.position(k) is Some,
            |k: K| self.entries@[self.position(k)->0].1,
        )
    }

    pub fn new() -> (r: Self)
        ensures
            r@ == Map::<K, V>::empty(),
    {
        let r = EntryMap { entries: Vec::new() };
        assert(r@ =~= Map::<K, V>::empty());
        r
    }

    fn find(&self, key: K) -> (r: Option<usize>)
        ensures
            match r {
                Some(i) => i < self.entries@.len() && self.entries@[i as int].0 == key
                    && self.position(key) == Some(i as int),
                None => self.position(key) is None,
            },
    {
        proof {
            use_type_invariant(self);
        }
        let n: usize = self.entries.len();
        for i in 0..n
            invariant
                n == self.entries@.len(),
                self.distinct(),
                forall|j: int| 0 <= j < i ==> self.entries@[j].0 != key,
        {
            if self.entries[i].0.same_key(&key) {
                return Some(i);
            }
        }
        None
    }

    /// The value stored under `key`.
    pub fn get(&self, key: K) -> (r: Option<&V>)
        ensures
            match r {
                Some(v) => self@.contains_key(key) && self@[key] == *v,
                None => !self@.contains_key(key),
            },
    {
        match self.find(key) {
            Some(i) => Some(&self.entries[i].1),
            None => None,
        }
    }

    /// The keys, in the order in which they first came.
    pub closed spec fn keys(&self) -> Seq<K> {
        self.entries@.map_values(|e: (K, V)| e.0)
    }

    /// How many keys there are.
    pub fn len(&self) -> (r: usize)
        ensures
            r == self.keys().len(),
            self.keys().no_duplicates(),
            forall|k: K| #[trigger] self.keys().contains(k) <==> self@.contains_key(k),
    {
        proof {
            use_type_invariant(self);
            assert forall|k: K| #[trigger] self.keys().contains(k) <==> self@.contains_key(k) by {
                if self.keys().contains(k) {
                    let i = choose|i: int| 0 <= i < self.keys().len() && self.keys()[i] == k;
                    assert(self.entries@[i].0 == k);
                }
                if self@.contains_key(k) {
                    assert(self.keys()[self.position(k)->0] == k);
                }
            }
        }
        self.entries.len()
    }

    /// The entry at a position, for walking over all of them.
    pub fn entry_at(&self, i: usize) -> (r: Option<(K, &V)>)
        ensures
            match r {
                Some((k, v)) => i < self.keys().len() && k == self.keys()[i as int]
                    && self@.contains_key(k) && self@[k] == *v,
                None => i >= self.keys().len(),
            },
    {
        proof {
            use_type_invariant(self);
        }
        if i < self.entries.len() {
            proof {
                let key = self.entries@[i as int].0;
                assert(self.position(key) == Some(i as int));
            }
            let entry = &self.entries[i];
            Some((entry.0, &entry.1))
        } else {
            None
        }
    }

    /// Stores `value` under `key`, in place of what was stored there.
    pub fn insert(&mut self, key: K, value: V)
        ensures
            final(self)@ == old(self)@.insert(key, value),
    {
        proof {
            use_type_invariant(&*self);
        }
        let ghost before = *self;
        match self.find(key) {
            Some(i) => {
                let mut entries: Vec<(K, V)> = Vec::new();
                std::mem::swap(&mut entries, &mut self.entries);
                entries.set(i, (key, value));
                self.entries = entries;
                proof {
                    assert forall|k: K| #[trigger] self.position(k) == before.position(k) by {
                        lemma_positions_agree(self.entries@, before.entries@, k);
                    }
                    assert(self@ =~= before@.insert(key, value));
                }
            },
            None => {
                let mut entries: Vec<(K, V)> = Vec::new();
                std::mem::swap(&mut entries, &mut self.entries);
                let ghost at = entries@.len() as int;
                assert(forall|j: int|
                    0 <= j < before.entries@.len() ==> before.entries@[j].0 != key);
                entries.push((key, value));
                self.entries = entries;
                proof {
                    assert(self.entries@[at].0 == key);
                    assert forall|k: K| k != key implies #[trigger] self.position(k)
                        == before.position(k) by {
                        if before.position(k) is Some {
                            let b = before.position(k)->0;
                            assert(self.entries@[b].0 == k);
                        }
                    }
                    assert(self@ =~= before@.insert(key, value));
                }
            },
        }
    }
}

proof fn lemma_positions_agree<K, V>(a: Seq<(K, V)>, b: Seq<(K, V)>, k: K)
    requires
        a.len() == b.len(),
        forall|i: int| 0 <= i < a.len() ==> a[i].0 == b[i].0,
        forall|i: int, j: int| 0 <= i < j < a.len() ==> a[i].0 != a[j].0,
    ensures
        (exists|i: int| 0 <= i < a.len() && a[i].0 == k) == (exists|i: int|
            0 <= i < b.len() && b[i].0 == k),
        (exists|i: int| 0 <= i < a.len() && a[i].0 == k) ==> (choose|i: int|
            0 <= i < a.len() && a[i].0 == k) == (choose|i: int| 0 <= i < b.len() && b[i].0 == k),
{
    if exists|i: int| 0 <= i < a.len() && a[i].0 == k {
        let i = choose|i: int| 0 <= i < a.len() && a[i].0 == k;
        assert(b[i].0 == k);
        let j = choose|i: int| 0 <= i < b.len() && b[i].0 == k;
        assert(a[j].0 == k);
    }
    if exists|i: int| 0 <= i < b.len() && b[i].0 == k {
        let i = choose|i: int| 0 <= i < b.len() && b[i].0 == k;
        assert(a[i].0 == k);
    }
}

} // verus!
