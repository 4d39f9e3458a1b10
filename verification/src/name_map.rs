//! A map keyed by names, kept in the order in which the names first came.
use vstd::prelude::*;
use crate::text::same_text;

verus! {

/// A map from text to values. No two entries have the same name.
pub struct NameMap<V> {
    entries: Vec<(String, V)>,
}

impl<V> NameMap<V> {
    #[verifier::type_invariant]
    closed spec fn distinct(&self) -> bool {
        forall|i: int, j: int|
            0 <= i < j < self.entries@.len() ==> self.entries@[i].0@ != self.entries@[j].0@
    }

    pub closed spec fn position(&self, name: Seq<char>) -> Option<int> {
        if exists|i: int| 0 <= i < self.entries@.len() && self.entries@[i].0@ == name {
            Some(choose|i: int| 0 <= i < self.entries@.len() && self.entries@[i].0@ == name)
        } else {
            None
        }
    }

    /// The value stored under each name.
    pub closed spec fn view(&self) -> Map<Seq<char>, V> {
        Map::new(
            |k: Seq<char>| self.position(k) is Some,
            |k: Seq<char>| self.entries@[self.position(k)->0].1,
        )
    }

    pub fn new() -> (r: Self)
        ensures
            r@ == Map::<Seq<char>, V>::empty(),
    {
        let r = NameMap { entries: Vec::new() };
        assert(r@ =~= Map::<Seq<char>, V>::empty());
        r
    }

    fn find(&self, name: &str) -> (r: Option<usize>)
        ensures
            match r {
                Some(i) => i < self.entries@.len() && self.entries@[i as int].0@ == name@
                    && self.position(name@) == Some(i as int),
                None => self.position(name@) is None,
            },
    {
        proof {
            use_type_invariant(self);
        }
        let n: usize = self.entries.len();
        for i in 0..n
            invariant
                n == self.entries@.len(),
                self.distinct(),
                forall|j: int| 0 <= j < i ==> self.entries@[j].0@ != name@,
        {
            if same_text(&self.entries[i].0, name) {
                assert(self.entries@[i as int].0@ == name@);
                return Some(i);
            }
        }
        None
    }

    /// The value stored under `name`.
    pub fn get(&self, name: &str) -> (r: Option<&V>)
        ensures
            match r {
                Some(v) => self@.contains_key(name@) && self@[name@] == *v,
                None => !self@.contains_key(name@),
            },
    {
        match self.find(name) {
            Some(i) => Some(&self.entries[i].1),
            None => None,
        }
    }

    /// Stores `value` under `name`, in place of what was stored there.
    pub fn insert(&mut self, name: String, value: V)
        ensures
            final(self)@ == old(self)@.insert(name@, value),
    {
        proof {
            use_type_invariant(&*self);
        }
        let ghost before = *self;
        match self.find(&name) {
            Some(i) => {
                let mut entries: Vec<(String, V)> = Vec::new();
                std::mem::swap(&mut entries, &mut self.entries);
                let ghost key = name@;
                entries.set(i, (name, value));
                self.entries = entries;
                proof {
                    assert forall|k: Seq<char>| #[trigger]
                        self.position(k) == before.position(k) by {
                        lemma_positions_agree(self.entries@, before.entries@, k);
                    }
                    assert(self@ =~= before@.insert(key, value));
                }
            },
            None => {
                let mut entries: Vec<(String, V)> = Vec::new();
                std::mem::swap(&mut entries, &mut self.entries);
                let ghost key = name@;
                let ghost at = entries@.len() as int;
                assert(forall|j: int|
                    0 <= j < before.entries@.len() ==> before.entries@[j].0@ != key);
                entries.push((name, value));
                self.entries = entries;
                proof {
                    assert(self.entries@[at].0@ == key);
                    assert forall|k: Seq<char>| k != key implies #[trigger] self.position(k)
                        == before.position(k) by {
                        if before.position(k) is Some {
                            let b = before.position(k)->0;
                            assert(self.entries@[b].0@ == k);
                        }
                    }
                    assert(self@ =~= before@.insert(key, value));
                }
            },
        }
    }
}

proof fn lemma_positions_agree<V>(a: Seq<(String, V)>, b: Seq<(String, V)>, k: Seq<char>)
    requires
        a.len() == b.len(),
        forall|i: int| 0 <= i < a.len() ==> a[i].0@ == b[i].0@,
        forall|i: int, j: int| 0 <= i < j < a.len() ==> a[i].0@ != a[j].0@,
    ensures
        (exists|i: int| 0 <= i < a.len() && a[i].0@ == k) == (exists|i: int|
            0 <= i < b.len() && b[i].0@ == k),
        (exists|i: int| 0 <= i < a.len() && a[i].0@ == k) ==> (choose|i: int|
            0 <= i < a.len() && a[i].0@ == k) == (choose|i: int| 0 <= i < b.len() && b[i].0@ == k),
{
    if exists|i: int| 0 <= i < a.len() && a[i].0@ == k {
        let i = choose|i: int| 0 <= i < a.len() && a[i].0@ == k;
        assert(b[i].0@ == k);
        let j = choose|i: int| 0 <= i < b.len() && b[i].0@ == k;
        assert(a[j].0@ == k);
    }
    if exists|i: int| 0 <= i < b.len() && b[i].0@ == k {
        let i = choose|i: int| 0 <= i < b.len() && b[i].0@ == k;
        assert(a[i].0@ == k);
    }
}

} // verus!
