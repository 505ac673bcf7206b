//! A small map keyed by text, kept as two parallel vectors in which no key
//! occurs twice.

use vstd::prelude::*;

verus! {

/// Executable equality of two string slices.
pub fn same_text(a: &str, b: &str) -> (r: bool)
    ensures
        r == (a@ == b@),
{
    let x = String::from_str(a);
    let y = String::from_str(b);
    x == y
}

/// A finite map from text to `V`.
#[derive(Debug)]
pub struct StrMap<V> {
    keys: Vec<String>,
    vals: Vec<V>,
}

impl<V> View for StrMap<V> {
    type V = Map<Seq<char>, V>;

    closed spec fn view(&self) -> Map<Seq<char>, V> {
        Map::new(|k: Seq<char>| self.has(k), |k: Seq<char>| self.vals[self.slot(k)])
    }
}

impl<V> StrMap<V> {
    /// The two vectors run in parallel and no key occurs twice.
    pub closed spec fn wf(&self) -> bool {
        &&& self.keys.len() == self.vals.len()
        &&& forall|i: int, j: int|
            0 <= i < j < self.keys.len() ==> self.keys[i]@ != self.keys[j]@
    }

    closed spec fn has(&self, k: Seq<char>) -> bool {
        exists|i: int| 0 <= i < self.keys.len() && (#[trigger] self.keys[i])@ == k
    }

    closed spec fn slot(&self, k: Seq<char>) -> int {
        choose|i: int| 0 <= i < self.keys.len() && (#[trigger] self.keys[i])@ == k
    }

    /// The keys in the order in which they were first inserted.
    pub closed spec fn key_seq(&self) -> Seq<Seq<char>> {
        Seq::new(self.keys.len() as nat, |i: int| self.keys[i]@)
    }

    proof fn lemma_slot(&self, i: int)
        requires
            self.wf(),
            0 <= i < self.keys.len(),
        ensures
            self.has(self.keys[i]@),
            self.slot(self.keys[i]@) == i,
            self@.contains_key(self.keys[i]@),
            self@[self.keys[i]@] == self.vals[i],
    {
        let k = self.keys[i]@;
        assert(self.has(k));
        let j = self.slot(k);
        assert(0 <= j < self.keys.len() && self.keys[j]@ == k);
        if j < i {
            assert(self.keys[j]@ != self.keys[i]@);
        } else if i < j {
            assert(self.keys[i]@ != self.keys[j]@);
        }
    }

    /// Every key of the sequence is a key of the map, and the other way round;
    /// the sequence holds no key twice.
    pub proof fn lemma_key_seq(&self)
        requires
            self.wf(),
        ensures
            self.key_seq().no_duplicates(),
            self.key_seq().len() == self@.dom().len(),
            self@.dom().finite(),
            forall|k: Seq<char>| self.key_seq().contains(k) <==> self@.contains_key(k),
    {
        let ks = self.key_seq();
        assert forall|k: Seq<char>| ks.contains(k) <==> self@.contains_key(k) by {
            if ks.contains(k) {
                let i = choose|i: int| 0 <= i < ks.len() && ks[i] == k;
                assert(self.keys[i]@ == k);
                assert(self.has(k));
            }
            if self@.contains_key(k) {
                let i = self.slot(k);
                assert(ks[i] == k);
            }
        }
        assert(ks.no_duplicates()) by {
            assert forall|i: int, j: int| 0 <= i < ks.len() && 0 <= j < ks.len() && i != j implies ks[i]
                != ks[j] by {
                if i < j {
                    assert(self.keys[i]@ != self.keys[j]@);
                } else {
                    assert(self.keys[j]@ != self.keys[i]@);
                }
            }
        }
        ks.unique_seq_to_set();
        assert(ks.to_set() =~= self@.dom());
        vstd::seq_lib::seq_to_set_is_finite(ks);
    }

    /// An empty map.
    pub fn new() -> (m: Self)
        ensures
            m.wf(),
            m@ == Map::<Seq<char>, V>::empty(),
            m.key_seq() == Seq::<Seq<char>>::empty(),
    {
        let m = StrMap { keys: Vec::new(), vals: Vec::new() };
        assert(m@ =~= Map::<Seq<char>, V>::empty());
        assert(m.key_seq() =~= Seq::<Seq<char>>::empty());
        m
    }

    /// The number of keys.
    pub fn len(&self) -> (n: usize)
        requires
            self.wf(),
        ensures
            n == self.key_seq().len(),
            n == self@.dom().len(),
    {
        proof {
            self.lemma_key_seq();
        }
        self.keys.len()
    }

    /// The key at a position of the insertion order.
    pub fn key_at(&self, i: usize) -> (k: &String)
        requires
            self.wf(),
            i < self.key_seq().len(),
        ensures
            k@ == self.key_seq()[i as int],
            self@.contains_key(k@),
    {
        proof {
            self.lemma_slot(i as int);
        }
        &self.keys[i]
    }

    /// The value at a position of the insertion order.
    pub fn value_at(&self, i: usize) -> (v: &V)
        requires
            self.wf(),
            i < self.key_seq().len(),
        ensures
            self@.contains_key(self.key_seq()[i as int]),
            *v == self@[self.key_seq()[i as int]],
    {
        proof {
            self.lemma_slot(i as int);
        }
        &self.vals[i]
    }

    fn position(&self, k: &str) -> (r: Option<usize>)
        requires
            self.wf(),
        ensures
            match r {
                Some(i) => i < self.keys.len() && self.keys[i as int]@ == k@ && self.slot(k@) == i
                    && self.has(k@),
                None => !self.has(k@),
            },
    {
        let mut i: usize = 0;
        while i < self.keys.len()
            invariant
                self.wf(),
                i <= self.keys.len(),
                forall|j: int| 0 <= j < i ==> (#[trigger] self.keys[j])@ != k@,
            decreases self.keys.len() - i,
        {
            if same_text(self.keys[i].as_str(), k) {
                proof {
                    self.lemma_slot(i as int);
                }
                return Some(i);
            }
            i += 1;
        }
        None
    }

    /// Whether the map holds the key.
    pub fn contains_key(&self, k: &str) -> (r: bool)
        requires
            self.wf(),
        ensures
            r == self@.contains_key(k@),
    {
        self.position(k).is_some()
    }

    /// The value stored under the key, if there is one.
    pub fn get(&self, k: &str) -> (r: Option<&V>)
        requires
            self.wf(),
        ensures
            match r {
                Some(v) => self@.contains_key(k@) && *v == self@[k@],
                None => !self@.contains_key(k@),
            },
    {
        match self.position(k) {
            Some(i) => Some(&self.vals[i]),
            None => None,
        }
    }

    /// Stores the value under the key, in place of what was there.
    pub fn insert(&mut self, k: String, v: V)
        requires
            old(self).wf(),
        ensures
            final(self).wf(),
            final(self)@ == old(self)@.insert(k@, v),
            final(self).key_seq() == if old(self)@.contains_key(k@) {
                old(self).key_seq()
            } else {
                old(self).key_seq().push(k@)
            },
    {
        let ghost before = *self;
        match self.position(k.as_str()) {
            Some(i) => {
                self.vals.set(i, v);
                assert(self.key_seq() =~= before.key_seq());
                assert forall|q: Seq<char>| self.has(q) == before.has(q) by {
                    if before.has(q) {
                        let j = before.slot(q);
                        assert(self.keys[j]@ == q);
                    }
                    if self.has(q) {
                        let j = self.slot(q);
                        assert(before.keys[j]@ == q);
                    }
                }
                assert forall|q: Seq<char>| self.has(q) implies self@[q] == before@.insert(k@, v)[q] by {
                    let j = self.slot(q);
                    self.lemma_slot(j);
                    before.lemma_slot(j);
                }
                assert(self@ =~= before@.insert(k@, v));
            },
            None => {
                self.keys.push(k);
                self.vals.push(v);
                assert(self.wf()) by {
                    assert forall|a: int, b: int| 0 <= a < b < self.keys.len() implies self.keys[a]@
                        != self.keys[b]@ by {
                        if b == self.keys.len() - 1 {
                            assert(before.keys[a]@ != k@);
                        } else {
                            assert(before.keys[a]@ != before.keys[b]@);
                        }
                    }
                }
                assert(self.key_seq() =~= before.key_seq().push(k@));
                assert forall|q: Seq<char>| self.has(q) == (before.has(q) || q == k@) by {
                    if before.has(q) {
                        let j = before.slot(q);
                        assert(self.keys[j]@ == q);
                    }
                    if q == k@ {
                        assert(self.keys[self.keys.len() - 1]@ == q);
                    }
                    if self.has(q) {
                        let j = self.slot(q);
                        if j < before.keys.len() {
                            assert(before.keys[j]@ == q);
                        }
                    }
                }
                assert forall|q: Seq<char>| self.has(q) implies self@[q] == before@.insert(k@, v)[q] by {
                    let j = self.slot(q);
                    self.lemma_slot(j);
                    if j < before.keys.len() {
                        before.lemma_slot(j);
                    }
                }
                assert(self@ =~= before@.insert(k@, v));
            },
        }
    }

    /// Takes the key out of the map and hands back what was stored under it.
    pub fn remove(&mut self, k: &str) -> (r: Option<V>)
        requires
            old(self).wf(),
        ensures
            final(self).wf(),
            final(self)@ == old(self)@.remove(k@),
            match r {
                Some(v) => old(self)@.contains_key(k@) && v == old(self)@[k@],
                None => !old(self)@.contains_key(k@),
            },
            final(self).key_seq() == if old(self)@.contains_key(k@) {
                old(self).key_seq().remove(old(self).key_seq().index_of(k@))
            } else {
                old(self).key_seq()
            },
    {
        let ghost before = *self;
        match self.position(k) {
            Some(i) => {
                let _gone = self.keys.remove(i);
                let v = self.vals.remove(i);
                proof {
                    before.lemma_slot(i as int);
                    assert(self.wf()) by {
                        assert forall|a: int, b: int| 0 <= a < b < self.keys.len() implies self.keys[a]@
                            != self.keys[b]@ by {
                            let a0 = if a < i { a } else { a + 1 };
                            let b0 = if b < i { b } else { b + 1 };
                            assert(before.keys[a0]@ != before.keys[b0]@);
                        }
                    }
                    assert forall|q: Seq<char>| self.has(q) == (before.has(q) && q != k@) by {
                        if before.has(q) && q != k@ {
                            let j = before.slot(q);
                            let j1 = if j < i { j } else { j - 1 };
                            assert(self.keys[j1]@ == q);
                        }
                        if self.has(q) {
                            let j = self.slot(q);
                            let j0 = if j < i { j } else { j + 1 };
                            assert(before.keys[j0]@ == q);
                            if j0 < i {
                                assert(before.keys[j0]@ != before.keys[i as int]@);
                            } else {
                                assert(before.keys[i as int]@ != before.keys[j0]@);
                            }
                        }
                    }
                    assert forall|q: Seq<char>| self.has(q) implies self@[q] == before@.remove(k@)[q] by {
                        let j = self.slot(q);
                        self.lemma_slot(j);
                        let j0 = if j < i { j } else { j + 1 };
                        before.lemma_slot(j0);
                    }
                    assert(self@ =~= before@.remove(k@));
                    before.lemma_index_of(i as int);
                    assert(self.key_seq() =~= before.key_seq().remove(i as int));
                }
                Some(v)
            },
            None => {
                proof {
                    assert(self@ =~= before@.remove(k@));
                }
                None
            },
        }
    }

    /// In the key sequence a key is found at its own position.
    proof fn lemma_index_of(&self, i: int)
        requires
            self.wf(),
            0 <= i < self.keys.len(),
        ensures
            self.key_seq().index_of(self.keys[i]@) == i,
    {
        let ks = self.key_seq();
        let k = self.keys[i]@;
        assert(ks[i] == k);
        let j = ks.index_of(k);
        assert(0 <= j < ks.len() && ks[j] == k);
        if j < i {
            assert(self.keys[j]@ != self.keys[i]@);
        } else if i < j {
            assert(self.keys[i]@ != self.keys[j]@);
        }
    }
}

impl Clone for StrMap<String> {
    fn clone(&self) -> (m: Self)
        ensures
            self.wf() ==> m.wf() && m@ == self@ && m.key_seq() == self.key_seq(),
    {
        let mut keys: Vec<String> = Vec::new();
        let mut vals: Vec<String> = Vec::new();
        let mut i: usize = 0;
        if self.keys.len() != self.vals.len() {
            return StrMap { keys, vals };
        }
        while i < self.keys.len()
            invariant
                self.keys.len() == self.vals.len(),
                i <= self.keys.len(),
                keys.len() == i,
                vals.len() == i,
                forall|j: int| 0 <= j < i ==> keys[j] == self.keys[j] && vals[j] == self.vals[j],
            decreases self.keys.len() - i,
        {
            keys.push(self.keys[i].clone());
            vals.push(self.vals[i].clone());
            i += 1;
        }
        let m = StrMap { keys, vals };
        proof {
            assert(m.keys@ =~= self.keys@);
            assert(m.vals@ =~= self.vals@);
            if self.wf() {
                assert(m.key_seq() =~= self.key_seq());
                assert(m@ =~= self@);
            }
        }
        m
    }
}

} // verus!
