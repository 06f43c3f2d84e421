use vstd::prelude::*;

verus! {

/// A map from text keys to values that remembers the order in which keys
/// were first stored. It stands for the keyed maps the contract keeps in
/// its storage.
pub struct Table<V> {
    keys: Vec<String>,
    vals: Vec<V>,
    contents: Ghost<Map<Seq<char>, V>>,
}

impl<V> View for Table<V> {
    type V = Map<Seq<char>, V>;

    closed spec fn view(&self) -> Map<Seq<char>, V> {
        self.contents@
    }
}

impl<V> Table<V> {
    /// The keys, in the order they were first stored.
    pub closed spec fn key_seq(&self) -> Seq<Seq<char>> {
        self.keys@.map_values(|k: String| k@)
    }

    pub closed spec fn wf(&self) -> bool {
        &&& self.keys.len() == self.vals.len()
        &&& forall|i: int, j: int|
            0 <= i < j < self.keys.len() ==> #[trigger] self.keys@[i]@ != #[trigger] self.keys@[j]@
        &&& forall|i: int|
            0 <= i < self.keys.len() ==> self.contents@.contains_key(#[trigger] self.keys@[i]@)
                && self.contents@[self.keys@[i]@] == self.vals@[i]
        &&& forall|k: Seq<char>|
            #[trigger] self.contents@.contains_key(k) ==> exists|i: int|
                0 <= i < self.keys.len() && #[trigger] self.keys@[i]@ == k
    }

    /// What holds of every well-formed table: its keys are those it maps,
    /// each once.
    pub proof fn lemma_keys(&self)
        requires
            self.wf(),
        ensures
            forall|k: Seq<char>| #[trigger]
                self@.contains_key(k) <==> self.key_seq().contains(k),
            self.key_seq().no_duplicates(),
            self@.dom().finite(),
            self@.dom().len() == self.key_seq().len(),
    {
        assert forall|k: Seq<char>| #[trigger] self@.contains_key(k) implies self.key_seq().contains(
            k,
        ) by {
            let i = choose|i: int| 0 <= i < self.keys.len() && #[trigger] self.keys@[i]@ == k;
            assert(self.key_seq()[i] == k);
        }
        assert forall|k: Seq<char>| self.key_seq().contains(k) implies #[trigger] self@.contains_key(
            k,
        ) by {
            let i = choose|i: int| 0 <= i < self.key_seq().len() && self.key_seq()[i] == k;
            assert(self.keys@[i]@ == k);
        }
        assert forall|i: int, j: int|
            0 <= i < self.key_seq().len() && 0 <= j < self.key_seq().len() && i != j implies
            self.key_seq()[i] != self.key_seq()[j] by {
            if i < j {
                assert(self.keys@[i]@ != self.keys@[j]@);
            } else {
                assert(self.keys@[j]@ != self.keys@[i]@);
            }
        }
        assert(self@.dom() =~= self.key_seq().to_set());
        self.key_seq().unique_seq_to_set();
    }

    pub fn new() -> (t: Self)
        ensures
            t.wf(),
            t@ == Map::<Seq<char>, V>::empty(),
            t.key_seq() == Seq::<Seq<char>>::empty(),
    {
        let t = Table { keys: Vec::new(), vals: Vec::new(), contents: Ghost(Map::empty()) };
        assert(t.key_seq() =~= Seq::<Seq<char>>::empty());
        t
    }

    pub fn len(&self) -> (n: usize)
        requires
            self.wf(),
        ensures
            n == self.key_seq().len(),
    {
        self.keys.len()
    }

    /// Position of `key` in the key order, if it is stored.
    fn find(&self, key: &String) -> (r: Option<usize>)
        requires
            self.wf(),
        ensures
            match r {
                Some(i) => i < self.keys.len() && self.keys@[i as int]@ == key@
                    && self@.contains_key(key@) && self@[key@] == self.vals@[i as int],
                None => !self@.contains_key(key@),
            },
    {
        let mut i: usize = 0;
        while i < self.keys.len()
            invariant
                self.wf(),
                i <= self.keys.len(),
                forall|j: int| 0 <= j < i ==> self.keys@[j]@ != key@,
            decreases self.keys.len() - i,
        {
            if self.keys[i] == *key {
                return Some(i);
            }
            i = i + 1;
        }
        None
    }

    pub fn contains_key(&self, key: &String) -> (b: bool)
        requires
            self.wf(),
        ensures
            b == self@.contains_key(key@),
    {
        self.find(key).is_some()
    }

    pub fn get(&self, key: &String) -> (r: Option<&V>)
        requires
            self.wf(),
        ensures
            r is Some <==> self@.contains_key(key@),
            r matches Some(v) ==> *v == self@[key@],
    {
        match self.find(key) {
            Some(i) => Some(&self.vals[i]),
            None => None,
        }
    }

    /// The keys, in the order they were first stored.
    pub fn keys(&self) -> (ks: Vec<String>)
        ensures
            ks@.map_values(|k: String| k@) == self.key_seq(),
    {
        let mut ks: Vec<String> = Vec::new();
        let mut i: usize = 0;
        while i < self.keys.len()
            invariant
                i <= self.keys@.len(),
                ks@.len() == i,
                forall|j: int| 0 <= j < i ==> #[trigger] ks@[j]@ == self.keys@[j]@,
            decreases self.keys@.len() - i,
        {
            ks.push(self.keys[i].clone());
            i = i + 1;
        }
        assert(ks@.map_values(|k: String| k@) =~= self.key_seq());
        ks
    }

    pub fn key_at(&self, i: usize) -> (k: &String)
        requires
            self.wf(),
            i < self.key_seq().len(),
        ensures
            k@ == self.key_seq()[i as int],
    {
        &self.keys[i]
    }

    pub fn value_at(&self, i: usize) -> (v: &V)
        requires
            self.wf(),
            i < self.key_seq().len(),
        ensures
            self@.contains_key(self.key_seq()[i as int]),
            *v == self@[self.key_seq()[i as int]],
    {
        &self.vals[i]
    }

    /// Replaces the value under the `i`-th key.
    pub fn set_value_at(&mut self, i: usize, val: V)
        requires
            old(self).wf(),
            i < old(self).key_seq().len(),
        ensures
            final(self).wf(),
            final(self)@ == old(self)@.insert(old(self).key_seq()[i as int], val),
            final(self).key_seq() == old(self).key_seq(),
    {
        let ghost k = self.keys@[i as int]@;
        let ghost v = val;
        self.vals.set(i, val);
        self.contents = Ghost(self.contents@.insert(k, v));
        assert forall|j: int| 0 <= j < self.keys.len() implies self.contents@.contains_key(
            #[trigger] self.keys@[j]@,
        ) && self.contents@[self.keys@[j]@] == self.vals@[j] by {
            if j != i {
                if j < i {
                    assert(self.keys@[j]@ != self.keys@[i as int]@);
                } else {
                    assert(self.keys@[i as int]@ != self.keys@[j]@);
                }
            }
        }
        assert forall|k2: Seq<char>| #[trigger]
            self.contents@.contains_key(k2) implies exists|j: int|
            0 <= j < self.keys.len() && #[trigger] self.keys@[j]@ == k2 by {
            if k2 == k {
                assert(self.keys@[i as int]@ == k2);
            } else {
                assert(old(self).contents@.contains_key(k2));
            }
        }
    }

    /// Stores `val` under `key`, replacing what was there. A new key goes
    /// to the end of the key order; an existing key keeps its place.
    pub fn set(&mut self, key: String, val: V)
        requires
            old(self).wf(),
        ensures
            final(self).wf(),
            final(self)@ == old(self)@.insert(key@, val),
            old(self)@.contains_key(key@) ==> final(self).key_seq() == old(self).key_seq(),
            !old(self)@.contains_key(key@) ==> final(self).key_seq() == old(self).key_seq().push(
                key@,
            ),
    {
        let ghost k = key@;
        let ghost v = val;
        match self.find(&key) {
            Some(i) => {
                self.vals.set(i, val);
                self.contents = Ghost(self.contents@.insert(k, v));
                assert forall|k2: Seq<char>| #[trigger]
                    self.contents@.contains_key(k2) implies exists|j: int|
                    0 <= j < self.keys.len() && #[trigger] self.keys@[j]@ == k2 by {
                    if k2 == k {
                        assert(self.keys@[i as int]@ == k2);
                    } else {
                        assert(old(self).contents@.contains_key(k2));
                    }
                }
            },
            None => {
                self.keys.push(key);
                self.vals.push(val);
                self.contents = Ghost(self.contents@.insert(k, v));
                assert forall|k2: Seq<char>| #[trigger]
                    self.contents@.contains_key(k2) implies exists|j: int|
                    0 <= j < self.keys.len() && #[trigger] self.keys@[j]@ == k2 by {
                    if k2 == k {
                        assert(self.keys@[self.keys.len() - 1]@ == k2);
                    } else {
                        assert(old(self).contents@.contains_key(k2));
                        let j = choose|j: int|
                            0 <= j < old(self).keys.len() && #[trigger] old(self).keys@[j]@ == k2;
                        assert(self.keys@[j]@ == k2);
                    }
                }
                assert(self.key_seq() =~= old(self).key_seq().push(k));
            },
        }
    }

    /// A copy of the table, keys in the same order.
    pub fn copy(&self) -> (t: Self) where V: Copy
        requires
            self.wf(),
        ensures
            t.wf(),
            t@ == self@,
            t.key_seq() == self.key_seq(),
    {
        let mut keys: Vec<String> = Vec::new();
        let mut vals: Vec<V> = Vec::new();
        let mut i: usize = 0;
        while i < self.keys.len()
            invariant
                self.wf(),
                i <= self.keys.len(),
                keys.len() == i,
                vals.len() == i,
                forall|j: int| 0 <= j < i ==> #[trigger] keys@[j] == self.keys@[j],
                forall|j: int| 0 <= j < i ==> #[trigger] vals@[j] == self.vals@[j],
            decreases self.keys.len() - i,
        {
            keys.push(self.keys[i].clone());
            let v: &V = &self.vals[i];
            vals.push(*v);
            i = i + 1;
        }
        assert(keys@ =~= self.keys@);
        assert(vals@ =~= self.vals@);
        Table { keys, vals, contents: Ghost(self.contents@) }
    }

    /// Removes `key`, reporting whether it was stored.
    pub fn remove(&mut self, key: &String) -> (removed: bool)
        requires
            old(self).wf(),
        ensures
            final(self).wf(),
            final(self)@ == old(self)@.remove(key@),
            removed == old(self)@.contains_key(key@),
    {
        match self.find(key) {
            Some(i) => {
                let ghost k = key@;
                self.keys.remove(i);
                self.vals.remove(i);
                self.contents = Ghost(self.contents@.remove(k));
                assert forall|j: int| 0 <= j < self.keys.len() implies self.contents@.contains_key(
                    #[trigger] self.keys@[j]@,
                ) && self.contents@[self.keys@[j]@] == self.vals@[j] by {
                    if j < i {
                        assert(old(self).keys@[j]@ != old(self).keys@[i as int]@);
                    } else {
                        assert(old(self).keys@[i as int]@ != old(self).keys@[j + 1]@);
                    }
                }
                assert forall|k2: Seq<char>| #[trigger]
                    self.contents@.contains_key(k2) implies exists|j: int|
                    0 <= j < self.keys.len() && #[trigger] self.keys@[j]@ == k2 by {
                    let j = choose|j: int|
                        0 <= j < old(self).keys.len() && #[trigger] old(self).keys@[j]@ == k2;
                    if j < i {
                        assert(self.keys@[j]@ == k2);
                    } else {
                        assert(self.keys@[j - 1]@ == k2);
                    }
                }
                assert forall|a: int, b: int|
                    0 <= a < b < self.keys.len() implies #[trigger] self.keys@[a]@
                    != #[trigger] self.keys@[b]@ by {
                    let oa = if a < i { a } else { a + 1 };
                    let ob = if b < i { b } else { b + 1 };
                    assert(old(self).keys@[oa]@ != old(self).keys@[ob]@);
                }
                true
            },
            None => {
                assert(self@ =~= old(self)@.remove(key@));
                false
            },
        }
    }
}

} // verus!
