//! A finite map keyed by package or tap names, kept in insertion order.
use vstd::prelude::*;

verus! {

broadcast use vstd::seq_lib::group_seq_properties;

/// In a list without repeats, `index_of` finds the one position of an item.
proof fn lemma_index_of_distinct<A>(s: Seq<A>, i: int)
    requires
        s.no_duplicates(),
        0 <= i < s.len(),
    ensures
        s.index_of(s[i]) == i,
{
    assert(s.contains(s[i]));
    let j = s.index_of(s[i]);
    assert(0 <= j < s.len() && s[j] == s[i]);
}

spec fn keys_of<V>(es: Seq<(String, V)>) -> Seq<Seq<char>> {
    es.map_values(|e: (String, V)| e.0@)
}

/// A map from names to values, stored as a list of entries with distinct keys.
#[derive(Debug)]
pub struct NameMap<V> {
    entries: Vec<(String, V)>,
}

impl<V> NameMap<V> {
    /// The keys, in the order in which they were first inserted.
    pub closed spec fn key_list(&self) -> Seq<Seq<char>> {
        keys_of(self.entries@)
    }

    /// Keys never repeat.
    #[verifier::type_invariant]
    pub closed spec fn distinct_keys(&self) -> bool {
        self.key_list().no_duplicates()
    }
}

impl<V: View> NameMap<V> {
    closed spec fn value_of(&self, k: Seq<char>) -> V::V {
        self.entries@[self.key_list().index_of(k)].1@
    }

    proof fn lemma_value_at(&self, i: int)
        requires
            self.distinct_keys(),
            0 <= i < self.entries@.len(),
        ensures
            self.key_list()[i] == self.entries@[i].0@,
            self@.contains_key(self.entries@[i].0@),
            self@[self.entries@[i].0@] == self.entries@[i].1@,
    {
        let k = self.entries@[i].0@;
        assert(self.key_list()[i] == k);
        assert(self.key_list().contains(k));
        lemma_index_of_distinct(self.key_list(), i);
    }

    proof fn lemma_len(&self)
        requires
            self.distinct_keys(),
        ensures
            self@.len() == self.entries@.len(),
            self@.dom().finite(),
    {
        self.key_list().unique_seq_to_set();
    }

    /// An empty map.
    pub fn new() -> (r: Self)
        ensures
            r@ == Map::<Seq<char>, V::V>::empty(),
            r.key_list() == Seq::<Seq<char>>::empty(),
    {
        let r = NameMap { entries: Vec::new() };
        assert(r.key_list() =~= Seq::<Seq<char>>::empty());
        assert(r@ =~= Map::<Seq<char>, V::V>::empty());
        r
    }

    /// Position of the entry whose key is `k`.
    fn find(&self, k: &str) -> (r: Option<usize>)
        ensures
            match r {
                Some(i) => i < self.entries@.len() && self.entries@[i as int].0@ == k@,
                None => !self@.contains_key(k@),
            },
    {
        let key = k.to_owned();
        let mut i: usize = 0;
        while i < self.entries.len()
            invariant
                key@ == k@,
                i <= self.entries@.len(),
                forall|j: int| 0 <= j < i ==> self.entries@[j].0@ != k@,
            decreases self.entries@.len() - i,
        {
            if self.entries[i].0 == key {
                return Some(i);
            }
            i = i + 1;
        }
        assert(!self.key_list().contains(k@));
        None
    }

    /// The number of entries.
    pub fn len(&self) -> (r: usize)
        ensures
            r == self@.len(),
            r == self.key_list().len(),
            self.key_list().no_duplicates(),
            forall|k: Seq<char>| self@.contains_key(k) <==> self.key_list().contains(k),
    {
        proof {
            use_type_invariant(self);
            self.lemma_len();
        }
        self.entries.len()
    }

    /// Whether the map has no entry.
    pub fn is_empty(&self) -> (r: bool)
        ensures
            r == (self@.len() == 0),
            r == (self@ == Map::<Seq<char>, V::V>::empty()),
    {
        proof {
            use_type_invariant(self);
            self.lemma_len();
            if self.entries@.len() > 0 {
                self.lemma_value_at(0);
            } else {
                assert(self@ =~= Map::<Seq<char>, V::V>::empty());
            }
        }
        self.entries.len() == 0
    }

    /// Whether `k` has an entry.
    pub fn contains_key(&self, k: &str) -> (r: bool)
        ensures
            r == self@.contains_key(k@),
    {
        proof {
            use_type_invariant(self);
        }
        match self.find(k) {
            Some(i) => {
                proof {
                    self.lemma_value_at(i as int);
                }
                true
            },
            None => false,
        }
    }

    /// The value of `k`, if it has one.
    pub fn get(&self, k: &str) -> (r: Option<&V>)
        ensures
            match r {
                Some(v) => self@.contains_key(k@) && self@[k@] == v@,
                None => !self@.contains_key(k@),
            },
    {
        proof {
            use_type_invariant(self);
        }
        match self.find(k) {
            Some(i) => {
                proof {
                    self.lemma_value_at(i as int);
                }
                Some(&self.entries[i].1)
            },
            None => None,
        }
    }

    /// Sets the value of `k` to `v`, adding `k` at the end of the key order if it is new.
    pub fn insert(&mut self, k: String, v: V)
        ensures
            final(self)@ == old(self)@.insert(k@, v@),
    {
        proof {
            use_type_invariant(&*self);
        }
        let ghost k0 = k@;
        let ghost pre = *self;
        match self.find(k.as_str()) {
            Some(i) => {
                let mut es = Vec::new();
                std::mem::swap(&mut self.entries, &mut es);
                es.set(i, (k, v));
                assert(keys_of(es@) =~= keys_of(pre.entries@));
                self.entries = es;
                proof {
                    assert(self.key_list() =~= pre.key_list());
                    pre.lemma_value_at(i as int);
                    self.lemma_value_at(i as int);
                    assert forall|key: Seq<char>| #[trigger] self@.contains_key(key) implies
                        self@[key] == pre@.insert(k0, v@)[key] by {
                        assert(self.key_list().contains(key));
                        let j = self.key_list().index_of(key);
                        lemma_index_of_distinct(self.key_list(), j);
                        self.lemma_value_at(j);
                        if j != i {
                            pre.lemma_value_at(j);
                        }
                    }
                    assert(self@.dom() =~= pre@.insert(k0, v@).dom());
                    assert(self@ =~= pre@.insert(k0, v@));
                }
            },
            None => {
                let mut es = Vec::new();
                std::mem::swap(&mut self.entries, &mut es);
                es.push((k, v));
                proof {
                    assert(keys_of(es@) =~= pre.key_list().push(k0));
                    assert(!pre.key_list().contains(k0));
                    assert(keys_of(es@).no_duplicates()) by {
                        let ks = keys_of(es@);
                        assert forall|a: int, b: int| 0 <= a < ks.len() && 0 <= b < ks.len()
                            && a != b implies ks[a] != ks[b] by {
                            if a < pre.key_list().len() && b < pre.key_list().len() {
                            } else if a < pre.key_list().len() {
                                assert(pre.key_list()[a] == ks[a]);
                            } else {
                                assert(pre.key_list()[b] == ks[b]);
                            }
                        }
                    }
                }
                self.entries = es;
                proof {
                    assert forall|key: Seq<char>| #[trigger] self@.contains_key(key) implies
                        self@[key] == pre@.insert(k0, v@)[key] by {
                        let j = self.key_list().index_of(key);
                        lemma_index_of_distinct(self.key_list(), j);
                        self.lemma_value_at(j);
                        if key != k0 {
                            pre.lemma_value_at(j);
                        }
                    }
                    assert(self@ =~= pre@.insert(k0, v@));
                }
            },
        }
    }

    /// Removes `k`, handing back its value if it was present.
    pub fn remove(&mut self, k: &str) -> (r: Option<V>)
        ensures
            final(self)@ == old(self)@.remove(k@),
            match r {
                Some(v) => old(self)@.contains_key(k@) && old(self)@[k@] == v@,
                None => !old(self)@.contains_key(k@),
            },
    {
        proof {
            use_type_invariant(&*self);
        }
        let ghost pre = *self;
        match self.find(k) {
            Some(i) => {
                proof {
                    pre.lemma_value_at(i as int);
                }
                let mut es = Vec::new();
                std::mem::swap(&mut self.entries, &mut es);
                let e = es.remove(i);
                proof {
                    let ks = keys_of(es@);
                    let old_ks = pre.key_list();
                    assert(ks =~= old_ks.remove(i as int));
                    assert forall|a: int, b: int| 0 <= a < ks.len() && 0 <= b < ks.len()
                        && a != b implies ks[a] != ks[b] by {
                        let oa = if a < i { a } else { a + 1 };
                        let ob = if b < i { b } else { b + 1 };
                        assert(ks[a] == old_ks[oa] && ks[b] == old_ks[ob]);
                    }
                }
                self.entries = es;
                proof {
                    assert(self.key_list() =~= pre.key_list().remove(i as int));
                    assert forall|key: Seq<char>| #[trigger] self@.contains_key(key) implies
                        self@[key] == pre@.remove(k@)[key] by {
                        let j = self.key_list().index_of(key);
                        lemma_index_of_distinct(self.key_list(), j);
                        self.lemma_value_at(j);
                        if j < i {
                            pre.lemma_value_at(j);
                        } else {
                            pre.lemma_value_at(j + 1);
                        }
                    }
                    assert(self@ =~= pre@.remove(k@));
                }
                Some(e.1)
            },
            None => {
                assert(pre@ =~= pre@.remove(k@));
                None
            },
        }
    }

    /// The keys, in key order.
    pub fn keys(&self) -> (r: Vec<String>)
        ensures
            r@.map_values(|s: String| s@) == self.key_list(),
    {
        let mut r: Vec<String> = Vec::new();
        let mut i: usize = 0;
        while i < self.entries.len()
            invariant
                i <= self.entries@.len(),
                r@.len() == i,
                forall|j: int| 0 <= j < i ==> (#[trigger] r@[j])@ == self.entries@[j].0@,
            decreases self.entries@.len() - i,
        {
            r.push(self.entries[i].0.clone());
            i = i + 1;
        }
        assert(r@.map_values(|s: String| s@) =~= self.key_list());
        r
    }

    /// The entry at position `i` of the key order.
    pub fn entry_at(&self, i: usize) -> (r: (&String, &V))
        requires
            i < self.key_list().len(),
        ensures
            r.0@ == self.key_list()[i as int],
            self@.contains_key(r.0@),
            self@[r.0@] == r.1@,
    {
        proof {
            use_type_invariant(self);
            self.lemma_value_at(i as int);
        }
        (&self.entries[i].0, &self.entries[i].1)
    }
}

impl NameMap<String> {
    /// A copy with the same entries in the same order.
    pub fn copied(&self) -> (r: Self)
        ensures
            r@ == self@,
            r.key_list() == self.key_list(),
    {
        proof {
            use_type_invariant(self);
        }
        let mut es: Vec<(String, String)> = Vec::new();
        let mut i: usize = 0;
        while i < self.entries.len()
            invariant
                self.distinct_keys(),
                i <= self.entries@.len(),
                es@.len() == i,
                forall|j: int| 0 <= j < i ==> (#[trigger] es@[j]).0@ == self.entries@[j].0@
                    && es@[j].1@ == self.entries@[j].1@,
            decreases self.entries@.len() - i,
        {
            es.push((self.entries[i].0.clone(), self.entries[i].1.clone()));
            i = i + 1;
        }
        assert(keys_of(es@) =~= self.key_list());
        let r = NameMap { entries: es };
        proof {
            assert forall|key: Seq<char>| #[trigger] r@.contains_key(key) implies r@[key]
                == self@[key] by {
                assert(r.key_list().contains(key));
                let j = r.key_list().index_of(key);
                lemma_index_of_distinct(r.key_list(), j);
                r.lemma_value_at(j);
                self.lemma_value_at(j);
            }
            assert(r@ =~= self@);
        }
        r
    }
}

impl<V: View> View for NameMap<V> {
    type V = Map<Seq<char>, V::V>;

    closed spec fn view(&self) -> Map<Seq<char>, V::V> {
        self.key_list().to_set().mk_map(|k: Seq<char>| self.value_of(k))
    }
}

} // verus!
