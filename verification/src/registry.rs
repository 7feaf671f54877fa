use vstd::prelude::*;

verus! {

/// No two entries of `s` carry the same key.
pub open spec fn keys_unique<V>(s: Seq<(String, V)>) -> bool {
    forall|i: int, j: int|
        0 <= i < s.len() && 0 <= j < s.len() && i != j ==> #[trigger] s[i].0@ != #[trigger] s[j].0@
}

/// Some entry of `s` carries the key `k`.
pub open spec fn has_key<V>(s: Seq<(String, V)>, k: Seq<char>) -> bool {
    exists|i: int| 0 <= i < s.len() && #[trigger] s[i].0@ == k
}

/// The position of the entry that carries `k` (meaningful when `has_key(s, k)`).
pub open spec fn key_index<V>(s: Seq<(String, V)>, k: Seq<char>) -> int {
    choose|i: int| 0 <= i < s.len() && #[trigger] s[i].0@ == k
}

/// The finite map that a sequence of keyed entries stands for.
pub open spec fn entries_map<V>(s: Seq<(String, V)>) -> Map<Seq<char>, V> {
    Map::new(|k: Seq<char>| has_key(s, k), |k: Seq<char>| s[key_index(s, k)].1)
}

/// In a sequence with unique keys, the entry that carries a key is found at its own position.
pub proof fn lemma_key_index<V>(s: Seq<(String, V)>, i: int)
    requires
        keys_unique(s),
        0 <= i < s.len(),
    ensures
        has_key(s, s[i].0@),
        key_index(s, s[i].0@) == i,
        entries_map(s).dom().contains(s[i].0@),
        entries_map(s)[s[i].0@] == s[i].1,
{
    assert(s[i].0@ == s[i].0@);
    let j = key_index(s, s[i].0@);
    assert(0 <= j < s.len() && s[j].0@ == s[i].0@);
}

/// Appending an entry with a fresh key adds that key to the map.
pub proof fn lemma_push_fresh<V>(s: Seq<(String, V)>, k: String, v: V)
    requires
        keys_unique(s),
        !has_key(s, k@),
    ensures
        keys_unique(s.push((k, v))),
        entries_map(s.push((k, v))) == entries_map(s).insert(k@, v),
{
    let t = s.push((k, v));
    assert forall|i: int, j: int|
        0 <= i < t.len() && 0 <= j < t.len() && i != j implies #[trigger] t[i].0@ != #[trigger] t[j].0@ by {
        if i < s.len() && j < s.len() {
            assert(t[i] == s[i] && t[j] == s[j]);
        } else if i < s.len() {
            assert(t[i] == s[i]);
        } else {
            assert(t[j] == s[j]);
        }
    }
    let m = entries_map(s).insert(k@, v);
    assert forall|key: Seq<char>| #[trigger] entries_map(t).dom().contains(key) <==> m.dom().contains(key) by {
        if has_key(s, key) {
            let i = choose|i: int| 0 <= i < s.len() && #[trigger] s[i].0@ == key;
            assert(t[i] == s[i]);
        }
        if has_key(t, key) && key != k@ {
            let i = choose|i: int| 0 <= i < t.len() && #[trigger] t[i].0@ == key;
            assert(i < s.len());
            assert(t[i] == s[i]);
        }
        if key == k@ {
            assert(t[s.len() as int].0@ == key);
        }
    }
    assert forall|key: Seq<char>| #[trigger] entries_map(t).dom().contains(key) implies entries_map(t)[key] == m[key] by {
        if key == k@ {
            lemma_key_index(t, s.len() as int);
        } else {
            let i = choose|i: int| 0 <= i < t.len() && #[trigger] t[i].0@ == key;
            assert(i < s.len());
            assert(t[i] == s[i]);
            lemma_key_index(t, i);
            lemma_key_index(s, i);
        }
    }
    assert(entries_map(t) =~= m);
}

/// Removing the entry at position `i` removes its key from the map.
pub proof fn lemma_remove_at<V>(s: Seq<(String, V)>, i: int)
    requires
        keys_unique(s),
        0 <= i < s.len(),
    ensures
        keys_unique(s.remove(i)),
        entries_map(s.remove(i)) == entries_map(s).remove(s[i].0@),
        !has_key(s.remove(i), s[i].0@),
{
    let t = s.remove(i);
    let k = s[i].0@;
    assert forall|a: int| 0 <= a < t.len() implies #[trigger] t[a] == s[if a < i { a } else { a + 1 }] by {}
    assert forall|a: int, b: int|
        0 <= a < t.len() && 0 <= b < t.len() && a != b implies #[trigger] t[a].0@ != #[trigger] t[b].0@ by {
        let a2 = if a < i { a } else { a + 1 };
        let b2 = if b < i { b } else { b + 1 };
        assert(t[a] == s[a2] && t[b] == s[b2]);
    }
    assert(!has_key(t, k)) by {
        if has_key(t, k) {
            let a = choose|a: int| 0 <= a < t.len() && #[trigger] t[a].0@ == k;
            let a2 = if a < i { a } else { a + 1 };
            assert(t[a] == s[a2]);
        }
    }
    let m = entries_map(s).remove(k);
    assert forall|key: Seq<char>| #[trigger] entries_map(t).dom().contains(key) <==> m.dom().contains(key) by {
        if has_key(t, key) {
            let a = choose|a: int| 0 <= a < t.len() && #[trigger] t[a].0@ == key;
            let a2 = if a < i { a } else { a + 1 };
            assert(t[a] == s[a2]);
        }
        if has_key(s, key) && key != k {
            let a = choose|a: int| 0 <= a < s.len() && #[trigger] s[a].0@ == key;
            assert(a != i);
            let a1 = if a < i { a } else { a - 1 };
            assert(t[a1] == s[a]);
        }
    }
    assert forall|key: Seq<char>| #[trigger] entries_map(t).dom().contains(key) implies entries_map(t)[key] == m[key] by {
        let a = choose|a: int| 0 <= a < t.len() && #[trigger] t[a].0@ == key;
        let a2 = if a < i { a } else { a + 1 };
        assert(t[a] == s[a2]);
        lemma_key_index(t, a);
        lemma_key_index(s, a2);
    }
    assert(entries_map(t) =~= m);
}

/// A table of values found again by a string key, in which each key occurs at most once.
pub struct Registry<V> {
    entries: Vec<(String, V)>,
}

impl<V> View for Registry<V> {
    type V = Map<Seq<char>, V>;

    closed spec fn view(&self) -> Map<Seq<char>, V> {
        entries_map(self.entries@)
    }
}

impl<V> Registry<V> {
    /// Each key occurs at most once.
    #[verifier::type_invariant]
    closed spec fn wf(&self) -> bool {
        keys_unique(self.entries@)
    }

    /// The entries in their stored order.
    pub closed spec fn entry_seq(&self) -> Seq<(String, V)> {
        self.entries@
    }

    /// An empty table.
    pub fn new() -> (r: Self)
        ensures
            r@ == Map::<Seq<char>, V>::empty(),
            r.entry_seq().len() == 0,
    {
        let r = Registry { entries: Vec::new() };
        assert(r@ =~= Map::<Seq<char>, V>::empty());
        r
    }

    /// The number of keys in the table; the stored entries carry distinct keys and stand for
    /// the table's map.
    pub fn len(&self) -> (n: usize)
        ensures
            n == self.entry_seq().len(),
            keys_unique(self.entry_seq()),
            self@ == entries_map(self.entry_seq()),
    {
        proof {
            use_type_invariant(&*self);
        }
        self.entries.len()
    }

    /// The position of the entry with key `key`, if there is one.
    pub fn find(&self, key: &String) -> (r: Option<usize>)
        ensures
            match r {
                Some(i) => i < self.entry_seq().len() && self.entry_seq()[i as int].0@ == key@,
                None => !self@.dom().contains(key@),
            },
            r is Some <==> self@.dom().contains(key@),
    {
        proof {
            use_type_invariant(&*self);
        }
        let mut i: usize = 0;
        while i < self.entries.len()
            invariant
                i <= self.entries@.len(),
                forall|j: int| 0 <= j < i ==> #[trigger] self.entries@[j].0@ != key@,
            decreases self.entries@.len() - i,
        {
            if self.entries[i].0 == *key {
                assert(self.entries@[i as int].0@ == key@);
                return Some(i);
            }
            i = i + 1;
        }
        None
    }

    /// Whether the table has an entry for `key`.
    pub fn contains_key(&self, key: &String) -> (b: bool)
        ensures
            b == self@.dom().contains(key@),
    {
        self.find(key).is_some()
    }

    /// The value stored under `key`, if any.
    pub fn get(&self, key: &String) -> (r: Option<&V>)
        ensures
            match r {
                Some(v) => self@.dom().contains(key@) && *v == self@[key@],
                None => !self@.dom().contains(key@),
            },
    {
        proof {
            use_type_invariant(&*self);
        }
        match self.find(key) {
            Some(i) => {
                proof {
                    lemma_key_index(self.entries@, i as int);
                }
                Some(&self.entries[i].1)
            },
            None => None,
        }
    }

    /// Stores `value` under `key`, handing back the value it replaces.
    pub fn insert(&mut self, key: String, value: V) -> (old_value: Option<V>)
        ensures
            final(self)@ == old(self)@.insert(key@, value),
            match old_value {
                Some(v) => old(self)@.dom().contains(key@) && v == old(self)@[key@],
                None => !old(self)@.dom().contains(key@),
            },
    {
        proof {
            use_type_invariant(&*self);
        }
        let old_value = self.remove(&key);
        proof {
            use_type_invariant(&*self);
            lemma_push_fresh(self.entries@, key, value);
        }
        let mut entries: Vec<(String, V)> = Vec::new();
        std::mem::swap(&mut entries, &mut self.entries);
        entries.push((key, value));
        self.entries = entries;
        proof {
            assert(self@ =~= old(self)@.insert(key@, value));
        }
        old_value
    }

    /// Takes the entry for `key` out of the table, handing back its value.
    pub fn remove(&mut self, key: &String) -> (removed: Option<V>)
        ensures
            final(self)@ == old(self)@.remove(key@),
            match removed {
                Some(v) => old(self)@.dom().contains(key@) && v == old(self)@[key@],
                None => !old(self)@.dom().contains(key@),
            },
            !has_key(final(self).entry_seq(), key@),
    {
        proof {
            use_type_invariant(&*self);
        }
        match self.find(key) {
            Some(i) => {
                proof {
                    lemma_key_index(self.entries@, i as int);
                    lemma_remove_at(self.entries@, i as int);
                }
                let mut entries: Vec<(String, V)> = Vec::new();
                std::mem::swap(&mut entries, &mut self.entries);
                let (_k, v) = entries.remove(i);
                self.entries = entries;
                Some(v)
            },
            None => {
                proof {
                    assert(self@.remove(key@) =~= self@);
                }
                None
            },
        }
    }

    /// Removes every entry.
    pub fn clear(&mut self)
        ensures
            final(self)@ == Map::<Seq<char>, V>::empty(),
    {
        self.entries = Vec::new();
        proof {
            assert(self@ =~= Map::<Seq<char>, V>::empty());
        }
    }

    /// The keys of the table, each once.
    pub fn keys(&self) -> (ks: Vec<String>)
        ensures
            ks@.len() == self.entry_seq().len(),
            keys_unique(self.entry_seq()),
            forall|i: int| 0 <= i < ks@.len() ==> #[trigger] ks@[i]@ == self.entry_seq()[i].0@,
            forall|k: Seq<char>|
                self@.dom().contains(k) <==> exists|i: int| 0 <= i < ks@.len() && #[trigger] ks@[i]@ == k,
    {
        proof {
            use_type_invariant(&*self);
        }
        let mut ks: Vec<String> = Vec::new();
        let mut i: usize = 0;
        while i < self.entries.len()
            invariant
                i <= self.entries@.len(),
                ks@.len() == i,
                forall|j: int| 0 <= j < i ==> #[trigger] ks@[j]@ == self.entries@[j].0@,
            decreases self.entries@.len() - i,
        {
            ks.push(self.entries[i].0.clone());
            i = i + 1;
        }
        assert forall|k: Seq<char>|
            self@.dom().contains(k) <==> exists|i: int| 0 <= i < ks@.len() && #[trigger] ks@[i]@ == k by {
            if self@.dom().contains(k) {
                let i = choose|i: int| 0 <= i < self.entries@.len() && #[trigger] self.entries@[i].0@ == k;
                assert(ks@[i]@ == k);
            }
            if exists|i: int| 0 <= i < ks@.len() && #[trigger] ks@[i]@ == k {
                let i = choose|i: int| 0 <= i < ks@.len() && #[trigger] ks@[i]@ == k;
                assert(self.entries@[i].0@ == k);
            }
        }
        ks
    }

    /// The entry at position `i` in stored order.
    pub fn entry_at(&self, i: usize) -> (e: &(String, V))
        requires
            i < self.entry_seq().len(),
        ensures
            *e == self.entry_seq()[i as int],
            self@.dom().contains(e.0@),
            self@[e.0@] == e.1,
    {
        proof {
            use_type_invariant(&*self);
        }
        proof {
            lemma_key_index(self.entries@, i as int);
        }
        &self.entries[i]
    }
}

} // verus!
