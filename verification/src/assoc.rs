//! A small association table keyed by atom numbers.
//!
//! Objects, functions and lexical environments hold few entries each, so a flat
//! vector that is searched front to back is enough. The table is modelled by a
//! mathematical map; the order of the entries is not observable.
use vstd::prelude::*;

verus! {

/// A finite map from `usize` keys to values, with at most one entry per key.
pub struct Assoc<V> {
    entries: Vec<(usize, V)>,
}

spec fn has_key<V>(s: Seq<(usize, V)>, key: usize) -> bool {
    exists|i: int| 0 <= i < s.len() && (#[trigger] s[i]).0 == key
}

spec fn index_of<V>(s: Seq<(usize, V)>, key: usize) -> int {
    choose|i: int| 0 <= i < s.len() && (#[trigger] s[i]).0 == key
}

spec fn distinct<V>(s: Seq<(usize, V)>) -> bool {
    forall|i: int, j: int| 0 <= i < j < s.len() ==> (#[trigger] s[i]).0 != (#[trigger] s[j]).0
}

spec fn contents<V>(s: Seq<(usize, V)>) -> Map<usize, V> {
    Map::new(|k: usize| has_key(s, k), |k: usize| s[index_of(s, k)].1)
}

proof fn lemma_index<V>(s: Seq<(usize, V)>, i: int)
    requires
        distinct(s),
        0 <= i < s.len(),
    ensures
        has_key(s, s[i].0),
        index_of(s, s[i].0) == i,
        contents(s).contains_key(s[i].0),
        contents(s)[s[i].0] == s[i].1,
{
    let c = index_of(s, s[i].0);
    assert(0 <= c < s.len() && s[c].0 == s[i].0);
    if c < i {
        assert(s[c].0 != s[i].0);
    }
    if i < c {
        assert(s[i].0 != s[c].0);
    }
}

impl<V> Assoc<V> {
    #[verifier::type_invariant]
    spec fn inv(self) -> bool {
        distinct(self.entries@)
    }

    /// The map that this table stands for.
    pub closed spec fn view(&self) -> Map<usize, V> {
        contents(self.entries@)
    }

    /// An empty table.
    pub fn new() -> (r: Self)
        ensures
            r@ == Map::<usize, V>::empty(),
    {
        let r = Assoc { entries: Vec::new() };
        assert(r@ =~= Map::<usize, V>::empty());
        r
    }

    /// Drops every entry.
    pub fn clear(&mut self)
        ensures
            final(self)@ == Map::<usize, V>::empty(),
    {
        self.entries = Vec::new();
        assert(self@ =~= Map::<usize, V>::empty());
    }

    fn position(&self, key: usize) -> (r: Option<usize>)
        ensures
            match r {
                Some(i) => i < self.entries@.len() && self.entries@[i as int].0 == key,
                None => !has_key(self.entries@, key),
            },
    {
        let mut i: usize = 0;
        while i < self.entries.len()
            invariant
                i <= self.entries@.len(),
                forall|j: int| 0 <= j < i ==> (#[trigger] self.entries@[j]).0 != key,
            decreases self.entries@.len() - i,
        {
            if self.entries[i].0 == key {
                return Some(i);
            }
            i += 1;
        }
        None
    }

    /// Whether `key` has an entry.
    pub fn contains_key(&self, key: usize) -> (r: bool)
        ensures
            r == self@.contains_key(key),
    {
        self.position(key).is_some()
    }

    /// Binds `key` to `value`, replacing an earlier binding.
    pub fn insert(&mut self, key: usize, value: V)
        ensures
            final(self)@ == old(self)@.insert(key, value),
    {
        proof {
            use_type_invariant(&*self);
        }
        let ghost before = self.entries@;
        let found = self.position(key);
        let mut entries: Vec<(usize, V)> = Vec::new();
        std::mem::swap(&mut entries, &mut self.entries);
        match found {
            Some(i) => {
                entries.set(i, (key, value));
            },
            None => {
                entries.push((key, value));
            },
        }
        proof {
            let at: int = match found { Some(i) => i as int, None => before.len() as int };
            assert forall|i: int, j: int| 0 <= i < j < entries@.len() implies (#[trigger]
            entries@[i]).0 != (#[trigger] entries@[j]).0 by {
                if i < before.len() && j < before.len() {
                    assert(before[i].0 != before[j].0);
                }
            }
            assert(distinct(entries@));
            lemma_index(entries@, at);
            assert forall|k: usize| has_key(entries@, k) == (k == key || has_key(before, k)) by {
                if has_key(entries@, k) && k != key {
                    let i = index_of(entries@, k);
                    assert(before[i].0 == k);
                }
                if has_key(before, k) && k != key {
                    let i = index_of(before, k);
                    assert(entries@[i].0 == k);
                }
            }
            assert forall|k: usize| has_key(before, k) && k != key implies contents(entries@)[k]
                == contents(before)[k] by {
                let i = index_of(before, k);
                assert(before[i].0 == k);
                assert(entries@[i] == before[i]);
                lemma_index(before, i);
                lemma_index(entries@, i);
            }
            assert(contents(entries@) =~= contents(before).insert(key, value));
        }
        self.entries = entries;
    }

    /// Removes the entry of `key`, if there is one.
    pub fn remove(&mut self, key: usize)
        ensures
            final(self)@ == old(self)@.remove(key),
    {
        proof {
            use_type_invariant(&*self);
        }
        let ghost before = self.entries@;
        match self.position(key) {
            Some(i) => {
                let mut entries: Vec<(usize, V)> = Vec::new();
                std::mem::swap(&mut entries, &mut self.entries);
                let _gone = entries.remove(i);
                proof {
                    assert(entries@ == before.remove(i as int));
                    assert forall|a: int, b: int| 0 <= a < b < entries@.len() implies (#[trigger]
                    entries@[a]).0 != (#[trigger] entries@[b]).0 by {
                        let a2 = if a < i { a } else { a + 1 };
                        let b2 = if b < i { b } else { b + 1 };
                        assert(before[a2].0 != before[b2].0);
                    }
                    assert forall|k: usize| has_key(entries@, k) == (k != key && has_key(
                        before,
                        k,
                    )) by {
                        if has_key(entries@, k) {
                            let a = index_of(entries@, k);
                            let a2 = if a < i { a } else { a + 1 };
                            assert(before[a2].0 == k);
                            if k == key {
                                lemma_index(before, a2);
                                lemma_index(before, i as int);
                            }
                        }
                        if k != key && has_key(before, k) {
                            let a = index_of(before, k);
                            let a2 = if a < i { a } else { a - 1 };
                            assert(entries@[a2].0 == k);
                        }
                    }
                    assert forall|k: usize| has_key(entries@, k) implies contents(entries@)[k]
                        == contents(before)[k] by {
                        let a = index_of(entries@, k);
                        let a2 = if a < i { a } else { a + 1 };
                        assert(before[a2] == entries@[a]);
                        lemma_index(before, a2);
                        lemma_index(entries@, a);
                    }
                    assert(contents(entries@) =~= contents(before).remove(key));
                }
                self.entries = entries;
            },
            None => {
                assert(contents(before) =~= contents(before).remove(key));
            },
        }
    }

    /// The keys, each once, in no particular order.
    pub fn keys(&self) -> (r: Vec<usize>)
        ensures
            r@.no_duplicates(),
            forall|k: usize| r@.contains(k) <==> self@.contains_key(k),
    {
        proof {
            use_type_invariant(self);
        }
        let mut r: Vec<usize> = Vec::new();
        let mut i: usize = 0;
        while i < self.entries.len()
            invariant
                i <= self.entries@.len(),
                r@.len() == i,
                forall|j: int| 0 <= j < i ==> r@[j] == (#[trigger] self.entries@[j]).0,
            decreases self.entries@.len() - i,
        {
            r.push(self.entries[i].0);
            i += 1;
        }
        proof {
            assert forall|a: int, b: int| 0 <= a < r@.len() && 0 <= b < r@.len() && a
                != b implies r@[a] != r@[b] by {
                if a < b {
                    assert(self.entries@[a].0 != self.entries@[b].0);
                } else {
                    assert(self.entries@[b].0 != self.entries@[a].0);
                }
            }
            assert forall|k: usize| r@.contains(k) <==> self@.contains_key(k) by {
                if r@.contains(k) {
                    let j = choose|j: int| 0 <= j < r@.len() && r@[j] == k;
                    assert(self.entries@[j].0 == k);
                }
                if has_key(self.entries@, k) {
                    let j = index_of(self.entries@, k);
                    assert(r@[j] == k);
                }
            }
        }
        r
    }
}

impl<V: Copy> Assoc<V> {
    /// The value bound to `key`, if there is one.
    pub fn get(&self, key: usize) -> (r: Option<V>)
        ensures
            r == (if self@.contains_key(key) { Some(self@[key]) } else { None }),
    {
        proof {
            use_type_invariant(self);
        }
        match self.position(key) {
            Some(i) => {
                proof {
                    lemma_index(self.entries@, i as int);
                }
                Some(self.entries[i].1)
            },
            None => None,
        }
    }
}

} // verus!
