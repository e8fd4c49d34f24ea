use vstd::prelude::*;

use crate::ids::KeyEq;

verus! {

/// The value stored under `key`: the first entry with that key.
pub open spec fn lookup<K, V>(entries: Seq<(K, V)>, key: K) -> Option<V>
    decreases entries.len(),
{
    if entries.len() == 0 {
        None
    } else if entries[0].0 == key {
        Some(entries[0].1)
    } else {
        lookup(entries.drop_first(), key)
    }
}

/// Index of the first entry with `key`, if any.
pub open spec fn position<K, V>(entries: Seq<(K, V)>, key: K) -> Option<int>
    decreases entries.len(),
{
    if entries.len() == 0 {
        None
    } else if entries[0].0 == key {
        Some(0)
    } else {
        match position(entries.drop_first(), key) {
            Some(i) => Some(i + 1),
            None => None,
        }
    }
}

pub proof fn lemma_position<K, V>(entries: Seq<(K, V)>, key: K)
    ensures
        match position(entries, key) {
            Some(i) => 0 <= i < entries.len() && entries[i].0 == key && lookup(entries, key)
                == Some(entries[i].1) && forall|j: int| 0 <= j < i ==> entries[j].0 != key,
            None => lookup(entries, key) is None && forall|j: int|
                0 <= j < entries.len() ==> entries[j].0 != key,
        },
    decreases entries.len(),
{
    if entries.len() > 0 {
        lemma_position(entries.drop_first(), key);
        if entries[0].0 != key {
            assert forall|j: int| 0 <= j < entries.len() && position(entries, key) is None
                implies entries[j].0 != key by {
                if j > 0 {
                    assert(entries[j] == entries.drop_first()[j - 1]);
                }
            }
            if let Some(i) = position(entries, key) {
                assert forall|j: int| 0 <= j < i implies entries[j].0 != key by {
                    if j > 0 {
                        assert(entries[j] == entries.drop_first()[j - 1]);
                    }
                }
            }
        }
    }
}

/// Characterizes `lookup` without recursion: the value of the first entry with the key.
pub proof fn lemma_lookup_first<K, V>(entries: Seq<(K, V)>, key: K, i: int)
    requires
        0 <= i < entries.len(),
        entries[i].0 == key,
        forall|j: int| 0 <= j < i ==> entries[j].0 != key,
    ensures
        lookup(entries, key) == Some(entries[i].1),
{
    lemma_position(entries, key);
}

pub proof fn lemma_lookup_absent<K, V>(entries: Seq<(K, V)>, key: K)
    requires
        forall|j: int| 0 <= j < entries.len() ==> entries[j].0 != key,
    ensures
        lookup(entries, key) is None,
{
    lemma_position(entries, key);
}

pub proof fn lemma_lookup_push<K, V>(entries: Seq<(K, V)>, entry: (K, V), key: K)
    ensures
        lookup(entries.push(entry), key) == match lookup(entries, key) {
            Some(v) => Some(v),
            None => if entry.0 == key {
                Some(entry.1)
            } else {
                None
            },
        },
{
    let s = entries.push(entry);
    lemma_position(entries, key);
    lemma_position(s, key);
    match position(entries, key) {
        Some(i) => {
            lemma_lookup_first(s, key, i);
        },
        None => {
            if entry.0 == key {
                lemma_lookup_first(s, key, entries.len() as int);
            } else {
                lemma_lookup_absent(s, key);
            }
        },
    }
}

/// A finite map held as a list of entries; the first entry with a key holds its value.
pub struct KeyList<K, V> {
    pub entries: Vec<(K, V)>,
}

impl<K: KeyEq, V: DeepView> KeyList<K, V> {
    /// The map this list represents, on models of the values.
    pub open spec fn map_model(&self) -> Map<K, V::V> {
        Map::new(|k: K| self.has(k), |k: K| self.get_spec(k).unwrap().deep_view())
    }

    pub open spec fn get_spec(&self, key: K) -> Option<V> {
        lookup(self.entries@, key)
    }

    pub open spec fn has(&self, key: K) -> bool {
        self.get_spec(key) is Some
    }

    pub fn new() -> (list: Self)
        ensures
            list.entries@ == Seq::<(K, V)>::empty(),
            forall|k: K| list.get_spec(k) is None,
            list.map_model() == Map::<K, V::V>::empty(),
    {
        KeyList { entries: Vec::new() }
    }

    pub fn find(&self, key: &K) -> (index: Option<usize>)
        ensures
            match index {
                Some(i) => position(self.entries@, *key) == Some(i as int) && i < self.entries.len()
                    && self.entries@[i as int].0 == *key,
                None => position(self.entries@, *key) is None,
            },
    {
        proof {
            lemma_position(self.entries@, *key);
        }
        let mut i: usize = 0;
        while i < self.entries.len()
            invariant
                i <= self.entries.len(),
                forall|j: int| 0 <= j < i ==> self.entries@[j].0 != *key,
            decreases self.entries.len() - i,
        {
            if self.entries[i].0.same(key) {
                proof {
                    lemma_position(self.entries@, *key);
                }
                return Some(i);
            }
            i = i + 1;
        }
        None
    }

    pub fn get(&self, key: &K) -> (value: Option<&V>)
        ensures
            match value {
                Some(v) => self.get_spec(*key) == Some(*v) && self.map_model().contains_key(*key)
                    && self.map_model()[*key] == v.deep_view(),
                None => self.get_spec(*key) is None && !self.map_model().contains_key(*key),
            },
    {
        proof {
            lemma_position(self.entries@, *key);
        }
        match self.find(key) {
            Some(i) => {
                proof {
                    let p = position(self.entries@, *key).unwrap();
                    assert(p == i as int);
                }
                Some(&self.entries[i].1)
            },
            None => None,
        }
    }

    pub fn contains(&self, key: &K) -> (r: bool)
        ensures
            r == self.has(*key),
            r == self.map_model().contains_key(*key),
    {
        proof {
            lemma_position(self.entries@, *key);
        }
        self.find(key).is_some()
    }

    /// Stores `value` under `key`, replacing the value it had.
    pub fn insert(&mut self, key: K, value: V)
        ensures
            forall|k: K| #[trigger]
                final(self).get_spec(k) == if k == key {
                    Some(value)
                } else {
                    old(self).get_spec(k)
                },
            final(self).map_model() == old(self).map_model().insert(key, value.deep_view()),
    {
        let ghost before = self.entries@;
        proof {
            lemma_position(before, key);
        }
        match self.find(&key) {
            Some(i) => {
                proof {
                    let p = position(before, key).unwrap();
                    assert(p == i as int);
                    assert(before[i as int].0 == key);
                }
                self.entries.set(i, (key, value));
                assert forall|k: K| #[trigger]
                    self.get_spec(k) == if k == key {
                        Some(value)
                    } else {
                        old(self).get_spec(k)
                    } by {
                    lemma_position(before, k);
                    lemma_position(self.entries@, k);
                    if k == key {
                        lemma_lookup_first(self.entries@, k, i as int);
                    } else {
                        match position(before, k) {
                            Some(p) => {
                                assert(p != i as int);
                                assert(self.entries@[p] == before[p]);
                                lemma_lookup_first(self.entries@, k, p);
                            },
                            None => {
                                lemma_lookup_absent(self.entries@, k);
                            },
                        }
                    }
                }
            },
            None => {
                self.entries.push((key, value));
                assert forall|k: K| #[trigger]
                    self.get_spec(k) == if k == key {
                        Some(value)
                    } else {
                        old(self).get_spec(k)
                    } by {
                    lemma_lookup_push(before, (key, value), k);
                }
            },
        }
    }

    /// Removes every entry with `key`.
    pub fn remove(&mut self, key: &K)
        ensures
            forall|k: K| #[trigger]
                final(self).get_spec(k) == if k == *key {
                    None
                } else {
                    old(self).get_spec(k)
                },
            final(self).map_model() == old(self).map_model().remove(*key),
    {
        let ghost before = self.entries@;
        let mut rest: Vec<(K, V)> = Vec::new();
        std::mem::swap(&mut rest, &mut self.entries);
        let mut kept: Vec<(K, V)> = Vec::new();
        while rest.len() > 0
            invariant
                kept@ + drop_key(rest@, *key) == drop_key(before, *key),
            decreases rest.len(),
        {
            let ghost r = rest@;
            let e = rest.remove(0);
            proof {
                assert(r.drop_first() == rest@);
            }
            if !e.0.same(key) {
                kept.push(e);
                proof {
                    assert(kept@ + drop_key(rest@, *key) == (kept@.drop_last() + seq![e])
                        + drop_key(rest@, *key));
                    assert(drop_key(r, *key) == seq![e] + drop_key(rest@, *key));
                }
            }
        }
        proof {
            assert(kept@ == drop_key(before, *key));
            assert forall|k: K| #[trigger]
                lookup(kept@, k) == if k == *key {
                    None
                } else {
                    lookup(before, k)
                } by {
                lemma_drop_key(before, *key, k);
            }
        }
        self.entries = kept;
    }
}

/// The entries without those whose key is `key`.
pub open spec fn drop_key<K, V>(entries: Seq<(K, V)>, key: K) -> Seq<(K, V)>
    decreases entries.len(),
{
    if entries.len() == 0 {
        entries
    } else if entries[0].0 == key {
        drop_key(entries.drop_first(), key)
    } else {
        seq![entries[0]] + drop_key(entries.drop_first(), key)
    }
}

pub proof fn lemma_drop_key<K, V>(entries: Seq<(K, V)>, key: K, k: K)
    ensures
        lookup(drop_key(entries, key), k) == if k == key {
            None
        } else {
            lookup(entries, k)
        },
    decreases entries.len(),
{
    if entries.len() > 0 {
        lemma_drop_key(entries.drop_first(), key, k);
        if entries[0].0 != key {
            let d = seq![entries[0]] + drop_key(entries.drop_first(), key);
            assert(d.drop_first() == drop_key(entries.drop_first(), key));
        }
    }
}

/// Rewriting every value of a list in place rewrites the map it represents.
pub proof fn lemma_entries_mapped<K: KeyEq, V: DeepView>(
    before: KeyList<K, V>,
    after: KeyList<K, V>,
    g: spec_fn(K, V::V) -> V::V,
)
    requires
        after.entries@.len() == before.entries@.len(),
        forall|i: int|
            0 <= i < before.entries@.len() ==> #[trigger] after.entries@[i].0
                == before.entries@[i].0 && after.entries@[i].1.deep_view() == g(
                before.entries@[i].0,
                before.entries@[i].1.deep_view(),
            ),
    ensures
        after.map_model() == before.map_model().map_entries(g),
{
    let b = before.entries@;
    let a = after.entries@;
    assert forall|k: K| #[trigger] after.map_model().contains_key(k) == before.map_model().contains_key(k) && (
    after.map_model().contains_key(k) ==> after.map_model()[k] == g(k, before.map_model()[k])) by {
        lemma_position(b, k);
        lemma_position(a, k);
        match position(b, k) {
            Some(i) => {
                assert(a[i].0 == k);
                assert forall|j: int| 0 <= j < i implies a[j].0 != k by {
                    assert(a[j].0 == b[j].0);
                }
                lemma_lookup_first(a, k, i);
            },
            None => {
                assert forall|j: int| 0 <= j < a.len() implies a[j].0 != k by {
                    assert(a[j].0 == b[j].0);
                }
                lemma_lookup_absent(a, k);
            },
        }
    }
    assert(after.map_model() =~= before.map_model().map_entries(g));
}

} // verus!
