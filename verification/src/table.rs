//! An insertion-ordered table keyed by text.
//!
//! The supervisor keeps the last status and the last metrics that each neuron
//! reported. A key occurs at most once; a new key is appended at the end and an
//! existing key keeps its place while its value is replaced.
use vstd::prelude::*;

verus! {

/// Whether some entry of `p` carries the key `k`.
pub open spec fn has_key<V>(p: Seq<(Seq<char>, V)>, k: Seq<char>) -> bool {
    exists|i: int| 0 <= i < p.len() && p[i].0 == k
}

/// The position of an entry of `p` that carries `k`; meaningful where `has_key(p, k)`.
pub open spec fn key_index<V>(p: Seq<(Seq<char>, V)>, k: Seq<char>) -> int {
    choose|i: int| 0 <= i < p.len() && p[i].0 == k
}

/// No key occurs twice in `p`.
pub open spec fn distinct_keys<V>(p: Seq<(Seq<char>, V)>) -> bool {
    forall|i: int, j: int| 0 <= i < p.len() && 0 <= j < p.len() && i != j ==> p[i].0 != p[j].0
}

/// The value stored under `k`, if any.
pub open spec fn lookup<V>(p: Seq<(Seq<char>, V)>, k: Seq<char>) -> Option<V> {
    if has_key(p, k) {
        Some(p[key_index(p, k)].1)
    } else {
        None
    }
}

/// `p` after storing `v` under `k`: the entry of `k` is replaced in place, or a
/// new entry is appended when `k` was absent.
pub open spec fn upsert<V>(p: Seq<(Seq<char>, V)>, k: Seq<char>, v: V) -> Seq<(Seq<char>, V)> {
    if has_key(p, k) {
        p.update(key_index(p, k), (k, v))
    } else {
        p.push((k, v))
    }
}

/// The entries of `p` as a map from key to value.
pub open spec fn as_map<V>(p: Seq<(Seq<char>, V)>) -> Map<Seq<char>, V> {
    Map::new(|k: Seq<char>| has_key(p, k), |k: Seq<char>| p[key_index(p, k)].1)
}

/// Looking a key up gives the value the table holds for it when read as a
/// map, and nothing when the key is absent; with distinct keys that is the
/// value of the one entry carrying the key.
pub proof fn lemma_lookup<V>(p: Seq<(Seq<char>, V)>, k: Seq<char>, i: int)
    ensures
        lookup(p, k) == (if as_map(p).contains_key(k) {
            Some(as_map(p)[k])
        } else {
            None
        }),
        (forall|j: int| 0 <= j < p.len() ==> p[j].0 != k) ==> lookup(p, k) is None,
        distinct_keys(p) && 0 <= i < p.len() && p[i].0 == k ==> lookup(p, k) == Some(p[i].1),
{
    if distinct_keys(p) && 0 <= i < p.len() && p[i].0 == k {
        lemma_key_index_unique(p, i);
    }
}

/// With distinct keys, the entry found at `i` is the one `key_index` names.
pub proof fn lemma_key_index_unique<V>(p: Seq<(Seq<char>, V)>, i: int)
    requires
        distinct_keys(p),
        0 <= i < p.len(),
    ensures
        has_key(p, p[i].0),
        key_index(p, p[i].0) == i,
{
    let k = p[i].0;
    assert(0 <= i < p.len() && p[i].0 == k);
    let j = key_index(p, k);
    assert(0 <= j < p.len() && p[j].0 == k);
}

/// Storing a value keeps the keys distinct, and the table read as a map is the
/// old map with `k` bound to `v`: a read of `k` gives back what was stored, and
/// every other key reads as before.
pub proof fn lemma_upsert_as_map<V>(p: Seq<(Seq<char>, V)>, k: Seq<char>, v: V)
    requires
        distinct_keys(p),
    ensures
        distinct_keys(upsert(p, k, v)),
        as_map(upsert(p, k, v)) == as_map(p).insert(k, v),
        lookup(upsert(p, k, v), k) == Some(v),
{
    let q = upsert(p, k, v);
    if has_key(p, k) {
        let i = key_index(p, k);
        assert(0 <= i < p.len() && p[i].0 == k);
    }
    assert(distinct_keys(q));
    assert forall|x: Seq<char>| has_key(q, x) <==> (has_key(p, x) || x == k) by {
        if has_key(p, x) {
            let j = key_index(p, x);
            assert(q[j].0 == x);
        }
        if x == k {
            if has_key(p, k) {
                assert(q[key_index(p, k)].0 == k);
            } else {
                assert(q[p.len() as int].0 == k);
            }
        }
    }
    assert forall|x: Seq<char>| #[trigger] has_key(q, x) implies q[key_index(q, x)].1 == as_map(
        p,
    ).insert(k, v)[x] by {
        let j = key_index(q, x);
        lemma_key_index_unique(q, j);
        if x != k {
            let i = key_index(p, x);
            lemma_key_index_unique(p, i);
            assert(q[i].0 == x);
            lemma_key_index_unique(q, i);
        } else {
            if has_key(p, k) {
                let i = key_index(p, k);
                assert(q[i].0 == k);
                lemma_key_index_unique(q, i);
            } else {
                assert(q[p.len() as int].0 == k);
                lemma_key_index_unique(q, p.len() as int);
            }
        }
    }
    assert(as_map(q) =~= as_map(p).insert(k, v));
    assert(has_key(q, k));
}

/// Storing under a key adds one entry when the key is new and none otherwise;
/// the entries already there keep their keys and their order, and a new key
/// comes last.
pub proof fn lemma_upsert_shape<V>(p: Seq<(Seq<char>, V)>, k: Seq<char>, v: V)
    ensures
        upsert(p, k, v).len() == p.len() + (if has_key(p, k) {
            0int
        } else {
            1int
        }),
        forall|i: int| 0 <= i < p.len() ==> (#[trigger] upsert(p, k, v)[i]).0 == p[i].0,
        !has_key(p, k) ==> upsert(p, k, v).last() == (k, v),
{
    if has_key(p, k) {
        let i = key_index(p, k);
        assert(0 <= i < p.len() && p[i].0 == k);
    }
}

/// Storing twice under one key is storing the second value once: the latest
/// report wins.
pub proof fn lemma_upsert_overwrite<V>(p: Seq<(Seq<char>, V)>, k: Seq<char>, v1: V, v2: V)
    requires
        distinct_keys(p),
    ensures
        upsert(upsert(p, k, v1), k, v2) == upsert(p, k, v2),
{
    let q = upsert(p, k, v1);
    lemma_upsert_as_map(p, k, v1);
    if has_key(p, k) {
        let i = key_index(p, k);
        assert(0 <= i < p.len() && p[i].0 == k);
        assert(q[i].0 == k);
        lemma_key_index_unique(q, i);
        assert(upsert(q, k, v2) =~= upsert(p, k, v2));
    } else {
        let n = p.len() as int;
        assert(q[n].0 == k);
        lemma_key_index_unique(q, n);
        assert(upsert(q, k, v2) =~= upsert(p, k, v2));
    }
}

/// A table of values keyed by text, in the order in which the keys first came.
pub struct Table<V> {
    entries: Vec<(String, V)>,
}

impl<V> Table<V> {
    /// The entries, each key as its text.
    pub closed spec fn pairs(&self) -> Seq<(Seq<char>, V)> {
        self.entries@.map_values(|e: (String, V)| (e.0@, e.1))
    }

    #[verifier::type_invariant]
    closed spec fn keys_are_distinct(&self) -> bool {
        distinct_keys(self.pairs())
    }

    /// An empty table.
    pub fn new() -> (t: Self)
        ensures
            t.pairs() == Seq::<(Seq<char>, V)>::empty(),
    {
        let t = Table { entries: Vec::new() };
        assert(t.pairs() =~= Seq::<(Seq<char>, V)>::empty());
        t
    }

    /// The number of keys.
    pub fn len(&self) -> (n: usize)
        ensures
            n == self.pairs().len(),
    {
        self.entries.len()
    }

    /// Whether the table holds no key.
    pub fn is_empty(&self) -> (b: bool)
        ensures
            b == (self.pairs().len() == 0),
    {
        self.entries.len() == 0
    }

    /// The position of `key`, if the table holds it.
    fn find(&self, key: &String) -> (r: Option<usize>)
        ensures
            match r {
                Some(i) => i < self.pairs().len() && self.pairs()[i as int].0 == key@ && i
                    == key_index(self.pairs(), key@),
                None => !has_key(self.pairs(), key@),
            },
    {
        proof {
            use_type_invariant(self);
        }
        let n = self.entries.len();
        let mut i: usize = 0;
        while i < n
            invariant
                n == self.entries@.len(),
                i <= n,
                distinct_keys(self.pairs()),
                forall|j: int| 0 <= j < i ==> self.pairs()[j].0 != key@,
            decreases n - i,
        {
            if self.entries[i].0 == *key {
                proof {
                    lemma_key_index_unique(self.pairs(), i as int);
                }
                return Some(i);
            }
            i += 1;
        }
        None
    }

    /// The entry at position `i`.
    pub fn entry(&self, i: usize) -> (r: (&String, &V))
        requires
            i < self.pairs().len(),
        ensures
            r.0@ == self.pairs()[i as int].0,
            *r.1 == self.pairs()[i as int].1,
    {
        let e = &self.entries[i];
        (&e.0, &e.1)
    }

    /// The value stored under `key`.
    pub fn get(&self, key: &String) -> (r: Option<&V>)
        ensures
            match r {
                Some(v) => lookup(self.pairs(), key@) == Some(*v),
                None => lookup(self.pairs(), key@) is None,
            },
    {
        match self.find(key) {
            Some(i) => Some(&self.entries[i].1),
            None => None,
        }
    }

    /// Stores `value` under `key`, replacing the value it had.
    pub fn insert(&mut self, key: String, value: V)
        ensures
            final(self).pairs() == upsert(old(self).pairs(), key@, value),
            distinct_keys(final(self).pairs()),
            as_map(final(self).pairs()) == as_map(old(self).pairs()).insert(key@, value),
    {
        proof {
            use_type_invariant(&*self);
        }
        let ghost old_pairs = self.pairs();
        let ghost k = key@;
        let found = self.find(&key);
        let mut entries: Vec<(String, V)> = Vec::new();
        std::mem::swap(&mut entries, &mut self.entries);
        assert(entries@.map_values(|e: (String, V)| (e.0@, e.1)) == old_pairs);
        match found {
            Some(i) => {
                entries.set(i, (key, value));
                assert(entries@.map_values(|e: (String, V)| (e.0@, e.1)) =~= old_pairs.update(
                    i as int,
                    (k, value),
                ));
            },
            None => {
                entries.push((key, value));
                assert(entries@.map_values(|e: (String, V)| (e.0@, e.1)) =~= old_pairs.push(
                    (k, value),
                ));
            },
        }
        proof {
            lemma_upsert_as_map(old_pairs, k, value);
        }
        self.entries = entries;
    }
}

impl Table<String> {
    /// A copy of the table, entry for entry.
    pub fn duplicate(&self) -> (r: Self)
        ensures
            r.pairs() == self.pairs(),
            distinct_keys(r.pairs()),
    {
        proof {
            use_type_invariant(self);
        }
        let n = self.entries.len();
        let mut copy: Vec<(String, String)> = Vec::new();
        let mut i: usize = 0;
        while i < n
            invariant
                n == self.entries@.len(),
                i <= n,
                copy@.len() == i,
                forall|j: int| 0 <= j < i ==> #[trigger] copy@[j] == self.entries@[j],
            decreases n - i,
        {
            let e = &self.entries[i];
            copy.push((e.0.clone(), e.1.clone()));
            i += 1;
        }
        assert(copy@ =~= self.entries@);
        Table { entries: copy }
    }
}

impl<V> View for Table<V> {
    type V = Map<Seq<char>, V>;

    open spec fn view(&self) -> Map<Seq<char>, V> {
        as_map(self.pairs())
    }
}

} // verus!
