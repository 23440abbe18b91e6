use vstd::prelude::*;

use crate::principal::LedgerKey;

verus! {

/// No key occurs twice among the entries.
pub open spec fn distinct_keys<K: View, V>(s: Seq<(K, V)>) -> bool {
    forall|i: int, j: int|
        0 <= i < s.len() && 0 <= j < s.len() && i != j ==> #[trigger] s[i].0@ != #[trigger] s[j].0@
}

/// The map that a list of entries denotes: a later entry overrides an earlier one.
pub open spec fn entries_map<K: View, V>(s: Seq<(K, V)>) -> Map<K::V, V>
    decreases s.len(),
{
    if s.len() == 0 {
        Map::empty()
    } else {
        entries_map(s.drop_last()).insert(s.last().0@, s.last().1)
    }
}

/// What `entries_map` holds: its keys are those of the entries, and, where
/// no key occurs twice, each entry's value is found under its key and the
/// map has as many keys as there are entries.
pub proof fn lemma_entries_map<K: View, V>(s: Seq<(K, V)>)
    ensures
        entries_map(s).dom().finite(),
        forall|k: K::V|
            #[trigger] entries_map(s).contains_key(k) <==> exists|i: int|
                0 <= i < s.len() && #[trigger] s[i].0@ == k,
        distinct_keys(s) ==> entries_map(s).len() == s.len(),
        distinct_keys(s) ==> forall|i: int|
            0 <= i < s.len() ==> #[trigger] entries_map(s)[s[i].0@] == s[i].1,
    decreases s.len(),
{
    if s.len() > 0 {
        let t = s.drop_last();
        lemma_entries_map(t);
        assert forall|k: K::V| #[trigger] entries_map(s).contains_key(k) implies exists|i: int|
            0 <= i < s.len() && #[trigger] s[i].0@ == k by {
            if k == s.last().0@ {
                assert(s[s.len() - 1].0@ == k);
            } else {
                let i = choose|i: int| 0 <= i < t.len() && #[trigger] t[i].0@ == k;
                assert(s[i].0@ == k);
            }
        }
        assert forall|k: K::V|
            (exists|i: int| 0 <= i < s.len() && #[trigger] s[i].0@ == k) implies #[trigger] entries_map(
            s,
        ).contains_key(k) by {
            let i = choose|i: int| 0 <= i < s.len() && #[trigger] s[i].0@ == k;
            if i < s.len() - 1 {
                assert(t[i].0@ == k);
            }
        }
        if distinct_keys(s) {
            assert(distinct_keys(t)) by {
                assert forall|i: int, j: int|
                    0 <= i < t.len() && 0 <= j < t.len() && i != j implies #[trigger] t[i].0@
                    != #[trigger] t[j].0@ by {
                    assert(s[i].0@ != s[j].0@);
                }
            }
            assert(!entries_map(t).contains_key(s.last().0@)) by {
                if entries_map(t).contains_key(s.last().0@) {
                    let i = choose|i: int| 0 <= i < t.len() && #[trigger] t[i].0@ == s.last().0@;
                    assert(s[i].0@ != s[s.len() - 1].0@);
                }
            }
            assert forall|i: int| 0 <= i < s.len() implies #[trigger] entries_map(s)[s[i].0@]
                == s[i].1 by {
                if i < s.len() - 1 {
                    assert(s[i].0@ != s[s.len() - 1].0@);
                    assert(t[i] == s[i]);
                }
            }
        }
    }
}

/// Two lists of entries, each without a repeated key, denote the same map
/// when every key of one is a key of the other with the same value.
proof fn lemma_entries_map_ext<K: View, V>(s: Seq<(K, V)>, m: Map<K::V, V>)
    requires
        distinct_keys(s),
        m.dom().finite(),
        forall|k: K::V| #[trigger]
            m.contains_key(k) <==> exists|i: int| 0 <= i < s.len() && #[trigger] s[i].0@ == k,
        forall|i: int| 0 <= i < s.len() ==> #[trigger] m[s[i].0@] == s[i].1,
    ensures
        entries_map(s) == m,
{
    lemma_entries_map(s);
    assert forall|k: K::V| #[trigger] entries_map(s).contains_key(k) implies entries_map(s)[k]
        == m[k] by {
        let i = choose|i: int| 0 <= i < s.len() && #[trigger] s[i].0@ == k;
    }
    assert(entries_map(s) =~= m);
}

/// Where `k` stands among `entries`, if it does.
fn find_entry<K: LedgerKey, V>(entries: &Vec<(K, V)>, k: &K) -> (r: Option<usize>)
    ensures
        match r {
            Some(i) => i < entries@.len() && entries@[i as int].0@ == k@,
            None => forall|i: int| 0 <= i < entries@.len() ==> #[trigger] entries@[i].0@ != k@,
        },
{
    let n = entries.len();
    let mut i: usize = 0;
    while i < n
        invariant
            n == entries@.len(),
            i <= n,
            forall|j: int| 0 <= j < i ==> #[trigger] entries@[j].0@ != k@,
        decreases n - i,
    {
        if entries[i].0.same_key(k) {
            return Some(i);
        }
        i = i + 1;
    }
    None
}

/// A finite map keyed by the views of `K`, held as a list of entries in which
/// no key occurs twice.
pub struct KeyMap<K: View, V> {
    entries: Vec<(K, V)>,
}

impl<K: View, V> KeyMap<K, V> {
    #[verifier::type_invariant]
    spec fn keys_are_distinct(self) -> bool {
        distinct_keys(self.entries@)
    }

    /// The entries, in the order in which the map holds them.
    pub closed spec fn entry_seq(&self) -> Seq<(K, V)> {
        self.entries@
    }
}

impl<K: View, V> View for KeyMap<K, V> {
    type V = Map<K::V, V>;

    closed spec fn view(&self) -> Map<K::V, V> {
        entries_map(self.entries@)
    }
}

impl<K: LedgerKey, V> KeyMap<K, V> {
    /// The empty map.
    pub fn new() -> (r: Self)
        ensures
            r@ == Map::<K::V, V>::empty(),
    {
        let r = KeyMap { entries: Vec::new() };
        assert(r@ =~= Map::<K::V, V>::empty());
        r
    }

    /// The entries, each key once; together they denote the map.
    pub fn as_slice(&self) -> (r: &[(K, V)])
        ensures
            r@ == self.entry_seq(),
            distinct_keys(r@),
            entries_map(r@) == self@,
    {
        proof {
            use_type_invariant(self);
        }
        self.entries.as_slice()
    }

    /// The number of keys.
    pub fn len(&self) -> (r: usize)
        ensures
            r == self@.len(),
            self@.dom().finite(),
    {
        proof {
            use_type_invariant(self);
            lemma_entries_map(self.entries@);
        }
        self.entries.len()
    }

    /// Whether the map has no key.
    pub fn is_empty(&self) -> (r: bool)
        ensures
            r == (self@.len() == 0),
            r == (self@ == Map::<K::V, V>::empty()),
    {
        proof {
            use_type_invariant(self);
            lemma_entries_map(self.entries@);
            if self@.len() == 0 {
                assert(self@ =~= Map::<K::V, V>::empty());
            }
        }
        self.entries.len() == 0
    }

    /// Whether `k` is a key.
    pub fn contains_key(&self, k: &K) -> (r: bool)
        ensures
            r == self@.contains_key(k@),
    {
        proof {
            lemma_entries_map(self.entries@);
        }
        match find_entry(&self.entries, k) {
            Some(i) => {
                assert(self.entries@[i as int].0@ == k@);
                true
            },
            None => false,
        }
    }

    /// The value under `k`, if `k` is a key.
    pub fn get(&self, k: &K) -> (r: Option<&V>)
        ensures
            match r {
                Some(v) => self@.contains_key(k@) && *v == self@[k@],
                None => !self@.contains_key(k@),
            },
    {
        proof {
            use_type_invariant(self);
            lemma_entries_map(self.entries@);
        }
        match find_entry(&self.entries, k) {
            Some(i) => {
                assert(self.entries@[i as int].0@ == k@);
                Some(&self.entries[i].1)
            },
            None => None,
        }
    }

    /// Puts `v` under `k`, in place of the value it had there, if any.
    pub fn insert(&mut self, k: K, v: V)
        ensures
            final(self)@ == old(self)@.insert(k@, v),
    {
        proof {
            use_type_invariant(&*self);
            lemma_entries_map(self.entries@);
        }
        let ghost m = self@;
        let mut entries: Vec<(K, V)> = Vec::new();
        std::mem::swap(&mut entries, &mut self.entries);
        let ghost s = entries@;
        assert(entries_map(s) == m);
        match find_entry(&entries, &k) {
            Some(i) => {
                let ghost key = k@;
                entries.set(i, (k, v));
                proof {
                    let s2 = entries@;
                    assert(s2 =~= s.update(i as int, s2[i as int]));
                    assert(distinct_keys(s2)) by {
                        assert forall|a: int, b: int|
                            0 <= a < s2.len() && 0 <= b < s2.len() && a != b implies #[trigger] s2[a].0@
                            != #[trigger] s2[b].0@ by {
                            assert(s[a].0@ != s[b].0@);
                        }
                    }
                    let m2 = m.insert(key, s2[i as int].1);
                    assert forall|kk: K::V| #[trigger] m2.contains_key(kk) <==> exists|j: int|
                        0 <= j < s2.len() && #[trigger] s2[j].0@ == kk by {
                        if kk == key {
                            assert(s2[i as int].0@ == kk);
                        } else if m2.contains_key(kk) {
                            assert(entries_map(s).contains_key(kk));
                            let j = choose|j: int| 0 <= j < s.len() && #[trigger] s[j].0@ == kk;
                            assert(s2[j].0@ == kk);
                        }
                        if exists|j: int| 0 <= j < s2.len() && #[trigger] s2[j].0@ == kk {
                            let j = choose|j: int| 0 <= j < s2.len() && #[trigger] s2[j].0@ == kk;
                            if j != i {
                                assert(s[j].0@ == kk);
                            }
                        }
                    }
                    assert forall|j: int| 0 <= j < s2.len() implies #[trigger] m2[s2[j].0@]
                        == s2[j].1 by {
                        if j != i {
                            assert(s[j].0@ != s[i as int].0@);
                        }
                    }
                    lemma_entries_map_ext(s2, m2);
                }
            },
            None => {
                let ghost key = k@;
                entries.push((k, v));
                proof {
                    let s2 = entries@;
                    assert(s2.drop_last() =~= s);
                    assert(distinct_keys(s2)) by {
                        assert forall|a: int, b: int|
                            0 <= a < s2.len() && 0 <= b < s2.len() && a != b implies #[trigger] s2[a].0@
                            != #[trigger] s2[b].0@ by {
                            if a < s.len() && b < s.len() {
                                assert(s[a].0@ != s[b].0@);
                            } else if a < s.len() {
                                assert(s[a].0@ != key);
                            } else {
                                assert(s[b].0@ != key);
                            }
                        }
                    }
                }
            },
        }
        self.entries = entries;
    }

    /// Takes `k` and its value out of the map, if `k` is a key.
    pub fn remove(&mut self, k: &K) -> (r: Option<V>)
        ensures
            final(self)@ == old(self)@.remove(k@),
            match r {
                Some(v) => old(self)@.contains_key(k@) && v == old(self)@[k@],
                None => !old(self)@.contains_key(k@),
            },
    {
        proof {
            use_type_invariant(&*self);
            lemma_entries_map(self.entries@);
        }
        let ghost m = self@;
        let ghost key = k@;
        let mut entries: Vec<(K, V)> = Vec::new();
        std::mem::swap(&mut entries, &mut self.entries);
        let ghost s = entries@;
        assert(entries_map(s) == m);
        let r = match find_entry(&entries, k) {
            Some(i) => {
                let (_, v) = entries.remove(i);
                proof {
                    let s2 = entries@;
                    assert(s2 =~= s.remove(i as int));
                    assert forall|j: int| 0 <= j < s2.len() implies #[trigger] s2[j] == (if j < i {
                        s[j]
                    } else {
                        s[j + 1]
                    }) by {}
                    assert(distinct_keys(s2)) by {
                        assert forall|a: int, b: int|
                            0 <= a < s2.len() && 0 <= b < s2.len() && a != b implies #[trigger] s2[a].0@
                            != #[trigger] s2[b].0@ by {
                            let a1 = if a < i { a } else { a + 1 };
                            let b1 = if b < i { b } else { b + 1 };
                            assert(s2[a] == s[a1]);
                            assert(s2[b] == s[b1]);
                            assert(s[a1].0@ != s[b1].0@);
                        }
                    }
                    let m2 = m.remove(key);
                    assert forall|kk: K::V| #[trigger] m2.contains_key(kk) <==> exists|j: int|
                        0 <= j < s2.len() && #[trigger] s2[j].0@ == kk by {
                        if m2.contains_key(kk) {
                            assert(entries_map(s).contains_key(kk));
                            let j = choose|j: int| 0 <= j < s.len() && #[trigger] s[j].0@ == kk;
                            assert(j != i);
                            if j < i {
                                assert(s2[j].0@ == kk);
                            } else {
                                assert(s2[j - 1].0@ == kk);
                            }
                        }
                        if exists|j: int| 0 <= j < s2.len() && #[trigger] s2[j].0@ == kk {
                            let j = choose|j: int| 0 <= j < s2.len() && #[trigger] s2[j].0@ == kk;
                            let j1 = if j < i { j } else { j + 1 };
                            assert(s2[j] == s[j1]);
                            assert(s[j1].0@ != s[i as int].0@);
                        }
                    }
                    assert forall|j: int| 0 <= j < s2.len() implies #[trigger] m2[s2[j].0@]
                        == s2[j].1 by {
                        let j1 = if j < i { j } else { j + 1 };
                        assert(s2[j] == s[j1]);
                        assert(s[j1].0@ != s[i as int].0@);
                    }
                    lemma_entries_map_ext(s2, m2);
                }
                Some(v)
            },
            None => {
                proof {
                    assert(m.remove(key) =~= m);
                }
                None
            },
        };
        self.entries = entries;
        r
    }
}

/// The keys of a map are finitely many.
pub proof fn lemma_key_map_finite<K: View, V>(m: &KeyMap<K, V>)
    ensures
        m@.dom().finite(),
{
    lemma_entries_map(m.entries@);
}

/// The keys of a set are finitely many.
pub proof fn lemma_key_set_finite<K: View>(s: &KeySet<K>)
    ensures
        s@.finite(),
{
    lemma_entries_map(s.map.entries@);
}

/// A finite set of keys, held as a map from each key to nothing.
pub struct KeySet<K: View> {
    map: KeyMap<K, ()>,
}

impl<K: View> View for KeySet<K> {
    type V = Set<K::V>;

    closed spec fn view(&self) -> Set<K::V> {
        self.map@.dom()
    }
}

impl<K: LedgerKey> KeySet<K> {
    /// The empty set.
    pub fn new() -> (r: Self)
        ensures
            r@ == Set::<K::V>::empty(),
    {
        let r = KeySet { map: KeyMap::new() };
        assert(r@ =~= Set::<K::V>::empty());
        r
    }

    /// The number of keys.
    pub fn len(&self) -> (r: usize)
        ensures
            r == self@.len(),
            self@.finite(),
    {
        self.map.len()
    }

    /// Whether the set has no key.
    pub fn is_empty(&self) -> (r: bool)
        ensures
            r == self@.is_empty(),
    {
        let r = self.map.is_empty();
        proof {
            if !r {
                assert(self.map@ != Map::<K::V, ()>::empty());
                assert(!(self.map@ =~= Map::<K::V, ()>::empty()));
                let k = choose|k: K::V| self.map@.contains_key(k);
                assert(self@.contains(k));
            }
        }
        r
    }

    /// Whether `k` is in the set.
    pub fn contains(&self, k: &K) -> (r: bool)
        ensures
            r == self@.contains(k@),
    {
        self.map.contains_key(k)
    }

    /// Adds `k` to the set.
    pub fn insert(&mut self, k: K)
        ensures
            final(self)@ == old(self)@.insert(k@),
    {
        self.map.insert(k, ());
        assert(self@ =~= old(self)@.insert(k@));
    }

    /// Takes `k` out of the set; whether it was there.
    pub fn remove(&mut self, k: &K) -> (r: bool)
        ensures
            final(self)@ == old(self)@.remove(k@),
            r == old(self)@.contains(k@),
    {
        let r = self.map.remove(k);
        assert(self@ =~= old(self)@.remove(k@));
        r.is_some()
    }

    /// The keys, each once.
    pub fn as_slice(&self) -> (r: &[(K, ())])
        ensures
            distinct_keys(r@),
            entries_map(r@).dom() == self@,
    {
        self.map.as_slice()
    }

    /// Adds every key of `other` to the set.
    pub fn insert_all(&mut self, other: &KeySet<K>)
        ensures
            final(self)@ == old(self)@.union(other@),
    {
        let ghost base = self@;
        let entries = other.as_slice();
        let n = entries.len();
        let mut i: usize = 0;
        while i < n
            invariant
                n == entries@.len(),
                i <= n,
                forall|x: K::V|
                    #[trigger] self@.contains(x) <==> (base.contains(x) || exists|j: int|
                        0 <= j < i && #[trigger] entries@[j].0@ == x),
            decreases n - i,
        {
            let c = entries[i].0.key_copy();
            self.insert(c);
            proof {
                assert forall|x: K::V|
                    #[trigger] self@.contains(x) <==> (base.contains(x) || exists|j: int|
                        0 <= j < i + 1 && #[trigger] entries@[j].0@ == x) by {
                    if x == c@ {
                        assert(entries@[i as int].0@ == x);
                    }
                }
            }
            i = i + 1;
        }
        proof {
            lemma_entries_map(entries@);
            assert(self@ =~= base.union(other@));
        }
    }
}

} // verus!
