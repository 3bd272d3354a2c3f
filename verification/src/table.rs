use vstd::prelude::*;

verus! {

/// A key of a [`Table`]: keys are told apart by their model, and the executable
/// comparison agrees with it.
pub trait StoreKey: Sized {
    type Model;

    spec fn model(&self) -> Self::Model;

    fn same_key(&self, other: &Self) -> (r: bool)
        ensures
            r == (self.model() == other.model()),
    ;
}

/// A 32-byte identifier is its own model.
impl StoreKey for [u8; 32] {
    type Model = [u8; 32];

    open spec fn model(&self) -> [u8; 32] {
        *self
    }

    fn same_key(&self, other: &Self) -> (r: bool) {
        broadcast use vstd::array::group_array_axioms;

        let mut i: usize = 0;
        while i < 32
            invariant
                i <= 32,
                forall|j: int| 0 <= j < i ==> self[j] == other[j],
            decreases 32 - i,
        {
            if self[i] != other[i] {
                return false;
            }
            i = i + 1;
        }
        assert(*self =~= *other);
        true
    }
}

/// The model of the entries of a table: each key's model mapped to the value stored with it.
pub open spec fn entries_map<K: StoreKey, V>(s: Seq<(K, V)>) -> Map<K::Model, V>
    decreases s.len(),
{
    if s.len() == 0 {
        Map::empty()
    } else {
        entries_map(s.drop_last()).insert(s.last().0.model(), s.last().1)
    }
}

/// No two entries share a key.
pub open spec fn distinct_keys<K: StoreKey, V>(s: Seq<(K, V)>) -> bool {
    forall|i: int, j: int|
        0 <= i < s.len() && 0 <= j < s.len() && i != j ==> s[i].0.model() != s[j].0.model()
}

proof fn lemma_entries_map_contains<K: StoreKey, V>(s: Seq<(K, V)>, m: K::Model)
    ensures
        entries_map(s).contains_key(m) <==> exists|i: int| 0 <= i < s.len() && s[i].0.model() == m,
    decreases s.len(),
{
    if s.len() > 0 {
        lemma_entries_map_contains(s.drop_last(), m);
        if entries_map(s).contains_key(m) && s.last().0.model() != m {
            let i = choose|i: int| 0 <= i < s.len() - 1 && s.drop_last()[i].0.model() == m;
            assert(s[i].0.model() == m);
        }
        if exists|i: int| 0 <= i < s.len() && s[i].0.model() == m {
            let i = choose|i: int| 0 <= i < s.len() && s[i].0.model() == m;
            if i < s.len() - 1 {
                assert(s.drop_last()[i].0.model() == m);
            }
        }
    }
}

proof fn lemma_entries_map_value<K: StoreKey, V>(s: Seq<(K, V)>, i: int)
    requires
        distinct_keys(s),
        0 <= i < s.len(),
    ensures
        entries_map(s).contains_key(s[i].0.model()),
        entries_map(s)[s[i].0.model()] == s[i].1,
    decreases s.len(),
{
    if i < s.len() - 1 {
        let t = s.drop_last();
        assert(distinct_keys(t)) by {
            assert forall|a: int, b: int|
                0 <= a < t.len() && 0 <= b < t.len() && a != b implies t[a].0.model()
                != t[b].0.model() by {
                assert(t[a] == s[a] && t[b] == s[b]);
            }
        }
        lemma_entries_map_value(t, i);
        assert(s.last().0.model() != s[i].0.model());
    }
}

proof fn lemma_entries_map_len<K: StoreKey, V>(s: Seq<(K, V)>)
    requires
        distinct_keys(s),
    ensures
        entries_map(s).dom().finite(),
        entries_map(s).dom().len() == s.len(),
    decreases s.len(),
{
    if s.len() > 0 {
        let t = s.drop_last();
        assert(distinct_keys(t)) by {
            assert forall|a: int, b: int|
                0 <= a < t.len() && 0 <= b < t.len() && a != b implies t[a].0.model()
                != t[b].0.model() by {
                assert(t[a] == s[a] && t[b] == s[b]);
            }
        }
        lemma_entries_map_len(t);
        lemma_entries_map_contains(t, s.last().0.model());
        if entries_map(t).contains_key(s.last().0.model()) {
            let i = choose|i: int| 0 <= i < t.len() && t[i].0.model() == s.last().0.model();
            assert(s[i].0.model() == s[s.len() - 1].0.model());
        }
    }
}

/// Two distinct entry sequences with the same keys and values have the same model.
proof fn lemma_entries_map_ext<K: StoreKey, V>(s: Seq<(K, V)>, m: Map<K::Model, V>)
    requires
        distinct_keys(s),
        forall|k: K::Model|
            m.contains_key(k) <==> exists|i: int| 0 <= i < s.len() && s[i].0.model() == k,
        forall|i: int| 0 <= i < s.len() ==> m[#[trigger] s[i].0.model()] == s[i].1,
    ensures
        entries_map(s) == m,
{
    assert forall|k: K::Model| entries_map(s).contains_key(k) <==> m.contains_key(k) by {
        lemma_entries_map_contains(s, k);
    }
    assert forall|k: K::Model| #[trigger] entries_map(s).contains_key(k) implies entries_map(s)[k]
        == m[k] by {
        lemma_entries_map_contains(s, k);
        let i = choose|i: int| 0 <= i < s.len() && s[i].0.model() == k;
        lemma_entries_map_value(s, i);
    }
    assert(entries_map(s) =~= m);
}

/// A map kept as a list of entries, for keys that have no hash that the verifier models.
pub struct Table<K, V> {
    entries: Vec<(K, V)>,
}

impl<K: StoreKey, V> View for Table<K, V> {
    type V = Map<K::Model, V>;

    closed spec fn view(&self) -> Map<K::Model, V> {
        entries_map(self.entries@)
    }
}

impl<K: StoreKey, V> Table<K, V> {
    /// The table's invariant: no key occurs twice.
    pub closed spec fn wf(&self) -> bool {
        distinct_keys(self.entries@)
    }

    /// A table's model always has a finite domain of at most `usize::MAX` keys.
    pub proof fn lemma_finite(&self)
        requires
            self.wf(),
        ensures
            self@.dom().finite(),
            self@.dom().len() <= usize::MAX,
    {
        lemma_entries_map_len(self.entries@);
        assert(self.entries@.len() == self.entries.len());
    }

    /// An empty table.
    pub fn new() -> (t: Self)
        ensures
            t.wf(),
            t@ == Map::<K::Model, V>::empty(),
    {
        Table { entries: Vec::new() }
    }

    /// The number of keys in the table.
    pub fn len(&self) -> (n: usize)
        requires
            self.wf(),
        ensures
            n == self@.dom().len(),
    {
        proof {
            lemma_entries_map_len(self.entries@);
        }
        self.entries.len()
    }

    fn find(&self, k: &K) -> (r: Option<usize>)
        requires
            self.wf(),
        ensures
            match r {
                Some(i) => i < self.entries@.len() && self.entries@[i as int].0.model() == k.model(),
                None => !self@.contains_key(k.model()),
            },
    {
        let mut i: usize = 0;
        while i < self.entries.len()
            invariant
                i <= self.entries@.len(),
                forall|j: int| 0 <= j < i ==> self.entries@[j].0.model() != k.model(),
            decreases self.entries@.len() - i,
        {
            if self.entries[i].0.same_key(k) {
                return Some(i);
            }
            i = i + 1;
        }
        proof {
            lemma_entries_map_contains(self.entries@, k.model());
        }
        None
    }

    /// Whether a value is stored under `k`.
    pub fn contains_key(&self, k: &K) -> (b: bool)
        requires
            self.wf(),
        ensures
            b == self@.contains_key(k.model()),
    {
        match self.find(k) {
            Some(i) => {
                proof {
                    lemma_entries_map_value(self.entries@, i as int);
                }
                true
            },
            None => false,
        }
    }

    /// The value stored under `k`, if any.
    pub fn get(&self, k: &K) -> (r: Option<&V>)
        requires
            self.wf(),
        ensures
            match r {
                Some(v) => self@.contains_key(k.model()) && *v == self@[k.model()],
                None => !self@.contains_key(k.model()),
            },
    {
        match self.find(k) {
            Some(i) => {
                proof {
                    lemma_entries_map_value(self.entries@, i as int);
                }
                Some(&self.entries[i].1)
            },
            None => None,
        }
    }

    /// Stores `v` under `k`, replacing what was stored there.
    pub fn insert(&mut self, k: K, v: V)
        requires
            old(self).wf(),
        ensures
            final(self).wf(),
            final(self)@ == old(self)@.insert(k.model(), v),
    {
        let ghost km = k.model();
        let ghost old_entries = self.entries@;
        match self.find(&k) {
            Some(i) => {
                self.entries.set(i, (k, v));
                proof {
                    let s = self.entries@;
                    assert(s == old_entries.update(i as int, (k, v)));
                    assert(distinct_keys(s)) by {
                        assert forall|a: int, b: int|
                            0 <= a < s.len() && 0 <= b < s.len() && a != b implies s[a].0.model()
                            != s[b].0.model() by {
                            if a != i && b != i {
                                assert(s[a] == old_entries[a] && s[b] == old_entries[b]);
                            } else if a == i {
                                assert(s[b] == old_entries[b]);
                            } else {
                                assert(s[a] == old_entries[a]);
                            }
                        }
                    }
                    let m = entries_map(old_entries).insert(km, v);
                    assert forall|kk: K::Model|
                        m.contains_key(kk) <==> exists|j: int|
                            0 <= j < s.len() && s[j].0.model() == kk by {
                        lemma_entries_map_contains(old_entries, kk);
                        if m.contains_key(kk) && kk != km {
                            let j = choose|j: int|
                                0 <= j < old_entries.len() && old_entries[j].0.model() == kk;
                            assert(j != i);
                            assert(s[j] == old_entries[j]);
                            assert(s[j].0.model() == kk);
                        }
                        if kk == km {
                            assert(s[i as int].0.model() == kk);
                        }
                        if exists|j: int| 0 <= j < s.len() && s[j].0.model() == kk {
                            let j = choose|j: int| 0 <= j < s.len() && s[j].0.model() == kk;
                            if j != i {
                                assert(s[j] == old_entries[j]);
                            }
                        }
                    }
                    assert forall|j: int| 0 <= j < s.len() implies m[#[trigger] s[j].0.model()]
                        == s[j].1 by {
                        if j != i {
                            assert(s[j] == old_entries[j]);
                            lemma_entries_map_value(old_entries, j);
                        }
                    }
                    lemma_entries_map_ext(s, m);
                }
            },
            None => {
                proof {
                    lemma_entries_map_len(old_entries);
                }
                self.entries.push((k, v));
                proof {
                    let s = self.entries@;
                    assert(s.drop_last() == old_entries);
                    assert(distinct_keys(s)) by {
                        assert forall|a: int, b: int|
                            0 <= a < s.len() && 0 <= b < s.len() && a != b implies s[a].0.model()
                            != s[b].0.model() by {
                            if a < old_entries.len() && b < old_entries.len() {
                                assert(s[a] == old_entries[a] && s[b] == old_entries[b]);
                            } else if a < old_entries.len() {
                                assert(s[a] == old_entries[a]);
                                lemma_entries_map_value(old_entries, a);
                            } else {
                                assert(s[b] == old_entries[b]);
                                lemma_entries_map_value(old_entries, b);
                            }
                        }
                    }
                }
            },
        }
    }

    /// Removes what is stored under `k`, if anything.
    pub fn remove(&mut self, k: &K)
        requires
            old(self).wf(),
        ensures
            final(self).wf(),
            final(self)@ == old(self)@.remove(k.model()),
    {
        let ghost km = k.model();
        let ghost old_entries = self.entries@;
        match self.find(k) {
            Some(i) => {
                self.entries.remove(i);
                proof {
                    let s = self.entries@;
                    assert(s == old_entries.remove(i as int));
                    assert forall|j: int| 0 <= j < s.len() implies #[trigger] s[j] == (if j < i {
                        old_entries[j]
                    } else {
                        old_entries[j + 1]
                    }) by {}
                    assert(distinct_keys(s)) by {
                        assert forall|a: int, b: int|
                            0 <= a < s.len() && 0 <= b < s.len() && a != b implies s[a].0.model()
                            != s[b].0.model() by {
                            let a2 = if a < i { a } else { a + 1 };
                            let b2 = if b < i { b } else { b + 1 };
                            assert(s[a] == old_entries[a2] && s[b] == old_entries[b2]);
                        }
                    }
                    let m = entries_map(old_entries).remove(km);
                    assert forall|kk: K::Model|
                        m.contains_key(kk) <==> exists|j: int|
                            0 <= j < s.len() && s[j].0.model() == kk by {
                        lemma_entries_map_contains(old_entries, kk);
                        if m.contains_key(kk) {
                            let j = choose|j: int|
                                0 <= j < old_entries.len() && old_entries[j].0.model() == kk;
                            assert(j != i);
                            if j < i {
                                assert(s[j] == old_entries[j]);
                                assert(s[j].0.model() == kk);
                            } else {
                                assert(s[j - 1] == old_entries[j]);
                                assert(s[j - 1].0.model() == kk);
                            }
                        }
                        if exists|j: int| 0 <= j < s.len() && s[j].0.model() == kk {
                            let j = choose|j: int| 0 <= j < s.len() && s[j].0.model() == kk;
                            let j2 = if j < i { j } else { j + 1 };
                            assert(s[j] == old_entries[j2]);
                            assert(j2 != i);
                            assert(old_entries[j2].0.model() == kk);
                            assert(old_entries[i as int].0.model() == km);
                            assert(kk != km);
                        }
                    }
                    assert forall|j: int| 0 <= j < s.len() implies m[#[trigger] s[j].0.model()]
                        == s[j].1 by {
                        let j2 = if j < i { j } else { j + 1 };
                        assert(s[j] == old_entries[j2]);
                        lemma_entries_map_value(old_entries, j2);
                    }
                    lemma_entries_map_ext(s, m);
                }
            },
            None => {
                assert(entries_map(old_entries).remove(km) =~= entries_map(old_entries));
            },
        }
    }
}

} // verus!
