//! The keyed stores of the server (sessions, and per session its viewers,
//! controllers, streams and analyzers): at most one entry per key.
use vstd::prelude::*;

verus! {

/// A key of a store, compared by its model.
pub trait Keyed: Sized {
    /// What identifies the key.
    type Model;

    /// The model of the key.
    spec fn model(&self) -> Self::Model;

    /// Whether two keys have the same model.
    fn same_as(&self, other: &Self) -> (same: bool)
        ensures
            same == (self.model() == other.model()),
    ;

    /// A copy of the key.
    fn duplicate(&self) -> (k: Self)
        ensures
            k.model() == self.model(),
    ;
}

/// A store with at most one entry per key, in insertion order.
pub struct Registry<K: Keyed, V> {
    entries: Vec<(K, V)>,
}

/// The index of the entry with key model `m`.
pub open spec fn index_of<K: Keyed, V>(entries: Seq<(K, V)>, m: K::Model) -> int {
    choose|i: int| 0 <= i < entries.len() && entries[i].0.model() == m
}

/// Whether some entry has key model `m`.
pub open spec fn has_model<K: Keyed, V>(entries: Seq<(K, V)>, m: K::Model) -> bool {
    exists|i: int| 0 <= i < entries.len() && entries[i].0.model() == m
}

/// Whether no two entries share a key model.
pub open spec fn distinct_keys<K: Keyed, V>(entries: Seq<(K, V)>) -> bool {
    forall|i: int, j: int| 0 <= i < j < entries.len() ==> entries[i].0.model() != entries[j].0.model()
}

/// The map from key models to values that the entries stand for.
pub open spec fn entries_map<K: Keyed, V>(entries: Seq<(K, V)>) -> Map<K::Model, V> {
    Map::new(|m: K::Model| has_model(entries, m), |m: K::Model| entries[index_of(entries, m)].1)
}

proof fn lemma_index_unique<K: Keyed, V>(entries: Seq<(K, V)>, i: int)
    requires
        distinct_keys(entries),
        0 <= i < entries.len(),
    ensures
        index_of(entries, entries[i].0.model()) == i,
{
    let m = entries[i].0.model();
    let j = index_of(entries, m);
    assert(0 <= j < entries.len() && entries[j].0.model() == m);
    if j != i {
        if j < i {
            assert(entries[j].0.model() != entries[i].0.model());
        } else {
            assert(entries[i].0.model() != entries[j].0.model());
        }
    }
}

proof fn lemma_push<K: Keyed, V>(entries: Seq<(K, V)>, k: K, v: V)
    requires
        distinct_keys(entries),
        !has_model(entries, k.model()),
    ensures
        distinct_keys(entries.push((k, v))),
        entries_map(entries.push((k, v))) == entries_map(entries).insert(k.model(), v),
{
    let e2 = entries.push((k, v));
    assert(distinct_keys(e2)) by {
        assert forall|i: int, j: int| 0 <= i < j < e2.len() implies e2[i].0.model() != e2[j].0.model() by {
            if j == entries.len() {
                assert(entries[i].0.model() != k.model());
            }
        }
    }
    assert forall|m: K::Model| #[trigger] has_model(e2, m) == (has_model(entries, m) || m == k.model()) by {
        if has_model(entries, m) {
            let i = index_of(entries, m);
            assert(e2[i] == entries[i]);
        }
        if m == k.model() {
            assert(e2[entries.len() as int].0.model() == m);
        }
        if has_model(e2, m) && m != k.model() {
            let i = index_of(e2, m);
            assert(i < entries.len());
            assert(entries[i] == e2[i]);
        }
    }
    assert forall|m: K::Model| has_model(e2, m) implies e2[index_of(e2, m)].1 == entries_map(entries).insert(
        k.model(),
        v,
    )[m] by {
        if m == k.model() {
            lemma_index_unique(e2, entries.len() as int);
        } else {
            let i = index_of(entries, m);
            assert(e2[i] == entries[i]);
            lemma_index_unique(e2, i);
        }
    }
    assert(entries_map(e2) =~= entries_map(entries).insert(k.model(), v));
}

proof fn lemma_remove<K: Keyed, V>(entries: Seq<(K, V)>, i: int)
    requires
        distinct_keys(entries),
        0 <= i < entries.len(),
    ensures
        distinct_keys(entries.remove(i)),
        entries_map(entries.remove(i)) == entries_map(entries).remove(entries[i].0.model()),
{
    let e2 = entries.remove(i);
    let km = entries[i].0.model();
    assert(distinct_keys(e2)) by {
        assert forall|a: int, b: int| 0 <= a < b < e2.len() implies e2[a].0.model() != e2[b].0.model() by {
            let a0 = if a < i { a } else { a + 1 };
            let b0 = if b < i { b } else { b + 1 };
            assert(e2[a] == entries[a0] && e2[b] == entries[b0]);
        }
    }
    assert forall|m: K::Model| #[trigger] has_model(e2, m) == (has_model(entries, m) && m != km) by {
        if has_model(e2, m) {
            let a = index_of(e2, m);
            let a0 = if a < i { a } else { a + 1 };
            assert(e2[a] == entries[a0]);
            assert(entries[a0].0.model() != entries[i].0.model());
        }
        if has_model(entries, m) && m != km {
            let a0 = index_of(entries, m);
            assert(a0 != i);
            let a = if a0 < i { a0 } else { a0 - 1 };
            assert(e2[a] == entries[a0]);
        }
    }
    assert forall|m: K::Model| has_model(e2, m) implies e2[index_of(e2, m)].1 == entries_map(entries)[m] by {
        let a = index_of(e2, m);
        let a0 = if a < i { a } else { a + 1 };
        assert(e2[a] == entries[a0]);
        lemma_index_unique(entries, a0);
    }
    assert(entries_map(e2) =~= entries_map(entries).remove(km));
}

proof fn lemma_size<K: Keyed, V>(entries: Seq<(K, V)>)
    requires
        distinct_keys(entries),
    ensures
        entries_map(entries).dom().finite(),
        entries_map(entries).dom().len() == entries.len(),
{
    let idx = vstd::set_lib::set_int_range(0, entries.len() as int);
    let f = |i: int| entries[i].0.model();
    vstd::set_lib::lemma_int_range(0, entries.len() as int);
    assert(vstd::relations::injective_on(f, idx)) by {
        assert forall|a: int, b: int| idx.contains(a) && idx.contains(b) && #[trigger] f(a) == #[trigger] f(b)
            implies a == b by {
            if a < b {
                assert(entries[a].0.model() != entries[b].0.model());
            } else if b < a {
                assert(entries[b].0.model() != entries[a].0.model());
            }
        }
    }
    assert(idx.map(f) =~= entries_map(entries).dom()) by {
        assert forall|m: K::Model| entries_map(entries).dom().contains(m) implies idx.map(f).contains(m) by {
            let i = index_of(entries, m);
            assert(idx.contains(i) && f(i) == m);
        }
    }
    vstd::set_lib::lemma_map_size(idx, entries_map(entries).dom(), f);
}

impl<K: Keyed, V> View for Registry<K, V> {
    type V = Map<K::Model, V>;

    /// The entries, by key model.
    closed spec fn view(&self) -> Map<K::Model, V> {
        entries_map(self.entries@)
    }
}

impl<K: Keyed, V> Registry<K, V> {
    #[verifier::type_invariant]
    spec fn one_entry_per_key(self) -> bool {
        distinct_keys(self.entries@)
    }

    /// An empty store.
    pub fn new() -> (r: Registry<K, V>)
        ensures
            r@ == Map::<K::Model, V>::empty(),
    {
        let r = Registry { entries: Vec::new() };
        assert(r@ =~= Map::<K::Model, V>::empty());
        r
    }

    fn find(&self, key: &K) -> (i: Option<usize>)
        ensures
            match i {
                Some(i) => i < self.entries@.len() && self.entries@[i as int].0.model() == key.model(),
                None => !has_model(self.entries@, key.model()),
            },
    {
        let mut i: usize = 0;
        while i < self.entries.len()
            invariant
                i <= self.entries@.len(),
                forall|j: int| 0 <= j < i ==> self.entries@[j].0.model() != key.model(),
            decreases self.entries@.len() - i,
        {
            if self.entries[i].0.same_as(key) {
                return Some(i);
            }
            i = i + 1;
        }
        None
    }

    /// Whether the store has an entry for `key`.
    pub fn contains_key(&self, key: &K) -> (found: bool)
        ensures
            found == self@.dom().contains(key.model()),
    {
        self.find(key).is_some()
    }

    /// The entry for `key`, if any.
    pub fn get(&self, key: &K) -> (v: Option<&V>)
        ensures
            match v {
                Some(v) => self@.dom().contains(key.model()) && *v == self@[key.model()],
                None => !self@.dom().contains(key.model()),
            },
    {
        proof {
            use_type_invariant(self);
        }
        match self.find(key) {
            Some(i) => {
                proof {
                    lemma_index_unique(self.entries@, i as int);
                }
                Some(&self.entries[i].1)
            },
            None => None,
        }
    }

    /// Add an entry for a key the store does not have yet; an existing
    /// entry is never replaced, and the refused key and value are handed
    /// back.
    pub fn insert_new(&mut self, key: K, value: V) -> (r: Result<(), (K, V)>)
        ensures
            old(self)@.dom().contains(key.model()) ==> (r matches Err(kv) && kv.0 == key && kv.1 == value
                && final(self)@ == old(self)@),
            !old(self)@.dom().contains(key.model()) ==> (r is Ok
                && final(self)@ == old(self)@.insert(key.model(), value)),
    {
        proof {
            use_type_invariant(&*self);
        }
        if self.find(&key).is_some() {
            return Err((key, value));
        }
        let mut entries: Vec<(K, V)> = Vec::new();
        std::mem::swap(&mut entries, &mut self.entries);
        proof {
            lemma_push(entries@, key, value);
        }
        entries.push((key, value));
        self.entries = entries;
        Ok(())
    }

    /// Add an entry for `key` unless there is one.
    pub fn insert_if_absent(&mut self, key: K, value: V)
        ensures
            old(self)@.dom().contains(key.model()) ==> final(self)@ == old(self)@,
            !old(self)@.dom().contains(key.model()) ==> final(self)@ == old(self)@.insert(key.model(), value),
    {
        let _ = self.insert_new(key, value);
    }

    /// Take out the entry for `key`, if any.
    pub fn remove(&mut self, key: &K) -> (v: Option<V>)
        ensures
            match v {
                Some(v) => old(self)@.dom().contains(key.model()) && v == old(self)@[key.model()],
                None => !old(self)@.dom().contains(key.model()),
            },
            final(self)@ == old(self)@.remove(key.model()),
    {
        proof {
            use_type_invariant(&*self);
        }
        match self.find(key) {
            Some(i) => {
                let mut entries: Vec<(K, V)> = Vec::new();
                std::mem::swap(&mut entries, &mut self.entries);
                proof {
                    lemma_index_unique(entries@, i as int);
                    lemma_remove(entries@, i as int);
                }
                let (_, v) = entries.remove(i);
                self.entries = entries;
                Some(v)
            },
            None => {
                assert(old(self)@.remove(key.model()) =~= old(self)@);
                None
            },
        }
    }

    /// The number of entries.
    pub fn len(&self) -> (n: usize)
        ensures
            self@.dom().finite(),
            n == self@.dom().len(),
    {
        proof {
            use_type_invariant(self);
            lemma_size(self.entries@);
        }
        self.entries.len()
    }

    /// The keys, in insertion order; each appears once.
    pub fn keys(&self) -> (ks: Vec<K>)
        ensures
            self@.dom().finite(),
            ks.len() == self@.dom().len(),
            forall|i: int| 0 <= i < ks.len() ==> self@.dom().contains(#[trigger] ks@[i].model()),
            forall|m: K::Model| self@.dom().contains(m) ==> exists|i: int| 0 <= i < ks.len() && ks@[i].model() == m,
            forall|i: int, j: int| 0 <= i < j < ks.len() ==> ks@[i].model() != ks@[j].model(),
    {
        proof {
            use_type_invariant(self);
            lemma_size(self.entries@);
        }
        let mut ks: Vec<K> = Vec::new();
        let mut i: usize = 0;
        while i < self.entries.len()
            invariant
                i <= self.entries@.len(),
                ks.len() == i,
                forall|j: int| 0 <= j < i ==> (#[trigger] ks@[j]).model() == self.entries@[j].0.model(),
            decreases self.entries@.len() - i,
        {
            ks.push(self.entries[i].0.duplicate());
            i = i + 1;
        }
        proof {
            assert forall|m: K::Model| self@.dom().contains(m) implies exists|i: int| 0 <= i < ks.len() && ks@[i].model() == m by {
                let i = index_of(self.entries@, m);
                assert(ks@[i].model() == m);
            }
            assert forall|i: int| 0 <= i < ks.len() implies self@.dom().contains(#[trigger] ks@[i].model()) by {
                assert(has_model(self.entries@, self.entries@[i].0.model()));
            }
        }
        ks
    }
}

/// What a store gives back of a write: after adding an entry for a new key,
/// looking the key up finds the value, and the other keys keep theirs.
pub proof fn lemma_read_after_insert<M, V>(before: Map<M, V>, after: Map<M, V>, k: M, v: V, other: M)
    requires
        !before.dom().contains(k),
        after == before.insert(k, v),
        other != k,
    ensures
        after.dom().contains(k) && after[k] == v,
        after.dom().contains(other) == before.dom().contains(other),
        before.dom().contains(other) ==> after[other] == before[other],
{
}

/// After removing a key, the store has no entry for it, and the other keys
/// keep theirs.
pub proof fn lemma_read_after_remove<M, V>(before: Map<M, V>, after: Map<M, V>, k: M, other: M)
    requires
        after == before.remove(k),
        other != k,
    ensures
        !after.dom().contains(k),
        after.dom().contains(other) == before.dom().contains(other),
        before.dom().contains(other) ==> after[other] == before[other],
{
}

} // verus!
