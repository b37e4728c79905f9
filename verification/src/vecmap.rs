//! Maps held as vectors of entries in insertion order, with unique keys.
//! Lookups compare keys by their views; an insertion under a present key
//! replaces the value in place, so the order of entries is the order in
//! which their keys first came.
use vstd::prelude::*;

verus! {

/// Keys compared by their views.
pub trait KeyEq: View + Sized {
    /// Whether two keys are equal.
    fn key_eq(&self, other: &Self) -> (r: bool)
        ensures
            r == (self@ == other@),
    ;
}

impl KeyEq for u64 {
    fn key_eq(&self, other: &Self) -> (r: bool) {
        *self == *other
    }
}

impl KeyEq for u128 {
    fn key_eq(&self, other: &Self) -> (r: bool) {
        *self == *other
    }
}

impl KeyEq for String {
    fn key_eq(&self, other: &Self) -> (r: bool) {
        *self == *other
    }
}

impl KeyEq for Vec<u8> {
    fn key_eq(&self, other: &Self) -> (r: bool) {
        bytes_eq(self.as_slice(), other.as_slice())
    }
}

/// Whether two byte strings are equal.
pub fn bytes_eq(a: &[u8], b: &[u8]) -> (r: bool)
    ensures
        r == (a@ == b@),
{
    if a.len() != b.len() {
        return false;
    }
    let mut i: usize = 0;
    while i < a.len()
        invariant
            i <= a@.len(),
            a@.len() == b@.len(),
            forall|k: int| 0 <= k < i ==> a@[k] == b@[k],
        decreases a@.len() - i,
    {
        if a[i] != b[i] {
            return false;
        }
        i = i + 1;
    }
    assert(a@ =~= b@);
    true
}

/// No two entries have equal keys.
pub open spec fn keys_unique<K: View, V>(s: Seq<(K, V)>) -> bool {
    forall|i: int, j: int|
        0 <= i < s.len() && 0 <= j < s.len() && i != j ==> #[trigger] s[i].0@ != #[trigger] s[j].0@
}

/// Whether an entry has key `k`.
pub open spec fn has_key<K: View, V>(s: Seq<(K, V)>, k: K::V) -> bool {
    exists|i: int| 0 <= i < s.len() && #[trigger] s[i].0@ == k
}

/// The map that a sequence of entries stands for.
pub open spec fn entries_map<K: View, V>(s: Seq<(K, V)>) -> Map<K::V, V> {
    Map::new(
        |k: K::V| has_key(s, k),
        |k: K::V| s[choose|i: int| 0 <= i < s.len() && #[trigger] s[i].0@ == k].1,
    )
}

/// The entry at `j` is what the map holds for its key.
pub proof fn lemma_entries_map_at<K: View, V>(s: Seq<(K, V)>, j: int)
    requires
        keys_unique(s),
        0 <= j < s.len(),
    ensures
        entries_map(s).contains_key(s[j].0@),
        entries_map(s)[s[j].0@] == s[j].1,
{
    let k = s[j].0@;
    assert(has_key(s, k));
    let c = choose|i: int| 0 <= i < s.len() && #[trigger] s[i].0@ == k;
    if c != j {
        assert(s[c].0@ != s[j].0@);
    }
}

/// Every key of the map comes from some entry.
pub proof fn lemma_entries_map_key<K: View, V>(s: Seq<(K, V)>, k: K::V)
    requires
        keys_unique(s),
        entries_map(s).contains_key(k),
    ensures
        exists|j: int| 0 <= j < s.len() && #[trigger] s[j].0@ == k && entries_map(s)[k] == s[j].1,
{
    let j = choose|i: int| 0 <= i < s.len() && #[trigger] s[i].0@ == k;
    lemma_entries_map_at(s, j);
}

/// The map of unique entries has as many keys as there are entries.
pub proof fn lemma_entries_map_len<K: View, V>(s: Seq<(K, V)>)
    requires
        keys_unique(s),
    ensures
        entries_map(s).dom().finite(),
        entries_map(s).dom().len() == s.len(),
    decreases s.len(),
{
    if s.len() == 0 {
        assert(entries_map(s).dom() =~= Set::<K::V>::empty());
    } else {
        let d = s.drop_last();
        let e = s.last();
        assert forall|i: int, j: int|
            0 <= i < d.len() && 0 <= j < d.len() && i != j implies #[trigger] d[i].0@ != #[trigger] d[j].0@ by {
            assert(d[i] == s[i]);
            assert(d[j] == s[j]);
        }
        lemma_entries_map_len(d);
        assert(!has_key(d, e.0@)) by {
            if has_key(d, e.0@) {
                let j = choose|j: int| 0 <= j < d.len() && #[trigger] d[j].0@ == e.0@;
                assert(s[j].0@ != s[s.len() - 1].0@);
            }
        }
        assert(d.push(e) =~= s);
        lemma_map_push(d, e.0, e.1);
    }
}

/// A map held as a vector of entries with unique keys, in insertion order.
#[derive(Debug)]
pub struct VecMap<K, V> {
    entries: Vec<(K, V)>,
}

impl<K: KeyEq, V> View for VecMap<K, V> {
    type V = Map<K::V, V>;

    open spec fn view(&self) -> Map<K::V, V> {
        entries_map(self.spec_entries())
    }
}

impl<K: KeyEq, V> VecMap<K, V> {
    /// The entries in insertion order.
    pub closed spec fn spec_entries(&self) -> Seq<(K, V)> {
        self.entries@
    }

    /// The invariant: keys are unique.
    pub open spec fn wf(&self) -> bool {
        keys_unique(self.spec_entries())
    }

    /// An empty map.
    pub fn new() -> (m: VecMap<K, V>)
        ensures
            m.wf(),
            m.spec_entries() == Seq::<(K, V)>::empty(),
            m@ == Map::<K::V, V>::empty(),
    {
        let m = VecMap { entries: Vec::new() };
        assert(m@ =~= Map::<K::V, V>::empty());
        m
    }

    /// Number of entries.
    pub fn len(&self) -> (r: usize)
        ensures
            r == self.spec_entries().len(),
    {
        self.entries.len()
    }

    /// The entry at index `i`.
    pub fn entry_at(&self, i: usize) -> (r: (&K, &V))
        requires
            i < self.spec_entries().len(),
        ensures
            *r.0 == self.spec_entries()[i as int].0,
            *r.1 == self.spec_entries()[i as int].1,
    {
        let e = &self.entries[i];
        (&e.0, &e.1)
    }

    /// Index of the entry with key `k`, if any.
    pub fn find(&self, k: &K) -> (r: Option<usize>)
        ensures
            match r {
                Some(i) => i < self.spec_entries().len() && self.spec_entries()[i as int].0@ == k@,
                None => !has_key(self.spec_entries(), k@),
            },
    {
        let mut i: usize = 0;
        while i < self.entries.len()
            invariant
                i <= self.entries@.len(),
                forall|j: int| 0 <= j < i ==> (#[trigger] self.entries@[j]).0@ != k@,
            decreases self.entries@.len() - i,
        {
            if self.entries[i].0.key_eq(k) {
                return Some(i);
            }
            i = i + 1;
        }
        None
    }

    /// Whether the map has key `k`.
    pub fn contains_key(&self, k: &K) -> (r: bool)
        requires
            self.wf(),
        ensures
            r == self@.contains_key(k@),
    {
        self.find(k).is_some()
    }

    /// The value under key `k`, if any.
    pub fn get(&self, k: &K) -> (r: Option<&V>)
        requires
            self.wf(),
        ensures
            self@.contains_key(k@) ==> r is Some && *r->0 == self@[k@],
            !self@.contains_key(k@) ==> r is None,
    {
        match self.find(k) {
            Some(i) => {
                proof {
                    lemma_entries_map_at(self.spec_entries(), i as int);
                }
                Some(&self.entries[i].1)
            },
            None => None,
        }
    }

    /// The value at index `i`, to change in place.
    pub fn value_mut_at(&mut self, i: usize) -> (r: &mut V)
        requires
            i < old(self).spec_entries().len(),
        ensures
            *r == old(self).spec_entries()[i as int].1,
            final(self).spec_entries() == old(self).spec_entries().update(
                i as int,
                (old(self).spec_entries()[i as int].0, *final(r)),
            ),
    {
        &mut self.entries[i].1
    }

    /// The value under key `k`, to change in place, if the key is present.
    pub fn get_mut(&mut self, k: &K) -> (r: Option<&mut V>)
        requires
            old(self).wf(),
        ensures
            r is Some <==> old(self)@.contains_key(k@),
            match r {
                Some(v) => *v == old(self)@[k@] && final(self).wf() && final(self)@ == old(self)@.insert(k@, *final(v))
                    && final(self).spec_entries().len() == old(self).spec_entries().len() && (forall|j: int|
                    0 <= j < old(self).spec_entries().len() ==> #[trigger] final(self).spec_entries()[j].0
                        == old(self).spec_entries()[j].0) && exists|i: int|
                    0 <= i < old(self).spec_entries().len() && #[trigger] old(self).spec_entries()[i].0@ == k@
                        && final(self).spec_entries() == old(self).spec_entries().update(
                        i,
                        (old(self).spec_entries()[i].0, *final(v)),
                    ),
                None => *final(self) == *old(self),
            },
    {
        let ghost s = self.entries@;
        match self.find(k) {
            Some(i) => {
                proof {
                    lemma_entries_map_at(s, i as int);
                }
                let r = self.value_mut_at(i);
                proof {
                    let t = s.update(i as int, (s[i as int].0, *final(r)));
                    assert forall|a: int, b: int|
                        0 <= a < t.len() && 0 <= b < t.len() && a != b implies #[trigger] t[a].0@ != #[trigger] t[b].0@ by {
                        assert(t[a].0 == s[a].0);
                        assert(t[b].0 == s[b].0);
                    }
                    lemma_map_update(s, i as int, s[i as int].0, *final(r));
                }
                Some(r)
            },
            None => None,
        }
    }

    /// The value under `k`, to change in place; `default` is inserted first
    /// if the key is absent.
    pub fn get_or_insert_mut(&mut self, k: K, default: V) -> (r: &mut V)
        requires
            old(self).wf(),
        ensures
            *r == (if old(self)@.contains_key(k@) {
                old(self)@[k@]
            } else {
                default
            }),
            final(self).wf(),
            final(self)@ == old(self)@.insert(k@, *final(r)),
    {
        let ghost kv = k@;
        let i = match self.find(&k) {
            Some(i) => i,
            None => {
                self.insert(k, default);
                let n = self.entries.len() - 1;
                proof {
                    assert(self.entries@[n as int].0@ == kv);
                }
                n
            },
        };
        let ghost s = self.entries@;
        proof {
            lemma_entries_map_at(s, i as int);
        }
        let r = self.value_mut_at(i);
        proof {
            let t = s.update(i as int, (s[i as int].0, *final(r)));
            assert forall|a: int, b: int|
                0 <= a < t.len() && 0 <= b < t.len() && a != b implies #[trigger] t[a].0@ != #[trigger] t[b].0@ by {
                assert(t[a].0 == s[a].0);
                assert(t[b].0 == s[b].0);
            }
            lemma_map_update(s, i as int, s[i as int].0, *final(r));
        }
        r
    }

    /// Inserts `v` under `k`; returns the value it replaces. A present key
    /// keeps its place; a new one comes last.
    pub fn insert(&mut self, k: K, v: V) -> (r: Option<V>)
        requires
            old(self).wf(),
        ensures
            final(self).wf(),
            final(self)@ == old(self)@.insert(k@, v),
            old(self)@.contains_key(k@) ==> r == Some(old(self)@[k@]) && exists|i: int|
                0 <= i < old(self).spec_entries().len() && #[trigger] old(self).spec_entries()[i].0@ == k@
                    && final(self).spec_entries() == old(self).spec_entries().update(i, (k, v)),
            !old(self)@.contains_key(k@) ==> r is None && final(self).spec_entries() == old(
                self,
            ).spec_entries().push((k, v)),
    {
        let ghost s = self.entries@;
        let ghost kv = k@;
        match self.find(&k) {
            Some(i) => {
                let old_entry = self.entries.remove(i);
                self.entries.insert(i, (k, v));
                proof {
                    assert(self.entries@ =~= s.update(i as int, (k, v)));
                    lemma_entries_map_at(s, i as int);
                    assert(old_entry == s[i as int]);
                    assert forall|a: int, b: int|
                        0 <= a < self.entries@.len() && 0 <= b < self.entries@.len() && a != b implies #[trigger] self.entries@[a].0@
                        != #[trigger] self.entries@[b].0@ by {
                        if a != i && b != i {
                            assert(s[a].0@ != s[b].0@);
                        } else if a == i {
                            assert(s[i as int].0@ != s[b].0@);
                        } else {
                            assert(s[a].0@ != s[i as int].0@);
                        }
                    }
                    lemma_map_update(s, i as int, k, v);
                }
                Some(old_entry.1)
            },
            None => {
                self.entries.push((k, v));
                proof {
                    assert(self.entries@ =~= s.push((k, v)));
                    assert forall|a: int, b: int|
                        0 <= a < self.entries@.len() && 0 <= b < self.entries@.len() && a != b implies #[trigger] self.entries@[a].0@
                        != #[trigger] self.entries@[b].0@ by {
                        if a < s.len() && b < s.len() {
                            assert(s[a].0@ != s[b].0@);
                        } else if a == s.len() {
                            assert(s[b] == self.entries@[b]);
                        } else {
                            assert(s[a] == self.entries@[a]);
                        }
                    }
                    lemma_map_push(s, k, v);
                }
                None
            },
        }
    }

    /// Removes the entry with key `k`; returns its value. The other entries
    /// keep their order.
    pub fn remove(&mut self, k: &K) -> (r: Option<V>)
        requires
            old(self).wf(),
        ensures
            final(self).wf(),
            final(self)@ == old(self)@.remove(k@),
            old(self)@.contains_key(k@) ==> r == Some(old(self)@[k@]) && exists|i: int|
                0 <= i < old(self).spec_entries().len() && #[trigger] old(self).spec_entries()[i].0@ == k@
                    && final(self).spec_entries() == old(self).spec_entries().remove(i),
            !old(self)@.contains_key(k@) ==> r is None && final(self).spec_entries() == old(self).spec_entries(),
    {
        let ghost s = self.entries@;
        match self.find(k) {
            Some(i) => {
                let e = self.entries.remove(i);
                proof {
                    lemma_entries_map_at(s, i as int);
                    assert(e == s[i as int]);
                    assert(self.entries@ =~= s.remove(i as int));
                    assert forall|a: int, b: int|
                        0 <= a < self.entries@.len() && 0 <= b < self.entries@.len() && a != b implies #[trigger] self.entries@[a].0@
                        != #[trigger] self.entries@[b].0@ by {
                        let a2 = if a < i { a } else { a + 1 };
                        let b2 = if b < i { b } else { b + 1 };
                        assert(self.entries@[a] == s[a2]);
                        assert(self.entries@[b] == s[b2]);
                        assert(s[a2].0@ != s[b2].0@);
                    }
                    lemma_map_remove(s, i as int);
                }
                Some(e.1)
            },
            None => {
                assert(old(self)@.remove(k@) =~= old(self)@);
                None
            },
        }
    }
}

proof fn lemma_map_update<K: View, V>(s: Seq<(K, V)>, i: int, k: K, v: V)
    requires
        keys_unique(s),
        keys_unique(s.update(i, (k, v))),
        0 <= i < s.len(),
        s[i].0@ == k@,
    ensures
        entries_map(s.update(i, (k, v))) == entries_map(s).insert(k@, v),
{
    let t = s.update(i, (k, v));
    assert forall|key: K::V| #[trigger] entries_map(t).contains_key(key) <==> entries_map(s).insert(k@, v).contains_key(key) by {
        if entries_map(t).contains_key(key) {
            let j = choose|j: int| 0 <= j < t.len() && #[trigger] t[j].0@ == key;
            if j != i {
                assert(s[j] == t[j]);
                assert(has_key(s, key));
            }
        }
        if entries_map(s).contains_key(key) {
            let j = choose|j: int| 0 <= j < s.len() && #[trigger] s[j].0@ == key;
            if j != i {
                assert(s[j] == t[j]);
            }
            assert(t[j].0@ == key);
            assert(has_key(t, key));
        }
        if key == k@ {
            assert(t[i].0@ == key);
            assert(has_key(t, key));
        }
    }
    assert forall|key: K::V| #[trigger] entries_map(t).contains_key(key) implies entries_map(t)[key]
        == entries_map(s).insert(k@, v)[key] by {
        lemma_entries_map_key(t, key);
        let j = choose|j: int| 0 <= j < t.len() && #[trigger] t[j].0@ == key && entries_map(t)[key] == t[j].1;
        if j != i {
            assert(s[j] == t[j]);
            lemma_entries_map_at(s, j);
        }
    }
    assert(entries_map(t) =~= entries_map(s).insert(k@, v));
}

proof fn lemma_map_push<K: View, V>(s: Seq<(K, V)>, k: K, v: V)
    requires
        keys_unique(s),
        keys_unique(s.push((k, v))),
        !has_key(s, k@),
    ensures
        entries_map(s.push((k, v))) == entries_map(s).insert(k@, v),
{
    let t = s.push((k, v));
    let n = s.len() as int;
    assert forall|key: K::V| #[trigger] entries_map(t).contains_key(key) <==> entries_map(s).insert(k@, v).contains_key(key) by {
        if entries_map(t).contains_key(key) {
            let j = choose|j: int| 0 <= j < t.len() && #[trigger] t[j].0@ == key;
            if j != n {
                assert(s[j] == t[j]);
                assert(has_key(s, key));
            }
        }
        if entries_map(s).contains_key(key) {
            let j = choose|j: int| 0 <= j < s.len() && #[trigger] s[j].0@ == key;
            assert(s[j] == t[j]);
            assert(has_key(t, key));
        }
        if key == k@ {
            assert(t[n].0@ == key);
            assert(has_key(t, key));
        }
    }
    assert forall|key: K::V| #[trigger] entries_map(t).contains_key(key) implies entries_map(t)[key]
        == entries_map(s).insert(k@, v)[key] by {
        lemma_entries_map_key(t, key);
        let j = choose|j: int| 0 <= j < t.len() && #[trigger] t[j].0@ == key && entries_map(t)[key] == t[j].1;
        if j != n {
            assert(s[j] == t[j]);
            lemma_entries_map_at(s, j);
        }
    }
    assert(entries_map(t) =~= entries_map(s).insert(k@, v));
}

proof fn lemma_map_remove<K: View, V>(s: Seq<(K, V)>, i: int)
    requires
        keys_unique(s),
        keys_unique(s.remove(i)),
        0 <= i < s.len(),
    ensures
        entries_map(s.remove(i)) == entries_map(s).remove(s[i].0@),
{
    let t = s.remove(i);
    let k = s[i].0@;
    assert forall|key: K::V| #[trigger] entries_map(t).contains_key(key) <==> entries_map(s).remove(k).contains_key(key) by {
        if entries_map(t).contains_key(key) {
            let j = choose|j: int| 0 <= j < t.len() && #[trigger] t[j].0@ == key;
            let j2 = if j < i { j } else { j + 1 };
            assert(t[j] == s[j2]);
            assert(has_key(s, key));
            assert(s[j2].0@ != s[i].0@);
        }
        if entries_map(s).contains_key(key) && key != k {
            let j = choose|j: int| 0 <= j < s.len() && #[trigger] s[j].0@ == key;
            assert(j != i);
            let j2 = if j < i { j } else { j - 1 };
            assert(0 <= j2 < t.len());
            assert(t[j2] == s[j]);
            assert(t[j2].0@ == key);
            assert(has_key(t, key));
        }
    }
    assert forall|key: K::V| #[trigger] entries_map(t).contains_key(key) implies entries_map(t)[key]
        == entries_map(s).remove(k)[key] by {
        lemma_entries_map_key(t, key);
        let j = choose|j: int| 0 <= j < t.len() && #[trigger] t[j].0@ == key && entries_map(t)[key] == t[j].1;
        let j2 = if j < i { j } else { j + 1 };
        assert(t[j] == s[j2]);
        lemma_entries_map_at(s, j2);
    }
    assert(entries_map(t) =~= entries_map(s).remove(k));
}

} // verus!
