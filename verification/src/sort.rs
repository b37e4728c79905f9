//! Stable descending sort by a priority key.
use vstd::prelude::*;
use vstd::multiset::Multiset;

verus! {

/// Values ordered by a numeric priority (higher first).
pub trait SpecPrioritized: Sized {
    spec fn spec_priority(&self) -> int;
}

/// Values whose priority can be read at run time.
pub trait Prioritized: SpecPrioritized {
    fn priority_key(&self) -> (r: u64)
        ensures
            r as int == self.spec_priority(),
    ;
}

/// Inserts `x` in front of the first element whose priority is not greater than `x`'s.
pub open spec fn insert_desc<T: SpecPrioritized>(x: T, t: Seq<T>) -> Seq<T>
    decreases t.len(),
{
    if t.len() == 0 {
        seq![x]
    } else if t[0].spec_priority() <= x.spec_priority() {
        seq![x] + t
    } else {
        seq![t[0]] + insert_desc(x, t.drop_first())
    }
}

/// Stable sort by descending priority: elements of equal priority keep their order.
pub open spec fn sort_desc<T: SpecPrioritized>(s: Seq<T>) -> Seq<T>
    decreases s.len(),
{
    if s.len() == 0 {
        s
    } else {
        insert_desc(s[0], sort_desc(s.drop_first()))
    }
}

/// Whether a sequence is ordered by non-increasing priority.
pub open spec fn is_sorted_desc<T: SpecPrioritized>(s: Seq<T>) -> bool {
    forall|i: int, j: int| 0 <= i < j < s.len() ==> s[j].spec_priority() <= s[i].spec_priority()
}

proof fn lemma_insert_desc_at<T: SpecPrioritized>(x: T, t: Seq<T>, p: int)
    requires
        0 <= p <= t.len(),
        forall|i: int| 0 <= i < p ==> t[i].spec_priority() > x.spec_priority(),
        p < t.len() ==> t[p].spec_priority() <= x.spec_priority(),
    ensures
        insert_desc(x, t) == t.insert(p, x),
    decreases p,
{
    if p == 0 {
        if t.len() == 0 {
            assert(t.insert(0, x) =~= seq![x]);
        } else {
            assert(t.insert(0, x) =~= seq![x] + t);
        }
    } else {
        let u = t.drop_first();
        assert forall|i: int| 0 <= i < p - 1 implies u[i].spec_priority() > x.spec_priority() by {
            assert(u[i] == t[i + 1]);
        }
        lemma_insert_desc_at(x, u, p - 1);
        assert(t.insert(p, x) =~= seq![t[0]] + u.insert(p - 1, x));
    }
}

proof fn lemma_insert_desc_len<T: SpecPrioritized>(x: T, t: Seq<T>)
    ensures
        insert_desc(x, t).len() == t.len() + 1,
    decreases t.len(),
{
    if t.len() > 0 && t[0].spec_priority() > x.spec_priority() {
        lemma_insert_desc_len(x, t.drop_first());
    }
}

proof fn lemma_insert_desc_sorted<T: SpecPrioritized>(x: T, t: Seq<T>)
    requires
        is_sorted_desc(t),
    ensures
        is_sorted_desc(insert_desc(x, t)),
        insert_desc(x, t).to_multiset() == t.to_multiset().insert(x),
    decreases t.len(),
{
    broadcast use vstd::seq_lib::group_to_multiset_ensures;
    if t.len() == 0 {
        assert(seq![x] =~= t.push(x));
    } else if t[0].spec_priority() <= x.spec_priority() {
        let r = seq![x] + t;
        assert forall|i: int, j: int| 0 <= i < j < r.len() implies r[j].spec_priority()
            <= r[i].spec_priority() by {
            if i == 0 {
                assert(r[j] == t[j - 1]);
                if j - 1 > 0 {
                    assert(t[j - 1].spec_priority() <= t[0].spec_priority());
                }
            } else {
                assert(r[i] == t[i - 1] && r[j] == t[j - 1]);
            }
        }
        vstd::seq_lib::lemma_multiset_commutative(seq![x], t);
        assert(seq![x].to_multiset() =~= Multiset::empty().insert(x)) by {
            assert(seq![x] =~= Seq::<T>::empty().push(x));
        }
    } else {
        let u = t.drop_first();
        assert(is_sorted_desc(u)) by {
            assert forall|i: int, j: int| 0 <= i < j < u.len() implies u[j].spec_priority()
                <= u[i].spec_priority() by {
                assert(u[i] == t[i + 1] && u[j] == t[j + 1]);
            }
        }
        lemma_insert_desc_sorted(x, u);
        lemma_insert_desc_len(x, u);
        let v = insert_desc(x, u);
        let r = seq![t[0]] + v;
        assert forall|i: int, j: int| 0 <= i < j < r.len() implies r[j].spec_priority()
            <= r[i].spec_priority() by {
            if i == 0 {
                assert(r[j] == v[j - 1]);
                // every element of v is either x or an element of u
                assert(v.to_multiset().count(v[j - 1]) > 0);
                assert(u.to_multiset().insert(x).count(v[j - 1]) > 0);
                if v[j - 1] != x {
                    assert(u.to_multiset().count(v[j - 1]) > 0);
                    assert(u.contains(v[j - 1]));
                    let k = choose|k: int| 0 <= k < u.len() && u[k] == v[j - 1];
                    assert(u[k] == t[k + 1]);
                }
            } else {
                assert(r[i] == v[i - 1] && r[j] == v[j - 1]);
            }
        }
        vstd::seq_lib::lemma_multiset_commutative(seq![t[0]], v);
        vstd::seq_lib::lemma_multiset_commutative(seq![t[0]], u);
        assert(seq![t[0]] + u =~= t);
        assert(seq![t[0]].to_multiset() =~= Multiset::empty().insert(t[0])) by {
            assert(seq![t[0]] =~= Seq::<T>::empty().push(t[0]));
        }
    }
}

/// The stable descending sort is ordered by non-increasing priority and is a
/// permutation of its input.
pub proof fn lemma_sort_desc_sorted_permutation<T: SpecPrioritized>(s: Seq<T>)
    ensures
        is_sorted_desc(sort_desc(s)),
        sort_desc(s).to_multiset() == s.to_multiset(),
        sort_desc(s).len() == s.len(),
    decreases s.len(),
{
    broadcast use vstd::seq_lib::group_to_multiset_ensures;
    if s.len() > 0 {
        lemma_sort_desc_sorted_permutation(s.drop_first());
        lemma_insert_desc_sorted(s[0], sort_desc(s.drop_first()));
        lemma_insert_desc_len(s[0], sort_desc(s.drop_first()));
        assert(s =~= seq![s[0]] + s.drop_first());
        vstd::seq_lib::lemma_multiset_commutative(seq![s[0]], s.drop_first());
        assert(seq![s[0]].to_multiset() =~= Multiset::empty().insert(s[0])) by {
            assert(seq![s[0]] =~= Seq::<T>::empty().push(s[0]));
        }
    }
}

proof fn lemma_insert_desc_map<T: SpecPrioritized, U: SpecPrioritized>(x: T, t: Seq<T>, f: spec_fn(T) -> U)
    requires
        forall|y: T| #[trigger] f(y).spec_priority() == y.spec_priority(),
    ensures
        insert_desc(x, t).map_values(f) == insert_desc(f(x), t.map_values(f)),
    decreases t.len(),
{
    let ft = t.map_values(f);
    assert(f(x).spec_priority() == x.spec_priority());
    if t.len() == 0 {
        assert(insert_desc(x, t).map_values(f) =~= seq![f(x)]);
    } else {
        assert(ft[0] == f(t[0]));
        assert(f(t[0]).spec_priority() == t[0].spec_priority());
        if t[0].spec_priority() <= x.spec_priority() {
            assert((seq![x] + t).map_values(f) =~= seq![f(x)] + ft);
        } else {
            lemma_insert_desc_map(x, t.drop_first(), f);
            assert(t.drop_first().map_values(f) =~= ft.drop_first());
            assert((seq![t[0]] + insert_desc(x, t.drop_first())).map_values(f) =~= seq![f(t[0])]
                + insert_desc(x, t.drop_first()).map_values(f));
        }
    }
}

/// Mapping a priority-preserving function over a sequence commutes with the sort.
pub proof fn lemma_sort_desc_map<T: SpecPrioritized, U: SpecPrioritized>(s: Seq<T>, f: spec_fn(T) -> U)
    requires
        forall|y: T| #[trigger] f(y).spec_priority() == y.spec_priority(),
    ensures
        sort_desc(s).map_values(f) == sort_desc(s.map_values(f)),
    decreases s.len(),
{
    if s.len() == 0 {
        assert(s.map_values(f) =~= Seq::<U>::empty());
    } else {
        lemma_sort_desc_map(s.drop_first(), f);
        lemma_insert_desc_map(s[0], sort_desc(s.drop_first()), f);
        assert(s.map_values(f).drop_first() =~= s.drop_first().map_values(f));
        assert(s.map_values(f)[0] == f(s[0]));
    }
}

/// Sorts `v` by descending priority, keeping the order of equal elements.
pub fn stable_sort_desc<T: Prioritized>(v: &mut Vec<T>)
    ensures
        final(v)@ == sort_desc(old(v)@),
{
    let ghost orig = v@;
    let mut result: Vec<T> = Vec::new();
    assert(orig.subrange(orig.len() as int, orig.len() as int) =~= Seq::<T>::empty());
    while v.len() > 0
        invariant
            v@ == orig.subrange(0, v.len() as int),
            v.len() <= orig.len(),
            result@ == sort_desc(orig.subrange(v.len() as int, orig.len() as int)),
        decreases v.len(),
    {
        let ghost k = (v.len() - 1) as int;
        let x = v.pop().unwrap();
        assert(x == orig[k]);
        let mut p: usize = 0;
        let xp = x.priority_key();
        while p < result.len() && result[p].priority_key() > xp
            invariant
                p <= result.len(),
                xp as int == x.spec_priority(),
                forall|i: int| 0 <= i < p ==> result@[i].spec_priority() > x.spec_priority(),
            decreases result.len() - p,
        {
            p = p + 1;
        }
        proof {
            lemma_insert_desc_at(x, result@, p as int);
            let tail = orig.subrange(k, orig.len() as int);
            assert(tail.drop_first() =~= orig.subrange(k + 1, orig.len() as int));
            assert(tail[0] == x);
        }
        result.insert(p, x);
        assert(v@ =~= orig.subrange(0, v.len() as int));
    }
    assert(orig.subrange(0, orig.len() as int) =~= orig);
    *v = result;
}

} // verus!
