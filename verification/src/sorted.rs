//! Sorted collections with an explicit total (pre)order on keys.
//!
//! Attribute sets and maps must come out in a fixed order for the rendered
//! file to be diff-stable. The order on some keys (paths, labels) can
//! declare two distinct strings equal, so these are preorders: a set keeps
//! the first value inserted under a key, a map keeps the first key but
//! takes the latest value, exactly as the ordered containers of std do
//! under such an ordering.

use vstd::prelude::*;

use crate::strutil::Dup;

verus! {

/// A type with a total preorder used as its sorting key.
///
/// `key_cmp` must behave like a comparison: reflexively `Equal`,
/// antisymmetric, and transitive. Two values may compare `Equal`
/// without being the same value.
pub trait SortKey: Sized {
    spec fn key_cmp(&self, other: &Self) -> core::cmp::Ordering;

    fn cmp_exec(&self, other: &Self) -> (o: core::cmp::Ordering)
        ensures
            o == self.key_cmp(other),
    ;

    proof fn lemma_refl(&self)
        ensures
            self.key_cmp(self) == core::cmp::Ordering::Equal,
    ;

    proof fn lemma_antisym(&self, other: &Self)
        ensures
            self.key_cmp(other) == core::cmp::Ordering::Less <==> other.key_cmp(self)
                == core::cmp::Ordering::Greater,
            self.key_cmp(other) == core::cmp::Ordering::Equal <==> other.key_cmp(self)
                == core::cmp::Ordering::Equal,
    ;

    proof fn lemma_trans(a: &Self, b: &Self, c: &Self)
        requires
            a.key_cmp(b) != core::cmp::Ordering::Greater,
            b.key_cmp(c) != core::cmp::Ordering::Greater,
        ensures
            a.key_cmp(c) != core::cmp::Ordering::Greater,
            a.key_cmp(b) == core::cmp::Ordering::Less || b.key_cmp(c) == core::cmp::Ordering::Less
                ==> a.key_cmp(c) == core::cmp::Ordering::Less,
    ;
}

/// Each element is strictly below the next: sorted, with no two elements
/// sharing a key.
pub open spec fn sorted_strict<T: SortKey>(s: Seq<T>) -> bool {
    forall|i: int, j: int|
        0 <= i < j < s.len() ==> #[trigger] s[i].key_cmp(&s[j]) == core::cmp::Ordering::Less
}

/// Where an element lands when inserted into a sorted sequence: before the
/// first element it is not above; dropped entirely if it meets an element
/// sharing its key, which keeps the value already present.
pub open spec fn spec_set_insert<T: SortKey>(s: Seq<T>, x: T) -> Seq<T>
    decreases s.len(),
{
    if s.len() == 0 {
        seq![x]
    } else if x.key_cmp(&s[0]) == core::cmp::Ordering::Less {
        seq![x].add(s)
    } else if x.key_cmp(&s[0]) == core::cmp::Ordering::Equal {
        s
    } else {
        seq![s[0]].add(spec_set_insert(s.drop_first(), x))
    }
}

/// Whether some element of `s` shares its key with `x`.
pub open spec fn has_key_of<T: SortKey>(s: Seq<T>, x: T) -> bool {
    exists|i: int|
        0 <= i < s.len() && #[trigger] s[i].key_cmp(&x) == core::cmp::Ordering::Equal
}

pub proof fn lemma_set_insert_sorted<T: SortKey>(s: Seq<T>, x: T)
    requires
        sorted_strict(s),
    ensures
        sorted_strict(spec_set_insert(s, x)),
        !has_key_of(s, x) ==> spec_set_insert(s, x).to_set() =~= s.to_set().insert(x),
        has_key_of(s, x) ==> spec_set_insert(s, x) == s,
        spec_set_insert(s, x).to_set().subset_of(s.to_set().insert(x)),
        s.to_set().subset_of(spec_set_insert(s, x).to_set()),
    decreases s.len(),
{
    let r = spec_set_insert(s, x);
    if s.len() == 0 {
        assert(r =~= seq![x]);
        assert(r.to_set() =~= s.to_set().insert(x)) by {
            lemma_to_set_singleton_add(s, x);
        }
    } else if x.key_cmp(&s[0]) == core::cmp::Ordering::Less {
        assert(r == seq![x].add(s));
        assert forall|i: int, j: int| 0 <= i < j < r.len() implies #[trigger] r[i].key_cmp(&r[j])
            == core::cmp::Ordering::Less by {
            if i == 0 {
                if j == 1 {
                    assert(r[j] == s[0]);
                } else {
                    assert(r[j] == s[j - 1]);
                    assert(s[0].key_cmp(&s[j - 1]) == core::cmp::Ordering::Less);
                    T::lemma_trans(&x, &s[0], &s[j - 1]);
                }
            } else {
                assert(r[i] == s[i - 1] && r[j] == s[j - 1]);
            }
        }
        assert forall|i: int| 0 <= i < s.len() implies #[trigger] s[i].key_cmp(&x)
            != core::cmp::Ordering::Equal by {
            if i == 0 {
                T::lemma_antisym(&x, &s[0]);
            } else {
                assert(s[0].key_cmp(&s[i]) == core::cmp::Ordering::Less);
                T::lemma_antisym(&x, &s[0]);
                T::lemma_trans(&x, &s[0], &s[i]);
                T::lemma_antisym(&x, &s[i]);
            }
        }
        assert(!has_key_of(s, x));
        assert(r.to_set() =~= s.to_set().insert(x)) by {
            lemma_to_set_cons(x, s);
        }
    } else if x.key_cmp(&s[0]) == core::cmp::Ordering::Equal {
        assert(s[0].key_cmp(&x) == core::cmp::Ordering::Equal) by {
            T::lemma_antisym(&x, &s[0]);
        }
        assert(has_key_of(s, x));
        assert(s.to_set().subset_of(s.to_set().insert(x)));
    } else {
        let tail = s.drop_first();
        assert(sorted_strict(tail)) by {
            assert forall|i: int, j: int| 0 <= i < j < tail.len() implies #[trigger] tail[i].key_cmp(
                &tail[j],
            ) == core::cmp::Ordering::Less by {
                assert(tail[i] == s[i + 1] && tail[j] == s[j + 1]);
            }
        }
        lemma_set_insert_sorted(tail, x);
        let rt = spec_set_insert(tail, x);
        assert(r == seq![s[0]].add(rt));
        // s[0] is strictly below x and below everything in rt.
        assert(s[0].key_cmp(&x) == core::cmp::Ordering::Less) by {
            T::lemma_antisym(&x, &s[0]);
        }
        assert forall|j: int| 0 <= j < rt.len() implies s[0].key_cmp(&rt[j])
            == core::cmp::Ordering::Less by {
            assert(rt[j] == r[j + 1]);
            assert(rt.to_set().contains(rt[j])) by {
                lemma_to_set_contains(rt, j);
            }
            if rt[j] == x {
            } else {
                assert(tail.to_set().insert(x).contains(rt[j]));
                assert(tail.to_set().contains(rt[j]));
                let k = lemma_to_set_index(tail, rt[j]);
                assert(s[0].key_cmp(&s[k + 1]) == core::cmp::Ordering::Less);
            }
        }
        assert forall|i: int, j: int| 0 <= i < j < r.len() implies #[trigger] r[i].key_cmp(&r[j])
            == core::cmp::Ordering::Less by {
            if i == 0 {
                assert(r[j] == rt[j - 1]);
            } else {
                assert(r[i] == rt[i - 1] && r[j] == rt[j - 1]);
            }
        }
        // key membership agrees between s and its tail here
        assert(has_key_of(s, x) <==> has_key_of(tail, x)) by {
            if has_key_of(s, x) {
                let i = choose|i: int|
                    0 <= i < s.len() && #[trigger] s[i].key_cmp(&x) == core::cmp::Ordering::Equal;
                if i == 0 {
                    T::lemma_antisym(&s[0], &x);
                } else {
                    assert(tail[i - 1].key_cmp(&x) == core::cmp::Ordering::Equal);
                }
            }
            if has_key_of(tail, x) {
                let i = choose|i: int|
                    0 <= i < tail.len() && #[trigger] tail[i].key_cmp(&x)
                        == core::cmp::Ordering::Equal;
                assert(s[i + 1].key_cmp(&x) == core::cmp::Ordering::Equal);
            }
        }
        if has_key_of(s, x) {
            assert(rt == tail);
            assert(r =~= s);
        } else {
            assert(rt.to_set() =~= tail.to_set().insert(x));
            lemma_to_set_cons(s[0], tail);
            lemma_to_set_cons(s[0], rt);
            assert(seq![s[0]].add(tail) =~= s);
            assert(r.to_set() =~= s.to_set().insert(x));
        }
        assert(r.to_set().subset_of(s.to_set().insert(x)));
        assert(s.to_set().subset_of(r.to_set()));
    }
}

/// `to_set` of a one-element extension, head form.
pub proof fn lemma_to_set_cons<T>(x: T, s: Seq<T>)
    ensures
        seq![x].add(s).to_set() =~= s.to_set().insert(x),
{
    let r = seq![x].add(s);
    assert forall|y: T| r.to_set().contains(y) implies s.to_set().insert(x).contains(y) by {
        let i = lemma_to_set_index(r, y);
        if i > 0 {
            lemma_to_set_contains(s, i - 1);
        }
    }
    assert forall|y: T| s.to_set().insert(x).contains(y) implies r.to_set().contains(y) by {
        if y == x {
            lemma_to_set_contains(r, 0);
        } else {
            let i = lemma_to_set_index(s, y);
            lemma_to_set_contains(r, i + 1);
        }
    }
}

pub proof fn lemma_to_set_singleton_add<T>(s: Seq<T>, x: T)
    requires
        s.len() == 0,
    ensures
        seq![x].to_set() =~= s.to_set().insert(x),
{
    lemma_to_set_contains(seq![x], 0);
    assert forall|y: T| seq![x].to_set().contains(y) implies s.to_set().insert(x).contains(y) by {
        let i = lemma_to_set_index(seq![x], y);
    }
}

/// An indexed element is in the sequence's set.
pub proof fn lemma_to_set_contains<T>(s: Seq<T>, i: int)
    requires
        0 <= i < s.len(),
    ensures
        s.to_set().contains(s[i]),
{
    assert(s.contains(s[i]));
}

/// An element of the sequence's set has an index.
pub proof fn lemma_to_set_index<T>(s: Seq<T>, y: T) -> (i: int)
    requires
        s.to_set().contains(y),
    ensures
        0 <= i < s.len() && s[i] == y,
{
    assert(s.contains(y));
    choose|i: int| 0 <= i < s.len() && s[i] == y
}

/// No two elements of a strictly sorted sequence are the same value.
pub proof fn lemma_sorted_distinct<T: SortKey>(s: Seq<T>, i: int, j: int)
    requires
        sorted_strict(s),
        0 <= i < j < s.len(),
    ensures
        s[i] != s[j],
{
    if s[i] == s[j] {
        T::lemma_refl(&s[i]);
    }
}

/// A strictly sorted sequence is determined by the set of its elements.
pub proof fn lemma_sorted_unique<T: SortKey>(a: Seq<T>, b: Seq<T>)
    requires
        sorted_strict(a),
        sorted_strict(b),
        a.to_set() == b.to_set(),
    ensures
        a == b,
    decreases a.len(),
{
    if a.len() == 0 {
        if b.len() > 0 {
            lemma_to_set_contains(b, 0);
            let i = lemma_to_set_index(a, b[0]);
        }
        assert(a =~= b);
    } else {
        lemma_to_set_contains(a, 0);
        let j = lemma_to_set_index(b, a[0]);
        lemma_to_set_contains(b, 0);
        let i = lemma_to_set_index(a, b[0]);
        if i > 0 && j > 0 {
            // a[0] < a[i] == b[0] < b[j] == a[0]: impossible
            assert(a[0].key_cmp(&a[i]) == core::cmp::Ordering::Less);
            assert(b[0].key_cmp(&b[j]) == core::cmp::Ordering::Less);
            T::lemma_trans(&a[0], &a[i], &a[0]);
            T::lemma_refl(&a[0]);
        }
        assert(a[0] == b[0]);
        let at = a.drop_first();
        let bt = b.drop_first();
        assert(sorted_strict(at)) by {
            assert forall|p: int, q: int| 0 <= p < q < at.len() implies #[trigger] at[p].key_cmp(
                &at[q],
            ) == core::cmp::Ordering::Less by {
                assert(at[p] == a[p + 1] && at[q] == a[q + 1]);
            }
        }
        assert(sorted_strict(bt)) by {
            assert forall|p: int, q: int| 0 <= p < q < bt.len() implies #[trigger] bt[p].key_cmp(
                &bt[q],
            ) == core::cmp::Ordering::Less by {
                assert(bt[p] == b[p + 1] && bt[q] == b[q + 1]);
            }
        }
        assert(at.to_set() =~= a.to_set().remove(a[0])) by {
            lemma_tail_set(a);
        }
        assert(bt.to_set() =~= b.to_set().remove(b[0])) by {
            lemma_tail_set(b);
        }
        lemma_sorted_unique(at, bt);
        assert(a =~= seq![a[0]].add(at));
        assert(b =~= seq![b[0]].add(bt));
    }
}

/// For a strictly sorted nonempty sequence, the tail's set is the whole
/// set without the head.
pub proof fn lemma_tail_set<T: SortKey>(s: Seq<T>)
    requires
        sorted_strict(s),
        s.len() > 0,
    ensures
        s.drop_first().to_set() =~= s.to_set().remove(s[0]),
{
    let t = s.drop_first();
    assert forall|y: T| t.to_set().contains(y) implies s.to_set().remove(s[0]).contains(y) by {
        let i = lemma_to_set_index(t, y);
        assert(t[i] == s[i + 1]);
        lemma_to_set_contains(s, i + 1);
        lemma_sorted_distinct(s, 0, i + 1);
    }
    assert forall|y: T| s.to_set().remove(s[0]).contains(y) implies t.to_set().contains(y) by {
        let i = lemma_to_set_index(s, y);
        assert(i != 0);
        assert(t[i - 1] == s[i]);
        lemma_to_set_contains(t, i - 1);
    }
}

/// A set of values kept in ascending key order; one value per key, the
/// first one inserted.
#[derive(Debug, Clone, PartialEq, Eq)]
pub struct SortedSet<T> {
    items: Vec<T>,
}

impl<T: SortKey> View for SortedSet<T> {
    type V = Seq<T>;

    closed spec fn view(&self) -> Seq<T> {
        self.items@
    }
}

impl<T: SortKey> SortedSet<T> {
    /// The ordering invariant.
    pub open spec fn wf(&self) -> bool {
        sorted_strict(self@)
    }

    pub fn new() -> (r: Self)
        ensures
            r@ == Seq::<T>::empty(),
            r.wf(),
    {
        SortedSet { items: Vec::new() }
    }

    pub fn len(&self) -> (n: usize)
        ensures
            n == self@.len(),
    {
        self.items.len()
    }

    pub fn get(&self, i: usize) -> (r: &T)
        requires
            i < self@.len(),
        ensures
            *r == self@[i as int],
    {
        &self.items[i]
    }

    pub fn as_slice(&self) -> (r: &Vec<T>)
        ensures
            r@ == self@,
    {
        &self.items
    }

    /// Insert a value at its key's place; a value whose key is already
    /// present is dropped.
    pub fn insert(&mut self, x: T)
        requires
            old(self).wf(),
        ensures
            final(self).wf(),
            final(self)@ == spec_set_insert(old(self)@, x),
    {
        let ghost s0 = self@;
        proof {
            lemma_set_insert_sorted(s0, x);
        }
        let len = self.items.len();
        let mut i: usize = 0;
        assert(s0.take(0) =~= Seq::<T>::empty());
        assert(s0.skip(0) =~= s0);
        loop
            invariant
                i <= len,
                len == s0.len(),
                s0 == old(self)@,
                self@ == s0,
                self.wf(),
                sorted_strict(spec_set_insert(s0, x)),
                spec_set_insert(s0, x) == s0.take(i as int).add(
                    spec_set_insert(s0.skip(i as int), x),
                ),
            decreases len - i,
        {
            if i == len {
                assert(s0.skip(len as int) =~= Seq::<T>::empty());
                self.items.push(x);
                assert(self@ =~= s0.take(len as int).add(spec_set_insert(s0.skip(len as int), x)));
                return ;
            }
            assert(s0.skip(i as int)[0] == s0[i as int]);
            let o = x.cmp_exec(&self.items[i]);
            match o {
                core::cmp::Ordering::Greater => {
                    assert(spec_set_insert(s0.skip(i as int), x) == seq![s0[i as int]].add(
                        spec_set_insert(s0.skip(i as int).drop_first(), x),
                    ));
                    assert(s0.skip(i as int).drop_first() =~= s0.skip(i + 1));
                    assert(s0.take(i as int).add(seq![s0[i as int]]) =~= s0.take(i + 1));
                    assert(s0.take(i as int).add(
                        seq![s0[i as int]].add(spec_set_insert(s0.skip(i + 1), x)),
                    ) =~= s0.take(i + 1).add(spec_set_insert(s0.skip(i + 1), x)));
                    i = i + 1;
                },
                core::cmp::Ordering::Equal => {
                    assert(spec_set_insert(s0.skip(i as int), x) == s0.skip(i as int));
                    assert(s0.take(i as int).add(s0.skip(i as int)) =~= s0);
                    return ;
                },
                core::cmp::Ordering::Less => {
                    assert(spec_set_insert(s0.skip(i as int), x) == seq![x].add(s0.skip(i as int)));
                    self.items.insert(i, x);
                    assert(self@ =~= s0.take(i as int).add(seq![x].add(s0.skip(i as int))));
                    return ;
                },
            }
        }
    }
}

/// A key-to-value map kept in ascending key order. Inserting under a key
/// already present replaces the value and keeps the stored key.
pub open spec fn spec_map_insert<K: SortKey, V>(s: Seq<(K, V)>, k: K, v: V) -> Seq<(K, V)>
    decreases s.len(),
{
    if s.len() == 0 {
        seq![(k, v)]
    } else if k.key_cmp(&s[0].0) == core::cmp::Ordering::Less {
        seq![(k, v)].add(s)
    } else if k.key_cmp(&s[0].0) == core::cmp::Ordering::Equal {
        seq![(s[0].0, v)].add(s.drop_first())
    } else {
        seq![s[0]].add(spec_map_insert(s.drop_first(), k, v))
    }
}

/// Keys strictly ascend.
pub open spec fn map_sorted<K: SortKey, V>(s: Seq<(K, V)>) -> bool {
    forall|i: int, j: int|
        0 <= i < j < s.len() ==> #[trigger] s[i].0.key_cmp(&s[j].0) == core::cmp::Ordering::Less
}

pub proof fn lemma_map_insert_sorted<K: SortKey, V>(s: Seq<(K, V)>, k: K, v: V)
    requires
        map_sorted(s),
    ensures
        map_sorted(spec_map_insert(s, k, v)),
    decreases s.len(),
{
    let r = spec_map_insert(s, k, v);
    if s.len() == 0 {
    } else if k.key_cmp(&s[0].0) == core::cmp::Ordering::Less {
        assert forall|i: int, j: int| 0 <= i < j < r.len() implies #[trigger] r[i].0.key_cmp(
            &r[j].0,
        ) == core::cmp::Ordering::Less by {
            if i == 0 {
                if j == 1 {
                    assert(r[j] == s[0]);
                } else {
                    assert(r[j] == s[j - 1]);
                    assert(s[0].0.key_cmp(&s[j - 1].0) == core::cmp::Ordering::Less);
                    K::lemma_trans(&k, &s[0].0, &s[j - 1].0);
                }
            } else {
                assert(r[i] == s[i - 1] && r[j] == s[j - 1]);
            }
        }
    } else if k.key_cmp(&s[0].0) == core::cmp::Ordering::Equal {
        assert forall|i: int, j: int| 0 <= i < j < r.len() implies #[trigger] r[i].0.key_cmp(
            &r[j].0,
        ) == core::cmp::Ordering::Less by {
            if i == 0 {
                assert(r[0].0 == s[0].0);
                assert(r[j] == s.drop_first()[j - 1]);
                assert(s.drop_first()[j - 1] == s[j]);
            } else {
                assert(r[i] == s[i] && r[j] == s[j]);
            }
        }
    } else {
        let tail = s.drop_first();
        assert(map_sorted(tail)) by {
            assert forall|i: int, j: int| 0 <= i < j < tail.len() implies #[trigger] tail[i].0.key_cmp(
                &tail[j].0,
            ) == core::cmp::Ordering::Less by {
                assert(tail[i] == s[i + 1] && tail[j] == s[j + 1]);
            }
        }
        lemma_map_insert_sorted(tail, k, v);
        let rt = spec_map_insert(tail, k, v);
        assert(k.key_cmp(&s[0].0) == core::cmp::Ordering::Greater);
        assert(s[0].0.key_cmp(&k) == core::cmp::Ordering::Less) by {
            K::lemma_antisym(&k, &s[0].0);
        }
        assert forall|j: int| 0 <= j < rt.len() implies s[0].0.key_cmp(&rt[j].0)
            == core::cmp::Ordering::Less by {
            lemma_map_insert_keys(tail, k, v, j);
            if rt[j].0 == k {
            } else {
                let m = choose|m: int| 0 <= m < tail.len() && tail[m].0 == rt[j].0;
                assert(s[0].0.key_cmp(&s[m + 1].0) == core::cmp::Ordering::Less);
            }
        }
        assert forall|i: int, j: int| 0 <= i < j < r.len() implies #[trigger] r[i].0.key_cmp(
            &r[j].0,
        ) == core::cmp::Ordering::Less by {
            if i == 0 {
                assert(r[j] == rt[j - 1]);
            } else {
                assert(r[i] == rt[i - 1] && r[j] == rt[j - 1]);
            }
        }
    }
}

/// Every key in the inserted map is either the new key or one of the old keys.
pub proof fn lemma_map_insert_keys<K: SortKey, V>(s: Seq<(K, V)>, k: K, v: V, j: int)
    requires
        0 <= j < spec_map_insert(s, k, v).len(),
    ensures
        spec_map_insert(s, k, v)[j].0 == k || exists|m: int|
            0 <= m < s.len() && s[m].0 == spec_map_insert(s, k, v)[j].0,
    decreases s.len(),
{
    let r = spec_map_insert(s, k, v);
    if s.len() == 0 {
    } else if k.key_cmp(&s[0].0) == core::cmp::Ordering::Less {
        if j > 0 {
            assert(r[j] == s[j - 1]);
        }
    } else if k.key_cmp(&s[0].0) == core::cmp::Ordering::Equal {
        if j == 0 {
            assert(r[0].0 == s[0].0);
        } else {
            assert(r[j] == s.drop_first()[j - 1]);
            assert(s.drop_first()[j - 1] == s[j]);
        }
    } else {
        if j == 0 {
        } else {
            lemma_map_insert_keys(s.drop_first(), k, v, j - 1);
            assert(r[j] == spec_map_insert(s.drop_first(), k, v)[j - 1]);
            if r[j].0 != k {
                let m = choose|m: int|
                    0 <= m < s.drop_first().len() && s.drop_first()[m].0 == r[j].0;
                assert(s[m + 1].0 == r[j].0);
            }
        }
    }
}

#[derive(Debug, Clone, PartialEq, Eq)]
pub struct SortedMap<K, V> {
    entries: Vec<(K, V)>,
}

impl<K: SortKey, V> View for SortedMap<K, V> {
    type V = Seq<(K, V)>;

    closed spec fn view(&self) -> Seq<(K, V)> {
        self.entries@
    }
}

impl<K: SortKey, V> SortedMap<K, V> {
    pub open spec fn wf(&self) -> bool {
        map_sorted(self@)
    }

    pub fn new() -> (r: Self)
        ensures
            r@ == Seq::<(K, V)>::empty(),
            r.wf(),
    {
        SortedMap { entries: Vec::new() }
    }

    pub fn len(&self) -> (n: usize)
        ensures
            n == self@.len(),
    {
        self.entries.len()
    }

    pub fn get(&self, i: usize) -> (r: &(K, V))
        requires
            i < self@.len(),
        ensures
            *r == self@[i as int],
    {
        &self.entries[i]
    }

    pub fn as_slice(&self) -> (r: &Vec<(K, V)>)
        ensures
            r@ == self@,
    {
        &self.entries
    }

    /// Insert a binding; a later binding for an already-present key
    /// replaces the value.
    pub fn insert(&mut self, k: K, v: V)
        requires
            old(self).wf(),
        ensures
            final(self).wf(),
            final(self)@ == spec_map_insert(old(self)@, k, v),
    {
        let ghost s0 = self@;
        proof {
            lemma_map_insert_sorted(s0, k, v);
        }
        let len = self.entries.len();
        let mut i: usize = 0;
        assert(s0.take(0) =~= Seq::<(K, V)>::empty());
        assert(s0.skip(0) =~= s0);
        loop
            invariant
                i <= len,
                len == s0.len(),
                s0 == old(self)@,
                self@ == s0,
                self.wf(),
                map_sorted(spec_map_insert(s0, k, v)),
                spec_map_insert(s0, k, v) == s0.take(i as int).add(
                    spec_map_insert(s0.skip(i as int), k, v),
                ),
            decreases len - i,
        {
            if i == len {
                assert(s0.skip(len as int) =~= Seq::<(K, V)>::empty());
                self.entries.push((k, v));
                assert(self@ =~= s0.take(len as int).add(
                    spec_map_insert(s0.skip(len as int), k, v),
                ));
                return ;
            }
            assert(s0.skip(i as int)[0] == s0[i as int]);
            let o = k.cmp_exec(&self.entries[i].0);
            match o {
                core::cmp::Ordering::Greater => {
                    assert(spec_map_insert(s0.skip(i as int), k, v) == seq![s0[i as int]].add(
                        spec_map_insert(s0.skip(i as int).drop_first(), k, v),
                    ));
                    assert(s0.skip(i as int).drop_first() =~= s0.skip(i + 1));
                    assert(s0.take(i as int).add(seq![s0[i as int]]) =~= s0.take(i + 1));
                    assert(s0.take(i as int).add(
                        seq![s0[i as int]].add(spec_map_insert(s0.skip(i + 1), k, v)),
                    ) =~= s0.take(i + 1).add(spec_map_insert(s0.skip(i + 1), k, v)));
                    i = i + 1;
                },
                core::cmp::Ordering::Equal => {
                    assert(spec_map_insert(s0.skip(i as int), k, v) == seq![
                        (s0[i as int].0, v),
                    ].add(s0.skip(i as int).drop_first()));
                    let old_entry = self.entries.remove(i);
                    self.entries.insert(i, (old_entry.0, v));
                    assert(s0.skip(i as int).drop_first() =~= s0.skip(i + 1));
                    assert(self@ =~= s0.take(i as int).add(
                        seq![(s0[i as int].0, v)].add(s0.skip(i + 1)),
                    ));
                    return ;
                },
                core::cmp::Ordering::Less => {
                    assert(spec_map_insert(s0.skip(i as int), k, v) == seq![(k, v)].add(
                        s0.skip(i as int),
                    ));
                    self.entries.insert(i, (k, v));
                    assert(self@ =~= s0.take(i as int).add(seq![(k, v)].add(s0.skip(i as int))));
                    return ;
                },
            }
        }
    }
}


/// The index of the entry whose key shares `k`'s key, or -1 when no
/// entry does.
pub open spec fn spec_find_key<K: SortKey, V>(s: Seq<(K, V)>, k: K) -> int
    decreases s.len(),
{
    if s.len() == 0 {
        -1
    } else if s[0].0.key_cmp(&k) == core::cmp::Ordering::Equal {
        0
    } else {
        let r = spec_find_key(s.drop_first(), k);
        if r == -1 {
            -1
        } else {
            r + 1
        }
    }
}

pub proof fn lemma_find_key<K: SortKey, V>(s: Seq<(K, V)>, k: K)
    ensures
        spec_find_key(s, k) == -1 ==> forall|i: int|
            0 <= i < s.len() ==> #[trigger] s[i].0.key_cmp(&k) != core::cmp::Ordering::Equal,
        spec_find_key(s, k) != -1 ==> 0 <= spec_find_key(s, k) < s.len() && s[spec_find_key(
            s,
            k,
        )].0.key_cmp(&k) == core::cmp::Ordering::Equal,
    decreases s.len(),
{
    if s.len() > 0 {
        lemma_find_key(s.drop_first(), k);
        if s[0].0.key_cmp(&k) != core::cmp::Ordering::Equal {
            if spec_find_key(s.drop_first(), k) == -1 {
                assert forall|i: int| 0 <= i < s.len() implies #[trigger] s[i].0.key_cmp(&k)
                    != core::cmp::Ordering::Equal by {
                    if i > 0 {
                        assert(s.drop_first()[i - 1] == s[i]);
                    }
                }
            } else {
                assert(s.drop_first()[spec_find_key(s.drop_first(), k)] == s[spec_find_key(s, k)]);
            }
        }
    }
}

impl<K: SortKey, V> SortedMap<K, V> {
    /// Find the entry stored under the key, if any.
    pub fn get_index_of(&self, k: &K) -> (r: Option<usize>)
        ensures
            spec_find_key(self@, *k) == -1 ==> r is None,
            spec_find_key(self@, *k) != -1 ==> r == Option::Some(
                spec_find_key(self@, *k) as usize,
            ),
    {
        let mut i: usize = 0;
        assert(self@.skip(0) =~= self@);
        loop
            invariant
                i <= self@.len(),
                spec_find_key(self@.skip(i as int), *k) == -1 ==> spec_find_key(self@, *k) == -1,
                spec_find_key(self@.skip(i as int), *k) != -1 ==> spec_find_key(self@, *k)
                    == spec_find_key(self@.skip(i as int), *k) + i,
            decreases self@.len() - i,
        {
            if i == self.len() {
                assert(self@.skip(i as int).len() == 0);
                return Option::None;
            }
            assert(self@.skip(i as int)[0] == self@[i as int]);
            let o = self.get(i).0.cmp_exec(k);
            if matches!(o, core::cmp::Ordering::Equal) {
                return Option::Some(i);
            }
            assert(self@.skip(i as int).drop_first() =~= self@.skip(i + 1));
            proof {
                lemma_find_key(self@.skip(i + 1), *k);
                if spec_find_key(self@.skip(i + 1), *k) == -1 {
                    assert(spec_find_key(self@.skip(i as int), *k) == -1);
                } else {
                    assert(spec_find_key(self@.skip(i as int), *k) == spec_find_key(
                        self@.skip(i + 1),
                        *k,
                    ) + 1);
                }
            }
            i = i + 1;
        }
    }

    /// Replace the value at an entry, keeping its key.
    pub fn swap_value(&mut self, i: usize, v: V) -> (prev: V)
        requires
            old(self).wf(),
            i < old(self)@.len(),
        ensures
            final(self).wf(),
            final(self)@ == old(self)@.update(i as int, (old(self)@[i as int].0, v)),
            prev == old(self)@[i as int].1,
    {
        let ghost s0 = self@;
        let entry = self.entries.remove(i);
        let key = entry.0;
        let prev = entry.1;
        self.entries.insert(i, (key, v));
        proof {
            assert(self@ =~= s0.update(i as int, (s0[i as int].0, v)));
            assert forall|p: int, q: int| 0 <= p < q < self@.len() implies #[trigger] self@[p].0.key_cmp(
                &self@[q].0,
            ) == core::cmp::Ordering::Less by {
                assert(self@[p].0 == s0[p].0);
                assert(self@[q].0 == s0[q].0);
            }
        }
        prev
    }
}


/// Insert each item in turn.
pub open spec fn spec_set_insert_all<T: SortKey>(s: Seq<T>, items: Seq<T>) -> Seq<T>
    decreases items.len(),
{
    if items.len() == 0 {
        s
    } else {
        spec_set_insert_all(spec_set_insert(s, items[0]), items.drop_first())
    }
}

pub proof fn lemma_set_insert_all_push<T: SortKey>(s: Seq<T>, items: Seq<T>, x: T)
    ensures
        spec_set_insert_all(s, items.push(x)) == spec_set_insert(spec_set_insert_all(s, items), x),
    decreases items.len(),
{
    reveal_with_fuel(spec_set_insert_all, 3);
    if items.len() == 0 {
        assert(items.push(x)[0] == x);
        assert(items.push(x).drop_first() =~= Seq::<T>::empty());
    } else {
        lemma_set_insert_all_push(spec_set_insert(s, items[0]), items.drop_first(), x);
        assert(items.push(x)[0] == items[0]);
        assert(items.push(x).drop_first() =~= items.drop_first().push(x));
    }
}

/// Insert each binding in turn.
pub open spec fn spec_map_insert_all<K: SortKey, V>(s: Seq<(K, V)>, items: Seq<(K, V)>) -> Seq<
    (K, V),
>
    decreases items.len(),
{
    if items.len() == 0 {
        s
    } else {
        spec_map_insert_all(spec_map_insert(s, items[0].0, items[0].1), items.drop_first())
    }
}

pub proof fn lemma_map_insert_all_push<K: SortKey, V>(s: Seq<(K, V)>, items: Seq<(K, V)>, x: (K, V))
    ensures
        spec_map_insert_all(s, items.push(x)) == spec_map_insert(
            spec_map_insert_all(s, items),
            x.0,
            x.1,
        ),
    decreases items.len(),
{
    reveal_with_fuel(spec_map_insert_all, 3);
    if items.len() == 0 {
        assert(items.push(x)[0] == x);
        assert(items.push(x).drop_first() =~= Seq::<(K, V)>::empty());
    } else {
        lemma_map_insert_all_push(
            spec_map_insert(s, items[0].0, items[0].1),
            items.drop_first(),
            x,
        );
        assert(items.push(x)[0] == items[0]);
        assert(items.push(x).drop_first() =~= items.drop_first().push(x));
    }
}

impl<T: SortKey + crate::strutil::Dup> SortedSet<T> {
    /// Insert a copy of every item.
    pub fn insert_all(&mut self, items: &Vec<T>)
        requires
            old(self).wf(),
        ensures
            final(self).wf(),
            final(self)@ == spec_set_insert_all(old(self)@, items@),
    {
        let ghost s0 = self@;
        let mut i: usize = 0;
        assert(items@.take(0) =~= Seq::<T>::empty());
        while i < items.len()
            invariant
                i <= items.len(),
                self.wf(),
                self@ == spec_set_insert_all(s0, items@.take(i as int)),
            decreases items.len() - i,
        {
            self.insert(items[i].dup());
            proof {
                lemma_set_insert_all_push(s0, items@.take(i as int), items@[i as int]);
                assert(items@.take(i as int).push(items@[i as int]) =~= items@.take(i + 1));
            }
            i = i + 1;
        }
        assert(items@.take(items@.len() as int) =~= items@);
    }
}

impl<K: SortKey + crate::strutil::Dup, V: crate::strutil::Dup> SortedMap<K, V> {
    /// Insert a copy of every binding.
    pub fn insert_all(&mut self, items: &Vec<(K, V)>)
        requires
            old(self).wf(),
        ensures
            final(self).wf(),
            final(self)@ == spec_map_insert_all(old(self)@, items@),
    {
        let ghost s0 = self@;
        let mut i: usize = 0;
        assert(items@.take(0) =~= Seq::<(K, V)>::empty());
        while i < items.len()
            invariant
                i <= items.len(),
                self.wf(),
                self@ == spec_map_insert_all(s0, items@.take(i as int)),
            decreases items.len() - i,
        {
            let pair = items[i].dup();
            self.insert(pair.0, pair.1);
            proof {
                lemma_map_insert_all_push(s0, items@.take(i as int), items@[i as int]);
                assert(items@.take(i as int).push(items@[i as int]) =~= items@.take(i + 1));
            }
            i = i + 1;
        }
        assert(items@.take(items@.len() as int) =~= items@);
    }
}


impl<T: SortKey> SortedSet<T> {
    /// Remove the element at an index; the rest keep their order.
    pub fn remove_at(&mut self, i: usize) -> (x: T)
        requires
            old(self).wf(),
            i < old(self)@.len(),
        ensures
            final(self).wf(),
            final(self)@ == old(self)@.remove(i as int),
            x == old(self)@[i as int],
    {
        let ghost s0 = self@;
        let x = self.items.remove(i);
        proof {
            assert forall|p: int, q: int| 0 <= p < q < self@.len() implies #[trigger] self@[p].key_cmp(
                &self@[q],
            ) == core::cmp::Ordering::Less by {
                let p0: int = if p < i { p } else { p + 1 };
                let q0: int = if q < i { q } else { q + 1 };
                assert(self@[p] == s0[p0]);
                assert(self@[q] == s0[q0]);
            }
        }
        x
    }
}

} // verus!
