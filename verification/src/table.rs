//! Keyed tables: at most one value per key, walked in insertion order.

use vstd::prelude::*;

verus! {

/// A key that can be compared for equality.
pub trait Key: Copy {
    /// Whether both keys are the same.
    fn same(&self, other: &Self) -> (r: bool)
        ensures
            r == (*self == *other),
    ;
}

impl Key for u16 {
    fn same(&self, other: &Self) -> (r: bool) {
        *self == *other
    }
}

/// Whether some entry has the key `k`.
pub open spec fn has_key<K, V>(s: Seq<(K, V)>, k: K) -> bool {
    exists|i: int| 0 <= i < s.len() && (#[trigger] s[i]).0 == k
}

/// The position of the entry with the key `k`.
pub open spec fn pos<K, V>(s: Seq<(K, V)>, k: K) -> int {
    choose|i: int| 0 <= i < s.len() && (#[trigger] s[i]).0 == k
}

/// The value that `k` maps to, if any.
pub open spec fn lookup<K, V>(s: Seq<(K, V)>, k: K) -> Option<V> {
    if has_key(s, k) {
        Some(s[pos(s, k)].1)
    } else {
        None
    }
}

/// The table with `k` mapped to `v`: in place where `k` was there, else at the end.
pub open spec fn put<K, V>(s: Seq<(K, V)>, k: K, v: V) -> Seq<(K, V)> {
    if has_key(s, k) {
        s.update(pos(s, k), (k, v))
    } else {
        s.push((k, v))
    }
}

/// Wants the entries of the other keys.
pub open spec fn key_differs<K, V>(k: K) -> spec_fn((K, V)) -> bool {
    |e: (K, V)| e.0 != k
}

/// The table without the entry of `k`.
pub open spec fn without<K, V>(s: Seq<(K, V)>, k: K) -> Seq<(K, V)> {
    s.filter(key_differs(k))
}

/// No key occurs twice.
pub open spec fn distinct<K, V>(s: Seq<(K, V)>) -> bool {
    forall|i: int, j: int| 0 <= i < j < s.len() ==> (#[trigger] s[i]).0 != (#[trigger] s[j]).0
}

/// With distinct keys, an entry is found at its own position.
pub proof fn lemma_lookup_at<K, V>(s: Seq<(K, V)>, i: int)
    requires
        distinct(s),
        0 <= i < s.len(),
    ensures
        has_key(s, s[i].0),
        pos(s, s[i].0) == i,
        lookup(s, s[i].0) == Some(s[i].1),
{
    let p = pos(s, s[i].0);
    if p < i {
        assert(s[p].0 != s[i].0);
    } else if i < p {
        assert(s[i].0 != s[p].0);
    }
}

/// What a table holds after `put`.
pub proof fn lemma_put<K, V>(s: Seq<(K, V)>, k: K, v: V)
    requires
        distinct(s),
    ensures
        distinct(put(s, k, v)),
        lookup(put(s, k, v), k) == Some(v),
        forall|k2: K| k2 != k ==> #[trigger] lookup(put(s, k, v), k2) == lookup(s, k2),
        forall|k2: K| #[trigger] has_key(put(s, k, v), k2) <==> has_key(s, k2) || k2 == k,
{
    let t = put(s, k, v);
    assert(distinct(t)) by {
        if has_key(s, k) {
            let p = pos(s, k);
            assert forall|i: int, j: int| 0 <= i < j < t.len() implies (#[trigger] t[i]).0 != (
            #[trigger] t[j]).0 by {
                assert(t[i].0 == s[i].0);
                assert(t[j].0 == s[j].0);
            }
        } else {
            assert forall|i: int, j: int| 0 <= i < j < t.len() implies (#[trigger] t[i]).0 != (
            #[trigger] t[j]).0 by {
                assert(t[i] == s[i]);
                if j < s.len() {
                    assert(t[j] == s[j]);
                }
            }
        }
    }
    if has_key(s, k) {
        let p = pos(s, k);
        assert(t[p] == (k, v));
        lemma_lookup_at(t, p);
    } else {
        assert(t[s.len() as int] == (k, v));
        lemma_lookup_at(t, s.len() as int);
    }
    assert forall|k2: K| k2 != k implies #[trigger] lookup(t, k2) == lookup(s, k2) && (has_key(t, k2) <==> has_key(s, k2)) by {
        if has_key(s, k2) {
            let q = pos(s, k2);
            assert(t[q] == s[q]);
            lemma_lookup_at(t, q);
        }
        if has_key(t, k2) {
            let q = pos(t, k2);
            if q < s.len() {
                assert(s[q].0 == t[q].0);
            }
        }
    }
    assert forall|k2: K| #[trigger] has_key(t, k2) <==> has_key(s, k2) || k2 == k by {
        if k2 != k {
            assert(lookup(t, k2) == lookup(s, k2));
        } else {
            assert(lookup(t, k) == Some(v));
        }
    }
}

/// Rows of a filtered table come from the table, in order.
pub proof fn lemma_filter_distinct<K, V>(s: Seq<(K, V)>, p: spec_fn((K, V)) -> bool)
    requires
        distinct(s),
    ensures
        distinct(s.filter(p)),
        forall|k: K| #[trigger] lookup(s.filter(p), k) == (match lookup(s, k) {
            Some(v) => if p((k, v)) {
                Some(v)
            } else {
                None
            },
            None => None::<V>,
        }),
    decreases s.len(),
{
    let f = s.filter(p);
    assert forall|x: (K, V)| f.contains(x) <==> s.contains(x) && p(x) by {
        crate::rows::lemma_filter_contains(s, p, x);
    }
    lemma_filter_keys_distinct(s, p);
    assert forall|k: K| #[trigger] lookup(f, k) == (match lookup(s, k) {
        Some(v) => if p((k, v)) {
            Some(v)
        } else {
            None
        },
        None => None::<V>,
    }) by {
        if has_key(f, k) {
            let i = pos(f, k);
            assert(f.contains(f[i]));
            let j = choose|j: int| 0 <= j < s.len() && s[j] == f[i];
            lemma_lookup_at(s, j);
            lemma_lookup_at(f, i);
        } else if has_key(s, k) {
            let j = pos(s, k);
            assert(s.contains(s[j]));
            if p(s[j]) {
                assert(f.contains(s[j]));
                let i = choose|i: int| 0 <= i < f.len() && f[i] == s[j];
                assert(f[i].0 == k);
            }
        }
    }
}

proof fn lemma_filter_keys_distinct<K, V>(s: Seq<(K, V)>, p: spec_fn((K, V)) -> bool)
    requires
        distinct(s),
    ensures
        distinct(s.filter(p)),
    decreases s.len(),
{
    reveal(Seq::filter);
    if s.len() > 0 {
        let t = s.drop_last();
        assert forall|i: int, j: int| 0 <= i < j < t.len() implies (#[trigger] t[i]).0 != (
        #[trigger] t[j]).0 by {
            assert(t[i] == s[i] && t[j] == s[j]);
        }
        lemma_filter_keys_distinct(t, p);
        let f = t.filter(p);
        if p(s.last()) {
            let g = f.push(s.last());
            assert forall|i: int, j: int| 0 <= i < j < g.len() implies (#[trigger] g[i]).0 != (
            #[trigger] g[j]).0 by {
                assert(g[i] == f[i]);
                if j < f.len() {
                    assert(g[j] == f[j]);
                } else {
                    assert(f.contains(f[i]));
                    crate::rows::lemma_filter_contains(t, p, f[i]);
                    let m = choose|m: int| 0 <= m < t.len() && t[m] == f[i];
                    assert(s[m] == t[m]);
                    assert(s[m].0 != s[s.len() - 1].0);
                }
            }
        }
    }
}

/// What a table holds after `without`.
pub proof fn lemma_without<K, V>(s: Seq<(K, V)>, k: K)
    requires
        distinct(s),
    ensures
        distinct(without(s, k)),
        lookup(without(s, k), k) is None,
        !has_key(without(s, k), k),
        forall|k2: K| k2 != k ==> #[trigger] lookup(without(s, k), k2) == lookup(s, k2),
        !has_key(s, k) ==> without(s, k) == s,
{
    lemma_filter_distinct(s, key_differs(k));
    assert(lookup(without(s, k), k) is None);
    if !has_key(s, k) {
        assert forall|i: int| 0 <= i < s.len() implies (#[trigger] s[i]).0 != k by {}
        crate::rows::lemma_filter_all(s, key_differs(k));
    }
}

/// Removing the one entry at the key's position is what `without` does.
proof fn lemma_without_at<K, V>(s: Seq<(K, V)>, i: int)
    requires
        distinct(s),
        0 <= i < s.len(),
    ensures
        without(s, s[i].0) == s.remove(i),
    decreases s.len(),
{
    reveal(Seq::filter);
    let k = s[i].0;
    let p = key_differs::<K, V>(k);
    let t = s.drop_last();
    assert forall|a: int, b: int| 0 <= a < b < t.len() implies (#[trigger] t[a]).0 != (
    #[trigger] t[b]).0 by {
        assert(t[a] == s[a] && t[b] == s[b]);
    }
    if i == s.len() - 1 {
        assert forall|j: int| 0 <= j < t.len() implies p(#[trigger] t[j]) by {
            assert(t[j] == s[j]);
            assert(s[j].0 != s[i].0);
        }
        crate::rows::lemma_filter_all(t, p);
        assert(s.remove(i) =~= t);
    } else {
        assert(t[i] == s[i]);
        lemma_without_at(t, i);
        assert(s[i].0 != s[s.len() - 1].0);
        assert(p(s.last()));
        assert(s.remove(i) =~= t.remove(i).push(s.last()));
    }
}

/// The table with every value replaced by what `f` makes of it.
pub open spec fn map_table<K, V, W>(s: Seq<(K, V)>, f: spec_fn(V) -> W) -> Seq<(K, W)> {
    s.map_values(|e: (K, V)| (e.0, f(e.1)))
}

/// Keys and positions of a table survive a change of its values.
pub proof fn lemma_map_table<K, V, W>(s: Seq<(K, V)>, f: spec_fn(V) -> W)
    requires
        distinct(s),
    ensures
        distinct(map_table(s, f)),
        forall|k: K| #[trigger] has_key(map_table(s, f), k) == has_key(s, k),
        forall|k: K| #[trigger] lookup(map_table(s, f), k) == (match lookup(s, k) {
            Some(v) => Some(f(v)),
            None => None::<W>,
        }),
        forall|k: K, v: V| #[trigger] map_table(put(s, k, v), f) == put(map_table(s, f), k, f(v)),
        forall|k: K| #[trigger] map_table(without(s, k), f) == without(map_table(s, f), k),
{
    let m = map_table(s, f);
    assert(distinct(m));
    assert forall|k: K| #[trigger] has_key(m, k) == has_key(s, k) by {
        if has_key(s, k) {
            assert(m[pos(s, k)].0 == k);
        }
        if has_key(m, k) {
            assert(s[pos(m, k)].0 == k);
        }
    }
    assert forall|k: K| #[trigger] lookup(m, k) == (match lookup(s, k) {
        Some(v) => Some(f(v)),
        None => None::<W>,
    }) by {
        if has_key(s, k) {
            let i = pos(s, k);
            assert(m[i].0 == k);
            lemma_lookup_at(m, i);
        } else {
            assert(!has_key(m, k));
        }
    }
    assert forall|k: K, v: V| #[trigger] map_table(put(s, k, v), f) == put(m, k, f(v)) by {
        assert(has_key(m, k) == has_key(s, k));
        if has_key(s, k) {
            let i = pos(s, k);
            assert(m[i].0 == k);
            lemma_lookup_at(m, i);
        }
        assert(map_table(put(s, k, v), f) =~= put(m, k, f(v)));
    }
    assert forall|k: K| #[trigger] map_table(without(s, k), f) == without(m, k) by {
        lemma_map_without(s, f, k);
    }
}

proof fn lemma_map_without<K, V, W>(s: Seq<(K, V)>, f: spec_fn(V) -> W, k: K)
    ensures
        map_table(without(s, k), f) == without(map_table(s, f), k),
    decreases s.len(),
{
    reveal(Seq::filter);
    let m = map_table(s, f);
    if s.len() > 0 {
        let t = s.drop_last();
        lemma_map_without(t, f, k);
        assert(m.drop_last() =~= map_table(t, f));
        assert(m.last().0 == s.last().0);
        assert(map_table(without(s, k), f) =~= without(m, k));
    } else {
        assert(map_table(without(s, k), f) =~= without(m, k));
    }
}

/// A table from keys to values, walked in insertion order.
pub struct Table<K, V> {
    entries: Vec<(K, V)>,
}

impl<K, V> View for Table<K, V> {
    type V = Seq<(K, V)>;

    closed spec fn view(&self) -> Seq<(K, V)> {
        self.entries@
    }
}

impl<K: Key, V> Table<K, V> {
    /// An empty table.
    pub fn new() -> (r: Self)
        ensures
            r@ == Seq::<(K, V)>::empty(),
    {
        Table { entries: Vec::new() }
    }

    /// The entries, in order.
    pub fn into_entries(self) -> (r: Vec<(K, V)>)
        ensures
            r@ == self@,
    {
        self.entries
    }

    /// The number of entries.
    pub fn len(&self) -> (r: usize)
        ensures
            r == self@.len(),
    {
        self.entries.len()
    }

    /// Whether there is no entry.
    pub fn is_empty(&self) -> (r: bool)
        ensures
            r == (self@.len() == 0),
    {
        self.entries.len() == 0
    }

    /// The key at position `i`.
    pub fn key_at(&self, i: usize) -> (r: K)
        requires
            i < self@.len(),
        ensures
            r == self@[i as int].0,
    {
        self.entries[i].0
    }

    /// The value at position `i`.
    pub fn value_at(&self, i: usize) -> (r: &V)
        requires
            i < self@.len(),
        ensures
            *r == self@[i as int].1,
    {
        &self.entries[i].1
    }

    /// The value at position `i`, to be changed in place.
    pub fn value_mut(&mut self, i: usize) -> (r: &mut V)
        requires
            i < old(self)@.len(),
        ensures
            *r == old(self)@[i as int].1,
            final(self)@ == old(self)@.update(i as int, (old(self)@[i as int].0, *final(r))),
    {
        &mut self.entries[i].1
    }

    /// The position of the entry with the key `k`.
    pub fn position(&self, k: &K) -> (r: Option<usize>)
        ensures
            match r {
                Some(i) => i < self@.len() && self@[i as int].0 == *k && has_key(self@, *k),
                None => !has_key(self@, *k),
            },
    {
        let mut i: usize = 0;
        while i < self.entries.len()
            invariant
                0 <= i <= self.entries@.len(),
                forall|j: int| 0 <= j < i ==> (#[trigger] self.entries@[j]).0 != *k,
            decreases self.entries@.len() - i,
        {
            if self.entries[i].0.same(k) {
                return Some(i);
            }
            i += 1;
        }
        None
    }

    /// Whether `k` has an entry.
    pub fn contains(&self, k: &K) -> (r: bool)
        ensures
            r == has_key(self@, *k),
    {
        match self.position(k) {
            Some(_) => true,
            None => false,
        }
    }

    /// The value that `k` maps to.
    pub fn get(&self, k: &K) -> (r: Option<&V>)
        requires
            distinct(self@),
        ensures
            match r {
                Some(v) => lookup(self@, *k) == Some(*v),
                None => lookup(self@, *k) is None,
            },
    {
        match self.position(k) {
            Some(i) => {
                proof {
                    lemma_lookup_at(self@, i as int);
                }
                Some(&self.entries[i].1)
            },
            None => None,
        }
    }

    /// Maps `k` to `v`.
    pub fn insert(&mut self, k: K, v: V)
        requires
            distinct(old(self)@),
        ensures
            final(self)@ == put(old(self)@, k, v),
            distinct(final(self)@),
    {
        proof {
            lemma_put(self@, k, v);
        }
        match self.position(&k) {
            Some(i) => {
                proof {
                    lemma_lookup_at(self@, i as int);
                }
                self.entries.set(i, (k, v));
            },
            None => {
                self.entries.push((k, v));
            },
        }
    }

    /// Removes the entry of `k` and returns its value.
    pub fn remove(&mut self, k: &K) -> (r: Option<V>)
        requires
            distinct(old(self)@),
        ensures
            r == lookup(old(self)@, *k),
            final(self)@ == without(old(self)@, *k),
            distinct(final(self)@),
    {
        proof {
            lemma_without(self@, *k);
        }
        match self.position(k) {
            Some(i) => {
                proof {
                    lemma_lookup_at(self@, i as int);
                    lemma_without_at(self@, i as int);
                }
                let (_, v) = self.entries.remove(i);
                Some(v)
            },
            None => None,
        }
    }
}

impl<K: Key, V: Copy> Table<K, V> {
    /// Keeps the entries on which `f` answers `true`.
    pub(crate) fn keep_where<F: Fn((K, V)) -> bool>(
        &mut self,
        f: F,
        Ghost(p): Ghost<spec_fn((K, V)) -> bool>,
    )
        requires
            distinct(old(self)@),
            forall|t: (K, V)| #[trigger] f.requires((t,)),
            forall|t: (K, V), b: bool| f.ensures((t,), b) ==> b == p(t),
        ensures
            final(self)@ == old(self)@.filter(p),
            distinct(final(self)@),
    {
        proof {
            lemma_filter_distinct(self@, p);
        }
        crate::rows::keep(&mut self.entries, f, Ghost(p));
    }
}

} // verus!
