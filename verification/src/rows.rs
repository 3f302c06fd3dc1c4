//! Flat relations: ordered rows with filtering and search.

use vstd::prelude::*;

verus! {

/// `s.take(i + 1)` extends `s.take(i)` by one row.
pub proof fn lemma_take_step<T>(s: Seq<T>, i: int)
    requires
        0 <= i < s.len(),
    ensures
        s.take(i + 1).drop_last() == s.take(i),
        s.take(i + 1).last() == s[i],
        s.take(i + 1) == s.take(i).push(s[i]),
{
    assert(s.take(i + 1).drop_last() =~= s.take(i));
    assert(s.take(i + 1) =~= s.take(i).push(s[i]));
}

/// Filtering one more row either appends that row or changes nothing.
pub proof fn lemma_filter_step<T>(s: Seq<T>, i: int, p: spec_fn(T) -> bool)
    requires
        0 <= i < s.len(),
    ensures
        s.take(i + 1).filter(p) == if p(s[i]) {
            s.take(i).filter(p).push(s[i])
        } else {
            s.take(i).filter(p)
        },
{
    reveal(Seq::filter);
    lemma_take_step(s, i);
}

/// Filtering an appended row.
pub proof fn lemma_filter_push<T>(s: Seq<T>, x: T, p: spec_fn(T) -> bool)
    ensures
        s.push(x).filter(p) == if p(x) {
            s.filter(p).push(x)
        } else {
            s.filter(p)
        },
{
    reveal(Seq::filter);
    assert(s.push(x).drop_last() =~= s);
}

/// Filtering adds no rows.
pub proof fn lemma_filter_len<T>(s: Seq<T>, p: spec_fn(T) -> bool)
    ensures
        s.filter(p).len() <= s.len(),
    decreases s.len(),
{
    reveal(Seq::filter);
    if s.len() > 0 {
        lemma_filter_len(s.drop_last(), p);
    }
}

/// A row survives the filter exactly when it was there and is wanted.
pub proof fn lemma_filter_contains<T>(s: Seq<T>, p: spec_fn(T) -> bool, x: T)
    ensures
        s.filter(p).contains(x) <==> s.contains(x) && p(x),
    decreases s.len(),
{
    reveal(Seq::filter);
    if s.len() > 0 {
        let t = s.drop_last();
        lemma_filter_contains(t, p, x);
        assert(s =~= t.push(s.last()));
        let f = t.filter(p);
        if s.contains(x) {
            let i = choose|i: int| 0 <= i < s.len() && s[i] == x;
            if i < t.len() {
                assert(t[i] == x);
            }
        }
        if t.contains(x) {
            let i = choose|i: int| 0 <= i < t.len() && t[i] == x;
            assert(s[i] == x);
        }
        if p(s.last()) {
            let g = f.push(s.last());
            if f.contains(x) {
                let i = choose|i: int| 0 <= i < f.len() && f[i] == x;
                assert(g[i] == x);
            }
            assert(g[f.len() as int] == s.last());
            if g.contains(x) {
                let i = choose|i: int| 0 <= i < g.len() && g[i] == x;
                if i < f.len() {
                    assert(f[i] == x);
                }
            }
        }
        assert(s[s.len() - 1] == s.last());
    }
}

/// Wants what both filters want.
pub open spec fn both<T>(p: spec_fn(T) -> bool, q: spec_fn(T) -> bool) -> spec_fn(T) -> bool {
    |x: T| p(x) && q(x)
}

/// Filtering twice keeps the rows that both filters want.
pub proof fn lemma_filter_filter<T>(s: Seq<T>, p: spec_fn(T) -> bool, q: spec_fn(T) -> bool)
    ensures
        s.filter(p).filter(q) == s.filter(both(p, q)),
    decreases s.len(),
{
    reveal(Seq::filter);
    if s.len() > 0 {
        lemma_filter_filter(s.drop_last(), p, q);
        if p(s.last()) {
            lemma_filter_push(s.drop_last().filter(p), s.last(), q);
        }
    }
}

/// A filter that wants every row changes nothing.
pub proof fn lemma_filter_all<T>(s: Seq<T>, p: spec_fn(T) -> bool)
    requires
        forall|i: int| 0 <= i < s.len() ==> p(#[trigger] s[i]),
    ensures
        s.filter(p) == s,
    decreases s.len(),
{
    reveal(Seq::filter);
    if s.len() > 0 {
        let t = s.drop_last();
        assert forall|i: int| 0 <= i < t.len() implies p(#[trigger] t[i]) by {
            assert(t[i] == s[i]);
        }
        lemma_filter_all(t, p);
        assert(s =~= t.push(s.last()));
        assert(p(s[s.len() - 1]));
    }
}

/// A filter that wants no row leaves none.
pub proof fn lemma_filter_none<T>(s: Seq<T>, p: spec_fn(T) -> bool)
    requires
        forall|i: int| 0 <= i < s.len() ==> !p(#[trigger] s[i]),
    ensures
        s.filter(p) == Seq::<T>::empty(),
    decreases s.len(),
{
    reveal(Seq::filter);
    if s.len() > 0 {
        let t = s.drop_last();
        assert forall|i: int| 0 <= i < t.len() implies !p(#[trigger] t[i]) by {
            assert(t[i] == s[i]);
        }
        lemma_filter_none(t, p);
        assert(!p(s[s.len() - 1]));
    } else {
        assert(s.filter(p) =~= Seq::<T>::empty());
    }
}

/// Keeps the rows on which `f` answers `true`, in their order.
pub(crate) fn keep<T: Copy, F: Fn(T) -> bool>(rows: &mut Vec<T>, f: F, Ghost(p): Ghost<spec_fn(T) -> bool>)
    requires
        forall|t: T| #[trigger] f.requires((t,)),
        forall|t: T, b: bool| f.ensures((t,), b) ==> b == p(t),
    ensures
        final(rows)@ == old(rows)@.filter(p),
{
    proof {
        reveal(Seq::filter);
    }
    let mut out: Vec<T> = Vec::new();
    let mut i: usize = 0;
    let ghost s = rows@;
    while i < rows.len()
        invariant
            rows@ == s,
            0 <= i <= s.len(),
            out@ == s.take(i as int).filter(p),
            forall|t: T| #[trigger] f.requires((t,)),
            forall|t: T, b: bool| f.ensures((t,), b) ==> b == p(t),
        decreases s.len() - i,
    {
        proof {
            lemma_filter_step(s, i as int, p);
        }
        let row = rows[i];
        if f(row) {
            out.push(row);
        }
        i += 1;
    }
    assert(s.take(s.len() as int) =~= s);
    *rows = out;
}

/// The rows on which `f` answers `true`, in their order.
pub(crate) fn select<T: Copy, F: Fn(T) -> bool>(rows: &Vec<T>, f: F, Ghost(p): Ghost<spec_fn(T) -> bool>) -> (out: Vec<T>)
    requires
        forall|t: T| #[trigger] f.requires((t,)),
        forall|t: T, b: bool| f.ensures((t,), b) ==> b == p(t),
    ensures
        out@ == rows@.filter(p),
{
    proof {
        reveal(Seq::filter);
    }
    let mut out: Vec<T> = Vec::new();
    let mut i: usize = 0;
    while i < rows.len()
        invariant
            0 <= i <= rows@.len(),
            out@ == rows@.take(i as int).filter(p),
            forall|t: T| #[trigger] f.requires((t,)),
            forall|t: T, b: bool| f.ensures((t,), b) ==> b == p(t),
        decreases rows@.len() - i,
    {
        proof {
            lemma_filter_step(rows@, i as int, p);
        }
        let row = rows[i];
        if f(row) {
            out.push(row);
        }
        i += 1;
    }
    assert(rows@.take(rows@.len() as int) =~= rows@);
    out
}

/// Whether `f` answers `true` on some row.
pub(crate) fn any<T: Copy, F: Fn(T) -> bool>(rows: &Vec<T>, f: F, Ghost(p): Ghost<spec_fn(T) -> bool>) -> (r: bool)
    requires
        forall|t: T| #[trigger] f.requires((t,)),
        forall|t: T, b: bool| f.ensures((t,), b) ==> b == p(t),
    ensures
        r == exists|i: int| 0 <= i < rows@.len() && p(#[trigger] rows@[i]),
{
    let mut i: usize = 0;
    while i < rows.len()
        invariant
            0 <= i <= rows@.len(),
            forall|j: int| 0 <= j < i ==> !p(#[trigger] rows@[j]),
            forall|t: T| #[trigger] f.requires((t,)),
            forall|t: T, b: bool| f.ensures((t,), b) ==> b == p(t),
        decreases rows@.len() - i,
    {
        if f(rows[i]) {
            return true;
        }
        i += 1;
    }
    false
}

/// A copy of the rows.
pub(crate) fn copy<T: Copy>(rows: &Vec<T>) -> (r: Vec<T>)
    ensures
        r@ == rows@,
{
    let mut r: Vec<T> = Vec::new();
    let mut i: usize = 0;
    while i < rows.len()
        invariant
            0 <= i <= rows@.len(),
            r@ == rows@.take(i as int),
        decreases rows@.len() - i,
    {
        proof {
            lemma_take_step(rows@, i as int);
        }
        r.push(rows[i]);
        i += 1;
    }
    assert(rows@.take(i as int) =~= rows@);
    r
}

} // verus!
