//! Keeping the elements of a vector that pass a test, in order.
use vstd::prelude::*;

verus! {

/// Removes, in place and in order, the elements whose mask entry is `false`;
/// the mask is the test `p` applied to each element.
pub fn retain_mask<T>(v: &mut Vec<T>, mask: &Vec<bool>, Ghost(p): Ghost<spec_fn(T) -> bool>)
    requires
        mask@.len() == old(v)@.len(),
        forall|i: int| 0 <= i < mask@.len() ==> #[trigger] mask@[i] == p(old(v)@[i]),
    ensures
        final(v)@ == old(v)@.filter(p),
{
    let ghost o = v@;
    assert(o.len() == v.len());
    let mut k: usize = 0;
    let mut i: usize = 0;
    while i < v.len()
        invariant
            i <= k <= o.len(),
            o.len() <= usize::MAX,
            mask@.len() == o.len(),
            forall|j: int| 0 <= j < mask@.len() ==> #[trigger] mask@[j] == p(o[j]),
            v@.len() == i + (o.len() - k),
            v@.subrange(0, i as int) == o.subrange(0, k as int).filter(p),
            forall|d: int| 0 <= d < v@.len() - i ==> #[trigger] v@[i + d] == o[k + d],
        decreases v@.len() - i,
    {
        assert(v@[i + 0] == o[k + 0]);
        proof {
            assert(o.subrange(0, k + 1).drop_last() =~= o.subrange(0, k as int));
            reveal_with_fuel(Seq::<_>::filter, 1);
        }
        let ghost before = v@;
        let ghost bi = i as int;
        let ghost bk = k as int;
        if mask[k] {
            i = i + 1;
            k = k + 1;
            proof {
                assert(v@.subrange(0, i as int) =~= before.subrange(0, bi).push(o[bk]));
                assert forall|d: int| 0 <= d < v@.len() - i implies #[trigger] v@[i + d] == o[k + d] by {
                    assert(before[bi + (d + 1)] == o[bk + (d + 1)]);
                }
            }
        } else {
            v.remove(i);
            k = k + 1;
            proof {
                assert(v@.subrange(0, i as int) =~= before.subrange(0, i as int));
                assert forall|d: int| 0 <= d < v@.len() - i implies #[trigger] v@[i + d] == o[k + d] by {
                    assert(before[bi + (d + 1)] == o[bk + (d + 1)]);
                }
            }
        }
    }
    assert(o.subrange(0, o.len() as int) =~= o);
    assert(v@.subrange(0, i as int) =~= v@);
}

/// What `filter` keeps: exactly the elements that pass the test.
pub proof fn lemma_filter_contains<T>(s: Seq<T>, p: spec_fn(T) -> bool)
    ensures
        forall|x: T| #[trigger] s.filter(p).contains(x) <==> s.contains(x) && p(x),
    decreases s.len(),
{
    reveal_with_fuel(Seq::<_>::filter, 1);
    if s.len() > 0 {
        let t = s.drop_last();
        lemma_filter_contains(t, p);
        assert forall|x: T| #[trigger] s.contains(x) <==> t.contains(x) || x == s.last() by {
            if s.contains(x) {
                let k = choose|k: int| 0 <= k < s.len() && s[k] == x;
                if k < s.len() - 1 {
                    assert(t[k] == x);
                }
            }
            if t.contains(x) {
                let k = choose|k: int| 0 <= k < t.len() && t[k] == x;
                assert(s[k] == x);
            }
        }
        let f = t.filter(p);
        assert forall|x: T| #[trigger] f.push(s.last()).contains(x) <==> f.contains(x) || x == s.last() by {
            if f.push(s.last()).contains(x) {
                let k = choose|k: int| 0 <= k < f.push(s.last()).len() && f.push(s.last())[k] == x;
                if k < f.len() {
                    assert(f[k] == x);
                }
            }
            if f.contains(x) {
                let k = choose|k: int| 0 <= k < f.len() && f[k] == x;
                assert(f.push(s.last())[k] == x);
            }
            assert(f.push(s.last())[f.len() as int] == s.last());
        }
    }
}

/// Filtering keeps the relative order: the elements that pass the test keep
/// their indices' order.
pub proof fn lemma_filter_len_bound<T>(s: Seq<T>, p: spec_fn(T) -> bool)
    ensures
        s.filter(p).len() <= s.len(),
        (forall|i: int| 0 <= i < s.len() ==> p(#[trigger] s[i])) ==> s.filter(p) == s,
    decreases s.len(),
{
    reveal_with_fuel(Seq::<_>::filter, 1);
    if s.len() > 0 {
        lemma_filter_len_bound(s.drop_last(), p);
        if forall|i: int| 0 <= i < s.len() ==> p(#[trigger] s[i]) {
            assert forall|i: int| 0 <= i < s.drop_last().len() implies p(#[trigger] s.drop_last()[i]) by {
                assert(s.drop_last()[i] == s[i]);
            }
            assert(s.drop_last().push(s.last()) =~= s);
        }
    }
}


/// No two elements of `s` have the same key.
pub open spec fn unique_key<T>(s: Seq<T>, key: spec_fn(T) -> int) -> bool {
    forall|i: int, j: int| 0 <= i < j < s.len() ==> key(#[trigger] s[i]) != key(#[trigger] s[j])
}

/// Filtering keeps keys unique.
pub proof fn lemma_filter_unique_key<T>(s: Seq<T>, p: spec_fn(T) -> bool, key: spec_fn(T) -> int)
    requires
        unique_key(s, key),
    ensures
        unique_key(s.filter(p), key),
        forall|x: T| #[trigger] s.filter(p).contains(x) <==> s.contains(x) && p(x),
    decreases s.len(),
{
    reveal_with_fuel(Seq::<_>::filter, 1);
    lemma_filter_contains(s, p);
    if s.len() > 0 {
        let t = s.drop_last();
        assert(unique_key(t, key)) by {
            assert forall|i: int, j: int| 0 <= i < j < t.len() implies key(#[trigger] t[i]) != key(#[trigger] t[j]) by {
                assert(t[i] == s[i] && t[j] == s[j]);
            }
        }
        lemma_filter_unique_key(t, p, key);
        let f = t.filter(p);
        if p(s.last()) {
            let g = f.push(s.last());
            assert forall|i: int, j: int| 0 <= i < j < g.len() implies key(#[trigger] g[i]) != key(#[trigger] g[j]) by {
                if j == g.len() - 1 {
                    assert(g[i] == f[i]);
                    assert(f.contains(f[i]));
                    assert(t.contains(f[i]));
                    let k = choose|k: int| 0 <= k < t.len() && t[k] == f[i];
                    assert(s[k] == t[k]);
                    assert(key(s[k]) != key(s[s.len() - 1]));
                } else {
                    assert(g[i] == f[i] && g[j] == f[j]);
                }
            }
        }
    }
}

/// Filtering by `p` and then by `q` keeps what passes both.
pub proof fn lemma_filter_twice<T>(s: Seq<T>, p: spec_fn(T) -> bool, q: spec_fn(T) -> bool, r: spec_fn(T) -> bool)
    requires
        forall|x: T| #[trigger] r(x) == (p(x) && q(x)),
    ensures
        s.filter(p).filter(q) == s.filter(r),
    decreases s.len(),
{
    reveal_with_fuel(Seq::<_>::filter, 1);
    if s.len() > 0 {
        lemma_filter_twice(s.drop_last(), p, q, r);
        assert(r(s.last()) == (p(s.last()) && q(s.last())));
        if p(s.last()) {
            assert(s.filter(p).drop_last() =~= s.drop_last().filter(p));
        }
    } else {
        assert(s.filter(p).filter(q) =~= s.filter(r));
    }
}

} // verus!
