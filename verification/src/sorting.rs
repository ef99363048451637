//! Sorting the lists that a graph snapshot reports in a fixed order.
use vstd::prelude::*;
use vstd::seq_lib::group_to_multiset_ensures;

verus! {

broadcast use group_to_multiset_ensures;

/// The ids ascend along the list.
pub open spec fn ascending(s: Seq<usize>) -> bool {
    forall|i: int, j: int| 0 <= i < j < s.len() ==> #[trigger] s[i] <= #[trigger] s[j]
}

/// `a` comes no later than `b` when pairs are ordered by their first and
/// then their second element.
pub open spec fn pair_le(a: (usize, usize), b: (usize, usize)) -> bool {
    a.0 < b.0 || (a.0 == b.0 && a.1 <= b.1)
}

/// The pairs ascend along the list.
pub open spec fn pairs_ascending(s: Seq<(usize, usize)>) -> bool {
    forall|i: int, j: int| 0 <= i < j < s.len() ==> pair_le(#[trigger] s[i], #[trigger] s[j])
}

/// The keyed entries ascend by their key pair along the list.
pub open spec fn keyed_ascending(s: Seq<(usize, usize, Seq<char>)>) -> bool {
    forall|i: int, j: int| 0 <= i < j < s.len() ==> pair_le((#[trigger] s[i].0, s[i].1), (#[trigger] s[j].0, s[j].1))
}

pub open spec fn keyed_views(s: Seq<(usize, usize, String)>) -> Seq<(usize, usize, Seq<char>)> {
    s.map_values(|e: (usize, usize, String)| (e.0, e.1, e.2@))
}

/// The ids in ascending order.
pub fn sort_ids(v: &Vec<usize>) -> (r: Vec<usize>)
    ensures
        r@.to_multiset() == v@.to_multiset(),
        ascending(r@),
{
    let mut out: Vec<usize> = Vec::new();
    let mut i: usize = 0;
    while i < v.len()
        invariant
            i <= v@.len(),
            out@.to_multiset() == v@.subrange(0, i as int).to_multiset(),
            ascending(out@),
        decreases v@.len() - i,
    {
        let x = v[i];
        let mut j: usize = 0;
        while j < out.len() && out[j] <= x
            invariant
                j <= out@.len(),
                forall|t: int| 0 <= t < j ==> #[trigger] out@[t] <= x,
            decreases out@.len() - j,
        {
            j = j + 1;
        }
        let ghost before = out@;
        out.insert(j, x);
        proof {
            assert(out@ == before.insert(j as int, x));
            assert forall|a: int, b: int| 0 <= a < b < out@.len() implies #[trigger] out@[a] <= #[trigger] out@[b] by {
                if a < j && b < j {
                    assert(out@[a] == before[a] && out@[b] == before[b]);
                } else if a < j && b == j {
                    assert(out@[a] == before[a]);
                } else if a < j {
                    assert(out@[a] == before[a] && out@[b] == before[b - 1]);
                } else if a == j {
                    assert(out@[b] == before[b - 1]);
                    assert(before[j as int] > x);
                    if b - 1 > j {
                        assert(before[j as int] <= before[b - 1]);
                    }
                } else {
                    assert(out@[a] == before[a - 1] && out@[b] == before[b - 1]);
                }
            }
            assert(v@.subrange(0, i + 1) =~= v@.subrange(0, i as int).push(x));
        }
        i = i + 1;
    }
    assert(v@.subrange(0, i as int) =~= v@);
    out
}

/// The pairs in ascending order.
pub fn sort_pairs(v: &Vec<(usize, usize)>) -> (r: Vec<(usize, usize)>)
    ensures
        r@.to_multiset() == v@.to_multiset(),
        pairs_ascending(r@),
{
    let mut out: Vec<(usize, usize)> = Vec::new();
    let mut i: usize = 0;
    while i < v.len()
        invariant
            i <= v@.len(),
            out@.to_multiset() == v@.subrange(0, i as int).to_multiset(),
            pairs_ascending(out@),
        decreases v@.len() - i,
    {
        let x = v[i];
        let mut j: usize = 0;
        while j < out.len() && (out[j].0 < x.0 || (out[j].0 == x.0 && out[j].1 <= x.1))
            invariant
                j <= out@.len(),
                forall|t: int| 0 <= t < j ==> pair_le(#[trigger] out@[t], x),
            decreases out@.len() - j,
        {
            j = j + 1;
        }
        let ghost before = out@;
        out.insert(j, x);
        proof {
            assert(out@ == before.insert(j as int, x));
            assert forall|a: int, b: int| 0 <= a < b < out@.len() implies pair_le(#[trigger] out@[a], #[trigger] out@[b]) by {
                if a < j && b < j {
                    assert(out@[a] == before[a] && out@[b] == before[b]);
                } else if a < j && b == j {
                    assert(out@[a] == before[a]);
                } else if a < j {
                    assert(out@[a] == before[a] && out@[b] == before[b - 1]);
                    assert(pair_le(before[a], before[b - 1]));
                } else if a == j {
                    assert(out@[b] == before[b - 1]);
                    assert(!pair_le(before[j as int], x));
                    if b - 1 > j {
                        assert(pair_le(before[j as int], before[b - 1]));
                    }
                } else {
                    assert(out@[a] == before[a - 1] && out@[b] == before[b - 1]);
                }
            }
            assert(v@.subrange(0, i + 1) =~= v@.subrange(0, i as int).push(x));
        }
        i = i + 1;
    }
    assert(v@.subrange(0, i as int) =~= v@);
    out
}

/// The keyed entries in ascending order of their key pairs.
pub fn sort_keyed(v: Vec<(usize, usize, String)>) -> (r: Vec<(usize, usize, String)>)
    ensures
        keyed_views(r@).to_multiset() == keyed_views(v@).to_multiset(),
        keyed_ascending(keyed_views(r@)),
{
    let ghost vv = keyed_views(v@);
    let mut rest = v;
    let mut out: Vec<(usize, usize, String)> = Vec::new();
    let ghost mut k: int = 0;
    while rest.len() > 0
        invariant
            0 <= k <= vv.len(),
            keyed_views(rest@) == vv.subrange(k, vv.len() as int),
            keyed_views(out@).to_multiset() == vv.subrange(0, k).to_multiset(),
            keyed_ascending(keyed_views(out@)),
        decreases rest@.len(),
    {
        let ghost rb = rest@;
        let x = rest.remove(0);
        let ghost xv = (x.0, x.1, x.2@);
        proof {
            assert(keyed_views(rb)[0] == xv);
            assert(keyed_views(rb).len() == rb.len());
            assert(k < vv.len());
            assert(vv.subrange(k, vv.len() as int)[0] == vv[k]);
            assert(vv[k] == keyed_views(rb)[0]);
        }
        let mut j: usize = 0;
        while j < out.len() && (out[j].0 < x.0 || (out[j].0 == x.0 && out[j].1 <= x.1))
            invariant
                j <= out@.len(),
                forall|t: int| 0 <= t < j ==> pair_le((#[trigger] out@[t].0, out@[t].1), (x.0, x.1)),
            decreases out@.len() - j,
        {
            j = j + 1;
        }
        let ghost before = keyed_views(out@);
        out.insert(j, x);
        proof {
            assert(keyed_views(out@) =~= before.insert(j as int, xv));
            let o = keyed_views(out@);
            assert forall|a: int, b: int| 0 <= a < b < o.len() implies pair_le((#[trigger] o[a].0, o[a].1), (#[trigger] o[b].0, o[b].1)) by {
                if a < j && b < j {
                    assert(o[a] == before[a] && o[b] == before[b]);
                } else if a < j && b == j {
                    assert(o[a] == before[a]);
                } else if a < j {
                    assert(o[a] == before[a] && o[b] == before[b - 1]);
                    assert(pair_le((before[a].0, before[a].1), (before[b - 1].0, before[b - 1].1)));
                } else if a == j {
                    assert(o[b] == before[b - 1]);
                    assert(!pair_le((before[j as int].0, before[j as int].1), (x.0, x.1)));
                    if b - 1 > j {
                        assert(pair_le((before[j as int].0, before[j as int].1), (before[b - 1].0, before[b - 1].1)));
                    }
                } else {
                    assert(o[a] == before[a - 1] && o[b] == before[b - 1]);
                }
            }
            assert(vv.subrange(0, k + 1) =~= vv.subrange(0, k).push(xv));
            let kr = keyed_views(rb);
            assert forall|t: int| 0 <= t < rest@.len() implies #[trigger] keyed_views(rest@)[t] == kr[t + 1] by {
                assert(rest@[t] == rb[t + 1]);
            }
            assert forall|t: int| 0 <= t < kr.len() implies #[trigger] kr[t] == vv[k + t] by {
                assert(kr[t] == vv.subrange(k, vv.len() as int)[t]);
            }
            k = k + 1;
            assert(keyed_views(rest@) =~= vv.subrange(k, vv.len() as int));
        }
    }
    assert(vv.subrange(0, k) =~= vv);
    out
}

} // verus!
