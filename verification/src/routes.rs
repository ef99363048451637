//! Route keys: the labels on edges that decide where forwarded messages go.
use crate::text::{chars_of, copy_string, trim, trim_str};
use crate::workspace::{
    lemma_route_map, nonblank_key, pruned_routes, route_map, unique_routes, Graph, RouteKey,
};
use vstd::prelude::*;

verus! {

/// The route key an edge shows: its stored key when that holds more than white space.
pub open spec fn shown_route(m: Map<(usize, usize), Seq<char>>, from: usize, to: usize) -> Option<Seq<char>> {
    if m.contains_key((from, to)) && nonblank_key(m[(from, to)]) {
        Some(m[(from, to)])
    } else {
        None
    }
}

pub open spec fn key_is_not(key: (usize, usize)) -> spec_fn((usize, usize), Seq<char>) -> bool {
    |k: (usize, usize), v: Seq<char>| k != key
}

pub open spec fn key_kept(edges: Seq<(usize, usize)>) -> spec_fn((usize, usize), Seq<char>) -> bool {
    |k: (usize, usize), v: Seq<char>| edges.contains(k) && nonblank_key(v)
}

/// A test on route keys, read off their edge and their key text.
pub open spec fn lift(pk: spec_fn((usize, usize), Seq<char>) -> bool) -> spec_fn(RouteKey) -> bool {
    |r: RouteKey| pk((r.from, r.to), r.key@)
}

/// The entries of a route map that pass a test.
pub open spec fn restrict(m: Map<(usize, usize), Seq<char>>, pk: spec_fn((usize, usize), Seq<char>) -> bool) -> Map<(usize, usize), Seq<char>> {
    Map::new(|k: (usize, usize)| m.contains_key(k) && pk(k, m[k]), |k: (usize, usize)| m[k])
}

proof fn lemma_filter_routes(s: Seq<RouteKey>, pk: spec_fn((usize, usize), Seq<char>) -> bool)
    requires
        unique_routes(s),
    ensures
        unique_routes(s.filter(lift(pk))),
        route_map(s.filter(lift(pk))) == restrict(route_map(s), pk),
    decreases s.len(),
{
    reveal_with_fuel(Seq::<RouteKey>::filter, 1);
    let p = lift(pk);
    if s.len() == 0 {
        assert(route_map(s.filter(p)) =~= restrict(route_map(s), pk));
    } else {
        let t = s.drop_last();
        let l = s.last();
        let kl = (l.from, l.to);
        assert(unique_routes(t));
        lemma_filter_routes(t, pk);
        lemma_route_map(t);
        assert(!route_map(t).contains_key(kl)) by {
            if route_map(t).contains_key(kl) {
                let i = choose|i: int| 0 <= i < t.len() && (t[i].from, t[i].to) == kl;
                assert(s[i] == t[i]);
                assert((s[i].from, s[i].to) != (s[s.len() - 1].from, s[s.len() - 1].to));
            }
        }
        let ft = t.filter(p);
        lemma_route_map(ft);
        if p(l) {
            let fs = ft.push(l);
            assert(s.filter(p) == fs);
            assert(fs.drop_last() =~= ft);
            assert(unique_routes(fs)) by {
                assert forall|a: int, b: int| 0 <= a < b < fs.len() implies (#[trigger] fs[a].from, fs[a].to) != (#[trigger] fs[b].from, fs[b].to) by {
                    if b == fs.len() - 1 {
                        assert(fs[a] == ft[a]);
                        assert(route_map(ft).contains_key((ft[a].from, ft[a].to)));
                    } else {
                        assert(fs[a] == ft[a] && fs[b] == ft[b]);
                    }
                }
            }
            assert(route_map(fs) =~= restrict(route_map(s), pk));
        } else {
            assert(s.filter(p) == ft);
            assert(route_map(ft) =~= restrict(route_map(s), pk));
        }
    }
}

/// Keeps, in order, the route keys that pass a test: those of other edges
/// than `key` when `by_key`, else those of existing edges with a non-blank key.
fn retain_routes_where(v: &mut Vec<RouteKey>, key: (usize, usize), edges: &Vec<(usize, usize)>, by_key: bool)
    ensures
        by_key ==> final(v)@ == old(v)@.filter(lift(key_is_not(key))),
        !by_key ==> final(v)@ == old(v)@.filter(lift(key_kept(edges@))),
{
    let ghost o = v@;
    let ghost p = if by_key {
        lift(key_is_not(key))
    } else {
        lift(key_kept(edges@))
    };
    let ghost mut k: int = 0;
    let mut i: usize = 0;
    while i < v.len()
        invariant
            0 <= i <= k <= o.len(),
            v@.len() == i + (o.len() - k),
            v@.subrange(0, i as int) == o.subrange(0, k).filter(p),
            forall|d: int| 0 <= d < v@.len() - i ==> #[trigger] v@[i + d] == o[k + d],
            p == (if by_key {
                lift(key_is_not(key))
            } else {
                lift(key_kept(edges@))
            }),
        decreases v@.len() - i,
    {
        assert(v@[i + 0] == o[k + 0]);
        let keep = if by_key {
            !(v[i].from == key.0 && v[i].to == key.1)
        } else {
            let present = contains_edge(edges, v[i].from, v[i].to);
            let t = trim_str(v[i].key.as_str());
            present && chars_of(t.as_str()).len() > 0
        };
        assert(keep == p(o[k]));
        proof {
            assert(o.subrange(0, k + 1).drop_last() =~= o.subrange(0, k));
            reveal_with_fuel(Seq::<RouteKey>::filter, 1);
        }
        let ghost before = v@;
        let ghost bi = i as int;
        if keep {
            i = i + 1;
            proof {
                k = k + 1;
                assert(v@.subrange(0, i as int) =~= before.subrange(0, bi).push(o[k - 1]));
                assert forall|d: int| 0 <= d < v@.len() - i implies #[trigger] v@[i + d] == o[k + d] by {
                    assert(before[bi + (d + 1)] == o[(k - 1) + (d + 1)]);
                }
            }
        } else {
            v.remove(i);
            proof {
                k = k + 1;
                assert(v@.subrange(0, i as int) =~= before.subrange(0, i as int));
                assert forall|d: int| 0 <= d < v@.len() - i implies #[trigger] v@[i + d] == o[k + d] by {
                    assert(before[bi + (d + 1)] == o[(k - 1) + (d + 1)]);
                }
            }
        }
    }
    assert(o.subrange(0, o.len() as int) =~= o);
    assert(v@.subrange(0, i as int) =~= v@);
}

fn contains_edge(edges: &Vec<(usize, usize)>, from: usize, to: usize) -> (r: bool)
    ensures
        r == edges@.contains((from, to)),
{
    let mut i: usize = 0;
    while i < edges.len()
        invariant
            i <= edges@.len(),
            forall|j: int| 0 <= j < i ==> #[trigger] edges@[j] != (from, to),
        decreases edges@.len() - i,
    {
        if edges[i].0 == from && edges[i].1 == to {
            assert(edges@[i as int] == (from, to));
            return true;
        }
        i = i + 1;
    }
    false
}

impl Graph {
    /// The index of the route key entry of an edge.
    fn find_route(&self, from: usize, to: usize) -> (r: Option<usize>)
        requires
            self.wf(),
        ensures
            match r {
                Some(i) => i < self.edge_route_keys@.len() && self.edge_route_keys@[i as int].from
                    == from && self.edge_route_keys@[i as int].to == to,
                None => !self.routes().contains_key((from, to)),
            },
    {
        proof {
            lemma_route_map(self.edge_route_keys@);
        }
        let mut i: usize = 0;
        while i < self.edge_route_keys.len()
            invariant
                i <= self.edge_route_keys@.len(),
                forall|j: int| 0 <= j < i ==> (#[trigger] self.edge_route_keys@[j].from, self.edge_route_keys@[j].to) != (from, to),
            decreases self.edge_route_keys@.len() - i,
        {
            if self.edge_route_keys[i].from == from && self.edge_route_keys[i].to == to {
                return Some(i);
            }
            i = i + 1;
        }
        None
    }

    /// The route key of an edge, when it holds more than white space.
    pub fn edge_route_key(&self, from: usize, to: usize) -> (r: Option<String>)
        requires
            self.wf(),
        ensures
            match r {
                Some(k) => shown_route(self.routes(), from, to) == Some(k@),
                None => shown_route(self.routes(), from, to) is None,
            },
    {
        proof {
            lemma_route_map(self.edge_route_keys@);
        }
        match self.find_route(from, to) {
            Some(i) => {
                let t = trim_str(self.edge_route_keys[i].key.as_str());
                if chars_of(t.as_str()).len() > 0 {
                    Some(copy_string(&self.edge_route_keys[i].key))
                } else {
                    None
                }
            },
            None => None,
        }
    }

    /// Removes the route key of an edge.
    pub fn remove_edge_route_key(&mut self, from: usize, to: usize)
        requires
            old(self).wf(),
        ensures
            final(self).wf(),
            final(self).routes() == old(self).routes().remove((from, to)),
            final(self).nodes == old(self).nodes,
            final(self).edges == old(self).edges,
            final(self).next_node_id == old(self).next_node_id,
    {
        let ghost o = self.edge_route_keys@;
        let no_edges: Vec<(usize, usize)> = Vec::new();
        retain_routes_where(&mut self.edge_route_keys, (from, to), &no_edges, true);
        proof {
            lemma_filter_routes(o, key_is_not((from, to)));
            assert(restrict(route_map(o), key_is_not((from, to))) =~= route_map(o).remove((from, to)));
        }
    }

    /// Sets the route key of an edge to the trimmed key, or removes it when
    /// the trimmed key is empty.
    pub fn set_edge_route_key(&mut self, from: usize, to: usize, route_key: &str)
        requires
            old(self).wf(),
        ensures
            final(self).wf(),
            final(self).routes() == (if trim(route_key@).len() == 0 {
                old(self).routes().remove((from, to))
            } else {
                old(self).routes().insert((from, to), trim(route_key@))
            }),
            final(self).nodes == old(self).nodes,
            final(self).edges == old(self).edges,
            final(self).next_node_id == old(self).next_node_id,
    {
        let trimmed = trim_str(route_key);
        if chars_of(trimmed.as_str()).len() == 0 {
            self.remove_edge_route_key(from, to);
            return;
        }
        let ghost o = self.edge_route_keys@;
        proof {
            lemma_route_map(o);
        }
        match self.find_route(from, to) {
            Some(i) => {
                let ghost tk = trimmed@;
                self.edge_route_keys.set(i, RouteKey { from, to, key: trimmed });
                proof {
                    let n = self.edge_route_keys@;
                    assert(unique_routes(n)) by {
                        assert forall|a: int, b: int| 0 <= a < b < n.len() implies (#[trigger] n[a].from, n[a].to) != (#[trigger] n[b].from, n[b].to) by {
                            assert((o[a].from, o[a].to) != (o[b].from, o[b].to));
                        }
                    }
                    lemma_route_map(n);
                    assert(route_map(n) =~= route_map(o).insert((from, to), tk)) by {
                        assert forall|k: (usize, usize)| route_map(n).contains_key(k) implies route_map(n)[k] == route_map(o).insert((from, to), tk)[k] by {
                            let j = choose|j: int| 0 <= j < n.len() && (n[j].from, n[j].to) == k;
                            if j != i {
                                assert(route_map(o)[(o[j].from, o[j].to)] == o[j].key@);
                            }
                        }
                        assert forall|k: (usize, usize)| route_map(o).insert((from, to), tk).contains_key(k) implies route_map(n).contains_key(k) by {
                            if k != (from, to) {
                                let j = choose|j: int| 0 <= j < o.len() && (o[j].from, o[j].to) == k;
                                assert((n[j].from, n[j].to) == k);
                            } else {
                                assert((n[i as int].from, n[i as int].to) == k);
                            }
                        }
                    }
                }
            },
            None => {
                let ghost tk = trimmed@;
                self.edge_route_keys.push(RouteKey { from, to, key: trimmed });
                proof {
                    let n = self.edge_route_keys@;
                    assert(n.drop_last() =~= o);
                    assert(unique_routes(n)) by {
                        assert forall|a: int, b: int| 0 <= a < b < n.len() implies (#[trigger] n[a].from, n[a].to) != (#[trigger] n[b].from, n[b].to) by {
                            if b == n.len() - 1 {
                                assert(route_map(o).contains_key((o[a].from, o[a].to)));
                            } else {
                                assert((o[a].from, o[a].to) != (o[b].from, o[b].to));
                            }
                        }
                    }
                    assert(route_map(n) == route_map(o).insert((from, to), tk));
                }
            },
        }
    }

    /// Drops the route keys of edges that no longer exist and those that hold
    /// only white space.
    pub fn prune_edge_route_keys(&mut self)
        requires
            old(self).wf(),
        ensures
            final(self).wf(),
            final(self).routes() == pruned_routes(old(self).routes(), old(self).edges@),
            final(self).nodes == old(self).nodes,
            final(self).edges == old(self).edges,
            final(self).next_node_id == old(self).next_node_id,
    {
        let ghost o = self.edge_route_keys@;
        let ghost e = self.edges@;
        retain_routes_where(&mut self.edge_route_keys, (0, 0), &self.edges, false);
        proof {
            lemma_filter_routes(o, key_kept(e));
            assert(restrict(route_map(o), key_kept(e)) =~= pruned_routes(route_map(o), e));
        }
    }
}

} // verus!
