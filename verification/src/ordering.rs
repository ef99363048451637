//! The drawing order of nodes: later nodes are drawn on top.
use crate::history::{EntryView, HistoryEntry};
use crate::model::{node_views, Node, NodeView};
use crate::seqs::{lemma_filter_unique_key, unique_key};
use crate::nodes::lemma_filter_unique_ids;
use crate::selection::contains_id;
use crate::workspace::{ids_of, no_dups, unique_ids, Graph, Workspace};
use vstd::prelude::*;

verus! {

pub open spec fn node_id_key() -> spec_fn(NodeView) -> int {
    |n: NodeView| n.id as int
}

pub open spec fn id_key() -> spec_fn(usize) -> int {
    |x: usize| x as int
}

pub open spec fn id_present(nodes: Seq<NodeView>) -> spec_fn(usize) -> bool {
    |id: usize| exists|i: int| 0 <= i < nodes.len() && nodes[i].id == id
}

pub open spec fn node_with_id(nodes: Seq<NodeView>, id: usize) -> NodeView {
    nodes[choose|i: int| 0 <= i < nodes.len() && nodes[i].id == id]
}

pub open spec fn not_listed(order: Seq<usize>) -> spec_fn(NodeView) -> bool {
    |n: NodeView| !order.contains(n.id)
}

/// The nodes whose ids `order` lists, in that order, then the others in their
/// present order.
pub open spec fn ordered_by(nodes: Seq<NodeView>, order: Seq<usize>) -> Seq<NodeView> {
    order.filter(id_present(nodes)).map_values(|id: usize| node_with_id(nodes, id)) + nodes.filter(
        not_listed(order),
    )
}

/// The ids of a list of nodes, in order.
pub open spec fn ids_v(nodes: Seq<NodeView>) -> Seq<usize> {
    nodes.map_values(|n: NodeView| n.id)
}

proof fn lemma_unique_views(nodes: Seq<Node>)
    ensures
        unique_ids(nodes) <==> unique_key(node_views(nodes), node_id_key()),
{
    if unique_ids(nodes) {
        assert forall|i: int, j: int| 0 <= i < j < node_views(nodes).len() implies node_id_key()(#[trigger] node_views(nodes)[i]) != node_id_key()(#[trigger] node_views(nodes)[j]) by {
            assert(nodes[i].id != nodes[j].id);
        }
    }
    if unique_key(node_views(nodes), node_id_key()) {
        assert forall|i: int, j: int| 0 <= i < j < nodes.len() implies #[trigger] nodes[i].id != #[trigger] nodes[j].id by {
            assert(node_id_key()(node_views(nodes)[i]) != node_id_key()(node_views(nodes)[j]));
        }
    }
}

impl Graph {
    /// Puts the nodes listed in `order` first, in that order, and the others
    /// after them in their present order.
    pub fn apply_node_order(&mut self, order: &Vec<usize>)
        requires
            old(self).wf(),
            no_dups(order@),
        ensures
            final(self).wf(),
            final(self).nodes_v() == ordered_by(old(self).nodes_v(), order@),
            final(self).edges == old(self).edges,
            final(self).edge_route_keys == old(self).edge_route_keys,
            final(self).next_node_id == old(self).next_node_id,
    {
        let ghost o = self.nodes_v();
        let mut picked: Vec<Node> = Vec::new();
        let mut k: usize = 0;
        while k < order.len()
            invariant
                self.wf(),
                o == self.nodes_v(),
                k <= order@.len(),
                node_views(picked@) == order@.subrange(0, k as int).filter(id_present(o)).map_values(
                    |id: usize| node_with_id(o, id),
                ),
            decreases order@.len() - k,
        {
            let ghost before = node_views(picked@);
            proof {
                assert(order@.subrange(0, k + 1).drop_last() =~= order@.subrange(0, k as int));
                reveal_with_fuel(Seq::<_>::filter, 1);
            }
            match self.find_node_index(order[k]) {
                Some(i) => {
                    let c = self.nodes[i].copy();
                    proof {
                        assert(id_present(o)(order@[k as int])) by {
                            assert(o[i as int].id == order@[k as int]);
                        }
                        let j = choose|j: int| 0 <= j < o.len() && o[j].id == order@[k as int];
                        if j != i {
                            if j < i {
                                assert(self.nodes@[j].id != self.nodes@[i as int].id);
                            } else {
                                assert(self.nodes@[i as int].id != self.nodes@[j].id);
                            }
                        }
                        assert(node_with_id(o, order@[k as int]) == c@);
                    }
                    picked.push(c);
                    proof {
                        assert(node_views(picked@) =~= before.push(c@));
                        let f = order@.subrange(0, k + 1).filter(id_present(o));
                        assert(f == order@.subrange(0, k as int).filter(id_present(o)).push(order@[k as int]));
                        assert(f.map_values(|id: usize| node_with_id(o, id)) =~= order@.subrange(0, k as int).filter(id_present(o)).map_values(|id: usize| node_with_id(o, id)).push(node_with_id(o, order@[k as int])));
                    }
                },
                None => {
                    proof {
                        assert(!id_present(o)(order@[k as int])) by {
                            if id_present(o)(order@[k as int]) {
                                let j = choose|j: int| 0 <= j < o.len() && o[j].id == order@[k as int];
                                assert(self.nodes@[j].id == order@[k as int]);
                            }
                        }
                    }
                },
            }
            k = k + 1;
        }
        assert(order@.subrange(0, k as int) =~= order@);
        let mut rest: Vec<Node> = Vec::new();
        let mut i: usize = 0;
        while i < self.nodes.len()
            invariant
                self.wf(),
                o == self.nodes_v(),
                i <= self.nodes@.len(),
                node_views(rest@) == o.subrange(0, i as int).filter(not_listed(order@)),
            decreases self.nodes@.len() - i,
        {
            proof {
                assert(o.subrange(0, i + 1).drop_last() =~= o.subrange(0, i as int));
                reveal_with_fuel(Seq::<_>::filter, 1);
            }
            let id = self.nodes[i].id;
            let mut listed = false;
            let mut j: usize = 0;
            while j < order.len()
                invariant
                    j <= order@.len(),
                    listed == order@.subrange(0, j as int).contains(id),
                decreases order@.len() - j,
            {
                if order[j] == id {
                    listed = true;
                }
                proof {
                    let sj = order@.subrange(0, j as int);
                    assert(order@.subrange(0, j + 1) =~= sj.push(order@[j as int]));
                    if sj.push(order@[j as int]).contains(id) {
                        let q = choose|q: int| 0 <= q < sj.len() + 1 && sj.push(order@[j as int])[q] == id;
                        if q < sj.len() {
                            assert(sj[q] == id);
                        }
                    }
                    if sj.contains(id) {
                        let q = choose|q: int| 0 <= q < sj.len() && sj[q] == id;
                        assert(sj.push(order@[j as int])[q] == id);
                    }
                    assert(sj.push(order@[j as int])[sj.len() as int] == order@[j as int]);
                }
                j = j + 1;
            }
            assert(order@.subrange(0, j as int) =~= order@);
            if !listed {
                let ghost before = node_views(rest@);
                let c = self.nodes[i].copy();
                rest.push(c);
                assert(node_views(rest@) =~= before.push(c@));
            }
            i = i + 1;
        }
        assert(o.subrange(0, i as int) =~= o);
        let ghost pv = node_views(picked@);
        let ghost rv = node_views(rest@);
        picked.append(&mut rest);
        proof {
            assert(node_views(picked@) =~= pv + rv);
            let ids = order@.filter(id_present(o));
            lemma_unique_views(old(self).nodes@);
            lemma_filter_unique_key(o, not_listed(order@), node_id_key());
            lemma_filter_unique_key(order@, id_present(o), id_key());
            assert(unique_key(order@, id_key())) by {
                assert forall|a: int, b: int| 0 <= a < b < order@.len() implies id_key()(#[trigger] order@[a]) != id_key()(#[trigger] order@[b]) by {
                    assert(order@[a] != order@[b]);
                }
            }
            lemma_filter_unique_key(order@, id_present(o), id_key());
            let r = node_views(picked@);
            assert(forall|a: int| 0 <= a < pv.len() ==> #[trigger] pv[a].id == ids[a]) by {
                assert forall|a: int| 0 <= a < pv.len() implies #[trigger] pv[a].id == ids[a] by {
                    assert(id_present(o)(ids[a])) by {
                        reveal(Seq::filter);
                        order@.filter_lemma(id_present(o));
                    }
                    let j = choose|j: int| 0 <= j < o.len() && o[j].id == ids[a];
                }
            }
            assert forall|a: int, b: int| 0 <= a < b < r.len() implies #[trigger] r[a].id != #[trigger] r[b].id by {
                if b < pv.len() {
                    assert(id_key()(ids[a]) != id_key()(ids[b]));
                } else if a >= pv.len() {
                    assert(node_id_key()(rv[a - pv.len()]) != node_id_key()(rv[b - pv.len()]));
                } else {
                    assert(rv.contains(rv[b - pv.len()]));
                    assert(not_listed(order@)(rv[b - pv.len()]));
                    assert(ids.contains(ids[a]));
                    assert(order@.contains(ids[a]));
                }
            }
            assert forall|a: int, b: int| 0 <= a < b < picked@.len() implies #[trigger] picked@[a].id != #[trigger] picked@[b].id by {
                assert(r[a].id != r[b].id);
            }
            assert forall|a: int| 0 <= a < picked@.len() implies #[trigger] picked@[a].id < self.next_node_id by {
                assert(picked@[a].id == r[a].id);
                if a < pv.len() {
                    assert(r[a] == pv[a]);
                    assert(id_present(o)(ids[a])) by {
                        reveal(Seq::filter);
                        order@.filter_lemma(id_present(o));
                    }
                    let j = choose|j: int| 0 <= j < o.len() && o[j].id == ids[a];
                    assert(self.nodes@[j].id < self.next_node_id);
                } else {
                    assert(r[a] == rv[a - pv.len()]);
                    assert(rv.contains(rv[a - pv.len()]));
                    let j = choose|j: int| 0 <= j < o.len() && o[j] == rv[a - pv.len()];
                    assert(self.nodes@[j].id < self.next_node_id);
                }
            }
        }
        self.nodes = picked;
    }
}


/// The node's id is one of `sel`.
pub open spec fn in_sel(sel: Seq<usize>) -> spec_fn(Node) -> bool {
    |n: Node| sel.contains(n.id)
}

/// The node's id is none of `sel`.
pub open spec fn not_in_sel(sel: Seq<usize>) -> spec_fn(Node) -> bool {
    |n: Node| !sel.contains(n.id)
}

/// The nodes split by `sel`, in their order: the selected ones first when
/// `selected_first`, else last.
pub open spec fn partitioned(nodes: Seq<Node>, sel: Seq<usize>, selected_first: bool) -> Seq<Node> {
    if selected_first {
        nodes.filter(in_sel(sel)) + nodes.filter(not_in_sel(sel))
    } else {
        nodes.filter(not_in_sel(sel)) + nodes.filter(in_sel(sel))
    }
}

proof fn lemma_concat_unique(s: Seq<Node>, a: Seq<Node>, b: Seq<Node>, p: spec_fn(Node) -> bool)
    requires
        unique_ids(s),
        unique_ids(a),
        unique_ids(b),
        forall|x: Node| a.contains(x) ==> s.contains(x) && p(x),
        forall|x: Node| b.contains(x) ==> s.contains(x) && !p(x),
    ensures
        unique_ids(a + b),
{
    assert forall|i: int, j: int| 0 <= i < j < (a + b).len() implies #[trigger] (a + b)[i].id != #[trigger] (a + b)[j].id by {
        if j < a.len() {
            assert((a + b)[i] == a[i] && (a + b)[j] == a[j]);
        } else if i >= a.len() {
            assert((a + b)[i] == b[i - a.len()] && (a + b)[j] == b[j - a.len()]);
        } else {
            let x = a[i];
            let y = b[j - a.len()];
            assert((a + b)[i] == x && (a + b)[j] == y);
            assert(a.contains(x));
            assert(b.contains(y));
            let k1 = choose|k: int| 0 <= k < s.len() && s[k] == x;
            let k2 = choose|k: int| 0 <= k < s.len() && s[k] == y;
            assert(k1 != k2);
            if k1 < k2 {
                assert(s[k1].id != s[k2].id);
            } else {
                assert(s[k2].id != s[k1].id);
            }
        }
    }
}

impl Graph {
    /// Puts the nodes whose ids `sel` lists before (or after) the others,
    /// keeping the order within each part.
    pub fn partition_nodes(&mut self, sel: &Vec<usize>, selected_first: bool)
        requires
            old(self).wf(),
        ensures
            final(self).wf(),
            final(self).nodes@ == partitioned(old(self).nodes@, sel@, selected_first),
            final(self).edges == old(self).edges,
            final(self).edge_route_keys == old(self).edge_route_keys,
            final(self).next_node_id == old(self).next_node_id,
    {
        let ghost o = self.nodes@;
        let mut rest: Vec<Node> = Vec::new();
        std::mem::swap(&mut rest, &mut self.nodes);
        let mut chosen: Vec<Node> = Vec::new();
        let mut others: Vec<Node> = Vec::new();
        let ghost k: int = 0;
        while rest.len() > 0
            invariant
                0 <= k <= o.len(),
                rest@ == o.subrange(k, o.len() as int),
                chosen@ == o.subrange(0, k).filter(in_sel(sel@)),
                others@ == o.subrange(0, k).filter(not_in_sel(sel@)),
            decreases rest@.len(),
        {
            proof {
                assert(o.subrange(0, k + 1).drop_last() =~= o.subrange(0, k));
                assert(o.subrange(0, k + 1).last() == rest@[0]);
                reveal_with_fuel(Seq::<_>::filter, 1);
            }
            let n = rest.remove(0);
            if contains_id(sel, n.id) {
                chosen.push(n);
            } else {
                others.push(n);
            }
            proof {
                k = k + 1;
                assert(rest@ =~= o.subrange(k, o.len() as int));
            }
        }
        assert(o.subrange(0, k) =~= o);
        proof {
            lemma_filter_unique_ids(o, in_sel(sel@));
            lemma_filter_unique_ids(o, not_in_sel(sel@));
        }
        if selected_first {
            chosen.append(&mut others);
            self.nodes = chosen;
            proof {
                lemma_concat_unique(o, o.filter(in_sel(sel@)), o.filter(not_in_sel(sel@)), in_sel(sel@));
            }
        } else {
            others.append(&mut chosen);
            self.nodes = others;
            proof {
                lemma_concat_unique(o, o.filter(not_in_sel(sel@)), o.filter(in_sel(sel@)), not_in_sel(sel@));
            }
        }
        proof {
            assert forall|a: int| 0 <= a < self.nodes@.len() implies #[trigger] self.nodes@[a].id < self.next_node_id by {
                let x = self.nodes@[a];
                assert(o.filter(in_sel(sel@)).contains(x) || o.filter(not_in_sel(sel@)).contains(x)) by {
                    let f1 = o.filter(in_sel(sel@));
                    let f2 = o.filter(not_in_sel(sel@));
                    if selected_first {
                        if a < f1.len() {
                            assert(f1[a] == x);
                        } else {
                            assert(f2[a - f1.len()] == x);
                        }
                    } else {
                        if a < f2.len() {
                            assert(f2[a] == x);
                        } else {
                            assert(f1[a - f2.len()] == x);
                        }
                    }
                }
                let j = choose|j: int| 0 <= j < o.len() && o[j] == x;
            }
        }
    }
}


/// How the selected nodes move in the drawing order.
#[derive(Clone, Copy, Debug, PartialEq, Eq, Structural)]
pub enum NodeOrderAction {
    BringToFront,
    BringForwardOne,
    SendBackwardOne,
    SendToBack,
}

/// The nodes at `i` and `i + 1` exchanged.
pub open spec fn swapped_adjacent(s: Seq<Node>, i: int) -> Seq<Node> {
    s.update(i, s[i + 1]).update(i + 1, s[i])
}

/// A selected node at `i` passes an unselected node after it.
pub open spec fn step_forward(s: Seq<Node>, sel: Seq<usize>, i: int) -> Seq<Node> {
    if sel.contains(s[i].id) && !sel.contains(s[i + 1].id) {
        swapped_adjacent(s, i)
    } else {
        s
    }
}

/// `step_forward` at `i`, then at each smaller index down to the first.
pub open spec fn sweep_forward(s: Seq<Node>, sel: Seq<usize>, i: int) -> Seq<Node>
    decreases i + 1,
{
    if i < 0 {
        s
    } else {
        sweep_forward(step_forward(s, sel, i), sel, i - 1)
    }
}

/// A selected node at `i` passes an unselected node before it.
pub open spec fn step_backward(s: Seq<Node>, sel: Seq<usize>, i: int) -> Seq<Node> {
    if sel.contains(s[i].id) && !sel.contains(s[i - 1].id) {
        swapped_adjacent(s, i - 1)
    } else {
        s
    }
}

/// `step_backward` at `i`, then at each larger index up to the last.
pub open spec fn sweep_backward(s: Seq<Node>, sel: Seq<usize>, i: int) -> Seq<Node>
    decreases s.len() - i,
{
    if i < 1 || i >= s.len() {
        s
    } else {
        sweep_backward(step_backward(s, sel, i), sel, i + 1)
    }
}

/// The drawing order after moving the nodes of `sel` as `mode` says.
pub open spec fn reordered(nodes: Seq<Node>, sel: Seq<usize>, mode: NodeOrderAction) -> Seq<Node> {
    match mode {
        NodeOrderAction::BringToFront => partitioned(nodes, sel, false),
        NodeOrderAction::SendToBack => partitioned(nodes, sel, true),
        NodeOrderAction::BringForwardOne => sweep_forward(nodes, sel, nodes.len() - 2),
        NodeOrderAction::SendBackwardOne => sweep_backward(nodes, sel, 1),
    }
}

/// The id of the selected node drawn last, if any.
pub open spec fn last_selected(nodes: Seq<Node>, sel: Seq<usize>) -> Option<usize> {
    let f = nodes.filter(in_sel(sel));
    if f.len() > 0 {
        Some(f.last().id)
    } else {
        None
    }
}

proof fn lemma_swap_keeps(s: Seq<Node>, i: int, next: usize)
    requires
        0 <= i < s.len() - 1,
        unique_ids(s),
        forall|a: int| 0 <= a < s.len() ==> #[trigger] s[a].id < next,
    ensures
        unique_ids(swapped_adjacent(s, i)),
        forall|a: int| 0 <= a < s.len() ==> #[trigger] swapped_adjacent(s, i)[a].id < next,
        swapped_adjacent(s, i).len() == s.len(),
{
    let t = swapped_adjacent(s, i);
    assert forall|a: int| 0 <= a < t.len() implies t[a] == s[if a == i {
        i + 1
    } else if a == i + 1 {
        i
    } else {
        a
    }] by {}
    assert forall|a: int, b: int| 0 <= a < b < t.len() implies #[trigger] t[a].id != #[trigger] t[b].id by {
        let pa = if a == i { i + 1 } else if a == i + 1 { i } else { a };
        let pb = if b == i { i + 1 } else if b == i + 1 { i } else { b };
        assert(t[a] == s[pa] && t[b] == s[pb]);
        assert(pa != pb);
        if pa < pb {
            assert(s[pa].id != s[pb].id);
        } else {
            assert(s[pb].id != s[pa].id);
        }
    }
    assert forall|a: int| 0 <= a < s.len() implies #[trigger] t[a].id < next by {
        let pa = if a == i { i + 1 } else if a == i + 1 { i } else { a };
        assert(t[a] == s[pa]);
    }
}

proof fn lemma_ids_no_dups(g: Graph)
    requires
        g.wf(),
    ensures
        no_dups(ids_v(g.nodes_v())),
{
    assert forall|i: int, j: int| 0 <= i < j < ids_v(g.nodes_v()).len() implies #[trigger] ids_v(g.nodes_v())[i] != #[trigger] ids_v(g.nodes_v())[j] by {
        assert(g.nodes@[i].id != g.nodes@[j].id);
    }
}

impl Graph {
    fn swap_with_next(&mut self, i: usize)
        requires
            old(self).wf(),
            i + 1 < old(self).nodes@.len(),
        ensures
            final(self).wf(),
            final(self).nodes@ == swapped_adjacent(old(self).nodes@, i as int),
            final(self).edges == old(self).edges,
            final(self).edge_route_keys == old(self).edge_route_keys,
            final(self).next_node_id == old(self).next_node_id,
    {
        let ghost o = self.nodes@;
        proof {
            lemma_swap_keeps(o, i as int, self.next_node_id);
        }
        let len = self.nodes.len();
        let j: usize = i + 1;
        assert(j < len);
        let x = self.nodes.remove(i);
        self.nodes.insert(j, x);
        assert(self.nodes@ =~= swapped_adjacent(o, i as int));
    }

    /// Each selected node passes the unselected node in front of it, the
    /// last ones first.
    pub fn move_forward_one(&mut self, sel: &Vec<usize>)
        requires
            old(self).wf(),
        ensures
            final(self).wf(),
            final(self).nodes@ == sweep_forward(old(self).nodes@, sel@, old(self).nodes@.len() - 2),
            final(self).edges == old(self).edges,
            final(self).edge_route_keys == old(self).edge_route_keys,
            final(self).next_node_id == old(self).next_node_id,
    {
        let n = self.nodes.len();
        if n < 2 {
            return;
        }
        let mut idx: usize = n - 1;
        while idx > 0
            invariant
                self.wf(),
                self.nodes@.len() == n,
                idx <= n - 1,
                sweep_forward(self.nodes@, sel@, idx - 1) == sweep_forward(old(self).nodes@, sel@, n - 2),
                self.edges == old(self).edges,
                self.edge_route_keys == old(self).edge_route_keys,
                self.next_node_id == old(self).next_node_id,
            decreases idx,
        {
            idx = idx - 1;
            let ghost before = self.nodes@;
            let current_selected = contains_id(sel, self.nodes[idx].id);
            let next_selected = contains_id(sel, self.nodes[idx + 1].id);
            if current_selected && !next_selected {
                self.swap_with_next(idx);
            }
            assert(self.nodes@ == step_forward(before, sel@, idx as int));
        }
    }

    /// Each selected node passes the unselected node behind it, the first
    /// ones first.
    pub fn move_backward_one(&mut self, sel: &Vec<usize>)
        requires
            old(self).wf(),
        ensures
            final(self).wf(),
            final(self).nodes@ == sweep_backward(old(self).nodes@, sel@, 1),
            final(self).edges == old(self).edges,
            final(self).edge_route_keys == old(self).edge_route_keys,
            final(self).next_node_id == old(self).next_node_id,
    {
        let n = self.nodes.len();
        let mut idx: usize = 1;
        while idx < n
            invariant
                self.wf(),
                self.nodes@.len() == n,
                1 <= idx,
                sweep_backward(self.nodes@, sel@, idx as int) == sweep_backward(old(self).nodes@, sel@, 1),
                self.edges == old(self).edges,
                self.edge_route_keys == old(self).edge_route_keys,
                self.next_node_id == old(self).next_node_id,
            decreases n - idx,
        {
            let ghost before = self.nodes@;
            let current_selected = contains_id(sel, self.nodes[idx].id);
            let prev_selected = contains_id(sel, self.nodes[idx - 1].id);
            if current_selected && !prev_selected {
                self.swap_with_next(idx - 1);
            }
            assert(self.nodes@ == step_backward(before, sel@, idx as int));
            idx = idx + 1;
        }
    }
}


/// Element-wise equality of two lists of ids.
pub fn same_ids(a: &Vec<usize>, b: &Vec<usize>) -> (r: bool)
    ensures
        r == (a@ == b@),
{
    if a.len() != b.len() {
        return false;
    }
    let mut i: usize = 0;
    while i < a.len()
        invariant
            a@.len() == b@.len(),
            i <= a@.len(),
            forall|j: int| 0 <= j < i ==> #[trigger] a@[j] == b@[j],
        decreases a@.len() - i,
    {
        if a[i] != b[i] {
            return false;
        }
        i = i + 1;
    }
    assert(a@ =~= b@);
    true
}

/// What recording a reorder from the order `before` does: nothing when the
/// order did not change, else a reorder entry goes on the undo stack.
pub open spec fn reorder_recorded(o: Workspace, n: Workspace, before: Seq<usize>) -> bool {
    if before == ids_v(n.graph.nodes_v()) {
        &&& n.history == o.history
        &&& n.workspace_dirty == o.workspace_dirty
    } else {
        &&& n.history.undo_v() == o.history.undo_v().push(EntryView::ReorderNodes { before })
        &&& n.history.redo_v().len() == 0
        &&& n.workspace_dirty
    }
}

/// The selection that a context-menu reorder acts on: the selection when it
/// holds the node, else the node alone.
pub open spec fn selection_or_single_v(sel: Seq<usize>, node_id: usize) -> Seq<usize> {
    if sel.contains(node_id) && sel.len() > 0 {
        sel
    } else {
        seq![node_id]
    }
}

impl Workspace {
    /// Records that the drawing order was `before`, unless it did not change.
    pub fn record_reorder_history(&mut self, before: Vec<usize>)
        requires
            old(self).wf(),
            no_dups(before@),
        ensures
            final(self).wf(),
            reorder_recorded(*old(self), *final(self), before@),
            final(self).graph == old(self).graph,
            final(self).selection == old(self).selection,
            final(self).edit == old(self).edit,
            final(self).terminals == old(self).terminals,
            final(self).ui == old(self).ui,
            Workspace::same_meta(*old(self), *final(self)),
    {
        let after = self.graph.node_ids();
        if same_ids(&before, &after) {
            return;
        }
        self.push_history(HistoryEntry::ReorderNodes { before });
    }

    /// The ids of the selected nodes, in drawing order.
    pub fn ordered_selected_ids(&self) -> (r: Vec<usize>)
        ensures
            r@ == ids_of(self.graph.nodes@.filter(in_sel(self.selection.selected_nodes@))),
    {
        let ghost o = self.graph.nodes@;
        let ghost p = in_sel(self.selection.selected_nodes@);
        let mut out: Vec<usize> = Vec::new();
        let mut i: usize = 0;
        while i < self.graph.nodes.len()
            invariant
                i <= o.len(),
                o == self.graph.nodes@,
                p == in_sel(self.selection.selected_nodes@),
                out@ == ids_of(o.subrange(0, i as int).filter(p)),
            decreases o.len() - i,
        {
            proof {
                assert(o.subrange(0, i + 1).drop_last() =~= o.subrange(0, i as int));
                reveal_with_fuel(Seq::<_>::filter, 1);
            }
            let id = self.graph.nodes[i].id;
            if contains_id(&self.selection.selected_nodes, id) {
                out.push(id);
                proof {
                    let f = o.subrange(0, i as int).filter(p);
                    assert(ids_of(f.push(o[i as int])) =~= ids_of(f).push(id));
                }
            }
            i = i + 1;
        }
        assert(o.subrange(0, i as int) =~= o);
        out
    }

    /// Moves the selected nodes in the drawing order as `mode` says; nothing
    /// happens when no node is selected. The previous order is recorded for
    /// undo when it changed, and the selected node becomes the selected node
    /// drawn last.
    pub fn reorder_selection(&mut self, mode: NodeOrderAction)
        requires
            old(self).wf(),
        ensures
            final(self).wf(),
            old(self).selection.selected_nodes@.len() == 0 ==> *final(self) == *old(self),
            old(self).selection.selected_nodes@.len() > 0 ==> {
                &&& final(self).graph.nodes@ == reordered(
                    old(self).graph.nodes@,
                    old(self).selection.selected_nodes@,
                    mode,
                )
                &&& final(self).graph.edges == old(self).graph.edges
                &&& final(self).graph.edge_route_keys == old(self).graph.edge_route_keys
                &&& final(self).graph.next_node_id == old(self).graph.next_node_id
                &&& reorder_recorded(*old(self), *final(self), ids_v(old(self).graph.nodes_v()))
                &&& final(self).selection.selected == last_selected(
                    final(self).graph.nodes@,
                    old(self).selection.selected_nodes@,
                )
                &&& final(self).selection.selected_nodes == old(self).selection.selected_nodes
                &&& final(self).selection.selected_edge == old(self).selection.selected_edge
                &&& final(self).edit == old(self).edit
                &&& final(self).terminals == old(self).terminals
                &&& final(self).ui == old(self).ui
                &&& Workspace::same_meta(*old(self), *final(self))
            },
    {
        if self.selection.selected_nodes.len() == 0 {
            return;
        }
        let sel = crate::model::copy_ids(&self.selection.selected_nodes);
        let before = self.graph.node_ids();
        proof {
            lemma_ids_no_dups(self.graph);
        }
        match mode {
            NodeOrderAction::BringToFront => self.graph.partition_nodes(&sel, false),
            NodeOrderAction::SendToBack => self.graph.partition_nodes(&sel, true),
            NodeOrderAction::BringForwardOne => self.graph.move_forward_one(&sel),
            NodeOrderAction::SendBackwardOne => self.graph.move_backward_one(&sel),
        }
        self.record_reorder_history(before);
        let ordered = self.ordered_selected_ids();
        self.selection.selected = if ordered.len() > 0 {
            Some(ordered[ordered.len() - 1])
        } else {
            None
        };
        proof {
            let f = self.graph.nodes@.filter(in_sel(sel@));
            if f.len() > 0 {
                assert(ids_of(f)[f.len() - 1] == f.last().id);
            }
        }
    }

    /// Puts the selected nodes on top of the others.
    pub fn bring_selection_to_front(&mut self)
        requires
            old(self).wf(),
        ensures
            final(self).wf(),
            old(self).selection.selected_nodes@.len() == 0 ==> *final(self) == *old(self),
            old(self).selection.selected_nodes@.len() > 0 ==> {
                &&& final(self).graph.nodes@ == partitioned(old(self).graph.nodes@, old(self).selection.selected_nodes@, false)
                &&& reorder_recorded(*old(self), *final(self), ids_v(old(self).graph.nodes_v()))
                &&& final(self).selection.selected == last_selected(final(self).graph.nodes@, old(self).selection.selected_nodes@)
                &&& final(self).graph.edges == old(self).graph.edges
            },
    {
        self.reorder_selection(NodeOrderAction::BringToFront);
    }

    /// Puts the selected nodes below the others.
    pub fn send_selection_to_back(&mut self)
        requires
            old(self).wf(),
        ensures
            final(self).wf(),
            old(self).selection.selected_nodes@.len() == 0 ==> *final(self) == *old(self),
            old(self).selection.selected_nodes@.len() > 0 ==> {
                &&& final(self).graph.nodes@ == partitioned(old(self).graph.nodes@, old(self).selection.selected_nodes@, true)
                &&& reorder_recorded(*old(self), *final(self), ids_v(old(self).graph.nodes_v()))
                &&& final(self).selection.selected == last_selected(final(self).graph.nodes@, old(self).selection.selected_nodes@)
                &&& final(self).graph.edges == old(self).graph.edges
            },
    {
        self.reorder_selection(NodeOrderAction::SendToBack);
    }

    /// Moves each selected node one step up past an unselected node.
    pub fn bring_selection_forward_one(&mut self)
        requires
            old(self).wf(),
        ensures
            final(self).wf(),
            old(self).selection.selected_nodes@.len() == 0 ==> *final(self) == *old(self),
            old(self).selection.selected_nodes@.len() > 0 ==> {
                &&& final(self).graph.nodes@ == sweep_forward(
                    old(self).graph.nodes@,
                    old(self).selection.selected_nodes@,
                    old(self).graph.nodes@.len() - 2,
                )
                &&& reorder_recorded(*old(self), *final(self), ids_v(old(self).graph.nodes_v()))
                &&& final(self).selection.selected == last_selected(final(self).graph.nodes@, old(self).selection.selected_nodes@)
                &&& final(self).graph.edges == old(self).graph.edges
            },
    {
        self.reorder_selection(NodeOrderAction::BringForwardOne);
    }

    /// Moves each selected node one step down past an unselected node.
    pub fn send_selection_backward_one(&mut self)
        requires
            old(self).wf(),
        ensures
            final(self).wf(),
            old(self).selection.selected_nodes@.len() == 0 ==> *final(self) == *old(self),
            old(self).selection.selected_nodes@.len() > 0 ==> {
                &&& final(self).graph.nodes@ == sweep_backward(old(self).graph.nodes@, old(self).selection.selected_nodes@, 1)
                &&& reorder_recorded(*old(self), *final(self), ids_v(old(self).graph.nodes_v()))
                &&& final(self).selection.selected == last_selected(final(self).graph.nodes@, old(self).selection.selected_nodes@)
                &&& final(self).graph.edges == old(self).graph.edges
            },
    {
        self.reorder_selection(NodeOrderAction::SendBackwardOne);
    }

    /// The selection when it holds the node, else the node alone.
    pub fn selection_or_single(&self, node_id: usize) -> (r: Vec<usize>)
        ensures
            r@ == selection_or_single_v(self.selection.selected_nodes@, node_id),
    {
        if contains_id(&self.selection.selected_nodes, node_id) && self.selection.selected_nodes.len() > 0 {
            crate::model::copy_ids(&self.selection.selected_nodes)
        } else {
            let mut picked: Vec<usize> = Vec::new();
            picked.push(node_id);
            assert(picked@ =~= seq![node_id]);
            picked
        }
    }

    /// The context-menu reorder of a node: the selection when it holds the
    /// node, else the node alone, becomes the selection and moves.
    pub fn reorder_from_context(&mut self, node_id: usize, mode: NodeOrderAction)
        requires
            old(self).wf(),
        ensures
            final(self).wf(),
            final(self).selection.selected_nodes@ == selection_or_single_v(old(self).selection.selected_nodes@, node_id),
            final(self).graph.nodes@ == reordered(
                old(self).graph.nodes@,
                selection_or_single_v(old(self).selection.selected_nodes@, node_id),
                mode,
            ),
            final(self).graph.edges == old(self).graph.edges,
            final(self).selection.selected == last_selected(
                final(self).graph.nodes@,
                selection_or_single_v(old(self).selection.selected_nodes@, node_id),
            ),
            Workspace::same_meta(*old(self), *final(self)),
    {
        let target = self.selection_or_single(node_id);
        self.selection.selected_nodes = target;
        self.reorder_selection(mode);
    }
}

} // verus!
