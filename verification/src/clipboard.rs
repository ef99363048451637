//! Copying the selected nodes, with the edges among them and their route
//! keys, and pasting them back as new nodes.
use crate::model::{node_views, opt_view, Coord, Node, NodeView};
use crate::routes::shown_route;
use crate::selection::contains_id;
use crate::workspace::{ClipboardEdge, ClipboardPayload, Workspace};
use vstd::prelude::*;

verus! {

/// A copied edge: its ends and the route key it showed.
pub type ClipEdgeView = (usize, usize, Option<Seq<char>>);

pub open spec fn clip_edge_views(s: Seq<ClipboardEdge>) -> Seq<ClipEdgeView> {
    s.map_values(|e: ClipboardEdge| (e.from, e.to, opt_view(e.route_key)))
}

/// The node is among the selected ones.
pub open spec fn node_selected(sel: Seq<usize>) -> spec_fn(NodeView) -> bool {
    |n: NodeView| sel.contains(n.id)
}

/// Both ends of the edge are among the selected nodes.
pub open spec fn edge_inside(sel: Seq<usize>) -> spec_fn((usize, usize)) -> bool {
    |e: (usize, usize)| sel.contains(e.0) && sel.contains(e.1)
}

/// The copies of the edges among the selected nodes, with the keys they show.
pub open spec fn copied_edges(
    edges: Seq<(usize, usize)>,
    sel: Seq<usize>,
    m: Map<(usize, usize), Seq<char>>,
) -> Seq<ClipEdgeView> {
    edges.filter(edge_inside(sel)).map_values(|e: (usize, usize)| (e.0, e.1, shown_route(m, e.0, e.1)))
}

/// The fields of the workspace other than the clipboard are the same.
pub open spec fn all_but_clipboard(o: Workspace, n: Workspace) -> bool {
    &&& n.graph == o.graph
    &&& n.selection == o.selection
    &&& n.history == o.history
    &&& n.edit == o.edit
    &&& n.terminals == o.terminals
    &&& n.ui == o.ui
    &&& n.workspace_name == o.workspace_name
    &&& n.editing_workspace_name == o.editing_workspace_name
    &&& n.pending_workspace_name_focus == o.pending_workspace_name_focus
    &&& n.workspace_name_edit_buffer == o.workspace_name_edit_buffer
    &&& n.workspace_dirty == o.workspace_dirty
    &&& n.automation_state_version == o.automation_state_version
    &&& n.processed_automation_requests == o.processed_automation_requests
    &&& n.toast_notifications == o.toast_notifications
    &&& n.next_toast_id == o.next_toast_id
    &&& n.active_graph_path == o.active_graph_path
}

impl ClipboardEdge {
    pub fn copy(&self) -> (r: ClipboardEdge)
        ensures
            r.from == self.from,
            r.to == self.to,
            opt_view(r.route_key) == opt_view(self.route_key),
    {
        ClipboardEdge { from: self.from, to: self.to, route_key: crate::model::copy_opt_string(&self.route_key) }
    }
}

impl ClipboardPayload {
    pub fn copy(&self) -> (r: ClipboardPayload)
        ensures
            node_views(r.nodes@) == node_views(self.nodes@),
            clip_edge_views(r.edges@) == clip_edge_views(self.edges@),
    {
        let mut edges: Vec<ClipboardEdge> = Vec::new();
        let mut i: usize = 0;
        while i < self.edges.len()
            invariant
                i <= self.edges@.len(),
                clip_edge_views(edges@) == clip_edge_views(self.edges@.subrange(0, i as int)),
            decreases self.edges@.len() - i,
        {
            let ghost before = edges@;
            edges.push(self.edges[i].copy());
            proof {
                assert(clip_edge_views(edges@) =~= clip_edge_views(before).push(
                    clip_edge_views(self.edges@)[i as int],
                ));
                assert(clip_edge_views(self.edges@.subrange(0, i + 1)) =~= clip_edge_views(
                    self.edges@.subrange(0, i as int),
                ).push(clip_edge_views(self.edges@)[i as int]));
            }
            i = i + 1;
        }
        assert(self.edges@.subrange(0, i as int) =~= self.edges@);
        ClipboardPayload { nodes: crate::model::copy_nodes(&self.nodes), edges }
    }
}

impl Workspace {
    /// Copies the selected nodes, in drawing order, and the edges among them
    /// with the route keys they show. Returns `false`, leaving the clipboard
    /// as it was, where nothing is selected or no selected node exists.
    pub fn copy_selected_nodes_to_internal_clipboard(&mut self) -> (r: bool)
        requires
            old(self).wf(),
        ensures
            ({
                let sel = old(self).selection.selected_nodes@;
                let ns = old(self).graph.nodes_v().filter(node_selected(sel));
                &&& r == (sel.len() > 0 && ns.len() > 0)
                &&& r ==> (final(self).node_clipboard matches Some(p) && node_views(p.nodes@) == ns
                    && clip_edge_views(p.edges@) == copied_edges(
                    old(self).graph.edges@,
                    sel,
                    old(self).graph.routes(),
                ))
                &&& !r ==> final(self).node_clipboard == old(self).node_clipboard
            }),
            all_but_clipboard(*old(self), *final(self)),
    {
        let sel = &self.selection.selected_nodes;
        if sel.len() == 0 {
            return false;
        }
        let ghost selv = sel@;
        let ghost p = node_selected(selv);
        let mut nodes: Vec<Node> = Vec::new();
        let mut i: usize = 0;
        while i < self.graph.nodes.len()
            invariant
                i <= self.graph.nodes@.len(),
                sel@ == selv,
                p == node_selected(selv),
                node_views(nodes@) == node_views(self.graph.nodes@.subrange(0, i as int)).filter(p),
            decreases self.graph.nodes@.len() - i,
        {
            proof {
                reveal_with_fuel(Seq::<_>::filter, 1);
                assert(node_views(self.graph.nodes@.subrange(0, i + 1)).drop_last() =~= node_views(
                    self.graph.nodes@.subrange(0, i as int),
                ));
            }
            if contains_id(sel, self.graph.nodes[i].id) {
                let ghost before = nodes@;
                nodes.push(self.graph.nodes[i].copy());
                assert(node_views(nodes@) =~= node_views(before).push(self.graph.nodes@[i as int]@));
            }
            i = i + 1;
        }
        assert(self.graph.nodes@.subrange(0, i as int) =~= self.graph.nodes@);
        if nodes.len() == 0 {
            return false;
        }
        let ghost q = edge_inside(selv);
        let ghost f = |e: (usize, usize)| (e.0, e.1, shown_route(self.graph.routes(), e.0, e.1));
        let mut edges: Vec<ClipboardEdge> = Vec::new();
        let mut j: usize = 0;
        while j < self.graph.edges.len()
            invariant
                j <= self.graph.edges@.len(),
                self.graph.wf(),
                sel@ == selv,
                q == edge_inside(selv),
                f == (|e: (usize, usize)| (e.0, e.1, shown_route(self.graph.routes(), e.0, e.1))),
                clip_edge_views(edges@) == self.graph.edges@.subrange(0, j as int).filter(q).map_values(f),
            decreases self.graph.edges@.len() - j,
        {
            let e = self.graph.edges[j];
            proof {
                reveal_with_fuel(Seq::<_>::filter, 1);
                assert(self.graph.edges@.subrange(0, j + 1).drop_last() =~= self.graph.edges@.subrange(
                    0,
                    j as int,
                ));
            }
            if contains_id(sel, e.0) && contains_id(sel, e.1) {
                let key = self.graph.edge_route_key(e.0, e.1);
                let ghost before = edges@;
                edges.push(ClipboardEdge { from: e.0, to: e.1, route_key: key });
                proof {
                    assert(self.graph.edges@.subrange(0, j + 1).filter(q) =~= self.graph.edges@.subrange(
                        0,
                        j as int,
                    ).filter(q).push(e));
                    assert(clip_edge_views(edges@) =~= clip_edge_views(before).push(f(e)));
                }
            } else {
                assert(self.graph.edges@.subrange(0, j + 1).filter(q) =~= self.graph.edges@.subrange(
                    0,
                    j as int,
                ).filter(q));
            }
            j = j + 1;
        }
        assert(self.graph.edges@.subrange(0, j as int) =~= self.graph.edges@);
        self.node_clipboard = Some(ClipboardPayload { nodes, edges });
        true
    }
}

/// The last copied node with the id: its pasted copy is where edges to that
/// id go.
pub open spec fn last_index_of(nodes: Seq<NodeView>, id: usize) -> Option<int>
    decreases nodes.len(),
{
    if nodes.len() == 0 {
        None
    } else if nodes.last().id == id {
        Some(nodes.len() - 1)
    } else {
        last_index_of(nodes.drop_last(), id)
    }
}

pub proof fn lemma_last_index_bounds(nodes: Seq<NodeView>, id: usize)
    ensures
        last_index_of(nodes, id) matches Some(k) ==> 0 <= k < nodes.len() && nodes[k].id == id,
    decreases nodes.len(),
{
    if nodes.len() > 0 && nodes.last().id != id {
        lemma_last_index_bounds(nodes.drop_last(), id);
    }
}

/// `p` are the pasted copies of `t`: the ids from `base` on, in order,
/// fresh uids of 36 characters, the given positions, and the kind, content
/// and size of the copied node.
pub open spec fn pasted_copies(t: Seq<NodeView>, positions: Seq<Coord>, base: int, p: Seq<NodeView>) -> bool {
    &&& p.len() == t.len()
    &&& forall|k: int|
        0 <= k < p.len() ==> {
            &&& #[trigger] p[k].id == base + k
            &&& p[k].kind == t[k].kind
            &&& p[k].data == t[k].data
            &&& p[k].size == t[k].size
            &&& p[k].pos == positions[k]
            &&& p[k].uid.len() == 36
        }
}

/// The edges pasted from the copied ones, in order, and the route keys
/// after them: an edge whose ends were both copied joins their copies,
/// unless that edge is there already; its key, trimmed, goes with it (a
/// blank key removes the entry).
pub open spec fn pasted_edges(
    ce: Seq<ClipEdgeView>,
    t: Seq<NodeView>,
    base: int,
    edges0: Seq<(usize, usize)>,
    m0: Map<(usize, usize), Seq<char>>,
) -> (Seq<(usize, usize)>, Map<(usize, usize), Seq<char>>)
    decreases ce.len(),
{
    if ce.len() == 0 {
        (Seq::empty(), m0)
    } else {
        let (prev, m) = pasted_edges(ce.drop_last(), t, base, edges0, m0);
        let e = ce.last();
        match (last_index_of(t, e.0), last_index_of(t, e.1)) {
            (Some(a), Some(b)) => {
                let ne = ((base + a) as usize, (base + b) as usize);
                if (edges0 + prev).contains(ne) {
                    (prev, m)
                } else {
                    (
                        prev.push(ne),
                        match e.2 {
                            Some(k) => if crate::text::trim(k).len() == 0 {
                                m.remove(ne)
                            } else {
                                m.insert(ne, crate::text::trim(k))
                            },
                            None => m,
                        },
                    )
                }
            },
            _ => (prev, m),
        }
    }
}

fn last_template_index(t: &Vec<Node>, id: usize) -> (r: Option<usize>)
    ensures
        match r {
            Some(k) => last_index_of(node_views(t@), id) == Some(k as int) && k < t@.len(),
            None => last_index_of(node_views(t@), id) is None,
        },
{
    let ghost tv = node_views(t@);
    let mut k: usize = t.len();
    assert(tv.take(k as int) =~= tv);
    while k > 0
        invariant
            k <= t@.len(),
            tv == node_views(t@),
            last_index_of(tv, id) == last_index_of(tv.take(k as int), id),
        decreases k,
    {
        let ghost pre = tv.take(k as int);
        assert(pre.drop_last() =~= tv.take(k - 1));
        k = k - 1;
        if t[k].id == id {
            return Some(k);
        }
    }
    assert(tv.take(0).len() == 0);
    None
}

/// `o` is the pasted copy of `t` at `pos` with the id `id`.
pub open spec fn instance_of(o: Node, t: Node, pos: Coord, id: int) -> bool {
    &&& o.id == id
    &&& o.kind == t.kind
    &&& o.data@ == t.data@
    &&& o.size == t.size
    &&& o.pos == pos
    &&& o.uid@.len() == 36
}

/// Copies of the templates with ids from `base` on, fresh uids and the
/// given positions.
fn instantiate(t: &Vec<Node>, positions: &Vec<Coord>, base: usize) -> (r: Vec<Node>)
    requires
        positions@.len() == t@.len(),
        base + t@.len() <= usize::MAX,
    ensures
        pasted_copies(node_views(t@), positions@, base as int, node_views(r@)),
{
    let mut out: Vec<Node> = Vec::new();
    let mut k: usize = 0;
    while k < t.len()
        invariant
            k <= t@.len(),
            positions@.len() == t@.len(),
            base + t@.len() <= usize::MAX,
            out@.len() == k,
            forall|j: int| 0 <= j < k ==> instance_of(#[trigger] out@[j], t@[j], positions@[j], base + j),
        decreases t@.len() - k,
    {
        let mut node = t[k].copy();
        node.id = base + k;
        node.uid = crate::ids::new_uid();
        node.pos = positions[k];
        let ghost before = out@;
        let ghost nk = node;
        assert(nk.id == base + k);
        assert(nk.kind == t@[k as int].kind);
        assert(nk.data@ == t@[k as int].data@);
        assert(nk.size == t@[k as int].size);
        assert(nk.pos == positions@[k as int]);
        assert(nk.uid@.len() == 36);
        out.push(node);
        let ghost ok = k as int;
        k = k + 1;
        proof {
            assert forall|j: int| 0 <= j < k implies instance_of(#[trigger] out@[j], t@[j], positions@[j], base + j) by {
                if j < ok {
                    assert(out@[j] == before[j]);
                    assert(before[j].id == base + j);
                } else {
                    assert(out@[j] == nk);
                }
            }
        }
    }
    proof {
        let p = node_views(out@);
        assert forall|j: int| 0 <= j < p.len() implies {
            &&& #[trigger] p[j].id == base + j
            &&& p[j].kind == node_views(t@)[j].kind
            &&& p[j].data == node_views(t@)[j].data
            &&& p[j].size == node_views(t@)[j].size
            &&& p[j].pos == positions@[j]
            &&& p[j].uid.len() == 36
        } by {
            assert(instance_of(out@[j], t@[j], positions@[j], base + j));
        }
    }
    out
}

impl crate::workspace::Graph {
    /// Adds the pasted edges and their route keys.
    fn paste_edges(&mut self, ce: &Vec<ClipboardEdge>, t: &Vec<Node>, base: usize)
        requires
            old(self).wf(),
            base + t@.len() <= usize::MAX,
        ensures
            final(self).wf(),
            ({
                let (added, m) = pasted_edges(
                    clip_edge_views(ce@),
                    node_views(t@),
                    base as int,
                    old(self).edges@,
                    old(self).routes(),
                );
                &&& final(self).edges@ == old(self).edges@ + added
                &&& final(self).routes() == m
            }),
            final(self).nodes == old(self).nodes,
            final(self).next_node_id == old(self).next_node_id,
    {
        let ghost cev = clip_edge_views(ce@);
        let ghost tv = node_views(t@);
        let mut i: usize = 0;
        while i < ce.len()
            invariant
                i <= ce@.len(),
                self.wf(),
                base + t@.len() <= usize::MAX,
                cev == clip_edge_views(ce@),
                tv == node_views(t@),
                self.nodes == old(self).nodes,
                self.next_node_id == old(self).next_node_id,
                ({
                    let (added, m) = pasted_edges(cev.take(i as int), tv, base as int, old(self).edges@, old(self).routes());
                    &&& self.edges@ == old(self).edges@ + added
                    &&& self.routes() == m
                }),
            decreases ce@.len() - i,
        {
            let ghost pre = cev.take(i + 1);
            assert(pre.drop_last() =~= cev.take(i as int));
            assert(pre.last() == cev[i as int]);
            let a = last_template_index(t, ce[i].from);
            let b = last_template_index(t, ce[i].to);
            if let (Some(a), Some(b)) = (a, b) {
                let from = base + a;
                let to = base + b;
                if !self.has_edge(from, to) {
                    self.edges.push((from, to));
                    match &ce[i].route_key {
                        Some(k) => {
                            self.set_edge_route_key(from, to, k.as_str());
                        },
                        None => {},
                    }
                    assert(self.edges@ =~= old(self).edges@ + pasted_edges(pre, tv, base as int, old(self).edges@, old(self).routes()).0);
                }
            }
            i = i + 1;
        }
        assert(cev.take(i as int) =~= cev);
    }

    /// Appends nodes whose ids lie, increasing, between the largest id and
    /// the next one.
    fn append_fresh(&mut self, p: Vec<Node>, base: usize)
        requires
            old(self).wf(),
            forall|i: int| 0 <= i < old(self).nodes@.len() ==> #[trigger] old(self).nodes@[i].id < base,
            forall|k: int| 0 <= k < p@.len() ==> #[trigger] p@[k].id == base + k,
            base + p@.len() <= old(self).next_node_id,
        ensures
            final(self).wf(),
            final(self).nodes_v() == old(self).nodes_v() + node_views(p@),
            final(self).edges == old(self).edges,
            final(self).edge_route_keys == old(self).edge_route_keys,
            final(self).next_node_id == old(self).next_node_id,
    {
        let ghost n0 = self.nodes@;
        let ghost old_p = p@;
        let mut p = p;
        self.nodes.append(&mut p);
        proof {
            let all = self.nodes@;
            assert forall|i: int, j: int| 0 <= i < j < all.len() implies #[trigger] all[i].id != #[trigger] all[j].id by {
                if j < n0.len() {
                    assert(n0[i].id != n0[j].id);
                } else if i < n0.len() {
                    assert(all[j] == old_p[j - n0.len()]);
                } else {
                    assert(all[i] == old_p[i - n0.len()]);
                    assert(all[j] == old_p[j - n0.len()]);
                }
            }
            assert forall|i: int| 0 <= i < all.len() implies #[trigger] all[i].id < self.next_node_id by {
                if i >= n0.len() {
                    assert(all[i] == old_p[i - n0.len()]);
                }
            }
            assert(node_views(all) =~= node_views(n0) + node_views(old_p));
        }
    }
}

impl Workspace {
    /// Pastes the copied nodes as new nodes at the given positions (one per
    /// copied node), with the copied edges among them and their keys;
    /// records the paste and selects the new nodes. Returns `false`, doing
    /// nothing, where the clipboard is empty.
    pub fn paste_nodes_from_internal_clipboard(&mut self, positions: &Vec<Coord>) -> (r: bool)
        requires
            old(self).wf(),
            old(self).node_clipboard matches Some(cp) ==> positions@.len() == cp.nodes@.len()
                && old(self).graph.next_node_id + cp.nodes@.len() <= usize::MAX,
        ensures
            final(self).wf(),
            match old(self).node_clipboard {
                Some(cp) if cp.nodes@.len() > 0 => {
                    let t = node_views(cp.nodes@);
                    let base = old(self).graph.next_node_id as int;
                    let n0 = old(self).graph.nodes_v().len();
                    let p = final(self).graph.nodes_v().subrange(n0 as int, final(self).graph.nodes_v().len() as int);
                    let (added, m) = pasted_edges(
                        clip_edge_views(cp.edges@),
                        t,
                        base,
                        old(self).graph.edges@,
                        old(self).graph.routes(),
                    );
                    &&& r
                    &&& final(self).graph.nodes_v() == old(self).graph.nodes_v() + p
                    &&& pasted_copies(t, positions@, base, p)
                    &&& final(self).graph.next_node_id == base + t.len()
                    &&& final(self).graph.edges@ == old(self).graph.edges@ + added
                    &&& final(self).graph.routes() == m
                    &&& final(self).history.undo_v() == old(self).history.undo_v().push(
                        crate::history::EntryView::CreateBatch { nodes: p },
                    )
                    &&& final(self).history.redo_v().len() == 0
                    &&& final(self).selection.selected_nodes@ == Seq::new(t.len(), |k: int| (base + k) as usize)
                    &&& final(self).selection.selected == Some((base + t.len() - 1) as usize)
                    &&& final(self).selection.selected_edge is None
                    &&& final(self).workspace_dirty
                    &&& final(self).edit == old(self).edit
                    &&& final(self).terminals == old(self).terminals
                    &&& final(self).ui == old(self).ui
                    &&& Workspace::same_meta(*old(self), *final(self))
                },
                _ => !r && *final(self) == *old(self),
            },
    {
        let payload = match &self.node_clipboard {
            Some(p) => p.copy(),
            None => return false,
        };
        assert(payload.nodes@.len() == node_views(payload.nodes@).len());
        assert(self.node_clipboard->0.nodes@.len() == node_views(self.node_clipboard->0.nodes@).len());
        if payload.nodes.len() == 0 {
            return false;
        }
        let ghost t = node_views(payload.nodes@);
        let base = self.graph.next_node_id;
        let n = payload.nodes.len();
        let pasted = instantiate(&payload.nodes, positions, base);
        self.graph.next_node_id = base + n;
        self.graph.paste_edges(&payload.edges, &payload.nodes, base);
        let ghost n0 = self.graph.nodes@;
        let ghost pv = node_views(pasted@);
        let kept = crate::model::copy_nodes(&pasted);
        let mut ids: Vec<usize> = Vec::new();
        let mut k: usize = 0;
        while k < n
            invariant
                k <= n,
                n == pasted@.len(),
                base + n <= usize::MAX,
                ids@ == Seq::new(k as nat, |j: int| (base + j) as usize),
            decreases n - k,
        {
            ids.push(base + k);
            k = k + 1;
            assert(ids@ =~= Seq::new(k as nat, |j: int| (base + j) as usize));
        }
        proof {
            assert forall|k: int| 0 <= k < pasted@.len() implies #[trigger] pasted@[k].id == base + k by {
                assert(pv[k].id == base + k);
            }
        }
        self.graph.append_fresh(pasted, base);
        proof {
            assert(self.graph.nodes_v().subrange(n0.len() as int, self.graph.nodes_v().len() as int) =~= pv);
            assert forall|k: int| 0 <= k < node_views(kept@).len() implies #[trigger] node_views(kept@)[k].id < self.graph.next_node_id by {
                assert(pv[k].id == base + k);
            }
        }
        self.push_history(crate::history::HistoryEntry::CreateBatch { nodes: kept });
        self.selection.selected = Some(base + n - 1);
        self.selection.selected_nodes = ids;
        self.selection.selected_edge = None;
        proof {
            assert forall|i: int, j: int| 0 <= i < j < self.selection.selected_nodes@.len() implies self.selection.selected_nodes@[i]
                != self.selection.selected_nodes@[j] by {}
        }
        true
    }
}

/// Both ends of a copied edge were copied.
pub open spec fn ends_copied(t: Seq<NodeView>) -> spec_fn(ClipEdgeView) -> bool {
    |e: ClipEdgeView| last_index_of(t, e.0) is Some && last_index_of(t, e.1) is Some
}

/// The edge between the pasted copies of a copied edge's ends.
pub open spec fn between_copies(t: Seq<NodeView>, base: int) -> spec_fn(ClipEdgeView) -> (usize, usize) {
    |e: ClipEdgeView| ((base + last_index_of(t, e.0)->0) as usize, (base + last_index_of(t, e.1)->0) as usize)
}

/// Pasting adds, in order, the edge between the copies of the ends of each
/// copied edge whose ends were both copied: where no copied edge occurs
/// twice, and the edges already there join nodes whose ids lie below the
/// first pasted id.
pub proof fn law_paste_edges(
    ce: Seq<ClipEdgeView>,
    t: Seq<NodeView>,
    base: int,
    edges0: Seq<(usize, usize)>,
    m0: Map<(usize, usize), Seq<char>>,
)
    requires
        0 <= base,
        base + t.len() <= usize::MAX,
        forall|k: int| 0 <= k < edges0.len() ==> (#[trigger] edges0[k]).0 < base && edges0[k].1 < base,
        forall|i: int, j: int|
            0 <= i < j < ce.len() ==> ((#[trigger] ce[i]).0, ce[i].1) != ((#[trigger] ce[j]).0, ce[j].1),
    ensures
        pasted_edges(ce, t, base, edges0, m0).0 == ce.filter(ends_copied(t)).map_values(between_copies(t, base)),
    decreases ce.len(),
{
    reveal_with_fuel(Seq::<_>::filter, 1);
    if ce.len() == 0 {
        assert(ce.filter(ends_copied(t)).map_values(between_copies(t, base)) =~= Seq::<(usize, usize)>::empty());
    } else {
        let d = ce.drop_last();
        assert forall|i: int, j: int| 0 <= i < j < d.len() implies ((#[trigger] d[i]).0, d[i].1) != (
            (#[trigger] d[j]).0,
            d[j].1,
        ) by {
            assert(d[i] == ce[i] && d[j] == ce[j]);
        }
        law_paste_edges(d, t, base, edges0, m0);
        let prev = pasted_edges(d, t, base, edges0, m0).0;
        let e = ce.last();
        lemma_last_index_bounds(t, e.0);
        lemma_last_index_bounds(t, e.1);
        if ends_copied(t)(e) {
            let a = last_index_of(t, e.0)->0;
            let b = last_index_of(t, e.1)->0;
            let ne = ((base + a) as usize, (base + b) as usize);
            assert(ne == between_copies(t, base)(e));
            assert(!(edges0 + prev).contains(ne)) by {
                if (edges0 + prev).contains(ne) {
                    let k = choose|k: int| 0 <= k < (edges0 + prev).len() && (edges0 + prev)[k] == ne;
                    if k < edges0.len() {
                        assert(edges0[k] == ne);
                    } else {
                        let f = d.filter(ends_copied(t));
                        let q = k - edges0.len();
                        assert(prev[q] == ne);
                        assert(prev[q] == between_copies(t, base)(f[q]));
                        assert(f.contains(f[q]));
                        crate::seqs::lemma_filter_contains(d, ends_copied(t));
                        assert(d.contains(f[q]));
                        let i = choose|i: int| 0 <= i < d.len() && d[i] == f[q];
                        let g = f[q];
                        lemma_last_index_bounds(t, g.0);
                        lemma_last_index_bounds(t, g.1);
                        assert(t[a].id == e.0 && t[b].id == e.1);
                        assert(t[a].id == g.0 && t[b].id == g.1);
                        assert(ce[i] == g);
                        assert(ce[ce.len() - 1] == e);
                    }
                }
            }
            assert(ce.filter(ends_copied(t)) =~= d.filter(ends_copied(t)).push(e));
            assert(ce.filter(ends_copied(t)).map_values(between_copies(t, base)) =~= d.filter(
                ends_copied(t),
            ).map_values(between_copies(t, base)).push(ne));
        } else {
            assert(ce.filter(ends_copied(t)) =~= d.filter(ends_copied(t)));
        }
    }
}

} // verus!
