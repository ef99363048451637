//! Undo and redo.
use crate::model::{copy_nodes, node_views, Coord, Node, NodeView};
use crate::ordering::{ids_v, ordered_by};
use crate::seqs::{lemma_filter_contains, retain_mask};
use crate::workspace::{
    bumped, has_node_id, id_is_not, ids_of, no_dups, not_touching, other_than, Workspace,
};
use vstd::prelude::*;

verus! {

/// One step that can be undone.
pub enum HistoryEntry {
    CreateBatch { nodes: Vec<Node> },
    DeleteBatch { nodes: Vec<Node>, edges: Vec<(usize, usize)> },
    MoveNode { node_id: usize, from: Coord, to: Coord },
    MoveNodes { nodes: Vec<(usize, Coord, Coord)> },
    ReorderNodes { before: Vec<usize> },
}

pub enum EntryView {
    CreateBatch { nodes: Seq<NodeView> },
    DeleteBatch { nodes: Seq<NodeView>, edges: Seq<(usize, usize)> },
    MoveNode { node_id: usize, from: Coord, to: Coord },
    MoveNodes { nodes: Seq<(usize, Coord, Coord)> },
    ReorderNodes { before: Seq<usize> },
}

impl View for HistoryEntry {
    type V = EntryView;

    open spec fn view(&self) -> EntryView {
        match self {
            HistoryEntry::CreateBatch { nodes } => EntryView::CreateBatch { nodes: node_views(nodes@) },
            HistoryEntry::DeleteBatch { nodes, edges } => EntryView::DeleteBatch {
                nodes: node_views(nodes@),
                edges: edges@,
            },
            HistoryEntry::MoveNode { node_id, from, to } => EntryView::MoveNode {
                node_id: *node_id,
                from: *from,
                to: *to,
            },
            HistoryEntry::MoveNodes { nodes } => EntryView::MoveNodes { nodes: nodes@ },
            HistoryEntry::ReorderNodes { before } => EntryView::ReorderNodes { before: before@ },
        }
    }
}

pub open spec fn entry_views(s: Seq<HistoryEntry>) -> Seq<EntryView> {
    s.map_values(|e: HistoryEntry| e@)
}

/// The undo and redo stacks.
pub struct History {
    pub undo_stack: Vec<HistoryEntry>,
    pub redo_stack: Vec<HistoryEntry>,
}

impl History {
    pub fn new() -> (r: History)
        ensures
            r.undo_stack@.len() == 0,
            r.redo_stack@.len() == 0,
    {
        History { undo_stack: Vec::new(), redo_stack: Vec::new() }
    }

    pub open spec fn undo_v(&self) -> Seq<EntryView> {
        entry_views(self.undo_stack@)
    }

    pub open spec fn redo_v(&self) -> Seq<EntryView> {
        entry_views(self.redo_stack@)
    }

    /// Every node kept in the history has an id below `n`.
    pub open spec fn ids_below(&self, n: int) -> bool {
        &&& forall|i: int| 0 <= i < self.undo_v().len() ==> entry_ids_below(#[trigger] self.undo_v()[i], n)
        &&& forall|i: int| 0 <= i < self.redo_v().len() ==> entry_ids_below(#[trigger] self.redo_v()[i], n)
    }
}

/// Every node that an entry holds has an id below `n`, and a recorded
/// drawing order names no node twice.
pub open spec fn entry_ids_below(e: EntryView, n: int) -> bool {
    match e {
        EntryView::CreateBatch { nodes } => forall|i: int| 0 <= i < nodes.len() ==> #[trigger] nodes[i].id < n,
        EntryView::DeleteBatch { nodes, .. } => forall|i: int| 0 <= i < nodes.len() ==> #[trigger] nodes[i].id < n,
        EntryView::ReorderNodes { before } => no_dups(before),
        _ => true,
    }
}

pub proof fn lemma_ids_below_mono(h: History, n: int, m: int)
    requires
        h.ids_below(n),
        n <= m,
    ensures
        h.ids_below(m),
{
    assert forall|i: int| 0 <= i < h.undo_v().len() implies entry_ids_below(#[trigger] h.undo_v()[i], m) by {
        assert(entry_ids_below(h.undo_v()[i], n));
    }
    assert forall|i: int| 0 <= i < h.redo_v().len() implies entry_ids_below(#[trigger] h.redo_v()[i], m) by {
        assert(entry_ids_below(h.redo_v()[i], n));
    }
}

pub proof fn lemma_entry_views_push(s: Seq<HistoryEntry>, e: HistoryEntry)
    ensures
        entry_views(s.push(e)) == entry_views(s).push(e@),
{
    assert(entry_views(s.push(e)) =~= entry_views(s).push(e@));
}

impl Workspace {
    /// Records a step that can be undone: it goes on the undo stack, the redo
    /// stack is emptied and the workspace becomes dirty.
    pub fn push_history(&mut self, entry: HistoryEntry)
        requires
            old(self).wf(),
            entry_ids_below(entry@, old(self).graph.next_node_id as int),
        ensures
            final(self).wf(),
            final(self).history.undo_v() == old(self).history.undo_v().push(entry@),
            final(self).history.redo_v().len() == 0,
            final(self).workspace_dirty,
            final(self).automation_state_version == bumped(old(self).automation_state_version),
            final(self).graph == old(self).graph,
            final(self).selection == old(self).selection,
            final(self).edit == old(self).edit,
            final(self).terminals == old(self).terminals,
            final(self).ui == old(self).ui,
            Workspace::same_meta(*old(self), *final(self)),
    {
        let ghost e = entry@;
        proof {
            lemma_entry_views_push(self.history.undo_stack@, entry);
        }
        self.history.undo_stack.push(entry);
        self.history.redo_stack.clear();
        assert(self.history.redo_v() =~= Seq::<EntryView>::empty());
        assert(self.history.ids_below(self.graph.next_node_id as int)) by {
            assert forall|i: int| 0 <= i < self.history.undo_v().len() implies entry_ids_below(#[trigger] self.history.undo_v()[i], self.graph.next_node_id as int) by {
                if i < old(self).history.undo_v().len() {
                    assert(self.history.undo_v()[i] == old(self).history.undo_v()[i]);
                }
            }
        }
        self.mark_workspace_dirty();
    }

    /// Records that a node moved; the caller has checked that it moved.
    pub fn record_move_history(&mut self, node_id: usize, from: Coord, to: Coord)
        requires
            old(self).wf(),
        ensures
            final(self).wf(),
            final(self).history.undo_v() == old(self).history.undo_v().push(
                EntryView::MoveNode { node_id, from, to },
            ),
            final(self).history.redo_v().len() == 0,
            final(self).workspace_dirty,
            final(self).graph == old(self).graph,
            final(self).selection == old(self).selection,
    {
        self.push_history(HistoryEntry::MoveNode { node_id, from, to });
    }

    /// Records that some nodes moved; nothing is recorded for an empty list.
    pub fn record_nodes_move_history(&mut self, nodes: Vec<(usize, Coord, Coord)>)
        requires
            old(self).wf(),
        ensures
            final(self).wf(),
            nodes@.len() == 0 ==> *final(self) == *old(self),
            nodes@.len() > 0 ==> final(self).history.undo_v() == old(self).history.undo_v().push(
                EntryView::MoveNodes { nodes: nodes@ },
            ) && final(self).history.redo_v().len() == 0 && final(self).workspace_dirty,
            final(self).graph == old(self).graph,
            final(self).selection == old(self).selection,
    {
        if nodes.len() == 0 {
            return;
        }
        self.push_history(HistoryEntry::MoveNodes { nodes });
    }
}


// ---------------------------------------------------------------------------
// Positions
// ---------------------------------------------------------------------------

/// The nodes with the node `id` (if any) moved to `p`.
pub open spec fn set_pos(nodes: Seq<NodeView>, id: usize, p: Coord) -> Seq<NodeView> {
    Seq::new(
        nodes.len(),
        |i: int|
            if nodes[i].id == id {
                NodeView { pos: p, ..nodes[i] }
            } else {
                nodes[i]
            },
    )
}

/// The nodes after each listed node moved to the first of its two positions,
/// in the order of the list.
pub open spec fn apply_moves(nodes: Seq<NodeView>, moves: Seq<(usize, Coord, Coord)>) -> Seq<NodeView>
    decreases moves.len(),
{
    if moves.len() == 0 {
        nodes
    } else {
        let m = moves.last();
        set_pos(apply_moves(nodes, moves.drop_last()), m.0, m.1)
    }
}

/// Each move with its two positions exchanged.
pub open spec fn swap_moves(moves: Seq<(usize, Coord, Coord)>) -> Seq<(usize, Coord, Coord)> {
    moves.map_values(|m: (usize, Coord, Coord)| (m.0, m.2, m.1))
}

impl crate::workspace::Graph {
    /// Moves the node with the given id, if there is one.
    pub fn set_node_pos(&mut self, id: usize, p: Coord)
        requires
            old(self).wf(),
        ensures
            final(self).wf(),
            final(self).nodes_v() == set_pos(old(self).nodes_v(), id, p),
            final(self).nodes@.len() == old(self).nodes@.len(),
            forall|i: int| 0 <= i < final(self).nodes@.len() ==> #[trigger] final(self).nodes@[i].id == old(self).nodes@[i].id,
            final(self).edges == old(self).edges,
            final(self).edge_route_keys == old(self).edge_route_keys,
            final(self).next_node_id == old(self).next_node_id,
    {
        let ghost o = self.nodes@;
        match self.find_node_index(id) {
            Some(i) => {
                self.nodes[i].pos = p;
                proof {
                    assert forall|j: int| 0 <= j < o.len() && j != i implies o[j].id != id by {
                        if j < i {
                            assert(o[j].id != o[i as int].id);
                        } else {
                            assert(o[i as int].id != o[j].id);
                        }
                    }
                    assert(self.nodes_v() =~= set_pos(node_views(o), id, p));
                    assert forall|a: int, b: int| 0 <= a < b < self.nodes@.len() implies #[trigger] self.nodes@[a].id != #[trigger] self.nodes@[b].id by {
                        assert(o[a].id != o[b].id);
                    }
                    assert forall|a: int| 0 <= a < self.nodes@.len() implies #[trigger] self.nodes@[a].id < self.next_node_id by {
                        assert(self.nodes@[a].id == o[a].id);
                    }
                }
            },
            None => {
                proof {
                    assert forall|j: int| 0 <= j < o.len() implies o[j].id != id by {
                        if o[j].id == id {
                            assert(crate::workspace::has_node_id(o, id));
                        }
                    }
                    assert(self.nodes_v() =~= set_pos(node_views(o), id, p));
                }
            },
        }
    }

    /// Moves each listed node to the first of its positions, in order; returns
    /// the list with the positions exchanged.
    pub fn apply_move_list(&mut self, moves: &Vec<(usize, Coord, Coord)>) -> (swapped: Vec<(usize, Coord, Coord)>)
        requires
            old(self).wf(),
        ensures
            final(self).wf(),
            final(self).nodes_v() == apply_moves(old(self).nodes_v(), moves@),
            swapped@ == swap_moves(moves@),
            final(self).edges == old(self).edges,
            final(self).edge_route_keys == old(self).edge_route_keys,
            final(self).next_node_id == old(self).next_node_id,
    {
        let ghost o = self.nodes_v();
        let mut swapped: Vec<(usize, Coord, Coord)> = Vec::new();
        let mut k: usize = 0;
        while k < moves.len()
            invariant
                self.wf(),
                k <= moves@.len(),
                self.nodes_v() == apply_moves(o, moves@.subrange(0, k as int)),
                swapped@ == swap_moves(moves@.subrange(0, k as int)),
                self.edges == old(self).edges,
                self.edge_route_keys == old(self).edge_route_keys,
                self.next_node_id == old(self).next_node_id,
            decreases moves@.len() - k,
        {
            let m = moves[k];
            self.set_node_pos(m.0, m.1);
            swapped.push((m.0, m.2, m.1));
            k = k + 1;
            proof {
                assert(moves@.subrange(0, k as int).drop_last() =~= moves@.subrange(0, k - 1));
                assert(swapped@ =~= swap_moves(moves@.subrange(0, k as int)));
            }
        }
        assert(moves@.subrange(0, k as int) =~= moves@);
        swapped
    }
}


// ---------------------------------------------------------------------------
// Bringing nodes and edges back
// ---------------------------------------------------------------------------

/// Whether one of the nodes has the id.
pub open spec fn has_view_id(nodes: Seq<NodeView>, id: usize) -> bool {
    exists|i: int| 0 <= i < nodes.len() && nodes[i].id == id
}

/// The nodes with each node of `batch` added at the end, in order, unless a
/// node with its id is there already.
pub open spec fn with_missing(nodes: Seq<NodeView>, batch: Seq<NodeView>) -> Seq<NodeView>
    decreases batch.len(),
{
    if batch.len() == 0 {
        nodes
    } else {
        let prev = with_missing(nodes, batch.drop_last());
        if has_view_id(prev, batch.last().id) {
            prev
        } else {
            prev.push(batch.last())
        }
    }
}

/// The edges with each edge of `batch` added at the end, in order, unless it
/// is there already or one of its ends is not among `nodes`.
pub open spec fn with_edges(
    edges: Seq<(usize, usize)>,
    batch: Seq<(usize, usize)>,
    nodes: Seq<NodeView>,
) -> Seq<(usize, usize)>
    decreases batch.len(),
{
    if batch.len() == 0 {
        edges
    } else {
        let prev = with_edges(edges, batch.drop_last(), nodes);
        let e = batch.last();
        if prev.contains(e) {
            prev
        } else if has_view_id(nodes, e.0) && has_view_id(nodes, e.1) {
            prev.push(e)
        } else {
            prev
        }
    }
}

/// The ids ascend strictly along the nodes.
pub open spec fn sorted_by_id(nodes: Seq<NodeView>) -> bool {
    forall|i: int, j: int| 0 <= i < j < nodes.len() ==> #[trigger] nodes[i].id < #[trigger] nodes[j].id
}

pub proof fn lemma_node_views_push(s: Seq<Node>, n: Node)
    ensures
        node_views(s.push(n)) == node_views(s).push(n@),
{
    assert(node_views(s.push(n)) =~= node_views(s).push(n@));
}

proof fn lemma_has_view_id(nodes: Seq<Node>, id: usize)
    ensures
        has_view_id(node_views(nodes), id) == crate::workspace::has_node_id(nodes, id),
{
    if crate::workspace::has_node_id(nodes, id) {
        let i = choose|i: int| 0 <= i < nodes.len() && nodes[i].id == id;
        assert(node_views(nodes)[i].id == id);
    }
    if has_view_id(node_views(nodes), id) {
        let i = choose|i: int| 0 <= i < node_views(nodes).len() && node_views(nodes)[i].id == id;
        assert(nodes[i].id == id);
    }
}

impl crate::workspace::Graph {
    /// Adds each node of `batch` whose id is not taken, in order, raising the
    /// next id above it where needed.
    pub fn restore_nodes(&mut self, batch: &Vec<Node>)
        requires
            old(self).wf(),
            forall|i: int| 0 <= i < batch@.len() ==> #[trigger] batch@[i].id < old(self).next_node_id,
        ensures
            final(self).wf(),
            final(self).nodes_v() == with_missing(old(self).nodes_v(), node_views(batch@)),
            final(self).edges == old(self).edges,
            final(self).edge_route_keys == old(self).edge_route_keys,
            final(self).next_node_id == old(self).next_node_id,
    {
        let ghost start = self.nodes_v();
        let mut k: usize = 0;
        while k < batch.len()
            invariant
                self.wf(),
                k <= batch@.len(),
                forall|i: int| 0 <= i < batch@.len() ==> #[trigger] batch@[i].id < self.next_node_id,
                self.nodes_v() == with_missing(start, node_views(batch@).subrange(0, k as int)),
                self.edges == old(self).edges,
                self.edge_route_keys == old(self).edge_route_keys,
                self.next_node_id == old(self).next_node_id,
            decreases batch@.len() - k,
        {
            let ghost before = self.nodes@;
            let ghost sub = node_views(batch@).subrange(0, k + 1);
            assert(sub.drop_last() =~= node_views(batch@).subrange(0, k as int));
            assert(sub.last() == batch@[k as int]@);
            proof {
                lemma_has_view_id(before, batch@[k as int].id);
            }
            if !self.has_node(batch[k].id) {
                if batch[k].id >= self.next_node_id {
                    self.next_node_id = batch[k].id + 1;
                }
                let n = batch[k].copy();
                proof {
                    lemma_node_views_push(before, n);
                }
                self.nodes.push(n);
                proof {
                    assert forall|a: int, b: int| 0 <= a < b < self.nodes@.len() implies #[trigger] self.nodes@[a].id != #[trigger] self.nodes@[b].id by {
                        if b == before.len() {
                            assert(self.nodes@[a].id == before[a].id);
                        } else {
                            assert(before[a].id != before[b].id);
                        }
                    }
                    assert forall|a: int| 0 <= a < self.nodes@.len() implies #[trigger] self.nodes@[a].id < self.next_node_id by {
                        if a < before.len() {
                            assert(self.nodes@[a] == before[a]);
                        }
                    }
                }
            }
            k = k + 1;
        }
        assert(node_views(batch@).subrange(0, k as int) =~= node_views(batch@));
    }
}


proof fn lemma_move_one(a: Seq<NodeView>, b: Seq<NodeView>, m: int)
    requires
        0 <= m < b.len(),
    ensures
        (a.push(b[m]) + b.remove(m)).to_multiset() == (a + b).to_multiset(),
{
    broadcast use vstd::seq_lib::group_to_multiset_ensures;

    vstd::seq_lib::lemma_multiset_commutative(a.push(b[m]), b.remove(m));
    vstd::seq_lib::lemma_multiset_commutative(a, b);
    assert(a.push(b[m]).to_multiset() =~= a.to_multiset().insert(b[m]));
    assert(b.remove(m).to_multiset() =~= b.to_multiset().remove(b[m]));
    assert(b.to_multiset().count(b[m]) > 0) by {
        assert(b.contains(b[m]));
    }
    assert(a.to_multiset().insert(b[m]).add(b.to_multiset().remove(b[m])) =~= a.to_multiset().add(
        b.to_multiset(),
    ));
}

proof fn lemma_node_views_remove(s: Seq<Node>, m: int)
    requires
        0 <= m < s.len(),
    ensures
        node_views(s.remove(m)) == node_views(s).remove(m),
{
    assert(node_views(s.remove(m)) =~= node_views(s).remove(m));
}

impl crate::workspace::Graph {
    /// Orders the nodes by ascending id.
    pub fn sort_nodes_by_id(&mut self)
        requires
            old(self).wf(),
        ensures
            final(self).wf(),
            final(self).nodes_v().to_multiset() == old(self).nodes_v().to_multiset(),
            sorted_by_id(final(self).nodes_v()),
            final(self).edges == old(self).edges,
            final(self).edge_route_keys == old(self).edge_route_keys,
            final(self).next_node_id == old(self).next_node_id,
    {
        let ghost orig = self.nodes_v();
        let next = self.next_node_id;
        let mut rest: Vec<Node> = copy_nodes(&self.nodes);
        let mut out: Vec<Node> = Vec::new();
        assert(node_views(out@) + node_views(rest@) =~= orig);
        proof {
            assert forall|b: int| 0 <= b < rest@.len() implies #[trigger] rest@[b].id == self.nodes@[b].id by {
                assert(node_views(rest@)[b] == node_views(self.nodes@)[b]);
            }
        }
        while rest.len() > 0
            invariant
                (node_views(out@) + node_views(rest@)).to_multiset() == orig.to_multiset(),
                sorted_by_id(node_views(out@)),
                forall|a: int, b: int| 0 <= a < out@.len() && 0 <= b < rest@.len() ==> #[trigger] out@[a].id < #[trigger] rest@[b].id,
                crate::workspace::unique_ids(rest@),
                forall|b: int| 0 <= b < rest@.len() ==> #[trigger] rest@[b].id < next,
                forall|a: int| 0 <= a < out@.len() ==> #[trigger] out@[a].id < next,
            decreases rest@.len(),
        {
            let mut m: usize = 0;
            let mut j: usize = 1;
            while j < rest.len()
                invariant
                    0 <= m < rest@.len(),
                    1 <= j <= rest@.len(),
                    m < j,
                    forall|t: int| 0 <= t < j ==> rest@[m as int].id <= #[trigger] rest@[t].id,
                decreases rest@.len() - j,
            {
                if rest[j].id < rest[m].id {
                    m = j;
                }
                j = j + 1;
            }
            let ghost ro = rest@;
            let ghost oo = out@;
            proof {
                lemma_move_one(node_views(oo), node_views(ro), m as int);
                lemma_node_views_push(oo, ro[m as int]);
                lemma_node_views_remove(ro, m as int);
            }
            let n = rest.remove(m);
            out.push(n);
            proof {
                assert(node_views(out@) == node_views(oo).push(node_views(ro)[m as int]));
                assert(node_views(rest@) == node_views(ro).remove(m as int));
                assert forall|a: int, b: int| 0 <= a < b < node_views(out@).len() implies #[trigger] node_views(out@)[a].id < #[trigger] node_views(out@)[b].id by {
                    if b == oo.len() {
                        assert(oo[a].id < ro[m as int].id);
                    } else {
                        assert(node_views(oo)[a].id < node_views(oo)[b].id);
                    }
                }
                assert forall|a: int, b: int| 0 <= a < out@.len() && 0 <= b < rest@.len() implies #[trigger] out@[a].id < #[trigger] rest@[b].id by {
                    let bb = if b < m { b } else { b + 1 };
                    assert(rest@[b] == ro[bb]);
                    if a == oo.len() {
                        assert(ro[m as int].id <= ro[bb].id);
                        assert(ro[m as int].id != ro[bb].id);
                    } else {
                        assert(oo[a].id < ro[bb].id);
                    }
                }
                assert forall|a: int, b: int| 0 <= a < b < rest@.len() implies #[trigger] rest@[a].id != #[trigger] rest@[b].id by {
                    let aa = if a < m { a } else { a + 1 };
                    let bb = if b < m { b } else { b + 1 };
                    assert(rest@[a] == ro[aa]);
                    assert(rest@[b] == ro[bb]);
                }
                assert forall|b: int| 0 <= b < rest@.len() implies #[trigger] rest@[b].id < next by {
                    let bb = if b < m { b } else { b + 1 };
                    assert(rest@[b] == ro[bb]);
                }
                assert forall|a: int| 0 <= a < out@.len() implies #[trigger] out@[a].id < next by {
                    if a < oo.len() {
                        assert(out@[a] == oo[a]);
                    }
                }
            }
        }
        assert(node_views(out@) + node_views(rest@) =~= node_views(out@));
        self.nodes = out;
        proof {
            assert forall|a: int, b: int| 0 <= a < b < self.nodes@.len() implies #[trigger] self.nodes@[a].id != #[trigger] self.nodes@[b].id by {
                assert(node_views(self.nodes@)[a].id < node_views(self.nodes@)[b].id);
            }
        }
    }
}


/// The edges without `e`.
pub open spec fn edge_is_not(e: (usize, usize)) -> spec_fn((usize, usize)) -> bool {
    |x: (usize, usize)| x != e
}

/// The edges without any of the edges of `batch`.
pub open spec fn without_edges(edges: Seq<(usize, usize)>, batch: Seq<(usize, usize)>) -> Seq<(usize, usize)>
    decreases batch.len(),
{
    if batch.len() == 0 {
        edges
    } else {
        without_edges(edges, batch.drop_last()).filter(edge_is_not(batch.last()))
    }
}

impl crate::workspace::Graph {
    /// Adds each edge of `batch` that is not there yet and whose ends both
    /// exist, in order.
    pub fn restore_edges(&mut self, batch: &Vec<(usize, usize)>)
        requires
            old(self).wf(),
        ensures
            final(self).wf(),
            final(self).edges@ == with_edges(old(self).edges@, batch@, old(self).nodes_v()),
            final(self).nodes == old(self).nodes,
            final(self).edge_route_keys == old(self).edge_route_keys,
            final(self).next_node_id == old(self).next_node_id,
    {
        let mut k: usize = 0;
        while k < batch.len()
            invariant
                self.wf(),
                k <= batch@.len(),
                self.edges@ == with_edges(old(self).edges@, batch@.subrange(0, k as int), old(self).nodes_v()),
                self.nodes == old(self).nodes,
                self.edge_route_keys == old(self).edge_route_keys,
                self.next_node_id == old(self).next_node_id,
            decreases batch@.len() - k,
        {
            let e = batch[k];
            proof {
                assert(batch@.subrange(0, k + 1).drop_last() =~= batch@.subrange(0, k as int));
                lemma_has_view_id(self.nodes@, e.0);
                lemma_has_view_id(self.nodes@, e.1);
            }
            if !self.has_edge(e.0, e.1) {
                if self.has_node(e.0) && self.has_node(e.1) {
                    self.edges.push(e);
                }
            }
            k = k + 1;
        }
        assert(batch@.subrange(0, k as int) =~= batch@);
    }

    /// Removes every edge of `batch`; the route keys are left to be pruned.
    pub fn remove_edges_listed(&mut self, batch: &Vec<(usize, usize)>)
        requires
            old(self).wf(),
        ensures
            final(self).wf(),
            final(self).edges@ == without_edges(old(self).edges@, batch@),
            final(self).nodes == old(self).nodes,
            final(self).edge_route_keys == old(self).edge_route_keys,
            final(self).next_node_id == old(self).next_node_id,
    {
        let mut k: usize = 0;
        while k < batch.len()
            invariant
                self.wf(),
                k <= batch@.len(),
                self.edges@ == without_edges(old(self).edges@, batch@.subrange(0, k as int)),
                self.nodes == old(self).nodes,
                self.edge_route_keys == old(self).edge_route_keys,
                self.next_node_id == old(self).next_node_id,
            decreases batch@.len() - k,
        {
            let e = batch[k];
            proof {
                assert(batch@.subrange(0, k + 1).drop_last() =~= batch@.subrange(0, k as int));
            }
            let mut mask: Vec<bool> = Vec::new();
            let mut i: usize = 0;
            while i < self.edges.len()
                invariant
                    i <= self.edges@.len(),
                    mask@.len() == i,
                    forall|j: int| 0 <= j < i ==> #[trigger] mask@[j] == edge_is_not(e)(self.edges@[j]),
                decreases self.edges@.len() - i,
            {
                let x = self.edges[i];
                mask.push(!(x.0 == e.0 && x.1 == e.1));
                i = i + 1;
            }
            retain_mask(&mut self.edges, &mask, Ghost(edge_is_not(e)));
            k = k + 1;
        }
        assert(batch@.subrange(0, k as int) =~= batch@);
    }
}


/// The nodes without those whose id `ids` lists, removed one id at a time.
pub open spec fn without_ids(nodes: Seq<Node>, ids: Seq<usize>) -> Seq<Node>
    decreases ids.len(),
{
    if ids.len() == 0 {
        nodes
    } else {
        without_ids(nodes, ids.drop_last()).filter(id_is_not(ids.last()))
    }
}

/// The edges without those at a node that `ids` lists.
pub open spec fn edges_without_ids(edges: Seq<(usize, usize)>, ids: Seq<usize>) -> Seq<(usize, usize)>
    decreases ids.len(),
{
    if ids.len() == 0 {
        edges
    } else {
        edges_without_ids(edges, ids.drop_last()).filter(not_touching(ids.last()))
    }
}

/// The selected ids without those that `ids` lists.
pub open spec fn sel_without_ids(sel: Seq<usize>, ids: Seq<usize>) -> Seq<usize>
    decreases ids.len(),
{
    if ids.len() == 0 {
        sel
    } else {
        sel_without_ids(sel, ids.drop_last()).filter(other_than(ids.last()))
    }
}

impl Workspace {
    /// Removes, one after the other, the nodes with the ids of `batch`.
    pub fn undo_create_batch(&mut self, batch: &Vec<Node>)
        requires
            old(self).wf(),
        ensures
            final(self).wf(),
            final(self).graph.nodes@ == without_ids(old(self).graph.nodes@, ids_of(batch@)),
            final(self).graph.edges@ == edges_without_ids(old(self).graph.edges@, ids_of(batch@)),
            final(self).graph.next_node_id == old(self).graph.next_node_id,
            final(self).selection.selected_nodes@ == sel_without_ids(
                old(self).selection.selected_nodes@,
                ids_of(batch@),
            ),
            forall|i: int| 0 <= i < batch@.len() ==> !has_node_id(final(self).graph.nodes@, #[trigger] batch@[i].id),
            final(self).history == old(self).history,
            final(self).workspace_dirty == (old(self).workspace_dirty || batch@.len() > 0),
            batch@.len() == 0 ==> *final(self) == *old(self),
            Workspace::same_meta(*old(self), *final(self)),
    {
        let ghost ids = ids_of(batch@);
        let mut k: usize = 0;
        while k < batch.len()
            invariant
                self.wf(),
                k <= batch@.len(),
                ids == ids_of(batch@),
                self.graph.nodes@ == without_ids(old(self).graph.nodes@, ids.subrange(0, k as int)),
                self.graph.edges@ == edges_without_ids(old(self).graph.edges@, ids.subrange(0, k as int)),
                self.graph.next_node_id == old(self).graph.next_node_id,
                self.selection.selected_nodes@ == sel_without_ids(
                    old(self).selection.selected_nodes@,
                    ids.subrange(0, k as int),
                ),
                forall|i: int| 0 <= i < k ==> !has_node_id(self.graph.nodes@, #[trigger] batch@[i].id),
                self.history == old(self).history,
                self.workspace_dirty == (old(self).workspace_dirty || k > 0),
                k == 0 ==> *self == *old(self),
                Workspace::same_meta(*old(self), *self),
            decreases batch@.len() - k,
        {
            let id = batch[k].id;
            let ghost before = self.graph.nodes@;
            proof {
                assert(ids.subrange(0, k + 1).drop_last() =~= ids.subrange(0, k as int));
                assert(ids.subrange(0, k + 1).last() == id);
                lemma_filter_contains(before, id_is_not(id));
            }
            self.remove_node(id);
            proof {
                assert forall|i: int| 0 <= i < k + 1 implies !has_node_id(self.graph.nodes@, #[trigger] batch@[i].id) by {
                    if i < k {
                        if has_node_id(self.graph.nodes@, batch@[i].id) {
                            let j = choose|j: int| 0 <= j < self.graph.nodes@.len() && self.graph.nodes@[j].id == batch@[i].id;
                            assert(self.graph.nodes@.contains(self.graph.nodes@[j]));
                            assert(before.contains(self.graph.nodes@[j]));
                            let t = choose|t: int| 0 <= t < before.len() && before[t] == self.graph.nodes@[j];
                            assert(has_node_id(before, batch@[i].id));
                        }
                    }
                }
            }
            k = k + 1;
        }
        assert(ids.subrange(0, k as int) =~= ids);
    }

    /// Deletes again what a delete batch removed: its edges, then its nodes.
    pub fn redo_delete_batch(&mut self, nodes: &Vec<Node>, edges: &Vec<(usize, usize)>)
        requires
            old(self).wf(),
        ensures
            final(self).wf(),
            final(self).graph.nodes@ == without_ids(old(self).graph.nodes@, ids_of(nodes@)),
            final(self).graph.edges@ == edges_without_ids(
                without_edges(old(self).graph.edges@, edges@),
                ids_of(nodes@),
            ),
            final(self).graph.next_node_id == old(self).graph.next_node_id,
            forall|i: int| 0 <= i < nodes@.len() ==> !has_node_id(final(self).graph.nodes@, #[trigger] nodes@[i].id),
            forall|i: int| 0 <= i < edges@.len() ==> !final(self).graph.edges@.contains(#[trigger] edges@[i]),
            final(self).workspace_dirty == (old(self).workspace_dirty || nodes@.len() > 0),
            final(self).history == old(self).history,
            Workspace::same_meta(*old(self), *final(self)),
    {
        self.graph.remove_edges_listed(edges);
        self.prune_edge_state();
        let ghost mid = self.graph.edges@;
        self.undo_create_batch(nodes);
        proof {
            lemma_without_edges_absent(old(self).graph.edges@, edges@);
            lemma_edges_without_ids_sub(mid, ids_of(nodes@));
        }
    }
}

proof fn lemma_without_edges_absent(edges: Seq<(usize, usize)>, batch: Seq<(usize, usize)>)
    ensures
        forall|i: int| 0 <= i < batch.len() ==> !without_edges(edges, batch).contains(#[trigger] batch[i]),
        forall|x: (usize, usize)| #[trigger] without_edges(edges, batch).contains(x) ==> edges.contains(x),
    decreases batch.len(),
{
    if batch.len() > 0 {
        let prev = without_edges(edges, batch.drop_last());
        lemma_without_edges_absent(edges, batch.drop_last());
        lemma_filter_contains(prev, edge_is_not(batch.last()));
        assert forall|i: int| 0 <= i < batch.len() implies !without_edges(edges, batch).contains(#[trigger] batch[i]) by {
            if i < batch.len() - 1 {
                assert(batch.drop_last()[i] == batch[i]);
            }
        }
    }
}

proof fn lemma_edges_without_ids_sub(edges: Seq<(usize, usize)>, ids: Seq<usize>)
    ensures
        forall|x: (usize, usize)| #[trigger] edges_without_ids(edges, ids).contains(x) ==> edges.contains(x),
    decreases ids.len(),
{
    if ids.len() > 0 {
        lemma_edges_without_ids_sub(edges, ids.drop_last());
        lemma_filter_contains(edges_without_ids(edges, ids.drop_last()), not_touching(ids.last()));
    }
}


/// The entry that undoes (or redoes) what applying `e` to `nodes` did.
pub open spec fn inverse_of(nodes: Seq<NodeView>, e: EntryView) -> EntryView {
    match e {
        EntryView::MoveNode { node_id, from, to } => EntryView::MoveNode { node_id, from: to, to: from },
        EntryView::MoveNodes { nodes: m } => EntryView::MoveNodes { nodes: swap_moves(m) },
        EntryView::ReorderNodes { .. } => EntryView::ReorderNodes { before: ids_v(nodes) },
        _ => e,
    }
}

/// What applying the entry `e` does to the nodes and edges: a creation or a
/// deletion brings its nodes back (a deletion also its edges, after ordering
/// the nodes by id), a move puts nodes at their first position, a reorder
/// restores the recorded order.
pub open spec fn applied_entry(
    on: Seq<NodeView>,
    oe: Seq<(usize, usize)>,
    nn: Seq<NodeView>,
    ne: Seq<(usize, usize)>,
    e: EntryView,
) -> bool {
    match e {
        EntryView::CreateBatch { nodes } => nn == with_missing(on, nodes) && ne == oe,
        EntryView::DeleteBatch { nodes, edges } => {
            &&& nn.to_multiset() == with_missing(on, nodes).to_multiset()
            &&& sorted_by_id(nn)
            &&& ne == with_edges(oe, edges, nn)
        },
        EntryView::MoveNode { node_id, from, .. } => nn == set_pos(on, node_id, from) && ne == oe,
        EntryView::MoveNodes { nodes } => nn == apply_moves(on, nodes) && ne == oe,
        EntryView::ReorderNodes { before } => nn == ordered_by(on, before) && ne == oe,
    }
}

proof fn lemma_inverse_valid(g: crate::workspace::Graph, e: EntryView)
    requires
        g.wf(),
        entry_ids_below(e, g.next_node_id as int),
    ensures
        entry_ids_below(inverse_of(g.nodes_v(), e), g.next_node_id as int),
{
    if e is ReorderNodes {
        assert forall|i: int, j: int| 0 <= i < j < ids_v(g.nodes_v()).len() implies #[trigger] ids_v(g.nodes_v())[i] != #[trigger] ids_v(g.nodes_v())[j] by {
            assert(g.nodes@[i].id != g.nodes@[j].id);
        }
    }
}

impl crate::workspace::Graph {
    /// The ids of the nodes, in drawing order.
    pub fn node_ids(&self) -> (r: Vec<usize>)
        ensures
            r@ == ids_v(self.nodes_v()),
    {
        let mut out: Vec<usize> = Vec::new();
        let mut i: usize = 0;
        while i < self.nodes.len()
            invariant
                i <= self.nodes@.len(),
                out@ == ids_v(self.nodes_v()).subrange(0, i as int),
            decreases self.nodes@.len() - i,
        {
            out.push(self.nodes[i].id);
            i = i + 1;
            assert(out@ =~= ids_v(self.nodes_v()).subrange(0, i as int));
        }
        assert(ids_v(self.nodes_v()).subrange(0, i as int) =~= ids_v(self.nodes_v()));
        out
    }
}

impl Workspace {
    /// Applies a history entry to the nodes and edges and returns the entry
    /// that takes the change back.
    pub fn apply_history_entry(&mut self, entry: HistoryEntry) -> (r: HistoryEntry)
        requires
            old(self).wf(),
            entry_ids_below(entry@, old(self).graph.next_node_id as int),
        ensures
            final(self).wf(),
            applied_entry(
                old(self).graph.nodes_v(),
                old(self).graph.edges@,
                final(self).graph.nodes_v(),
                final(self).graph.edges@,
                entry@,
            ),
            r@ == inverse_of(old(self).graph.nodes_v(), entry@),
            entry_ids_below(r@, final(self).graph.next_node_id as int),
            final(self).graph.edge_route_keys == old(self).graph.edge_route_keys,
            final(self).graph.next_node_id == old(self).graph.next_node_id,
            final(self).selection == old(self).selection,
            final(self).history == old(self).history,
            final(self).edit == old(self).edit,
            final(self).terminals == old(self).terminals,
            final(self).ui == old(self).ui,
            final(self).workspace_dirty == old(self).workspace_dirty,
            final(self).automation_state_version == old(self).automation_state_version,
            Workspace::same_meta(*old(self), *final(self)),
    {
        proof {
            lemma_inverse_valid(self.graph, entry@);
        }
        match entry {
            HistoryEntry::CreateBatch { nodes } => {
                assert forall|i: int| 0 <= i < nodes@.len() implies #[trigger] nodes@[i].id < self.graph.next_node_id by {
                    assert(node_views(nodes@)[i].id == nodes@[i].id);
                }
                self.graph.restore_nodes(&nodes);
                HistoryEntry::CreateBatch { nodes }
            },
            HistoryEntry::DeleteBatch { nodes, edges } => {
                assert forall|i: int| 0 <= i < nodes@.len() implies #[trigger] nodes@[i].id < self.graph.next_node_id by {
                    assert(node_views(nodes@)[i].id == nodes@[i].id);
                }
                self.graph.restore_nodes(&nodes);
                self.graph.sort_nodes_by_id();
                self.graph.restore_edges(&edges);
                HistoryEntry::DeleteBatch { nodes, edges }
            },
            HistoryEntry::MoveNode { node_id, from, to } => {
                self.graph.set_node_pos(node_id, from);
                HistoryEntry::MoveNode { node_id, from: to, to: from }
            },
            HistoryEntry::MoveNodes { nodes } => {
                let swapped = self.graph.apply_move_list(&nodes);
                HistoryEntry::MoveNodes { nodes: swapped }
            },
            HistoryEntry::ReorderNodes { before } => {
                let current = self.graph.node_ids();
                self.graph.apply_node_order(&before);
                HistoryEntry::ReorderNodes { before: current }
            },
        }
    }
}


/// What undoing the entry `e` did to the workspace `o`, giving `n`: a
/// creation is taken back by removing its nodes one after the other; any
/// other entry is applied. The entry that redoes it goes on the redo stack.
pub open spec fn undone(o: Workspace, n: Workspace, e: EntryView) -> bool {
    match e {
        EntryView::CreateBatch { nodes } => {
            &&& n.graph.nodes@ == without_ids(o.graph.nodes@, ids_v(nodes))
            &&& n.graph.edges@ == edges_without_ids(o.graph.edges@, ids_v(nodes))
            &&& n.selection.selected_nodes@ == sel_without_ids(o.selection.selected_nodes@, ids_v(nodes))
            &&& n.history.redo_v() == o.history.redo_v().push(e)
        },
        _ => {
            &&& applied_entry(o.graph.nodes_v(), o.graph.edges@, n.graph.nodes_v(), n.graph.edges@, e)
            &&& n.history.redo_v() == o.history.redo_v().push(inverse_of(o.graph.nodes_v(), e))
            &&& n.selection == o.selection
            &&& n.graph.edge_route_keys == o.graph.edge_route_keys
        },
    }
}

/// What redoing the entry `e` did to the workspace `o`, giving `n`: a
/// creation brings its nodes back, a deletion removes its edges and then its
/// nodes again, any other entry is applied. The entry that undoes it goes on
/// the undo stack.
pub open spec fn redone(o: Workspace, n: Workspace, e: EntryView) -> bool {
    match e {
        EntryView::CreateBatch { nodes } => {
            &&& n.graph.nodes_v() == with_missing(o.graph.nodes_v(), nodes)
            &&& n.graph.edges == o.graph.edges
            &&& n.selection == o.selection
            &&& n.history.undo_v() == o.history.undo_v().push(e)
        },
        EntryView::DeleteBatch { nodes, edges } => {
            &&& n.graph.nodes@ == without_ids(o.graph.nodes@, ids_v(nodes))
            &&& n.graph.edges@ == edges_without_ids(without_edges(o.graph.edges@, edges), ids_v(nodes))
            &&& n.history.undo_v() == o.history.undo_v().push(e)
        },
        _ => {
            &&& applied_entry(o.graph.nodes_v(), o.graph.edges@, n.graph.nodes_v(), n.graph.edges@, e)
            &&& n.history.undo_v() == o.history.undo_v().push(inverse_of(o.graph.nodes_v(), e))
            &&& n.selection == o.selection
            &&& n.graph.edge_route_keys == o.graph.edge_route_keys
        },
    }
}

proof fn lemma_entry_views_pop(s: Seq<HistoryEntry>)
    requires
        s.len() > 0,
    ensures
        entry_views(s.drop_last()) == entry_views(s).drop_last(),
        entry_views(s).last() == s.last()@,
{
    assert(entry_views(s.drop_last()) =~= entry_views(s).drop_last());
}

proof fn lemma_ids_of_views(nodes: Seq<Node>)
    ensures
        ids_of(nodes) == ids_v(node_views(nodes)),
{
    assert(ids_of(nodes) =~= ids_v(node_views(nodes)));
}

impl Workspace {
    /// Takes back the last recorded step, if there is one, and keeps what
    /// redoes it on the redo stack.
    pub fn undo_last_change(&mut self)
        requires
            old(self).wf(),
        ensures
            final(self).wf(),
            old(self).history.undo_stack@.len() == 0 ==> *final(self) == *old(self),
            old(self).history.undo_stack@.len() > 0 ==> {
                &&& final(self).history.undo_v() == old(self).history.undo_v().drop_last()
                &&& undone(*old(self), *final(self), old(self).history.undo_v().last())
                &&& final(self).workspace_dirty
                &&& final(self).graph.next_node_id == old(self).graph.next_node_id
                &&& Workspace::same_meta(*old(self), *final(self))
            },
    {
        let ghost o = *self;
        if self.history.undo_stack.len() == 0 {
            return;
        }
        proof {
            lemma_entry_views_pop(self.history.undo_stack@);
        }
        let entry = match self.history.undo_stack.pop() {
            Some(e) => e,
            None => {
                return;
            },
        };
        let ghost e = entry@;
        assert(entry_ids_below(e, self.graph.next_node_id as int)) by {
            assert(o.history.undo_v()[o.history.undo_v().len() - 1] == e);
        }
        assert(self.history.ids_below(self.graph.next_node_id as int)) by {
            assert(o.history.ids_below(o.graph.next_node_id as int));
            assert(self.history.undo_v() == o.history.undo_v().drop_last());
            assert forall|i: int| 0 <= i < self.history.undo_v().len() implies entry_ids_below(#[trigger] self.history.undo_v()[i], self.graph.next_node_id as int) by {
                assert(self.history.undo_v()[i] == o.history.undo_v()[i]);
            }
            assert(self.history.redo_v() == o.history.redo_v());
        }
        self.mark_workspace_dirty();
        let ghost mid = *self;
        let redo_entry = match entry {
            HistoryEntry::CreateBatch { nodes } => {
                proof {
                    lemma_ids_of_views(nodes@);
                }
                self.undo_create_batch(&nodes);
                HistoryEntry::CreateBatch { nodes }
            },
            other => self.apply_history_entry(other),
        };
        assert(entry_ids_below(redo_entry@, self.graph.next_node_id as int));
        proof {
            lemma_entry_views_push(self.history.redo_stack@, redo_entry);
        }
        self.history.redo_stack.push(redo_entry);
        assert(self.history.ids_below(self.graph.next_node_id as int)) by {
            assert forall|i: int| 0 <= i < self.history.redo_v().len() implies entry_ids_below(#[trigger] self.history.redo_v()[i], self.graph.next_node_id as int) by {
                if i < mid.history.redo_v().len() {
                    assert(self.history.redo_v()[i] == mid.history.redo_v()[i]);
                }
            }
        }
    }

    /// Makes again the last step that was taken back, if there is one, and
    /// keeps what undoes it on the undo stack.
    pub fn redo_last_change(&mut self)
        requires
            old(self).wf(),
        ensures
            final(self).wf(),
            old(self).history.redo_stack@.len() == 0 ==> *final(self) == *old(self),
            old(self).history.redo_stack@.len() > 0 ==> {
                &&& final(self).history.redo_v() == old(self).history.redo_v().drop_last()
                &&& redone(*old(self), *final(self), old(self).history.redo_v().last())
                &&& final(self).workspace_dirty
                &&& final(self).graph.next_node_id == old(self).graph.next_node_id
                &&& Workspace::same_meta(*old(self), *final(self))
            },
    {
        let ghost o = *self;
        if self.history.redo_stack.len() == 0 {
            return;
        }
        proof {
            lemma_entry_views_pop(self.history.redo_stack@);
        }
        let entry = match self.history.redo_stack.pop() {
            Some(e) => e,
            None => {
                return;
            },
        };
        let ghost e = entry@;
        assert(entry_ids_below(e, self.graph.next_node_id as int)) by {
            assert(o.history.redo_v()[o.history.redo_v().len() - 1] == e);
        }
        assert(self.history.ids_below(self.graph.next_node_id as int)) by {
            assert(o.history.ids_below(o.graph.next_node_id as int));
            assert(self.history.redo_v() == o.history.redo_v().drop_last());
            assert forall|i: int| 0 <= i < self.history.redo_v().len() implies entry_ids_below(#[trigger] self.history.redo_v()[i], self.graph.next_node_id as int) by {
                assert(self.history.redo_v()[i] == o.history.redo_v()[i]);
            }
            assert(self.history.undo_v() == o.history.undo_v());
        }
        self.mark_workspace_dirty();
        let ghost mid = *self;
        let undo_entry = match entry {
            HistoryEntry::CreateBatch { nodes } => {
                assert forall|i: int| 0 <= i < nodes@.len() implies #[trigger] nodes@[i].id < self.graph.next_node_id by {
                    assert(node_views(nodes@)[i].id == nodes@[i].id);
                }
                self.graph.restore_nodes(&nodes);
                HistoryEntry::CreateBatch { nodes }
            },
            HistoryEntry::DeleteBatch { nodes, edges } => {
                proof {
                    lemma_ids_of_views(nodes@);
                }
                self.redo_delete_batch(&nodes, &edges);
                HistoryEntry::DeleteBatch { nodes, edges }
            },
            other => self.apply_history_entry(other),
        };
        assert(entry_ids_below(undo_entry@, self.graph.next_node_id as int));
        proof {
            lemma_entry_views_push(self.history.undo_stack@, undo_entry);
        }
        self.history.undo_stack.push(undo_entry);
        assert(self.history.ids_below(self.graph.next_node_id as int)) by {
            assert forall|i: int| 0 <= i < self.history.undo_v().len() implies entry_ids_below(#[trigger] self.history.undo_v()[i], self.graph.next_node_id as int) by {
                if i < mid.history.undo_v().len() {
                    assert(self.history.undo_v()[i] == mid.history.undo_v()[i]);
                }
            }
        }
    }
}


/// The node's id is not among `nodes`.
pub open spec fn gone_from(nodes: Seq<Node>) -> spec_fn(Node) -> bool {
    |n: Node| !has_node_id(nodes, n.id)
}

/// The edge is not among `edges`.
pub open spec fn edge_gone_from(edges: Seq<(usize, usize)>) -> spec_fn((usize, usize)) -> bool {
    |e: (usize, usize)| !edges.contains(e)
}

impl Workspace {
    /// Records a cut: the nodes and edges of the snapshot taken before it
    /// that are gone now become one delete entry; nothing is recorded when
    /// nothing is gone. The snapshot comes from this workspace, so its ids
    /// are below the next id.
    pub fn record_cut_history(&mut self, before_nodes: Vec<Node>, before_edges: Vec<(usize, usize)>)
        requires
            old(self).wf(),
            forall|i: int| 0 <= i < before_nodes@.len() ==> #[trigger] before_nodes@[i].id < old(self).graph.next_node_id,
        ensures
            final(self).wf(),
            ({
                let removed = before_nodes@.filter(gone_from(old(self).graph.nodes@));
                let removed_edges = before_edges@.filter(edge_gone_from(old(self).graph.edges@));
                if removed.len() == 0 && removed_edges.len() == 0 {
                    *final(self) == *old(self)
                } else {
                    &&& final(self).history.undo_v() == old(self).history.undo_v().push(
                        EntryView::DeleteBatch { nodes: node_views(removed), edges: removed_edges },
                    )
                    &&& final(self).history.redo_v().len() == 0
                    &&& final(self).workspace_dirty
                    &&& final(self).graph == old(self).graph
                    &&& final(self).selection == old(self).selection
                    &&& Workspace::same_meta(*old(self), *final(self))
                }
            }),
    {
        let ghost gn = gone_from(self.graph.nodes@);
        let ghost ge = edge_gone_from(self.graph.edges@);
        let mut removed = before_nodes;
        let mut mask: Vec<bool> = Vec::new();
        let mut i: usize = 0;
        while i < removed.len()
            invariant
                self.wf(),
                gn == gone_from(self.graph.nodes@),
                i <= removed@.len(),
                mask@.len() == i,
                forall|j: int| 0 <= j < i ==> #[trigger] mask@[j] == gn(removed@[j]),
            decreases removed@.len() - i,
        {
            mask.push(!self.graph.has_node(removed[i].id));
            i = i + 1;
        }
        let ghost all_nodes = removed@;
        retain_mask(&mut removed, &mask, Ghost(gn));
        let mut removed_edges = before_edges;
        let mut emask: Vec<bool> = Vec::new();
        let mut j: usize = 0;
        while j < removed_edges.len()
            invariant
                ge == edge_gone_from(self.graph.edges@),
                j <= removed_edges@.len(),
                emask@.len() == j,
                forall|t: int| 0 <= t < j ==> #[trigger] emask@[t] == ge(removed_edges@[t]),
            decreases removed_edges@.len() - j,
        {
            let e = removed_edges[j];
            emask.push(!self.graph.has_edge(e.0, e.1));
            j = j + 1;
        }
        retain_mask(&mut removed_edges, &emask, Ghost(ge));
        if removed.len() == 0 && removed_edges.len() == 0 {
            return;
        }
        proof {
            lemma_filter_contains(all_nodes, gn);
            assert forall|t: int| 0 <= t < node_views(removed@).len() implies #[trigger] node_views(removed@)[t].id < self.graph.next_node_id by {
                assert(removed@.contains(removed@[t]));
                let q = choose|q: int| 0 <= q < all_nodes.len() && all_nodes[q] == removed@[t];
            }
        }
        self.push_history(HistoryEntry::DeleteBatch { nodes: removed, edges: removed_edges });
    }
}

} // verus!
