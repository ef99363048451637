//! Group nodes: boxes that hold other nodes.
use crate::model::{node_views, DataView, Node, NodeData, NodeKind, NodeView};
use crate::selection::contains_id;
use crate::text::{
    decimal, owned, parse_unsigned, parse_usize_str, push_decimal, strip_prefix, strip_prefix_str, trim,
    trim_str,
};
use crate::history::{lemma_ids_below_mono, EntryView, HistoryEntry};
use crate::ids::new_uid;
use crate::model::Coord;
use crate::workspace::{has_node_id, ids_of, other_than, Graph, Workspace};
use vstd::prelude::*;

verus! {

/// The ids of the nodes that are not groups.
pub open spec fn non_group_ids(nodes: Seq<NodeView>) -> Seq<usize> {
    nodes.filter(|n: NodeView| n.kind != NodeKind::Group).map_values(|n: NodeView| n.id)
}

/// Whether `id` is the id of a node that is not a group.
pub open spec fn is_non_group(nodes: Seq<NodeView>, id: usize) -> bool {
    exists|i: int| 0 <= i < nodes.len() && nodes[i].id == id && nodes[i].kind != NodeKind::Group
}

/// The child is a node that is not a group.
pub open spec fn kept_child(nodes: Seq<NodeView>) -> spec_fn(usize) -> bool {
    |c: usize| is_non_group(nodes, c)
}

/// The children of a group's content; none for other content.
pub open spec fn group_children(d: DataView) -> Option<Seq<usize>> {
    match d {
        DataView::Group { child_node_ids, .. } => Some(child_node_ids),
        _ => None,
    }
}

/// A group's title, trimmed, or `Group` where nothing is left.
pub open spec fn group_title(t: Seq<char>) -> Seq<char> {
    if trim(t).len() == 0 {
        "Group"@
    } else {
        trim(t)
    }
}

/// A node after its group content is cleaned up against `nodes`: the title
/// trimmed (or `Group`), the children kept only where they are nodes that
/// are not groups. Other nodes stay as they are.
pub open spec fn sanitized_node(n: NodeView, nodes: Seq<NodeView>) -> NodeView {
    if n.kind == NodeKind::Group {
        match n.data {
            DataView::Group { title, child_node_ids } => NodeView {
                data: DataView::Group {
                    title: group_title(title),
                    child_node_ids: child_node_ids.filter(kept_child(nodes)),
                },
                ..n
            },
            _ => n,
        }
    } else {
        n
    }
}

pub open spec fn sanitized(nodes: Seq<NodeView>) -> Seq<NodeView> {
    Seq::new(nodes.len(), |i: int| sanitized_node(nodes[i], nodes))
}

fn is_non_group_id(nodes: &Vec<Node>, id: usize) -> (r: bool)
    ensures
        r == is_non_group(node_views(nodes@), id),
{
    let mut i: usize = 0;
    while i < nodes.len()
        invariant
            i <= nodes@.len(),
            forall|j: int| 0 <= j < i ==> !(#[trigger] nodes@[j].id == id && nodes@[j].kind != NodeKind::Group),
        decreases nodes@.len() - i,
    {
        if nodes[i].id == id && nodes[i].kind != NodeKind::Group {
            assert(node_views(nodes@)[i as int].id == id);
            return true;
        }
        i = i + 1;
    }
    proof {
        if is_non_group(node_views(nodes@), id) {
            let j = choose|j: int| 0 <= j < node_views(nodes@).len() && node_views(nodes@)[j].id == id && node_views(nodes@)[j].kind != NodeKind::Group;
            assert(nodes@[j].id == id);
        }
    }
    false
}

fn kept_children(children: &Vec<usize>, nodes: &Vec<Node>) -> (r: Vec<usize>)
    ensures
        r@ == children@.filter(kept_child(node_views(nodes@))),
{
    let ghost p = kept_child(node_views(nodes@));
    let mut out: Vec<usize> = Vec::new();
    let mut i: usize = 0;
    while i < children.len()
        invariant
            i <= children@.len(),
            p == kept_child(node_views(nodes@)),
            out@ == children@.subrange(0, i as int).filter(p),
        decreases children@.len() - i,
    {
        proof {
            assert(children@.subrange(0, i + 1).drop_last() =~= children@.subrange(0, i as int));
            reveal_with_fuel(Seq::<_>::filter, 1);
        }
        if is_non_group_id(nodes, children[i]) {
            out.push(children[i]);
        }
        i = i + 1;
    }
    assert(children@.subrange(0, i as int) =~= children@);
    out
}

impl Graph {
    /// Cleans up every group: its title is trimmed (`Group` where nothing is
    /// left) and it keeps only children that are nodes and not groups.
    pub fn sanitize_groups(&mut self)
        requires
            old(self).wf(),
        ensures
            final(self).wf(),
            final(self).nodes_v() == sanitized(old(self).nodes_v()),
            final(self).edges == old(self).edges,
            final(self).edge_route_keys == old(self).edge_route_keys,
            final(self).next_node_id == old(self).next_node_id,
    {
        let ghost o = self.nodes_v();
        let snapshot = crate::model::copy_nodes(&self.nodes);
        let mut i: usize = 0;
        while i < self.nodes.len()
            invariant
                i <= self.nodes@.len(),
                self.nodes@.len() == o.len(),
                node_views(snapshot@) == o,
                forall|j: int| 0 <= j < i ==> #[trigger] self.nodes_v()[j] == sanitized_node(o[j], o),
                forall|j: int| i <= j < self.nodes@.len() ==> #[trigger] self.nodes_v()[j] == o[j],
                forall|j: int| 0 <= j < self.nodes@.len() ==> #[trigger] self.nodes@[j].id == o[j].id,
                self.edges == old(self).edges,
                self.edge_route_keys == old(self).edge_route_keys,
                self.next_node_id == old(self).next_node_id,
            decreases self.nodes@.len() - i,
        {
            assert(self.nodes_v()[i as int] == o[i as int]);
            let ghost before = self.nodes@;
            if self.nodes[i].kind == NodeKind::Group {
                let fresh = match &self.nodes[i].data {
                    NodeData::Group { title, child_node_ids } => {
                        let t = trim_str(title.as_str());
                        let t2 = if t.as_str().is_empty() {
                            proof {
                                reveal_strlit("Group");
                            }
                            owned("Group")
                        } else {
                            t
                        };
                        Some(NodeData::Group { title: t2, child_node_ids: kept_children(child_node_ids, &snapshot) })
                    },
                    _ => None,
                };
                if let Some(d) = fresh {
                    self.nodes[i].data = d;
                }
            }
            assert(self.nodes_v()[i as int] == sanitized_node(o[i as int], o));
            assert forall|j: int| 0 <= j < self.nodes@.len() && j != i implies self.nodes@[j] == before[j] by {}
            assert forall|j: int| 0 <= j < self.nodes@.len() && j != i implies #[trigger] self.nodes_v()[j] == node_views(before)[j] by {
                assert(self.nodes@[j] == before[j]);
            }
            i = i + 1;
        }
        assert(self.nodes_v() =~= sanitized(o));
        proof {
            assert forall|a: int, b: int| 0 <= a < b < self.nodes@.len() implies #[trigger] self.nodes@[a].id != #[trigger] self.nodes@[b].id by {
                assert(old(self).nodes@[a].id != old(self).nodes@[b].id);
                assert(o[a].id == old(self).nodes@[a].id);
                assert(o[b].id == old(self).nodes@[b].id);
            }
            assert forall|a: int| 0 <= a < self.nodes@.len() implies #[trigger] self.nodes@[a].id < self.next_node_id by {
                assert(o[a].id == old(self).nodes@[a].id);
            }
        }
    }

    /// The children of a group node; none when the node is missing or not a
    /// group.
    pub fn group_child_ids(&self, group_id: usize) -> (r: Option<Vec<usize>>)
        requires
            self.wf(),
        ensures
            match r {
                Some(c) => exists|i: int| 0 <= i < self.nodes@.len() && self.nodes@[i].id == group_id
                    && group_children(#[trigger] self.nodes_v()[i].data) == Some(c@),
                None => forall|i: int| 0 <= i < self.nodes@.len() && #[trigger] self.nodes@[i].id == group_id
                    ==> group_children(self.nodes_v()[i].data) is None,
            },
    {
        match self.find_node_index(group_id) {
            Some(i) => match &self.nodes[i].data {
                NodeData::Group { child_node_ids, .. } => {
                    let c = crate::model::copy_ids(child_node_ids);
                    assert(group_children(self.nodes_v()[i as int].data) == Some(c@));
                    Some(c)
                },
                _ => {
                    proof {
                        assert forall|j: int| 0 <= j < self.nodes@.len() && #[trigger] self.nodes@[j].id == group_id implies group_children(self.nodes_v()[j].data) is None by {
                            if j != i {
                                if j < i {
                                    assert(self.nodes@[j].id != self.nodes@[i as int].id);
                                } else {
                                    assert(self.nodes@[i as int].id != self.nodes@[j].id);
                                }
                            }
                        }
                    }
                    None
                },
            },
            None => None,
        }
    }
}


/// The number in a group title of the form `Group <n>`.
pub open spec fn title_index(n: NodeView) -> Option<int> {
    if n.kind == NodeKind::Group {
        match n.data {
            DataView::Group { title, .. } => match strip_prefix(title, "Group "@) {
                Some(suffix) => parse_unsigned(suffix, usize::MAX as int),
                None => None,
            },
            _ => None,
        }
    } else {
        None
    }
}

/// The largest number of a `Group <n>` title, or zero.
pub open spec fn max_title_index(nodes: Seq<NodeView>) -> int
    decreases nodes.len(),
{
    if nodes.len() == 0 {
        0
    } else {
        let prev = max_title_index(nodes.drop_last());
        match title_index(nodes.last()) {
            Some(k) => if k > prev {
                k
            } else {
                prev
            },
            None => prev,
        }
    }
}

/// The title for a new group: `Group ` and one more than the largest number
/// of such a title.
pub open spec fn next_title(nodes: Seq<NodeView>) -> Seq<char> {
    "Group "@ + decimal((max_title_index(nodes) + 1) as nat)
}

impl Graph {
    /// The largest number of a `Group <n>` title, or zero.
    pub fn max_group_title_index(&self) -> (r: usize)
        ensures
            r == max_title_index(self.nodes_v()),
    {
        let ghost v = self.nodes_v();
        let mut max_index: usize = 0;
        let mut i: usize = 0;
        while i < self.nodes.len()
            invariant
                i <= v.len(),
                v == self.nodes_v(),
                max_index == max_title_index(v.subrange(0, i as int)),
            decreases v.len() - i,
        {
            proof {
                assert(v.subrange(0, i + 1).drop_last() =~= v.subrange(0, i as int));
                assert(v.subrange(0, i + 1).last() == v[i as int]);
            }
            if self.nodes[i].kind == NodeKind::Group {
                if let NodeData::Group { title, .. } = &self.nodes[i].data {
                    if let Some(suffix) = strip_prefix_str(title.as_str(), "Group ") {
                        if let Some(parsed) = parse_usize_str(suffix.as_str()) {
                            if parsed > max_index {
                                max_index = parsed;
                            }
                        }
                    }
                }
            }
            i = i + 1;
        }
        assert(v.subrange(0, i as int) =~= v);
        max_index
    }

    /// The title for a new group.
    pub fn next_group_title(&self) -> (r: String)
        requires
            max_title_index(self.nodes_v()) < usize::MAX,
        ensures
            r@ == next_title(self.nodes_v()),
    {
        let max_index = self.max_group_title_index();
        let mut out = owned("Group ");
        push_decimal(&mut out, (max_index + 1) as u64);
        out
    }
}


/// The node is selected and is not a group.
pub open spec fn group_candidate(sel: Seq<usize>) -> spec_fn(Node) -> bool {
    |n: Node| sel.contains(n.id) && n.kind != NodeKind::Group
}

/// The ids that grouping the selection would put into a new group, in order.
pub open spec fn grouped_ids(nodes: Seq<Node>, sel: Seq<usize>) -> Seq<usize> {
    ids_of(nodes.filter(group_candidate(sel)))
}

/// The node is a group whose members are exactly `ids`, order and repeats aside.
pub open spec fn holds_exactly(n: NodeView, ids: Seq<usize>) -> bool {
    match n.data {
        DataView::Group { child_node_ids, .. } => child_node_ids.to_set() == ids.to_set(),
        _ => false,
    }
}

/// Some group already has exactly `ids` as its members.
pub open spec fn duplicates_group(nodes: Seq<NodeView>, ids: Seq<usize>) -> bool {
    exists|k: int| 0 <= k < nodes.len() && #[trigger] holds_exactly(nodes[k], ids)
}

/// Grouping the selection makes a group: at least two selected nodes that
/// are not groups, and no group with exactly those members yet.
pub open spec fn can_group(nodes: Seq<Node>, sel: Seq<usize>) -> bool {
    &&& grouped_ids(nodes, sel).len() >= 2
    &&& !duplicates_group(node_views(nodes), grouped_ids(nodes, sel))
}

/// Whether every id of `a` occurs in `b`.
fn all_ids_in(a: &Vec<usize>, b: &Vec<usize>) -> (r: bool)
    ensures
        r == (forall|x: usize| a@.contains(x) ==> b@.contains(x)),
{
    let mut i: usize = 0;
    while i < a.len()
        invariant
            i <= a@.len(),
            forall|j: int| 0 <= j < i ==> b@.contains(#[trigger] a@[j]),
        decreases a@.len() - i,
    {
        if !contains_id(b, a[i]) {
            assert(a@.contains(a@[i as int]));
            return false;
        }
        i = i + 1;
    }
    proof {
        assert forall|x: usize| a@.contains(x) implies b@.contains(x) by {
            let j = choose|j: int| 0 <= j < a@.len() && a@[j] == x;
            assert(b@.contains(a@[j]));
        }
    }
    true
}

/// Whether the two lists hold the same ids, order and repeats aside.
fn same_id_set(a: &Vec<usize>, b: &Vec<usize>) -> (r: bool)
    ensures
        r == (a@.to_set() == b@.to_set()),
{
    let ab = all_ids_in(a, b);
    let ba = all_ids_in(b, a);
    proof {
        if ab && ba {
            assert(a@.to_set() =~= b@.to_set());
        } else if !ab {
            let x = choose|x: usize| a@.contains(x) && !b@.contains(x);
            assert(a@.to_set().contains(x) && !b@.to_set().contains(x));
        } else {
            let x = choose|x: usize| b@.contains(x) && !a@.contains(x);
            assert(b@.to_set().contains(x) && !a@.to_set().contains(x));
        }
    }
    ab && ba
}

/// Whether some group has exactly `ids` as its members.
fn has_group_holding_exactly(nodes: &Vec<Node>, ids: &Vec<usize>) -> (r: bool)
    ensures
        r == duplicates_group(node_views(nodes@), ids@),
{
    let mut g: usize = 0;
    while g < nodes.len()
        invariant
            g <= nodes@.len(),
            forall|j: int| 0 <= j < g ==> !#[trigger] holds_exactly(node_views(nodes@)[j], ids@),
        decreases nodes@.len() - g,
    {
        if let NodeData::Group { child_node_ids, .. } = &nodes[g].data {
            if same_id_set(child_node_ids, ids) {
                assert(holds_exactly(node_views(nodes@)[g as int], ids@));
                return true;
            }
        }
        assert(!holds_exactly(node_views(nodes@)[g as int], ids@));
        g = g + 1;
    }
    false
}

/// `k` is the position of the first node that a new group would hold.
pub open spec fn first_candidate_at(nodes: Seq<Node>, sel: Seq<usize>, k: int) -> bool {
    &&& 0 <= k < nodes.len()
    &&& group_candidate(sel)(nodes[k])
    &&& forall|j: int| 0 <= j < k ==> !group_candidate(sel)(#[trigger] nodes[j])
}

/// The group node that grouping the selection adds: at `k`, with the next
/// id, the next group title and the selected non-group nodes as children.
pub open spec fn grouped(o: Workspace, n: Workspace, k: int, pos: Coord, size: Coord) -> bool {
    let g = n.graph.nodes_v()[k];
    &&& first_candidate_at(o.graph.nodes@, o.selection.selected_nodes@, k)
    &&& n.graph.nodes@.len() == o.graph.nodes@.len() + 1
    &&& n.graph.nodes_v().remove(k) == o.graph.nodes_v()
    &&& g.id == o.graph.next_node_id
    &&& g.kind == NodeKind::Group
    &&& g.data == DataView::Group {
        title: next_title(o.graph.nodes_v()),
        child_node_ids: ids_of(o.graph.nodes@.filter(group_candidate(o.selection.selected_nodes@))),
    }
    &&& g.pos == pos
    &&& g.size == size
    &&& g.uid.len() == 36
    &&& n.history.undo_v() == o.history.undo_v().push(EntryView::CreateBatch { nodes: seq![g] })
    &&& n.history.redo_v().len() == 0
}

impl Workspace {
    /// Groups the selected nodes that are not groups, when there are at
    /// least two and no group has exactly those members already: a group
    /// node holding them is inserted before the first of them, recorded for
    /// undo and selected. `pos` and `size` are the box around the children.
    pub fn create_group_from_selection(&mut self, pos: Coord, size: Coord) -> (r: Option<usize>)
        requires
            old(self).wf(),
            old(self).graph.next_node_id < usize::MAX,
            max_title_index(old(self).graph.nodes_v()) < usize::MAX,
        ensures
            final(self).wf(),
            !can_group(old(self).graph.nodes@, old(self).selection.selected_nodes@)
                ==> r is None && *final(self) == *old(self),
            can_group(old(self).graph.nodes@, old(self).selection.selected_nodes@)
                ==> {
                &&& r == Some(old(self).graph.next_node_id)
                &&& final(self).graph.next_node_id == old(self).graph.next_node_id + 1
                &&& exists|k: int| grouped(*old(self), *final(self), k, pos, size)
                &&& final(self).graph.edges == old(self).graph.edges
                &&& final(self).selection.selected == Some(old(self).graph.next_node_id)
                &&& final(self).selection.selected_nodes@ == seq![old(self).graph.next_node_id]
                &&& final(self).selection.selected_edge is None
                &&& final(self).workspace_dirty
                &&& Workspace::same_meta(*old(self), *final(self))
            },
    {
        let ghost o = self.graph.nodes@;
        let ghost p = group_candidate(self.selection.selected_nodes@);
        let mut child_ids: Vec<usize> = Vec::new();
        let mut insert_at: usize = self.graph.nodes.len();
        let mut i: usize = 0;
        while i < self.graph.nodes.len()
            invariant
                i <= o.len(),
                o == self.graph.nodes@,
                p == group_candidate(self.selection.selected_nodes@),
                child_ids@ == ids_of(o.subrange(0, i as int).filter(p)),
                child_ids@.len() == 0 ==> insert_at == o.len() && forall|j: int| 0 <= j < i ==> !p(#[trigger] o[j]),
                child_ids@.len() > 0 ==> first_candidate_at(o, self.selection.selected_nodes@, insert_at as int),
            decreases o.len() - i,
        {
            proof {
                assert(o.subrange(0, i + 1).drop_last() =~= o.subrange(0, i as int));
                reveal_with_fuel(Seq::<_>::filter, 1);
            }
            let id = self.graph.nodes[i].id;
            if contains_id(&self.selection.selected_nodes, id) && self.graph.nodes[i].kind != NodeKind::Group {
                if child_ids.len() == 0 {
                    insert_at = i;
                }
                child_ids.push(id);
                proof {
                    let f = o.subrange(0, i as int).filter(p);
                    assert(ids_of(f.push(o[i as int])) =~= ids_of(f).push(id));
                }
            }
            i = i + 1;
        }
        assert(o.subrange(0, i as int) =~= o);
        if child_ids.len() < 2 {
            return None;
        }
        if has_group_holding_exactly(&self.graph.nodes, &child_ids) {
            return None;
        }
        let title = self.graph.next_group_title();
        let group_id = self.graph.alloc_node_id();
        let group = Node {
            id: group_id,
            uid: new_uid(),
            kind: NodeKind::Group,
            data: NodeData::Group { title, child_node_ids: child_ids },
            pos,
            size,
        };
        let ghost gv = group@;
        let ghost before = self.graph.nodes@;
        self.graph.nodes.insert(insert_at, group.copy());
        proof {
            assert(node_views(self.graph.nodes@).remove(insert_at as int) =~= node_views(before));
            assert(node_views(self.graph.nodes@)[insert_at as int] == gv);
            assert(!has_node_id(before, group_id)) by {
                if has_node_id(before, group_id) {
                    let j = choose|j: int| 0 <= j < before.len() && before[j].id == group_id;
                }
            }
            assert forall|a: int, b: int| 0 <= a < b < self.graph.nodes@.len() implies #[trigger] self.graph.nodes@[a].id != #[trigger] self.graph.nodes@[b].id by {
                let pa = if a < insert_at { a } else if a == insert_at { -1 } else { a - 1 };
                let pb = if b < insert_at { b } else if b == insert_at { -1 } else { b - 1 };
                if pa >= 0 && pb >= 0 {
                    assert(self.graph.nodes@[a] == before[pa]);
                    assert(self.graph.nodes@[b] == before[pb]);
                    assert(before[pa].id != before[pb].id);
                } else if pa >= 0 {
                    assert(self.graph.nodes@[a] == before[pa]);
                } else {
                    assert(self.graph.nodes@[b] == before[pb]);
                }
            }
            assert forall|a: int| 0 <= a < self.graph.nodes@.len() implies #[trigger] self.graph.nodes@[a].id < self.graph.next_node_id by {
                if a < insert_at {
                    assert(self.graph.nodes@[a] == before[a]);
                } else if a > insert_at {
                    assert(self.graph.nodes@[a] == before[a - 1]);
                }
            }
            lemma_ids_below_mono(self.history, self.graph.next_node_id - 1, self.graph.next_node_id as int);
        }
        let mut batch: Vec<Node> = Vec::new();
        batch.push(group);
        assert(node_views(batch@) =~= seq![gv]);
        self.push_history(HistoryEntry::CreateBatch { nodes: batch });
        self.selection.set_single_selection(group_id);
        self.mark_workspace_dirty();
        assert(grouped(*old(self), *self, insert_at as int, pos, size));
        Some(group_id)
    }
}

/// A node with `id` dropped from its children, where it is a group.
pub open spec fn child_dropped(n: NodeView, id: usize) -> NodeView {
    if n.kind == NodeKind::Group {
        match n.data {
            DataView::Group { title, child_node_ids } => NodeView {
                data: DataView::Group { title, child_node_ids: child_node_ids.filter(other_than(id)) },
                ..n
            },
            _ => n,
        }
    } else {
        n
    }
}

/// A group that held `id` and holds nothing else.
pub open spec fn emptied_by(n: NodeView, id: usize) -> bool {
    n.kind == NodeKind::Group && match n.data {
        DataView::Group { child_node_ids, .. } => child_node_ids.contains(id) && child_node_ids.filter(
            other_than(id),
        ).len() == 0,
        _ => false,
    }
}

/// The ids of the groups that dropping `id` leaves empty, in order.
pub open spec fn emptied_groups(nodes: Seq<NodeView>, id: usize) -> Seq<usize> {
    nodes.filter(|n: NodeView| emptied_by(n, id)).map_values(|n: NodeView| n.id)
}

/// The node's id is none of the given ones.
pub open spec fn view_none_of(ids: Seq<usize>) -> spec_fn(NodeView) -> bool {
    |n: NodeView| !ids.contains(n.id)
}

pub proof fn lemma_views_filter_none_of(s: Seq<Node>, ids: Seq<usize>)
    ensures
        node_views(s.filter(crate::shortcuts::none_of(ids))) == node_views(s).filter(view_none_of(ids)),
    decreases s.len(),
{
    reveal_with_fuel(Seq::<_>::filter, 1);
    if s.len() > 0 {
        lemma_views_filter_none_of(s.drop_last(), ids);
        assert(node_views(s).drop_last() =~= node_views(s.drop_last()));
        if crate::shortcuts::none_of(ids)(s.last()) {
            assert(node_views(s.filter(crate::shortcuts::none_of(ids))) =~= node_views(
                s.drop_last().filter(crate::shortcuts::none_of(ids)),
            ).push(s.last()@));
        }
    } else {
        assert(node_views(s.filter(crate::shortcuts::none_of(ids))) =~= node_views(s).filter(view_none_of(ids)));
    }
}

impl Graph {
    /// Drops `id` from the children of every group; returns the groups that
    /// held it and hold nothing else now.
    pub fn drop_child_from_groups(&mut self, id: usize) -> (r: Vec<usize>)
        requires
            old(self).wf(),
        ensures
            final(self).wf(),
            final(self).nodes_v() == old(self).nodes_v().map_values(|n: NodeView| child_dropped(n, id)),
            r@ == emptied_groups(old(self).nodes_v(), id),
            final(self).edges == old(self).edges,
            final(self).edge_route_keys == old(self).edge_route_keys,
            final(self).next_node_id == old(self).next_node_id,
    {
        let ghost o = self.nodes_v();
        let ghost pe = |n: NodeView| emptied_by(n, id);
        let ghost f = |n: NodeView| child_dropped(n, id);
        let mut emptied: Vec<usize> = Vec::new();
        let mut i: usize = 0;
        while i < self.nodes.len()
            invariant
                i <= o.len(),
                self.wf(),
                self.nodes_v().len() == o.len(),
                forall|k: int| 0 <= k < i ==> #[trigger] self.nodes_v()[k] == f(o[k]),
                forall|k: int| i <= k < o.len() ==> #[trigger] self.nodes_v()[k] == o[k],
                pe == (|n: NodeView| emptied_by(n, id)),
                f == (|n: NodeView| child_dropped(n, id)),
                emptied@ == o.take(i as int).filter(pe).map_values(|n: NodeView| n.id),
                self.edges == old(self).edges,
                self.edge_route_keys == old(self).edge_route_keys,
                self.next_node_id == old(self).next_node_id,
                o == old(self).nodes_v(),
            decreases o.len() - i,
        {
            proof {
                reveal_with_fuel(Seq::<_>::filter, 1);
                assert(o.take(i + 1).drop_last() =~= o.take(i as int));
                assert(self.nodes_v()[i as int] == o[i as int]);
            }
            let ghost before = self.nodes_v();
            let nid = self.nodes[i].id;
            if self.nodes[i].kind == NodeKind::Group {
                if let NodeData::Group { title, child_node_ids } = &self.nodes[i].data {
                    let held = contains_id(child_node_ids, id);
                    let kept = crate::workspace::filter_ids(child_node_ids, id);
                    let empty_now = held && kept.len() == 0;
                    let data = NodeData::Group { title: crate::text::copy_string(title), child_node_ids: kept };
                    self.set_data_at(i, data);
                    proof {
                        assert(self.nodes_v()[i as int] == f(o[i as int]));
                        assert forall|k: int| 0 <= k < i implies #[trigger] self.nodes_v()[k] == f(o[k]) by {
                            assert(self.nodes_v()[k] == before[k]);
                        }
                        assert forall|k: int| i + 1 <= k < o.len() implies #[trigger] self.nodes_v()[k] == o[k] by {
                            assert(self.nodes_v()[k] == before[k]);
                        }
                    }
                    if empty_now {
                        assert(pe(o[i as int]));
                        assert(o[i as int].id == nid);
                        emptied.push(nid);
                        proof {
                            assert(o.take(i + 1).filter(pe) =~= o.take(i as int).filter(pe).push(o[i as int]));
                            assert(emptied@ =~= o.take(i + 1).filter(pe).map_values(|n: NodeView| n.id));
                        }
                    } else {
                        assert(o.take(i + 1).filter(pe) =~= o.take(i as int).filter(pe));
                    }
                } else {
                    assert(f(o[i as int]) == o[i as int]);
                    assert(o.take(i + 1).filter(pe) =~= o.take(i as int).filter(pe));
                }
            } else {
                assert(f(o[i as int]) == o[i as int]);
                assert(o.take(i + 1).filter(pe) =~= o.take(i as int).filter(pe));
            }
            i = i + 1;
        }
        assert(o.take(i as int) =~= o);
        assert(self.nodes_v() =~= o.map_values(f));
        emptied
    }
}

impl Workspace {
    /// Takes a node out of every group; a group that held it and holds
    /// nothing else is removed, with what referred to it.
    pub fn remove_child_from_groups(&mut self, node_id: usize)
        requires
            old(self).wf(),
        ensures
            final(self).wf(),
            ({
                let e = emptied_groups(old(self).graph.nodes_v(), node_id);
                &&& final(self).graph.nodes_v() == old(self).graph.nodes_v().map_values(
                    |n: NodeView| child_dropped(n, node_id),
                ).filter(view_none_of(e))
                &&& final(self).graph.edges@ == old(self).graph.edges@.filter(crate::shortcuts::touching_none(e))
                &&& e.len() > 0 ==> final(self).graph.routes() == crate::workspace::pruned_routes(
                    old(self).graph.routes(),
                    final(self).graph.edges@,
                ) && final(self).workspace_dirty
                &&& e.len() == 0 ==> final(self).graph.routes() == old(self).graph.routes()
                    && final(self).workspace_dirty == old(self).workspace_dirty
            }),
            final(self).graph.next_node_id == old(self).graph.next_node_id,
            final(self).history == old(self).history,
            Workspace::same_meta(*old(self), *final(self)),
    {
        let emptied = self.graph.drop_child_from_groups(node_id);
        let ghost mid = self.graph.nodes@;
        self.cut_nodes(&emptied);
        proof {
            lemma_views_filter_none_of(mid, emptied@);
        }
    }
}

} // verus!
