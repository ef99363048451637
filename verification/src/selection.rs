//! Selecting nodes and edges.
use crate::workspace::{filter_ids, first_or_none, lemma_filter_keeps_no_dups, other_than, Selection, Workspace};
use vstd::prelude::*;

verus! {

pub fn contains_id(v: &Vec<usize>, id: usize) -> (r: bool)
    ensures
        r == v@.contains(id),
{
    let mut i: usize = 0;
    while i < v.len()
        invariant
            i <= v@.len(),
            forall|j: int| 0 <= j < i ==> #[trigger] v@[j] != id,
        decreases v@.len() - i,
    {
        if v[i] == id {
            assert(v@[i as int] == id);
            return true;
        }
        i = i + 1;
    }
    false
}

impl Selection {
    /// Selects exactly one node.
    pub fn set_single_selection(&mut self, node_id: usize)
        ensures
            final(self).wf(),
            final(self).selected == Some(node_id),
            final(self).selected_nodes@ == seq![node_id],
            final(self).selected_edge is None,
    {
        self.selected = Some(node_id);
        self.selected_nodes = Vec::new();
        self.selected_nodes.push(node_id);
        assert(self.selected_nodes@ =~= seq![node_id]);
        self.selected_edge = None;
    }

    /// Forgets the selected edge.
    pub fn clear_edge_selection(&mut self)
        ensures
            final(self).selected == old(self).selected,
            final(self).selected_nodes == old(self).selected_nodes,
            final(self).selected_edge is None,
    {
        self.selected_edge = None;
    }

    /// Selects nothing.
    pub fn clear_selection(&mut self)
        ensures
            final(self).wf(),
            final(self).selected is None,
            final(self).selected_nodes@.len() == 0,
            final(self).selected_edge is None,
    {
        self.selected = None;
        self.selected_nodes = Vec::new();
        self.clear_edge_selection();
    }

    /// Adds a node to the selection and makes it the picked one, or takes it
    /// out of the selection when it was in it.
    pub fn toggle_selection(&mut self, node_id: usize)
        requires
            old(self).wf(),
        ensures
            final(self).wf(),
            final(self).selected_edge is None,
            if old(self).selected_nodes@.contains(node_id) {
                &&& final(self).selected_nodes@ == old(self).selected_nodes@.filter(other_than(node_id))
                &&& final(self).selected == (if old(self).selected == Some(node_id) {
                    first_or_none(final(self).selected_nodes@)
                } else {
                    old(self).selected
                })
            } else {
                &&& final(self).selected_nodes@ == old(self).selected_nodes@.push(node_id)
                &&& final(self).selected == Some(node_id)
            },
    {
        self.selected_edge = None;
        if contains_id(&self.selected_nodes, node_id) {
            self.remove_from_selection(node_id);
        } else {
            let ghost o = self.selected_nodes@;
            self.selected_nodes.push(node_id);
            proof {
                assert forall|i: int, j: int| 0 <= i < j < self.selected_nodes@.len() implies #[trigger] self.selected_nodes@[i]
                    != #[trigger] self.selected_nodes@[j] by {
                    if j == o.len() {
                        assert(o.contains(o[i]));
                    } else {
                        assert(o[i] != o[j]);
                    }
                }
            }
            self.selected = Some(node_id);
        }
    }

    /// Takes a node out of the selection.
    pub fn remove_from_selection(&mut self, node_id: usize)
        requires
            old(self).wf(),
        ensures
            final(self).wf(),
            final(self).selected_edge is None,
            final(self).selected_nodes@ == old(self).selected_nodes@.filter(other_than(node_id)),
            final(self).selected == (if old(self).selected == Some(node_id) {
                first_or_none(final(self).selected_nodes@)
            } else {
                old(self).selected
            }),
    {
        self.selected_edge = None;
        proof {
            lemma_filter_keeps_no_dups(self.selected_nodes@, node_id);
        }
        self.selected_nodes = filter_ids(&self.selected_nodes, node_id);
        if self.selected == Some(node_id) {
            self.selected = if self.selected_nodes.len() > 0 {
                Some(self.selected_nodes[0])
            } else {
                None
            };
        }
    }
}

impl Workspace {
    /// Selects an edge (and no node), when the edge exists.
    pub fn set_edge_selection(&mut self, edge: (usize, usize))
        requires
            old(self).wf(),
        ensures
            final(self).wf(),
            old(self).graph.edges@.contains(edge) ==> final(self).selection.selected is None
                && final(self).selection.selected_nodes@.len() == 0
                && final(self).selection.selected_edge == Some(edge),
            !old(self).graph.edges@.contains(edge) ==> final(self).selection == old(self).selection,
            final(self).graph == old(self).graph,
            final(self).history == old(self).history,
            final(self).edit == old(self).edit,
            final(self).ui == old(self).ui,
            final(self).terminals == old(self).terminals,
            final(self).workspace_dirty == old(self).workspace_dirty,
            final(self).automation_state_version == old(self).automation_state_version,
            Workspace::same_meta(*old(self), *final(self)),
    {
        if !self.graph.has_edge(edge.0, edge.1) {
            return;
        }
        self.selection.selected = None;
        self.selection.selected_nodes = Vec::new();
        self.selection.selected_edge = Some(edge);
    }
}

} // verus!
