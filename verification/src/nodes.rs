//! Removing nodes and keeping the edge state consistent with the edges.
use crate::model::Node;

use crate::seqs::{lemma_filter_contains, retain_mask};
use crate::terminal::{error_key_not, id_not, injection_key_not};
use crate::workspace::{bumped, filter_ids, first_or_none, has_node_id, id_is_not, keep_edge_if_present, lemma_filter_keeps_no_dups, not_touching, other_than, pruned_routes, unique_ids, EditState, Graph, Workspace};
use vstd::prelude::*;

verus! {

pub open spec fn clear_if(o: Option<usize>, id: usize) -> Option<usize> {
    if o == Some(id) {
        None
    } else {
        o
    }
}

/// The edit state once the node `id` is gone and the edges are `edges`.
pub open spec fn edit_after_removal(e: EditState, n: EditState, id: usize, edges: Seq<(usize, usize)>) -> bool {
    &&& if e.editing_decision_buttons_node == Some(id) {
        &&& n.editing_decision_buttons_node is None
        &&& n.pending_decision_buttons_focus is None
        &&& n.decision_buttons_edit_rows@.len() == 0
        &&& n.decision_color_popup is None
        &&& n.decision_buttons_edit_error is None
    } else {
        &&& n.editing_decision_buttons_node == e.editing_decision_buttons_node
        &&& n.pending_decision_buttons_focus == e.pending_decision_buttons_focus
        &&& n.decision_buttons_edit_rows == e.decision_buttons_edit_rows
        &&& n.decision_color_popup == e.decision_color_popup
        &&& n.decision_buttons_edit_error == e.decision_buttons_edit_error
    }
    &&& if e.editing_decision_queue_node == Some(id) {
        &&& n.editing_decision_queue_node is None
        &&& n.pending_decision_queue_focus is None
        &&& n.decision_queue_edit_buffer@.len() == 0
    } else {
        &&& n.editing_decision_queue_node == e.editing_decision_queue_node
        &&& n.pending_decision_queue_focus == e.pending_decision_queue_focus
        &&& n.decision_queue_edit_buffer == e.decision_queue_edit_buffer
    }
    &&& if e.editing_text_node == Some(id) {
        n.editing_text_node is None && n.pending_text_focus is None
    } else {
        n.editing_text_node == e.editing_text_node && n.pending_text_focus == e.pending_text_focus
    }
    &&& if e.editing_title_node == Some(id) {
        n.editing_title_node is None && n.pending_title_focus is None
            && n.title_edit_buffer@.len() == 0
    } else {
        n.editing_title_node == e.editing_title_node && n.pending_title_focus
            == e.pending_title_focus && n.title_edit_buffer == e.title_edit_buffer
    }
    &&& if e.editing_startup_node == Some(id) {
        n.editing_startup_node is None && n.pending_startup_focus is None
            && n.startup_edit_buffer@.len() == 0
    } else {
        n.editing_startup_node == e.editing_startup_node && n.pending_startup_focus
            == e.pending_startup_focus && n.startup_edit_buffer == e.startup_edit_buffer
    }
    &&& n.suspend_terminal_focus == clear_if(e.suspend_terminal_focus, id)
    &&& edge_edit_after_prune(e, n, edges)
    &&& n.editing_working_directory_node == e.editing_working_directory_node
    &&& n.working_directory_edit_buffer == e.working_directory_edit_buffer
    &&& n.editing_script_node == e.editing_script_node
    &&& n.script_edit_buffer == e.script_edit_buffer
    &&& n.editing_script_queue_node == e.editing_script_queue_node
    &&& n.script_queue_edit_buffer == e.script_queue_edit_buffer
}

/// The edge editor closes when its edge is gone.
pub open spec fn edge_edit_after_prune(e: EditState, n: EditState, edges: Seq<(usize, usize)>) -> bool {
    if e.editing_edge is Some && !edges.contains(e.editing_edge->0) {
        n.editing_edge is None && n.pending_edge_focus is None && n.edge_edit_buffer@.len() == 0
    } else {
        n.editing_edge == e.editing_edge && n.pending_edge_focus == e.pending_edge_focus
            && n.edge_edit_buffer == e.edge_edit_buffer
    }
}

/// Every editor other than the edge editor is as it was.
pub open spec fn edits_other_than_edge_kept(e: EditState, n: EditState) -> bool {
    &&& n.editing_text_node == e.editing_text_node
    &&& n.pending_text_focus == e.pending_text_focus
    &&& n.editing_title_node == e.editing_title_node
    &&& n.pending_title_focus == e.pending_title_focus
    &&& n.title_edit_buffer == e.title_edit_buffer
    &&& n.editing_startup_node == e.editing_startup_node
    &&& n.pending_startup_focus == e.pending_startup_focus
    &&& n.startup_edit_buffer == e.startup_edit_buffer
    &&& n.editing_working_directory_node == e.editing_working_directory_node
    &&& n.pending_working_directory_focus == e.pending_working_directory_focus
    &&& n.working_directory_edit_buffer == e.working_directory_edit_buffer
    &&& n.editing_decision_buttons_node == e.editing_decision_buttons_node
    &&& n.pending_decision_buttons_focus == e.pending_decision_buttons_focus
    &&& n.decision_buttons_edit_rows == e.decision_buttons_edit_rows
    &&& n.decision_color_popup == e.decision_color_popup
    &&& n.decision_buttons_edit_error == e.decision_buttons_edit_error
    &&& n.editing_decision_queue_node == e.editing_decision_queue_node
    &&& n.pending_decision_queue_focus == e.pending_decision_queue_focus
    &&& n.decision_queue_edit_buffer == e.decision_queue_edit_buffer
    &&& n.editing_script_node == e.editing_script_node
    &&& n.pending_script_focus == e.pending_script_focus
    &&& n.script_edit_buffer == e.script_edit_buffer
    &&& n.script_debug_node == e.script_debug_node
    &&& n.editing_script_queue_node == e.editing_script_queue_node
    &&& n.pending_script_queue_focus == e.pending_script_queue_focus
    &&& n.script_queue_edit_buffer == e.script_queue_edit_buffer
    &&& n.suspend_terminal_focus == e.suspend_terminal_focus
}

pub proof fn lemma_filter_unique_ids(s: Seq<Node>, p: spec_fn(Node) -> bool)
    requires
        unique_ids(s),
    ensures
        unique_ids(s.filter(p)),
        forall|x: Node| #[trigger] s.filter(p).contains(x) <==> s.contains(x) && p(x),
    decreases s.len(),
{
    reveal_with_fuel(Seq::<_>::filter, 1);
    lemma_filter_contains(s, p);
    if s.len() > 0 {
        let t = s.drop_last();
        assert(unique_ids(t));
        lemma_filter_unique_ids(t, p);
        let f = t.filter(p);
        if p(s.last()) {
            let g = f.push(s.last());
            assert forall|i: int, j: int| 0 <= i < j < g.len() implies #[trigger] g[i].id != #[trigger] g[j].id by {
                if j == g.len() - 1 {
                    assert(g[i] == f[i]);
                    assert(f.contains(f[i]));
                    assert(t.contains(f[i]));
                    let k = choose|k: int| 0 <= k < t.len() && t[k] == f[i];
                    assert(s[k] == t[k]);
                    assert(s[k].id != s[s.len() - 1].id);
                } else {
                    assert(g[i] == f[i] && g[j] == f[j]);
                }
            }
        }
    }
}

impl EditState {
    /// Closes the editors open on a removed node, and the edge editor where
    /// its edge is gone.
    pub fn forget_node(&mut self, id: usize, edges: &Vec<(usize, usize)>)
        ensures
            edit_after_removal(*old(self), *final(self), id, edges@),
    {
        if self.editing_decision_buttons_node == Some(id) {
            self.editing_decision_buttons_node = None;
            self.pending_decision_buttons_focus = None;
            self.decision_buttons_edit_rows.clear();
            self.decision_color_popup = None;
            self.decision_buttons_edit_error = None;
        }
        if self.editing_decision_queue_node == Some(id) {
            self.editing_decision_queue_node = None;
            self.pending_decision_queue_focus = None;
            self.decision_queue_edit_buffer = String::new();
        }
        if self.editing_text_node == Some(id) {
            self.editing_text_node = None;
            self.pending_text_focus = None;
        }
        if self.editing_title_node == Some(id) {
            self.editing_title_node = None;
            self.pending_title_focus = None;
            self.title_edit_buffer = String::new();
        }
        if self.editing_startup_node == Some(id) {
            self.editing_startup_node = None;
            self.pending_startup_focus = None;
            self.startup_edit_buffer = String::new();
        }
        if self.suspend_terminal_focus == Some(id) {
            self.suspend_terminal_focus = None;
        }
        self.close_edge_editor_if_gone(edges);
    }

    /// Closes the edge editor when its edge is gone.
    pub fn close_edge_editor_if_gone(&mut self, edges: &Vec<(usize, usize)>)
        ensures
            edge_edit_after_prune(*old(self), *final(self), edges@),
            edits_other_than_edge_kept(*old(self), *final(self)),
    {
        if let Some(e) = self.editing_edge {
            if !contains_pair(edges, e) {
                self.editing_edge = None;
                self.pending_edge_focus = None;
                self.edge_edit_buffer = String::new();
            }
        }
    }
}

pub fn contains_pair(edges: &Vec<(usize, usize)>, e: (usize, usize)) -> (r: bool)
    ensures
        r == edges@.contains(e),
{
    let mut i: usize = 0;
    while i < edges.len()
        invariant
            i <= edges@.len(),
            forall|j: int| 0 <= j < i ==> #[trigger] edges@[j] != e,
        decreases edges@.len() - i,
    {
        if edges[i].0 == e.0 && edges[i].1 == e.1 {
            assert(edges@[i as int] == e);
            return true;
        }
        i = i + 1;
    }
    false
}

impl Graph {
    /// Removes a node and the edges at it, and prunes the route keys.
    pub fn remove_node_and_edges(&mut self, node_id: usize)
        requires
            old(self).wf(),
        ensures
            final(self).wf(),
            final(self).nodes@ == old(self).nodes@.filter(id_is_not(node_id)),
            final(self).edges@ == old(self).edges@.filter(not_touching(node_id)),
            final(self).routes() == pruned_routes(old(self).routes(), final(self).edges@),
            final(self).next_node_id == old(self).next_node_id,
            !has_node_id(final(self).nodes@, node_id),
    {
        let ghost old_nodes = self.nodes@;
        let mut mask: Vec<bool> = Vec::new();
        let mut i: usize = 0;
        while i < self.nodes.len()
            invariant
                i <= self.nodes@.len(),
                mask@.len() == i,
                forall|j: int| 0 <= j < i ==> #[trigger] mask@[j] == id_is_not(node_id)(self.nodes@[j]),
            decreases self.nodes@.len() - i,
        {
            mask.push(self.nodes[i].id != node_id);
            i = i + 1;
        }
        retain_mask(&mut self.nodes, &mask, Ghost(id_is_not(node_id)));
        proof {
            lemma_filter_unique_ids(old_nodes, id_is_not(node_id));
            assert forall|i: int| 0 <= i < self.nodes@.len() implies #[trigger] self.nodes@[i].id < self.next_node_id by {
                assert(self.nodes@.contains(self.nodes@[i]));
                let k = choose|k: int| 0 <= k < old_nodes.len() && old_nodes[k] == self.nodes@[i];
            }
            assert(!has_node_id(self.nodes@, node_id)) by {
                if has_node_id(self.nodes@, node_id) {
                    let k = choose|k: int| 0 <= k < self.nodes@.len() && self.nodes@[k].id == node_id;
                    assert(self.nodes@.contains(self.nodes@[k]));
                }
            }
        }
        let mut emask: Vec<bool> = Vec::new();
        let mut i: usize = 0;
        while i < self.edges.len()
            invariant
                i <= self.edges@.len(),
                emask@.len() == i,
                forall|j: int| 0 <= j < i ==> #[trigger] emask@[j] == not_touching(node_id)(self.edges@[j]),
            decreases self.edges@.len() - i,
        {
            emask.push(self.edges[i].0 != node_id && self.edges[i].1 != node_id);
            i = i + 1;
        }
        retain_mask(&mut self.edges, &emask, Ghost(not_touching(node_id)));
        self.prune_edge_route_keys();
    }
}

impl Workspace {
    /// Drops route keys of vanished edges and closes the selection, editor and
    /// context menu of a vanished edge.
    pub fn prune_edge_state(&mut self)
        requires
            old(self).wf(),
        ensures
            final(self).wf(),
            final(self).graph.routes() == pruned_routes(old(self).graph.routes(), old(self).graph.edges@),
            final(self).graph.nodes == old(self).graph.nodes,
            final(self).graph.edges == old(self).graph.edges,
            final(self).graph.next_node_id == old(self).graph.next_node_id,
            final(self).selection.selected_edge == keep_edge_if_present(old(self).selection.selected_edge, old(self).graph.edges@),
            final(self).selection.selected == old(self).selection.selected,
            final(self).selection.selected_nodes == old(self).selection.selected_nodes,
            final(self).ui.context_menu_edge == keep_edge_if_present(old(self).ui.context_menu_edge, old(self).graph.edges@),
            final(self).ui.context_menu_node == old(self).ui.context_menu_node,
            final(self).ui.linking_from == old(self).ui.linking_from,
            edge_edit_after_prune(old(self).edit, final(self).edit, old(self).graph.edges@),
            edits_other_than_edge_kept(old(self).edit, final(self).edit),
            final(self).history == old(self).history,
            final(self).terminals == old(self).terminals,
            final(self).workspace_dirty == old(self).workspace_dirty,
            final(self).automation_state_version == old(self).automation_state_version,
            Workspace::same_meta(*old(self), *final(self)),
    {
        self.graph.prune_edge_route_keys();
        if let Some(e) = self.selection.selected_edge {
            if !contains_pair(&self.graph.edges, e) {
                self.selection.selected_edge = None;
            }
        }
        self.edit.close_edge_editor_if_gone(&self.graph.edges);
        if let Some(e) = self.ui.context_menu_edge {
            if !contains_pair(&self.graph.edges, e) {
                self.ui.context_menu_edge = None;
            }
        }
    }

    /// Removes a node, the edges at it and everything that refers to it.
    pub fn remove_node(&mut self, node_id: usize)
        requires
            old(self).wf(),
        ensures
            final(self).wf(),
            final(self).graph.nodes@ == old(self).graph.nodes@.filter(id_is_not(node_id)),
            final(self).graph.edges@ == old(self).graph.edges@.filter(not_touching(node_id)),
            final(self).graph.routes() == pruned_routes(old(self).graph.routes(), final(self).graph.edges@),
            final(self).graph.next_node_id == old(self).graph.next_node_id,
            !has_node_id(final(self).graph.nodes@, node_id),
            final(self).selection.selected_nodes@ == old(self).selection.selected_nodes@.filter(other_than(node_id)),
            final(self).selection.selected == (if old(self).selection.selected == Some(node_id) {
                first_or_none(final(self).selection.selected_nodes@)
            } else {
                old(self).selection.selected
            }),
            final(self).selection.selected_edge == keep_edge_if_present(old(self).selection.selected_edge, final(self).graph.edges@),
            final(self).ui.context_menu_edge == keep_edge_if_present(old(self).ui.context_menu_edge, final(self).graph.edges@),
            final(self).ui.context_menu_node == clear_if(old(self).ui.context_menu_node, node_id),
            final(self).ui.linking_from == clear_if(old(self).ui.linking_from, node_id),
            edit_after_removal(old(self).edit, final(self).edit, node_id, final(self).graph.edges@),
            final(self).terminals.running@ == old(self).terminals.running@.filter(id_not(node_id)),
            final(self).terminals.exited@ == old(self).terminals.exited@.filter(id_not(node_id)),
            final(self).terminals.errors@ == old(self).terminals.errors@.filter(error_key_not(node_id)),
            final(self).terminals.pending_injections@ == old(self).terminals.pending_injections@.filter(injection_key_not(node_id)),
            final(self).terminals.pending_starts@ == old(self).terminals.pending_starts@.filter(id_not(node_id)),
            final(self).workspace_dirty,
            final(self).automation_state_version == bumped(old(self).automation_state_version),
            final(self).history == old(self).history,
            Workspace::same_meta(*old(self), *final(self)),
    {
        self.mark_workspace_dirty();
        self.graph.remove_node_and_edges(node_id);
        proof {
            // pruning twice against the same edges prunes once
            assert(pruned_routes(pruned_routes(old(self).graph.routes(), self.graph.edges@), self.graph.edges@)
                =~= pruned_routes(old(self).graph.routes(), self.graph.edges@));
        }
        self.prune_edge_state();
        self.terminals.forget(node_id);
        self.edit.forget_node(node_id, &self.graph.edges);
        let ghost old_sel = self.selection.selected_nodes@;
        proof {
            lemma_filter_keeps_no_dups(old_sel, node_id);
        }
        self.selection.selected_nodes = filter_ids(&self.selection.selected_nodes, node_id);
        if self.selection.selected == Some(node_id) {
            self.selection.selected = if self.selection.selected_nodes.len() > 0 {
                Some(self.selection.selected_nodes[0])
            } else {
                None
            };
        }
        if self.ui.linking_from == Some(node_id) {
            self.ui.linking_from = None;
        }
        if self.ui.context_menu_node == Some(node_id) {
            self.ui.context_menu_node = None;
        }
    }
}

} // verus!
