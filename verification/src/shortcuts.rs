//! What the canvas's keyboard shortcuts, its edit menu, its cutting gesture
//! and its linking gesture do to the workspace, once the window has read the
//! input.
use crate::clipboard::{clip_edge_views, copied_edges, node_selected};
use crate::groups::{can_group, group_candidate, grouped, max_title_index};
use crate::history::{redone, undone};
use crate::model::{node_views, Coord};
use crate::notifications::toast_msgs;
use crate::text::owned;
use crate::workspace::{bumped, has_node_id, keep_edge_if_present, pruned_routes, Workspace};
use vstd::prelude::*;

verus! {

/// The edges whose entry in `hit` is `false`, in order.
pub open spec fn unhit(edges: Seq<(usize, usize)>, hit: Seq<bool>) -> Seq<(usize, usize)>
    decreases edges.len(),
{
    if edges.len() == 0 {
        Seq::empty()
    } else {
        let prev = unhit(edges.drop_last(), hit);
        if hit[edges.len() - 1] {
            prev
        } else {
            prev.push(edges.last())
        }
    }
}

/// "已复制节点": nodes were copied.
pub open spec fn copied_notice() -> Seq<char> {
    "已复制节点"@
}

/// "已创建分组": a group was created.
pub open spec fn grouped_notice() -> Seq<char> {
    "已创建分组"@
}

/// The notice that no group could be made of the selection.
pub open spec fn group_failed_notice() -> Seq<char> {
    "创建分组失败：请选中至少 2 个节点，且不能与现有组成员完全一致"@
}

impl Workspace {
    /// The edit menu: 0 undoes, 1 redoes, anything else does nothing.
    pub fn run_edit_menu_action(&mut self, action_id: usize)
        requires
            old(self).wf(),
        ensures
            final(self).wf(),
            action_id == 0 ==> if old(self).history.undo_stack@.len() == 0 {
                *final(self) == *old(self)
            } else {
                &&& final(self).history.undo_v() == old(self).history.undo_v().drop_last()
                &&& undone(*old(self), *final(self), old(self).history.undo_v().last())
                &&& final(self).workspace_dirty
            },
            action_id == 1 ==> if old(self).history.redo_stack@.len() == 0 {
                *final(self) == *old(self)
            } else {
                &&& final(self).history.redo_v() == old(self).history.redo_v().drop_last()
                &&& redone(*old(self), *final(self), old(self).history.redo_v().last())
                &&& final(self).workspace_dirty
            },
            action_id > 1 ==> *final(self) == *old(self),
    {
        if action_id == 0 {
            self.undo_last_change();
        } else if action_id == 1 {
            self.redo_last_change();
        }
    }

    /// Copying and grouping by shortcut work only while no editor is open
    /// on a node or an edge and the command palette is closed.
    pub fn node_clipboard_shortcut_allowed(&self, command_palette_open: bool) -> (r: bool)
        ensures
            r == (self.edit.editing_text_node is None && self.edit.editing_script_node is None
                && self.edit.editing_title_node is None && self.edit.editing_startup_node is None
                && self.edit.editing_working_directory_node is None
                && self.edit.editing_decision_buttons_node is None
                && self.edit.editing_decision_queue_node is None && self.edit.editing_edge is None
                && !command_palette_open),
    {
        self.edit.editing_text_node.is_none() && self.edit.editing_script_node.is_none()
            && self.edit.editing_title_node.is_none() && self.edit.editing_startup_node.is_none()
            && self.edit.editing_working_directory_node.is_none()
            && self.edit.editing_decision_buttons_node.is_none()
            && self.edit.editing_decision_queue_node.is_none() && self.edit.editing_edge.is_none()
            && !command_palette_open
    }

    /// Copies the selection and, where something was copied, tells the user.
    pub fn copy_selection_with_notice(&mut self) -> (r: bool)
        requires
            old(self).wf(),
            old(self).next_toast_id < u64::MAX,
        ensures
            ({
                let sel = old(self).selection.selected_nodes@;
                let ns = old(self).graph.nodes_v().filter(node_selected(sel));
                &&& r == (sel.len() > 0 && ns.len() > 0)
                &&& r ==> (final(self).node_clipboard matches Some(p) && node_views(p.nodes@) == ns
                    && clip_edge_views(p.edges@) == copied_edges(
                    old(self).graph.edges@,
                    sel,
                    old(self).graph.routes(),
                ))
                &&& !r ==> final(self).node_clipboard == old(self).node_clipboard
            }),
            r ==> toast_msgs(final(self).toast_notifications@) == toast_msgs(old(self).toast_notifications@).push(
                (old(self).next_toast_id, copied_notice()),
            ) && final(self).next_toast_id == old(self).next_toast_id + 1,
            !r ==> final(self).toast_notifications == old(self).toast_notifications
                && final(self).next_toast_id == old(self).next_toast_id,
            final(self).graph == old(self).graph,
            final(self).selection == old(self).selection,
            final(self).history == old(self).history,
            final(self).edit == old(self).edit,
            final(self).workspace_dirty == old(self).workspace_dirty,
    {
        let copied = self.copy_selected_nodes_to_internal_clipboard();
        if copied {
            self.push_toast_notification(owned("已复制节点"));
        }
        copied
    }

    /// Groups the selection (`pos` and `size` the box around it) and tells
    /// the user whether a group was made.
    pub fn group_selection_with_notice(&mut self, pos: Coord, size: Coord) -> (r: Option<usize>)
        requires
            old(self).wf(),
            old(self).graph.next_node_id < usize::MAX,
            max_title_index(old(self).graph.nodes_v()) < usize::MAX,
            old(self).next_toast_id < u64::MAX,
        ensures
            final(self).wf(),
            toast_msgs(final(self).toast_notifications@) == toast_msgs(old(self).toast_notifications@).push(
                (old(self).next_toast_id, if r is Some { grouped_notice() } else { group_failed_notice() }),
            ),
            final(self).next_toast_id == old(self).next_toast_id + 1,
            !can_group(old(self).graph.nodes@, old(self).selection.selected_nodes@)
                ==> r is None && final(self).graph == old(self).graph && final(self).selection
                == old(self).selection && final(self).history == old(self).history
                && final(self).workspace_dirty == old(self).workspace_dirty,
            can_group(old(self).graph.nodes@, old(self).selection.selected_nodes@)
                ==> {
                &&& r == Some(old(self).graph.next_node_id)
                &&& final(self).graph.next_node_id == old(self).graph.next_node_id + 1
                &&& exists|k: int| grouped(*old(self), *final(self), k, pos, size)
                &&& final(self).graph.edges == old(self).graph.edges
                &&& final(self).selection.selected == Some(old(self).graph.next_node_id)
                &&& final(self).selection.selected_nodes@ == seq![old(self).graph.next_node_id]
                &&& final(self).selection.selected_edge is None
                &&& final(self).workspace_dirty
            },
    {
        let r = self.create_group_from_selection(pos, size);
        let ghost mid = *self;
        if r.is_some() {
            self.push_toast_notification(owned("已创建分组"));
        } else {
            self.push_toast_notification(owned("创建分组失败：请选中至少 2 个节点，且不能与现有组成员完全一致"));
        }
        proof {
            if can_group(old(self).graph.nodes@, old(self).selection.selected_nodes@) {
                let k = choose|k: int| grouped(*old(self), mid, k, pos, size);
                assert(grouped(*old(self), *self, k, pos, size));
            }
        }
        r
    }

    /// Removes the edges that the cutting gesture crossed (`hit` has one
    /// entry per edge) and what referred to them.
    pub fn cut_edges(&mut self, hit: &Vec<bool>)
        requires
            old(self).wf(),
            hit@.len() == old(self).graph.edges@.len(),
        ensures
            final(self).wf(),
            final(self).graph.edges@ == unhit(old(self).graph.edges@, hit@),
            final(self).graph.routes() == pruned_routes(old(self).graph.routes(), final(self).graph.edges@),
            final(self).graph.nodes == old(self).graph.nodes,
            final(self).graph.next_node_id == old(self).graph.next_node_id,
            final(self).selection.selected_edge == keep_edge_if_present(
                old(self).selection.selected_edge,
                final(self).graph.edges@,
            ),
            final(self).selection.selected == old(self).selection.selected,
            final(self).selection.selected_nodes == old(self).selection.selected_nodes,
            final(self).ui.context_menu_edge == keep_edge_if_present(
                old(self).ui.context_menu_edge,
                final(self).graph.edges@,
            ),
            final(self).history == old(self).history,
            final(self).terminals == old(self).terminals,
            final(self).workspace_dirty == old(self).workspace_dirty,
            Workspace::same_meta(*old(self), *final(self)),
    {
        let ghost o = self.graph.edges@;
        let mut kept: Vec<(usize, usize)> = Vec::new();
        let mut i: usize = 0;
        while i < self.graph.edges.len()
            invariant
                i <= o.len(),
                self.graph.edges@ == o,
                hit@.len() == o.len(),
                kept@ == unhit(o.take(i as int), hit@),
            decreases o.len() - i,
        {
            let ghost pre = o.take(i + 1);
            assert(pre.drop_last() =~= o.take(i as int));
            if !hit[i] {
                kept.push(self.graph.edges[i]);
            }
            i = i + 1;
        }
        assert(o.take(i as int) =~= o);
        self.graph.edges = kept;
        self.prune_edge_state();
    }
}

/// The node is none of the given ones.
pub open spec fn none_of(ids: Seq<usize>) -> spec_fn(crate::model::Node) -> bool {
    |n: crate::model::Node| !ids.contains(n.id)
}

/// The edge touches none of the given nodes.
pub open spec fn touching_none(ids: Seq<usize>) -> spec_fn((usize, usize)) -> bool {
    |e: (usize, usize)| !ids.contains(e.0) && !ids.contains(e.1)
}

impl Workspace {
    /// Removes the nodes that the cutting gesture crossed, with their edges
    /// and everything that referred to them.
    pub fn cut_nodes(&mut self, ids: &Vec<usize>)
        requires
            old(self).wf(),
        ensures
            final(self).wf(),
            final(self).graph.nodes@ == old(self).graph.nodes@.filter(none_of(ids@)),
            final(self).graph.edges@ == old(self).graph.edges@.filter(touching_none(ids@)),
            ids@.len() > 0 ==> final(self).graph.routes() == pruned_routes(old(self).graph.routes(), final(self).graph.edges@),
            final(self).graph.next_node_id == old(self).graph.next_node_id,
            forall|k: int| 0 <= k < ids@.len() ==> !has_node_id(final(self).graph.nodes@, #[trigger] ids@[k]),
            ids@.len() > 0 ==> final(self).workspace_dirty,
            ids@.len() == 0 ==> *final(self) == *old(self),
            final(self).history == old(self).history,
            Workspace::same_meta(*old(self), *final(self)),
    {
        let ghost n0 = self.graph.nodes@;
        let ghost e0 = self.graph.edges@;
        let ghost m0 = self.graph.routes();
        let mut i: usize = 0;
        assert(ids@.take(0) =~= Seq::<usize>::empty());
        assert(n0.filter(none_of(ids@.take(0))) =~= n0) by {
            reveal_with_fuel(Seq::<_>::filter, 1);
            crate::seqs::lemma_filter_contains(n0, none_of(ids@.take(0)));
            assert forall|k: int| 0 <= k < n0.len() implies none_of(ids@.take(0))(n0[k]) by {}
            lemma_filter_all(n0, none_of(ids@.take(0)));
        }
        assert(e0.filter(touching_none(ids@.take(0))) =~= e0) by {
            lemma_filter_all(e0, touching_none(ids@.take(0)));
        }
        while i < ids.len()
            invariant
                i <= ids@.len(),
                self.wf(),
                self.graph.nodes@ == n0.filter(none_of(ids@.take(i as int))),
                self.graph.edges@ == e0.filter(touching_none(ids@.take(i as int))),
                self.graph.routes() == (if i == 0 { m0 } else { pruned_routes(m0, self.graph.edges@) }),
                self.graph.next_node_id == old(self).graph.next_node_id,
                i > 0 ==> self.workspace_dirty,
                i == 0 ==> *self == *old(self),
                self.history == old(self).history,
                Workspace::same_meta(*old(self), *self),
                n0 == old(self).graph.nodes@,
                e0 == old(self).graph.edges@,
                m0 == old(self).graph.routes(),
            decreases ids@.len() - i,
        {
            let id = ids[i];
            let ghost nb = self.graph.nodes@;
            let ghost eb = self.graph.edges@;
            let ghost mb = self.graph.routes();
            self.remove_node(id);
            proof {
                let a = ids@.take(i as int);
                let b = ids@.take(i + 1);
                assert(b =~= a.push(id));
                assert forall|y: usize| #[trigger] b.contains(y) == (a.contains(y) || y == id) by {
                    if b.contains(y) {
                        let k = choose|k: int| 0 <= k < b.len() && b[k] == y;
                        if k < a.len() {
                            assert(a[k] == y);
                        }
                    }
                    if a.contains(y) {
                        let k = choose|k: int| 0 <= k < a.len() && a[k] == y;
                        assert(b[k] == y);
                    }
                    if y == id {
                        assert(b[a.len() as int] == y);
                    }
                }
                assert forall|x: crate::model::Node| #[trigger] none_of(b)(x) == (none_of(a)(x)
                    && crate::workspace::id_is_not(id)(x)) by {
                    assert(b.contains(x.id) == (a.contains(x.id) || x.id == id));
                }
                assert forall|e: (usize, usize)| #[trigger] touching_none(b)(e) == (touching_none(a)(e)
                    && crate::workspace::not_touching(id)(e)) by {
                    assert(b.contains(e.0) == (a.contains(e.0) || e.0 == id));
                    assert(b.contains(e.1) == (a.contains(e.1) || e.1 == id));
                }
                crate::seqs::lemma_filter_twice(
                    n0,
                    none_of(ids@.take(i as int)),
                    crate::workspace::id_is_not(id),
                    none_of(ids@.take(i + 1)),
                );
                crate::seqs::lemma_filter_twice(
                    e0,
                    touching_none(ids@.take(i as int)),
                    crate::workspace::not_touching(id),
                    touching_none(ids@.take(i + 1)),
                );
                crate::seqs::lemma_filter_contains(eb, crate::workspace::not_touching(id));
                if i > 0 {
                    assert(pruned_routes(mb, self.graph.edges@) =~= pruned_routes(m0, self.graph.edges@));
                }
            }
            i = i + 1;
        }
        assert(ids@.take(i as int) =~= ids@);
        proof {
            crate::seqs::lemma_filter_contains(n0, none_of(ids@));
            assert forall|k: int| 0 <= k < ids@.len() implies !has_node_id(self.graph.nodes@, #[trigger] ids@[k]) by {
                if has_node_id(self.graph.nodes@, ids@[k]) {
                    let j = choose|j: int| 0 <= j < self.graph.nodes@.len() && self.graph.nodes@[j].id == ids@[k];
                    assert(self.graph.nodes@.contains(self.graph.nodes@[j]));
                    assert(ids@.contains(ids@[k]));
                }
            }
        }
    }
}

/// Filtering by a test that everything passes keeps everything.
pub proof fn lemma_filter_all<T>(s: Seq<T>, p: spec_fn(T) -> bool)
    requires
        forall|k: int| 0 <= k < s.len() ==> #[trigger] p(s[k]),
    ensures
        s.filter(p) == s,
    decreases s.len(),
{
    reveal_with_fuel(Seq::<_>::filter, 1);
    if s.len() > 0 {
        assert forall|k: int| 0 <= k < s.drop_last().len() implies #[trigger] p(s.drop_last()[k]) by {
            assert(s.drop_last()[k] == s[k]);
        }
        lemma_filter_all(s.drop_last(), p);
        assert(p(s[s.len() - 1]));
        assert(s.filter(p) =~= s);
    } else {
        assert(s.filter(p) =~= s);
    }
}

impl Workspace {
    /// The secondary button went down on node `id`: a link from it starts
    /// and the node becomes the only one selected.
    pub fn start_link(&mut self, id: usize)
        requires
            old(self).wf(),
        ensures
            final(self).wf(),
            final(self).ui.linking_from == Some(id),
            final(self).ui.context_menu_node == old(self).ui.context_menu_node,
            final(self).ui.context_menu_edge == old(self).ui.context_menu_edge,
            final(self).selection.selected == Some(id),
            final(self).selection.selected_nodes@ == seq![id],
            final(self).selection.selected_edge is None,
            final(self).graph == old(self).graph,
            final(self).history == old(self).history,
            final(self).workspace_dirty == old(self).workspace_dirty,
            final(self).automation_state_version == old(self).automation_state_version,
    {
        self.ui.linking_from = Some(id);
        self.selection.set_single_selection(id);
    }

    /// The secondary button was let go over node `target` (`None`: over no
    /// node) while a link was being drawn: the link ends, and an edge from
    /// its start to `target` is added where `target` is another node and no
    /// such edge exists yet, which marks the workspace dirty. Says whether
    /// the button was let go over another node, which keeps the context
    /// menu from opening.
    pub fn finish_link(&mut self, target: Option<usize>) -> (r: bool)
        requires
            old(self).wf(),
        ensures
            final(self).wf(),
            final(self).ui.linking_from is None,
            r == (old(self).ui.linking_from is Some && target is Some && target->0 != old(self).ui.linking_from->0),
            r && !old(self).graph.edges@.contains((old(self).ui.linking_from->0, target->0)) ==> {
                &&& final(self).graph.edges@ == old(self).graph.edges@.push((old(self).ui.linking_from->0, target->0))
                &&& final(self).workspace_dirty
                &&& final(self).automation_state_version == bumped(old(self).automation_state_version)
            },
            !(r && !old(self).graph.edges@.contains((old(self).ui.linking_from->0, target->0))) ==> {
                &&& final(self).graph.edges == old(self).graph.edges
                &&& final(self).workspace_dirty == old(self).workspace_dirty
                &&& final(self).automation_state_version == old(self).automation_state_version
            },
            final(self).graph.nodes == old(self).graph.nodes,
            final(self).graph.edge_route_keys == old(self).graph.edge_route_keys,
            final(self).graph.next_node_id == old(self).graph.next_node_id,
            final(self).ui.context_menu_node == old(self).ui.context_menu_node,
            final(self).ui.context_menu_edge == old(self).ui.context_menu_edge,
            final(self).selection == old(self).selection,
            final(self).history == old(self).history,
            Workspace::same_meta(*old(self), *final(self)),
    {
        let mut over_other = false;
        if let Some(from) = self.ui.linking_from {
            if let Some(to) = target {
                if to != from {
                    over_other = true;
                    if !self.graph.has_edge(from, to) {
                        self.graph.edges.push((from, to));
                        self.mark_workspace_dirty();
                    }
                }
            }
        }
        self.ui.linking_from = None;
        over_other
    }
}

} // verus!
