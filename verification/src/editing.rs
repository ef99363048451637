//! The inline editors of nodes and edges: opening one on a node, committing
//! what it holds back into the node, and closing it.
use crate::forwarding::{lemma_node_index_none, lemma_node_index_some, node_index};
use crate::model::{copy_opt_string, node_views, opt_view, DataView, NodeData, NodeView};
use crate::routes::shown_route;
use crate::shells::is_terminal_node;
use crate::terminal::{error_key_not, id_not};
use crate::queue::{effective_queue, queue_from_text, queue_separator, with_queue};
use crate::text::{copy_string, join_seq, str_eq, trim, trim_str};
use crate::workspace::{bumped, DecisionButtonDraft, EditState, Graph, Workspace};
use vstd::prelude::*;

verus! {

/// A row of the decision-button editor: label, route key and colour.
pub type DraftView = (Seq<char>, Seq<char>, [u8; 3]);

pub open spec fn draft_views(s: Seq<DecisionButtonDraft>) -> Seq<DraftView> {
    s.map_values(|d: DecisionButtonDraft| (d.label@, d.event_key@, d.color_rgb))
}

/// The mathematical value of the editors' state.
pub struct EditView {
    pub editing_text_node: Option<usize>,
    pub pending_text_focus: Option<usize>,
    pub editing_title_node: Option<usize>,
    pub pending_title_focus: Option<usize>,
    pub title_edit_buffer: Seq<char>,
    pub editing_startup_node: Option<usize>,
    pub pending_startup_focus: Option<usize>,
    pub startup_edit_buffer: Seq<char>,
    pub editing_working_directory_node: Option<usize>,
    pub pending_working_directory_focus: Option<usize>,
    pub working_directory_edit_buffer: Seq<char>,
    pub editing_decision_buttons_node: Option<usize>,
    pub pending_decision_buttons_focus: Option<usize>,
    pub decision_buttons_edit_rows: Seq<DraftView>,
    pub decision_color_popup: Option<(usize, usize)>,
    pub decision_buttons_edit_error: Option<Seq<char>>,
    pub editing_decision_queue_node: Option<usize>,
    pub pending_decision_queue_focus: Option<usize>,
    pub decision_queue_edit_buffer: Seq<char>,
    pub editing_edge: Option<(usize, usize)>,
    pub pending_edge_focus: Option<(usize, usize)>,
    pub edge_edit_buffer: Seq<char>,
    pub editing_script_node: Option<usize>,
    pub pending_script_focus: Option<usize>,
    pub script_edit_buffer: Seq<char>,
    pub script_debug_node: Option<usize>,
    pub editing_script_queue_node: Option<usize>,
    pub pending_script_queue_focus: Option<usize>,
    pub script_queue_edit_buffer: Seq<char>,
    pub suspend_terminal_focus: Option<usize>,
}

impl View for EditState {
    type V = EditView;

    open spec fn view(&self) -> EditView {
        EditView {
            editing_text_node: self.editing_text_node,
            pending_text_focus: self.pending_text_focus,
            editing_title_node: self.editing_title_node,
            pending_title_focus: self.pending_title_focus,
            title_edit_buffer: self.title_edit_buffer@,
            editing_startup_node: self.editing_startup_node,
            pending_startup_focus: self.pending_startup_focus,
            startup_edit_buffer: self.startup_edit_buffer@,
            editing_working_directory_node: self.editing_working_directory_node,
            pending_working_directory_focus: self.pending_working_directory_focus,
            working_directory_edit_buffer: self.working_directory_edit_buffer@,
            editing_decision_buttons_node: self.editing_decision_buttons_node,
            pending_decision_buttons_focus: self.pending_decision_buttons_focus,
            decision_buttons_edit_rows: draft_views(self.decision_buttons_edit_rows@),
            decision_color_popup: self.decision_color_popup,
            decision_buttons_edit_error: crate::model::opt_view(self.decision_buttons_edit_error),
            editing_decision_queue_node: self.editing_decision_queue_node,
            pending_decision_queue_focus: self.pending_decision_queue_focus,
            decision_queue_edit_buffer: self.decision_queue_edit_buffer@,
            editing_edge: self.editing_edge,
            pending_edge_focus: self.pending_edge_focus,
            edge_edit_buffer: self.edge_edit_buffer@,
            editing_script_node: self.editing_script_node,
            pending_script_focus: self.pending_script_focus,
            script_edit_buffer: self.script_edit_buffer@,
            script_debug_node: self.script_debug_node,
            editing_script_queue_node: self.editing_script_queue_node,
            pending_script_queue_focus: self.pending_script_queue_focus,
            script_queue_edit_buffer: self.script_queue_edit_buffer@,
            suspend_terminal_focus: self.suspend_terminal_focus,
        }
    }
}

/// The editors that open on a node's content closed, with their buffers
/// emptied: text, title, startup script, working directory, decision buttons,
/// decision queue and edge. The script editors stay as they are.
pub open spec fn inline_reset(e: EditView) -> EditView {
    EditView {
        editing_text_node: None,
        pending_text_focus: None,
        editing_title_node: None,
        pending_title_focus: None,
        title_edit_buffer: Seq::empty(),
        editing_startup_node: None,
        pending_startup_focus: None,
        startup_edit_buffer: Seq::empty(),
        editing_working_directory_node: None,
        pending_working_directory_focus: None,
        working_directory_edit_buffer: Seq::empty(),
        editing_decision_buttons_node: None,
        pending_decision_buttons_focus: None,
        decision_buttons_edit_rows: Seq::empty(),
        decision_color_popup: None,
        decision_buttons_edit_error: None,
        editing_decision_queue_node: None,
        pending_decision_queue_focus: None,
        decision_queue_edit_buffer: Seq::empty(),
        editing_edge: None,
        pending_edge_focus: None,
        edge_edit_buffer: Seq::empty(),
        ..e
    }
}

/// The node with the given id, where there is one.
pub open spec fn node_with_id(nodes: Seq<NodeView>, id: usize) -> Option<NodeView> {
    match node_index(nodes, id) {
        Some(i) => Some(nodes[i]),
        None => None,
    }
}

/// Everything but the graph, the selection, the editors, the dirty flag, the
/// state version and the terminals is the same.
pub open spec fn edit_frame(o: Workspace, n: Workspace) -> bool {
    &&& n.history == o.history
    &&& n.ui == o.ui
    &&& Workspace::same_meta(o, n)
}

/// The graph is unchanged and the workspace not marked dirty.
pub open spec fn graph_kept(o: Workspace, n: Workspace) -> bool {
    &&& n.graph == o.graph
    &&& n.workspace_dirty == o.workspace_dirty
    &&& n.automation_state_version == o.automation_state_version
}

/// The node at `i` now has the content `d`, and the workspace is marked dirty.
pub open spec fn data_replaced(o: Workspace, n: Workspace, i: int, d: DataView) -> bool {
    &&& n.graph.nodes_v() == o.graph.nodes_v().update(i, NodeView { data: d, ..o.graph.nodes_v()[i] })
    &&& n.graph.edges == o.graph.edges
    &&& n.graph.edge_route_keys == o.graph.edge_route_keys
    &&& n.graph.next_node_id == o.graph.next_node_id
    &&& n.workspace_dirty
    &&& n.automation_state_version == bumped(o.automation_state_version)
}

impl Graph {
    /// Replaces the content of the node at `i`.
    pub fn set_data_at(&mut self, i: usize, data: NodeData)
        requires
            old(self).wf(),
            i < old(self).nodes@.len(),
        ensures
            final(self).wf(),
            final(self).nodes_v() == old(self).nodes_v().update(
                i as int,
                NodeView { data: data@, ..old(self).nodes_v()[i as int] },
            ),
            final(self).edges == old(self).edges,
            final(self).edge_route_keys == old(self).edge_route_keys,
            final(self).next_node_id == old(self).next_node_id,
    {
        let mut node = self.nodes[i].copy();
        node.data = data;
        let ghost before = self.nodes@;
        self.nodes.set(i, node);
        proof {
            assert(node_views(self.nodes@) =~= node_views(before).update(
                i as int,
                NodeView { data: data@, ..node_views(before)[i as int] },
            ));
            assert forall|a: int, b: int| 0 <= a < b < self.nodes@.len() implies #[trigger] self.nodes@[a].id
                != #[trigger] self.nodes@[b].id by {
                assert(before[a].id != before[b].id);
                assert(self.nodes@[a].id == before[a].id);
                assert(self.nodes@[b].id == before[b].id);
            }
            assert forall|a: int| 0 <= a < self.nodes@.len() implies #[trigger] self.nodes@[a].id
                < self.next_node_id by {
                assert(self.nodes@[a].id == before[a].id);
            }
        }
    }

    /// The index of the node with the given id, as `node_index` names it.
    pub fn index_of(&self, id: usize) -> (r: Option<usize>)
        requires
            self.wf(),
        ensures
            match r {
                Some(i) => node_index(self.nodes_v(), id) == Some(i as int) && i < self.nodes@.len(),
                None => node_index(self.nodes_v(), id) is None,
            },
    {
        match self.find_node_index(id) {
            Some(i) => {
                proof {
                    lemma_node_index_some(*self, id, i as int);
                }
                Some(i)
            },
            None => {
                proof {
                    lemma_node_index_none(*self, id);
                }
                None
            },
        }
    }
}

impl EditState {
    /// Closes the editors that open on a node's content and empties their buffers.
    pub fn reset_inline(&mut self)
        ensures
            final(self)@ == inline_reset(old(self)@),
    {
        self.editing_text_node = None;
        self.pending_text_focus = None;
        self.editing_title_node = None;
        self.pending_title_focus = None;
        self.title_edit_buffer = String::new();
        self.editing_startup_node = None;
        self.pending_startup_focus = None;
        self.startup_edit_buffer = String::new();
        self.editing_working_directory_node = None;
        self.pending_working_directory_focus = None;
        self.working_directory_edit_buffer = String::new();
        self.editing_decision_buttons_node = None;
        self.pending_decision_buttons_focus = None;
        self.decision_buttons_edit_rows = Vec::new();
        self.decision_color_popup = None;
        self.decision_buttons_edit_error = None;
        self.editing_decision_queue_node = None;
        self.pending_decision_queue_focus = None;
        self.decision_queue_edit_buffer = String::new();
        self.editing_edge = None;
        self.pending_edge_focus = None;
        self.edge_edit_buffer = String::new();
        assert(draft_views(self.decision_buttons_edit_rows@) =~= Seq::<DraftView>::empty());
    }
}

impl Workspace {
    /// Selects the node alone and closes the editors that open on a node's
    /// content, before one of them opens on this node.
    pub fn prepare_inline_node_edit(&mut self, node_id: usize)
        requires
            old(self).wf(),
        ensures
            final(self).wf(),
            final(self).selection.selected == Some(node_id),
            final(self).selection.selected_nodes@ == seq![node_id],
            final(self).selection.selected_edge is None,
            final(self).edit@ == inline_reset(old(self).edit@),
            graph_kept(*old(self), *final(self)),
            final(self).terminals == old(self).terminals,
            edit_frame(*old(self), *final(self)),
    {
        self.selection.set_single_selection(node_id);
        self.edit.reset_inline();
    }
}

/// The title of a terminal, decision, group or script node.
pub open spec fn title_of(d: DataView) -> Option<Seq<char>> {
    match d {
        DataView::Terminal { title, .. } => Some(title),
        DataView::Decision { title, .. } => Some(title),
        DataView::Group { title, .. } => Some(title),
        DataView::Script { title, .. } => Some(title),
        _ => None,
    }
}

/// The content with another title.
pub open spec fn with_title(d: DataView, t: Seq<char>) -> DataView {
    match d {
        DataView::Terminal { startup_script, working_directory, .. } => DataView::Terminal {
            title: t,
            startup_script,
            working_directory,
        },
        DataView::Decision { buttons, pending_message, pending_messages, .. } => DataView::Decision {
            title: t,
            buttons,
            pending_message,
            pending_messages,
        },
        DataView::Group { child_node_ids, .. } => DataView::Group { title: t, child_node_ids },
        DataView::Script { code, pending_messages, .. } => DataView::Script {
            title: t,
            code,
            pending_messages,
        },
        _ => d,
    }
}

/// The startup script of a terminal node.
pub open spec fn startup_of(d: DataView) -> Option<Seq<char>> {
    match d {
        DataView::Terminal { startup_script, .. } => Some(startup_script),
        _ => None,
    }
}

pub open spec fn with_startup(d: DataView, s: Seq<char>) -> DataView {
    match d {
        DataView::Terminal { title, working_directory, .. } => DataView::Terminal {
            title,
            startup_script: s,
            working_directory,
        },
        _ => d,
    }
}

/// The working directory of a terminal node.
pub open spec fn working_directory_of(d: DataView) -> Option<Option<Seq<char>>> {
    match d {
        DataView::Terminal { working_directory, .. } => Some(working_directory),
        _ => None,
    }
}

pub open spec fn with_working_directory(d: DataView, w: Option<Seq<char>>) -> DataView {
    match d {
        DataView::Terminal { title, startup_script, .. } => DataView::Terminal {
            title,
            startup_script,
            working_directory: w,
        },
        _ => d,
    }
}

/// The text that the working-directory editor opens with.
pub open spec fn or_empty(o: Option<Seq<char>>) -> Seq<char> {
    match o {
        Some(s) => s,
        None => Seq::empty(),
    }
}

/// A trimmed text, or `None` where it is empty.
pub open spec fn nonempty_trimmed(s: Seq<char>) -> Option<Seq<char>> {
    if trim(s).len() == 0 {
        None
    } else {
        Some(trim(s))
    }
}

/// What committing the title editor changes: the node's index and its new
/// content, where the node has a title, the trimmed text is not empty and
/// differs from the title.
pub open spec fn title_change(nodes: Seq<NodeView>, id: usize, buffer: Seq<char>) -> Option<(int, DataView)> {
    match node_index(nodes, id) {
        Some(i) => match title_of(nodes[i].data) {
            Some(t) => if trim(buffer).len() > 0 && t != trim(buffer) {
                Some((i, with_title(nodes[i].data, trim(buffer))))
            } else {
                None
            },
            None => None,
        },
        None => None,
    }
}

/// What committing the startup-script editor changes: the trimmed text
/// replaces the script of a terminal node where it differs.
pub open spec fn startup_change(nodes: Seq<NodeView>, id: usize, buffer: Seq<char>) -> Option<(int, DataView)> {
    match node_index(nodes, id) {
        Some(i) => match startup_of(nodes[i].data) {
            Some(s) => if s != trim(buffer) {
                Some((i, with_startup(nodes[i].data, trim(buffer))))
            } else {
                None
            },
            None => None,
        },
        None => None,
    }
}

/// What committing the working-directory editor changes: the trimmed text,
/// or no directory where it is empty, replaces the directory of a terminal
/// node where it differs.
pub open spec fn working_directory_change(nodes: Seq<NodeView>, id: usize, buffer: Seq<char>) -> Option<(int, DataView)> {
    match node_index(nodes, id) {
        Some(i) => match working_directory_of(nodes[i].data) {
            Some(w) => if w != nonempty_trimmed(buffer) {
                Some((i, with_working_directory(nodes[i].data, nonempty_trimmed(buffer))))
            } else {
                None
            },
            None => None,
        },
        None => None,
    }
}

/// The graph took the change, or stayed as it was where there is none.
pub open spec fn change_applied(o: Workspace, n: Workspace, c: Option<(int, DataView)>) -> bool {
    match c {
        Some((i, d)) => data_replaced(o, n, i, d),
        None => graph_kept(o, n),
    }
}

/// A terminal's shell forgotten and its start queued again, as
/// `restart_terminal_deferred` does.
pub open spec fn restarted(
    o: crate::terminal::TerminalRuntime,
    n: crate::terminal::TerminalRuntime,
    nodes: Seq<NodeView>,
    id: usize,
) -> bool {
    &&& n.running@ == o.running@.filter(id_not(id))
    &&& n.exited@ == o.exited@.filter(id_not(id))
    &&& n.errors@ == o.errors@.filter(error_key_not(id))
    &&& n.pending_starts@ == (if is_terminal_node(nodes, id) {
        o.pending_starts@.filter(id_not(id)).push(id)
    } else {
        o.pending_starts@.filter(id_not(id))
    })
    &&& n.pending_injections == o.pending_injections
    &&& n.outbox == o.outbox
}

impl NodeData {
    pub fn title(&self) -> (r: Option<String>)
        ensures
            opt_view(r) == title_of(self@),
    {
        match self {
            NodeData::Terminal { title, .. } => Some(copy_string(title)),
            NodeData::Decision { title, .. } => Some(copy_string(title)),
            NodeData::Group { title, .. } => Some(copy_string(title)),
            NodeData::Script { title, .. } => Some(copy_string(title)),
            _ => None,
        }
    }

    pub fn set_title(&mut self, t: String)
        ensures
            final(self)@ == with_title(old(self)@, t@),
    {
        match self {
            NodeData::Terminal { title, .. } => {
                *title = t;
            },
            NodeData::Decision { title, .. } => {
                *title = t;
            },
            NodeData::Group { title, .. } => {
                *title = t;
            },
            NodeData::Script { title, .. } => {
                *title = t;
            },
            _ => {},
        }
    }

    pub fn startup_script(&self) -> (r: Option<String>)
        ensures
            opt_view(r) == startup_of(self@),
    {
        match self {
            NodeData::Terminal { startup_script, .. } => Some(copy_string(startup_script)),
            _ => None,
        }
    }

    pub fn set_startup_script(&mut self, s: String)
        ensures
            final(self)@ == with_startup(old(self)@, s@),
    {
        match self {
            NodeData::Terminal { startup_script, .. } => {
                *startup_script = s;
            },
            _ => {},
        }
    }

    pub fn working_directory(&self) -> (r: Option<Option<String>>)
        ensures
            match r {
                Some(w) => working_directory_of(self@) == Some(opt_view(w)),
                None => working_directory_of(self@) is None,
            },
    {
        match self {
            NodeData::Terminal { working_directory, .. } => Some(copy_opt_string(working_directory)),
            _ => None,
        }
    }

    pub fn set_working_directory(&mut self, w: Option<String>)
        ensures
            final(self)@ == with_working_directory(old(self)@, opt_view(w)),
    {
        match self {
            NodeData::Terminal { working_directory, .. } => {
                *working_directory = w;
            },
            _ => {},
        }
    }
}

fn opt_str_eq(a: &Option<String>, b: &Option<String>) -> (r: bool)
    ensures
        r == (opt_view(*a) == opt_view(*b)),
{
    match (a, b) {
        (Some(x), Some(y)) => str_eq(x.as_str(), y.as_str()),
        (None, None) => true,
        _ => false,
    }
}

impl Workspace {
    /// Opens the title editor on a node that has a title; nothing happens
    /// for other nodes.
    pub fn start_title_edit(&mut self, node_id: usize)
        requires
            old(self).wf(),
        ensures
            final(self).wf(),
            match node_with_id(old(self).graph.nodes_v(), node_id) {
                Some(n) if title_of(n.data) is Some => {
                    &&& final(self).selection.selected == Some(node_id)
                    &&& final(self).selection.selected_nodes@ == seq![node_id]
                    &&& final(self).selection.selected_edge is None
                    &&& final(self).edit@ == (EditView {
                        editing_title_node: Some(node_id),
                        pending_title_focus: Some(node_id),
                        title_edit_buffer: title_of(n.data)->0,
                        ..inline_reset(old(self).edit@)
                    })
                    &&& graph_kept(*old(self), *final(self))
                    &&& final(self).terminals == old(self).terminals
                    &&& edit_frame(*old(self), *final(self))
                },
                _ => *final(self) == *old(self),
            },
    {
        let i = match self.graph.index_of(node_id) {
            Some(i) => i,
            None => return,
        };
        let title = match self.graph.nodes[i].data.title() {
            Some(t) => t,
            None => return,
        };
        self.prepare_inline_node_edit(node_id);
        self.edit.editing_title_node = Some(node_id);
        self.edit.pending_title_focus = Some(node_id);
        self.edit.title_edit_buffer = title;
    }

    /// Closes the title editor; the terminal's focus is held back for `node`.
    fn finish_title_edit(&mut self, node: Option<usize>)
        ensures
            final(self).edit@ == (EditView {
                editing_title_node: None,
                pending_title_focus: None,
                title_edit_buffer: Seq::empty(),
                suspend_terminal_focus: node,
                ..old(self).edit@
            }),
            final(self).graph == old(self).graph,
            final(self).selection == old(self).selection,
            final(self).terminals == old(self).terminals,
            final(self).workspace_dirty == old(self).workspace_dirty,
            final(self).automation_state_version == old(self).automation_state_version,
            edit_frame(*old(self), *final(self)),
    {
        self.edit.editing_title_node = None;
        self.edit.pending_title_focus = None;
        self.edit.title_edit_buffer = String::new();
        self.edit.suspend_terminal_focus = node;
    }

    /// Writes the trimmed title back into the node, where it is not empty
    /// and differs, and closes the editor.
    pub fn commit_title_edit(&mut self, node_id: usize)
        requires
            old(self).wf(),
        ensures
            final(self).wf(),
            change_applied(
                *old(self),
                *final(self),
                title_change(old(self).graph.nodes_v(), node_id, old(self).edit.title_edit_buffer@),
            ),
            final(self).edit@ == (EditView {
                editing_title_node: None,
                pending_title_focus: None,
                title_edit_buffer: Seq::empty(),
                suspend_terminal_focus: Some(node_id),
                ..old(self).edit@
            }),
            final(self).selection == old(self).selection,
            final(self).terminals == old(self).terminals,
            edit_frame(*old(self), *final(self)),
    {
        if let Some(i) = self.graph.index_of(node_id) {
            let trimmed = trim_str(self.edit.title_edit_buffer.as_str());
            if !trimmed.as_str().is_empty() {
                if let Some(t) = self.graph.nodes[i].data.title() {
                    if !str_eq(t.as_str(), trimmed.as_str()) {
                        let mut data = self.graph.nodes[i].data.copy();
                        data.set_title(trimmed);
                        self.graph.set_data_at(i, data);
                        self.mark_workspace_dirty();
                    }
                }
            }
        }
        self.finish_title_edit(Some(node_id));
    }

    /// Closes the title editor without writing anything back.
    pub fn cancel_title_edit(&mut self)
        ensures
            final(self).edit@ == (EditView {
                editing_title_node: None,
                pending_title_focus: None,
                title_edit_buffer: Seq::empty(),
                suspend_terminal_focus: old(self).edit.editing_title_node,
                ..old(self).edit@
            }),
            final(self).graph == old(self).graph,
            final(self).selection == old(self).selection,
            final(self).terminals == old(self).terminals,
            final(self).workspace_dirty == old(self).workspace_dirty,
            final(self).automation_state_version == old(self).automation_state_version,
            edit_frame(*old(self), *final(self)),
    {
        let node = self.edit.editing_title_node;
        self.finish_title_edit(node);
    }
}

/// The startup-script editor closed; the terminal's focus held back for `node`.
pub open spec fn startup_closed(e: EditView, node: Option<usize>) -> EditView {
    EditView {
        editing_startup_node: None,
        pending_startup_focus: None,
        startup_edit_buffer: Seq::empty(),
        suspend_terminal_focus: node,
        ..e
    }
}

/// The working-directory editor closed; the terminal's focus held back for `node`.
pub open spec fn working_directory_closed(e: EditView, node: Option<usize>) -> EditView {
    EditView {
        editing_working_directory_node: None,
        pending_working_directory_focus: None,
        working_directory_edit_buffer: Seq::empty(),
        suspend_terminal_focus: node,
        ..e
    }
}

/// The terminals after a commit: restarted where the node changed.
pub open spec fn restarted_if(o: Workspace, n: Workspace, id: usize, changed: bool) -> bool {
    if changed {
        restarted(o.terminals, n.terminals, n.graph.nodes_v(), id)
    } else {
        n.terminals == o.terminals
    }
}

impl Workspace {
    /// Opens the startup-script editor on a terminal node.
    pub fn start_startup_edit(&mut self, node_id: usize)
        requires
            old(self).wf(),
        ensures
            final(self).wf(),
            match node_with_id(old(self).graph.nodes_v(), node_id) {
                Some(n) if startup_of(n.data) is Some => {
                    &&& final(self).selection.selected == Some(node_id)
                    &&& final(self).selection.selected_nodes@ == seq![node_id]
                    &&& final(self).selection.selected_edge is None
                    &&& final(self).edit@ == (EditView {
                        editing_startup_node: Some(node_id),
                        pending_startup_focus: Some(node_id),
                        startup_edit_buffer: startup_of(n.data)->0,
                        ..inline_reset(old(self).edit@)
                    })
                    &&& graph_kept(*old(self), *final(self))
                    &&& final(self).terminals == old(self).terminals
                    &&& edit_frame(*old(self), *final(self))
                },
                _ => *final(self) == *old(self),
            },
    {
        let i = match self.graph.index_of(node_id) {
            Some(i) => i,
            None => return,
        };
        let script = match self.graph.nodes[i].data.startup_script() {
            Some(t) => t,
            None => return,
        };
        self.prepare_inline_node_edit(node_id);
        self.edit.editing_startup_node = Some(node_id);
        self.edit.pending_startup_focus = Some(node_id);
        self.edit.startup_edit_buffer = script;
    }

    /// Writes the trimmed script back into the terminal node where it
    /// differs, closes the editor and, on a change, restarts the shell.
    /// Returns whether the script changed.
    pub fn commit_startup_edit(&mut self, node_id: usize) -> (changed: bool)
        requires
            old(self).wf(),
        ensures
            final(self).wf(),
            changed == startup_change(old(self).graph.nodes_v(), node_id, old(self).edit.startup_edit_buffer@) is Some,
            change_applied(
                *old(self),
                *final(self),
                startup_change(old(self).graph.nodes_v(), node_id, old(self).edit.startup_edit_buffer@),
            ),
            restarted_if(*old(self), *final(self), node_id, changed),
            final(self).edit@ == startup_closed(old(self).edit@, Some(node_id)),
            final(self).selection == old(self).selection,
            edit_frame(*old(self), *final(self)),
    {
        let mut changed = false;
        if let Some(i) = self.graph.index_of(node_id) {
            let next = trim_str(self.edit.startup_edit_buffer.as_str());
            if let Some(cur) = self.graph.nodes[i].data.startup_script() {
                if !str_eq(cur.as_str(), next.as_str()) {
                    let mut data = self.graph.nodes[i].data.copy();
                    data.set_startup_script(next);
                    self.graph.set_data_at(i, data);
                    self.mark_workspace_dirty();
                    changed = true;
                }
            }
        }
        self.edit.editing_startup_node = None;
        self.edit.pending_startup_focus = None;
        self.edit.startup_edit_buffer = String::new();
        self.edit.suspend_terminal_focus = Some(node_id);
        if changed {
            self.restart_terminal_deferred(node_id);
        }
        changed
    }

    /// Opens the working-directory editor on a terminal node, with its
    /// directory or an empty text.
    pub fn start_working_directory_edit(&mut self, node_id: usize)
        requires
            old(self).wf(),
        ensures
            final(self).wf(),
            match node_with_id(old(self).graph.nodes_v(), node_id) {
                Some(n) if working_directory_of(n.data) is Some => {
                    &&& final(self).selection.selected == Some(node_id)
                    &&& final(self).selection.selected_nodes@ == seq![node_id]
                    &&& final(self).selection.selected_edge is None
                    &&& final(self).edit@ == (EditView {
                        editing_working_directory_node: Some(node_id),
                        pending_working_directory_focus: Some(node_id),
                        working_directory_edit_buffer: or_empty(working_directory_of(n.data)->0),
                        ..inline_reset(old(self).edit@)
                    })
                    &&& graph_kept(*old(self), *final(self))
                    &&& final(self).terminals == old(self).terminals
                    &&& edit_frame(*old(self), *final(self))
                },
                _ => *final(self) == *old(self),
            },
    {
        let i = match self.graph.index_of(node_id) {
            Some(i) => i,
            None => return,
        };
        let dir = match self.graph.nodes[i].data.working_directory() {
            Some(Some(d)) => d,
            Some(None) => String::new(),
            None => return,
        };
        self.prepare_inline_node_edit(node_id);
        self.edit.editing_working_directory_node = Some(node_id);
        self.edit.pending_working_directory_focus = Some(node_id);
        self.edit.working_directory_edit_buffer = dir;
    }

    /// Writes the trimmed directory (none where it is empty) back into the
    /// terminal node where it differs, closes the editor and, on a change,
    /// restarts the shell. Returns whether the directory changed.
    pub fn commit_working_directory_edit(&mut self, node_id: usize) -> (changed: bool)
        requires
            old(self).wf(),
        ensures
            final(self).wf(),
            changed == working_directory_change(
                old(self).graph.nodes_v(),
                node_id,
                old(self).edit.working_directory_edit_buffer@,
            ) is Some,
            change_applied(
                *old(self),
                *final(self),
                working_directory_change(
                    old(self).graph.nodes_v(),
                    node_id,
                    old(self).edit.working_directory_edit_buffer@,
                ),
            ),
            restarted_if(*old(self), *final(self), node_id, changed),
            final(self).edit@ == working_directory_closed(old(self).edit@, Some(node_id)),
            final(self).selection == old(self).selection,
            edit_frame(*old(self), *final(self)),
    {
        let mut changed = false;
        if let Some(i) = self.graph.index_of(node_id) {
            let next = trim_str(self.edit.working_directory_edit_buffer.as_str());
            let next_value = if next.as_str().is_empty() {
                None
            } else {
                Some(next)
            };
            if let Some(cur) = self.graph.nodes[i].data.working_directory() {
                if !opt_str_eq(&cur, &next_value) {
                    let mut data = self.graph.nodes[i].data.copy();
                    data.set_working_directory(next_value);
                    self.graph.set_data_at(i, data);
                    self.mark_workspace_dirty();
                    changed = true;
                }
            }
        }
        self.edit.editing_working_directory_node = None;
        self.edit.pending_working_directory_focus = None;
        self.edit.working_directory_edit_buffer = String::new();
        self.edit.suspend_terminal_focus = Some(node_id);
        if changed {
            self.restart_terminal_deferred(node_id);
        }
        changed
    }

    /// Closes the working-directory editor without writing anything back.
    pub fn cancel_working_directory_edit(&mut self)
        ensures
            final(self).edit@ == working_directory_closed(
                old(self).edit@,
                old(self).edit.editing_working_directory_node,
            ),
            final(self).graph == old(self).graph,
            final(self).selection == old(self).selection,
            final(self).terminals == old(self).terminals,
            final(self).workspace_dirty == old(self).workspace_dirty,
            final(self).automation_state_version == old(self).automation_state_version,
            edit_frame(*old(self), *final(self)),
    {
        let node = self.edit.editing_working_directory_node;
        self.edit.editing_working_directory_node = None;
        self.edit.pending_working_directory_focus = None;
        self.edit.working_directory_edit_buffer = String::new();
        self.edit.suspend_terminal_focus = node;
    }
}

/// The queue of a decision node as the text its editor opens with.
pub open spec fn decision_queue_text_of(d: DataView) -> Option<Seq<char>> {
    match d {
        DataView::Decision { pending_message, pending_messages, .. } => Some(
            join_seq(effective_queue(pending_message, pending_messages), queue_separator()),
        ),
        _ => None,
    }
}

/// The queue of a script node as the text its editor opens with.
pub open spec fn script_queue_text_of(d: DataView) -> Option<Seq<char>> {
    match d {
        DataView::Script { pending_messages, .. } => Some(join_seq(pending_messages, queue_separator())),
        _ => None,
    }
}

/// What committing the decision-queue editor changes: the queue the text
/// stands for replaces the node's queue where it differs.
pub open spec fn decision_queue_change(nodes: Seq<NodeView>, id: usize, buffer: Seq<char>) -> Option<(int, DataView)> {
    match node_index(nodes, id) {
        Some(i) => match nodes[i].data {
            DataView::Decision { pending_message, pending_messages, .. } => if effective_queue(
                pending_message,
                pending_messages,
            ) != queue_from_text(buffer) {
                Some((i, with_queue(nodes[i].data, queue_from_text(buffer))))
            } else {
                None
            },
            _ => None,
        },
        None => None,
    }
}

/// What committing the script-queue editor changes.
pub open spec fn script_queue_change(nodes: Seq<NodeView>, id: usize, buffer: Seq<char>) -> Option<(int, DataView)> {
    match node_index(nodes, id) {
        Some(i) => match nodes[i].data {
            DataView::Script { pending_messages, .. } => if pending_messages != queue_from_text(buffer) {
                Some((i, with_queue(nodes[i].data, queue_from_text(buffer))))
            } else {
                None
            },
            _ => None,
        },
        None => None,
    }
}

pub open spec fn decision_queue_closed(e: EditView) -> EditView {
    EditView {
        editing_decision_queue_node: None,
        pending_decision_queue_focus: None,
        decision_queue_edit_buffer: Seq::empty(),
        ..e
    }
}

pub open spec fn script_queue_closed(e: EditView) -> EditView {
    EditView {
        editing_script_queue_node: None,
        pending_script_queue_focus: None,
        script_queue_edit_buffer: Seq::empty(),
        ..e
    }
}

impl Workspace {
    /// Opens the queue editor on a decision node, with its queue as one text.
    pub fn start_decision_queue_edit(&mut self, node_id: usize)
        requires
            old(self).wf(),
        ensures
            final(self).wf(),
            match node_with_id(old(self).graph.nodes_v(), node_id) {
                Some(n) if decision_queue_text_of(n.data) is Some => {
                    &&& final(self).selection.selected == Some(node_id)
                    &&& final(self).selection.selected_nodes@ == seq![node_id]
                    &&& final(self).selection.selected_edge is None
                    &&& final(self).edit@ == (EditView {
                        editing_decision_queue_node: Some(node_id),
                        pending_decision_queue_focus: Some(node_id),
                        decision_queue_edit_buffer: decision_queue_text_of(n.data)->0,
                        ..inline_reset(old(self).edit@)
                    })
                    &&& graph_kept(*old(self), *final(self))
                    &&& final(self).terminals == old(self).terminals
                    &&& edit_frame(*old(self), *final(self))
                },
                _ => *final(self) == *old(self),
            },
    {
        let i = match self.graph.index_of(node_id) {
            Some(i) => i,
            None => return,
        };
        let text = match self.graph.nodes[i].data.decision_queue_text() {
            Some(t) => t,
            None => return,
        };
        self.prepare_inline_node_edit(node_id);
        self.edit.editing_decision_queue_node = Some(node_id);
        self.edit.pending_decision_queue_focus = Some(node_id);
        self.edit.decision_queue_edit_buffer = text;
    }

    /// Closes the decision-queue editor.
    pub fn cancel_decision_queue_edit(&mut self)
        ensures
            final(self).edit@ == decision_queue_closed(old(self).edit@),
            final(self).graph == old(self).graph,
            final(self).selection == old(self).selection,
            final(self).terminals == old(self).terminals,
            final(self).workspace_dirty == old(self).workspace_dirty,
            final(self).automation_state_version == old(self).automation_state_version,
            edit_frame(*old(self), *final(self)),
    {
        self.edit.editing_decision_queue_node = None;
        self.edit.pending_decision_queue_focus = None;
        self.edit.decision_queue_edit_buffer = String::new();
    }

    /// Replaces the decision node's queue by the one the edited text stands
    /// for, where it differs, and closes the editor.
    pub fn commit_decision_queue_edit(&mut self, node_id: usize)
        requires
            old(self).wf(),
        ensures
            final(self).wf(),
            change_applied(
                *old(self),
                *final(self),
                decision_queue_change(old(self).graph.nodes_v(), node_id, old(self).edit.decision_queue_edit_buffer@),
            ),
            final(self).edit@ == decision_queue_closed(old(self).edit@),
            final(self).selection == old(self).selection,
            final(self).terminals == old(self).terminals,
            edit_frame(*old(self), *final(self)),
    {
        if let Some(i) = self.graph.index_of(node_id) {
            let mut data = self.graph.nodes[i].data.copy();
            let changed = data.commit_decision_queue_text(self.edit.decision_queue_edit_buffer.as_str());
            if changed {
                self.graph.set_data_at(i, data);
                self.mark_workspace_dirty();
            }
        }
        self.cancel_decision_queue_edit();
    }

    /// Opens the queue editor of a script node, with its queue as one text
    /// (empty where the node is missing or no script node).
    pub fn start_script_queue_edit(&mut self, node_id: usize)
        requires
            old(self).wf(),
        ensures
            final(self).edit@ == (EditView {
                editing_script_queue_node: Some(node_id),
                pending_script_queue_focus: Some(node_id),
                script_queue_edit_buffer: match node_with_id(old(self).graph.nodes_v(), node_id) {
                    Some(n) => or_empty(script_queue_text_of(n.data)),
                    None => Seq::empty(),
                },
                ..old(self).edit@
            }),
            final(self).graph == old(self).graph,
            final(self).selection == old(self).selection,
            final(self).terminals == old(self).terminals,
            final(self).workspace_dirty == old(self).workspace_dirty,
            final(self).automation_state_version == old(self).automation_state_version,
            edit_frame(*old(self), *final(self)),
    {
        let text = match self.graph.index_of(node_id) {
            Some(i) => match self.graph.nodes[i].data.script_queue_text() {
                Some(t) => t,
                None => String::new(),
            },
            None => String::new(),
        };
        self.edit.editing_script_queue_node = Some(node_id);
        self.edit.pending_script_queue_focus = Some(node_id);
        self.edit.script_queue_edit_buffer = text;
    }

    /// Closes the script-queue editor.
    pub fn cancel_script_queue_edit(&mut self)
        ensures
            final(self).edit@ == script_queue_closed(old(self).edit@),
            final(self).graph == old(self).graph,
            final(self).selection == old(self).selection,
            final(self).terminals == old(self).terminals,
            final(self).workspace_dirty == old(self).workspace_dirty,
            final(self).automation_state_version == old(self).automation_state_version,
            edit_frame(*old(self), *final(self)),
    {
        self.edit.editing_script_queue_node = None;
        self.edit.pending_script_queue_focus = None;
        self.edit.script_queue_edit_buffer = String::new();
    }

    /// Replaces the script node's queue by the one the edited text stands
    /// for, where it differs, and closes the editor.
    pub fn commit_script_queue_edit(&mut self, node_id: usize)
        requires
            old(self).wf(),
        ensures
            final(self).wf(),
            change_applied(
                *old(self),
                *final(self),
                script_queue_change(old(self).graph.nodes_v(), node_id, old(self).edit.script_queue_edit_buffer@),
            ),
            final(self).edit@ == script_queue_closed(old(self).edit@),
            final(self).selection == old(self).selection,
            final(self).terminals == old(self).terminals,
            edit_frame(*old(self), *final(self)),
    {
        if let Some(i) = self.graph.index_of(node_id) {
            let mut data = self.graph.nodes[i].data.copy();
            let changed = data.commit_script_queue_text(self.edit.script_queue_edit_buffer.as_str());
            if changed {
                self.graph.set_data_at(i, data);
                self.mark_workspace_dirty();
            }
        }
        self.cancel_script_queue_edit();
    }
}

/// The code of a script node.
pub open spec fn code_of(d: DataView) -> Option<Seq<char>> {
    match d {
        DataView::Script { code, .. } => Some(code),
        _ => None,
    }
}

pub open spec fn with_code(d: DataView, c: Seq<char>) -> DataView {
    match d {
        DataView::Script { title, pending_messages, .. } => DataView::Script { title, code: c, pending_messages },
        _ => d,
    }
}

/// What writing `code` into a script node changes, where it differs.
pub open spec fn code_change(nodes: Seq<NodeView>, id: usize, code: Seq<char>) -> Option<(int, DataView)> {
    match node_index(nodes, id) {
        Some(i) => match code_of(nodes[i].data) {
            Some(c) => if c != code {
                Some((i, with_code(nodes[i].data, code)))
            } else {
                None
            },
            None => None,
        },
        None => None,
    }
}

pub open spec fn script_editor_closed(e: EditView) -> EditView {
    EditView {
        editing_script_node: None,
        pending_script_focus: None,
        script_edit_buffer: Seq::empty(),
        ..e
    }
}

/// What `start_script_edit` makes of `o`: where the node is a script node,
/// a script editor open on another node is committed first (`r` names that
/// node where its code changed), the node alone is selected and the script
/// editor opens on it with its code; `ev` is the editors' state compared.
pub open spec fn script_edit_started(o: Workspace, n: Workspace, ev: EditView, node_id: usize, r: Option<usize>) -> bool {
    match node_with_id(o.graph.nodes_v(), node_id) {
        Some(nd) if code_of(nd.data) is Some => {
            let prev = o.edit.editing_script_node;
            let change = match prev {
                Some(p) => if p != node_id {
                    code_change(o.graph.nodes_v(), p, trim(o.edit.script_edit_buffer@))
                } else {
                    None
                },
                None => None,
            };
            &&& change_applied(o, n, change)
            &&& r == (if change is Some { prev } else { None })
            &&& n.selection.selected == Some(node_id)
            &&& n.selection.selected_nodes@ == seq![node_id]
            &&& n.selection.selected_edge is None
            &&& ev == (EditView {
                editing_script_node: Some(node_id),
                pending_script_focus: Some(node_id),
                script_edit_buffer: code_of(nd.data)->0,
                ..inline_reset(o.edit@)
            })
            &&& n.terminals == o.terminals
            &&& edit_frame(o, n)
        },
        _ => n.graph == o.graph && n.selection == o.selection && ev == o.edit@ && n.terminals
            == o.terminals && n.workspace_dirty == o.workspace_dirty && n.automation_state_version
            == o.automation_state_version && r is None && edit_frame(o, n),
    }
}

impl NodeData {
    pub fn code(&self) -> (r: Option<String>)
        ensures
            opt_view(r) == code_of(self@),
    {
        match self {
            NodeData::Script { code, .. } => Some(copy_string(code)),
            _ => None,
        }
    }

    pub fn set_code(&mut self, c: String)
        ensures
            final(self)@ == with_code(old(self)@, c@),
    {
        match self {
            NodeData::Script { code, .. } => {
                *code = c;
            },
            _ => {},
        }
    }
}

impl Workspace {
    /// Writes `code` into a script node where it differs; returns whether it
    /// did (the node's script runtime is then stale).
    fn write_code(&mut self, node_id: usize, code: String) -> (changed: bool)
        requires
            old(self).wf(),
        ensures
            final(self).wf(),
            changed == code_change(old(self).graph.nodes_v(), node_id, code@) is Some,
            change_applied(*old(self), *final(self), code_change(old(self).graph.nodes_v(), node_id, code@)),
            final(self).edit == old(self).edit,
            final(self).selection == old(self).selection,
            final(self).terminals == old(self).terminals,
            edit_frame(*old(self), *final(self)),
    {
        if let Some(i) = self.graph.index_of(node_id) {
            if let Some(cur) = self.graph.nodes[i].data.code() {
                if !str_eq(cur.as_str(), code.as_str()) {
                    let mut data = self.graph.nodes[i].data.copy();
                    data.set_code(code);
                    self.graph.set_data_at(i, data);
                    self.mark_workspace_dirty();
                    return true;
                }
            }
        }
        false
    }

    /// Writes the trimmed text of the script editor into the node where it
    /// differs; returns whether it did.
    pub fn save_script_edit_buffer(&mut self, node_id: usize) -> (changed: bool)
        requires
            old(self).wf(),
        ensures
            final(self).wf(),
            changed == code_change(old(self).graph.nodes_v(), node_id, trim(old(self).edit.script_edit_buffer@)) is Some,
            change_applied(
                *old(self),
                *final(self),
                code_change(old(self).graph.nodes_v(), node_id, trim(old(self).edit.script_edit_buffer@)),
            ),
            final(self).edit == old(self).edit,
            final(self).selection == old(self).selection,
            final(self).terminals == old(self).terminals,
            edit_frame(*old(self), *final(self)),
    {
        let code = trim_str(self.edit.script_edit_buffer.as_str());
        self.write_code(node_id, code)
    }

    /// Saves the script editor's text into the node and closes the editor;
    /// returns whether the code changed.
    pub fn commit_script_edit(&mut self, node_id: usize) -> (changed: bool)
        requires
            old(self).wf(),
        ensures
            final(self).wf(),
            changed == code_change(old(self).graph.nodes_v(), node_id, trim(old(self).edit.script_edit_buffer@)) is Some,
            change_applied(
                *old(self),
                *final(self),
                code_change(old(self).graph.nodes_v(), node_id, trim(old(self).edit.script_edit_buffer@)),
            ),
            final(self).edit@ == script_editor_closed(old(self).edit@),
            final(self).selection == old(self).selection,
            final(self).terminals == old(self).terminals,
            edit_frame(*old(self), *final(self)),
    {
        let changed = self.save_script_edit_buffer(node_id);
        self.edit.editing_script_node = None;
        self.edit.pending_script_focus = None;
        self.edit.script_edit_buffer = String::new();
        changed
    }

    /// Writes a code snippet into a script node where it differs; returns
    /// whether it did.
    pub fn apply_script_snippet(&mut self, node_id: usize, code: String) -> (changed: bool)
        requires
            old(self).wf(),
        ensures
            final(self).wf(),
            changed == code_change(old(self).graph.nodes_v(), node_id, code@) is Some,
            change_applied(*old(self), *final(self), code_change(old(self).graph.nodes_v(), node_id, code@)),
            final(self).edit == old(self).edit,
            final(self).selection == old(self).selection,
            final(self).terminals == old(self).terminals,
            edit_frame(*old(self), *final(self)),
    {
        self.write_code(node_id, code)
    }

    /// Opens the script editor on a script node, committing first a script
    /// editor open on another node; returns that node where its code changed.
    pub fn start_script_edit(&mut self, node_id: usize) -> (r: Option<usize>)
        requires
            old(self).wf(),
        ensures
            final(self).wf(),
            script_edit_started(*old(self), *final(self), final(self).edit@, node_id, r),
    {
        let i = match self.graph.index_of(node_id) {
            Some(i) => i,
            None => return None,
        };
        let code = match self.graph.nodes[i].data.code() {
            Some(c) => c,
            None => return None,
        };
        let mut r: Option<usize> = None;
        if let Some(prev) = self.edit.editing_script_node {
            if prev != node_id {
                if self.commit_script_edit(prev) {
                    r = Some(prev);
                }
            }
        }
        self.prepare_inline_node_edit(node_id);
        self.edit.editing_script_node = Some(node_id);
        self.edit.pending_script_focus = Some(node_id);
        self.edit.script_edit_buffer = code;
        r
    }

    /// Opens the script editor on the node, unless it is open there, and
    /// marks the node as being debugged.
    pub fn start_script_debug(&mut self, node_id: usize) -> (r: Option<usize>)
        requires
            old(self).wf(),
        ensures
            final(self).wf(),
            final(self).edit.script_debug_node == Some(node_id),
            old(self).edit.editing_script_node == Some(node_id) ==> {
                &&& final(self).edit@ == (EditView { script_debug_node: Some(node_id), ..old(self).edit@ })
                &&& graph_kept(*old(self), *final(self))
                &&& final(self).selection == old(self).selection
                &&& final(self).terminals == old(self).terminals
                &&& edit_frame(*old(self), *final(self))
                &&& r is None
            },
            old(self).edit.editing_script_node != Some(node_id) ==> script_edit_started(
                *old(self),
                *final(self),
                EditView { script_debug_node: old(self).edit.script_debug_node, ..final(self).edit@ },
                node_id,
                r,
            ),
    {
        let mut r: Option<usize> = None;
        if self.edit.editing_script_node != Some(node_id) {
            r = self.start_script_edit(node_id);
        }
        self.edit.script_debug_node = Some(node_id);
        r
    }

    /// Stops debugging the node, where it is the one debugged.
    pub fn stop_script_debug(&mut self, node_id: usize)
        ensures
            final(self).edit@ == (EditView {
                script_debug_node: if old(self).edit.script_debug_node == Some(node_id) {
                    None
                } else {
                    old(self).edit.script_debug_node
                },
                ..old(self).edit@
            }),
            final(self).graph == old(self).graph,
            final(self).selection == old(self).selection,
            final(self).terminals == old(self).terminals,
            final(self).workspace_dirty == old(self).workspace_dirty,
            final(self).automation_state_version == old(self).automation_state_version,
            edit_frame(*old(self), *final(self)),
    {
        if self.edit.script_debug_node == Some(node_id) {
            self.edit.script_debug_node = None;
        }
    }

    /// Closes the script editor without saving; debugging of the edited
    /// node stops.
    pub fn cancel_script_edit(&mut self)
        ensures
            final(self).edit@ == (EditView {
                script_debug_node: if old(self).edit.editing_script_node is Some
                    && old(self).edit.script_debug_node == old(self).edit.editing_script_node {
                    None
                } else {
                    old(self).edit.script_debug_node
                },
                ..script_editor_closed(old(self).edit@)
            }),
            final(self).graph == old(self).graph,
            final(self).selection == old(self).selection,
            final(self).terminals == old(self).terminals,
            final(self).workspace_dirty == old(self).workspace_dirty,
            final(self).automation_state_version == old(self).automation_state_version,
            edit_frame(*old(self), *final(self)),
    {
        if let Some(n) = self.edit.editing_script_node {
            if self.edit.script_debug_node == Some(n) {
                self.edit.script_debug_node = None;
            }
        }
        self.edit.editing_script_node = None;
        self.edit.pending_script_focus = None;
        self.edit.script_edit_buffer = String::new();
    }
}

/// The route map after committing the edge editor with `buffer`: the trimmed
/// text replaces the key the edge shows (an empty text removes it), where
/// they differ.
pub open spec fn edge_route_change(
    m: Map<(usize, usize), Seq<char>>,
    e: (usize, usize),
    buffer: Seq<char>,
) -> Option<Map<(usize, usize), Seq<char>>> {
    if or_empty(shown_route(m, e.0, e.1)) != trim(buffer) {
        Some(
            if trim(buffer).len() == 0 {
                m.remove(e)
            } else {
                m.insert(e, trim(buffer))
            },
        )
    } else {
        None
    }
}

pub open spec fn edge_editor_closed(e: EditView) -> EditView {
    EditView { editing_edge: None, pending_edge_focus: None, edge_edit_buffer: Seq::empty(), ..e }
}

impl Workspace {
    /// Opens the route-key editor on an existing edge: the node editors
    /// close, the edge alone is selected and the editor holds its key.
    pub fn start_edge_edit(&mut self, edge: (usize, usize))
        requires
            old(self).wf(),
        ensures
            final(self).wf(),
            old(self).graph.edges@.contains(edge) ==> {
                &&& final(self).selection.selected is None
                &&& final(self).selection.selected_nodes@.len() == 0
                &&& final(self).selection.selected_edge == Some(edge)
                &&& final(self).edit@ == (EditView {
                    editing_edge: Some(edge),
                    pending_edge_focus: Some(edge),
                    edge_edit_buffer: or_empty(shown_route(old(self).graph.routes(), edge.0, edge.1)),
                    ..inline_reset(old(self).edit@)
                })
                &&& graph_kept(*old(self), *final(self))
                &&& final(self).terminals == old(self).terminals
                &&& edit_frame(*old(self), *final(self))
            },
            !old(self).graph.edges@.contains(edge) ==> *final(self) == *old(self),
    {
        if !self.graph.has_edge(edge.0, edge.1) {
            return;
        }
        let key = match self.graph.edge_route_key(edge.0, edge.1) {
            Some(k) => k,
            None => String::new(),
        };
        self.edit.reset_inline();
        self.set_edge_selection(edge);
        self.edit.editing_edge = Some(edge);
        self.edit.pending_edge_focus = Some(edge);
        self.edit.edge_edit_buffer = key;
    }

    /// Closes the route-key editor.
    pub fn cancel_edge_edit(&mut self)
        ensures
            final(self).edit@ == edge_editor_closed(old(self).edit@),
            final(self).graph == old(self).graph,
            final(self).selection == old(self).selection,
            final(self).terminals == old(self).terminals,
            final(self).workspace_dirty == old(self).workspace_dirty,
            final(self).automation_state_version == old(self).automation_state_version,
            edit_frame(*old(self), *final(self)),
    {
        self.edit.editing_edge = None;
        self.edit.pending_edge_focus = None;
        self.edit.edge_edit_buffer = String::new();
    }

    /// Writes the trimmed route key back to the edited edge where it differs
    /// from the key it shows (an empty key removes it) and closes the
    /// editor; nothing is written where the edge is gone.
    pub fn commit_edge_edit(&mut self)
        requires
            old(self).wf(),
        ensures
            final(self).wf(),
            match old(self).edit.editing_edge {
                None => *final(self) == *old(self),
                Some(e) => {
                    &&& final(self).edit@ == edge_editor_closed(old(self).edit@)
                    &&& final(self).selection == old(self).selection
                    &&& final(self).terminals == old(self).terminals
                    &&& edit_frame(*old(self), *final(self))
                    &&& match (if old(self).graph.edges@.contains(e) {
                        edge_route_change(old(self).graph.routes(), e, old(self).edit.edge_edit_buffer@)
                    } else {
                        None
                    }) {
                        Some(m) => {
                            &&& final(self).graph.routes() == m
                            &&& final(self).graph.nodes == old(self).graph.nodes
                            &&& final(self).graph.edges == old(self).graph.edges
                            &&& final(self).graph.next_node_id == old(self).graph.next_node_id
                            &&& final(self).workspace_dirty
                            &&& final(self).automation_state_version == bumped(old(self).automation_state_version)
                        },
                        None => graph_kept(*old(self), *final(self)),
                    }
                },
            },
    {
        let (from, to) = match self.edit.editing_edge {
            Some(e) => e,
            None => return,
        };
        if !self.graph.has_edge(from, to) {
            self.cancel_edge_edit();
            return;
        }
        let prev = match self.graph.edge_route_key(from, to) {
            Some(k) => k,
            None => String::new(),
        };
        let next = trim_str(self.edit.edge_edit_buffer.as_str());
        if !str_eq(prev.as_str(), next.as_str()) {
            self.graph.set_edge_route_key(from, to, self.edit.edge_edit_buffer.as_str());
            self.mark_workspace_dirty();
        }
        self.cancel_edge_edit();
    }
}

} // verus!
