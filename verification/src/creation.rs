//! Creating nodes.
use crate::history::{EntryView, HistoryEntry};
use crate::ids::{local_time_text, new_uid};
use crate::model::{button_views, Coord, DataView, DecisionButton, Node, NodeData, NodeKind, NodeView, node_views};
use crate::text::{owned, views};
use crate::workspace::{bumped, has_node_id, Workspace};
use vstd::prelude::*;

verus! {

/// The size of a new terminal node: 840 × 660.
pub open spec fn terminal_size() -> Coord {
    Coord { x_bits: 0x4452_0000, y_bits: 0x4425_0000 }
}

/// The size of a new text node: 260 × 140.
pub open spec fn text_size() -> Coord {
    Coord { x_bits: 0x4382_0000, y_bits: 0x430c_0000 }
}

/// The size of a new decision node, and of an image node whose image has no
/// known size: 320 × 220.
pub open spec fn decision_size() -> Coord {
    Coord { x_bits: 0x43a0_0000, y_bits: 0x435c_0000 }
}

pub fn terminal_node_size() -> (r: Coord)
    ensures
        r == terminal_size(),
{
    Coord { x_bits: 0x4452_0000, y_bits: 0x4425_0000 }
}

pub fn text_node_size() -> (r: Coord)
    ensures
        r == text_size(),
{
    Coord { x_bits: 0x4382_0000, y_bits: 0x430c_0000 }
}

pub fn decision_node_size() -> (r: Coord)
    ensures
        r == decision_size(),
{
    Coord { x_bits: 0x43a0_0000, y_bits: 0x435c_0000 }
}

pub open spec fn terminal_title() -> Seq<char> {
    seq!['T', 'e', 'r', 'm', 'i', 'n', 'a', 'l']
}

pub open spec fn decision_title() -> Seq<char> {
    seq!['D', 'e', 'c', 'i', 's', 'i', 'o', 'n']
}

/// The two buttons of a new decision node: approve and reject.
pub open spec fn default_decision_buttons() -> Seq<crate::model::ButtonView> {
    seq![
        crate::model::ButtonView {
            label: seq!['通', '过'],
            event_key: seq!['a', 'p', 'p', 'r', 'o', 'v', 'e'],
            color_rgb: Some([212u8, 244u8, 226u8]),
        },
        crate::model::ButtonView {
            label: seq!['驳', '回'],
            event_key: seq!['r', 'e', 'j', 'e', 'c', 't'],
            color_rgb: Some([248u8, 208u8, 208u8]),
        },
    ]
}

fn default_buttons() -> (r: Vec<DecisionButton>)
    ensures
        button_views(r@) == default_decision_buttons(),
{
    proof {
        reveal_strlit("通过");
        reveal_strlit("approve");
        reveal_strlit("驳回");
        reveal_strlit("reject");
        assert("通过"@ =~= seq!['通', '过']);
        assert("approve"@ =~= seq!['a', 'p', 'p', 'r', 'o', 'v', 'e']);
        assert("驳回"@ =~= seq!['驳', '回']);
        assert("reject"@ =~= seq!['r', 'e', 'j', 'e', 'c', 't']);
    }
    let mut v: Vec<DecisionButton> = Vec::new();
    v.push(
        DecisionButton {
            label: owned("通过"),
            event_key: owned("approve"),
            color_rgb: Some([212, 244, 226]),
        },
    );
    v.push(
        DecisionButton {
            label: owned("驳回"),
            event_key: owned("reject"),
            color_rgb: Some([248, 208, 208]),
        },
    );
    assert(button_views(v@) =~= default_decision_buttons());
    v
}

/// A new node's content, by kind: a terminal called "Terminal", an empty
/// text, an image without a path, a decision with the two default buttons.
pub open spec fn base_data(kind: NodeKind, d: DataView) -> bool {
    match kind {
        NodeKind::Terminal => d == DataView::Terminal {
            title: terminal_title(),
            startup_script: Seq::empty(),
            working_directory: None,
        },
        NodeKind::Text => d == DataView::Text { text_body: Seq::empty(), auto_size: false },
        NodeKind::Image => d == DataView::Image { image_path: Seq::empty() },
        NodeKind::Decision => d == DataView::Decision {
            title: decision_title(),
            buttons: default_decision_buttons(),
            pending_message: None,
            pending_messages: Seq::empty(),
        },
        _ => false,
    }
}

/// The state after a node with view `n` was added and selected.
pub open spec fn added_and_selected(old: Workspace, new: Workspace, n: NodeView) -> bool {
    &&& new.wf()
    &&& new.graph.nodes_v() == old.graph.nodes_v().push(n)
    &&& new.graph.edges == old.graph.edges
    &&& new.graph.edge_route_keys == old.graph.edge_route_keys
    &&& new.selection.selected == Some(n.id)
    &&& new.selection.selected_nodes@ == seq![n.id]
    &&& new.selection.selected_edge is None
    &&& new.history.undo_v() == old.history.undo_v().push(EntryView::CreateBatch { nodes: seq![n] })
    &&& new.history.redo_v().len() == 0
    &&& new.workspace_dirty
    &&& new.automation_state_version == bumped(bumped(old.automation_state_version))
}

impl Workspace {
    /// A new node of the given kind with a fresh id and uid.
    pub fn new_base_node(&mut self, kind: NodeKind, pos: Coord, size: Coord) -> (r: Node)
        requires
            old(self).wf(),
            old(self).graph.next_node_id < usize::MAX,
            kind == NodeKind::Terminal || kind == NodeKind::Text || kind == NodeKind::Image
                || kind == NodeKind::Decision,
        ensures
            final(self).wf(),
            r.id == old(self).graph.next_node_id,
            final(self).graph.next_node_id == old(self).graph.next_node_id + 1,
            final(self).graph.nodes == old(self).graph.nodes,
            final(self).graph.edges == old(self).graph.edges,
            final(self).graph.edge_route_keys == old(self).graph.edge_route_keys,
            final(self).selection == old(self).selection,
            final(self).history == old(self).history,
            final(self).workspace_dirty == old(self).workspace_dirty,
            final(self).automation_state_version == old(self).automation_state_version,
            final(self).edit == old(self).edit,
            final(self).terminals == old(self).terminals,
            final(self).ui == old(self).ui,
            Workspace::same_meta(*old(self), *final(self)),
            r.uid@.len() == 36,
            r.kind == kind,
            base_data(kind, r.data@),
            r.pos == pos,
            r.size == size,
    {
        proof {
            reveal_strlit("Terminal");
            reveal_strlit("Decision");
            assert("Terminal"@ =~= terminal_title());
            assert("Decision"@ =~= decision_title());
        }
        let data = match kind {
            NodeKind::Terminal => NodeData::Terminal {
                title: owned("Terminal"),
                startup_script: String::new(),
                working_directory: None,
            },
            NodeKind::Text => NodeData::Text { text_body: String::new(), auto_size: false },
            NodeKind::Image => NodeData::Image { image_path: String::new() },
            _ => {
                let pms: Vec<String> = Vec::new();
                assert(views(pms@) =~= Seq::<Seq<char>>::empty());
                NodeData::Decision {
                    title: owned("Decision"),
                    buttons: default_buttons(),
                    pending_message: None,
                    pending_messages: pms,
                }
            },
        };
        let id = self.graph.alloc_node_id();
        proof {
            crate::history::lemma_ids_below_mono(self.history, old(self).graph.next_node_id as int, self.graph.next_node_id as int);
        }
        Node { id, uid: new_uid(), kind, data, pos, size }
    }

    /// Adds a node, records its creation and selects it.
    pub fn push_node_and_select(&mut self, node: Node) -> (id: usize)
        requires
            old(self).wf(),
            !has_node_id(old(self).graph.nodes@, node.id),
            node.id < old(self).graph.next_node_id,
        ensures
            id == node.id,
            added_and_selected(*old(self), *final(self), node@),
            final(self).graph.next_node_id == old(self).graph.next_node_id,
            final(self).edit == old(self).edit,
            final(self).terminals == old(self).terminals,
            final(self).ui == old(self).ui,
            Workspace::same_meta(*old(self), *final(self)),
    {
        let id = node.id;
        let ghost nv = node@;
        let mut batch: Vec<Node> = Vec::new();
        batch.push(node.copy());
        assert(node_views(batch@) =~= seq![nv]);
        self.push_history(HistoryEntry::CreateBatch { nodes: batch });
        let ghost before = self.graph.nodes@;
        self.graph.nodes.push(node);
        proof {
            assert(node_views(self.graph.nodes@) =~= node_views(before).push(nv));
            assert forall|i: int, j: int| 0 <= i < j < self.graph.nodes@.len() implies #[trigger] self.graph.nodes@[i].id
                != #[trigger] self.graph.nodes@[j].id by {
                if j == before.len() {
                    assert(self.graph.nodes@[i] == before[i]);
                } else {
                    assert(before[i].id != before[j].id);
                }
            }
            assert forall|i: int| 0 <= i < self.graph.nodes@.len() implies #[trigger] self.graph.nodes@[i].id < self.graph.next_node_id by {
                if i < before.len() {
                    assert(self.graph.nodes@[i] == before[i]);
                }
            }
        }
        self.selection.set_single_selection(id);
        self.mark_workspace_dirty();
        id
    }

    /// Adds a terminal node at `pos` and selects it.
    pub fn create_terminal_node(&mut self, pos: Coord) -> (id: usize)
        requires
            old(self).wf(),
            old(self).graph.next_node_id < usize::MAX,
        ensures
            id == old(self).graph.next_node_id,
            final(self).graph.next_node_id == old(self).graph.next_node_id + 1,
            exists|n: NodeView|
                #![trigger added_and_selected(*old(self), *final(self), n)]
                n.id == id && n.kind == NodeKind::Terminal && base_data(NodeKind::Terminal, n.data)
                    && n.pos == pos && n.size == terminal_size() && n.uid.len() == 36
                    && added_and_selected(*old(self), *final(self), n),
    {
        let node = self.new_base_node(NodeKind::Terminal, pos, terminal_node_size());
        let ghost nv = node@;
        let id = self.push_node_and_select(node);
        assert(added_and_selected(*old(self), *self, nv));
        id
    }

    /// Adds a decision node at `pos` and selects it.
    pub fn create_decision_node(&mut self, pos: Coord) -> (id: usize)
        requires
            old(self).wf(),
            old(self).graph.next_node_id < usize::MAX,
        ensures
            id == old(self).graph.next_node_id,
            final(self).graph.next_node_id == old(self).graph.next_node_id + 1,
            exists|n: NodeView|
                #![trigger added_and_selected(*old(self), *final(self), n)]
                n.id == id && n.kind == NodeKind::Decision && base_data(NodeKind::Decision, n.data)
                    && n.pos == pos && n.size == decision_size() && n.uid.len() == 36
                    && added_and_selected(*old(self), *final(self), n),
    {
        let node = self.new_base_node(NodeKind::Decision, pos, decision_node_size());
        let ghost nv = node@;
        let id = self.push_node_and_select(node);
        assert(added_and_selected(*old(self), *self, nv));
        id
    }

    /// Adds a text node at `pos` whose text is the local time, selects it and,
    /// when `edit_now`, opens its editor.
    pub fn create_text_node(&mut self, pos: Coord, edit_now: bool) -> (id: usize)
        requires
            old(self).wf(),
            old(self).graph.next_node_id < usize::MAX,
        ensures
            id == old(self).graph.next_node_id,
            final(self).graph.next_node_id == old(self).graph.next_node_id + 1,
            exists|n: NodeView|
                #![trigger added_and_selected(*old(self), *final(self), n)]
                n.id == id && n.kind == NodeKind::Text && (n.data matches DataView::Text {
                    auto_size,
                    ..
                } && !auto_size) && n.pos == pos && n.size == text_size() && n.uid.len() == 36
                    && added_and_selected(*old(self), *final(self), n),
            edit_now ==> final(self).edit.editing_text_node == Some(id)
                && final(self).edit.pending_text_focus == Some(id),
            !edit_now ==> final(self).edit == old(self).edit,
    {
        let mut node = self.new_base_node(NodeKind::Text, pos, text_node_size());
        node.data = NodeData::Text { text_body: local_time_text(), auto_size: false };
        let ghost nv = node@;
        let id = self.push_node_and_select(node);
        assert(added_and_selected(*old(self), *self, nv));
        if edit_now {
            self.edit.editing_text_node = Some(id);
            self.edit.pending_text_focus = Some(id);
        }
        assert(added_and_selected(*old(self), *self, nv));
        id
    }

    /// Adds an image node at `pos` showing the image at `image_path`, with the
    /// size the caller read from the image, and selects it.
    pub fn create_image_node_from_path(&mut self, pos: Coord, size: Coord, image_path: String) -> (id: usize)
        requires
            old(self).wf(),
            old(self).graph.next_node_id < usize::MAX,
        ensures
            id == old(self).graph.next_node_id,
            final(self).graph.next_node_id == old(self).graph.next_node_id + 1,
            exists|n: NodeView|
                #![trigger added_and_selected(*old(self), *final(self), n)]
                n.id == id && n.kind == NodeKind::Image && n.data == (DataView::Image {
                    image_path: image_path@,
                }) && n.pos == pos && n.size == size && n.uid.len() == 36
                    && added_and_selected(*old(self), *final(self), n),
    {
        let mut node = self.new_base_node(NodeKind::Image, pos, size);
        node.data = NodeData::Image { image_path };
        let ghost nv = node@;
        let id = self.push_node_and_select(node);
        assert(added_and_selected(*old(self), *self, nv));
        id
    }
}

impl Workspace {
    /// The create menu: 0 adds a terminal node, 1 a text node with its
    /// editor open, 2 a decision node, each at `pos`; anything else does
    /// nothing.
    pub fn run_create_action(&mut self, action_id: usize, pos: Coord)
        requires
            old(self).wf(),
            old(self).graph.next_node_id < usize::MAX,
        ensures
            final(self).wf(),
            action_id == 0 ==> exists|n: NodeView|
                #![trigger added_and_selected(*old(self), *final(self), n)]
                n.id == old(self).graph.next_node_id && n.kind == NodeKind::Terminal && base_data(NodeKind::Terminal, n.data)
                    && n.pos == pos && n.size == terminal_size() && added_and_selected(*old(self), *final(self), n),
            action_id == 1 ==> (exists|n: NodeView|
                #![trigger added_and_selected(*old(self), *final(self), n)]
                n.id == old(self).graph.next_node_id && n.kind == NodeKind::Text && n.pos == pos && n.size == text_size()
                    && added_and_selected(*old(self), *final(self), n))
                && final(self).edit.editing_text_node == Some(old(self).graph.next_node_id),
            action_id == 2 ==> exists|n: NodeView|
                #![trigger added_and_selected(*old(self), *final(self), n)]
                n.id == old(self).graph.next_node_id && n.kind == NodeKind::Decision && base_data(NodeKind::Decision, n.data)
                    && n.pos == pos && n.size == decision_size() && added_and_selected(*old(self), *final(self), n),
            action_id > 2 ==> *final(self) == *old(self),
    {
        if action_id == 0 {
            self.create_terminal_node(pos);
        } else if action_id == 1 {
            self.create_text_node(pos, true);
        } else if action_id == 2 {
            self.create_decision_node(pos);
        }
    }
}

} // verus!
