use crate::text::{copy_string, views};
use vstd::prelude::*;

verus! {

/// The kind of a canvas node.
#[derive(Debug, Clone, Copy, PartialEq, Eq, Structural)]
pub enum NodeKind {
    Terminal,
    Text,
    Image,
    Decision,
    Group,
    Script,
}

/// Text nodes are created without automatic sizing.
pub fn default_text_autosize() -> (r: bool)
    ensures
        r == false,
{
    false
}

/// A point or an extent on the canvas, held as the bit patterns of its two
/// `f32` coordinates. The model carries geometry without interpreting it.
#[derive(Debug, Clone, Copy, PartialEq, Eq, Structural)]
pub struct Coord {
    pub x_bits: u32,
    pub y_bits: u32,
}

/// A button of a decision node: its label, the route key it forwards along,
/// and an optional colour.
#[derive(Debug, Clone)]
pub struct DecisionButton {
    pub label: String,
    pub event_key: String,
    pub color_rgb: Option<[u8; 3]>,
}

pub struct ButtonView {
    pub label: Seq<char>,
    pub event_key: Seq<char>,
    pub color_rgb: Option<[u8; 3]>,
}

impl View for DecisionButton {
    type V = ButtonView;

    open spec fn view(&self) -> ButtonView {
        ButtonView { label: self.label@, event_key: self.event_key@, color_rgb: self.color_rgb }
    }
}

pub open spec fn opt_view(o: Option<String>) -> Option<Seq<char>> {
    match o {
        Some(s) => Some(s@),
        None => None,
    }
}

pub open spec fn button_views(v: Seq<DecisionButton>) -> Seq<ButtonView> {
    v.map_values(|b: DecisionButton| b@)
}

/// The content of a node, by kind.
#[derive(Debug, Clone)]
pub enum NodeData {
    Terminal { title: String, startup_script: String, working_directory: Option<String> },
    Text { text_body: String, auto_size: bool },
    Image { image_path: String },
    Decision {
        title: String,
        buttons: Vec<DecisionButton>,
        pending_message: Option<String>,
        pending_messages: Vec<String>,
    },
    Group { title: String, child_node_ids: Vec<usize> },
    Script { title: String, code: String, pending_messages: Vec<String> },
}

pub enum DataView {
    Terminal { title: Seq<char>, startup_script: Seq<char>, working_directory: Option<Seq<char>> },
    Text { text_body: Seq<char>, auto_size: bool },
    Image { image_path: Seq<char> },
    Decision {
        title: Seq<char>,
        buttons: Seq<ButtonView>,
        pending_message: Option<Seq<char>>,
        pending_messages: Seq<Seq<char>>,
    },
    Group { title: Seq<char>, child_node_ids: Seq<usize> },
    Script { title: Seq<char>, code: Seq<char>, pending_messages: Seq<Seq<char>> },
}

impl View for NodeData {
    type V = DataView;

    open spec fn view(&self) -> DataView {
        match self {
            NodeData::Terminal { title, startup_script, working_directory } => DataView::Terminal {
                title: title@,
                startup_script: startup_script@,
                working_directory: opt_view(*working_directory),
            },
            NodeData::Text { text_body, auto_size } => DataView::Text {
                text_body: text_body@,
                auto_size: *auto_size,
            },
            NodeData::Image { image_path } => DataView::Image { image_path: image_path@ },
            NodeData::Decision { title, buttons, pending_message, pending_messages } =>
                DataView::Decision {
                title: title@,
                buttons: button_views(buttons@),
                pending_message: opt_view(*pending_message),
                pending_messages: views(pending_messages@),
            },
            NodeData::Group { title, child_node_ids } => DataView::Group {
                title: title@,
                child_node_ids: child_node_ids@,
            },
            NodeData::Script { title, code, pending_messages } => DataView::Script {
                title: title@,
                code: code@,
                pending_messages: views(pending_messages@),
            },
        }
    }
}

/// The kind that a node's content belongs to.
pub open spec fn data_kind(d: DataView) -> NodeKind {
    match d {
        DataView::Terminal { .. } => NodeKind::Terminal,
        DataView::Text { .. } => NodeKind::Text,
        DataView::Image { .. } => NodeKind::Image,
        DataView::Decision { .. } => NodeKind::Decision,
        DataView::Group { .. } => NodeKind::Group,
        DataView::Script { .. } => NodeKind::Script,
    }
}

/// A node on the canvas.
#[derive(Debug, Clone)]
pub struct Node {
    pub id: usize,
    pub uid: String,
    pub kind: NodeKind,
    pub data: NodeData,
    pub pos: Coord,
    pub size: Coord,
}

pub struct NodeView {
    pub id: usize,
    pub uid: Seq<char>,
    pub kind: NodeKind,
    pub data: DataView,
    pub pos: Coord,
    pub size: Coord,
}

impl View for Node {
    type V = NodeView;

    open spec fn view(&self) -> NodeView {
        NodeView {
            id: self.id,
            uid: self.uid@,
            kind: self.kind,
            data: self.data@,
            pos: self.pos,
            size: self.size,
        }
    }
}

pub open spec fn node_views(v: Seq<Node>) -> Seq<NodeView> {
    v.map_values(|n: Node| n@)
}

/// A node's kind agrees with its content.
pub open spec fn kind_matches(kind: NodeKind, d: DataView) -> bool {
    data_kind(d) == kind
}

pub fn kind_matches_data(kind: &NodeKind, data: &NodeData) -> (r: bool)
    ensures
        r == kind_matches(*kind, data@),
{
    match (kind, data) {
        (NodeKind::Terminal, NodeData::Terminal { .. }) => true,
        (NodeKind::Text, NodeData::Text { .. }) => true,
        (NodeKind::Image, NodeData::Image { .. }) => true,
        (NodeKind::Decision, NodeData::Decision { .. }) => true,
        (NodeKind::Group, NodeData::Group { .. }) => true,
        (NodeKind::Script, NodeData::Script { .. }) => true,
        _ => false,
    }
}

// ---------------------------------------------------------------------------
// Copies with known content
// ---------------------------------------------------------------------------

pub fn copy_opt_string(o: &Option<String>) -> (r: Option<String>)
    ensures
        opt_view(r) == opt_view(*o),
{
    match o {
        Some(s) => Some(copy_string(s)),
        None => None,
    }
}

pub fn copy_strings(v: &Vec<String>) -> (r: Vec<String>)
    ensures
        views(r@) == views(v@),
{
    let mut out: Vec<String> = Vec::new();
    let mut i: usize = 0;
    while i < v.len()
        invariant
            i <= v@.len(),
            out@.len() == i,
            forall|j: int| 0 <= j < i ==> #[trigger] out@[j]@ == v@[j]@,
        decreases v@.len() - i,
    {
        out.push(copy_string(&v[i]));
        i = i + 1;
    }
    assert(views(out@) =~= views(v@));
    out
}

pub fn copy_ids(v: &Vec<usize>) -> (r: Vec<usize>)
    ensures
        r@ == v@,
{
    let mut out: Vec<usize> = Vec::new();
    let mut i: usize = 0;
    while i < v.len()
        invariant
            i <= v@.len(),
            out@ == v@.subrange(0, i as int),
        decreases v@.len() - i,
    {
        out.push(v[i]);
        i = i + 1;
        assert(out@ =~= v@.subrange(0, i as int));
    }
    assert(v@.subrange(0, i as int) =~= v@);
    out
}

impl DecisionButton {
    pub fn copy(&self) -> (r: DecisionButton)
        ensures
            r@ == self@,
    {
        DecisionButton {
            label: copy_string(&self.label),
            event_key: copy_string(&self.event_key),
            color_rgb: self.color_rgb,
        }
    }
}

pub fn copy_buttons(v: &Vec<DecisionButton>) -> (r: Vec<DecisionButton>)
    ensures
        button_views(r@) == button_views(v@),
{
    let mut out: Vec<DecisionButton> = Vec::new();
    let mut i: usize = 0;
    while i < v.len()
        invariant
            i <= v@.len(),
            out@.len() == i,
            forall|j: int| 0 <= j < i ==> #[trigger] out@[j]@ == v@[j]@,
        decreases v@.len() - i,
    {
        out.push(v[i].copy());
        i = i + 1;
    }
    assert(button_views(out@) =~= button_views(v@));
    out
}

impl NodeData {
    pub fn copy(&self) -> (r: NodeData)
        ensures
            r@ == self@,
    {
        match self {
            NodeData::Terminal { title, startup_script, working_directory } => NodeData::Terminal {
                title: copy_string(title),
                startup_script: copy_string(startup_script),
                working_directory: copy_opt_string(working_directory),
            },
            NodeData::Text { text_body, auto_size } => NodeData::Text {
                text_body: copy_string(text_body),
                auto_size: *auto_size,
            },
            NodeData::Image { image_path } => NodeData::Image { image_path: copy_string(image_path) },
            NodeData::Decision { title, buttons, pending_message, pending_messages } =>
                NodeData::Decision {
                title: copy_string(title),
                buttons: copy_buttons(buttons),
                pending_message: copy_opt_string(pending_message),
                pending_messages: copy_strings(pending_messages),
            },
            NodeData::Group { title, child_node_ids } => NodeData::Group {
                title: copy_string(title),
                child_node_ids: copy_ids(child_node_ids),
            },
            NodeData::Script { title, code, pending_messages } => NodeData::Script {
                title: copy_string(title),
                code: copy_string(code),
                pending_messages: copy_strings(pending_messages),
            },
        }
    }
}

impl Node {
    pub fn copy(&self) -> (r: Node)
        ensures
            r@ == self@,
    {
        Node {
            id: self.id,
            uid: copy_string(&self.uid),
            kind: self.kind,
            data: self.data.copy(),
            pos: self.pos,
            size: self.size,
        }
    }
}

pub fn copy_nodes(v: &Vec<Node>) -> (r: Vec<Node>)
    ensures
        node_views(r@) == node_views(v@),
{
    let mut out: Vec<Node> = Vec::new();
    let mut i: usize = 0;
    while i < v.len()
        invariant
            i <= v@.len(),
            out@.len() == i,
            forall|j: int| 0 <= j < i ==> #[trigger] out@[j]@ == v@[j]@,
        decreases v@.len() - i,
    {
        out.push(v[i].copy());
        i = i + 1;
    }
    assert(node_views(out@) =~= node_views(v@));
    out
}

} // verus!
