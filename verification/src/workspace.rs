//! The state of one canvas workspace: its nodes, edges, route keys,
//! selection and the counters that the automation protocol reports.
use crate::history::History;
use crate::model::{node_views, Node, NodeView};
use crate::notifications::ToastNotification;
use crate::protocol::AutomationResponse;
use crate::terminal::TerminalRuntime;
use crate::text::trim;
use vstd::prelude::*;

verus! {

/// The route key of one edge.
pub struct RouteKey {
    pub from: usize,
    pub to: usize,
    pub key: String,
}

/// The saved key-value state of one script node.
pub struct ScriptState {
    pub node_id: usize,
    pub state: Vec<(String, String)>,
}

pub open spec fn pair_views(s: Seq<(String, String)>) -> Seq<(Seq<char>, Seq<char>)> {
    s.map_values(|p: (String, String)| (p.0@, p.1@))
}

pub open spec fn script_views(s: Seq<ScriptState>) -> Seq<(usize, Seq<(Seq<char>, Seq<char>)>)> {
    s.map_values(|e: ScriptState| (e.node_id, pair_views(e.state@)))
}

/// The script states as a map from node ids; a later entry for a node wins.
pub open spec fn script_state_map(s: Seq<(usize, Seq<(Seq<char>, Seq<char>)>)>) -> Map<
    usize,
    Seq<(Seq<char>, Seq<char>)>,
>
    decreases s.len(),
{
    if s.len() == 0 {
        Map::empty()
    } else {
        script_state_map(s.drop_last()).insert(s.last().0, s.last().1)
    }
}

/// A copy of a list of key-value pairs.
pub fn copy_pairs(v: &Vec<(String, String)>) -> (r: Vec<(String, String)>)
    ensures
        pair_views(r@) == pair_views(v@),
{
    let mut out: Vec<(String, String)> = Vec::new();
    let mut i: usize = 0;
    while i < v.len()
        invariant
            i <= v@.len(),
            pair_views(out@) == pair_views(v@.subrange(0, i as int)),
        decreases v@.len() - i,
    {
        let ghost before = out@;
        out.push((crate::text::copy_string(&v[i].0), crate::text::copy_string(&v[i].1)));
        assert(pair_views(out@) =~= pair_views(before).push((v@[i as int].0@, v@[i as int].1@)));
        assert(pair_views(v@.subrange(0, i + 1)) =~= pair_views(v@.subrange(0, i as int)).push(
            (v@[i as int].0@, v@[i as int].1@),
        ));
        i = i + 1;
    }
    assert(v@.subrange(0, i as int) =~= v@);
    out
}

/// A copy of a list of script states.
pub fn copy_script_states(v: &Vec<ScriptState>) -> (r: Vec<ScriptState>)
    ensures
        script_views(r@) == script_views(v@),
{
    let mut out: Vec<ScriptState> = Vec::new();
    let mut i: usize = 0;
    while i < v.len()
        invariant
            i <= v@.len(),
            script_views(out@) == script_views(v@.subrange(0, i as int)),
        decreases v@.len() - i,
    {
        let ghost before = out@;
        let e = ScriptState { node_id: v[i].node_id, state: copy_pairs(&v[i].state) };
        out.push(e);
        assert(script_views(out@) =~= script_views(before).push(
            (v@[i as int].node_id, pair_views(v@[i as int].state@)),
        ));
        assert(script_views(v@.subrange(0, i + 1)) =~= script_views(v@.subrange(0, i as int)).push(
            (v@[i as int].node_id, pair_views(v@[i as int].state@)),
        ));
        i = i + 1;
    }
    assert(v@.subrange(0, i as int) =~= v@);
    out
}

/// The route keys as a map from edges to keys.
pub open spec fn route_map(s: Seq<RouteKey>) -> Map<(usize, usize), Seq<char>>
    decreases s.len(),
{
    if s.len() == 0 {
        Map::empty()
    } else {
        route_map(s.drop_last()).insert((s.last().from, s.last().to), s.last().key@)
    }
}

pub open spec fn unique_routes(s: Seq<RouteKey>) -> bool {
    forall|i: int, j: int|
        0 <= i < j < s.len() ==> (#[trigger] s[i].from, s[i].to) != (#[trigger] s[j].from, s[j].to)
}

pub proof fn lemma_route_map(s: Seq<RouteKey>)
    requires
        unique_routes(s),
    ensures
        forall|k: (usize, usize)|
            #[trigger] route_map(s).contains_key(k) <==> exists|i: int|
                0 <= i < s.len() && (s[i].from, s[i].to) == k,
        forall|i: int|
            0 <= i < s.len() ==> #[trigger] route_map(s)[(s[i].from, s[i].to)] == s[i].key@,
    decreases s.len(),
{
    if s.len() > 0 {
        let t = s.drop_last();
        assert(unique_routes(t));
        lemma_route_map(t);
        assert forall|k: (usize, usize)|
            #[trigger] route_map(s).contains_key(k) <==> exists|i: int|
                0 <= i < s.len() && (s[i].from, s[i].to) == k by {
            if route_map(t).contains_key(k) {
                let i = choose|i: int| 0 <= i < t.len() && (t[i].from, t[i].to) == k;
                assert(s[i] == t[i]);
            }
            if exists|i: int| 0 <= i < s.len() && (s[i].from, s[i].to) == k {
                let i = choose|i: int| 0 <= i < s.len() && (s[i].from, s[i].to) == k;
                if i < s.len() - 1 {
                    assert(t[i] == s[i]);
                }
            }
        }
        assert forall|i: int| 0 <= i < s.len() implies #[trigger] route_map(s)[(
            s[i].from,
            s[i].to,
        )] == s[i].key@ by {
            let last = s.last();
            if i < s.len() - 1 {
                assert(t[i] == s[i]);
                assert((s[i].from, s[i].to) != (s[s.len() - 1].from, s[s.len() - 1].to));
                assert(route_map(t)[(t[i].from, t[i].to)] == t[i].key@);
                assert(route_map(s) == route_map(t).insert((last.from, last.to), last.key@));
            } else {
                assert(route_map(s) == route_map(t).insert((last.from, last.to), last.key@));
            }
        }
    }
}

/// The node ids of a list of nodes.
pub open spec fn ids_of(nodes: Seq<Node>) -> Seq<usize> {
    nodes.map_values(|n: Node| n.id)
}

pub open spec fn has_node_id(nodes: Seq<Node>, id: usize) -> bool {
    exists|i: int| 0 <= i < nodes.len() && nodes[i].id == id
}

pub open spec fn unique_ids(nodes: Seq<Node>) -> bool {
    forall|i: int, j: int| 0 <= i < j < nodes.len() ==> #[trigger] nodes[i].id != #[trigger] nodes[j].id
}

pub open spec fn no_dups(s: Seq<usize>) -> bool {
    forall|i: int, j: int| 0 <= i < j < s.len() ==> #[trigger] s[i] != #[trigger] s[j]
}

/// The index of the node with the given id in a list of nodes with unique ids.
pub open spec fn index_of_id(nodes: Seq<Node>, id: usize) -> int {
    choose|i: int| 0 <= i < nodes.len() && nodes[i].id == id
}

/// A row of the decision-button editor.
pub struct DecisionButtonDraft {
    pub label: String,
    pub event_key: String,
    pub color_rgb: [u8; 3],
}

/// Which node or edge each inline editor is open on, and the text it holds.
pub struct EditState {
    pub editing_text_node: Option<usize>,
    pub pending_text_focus: Option<usize>,
    pub editing_title_node: Option<usize>,
    pub pending_title_focus: Option<usize>,
    pub title_edit_buffer: String,
    pub editing_startup_node: Option<usize>,
    pub pending_startup_focus: Option<usize>,
    pub startup_edit_buffer: String,
    pub editing_working_directory_node: Option<usize>,
    pub pending_working_directory_focus: Option<usize>,
    pub working_directory_edit_buffer: String,
    pub editing_decision_buttons_node: Option<usize>,
    pub pending_decision_buttons_focus: Option<usize>,
    pub decision_buttons_edit_rows: Vec<DecisionButtonDraft>,
    pub decision_color_popup: Option<(usize, usize)>,
    pub decision_buttons_edit_error: Option<String>,
    pub editing_decision_queue_node: Option<usize>,
    pub pending_decision_queue_focus: Option<usize>,
    pub decision_queue_edit_buffer: String,
    pub editing_edge: Option<(usize, usize)>,
    pub pending_edge_focus: Option<(usize, usize)>,
    pub edge_edit_buffer: String,
    pub editing_script_node: Option<usize>,
    pub pending_script_focus: Option<usize>,
    pub script_edit_buffer: String,
    pub script_debug_node: Option<usize>,
    pub editing_script_queue_node: Option<usize>,
    pub pending_script_queue_focus: Option<usize>,
    pub script_queue_edit_buffer: String,
    pub suspend_terminal_focus: Option<usize>,
}

impl EditState {
    pub fn new() -> (r: EditState)
        ensures
            r.all_closed(),
    {
        EditState {
            editing_text_node: None,
            pending_text_focus: None,
            editing_title_node: None,
            pending_title_focus: None,
            title_edit_buffer: String::new(),
            editing_startup_node: None,
            pending_startup_focus: None,
            startup_edit_buffer: String::new(),
            editing_working_directory_node: None,
            pending_working_directory_focus: None,
            working_directory_edit_buffer: String::new(),
            editing_decision_buttons_node: None,
            pending_decision_buttons_focus: None,
            decision_buttons_edit_rows: Vec::new(),
            decision_color_popup: None,
            decision_buttons_edit_error: None,
            editing_decision_queue_node: None,
            pending_decision_queue_focus: None,
            decision_queue_edit_buffer: String::new(),
            editing_edge: None,
            pending_edge_focus: None,
            edge_edit_buffer: String::new(),
            editing_script_node: None,
            pending_script_focus: None,
            script_edit_buffer: String::new(),
            script_debug_node: None,
            editing_script_queue_node: None,
            pending_script_queue_focus: None,
            script_queue_edit_buffer: String::new(),
            suspend_terminal_focus: None,
        }
    }

    /// No inline editor is open and every edit buffer is empty.
    pub open spec fn all_closed(&self) -> bool {
        &&& self.editing_text_node is None
        &&& self.pending_text_focus is None
        &&& self.editing_title_node is None
        &&& self.pending_title_focus is None
        &&& self.title_edit_buffer@.len() == 0
        &&& self.editing_startup_node is None
        &&& self.pending_startup_focus is None
        &&& self.startup_edit_buffer@.len() == 0
        &&& self.editing_working_directory_node is None
        &&& self.pending_working_directory_focus is None
        &&& self.working_directory_edit_buffer@.len() == 0
        &&& self.editing_decision_buttons_node is None
        &&& self.pending_decision_buttons_focus is None
        &&& self.decision_buttons_edit_rows@.len() == 0
        &&& self.decision_color_popup is None
        &&& self.decision_buttons_edit_error is None
        &&& self.editing_decision_queue_node is None
        &&& self.pending_decision_queue_focus is None
        &&& self.decision_queue_edit_buffer@.len() == 0
        &&& self.editing_edge is None
        &&& self.pending_edge_focus is None
        &&& self.edge_edit_buffer@.len() == 0
        &&& self.editing_script_node is None
        &&& self.pending_script_focus is None
        &&& self.script_edit_buffer@.len() == 0
        &&& self.script_debug_node is None
        &&& self.editing_script_queue_node is None
        &&& self.pending_script_queue_focus is None
        &&& self.script_queue_edit_buffer@.len() == 0
        &&& self.suspend_terminal_focus is None
    }
}

/// A copied set of nodes, the edges among them and their route keys.
pub struct ClipboardEdge {
    pub from: usize,
    pub to: usize,
    pub route_key: Option<String>,
}

pub struct ClipboardPayload {
    pub nodes: Vec<Node>,
    pub edges: Vec<ClipboardEdge>,
}

/// The nodes and edges of a workspace, with the edges' route keys and the
/// id that the next node gets.
pub struct Graph {
    pub nodes: Vec<Node>,
    pub edges: Vec<(usize, usize)>,
    pub edge_route_keys: Vec<RouteKey>,
    pub next_node_id: usize,
}

impl Graph {
    pub open spec fn nodes_v(&self) -> Seq<NodeView> {
        node_views(self.nodes@)
    }

    pub open spec fn routes(&self) -> Map<(usize, usize), Seq<char>> {
        route_map(self.edge_route_keys@)
    }

    /// Node ids are unique and below the id handed out next; each edge has at
    /// most one route key.
    pub open spec fn wf(&self) -> bool {
        &&& unique_ids(self.nodes@)
        &&& forall|i: int| 0 <= i < self.nodes@.len() ==> #[trigger] self.nodes@[i].id < self.next_node_id
        &&& unique_routes(self.edge_route_keys@)
    }
}

/// The selected node (the one last picked), the selected nodes and the
/// selected edge.
pub struct Selection {
    pub selected: Option<usize>,
    pub selected_nodes: Vec<usize>,
    pub selected_edge: Option<(usize, usize)>,
}

impl Selection {
    pub open spec fn wf(&self) -> bool {
        no_dups(self.selected_nodes@)
    }
}

/// The context menu and the link being drawn.
pub struct UiState {
    pub context_menu_node: Option<usize>,
    pub context_menu_edge: Option<(usize, usize)>,
    pub linking_from: Option<usize>,
}

/// One canvas workspace.
pub struct Workspace {
    pub graph: Graph,
    pub selection: Selection,
    pub history: History,
    pub edit: EditState,
    pub terminals: TerminalRuntime,
    pub ui: UiState,
    pub workspace_name: String,
    pub editing_workspace_name: bool,
    pub pending_workspace_name_focus: bool,
    pub workspace_name_edit_buffer: String,
    pub workspace_dirty: bool,
    pub automation_state_version: u64,
    pub automation_state_timestamp_ms: u64,
    pub processed_automation_requests: Vec<(String, AutomationResponse)>,
    pub toast_notifications: Vec<ToastNotification>,
    pub next_toast_id: u64,
    pub node_clipboard: Option<ClipboardPayload>,
    pub active_graph_path: Option<String>,
    /// The saved state of script nodes, kept for the next save.
    pub script_node_state: Vec<ScriptState>,
    /// The monotonic clock's reading when the workspace was made; notices
    /// are timed from it.
    pub clock_origin: std::time::Instant,
}

/// The version that `bump_automation_state_version` makes of `v`.
pub open spec fn bumped(v: u64) -> u64 {
    if v == u64::MAX {
        u64::MAX
    } else {
        (v + 1) as u64
    }
}

impl Workspace {
    /// The graph and the selection are well formed and every node kept in
    /// the history has an id below the next one.
    pub open spec fn wf(&self) -> bool {
        &&& self.graph.wf()
        &&& self.selection.wf()
        &&& self.history.ids_below(self.graph.next_node_id as int)
    }

    /// The fields that neither the graph, the selection, the history, the
    /// editors, the terminals nor the menus hold, apart from the dirty flag
    /// and the state version, are the same in `a` and `b`.
    pub open spec fn same_meta(a: Workspace, b: Workspace) -> bool {
        &&& a.workspace_name == b.workspace_name
        &&& a.editing_workspace_name == b.editing_workspace_name
        &&& a.pending_workspace_name_focus == b.pending_workspace_name_focus
        &&& a.workspace_name_edit_buffer == b.workspace_name_edit_buffer
        &&& a.processed_automation_requests == b.processed_automation_requests
        &&& a.toast_notifications == b.toast_notifications
        &&& a.next_toast_id == b.next_toast_id
        &&& a.node_clipboard == b.node_clipboard
        &&& a.active_graph_path == b.active_graph_path
        &&& a.script_node_state == b.script_node_state
    }
}

pub open spec fn id_is_not(id: usize) -> spec_fn(Node) -> bool {
    |n: Node| n.id != id
}

pub open spec fn not_touching(id: usize) -> spec_fn((usize, usize)) -> bool {
    |e: (usize, usize)| e.0 != id && e.1 != id
}

pub open spec fn other_than(id: usize) -> spec_fn(usize) -> bool {
    |x: usize| x != id
}

pub open spec fn first_or_none(s: Seq<usize>) -> Option<usize> {
    if s.len() > 0 {
        Some(s[0])
    } else {
        None
    }
}

/// A route key that holds more than white space.
pub open spec fn nonblank_key(k: Seq<char>) -> bool {
    trim(k).len() > 0
}

/// The route keys that remain after pruning against the given edges.
pub open spec fn pruned_routes(m: Map<(usize, usize), Seq<char>>, edges: Seq<(usize, usize)>) -> Map<
    (usize, usize),
    Seq<char>,
> {
    Map::new(|k: (usize, usize)| m.contains_key(k) && edges.contains(k) && nonblank_key(m[k]), |k: (usize, usize)| m[k])
}

/// The edge that stays selected, or is being edited, once the edges are `edges`.
pub open spec fn keep_edge_if_present(e: Option<(usize, usize)>, edges: Seq<(usize, usize)>) -> Option<(usize, usize)> {
    match e {
        Some(x) => if edges.contains(x) {
            Some(x)
        } else {
            None
        },
        None => None,
    }
}

pub fn filter_ids(v: &Vec<usize>, id: usize) -> (r: Vec<usize>)
    ensures
        r@ == v@.filter(other_than(id)),
{
    let mut out: Vec<usize> = Vec::new();
    let mut i: usize = 0;
    while i < v.len()
        invariant
            i <= v@.len(),
            out@ == v@.subrange(0, i as int).filter(other_than(id)),
        decreases v@.len() - i,
    {
        proof {
            assert(v@.subrange(0, i + 1).drop_last() =~= v@.subrange(0, i as int));
            reveal_with_fuel(Seq::<usize>::filter, 1);
        }
        if v[i] != id {
            out.push(v[i]);
        }
        i = i + 1;
    }
    assert(v@.subrange(0, i as int) =~= v@);
    out
}

pub proof fn lemma_filter_keeps_no_dups(s: Seq<usize>, id: usize)
    requires
        no_dups(s),
    ensures
        no_dups(s.filter(other_than(id))),
        forall|x: usize| #[trigger] s.filter(other_than(id)).contains(x) <==> s.contains(x) && x != id,
    decreases s.len(),
{
    reveal_with_fuel(Seq::<usize>::filter, 1);
    if s.len() > 0 {
        let t = s.drop_last();
        assert(no_dups(t));
        lemma_filter_keeps_no_dups(t, id);
        assert forall|x: usize| #[trigger] s.contains(x) <==> t.contains(x) || x == s.last() by {
            if s.contains(x) {
                let k = choose|k: int| 0 <= k < s.len() && s[k] == x;
                if k < s.len() - 1 {
                    assert(t[k] == x);
                }
            }
            if t.contains(x) {
                let k = choose|k: int| 0 <= k < t.len() && t[k] == x;
                assert(s[k] == x);
            }
        }
        if s.last() != id {
            let f = t.filter(other_than(id));
            assert(!t.contains(s.last())) by {
                if t.contains(s.last()) {
                    let k = choose|k: int| 0 <= k < t.len() && t[k] == s.last();
                    assert(s[k] == s[s.len() - 1]);
                }
            }
            assert(!f.contains(s.last()));
            assert forall|i: int, j: int| 0 <= i < j < f.push(s.last()).len() implies #[trigger] f.push(
                s.last(),
            )[i] != #[trigger] f.push(s.last())[j] by {
                if j == f.len() {
                    assert(f.push(s.last())[i] == f[i]);
                    assert(f.contains(f[i]));
                }
            }
            assert forall|x: usize| #[trigger] f.push(s.last()).contains(x) <==> f.contains(x) || x
                == s.last() by {
                if f.push(s.last()).contains(x) {
                    let k = choose|k: int| 0 <= k < f.push(s.last()).len() && f.push(s.last())[k] == x;
                    if k < f.len() {
                        assert(f[k] == x);
                    }
                }
                if f.contains(x) {
                    let k = choose|k: int| 0 <= k < f.len() && f[k] == x;
                    assert(f.push(s.last())[k] == x);
                }
                assert(f.push(s.last())[f.len() as int] == s.last());
            }
        }
    }
}

fn filter_edges_touching(v: &Vec<(usize, usize)>, id: usize) -> (r: Vec<(usize, usize)>)
    ensures
        r@ == v@.filter(not_touching(id)),
{
    let mut out: Vec<(usize, usize)> = Vec::new();
    let mut i: usize = 0;
    while i < v.len()
        invariant
            i <= v@.len(),
            out@ == v@.subrange(0, i as int).filter(not_touching(id)),
        decreases v@.len() - i,
    {
        proof {
            assert(v@.subrange(0, i + 1).drop_last() =~= v@.subrange(0, i as int));
            reveal_with_fuel(Seq::<(usize, usize)>::filter, 1);
        }
        let e = v[i];
        if e.0 != id && e.1 != id {
            out.push(e);
        }
        i = i + 1;
    }
    assert(v@.subrange(0, i as int) =~= v@);
    out
}

impl Graph {
    pub fn new() -> (r: Graph)
        ensures
            r.wf(),
            r.nodes@.len() == 0,
            r.edges@.len() == 0,
            r.edge_route_keys@.len() == 0,
            r.next_node_id == 1,
    {
        Graph { nodes: Vec::new(), edges: Vec::new(), edge_route_keys: Vec::new(), next_node_id: 1 }
    }

    /// The index of the node with the given id.
    pub fn find_node_index(&self, id: usize) -> (r: Option<usize>)
        requires
            self.wf(),
        ensures
            match r {
                Some(i) => i < self.nodes@.len() && self.nodes@[i as int].id == id && i
                    == index_of_id(self.nodes@, id),
                None => !has_node_id(self.nodes@, id),
            },
    {
        let mut i: usize = 0;
        while i < self.nodes.len()
            invariant
                self.wf(),
                i <= self.nodes@.len(),
                forall|j: int| 0 <= j < i ==> #[trigger] self.nodes@[j].id != id,
            decreases self.nodes@.len() - i,
        {
            if self.nodes[i].id == id {
                proof {
                    assert(exists|j: int| 0 <= j < self.nodes@.len() && self.nodes@[j].id == id);
                    let k = index_of_id(self.nodes@, id);
                    assert(0 <= k < self.nodes@.len() && self.nodes@[k].id == id);
                    if k != i {
                        if k < i {
                            assert(self.nodes@[k].id != self.nodes@[i as int].id);
                        } else {
                            assert(self.nodes@[i as int].id != self.nodes@[k].id);
                        }
                    }
                }
                return Some(i);
            }
            i = i + 1;
        }
        None
    }

    /// Whether a node with the given id exists.
    pub fn has_node(&self, id: usize) -> (r: bool)
        requires
            self.wf(),
        ensures
            r == has_node_id(self.nodes@, id),
    {
        self.find_node_index(id).is_some()
    }

    /// Whether an edge from `from` to `to` exists.
    pub fn has_edge(&self, from: usize, to: usize) -> (r: bool)
        ensures
            r == self.edges@.contains((from, to)),
    {
        let mut i: usize = 0;
        while i < self.edges.len()
            invariant
                i <= self.edges@.len(),
                forall|j: int| 0 <= j < i ==> #[trigger] self.edges@[j] != (from, to),
            decreases self.edges@.len() - i,
        {
            let e = self.edges[i];
            if e.0 == from && e.1 == to {
                assert(self.edges@[i as int] == (from, to));
                return true;
            }
            i = i + 1;
        }
        false
    }

    /// Hands out the next node id.
    pub fn alloc_node_id(&mut self) -> (id: usize)
        requires
            old(self).wf(),
            old(self).next_node_id < usize::MAX,
        ensures
            final(self).wf(),
            id == old(self).next_node_id,
            final(self).next_node_id == old(self).next_node_id + 1,
            final(self).nodes == old(self).nodes,
            final(self).edges == old(self).edges,
            final(self).edge_route_keys == old(self).edge_route_keys,
    {
        let id = self.next_node_id;
        self.next_node_id = self.next_node_id + 1;
        id
    }
}

impl Selection {
    pub fn new() -> (r: Selection)
        ensures
            r.wf(),
            r.selected is None,
            r.selected_nodes@.len() == 0,
            r.selected_edge is None,
    {
        Selection { selected: None, selected_nodes: Vec::new(), selected_edge: None }
    }
}

impl Workspace {
    /// An empty workspace with the default name and state version 1.
    pub fn new() -> (r: Workspace)
        ensures
            r.wf(),
            r.graph.nodes@.len() == 0,
            r.graph.edges@.len() == 0,
            r.graph.edge_route_keys@.len() == 0,
            r.graph.next_node_id == 1,
            r.selection.selected is None,
            r.selection.selected_nodes@.len() == 0,
            r.selection.selected_edge is None,
            r.history.undo_stack@.len() == 0,
            r.history.redo_stack@.len() == 0,
            r.workspace_name@ == crate::naming::default_name(),
            !r.workspace_dirty,
            r.automation_state_version == 1,
            r.edit.all_closed(),
            r.script_node_state@.len() == 0,
    {
        Workspace {
            graph: Graph::new(),
            selection: Selection::new(),
            history: History::new(),
            edit: EditState::new(),
            terminals: TerminalRuntime::new(),
            ui: UiState { context_menu_node: None, context_menu_edge: None, linking_from: None },
            workspace_name: crate::naming::default_workspace_name(),
            editing_workspace_name: false,
            pending_workspace_name_focus: false,
            workspace_name_edit_buffer: String::new(),
            workspace_dirty: false,
            automation_state_version: 1,
            automation_state_timestamp_ms: crate::protocol::now_timestamp_ms(),
            processed_automation_requests: Vec::new(),
            toast_notifications: Vec::new(),
            next_toast_id: 1,
            node_clipboard: None,
            active_graph_path: None,
            script_node_state: Vec::new(),
            clock_origin: crate::notifications::instant_now(),
        }
    }

    /// Advances the state version (saturating) and stamps it with the time.
    pub fn bump_automation_state_version(&mut self)
        ensures
            final(self).automation_state_version == bumped(old(self).automation_state_version),
            final(self).graph == old(self).graph,
            final(self).selection == old(self).selection,
            final(self).history == old(self).history,
            final(self).edit == old(self).edit,
            final(self).terminals == old(self).terminals,
            final(self).ui == old(self).ui,
            final(self).workspace_dirty == old(self).workspace_dirty,
            Workspace::same_meta(*old(self), *final(self)),
    {
        self.automation_state_version = self.automation_state_version.saturating_add(1);
        self.automation_state_timestamp_ms = crate::protocol::now_timestamp_ms();
    }

    /// Marks the workspace as changed since it was last saved.
    pub fn mark_workspace_dirty(&mut self)
        ensures
            final(self).workspace_dirty,
            final(self).automation_state_version == bumped(old(self).automation_state_version),
            final(self).graph == old(self).graph,
            final(self).selection == old(self).selection,
            final(self).history == old(self).history,
            final(self).edit == old(self).edit,
            final(self).terminals == old(self).terminals,
            final(self).ui == old(self).ui,
            Workspace::same_meta(*old(self), *final(self)),
    {
        self.workspace_dirty = true;
        self.bump_automation_state_version();
    }

    /// Marks the workspace as saved.
    pub fn mark_workspace_clean(&mut self)
        ensures
            !final(self).workspace_dirty,
            final(self).automation_state_version == old(self).automation_state_version,
            final(self).graph == old(self).graph,
            final(self).selection == old(self).selection,
            final(self).history == old(self).history,
            final(self).edit == old(self).edit,
            final(self).terminals == old(self).terminals,
            final(self).ui == old(self).ui,
            Workspace::same_meta(*old(self), *final(self)),
    {
        self.workspace_dirty = false;
    }
}

} // verus!
