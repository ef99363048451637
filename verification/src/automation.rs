//! The automation API: what each action does to the workspace and what it
//! answers. The payloads arrive already read; the answers are rendered by
//! the caller.
use crate::model::{button_views, copy_buttons, copy_opt_string, copy_strings, opt_view, ButtonView, Coord, DataView, DecisionButton, NodeData, NodeKind, NodeView};
use crate::queue::{first_msg, first_string, nonblank};
use crate::text::{copy_string, to_ascii_lowercase_str, trim_str, views};
use crate::creation::{added_and_selected, base_data, decision_size, terminal_size, text_size};
use crate::history::EntryView;
use crate::groups::{can_group, group_candidate, grouped, max_title_index};
use crate::workspace::no_dups;
use crate::sorting::{ascending, keyed_ascending, keyed_views, pairs_ascending, sort_ids, sort_keyed, sort_pairs};
use crate::persistence::{exported_routes, route_cfg_views};
use crate::history::sorted_by_id;
use crate::model::Node;
use crate::protocol::AutomationResponse;
use crate::forwarding::{lemma_node_index_none, lemma_node_index_some, node_index};
use crate::history::set_pos;
use crate::routes::shown_route;
use crate::text::{ascii_lowercase, concat2, decimal, eq_ignore_ascii_case_str, owned, push_decimal, push_str, str_eq, trim};
use crate::history::edge_is_not;
use crate::shells::is_terminal_node;
use crate::workspace::{keep_edge_if_present, pruned_routes};
use crate::workspace::{bumped, has_node_id, Workspace};
use vstd::prelude::*;

verus! {

/// The actions of the automation API.
#[derive(Clone, Copy, Debug, PartialEq, Eq, Structural)]
pub enum ActionKind {
    GraphGet,
    Metrics,
    NodeCreate,
    GroupCreate,
    NodeMove,
    NodeUpdate,
    NodeDelete,
    EdgeCreate,
    EdgeReconnect,
    EdgeDelete,
    InjectText,
    InjectTerminal,
    TerminalRestart,
}

/// The action that an action name stands for.
pub open spec fn action_of(name: Seq<char>) -> Option<ActionKind> {
    if name == "graph.get"@ {
        Some(ActionKind::GraphGet)
    } else if name == "metrics"@ {
        Some(ActionKind::Metrics)
    } else if name == "node.create"@ {
        Some(ActionKind::NodeCreate)
    } else if name == "group.create"@ {
        Some(ActionKind::GroupCreate)
    } else if name == "node.move"@ {
        Some(ActionKind::NodeMove)
    } else if name == "node.update"@ {
        Some(ActionKind::NodeUpdate)
    } else if name == "node.delete"@ {
        Some(ActionKind::NodeDelete)
    } else if name == "edge.create"@ {
        Some(ActionKind::EdgeCreate)
    } else if name == "edge.reconnect"@ {
        Some(ActionKind::EdgeReconnect)
    } else if name == "edge.delete"@ {
        Some(ActionKind::EdgeDelete)
    } else if name == "inject.text"@ {
        Some(ActionKind::InjectText)
    } else if name == "inject.terminal"@ {
        Some(ActionKind::InjectTerminal)
    } else if name == "terminal.restart"@ {
        Some(ActionKind::TerminalRestart)
    } else {
        None
    }
}

/// The action that an action name stands for; `None` for an unknown name.
pub fn action_kind(name: &str) -> (r: Option<ActionKind>)
    ensures
        r == action_of(name@),
{
    if str_eq(name, "graph.get") {
        Some(ActionKind::GraphGet)
    } else if str_eq(name, "metrics") {
        Some(ActionKind::Metrics)
    } else if str_eq(name, "node.create") {
        Some(ActionKind::NodeCreate)
    } else if str_eq(name, "group.create") {
        Some(ActionKind::GroupCreate)
    } else if str_eq(name, "node.move") {
        Some(ActionKind::NodeMove)
    } else if str_eq(name, "node.update") {
        Some(ActionKind::NodeUpdate)
    } else if str_eq(name, "node.delete") {
        Some(ActionKind::NodeDelete)
    } else if str_eq(name, "edge.create") {
        Some(ActionKind::EdgeCreate)
    } else if str_eq(name, "edge.reconnect") {
        Some(ActionKind::EdgeReconnect)
    } else if str_eq(name, "edge.delete") {
        Some(ActionKind::EdgeDelete)
    } else if str_eq(name, "inject.text") {
        Some(ActionKind::InjectText)
    } else if str_eq(name, "inject.terminal") {
        Some(ActionKind::InjectTerminal)
    } else if str_eq(name, "terminal.restart") {
        Some(ActionKind::TerminalRestart)
    } else {
        None
    }
}

/// Why an action failed: an error code and a message.
#[derive(Debug, Clone)]
pub struct AutomationFailure {
    pub code: String,
    pub message: String,
}

/// The failure for an action name that is not known.
pub fn unsupported_action(action: &str) -> (r: AutomationFailure)
    ensures
        r.code@ == "UNKNOWN_ACTION"@,
        r.message@ == "unsupported action: "@ + action@,
{
    AutomationFailure { code: owned("UNKNOWN_ACTION"), message: concat2("unsupported action: ", action) }
}

/// The failure for a payload that could not be read: `BAD_PAYLOAD` and the
/// reader's message after `invalid payload: `.
pub fn bad_payload(detail: &str) -> (r: AutomationFailure)
    ensures
        r.code@ == "BAD_PAYLOAD"@,
        r.message@ == "invalid payload: "@ + detail@,
{
    AutomationFailure { code: owned("BAD_PAYLOAD"), message: concat2("invalid payload: ", detail) }
}

/// What a successful action answers, before it is rendered.
#[derive(Debug, Clone)]
pub enum OutcomeData {
    GraphUnchanged { version: u64, timestamp_ms: u64 },
    Graph { version: u64, timestamp_ms: u64, snapshot: GraphSnapshot },
    NodeCreated { node_id: usize, version: u64 },
    GroupCreated { group_id: usize, version: u64 },
    NodeChanged { node_id: usize, version: u64 },
    NodeAlreadyDeleted { node_id: usize, version: u64 },
    EdgeAlreadyExists { from: usize, to: usize, route_key: Option<String>, version: u64 },
    EdgeChanged { from: usize, to: usize, route_key: Option<String>, version: u64 },
    EdgeAlreadyDeleted { from: usize, to: usize, version: u64 },
    EdgeDeleted { from: usize, to: usize, version: u64 },
    InjectAccepted { version: u64 },
    TerminalRestarted { node_id: usize, version: u64 },
}

/// A successful action's answer and the ids it concerns.
#[derive(Debug, Clone)]
pub struct AutomationOutcome {
    pub data: OutcomeData,
    pub affected_ids: Vec<usize>,
}

/// The action failed with this code and message.
pub open spec fn failed_with(r: Result<AutomationOutcome, AutomationFailure>, code: Seq<char>, msg: Seq<char>) -> bool {
    &&& r is Err
    &&& r->Err_0.code@ == code
    &&& r->Err_0.message@ == msg
}

/// The action succeeded with this answer about these ids.
pub open spec fn answered(r: Result<AutomationOutcome, AutomationFailure>, d: OutcomeData, ids: Seq<usize>) -> bool {
    &&& r is Ok
    &&& r->Ok_0.data == d
    &&& r->Ok_0.affected_ids@ == ids
}

/// `node not found: <id>`.
pub open spec fn node_not_found(id: usize) -> Seq<char> {
    "node not found: "@ + decimal(id as nat)
}

fn not_found_node(id: usize) -> (r: AutomationFailure)
    ensures
        r.code@ == "NOT_FOUND"@,
        r.message@ == node_not_found(id),
{
    let mut message = owned("node not found: ");
    push_decimal(&mut message, id as u64);
    AutomationFailure { code: owned("NOT_FOUND"), message }
}

fn one_id(id: usize) -> (r: Vec<usize>)
    ensures
        r@ == seq![id],
{
    let mut v: Vec<usize> = Vec::new();
    v.push(id);
    assert(v@ =~= seq![id]);
    v
}

fn two_ids(a: usize, b: usize) -> (r: Vec<usize>)
    ensures
        r@ == seq![a, b],
{
    let mut v: Vec<usize> = Vec::new();
    v.push(a);
    v.push(b);
    assert(v@ =~= seq![a, b]);
    v
}


/// The frame of an action that only touches the graph, the dirty flag and
/// the state version.
pub open spec fn graph_only(o: Workspace, n: Workspace) -> bool {
    &&& n.wf()
    &&& n.selection == o.selection
    &&& n.history == o.history
    &&& n.edit == o.edit
    &&& n.terminals == o.terminals
    &&& n.ui == o.ui
    &&& Workspace::same_meta(o, n)
}

/// A text node's text after `inject.text`: appended for the mode `append`
/// (in any ASCII case), else replaced.
pub open spec fn injected_text(old_text: Seq<char>, mode: Seq<char>, text: Seq<char>) -> Seq<char> {
    if ascii_lowercase(mode) == ascii_lowercase("append"@) {
        old_text + text
    } else {
        text
    }
}

impl Workspace {
    /// `node.move`: puts a node at `pos`.
    pub fn automation_node_move(&mut self, id: usize, pos: Coord) -> (r: Result<AutomationOutcome, AutomationFailure>)
        requires
            old(self).wf(),
        ensures
            !has_node_id(old(self).graph.nodes@, id) ==> failed_with(r, "NOT_FOUND"@, node_not_found(id))
                && *final(self) == *old(self),
            has_node_id(old(self).graph.nodes@, id) ==> {
                &&& answered(r, OutcomeData::NodeChanged { node_id: id, version: final(self).automation_state_version }, seq![id])
                &&& final(self).graph.nodes_v() == set_pos(old(self).graph.nodes_v(), id, pos)
                &&& final(self).graph.edges == old(self).graph.edges
                &&& final(self).graph.edge_route_keys == old(self).graph.edge_route_keys
                &&& final(self).workspace_dirty
                &&& final(self).automation_state_version == bumped(old(self).automation_state_version)
                &&& graph_only(*old(self), *final(self))
            },
    {
        if !self.graph.has_node(id) {
            return Err(not_found_node(id));
        }
        self.graph.set_node_pos(id, pos);
        self.mark_workspace_dirty();
        Ok(AutomationOutcome {
            data: OutcomeData::NodeChanged { node_id: id, version: self.automation_state_version },
            affected_ids: one_id(id),
        })
    }

    /// `node.delete`: removes a node; a missing node counts as already deleted.
    pub fn automation_node_delete(&mut self, id: usize) -> (r: Result<AutomationOutcome, AutomationFailure>)
        requires
            old(self).wf(),
        ensures
            final(self).wf(),
            !has_node_id(old(self).graph.nodes@, id) ==> *final(self) == *old(self) && answered(
                r,
                OutcomeData::NodeAlreadyDeleted { node_id: id, version: old(self).automation_state_version },
                seq![id],
            ),
            has_node_id(old(self).graph.nodes@, id) ==> {
                &&& answered(r, OutcomeData::NodeChanged { node_id: id, version: final(self).automation_state_version }, seq![id])
                &&& final(self).graph.nodes@ == old(self).graph.nodes@.filter(crate::workspace::id_is_not(id))
                &&& final(self).graph.edges@ == old(self).graph.edges@.filter(crate::workspace::not_touching(id))
                &&& final(self).workspace_dirty
                &&& final(self).automation_state_version == bumped(bumped(old(self).automation_state_version))
            },
    {
        if !self.graph.has_node(id) {
            return Ok(AutomationOutcome {
                data: OutcomeData::NodeAlreadyDeleted { node_id: id, version: self.automation_state_version },
                affected_ids: one_id(id),
            });
        }
        self.remove_node(id);
        self.bump_automation_state_version();
        Ok(AutomationOutcome {
            data: OutcomeData::NodeChanged { node_id: id, version: self.automation_state_version },
            affected_ids: one_id(id),
        })
    }

    /// `terminal.restart`: restarts the shell of a terminal node.
    pub fn automation_terminal_restart(&mut self, id: usize) -> (r: Result<AutomationOutcome, AutomationFailure>)
        requires
            old(self).wf(),
        ensures
            final(self).wf(),
            !has_node_id(old(self).graph.nodes@, id) ==> failed_with(r, "NOT_FOUND"@, node_not_found(id))
                && *final(self) == *old(self),
            has_node_id(old(self).graph.nodes@, id) && !is_terminal_node(old(self).graph.nodes_v(), id)
                ==> failed_with(r, "BAD_TARGET"@, "terminal.restart supports terminal nodes only"@)
                && *final(self) == *old(self),
            is_terminal_node(old(self).graph.nodes_v(), id) ==> {
                &&& answered(r, OutcomeData::TerminalRestarted { node_id: id, version: final(self).automation_state_version }, seq![id])
                &&& final(self).terminals.pending_starts@ == old(self).terminals.pending_starts@.filter(
                    crate::terminal::id_not(id),
                ).push(id)
                &&& final(self).terminals.running@ == old(self).terminals.running@.filter(crate::terminal::id_not(id))
                &&& final(self).graph == old(self).graph
                &&& final(self).automation_state_version == bumped(old(self).automation_state_version)
            },
    {
        let i = match self.graph.find_node_index(id) {
            Some(i) => i,
            None => {
                return Err(not_found_node(id));
            },
        };
        proof {
            if is_terminal_node(self.graph.nodes_v(), id) {
                let j = choose|j: int| 0 <= j < self.graph.nodes_v().len() && self.graph.nodes_v()[j].id == id && self.graph.nodes_v()[j].kind == NodeKind::Terminal;
                if j != i {
                    if j < i {
                        assert(self.graph.nodes@[j].id != self.graph.nodes@[i as int].id);
                    } else {
                        assert(self.graph.nodes@[i as int].id != self.graph.nodes@[j].id);
                    }
                }
            }
            assert(self.graph.nodes_v()[i as int].id == id);
        }
        if self.graph.nodes[i].kind != NodeKind::Terminal {
            return Err(AutomationFailure {
                code: owned("BAD_TARGET"),
                message: owned("terminal.restart supports terminal nodes only"),
            });
        }
        self.restart_terminal_deferred(id);
        self.bump_automation_state_version();
        Ok(AutomationOutcome {
            data: OutcomeData::TerminalRestarted { node_id: id, version: self.automation_state_version },
            affected_ids: one_id(id),
        })
    }

    /// `inject.text`: writes into a text node, appending for the mode
    /// `append` and replacing otherwise.
    pub fn automation_inject_text(&mut self, id: usize, mode: &str, text: &str) -> (r: Result<
        AutomationOutcome,
        AutomationFailure,
    >)
        requires
            old(self).wf(),
        ensures
            final(self).wf(),
            match node_index(old(self).graph.nodes_v(), id) {
                None => failed_with(r, "NOT_FOUND"@, node_not_found(id)) && *final(self) == *old(self),
                Some(i) => match old(self).graph.nodes_v()[i].data {
                    DataView::Text { text_body, auto_size } => {
                        &&& answered(r, OutcomeData::NodeChanged { node_id: id, version: final(self).automation_state_version }, seq![id])
                        &&& final(self).graph.nodes_v() == old(self).graph.nodes_v().update(
                            i,
                            NodeView {
                                data: DataView::Text { text_body: injected_text(text_body, mode@, text@), auto_size },
                                ..old(self).graph.nodes_v()[i]
                            },
                        )
                        &&& final(self).workspace_dirty
                        &&& final(self).automation_state_version == bumped(old(self).automation_state_version)
                        &&& graph_only(*old(self), *final(self))
                    },
                    _ => failed_with(r, "BAD_TARGET"@, "inject.text currently supports text/html nodes only"@)
                        && *final(self) == *old(self),
                },
            },
    {
        let i = match self.graph.find_node_index(id) {
            Some(i) => i,
            None => {
                proof {
                    lemma_node_index_none(self.graph, id);
                }
                return Err(not_found_node(id));
            },
        };
        proof {
            lemma_node_index_some(self.graph, id, i as int);
        }
        let mut node = self.graph.nodes[i].copy();
        let ghost before = self.graph.nodes@;
        let new_data = match &node.data {
            NodeData::Text { text_body, auto_size } => {
                let body = if eq_ignore_ascii_case_str(mode, "append") {
                    let mut b = crate::text::copy_string(text_body);
                    push_str(&mut b, text);
                    b
                } else {
                    owned(text)
                };
                NodeData::Text { text_body: body, auto_size: *auto_size }
            },
            _ => {
                return Err(AutomationFailure {
                    code: owned("BAD_TARGET"),
                    message: owned("inject.text currently supports text/html nodes only"),
                });
            },
        };
        node.data = new_data;
        self.graph.nodes.set(i, node);
        proof {
            assert(crate::model::node_views(self.graph.nodes@) =~= crate::model::node_views(before).update(
                i as int,
                self.graph.nodes@[i as int]@,
            ));
            assert forall|a: int, b: int| 0 <= a < b < self.graph.nodes@.len() implies #[trigger] self.graph.nodes@[a].id != #[trigger] self.graph.nodes@[b].id by {
                assert(before[a].id != before[b].id);
                assert(self.graph.nodes@[a].id == before[a].id);
                assert(self.graph.nodes@[b].id == before[b].id);
            }
            assert forall|a: int| 0 <= a < self.graph.nodes@.len() implies #[trigger] self.graph.nodes@[a].id < self.graph.next_node_id by {
                assert(self.graph.nodes@[a].id == before[a].id);
            }
        }
        self.mark_workspace_dirty();
        Ok(AutomationOutcome {
            data: OutcomeData::NodeChanged { node_id: id, version: self.automation_state_version },
            affected_ids: one_id(id),
        })
    }
}


/// The route keys after setting the key of an edge: the trimmed key, or no
/// key where it is blank.
pub open spec fn routes_after_set(
    m: Map<(usize, usize), Seq<char>>,
    e: (usize, usize),
    key: Seq<char>,
) -> Map<(usize, usize), Seq<char>> {
    if trim(key).len() == 0 {
        m.remove(e)
    } else {
        m.insert(e, trim(key))
    }
}

/// The route keys after optionally setting the key of an edge.
pub open spec fn routes_after_opt(
    m: Map<(usize, usize), Seq<char>>,
    e: (usize, usize),
    key: Option<Seq<char>>,
) -> Map<(usize, usize), Seq<char>> {
    match key {
        Some(k) => routes_after_set(m, e, k),
        None => m,
    }
}

/// The answer about an edge: whether it existed already, its ends, its
/// shown route key and the state version.
pub open spec fn edge_answered(
    r: Result<AutomationOutcome, AutomationFailure>,
    existed: bool,
    e: (usize, usize),
    key: Option<Seq<char>>,
    version: u64,
) -> bool {
    &&& r is Ok
    &&& r->Ok_0.affected_ids@ == seq![e.0, e.1]
    &&& match r->Ok_0.data {
        OutcomeData::EdgeAlreadyExists { from, to, route_key, version: v } => existed && from == e.0
            && to == e.1 && opt_view(route_key) == key && v == version,
        OutcomeData::EdgeChanged { from, to, route_key, version: v } => !existed && from == e.0 && to
            == e.1 && opt_view(route_key) == key && v == version,
        _ => false,
    }
}

/// The first position of the edge.
pub open spec fn first_edge_at(edges: Seq<(usize, usize)>, e: (usize, usize), k: int) -> bool {
    &&& 0 <= k < edges.len()
    &&& edges[k] == e
    &&& forall|j: int| 0 <= j < k ==> #[trigger] edges[j] != e
}

fn find_edge(edges: &Vec<(usize, usize)>, e: (usize, usize)) -> (r: Option<usize>)
    ensures
        match r {
            Some(k) => first_edge_at(edges@, e, k as int),
            None => !edges@.contains(e),
        },
{
    let mut i: usize = 0;
    while i < edges.len()
        invariant
            i <= edges@.len(),
            forall|j: int| 0 <= j < i ==> #[trigger] edges@[j] != e,
        decreases edges@.len() - i,
    {
        if edges[i].0 == e.0 && edges[i].1 == e.1 {
            return Some(i);
        }
        i = i + 1;
    }
    false_contains(edges, e);
    None
}

fn false_contains(edges: &Vec<(usize, usize)>, e: (usize, usize))
    requires
        forall|j: int| 0 <= j < edges@.len() ==> #[trigger] edges@[j] != e,
    ensures
        !edges@.contains(e),
{
}

impl Workspace {
    /// `edge.create`: adds an edge between two existing nodes with an
    /// optional route key; for an edge that exists only the route key is set.
    pub fn automation_edge_create(&mut self, from: usize, to: usize, route_key: Option<String>) -> (r: Result<
        AutomationOutcome,
        AutomationFailure,
    >)
        requires
            old(self).wf(),
        ensures
            final(self).wf(),
            old(self).graph.edges@.contains((from, to)) ==> {
                &&& final(self).graph.edges == old(self).graph.edges
                &&& final(self).graph.routes() == routes_after_opt(old(self).graph.routes(), (from, to), opt_view(route_key))
                &&& final(self).graph.nodes == old(self).graph.nodes
                &&& final(self).workspace_dirty == (old(self).workspace_dirty || route_key is Some)
                &&& edge_answered(r, true, (from, to), shown_route(final(self).graph.routes(), from, to), final(self).automation_state_version)
            },
            !old(self).graph.edges@.contains((from, to)) && !(has_node_id(old(self).graph.nodes@, from)
                && has_node_id(old(self).graph.nodes@, to)) ==> failed_with(r, "NOT_FOUND"@, "edge endpoint node not found"@)
                && *final(self) == *old(self),
            !old(self).graph.edges@.contains((from, to)) && has_node_id(old(self).graph.nodes@, from)
                && has_node_id(old(self).graph.nodes@, to) ==> {
                &&& final(self).graph.edges@ == old(self).graph.edges@.push((from, to))
                &&& final(self).graph.routes() == routes_after_opt(old(self).graph.routes(), (from, to), opt_view(route_key))
                &&& final(self).graph.nodes == old(self).graph.nodes
                &&& final(self).workspace_dirty
                &&& final(self).automation_state_version == bumped(old(self).automation_state_version)
                &&& edge_answered(r, false, (from, to), shown_route(final(self).graph.routes(), from, to), final(self).automation_state_version)
                &&& graph_only(*old(self), *final(self))
            },
    {
        if self.graph.has_edge(from, to) {
            if let Some(k) = route_key {
                self.graph.set_edge_route_key(from, to, k.as_str());
                self.mark_workspace_dirty();
            }
            return Ok(AutomationOutcome {
                data: OutcomeData::EdgeAlreadyExists {
                    from,
                    to,
                    route_key: self.graph.edge_route_key(from, to),
                    version: self.automation_state_version,
                },
                affected_ids: two_ids(from, to),
            });
        }
        if !self.graph.has_node(from) || !self.graph.has_node(to) {
            return Err(AutomationFailure { code: owned("NOT_FOUND"), message: owned("edge endpoint node not found") });
        }
        self.graph.edges.push((from, to));
        if let Some(k) = route_key {
            self.graph.set_edge_route_key(from, to, k.as_str());
        }
        self.mark_workspace_dirty();
        Ok(AutomationOutcome {
            data: OutcomeData::EdgeChanged {
                from,
                to,
                route_key: self.graph.edge_route_key(from, to),
                version: self.automation_state_version,
            },
            affected_ids: two_ids(from, to),
        })
    }

    /// `edge.delete`: removes an edge and its route key; a missing edge
    /// counts as already deleted.
    pub fn automation_edge_delete(&mut self, from: usize, to: usize) -> (r: Result<AutomationOutcome, AutomationFailure>)
        requires
            old(self).wf(),
        ensures
            final(self).wf(),
            final(self).graph.edges@ == old(self).graph.edges@.filter(edge_is_not((from, to))),
            final(self).graph.routes() == pruned_routes(old(self).graph.routes().remove((from, to)), final(self).graph.edges@),
            final(self).graph.nodes == old(self).graph.nodes,
            final(self).selection.selected_edge == keep_edge_if_present(old(self).selection.selected_edge, final(self).graph.edges@),
            !old(self).graph.edges@.contains((from, to)) ==> final(self).workspace_dirty == old(self).workspace_dirty
                && answered(r, OutcomeData::EdgeAlreadyDeleted { from, to, version: old(self).automation_state_version }, seq![from, to]),
            old(self).graph.edges@.contains((from, to)) ==> final(self).workspace_dirty
                && final(self).automation_state_version == bumped(old(self).automation_state_version)
                && answered(r, OutcomeData::EdgeDeleted { from, to, version: final(self).automation_state_version }, seq![from, to]),
    {
        let before = self.graph.edges.len();
        let e = (from, to);
        let mut mask: Vec<bool> = Vec::new();
        let mut i: usize = 0;
        while i < self.graph.edges.len()
            invariant
                i <= self.graph.edges@.len(),
                e == (from, to),
                mask@.len() == i,
                forall|j: int| 0 <= j < i ==> #[trigger] mask@[j] == edge_is_not(e)(self.graph.edges@[j]),
            decreases self.graph.edges@.len() - i,
        {
            let x = self.graph.edges[i];
            mask.push(!(x.0 == from && x.1 == to));
            i = i + 1;
        }
        let ghost old_edges = self.graph.edges@;
        crate::seqs::retain_mask(&mut self.graph.edges, &mask, Ghost(edge_is_not(e)));
        proof {
            crate::seqs::lemma_filter_contains(old_edges, edge_is_not(e));
            crate::seqs::lemma_filter_len_bound(old_edges, edge_is_not(e));
            if old_edges.contains(e) {
                assert(self.graph.edges@.len() < old_edges.len()) by {
                    if self.graph.edges@.len() == old_edges.len() {
                        lemma_filter_same_len(old_edges, edge_is_not(e));
                        let k = choose|k: int| 0 <= k < old_edges.len() && old_edges[k] == e;
                    }
                }
            } else {
                assert forall|k: int| 0 <= k < old_edges.len() implies edge_is_not(e)(#[trigger] old_edges[k]) by {
                    if old_edges[k] == e {
                        assert(old_edges.contains(e));
                    }
                }
            }
        }
        self.graph.remove_edge_route_key(from, to);
        self.prune_edge_state();
        if self.graph.edges.len() == before {
            return Ok(AutomationOutcome {
                data: OutcomeData::EdgeAlreadyDeleted { from, to, version: self.automation_state_version },
                affected_ids: two_ids(from, to),
            });
        }
        self.mark_workspace_dirty();
        Ok(AutomationOutcome {
            data: OutcomeData::EdgeDeleted { from, to, version: self.automation_state_version },
            affected_ids: two_ids(from, to),
        })
    }
}

proof fn lemma_filter_same_len(s: Seq<(usize, usize)>, p: spec_fn((usize, usize)) -> bool)
    requires
        s.filter(p).len() == s.len(),
    ensures
        forall|k: int| 0 <= k < s.len() ==> p(#[trigger] s[k]),
    decreases s.len(),
{
    reveal_with_fuel(Seq::<_>::filter, 1);
    if s.len() > 0 {
        crate::seqs::lemma_filter_len_bound(s.drop_last(), p);
        if !p(s.last()) {
            assert(s.filter(p).len() <= s.len() - 1);
        } else {
            lemma_filter_same_len(s.drop_last(), p);
            assert forall|k: int| 0 <= k < s.len() implies p(#[trigger] s[k]) by {
                if k < s.len() - 1 {
                    assert(s.drop_last()[k] == s[k]);
                }
            }
        }
    }
}


impl Workspace {
    /// `edge.reconnect`: gives an edge new ends; it keeps its route key unless
    /// a new one is given.
    pub fn automation_edge_reconnect(
        &mut self,
        from: usize,
        to: usize,
        new_from: usize,
        new_to: usize,
        new_route_key: Option<String>,
    ) -> (r: Result<AutomationOutcome, AutomationFailure>)
        requires
            old(self).wf(),
        ensures
            final(self).wf(),
            !old(self).graph.edges@.contains((from, to)) ==> failed_with(r, "NOT_FOUND"@, "edge not found"@)
                && *final(self) == *old(self),
            old(self).graph.edges@.contains((from, to)) ==> exists|k: int| {
                &&& first_edge_at(old(self).graph.edges@, (from, to), k)
                &&& final(self).graph.edges@ == old(self).graph.edges@.update(k, (new_from, new_to))
                &&& final(self).graph.routes() == pruned_routes(
                    routes_after_opt(
                        old(self).graph.routes().remove((from, to)),
                        (new_from, new_to),
                        match opt_view(new_route_key) {
                            Some(n) => Some(n),
                            None => shown_route(old(self).graph.routes(), from, to),
                        },
                    ),
                    final(self).graph.edges@,
                )
                &&& final(self).graph.nodes == old(self).graph.nodes
                &&& final(self).workspace_dirty
                &&& final(self).automation_state_version == bumped(old(self).automation_state_version)
                &&& edge_answered(
                    r,
                    false,
                    (new_from, new_to),
                    shown_route(final(self).graph.routes(), new_from, new_to),
                    final(self).automation_state_version,
                )
            },
    {
        let idx = match find_edge(&self.graph.edges, (from, to)) {
            Some(k) => k,
            None => {
                return Err(AutomationFailure { code: owned("NOT_FOUND"), message: owned("edge not found") });
            },
        };
        let previous = self.graph.edge_route_key(from, to);
        self.graph.remove_edge_route_key(from, to);
        self.graph.edges.set(idx, (new_from, new_to));
        match new_route_key {
            Some(k) => self.graph.set_edge_route_key(new_from, new_to, k.as_str()),
            None => match previous {
                Some(p) => self.graph.set_edge_route_key(new_from, new_to, p.as_str()),
                None => {},
            },
        }
        self.prune_edge_state();
        self.mark_workspace_dirty();
        assert(first_edge_at(old(self).graph.edges@, (from, to), idx as int));
        Ok(AutomationOutcome {
            data: OutcomeData::EdgeChanged {
                from: new_from,
                to: new_to,
                route_key: self.graph.edge_route_key(new_from, new_to),
                version: self.automation_state_version,
            },
            affected_ids: two_ids(new_from, new_to),
        })
    }
}


/// The fields that `node.update` may set.
pub struct NodeUpdatePayload {
    pub id: usize,
    pub text_body: Option<String>,
    pub auto_size: Option<bool>,
    pub title: Option<String>,
    pub startup_script: Option<String>,
    pub working_directory: Option<String>,
    pub buttons: Option<Vec<DecisionButton>>,
    pub pending_message: Option<String>,
    pub pending_messages: Option<Vec<String>>,
}

pub open spec fn or_keep(new: Option<Seq<char>>, old: Seq<char>) -> Seq<char> {
    match new {
        Some(n) => n,
        None => old,
    }
}

pub open spec fn opt_buttons(o: Option<Vec<DecisionButton>>) -> Option<Seq<ButtonView>> {
    match o {
        Some(v) => Some(button_views(v@)),
        None => None,
    }
}

pub open spec fn opt_strings(o: Option<Vec<String>>) -> Option<Seq<Seq<char>>> {
    match o {
        Some(v) => Some(views(v@)),
        None => None,
    }
}

/// A working directory as given: trimmed, and none where blank.
pub open spec fn clean_dir(w: Option<Seq<char>>) -> Option<Seq<char>> {
    match w {
        Some(d) => if trim(d).len() > 0 {
            Some(trim(d))
        } else {
            None
        },
        None => None,
    }
}

/// A decision node's queue after an update: a given list replaces it; else a
/// given single message becomes the whole queue (none where blank).
pub open spec fn updated_queue(
    pm: Option<Seq<char>>,
    pms: Seq<Seq<char>>,
    new_pm: Option<Seq<char>>,
    new_pms: Option<Seq<Seq<char>>>,
) -> (Option<Seq<char>>, Seq<Seq<char>>) {
    match new_pms {
        Some(q) => (first_msg(q), q),
        None => match new_pm {
            Some(single) => {
                let q = if nonblank(single) {
                    seq![single]
                } else {
                    Seq::empty()
                };
                (first_msg(q), q)
            },
            None => (pm, pms),
        },
    }
}

/// A node's content after `node.update`, and whether its shell restarts
/// (its startup script or working directory changed).
pub open spec fn updated_data(d: DataView, p: NodeUpdatePayload) -> (DataView, bool) {
    match d {
        DataView::Text { text_body, auto_size } => (
            DataView::Text {
                text_body: or_keep(opt_view(p.text_body), text_body),
                auto_size: match p.auto_size {
                    Some(a) => a,
                    None => auto_size,
                },
            },
            false,
        ),
        DataView::Terminal { title, startup_script, working_directory } => {
            let script = match opt_view(p.startup_script) {
                Some(s) => trim(s),
                None => startup_script,
            };
            let dir = if p.working_directory is Some {
                clean_dir(opt_view(p.working_directory))
            } else {
                working_directory
            };
            (
                DataView::Terminal {
                    title: or_keep(opt_view(p.title), title),
                    startup_script: script,
                    working_directory: dir,
                },
                script != startup_script || dir != working_directory,
            )
        },
        DataView::Decision { title, buttons, pending_message, pending_messages } => {
            let (pm, pms) = updated_queue(
                pending_message,
                pending_messages,
                opt_view(p.pending_message),
                opt_strings(p.pending_messages),
            );
            (
                DataView::Decision {
                    title: or_keep(opt_view(p.title), title),
                    buttons: match opt_buttons(p.buttons) {
                        Some(b) => b,
                        None => buttons,
                    },
                    pending_message: pm,
                    pending_messages: pms,
                },
                false,
            )
        },
        DataView::Group { title, child_node_ids } => (
            DataView::Group { title: or_keep(opt_view(p.title), title), child_node_ids },
            false,
        ),
        _ => (d, false),
    }
}

fn keep_or(new: &Option<String>, old: &String) -> (r: String)
    ensures
        r@ == or_keep(opt_view(*new), old@),
{
    match new {
        Some(n) => copy_string(n),
        None => copy_string(old),
    }
}

fn opt_eq(a: &Option<String>, b: &Option<String>) -> (r: bool)
    ensures
        r == (opt_view(*a) == opt_view(*b)),
{
    match (a, b) {
        (Some(x), Some(y)) => str_eq(x.as_str(), y.as_str()),
        (None, None) => true,
        _ => false,
    }
}

fn update_data(d: &NodeData, p: &NodeUpdatePayload) -> (r: (NodeData, bool))
    ensures
        (r.0@, r.1) == updated_data(d@, *p),
{
    match d {
        NodeData::Text { text_body, auto_size } => (
            NodeData::Text {
                text_body: keep_or(&p.text_body, text_body),
                auto_size: match p.auto_size {
                    Some(a) => a,
                    None => *auto_size,
                },
            },
            false,
        ),
        NodeData::Terminal { title, startup_script, working_directory } => {
            let script = match &p.startup_script {
                Some(s) => trim_str(s.as_str()),
                None => copy_string(startup_script),
            };
            let dir = match &p.working_directory {
                Some(w) => {
                    let t = trim_str(w.as_str());
                    if t.as_str().is_empty() {
                        None
                    } else {
                        Some(t)
                    }
                },
                None => copy_opt_string(working_directory),
            };
            let changed = !str_eq(script.as_str(), startup_script.as_str()) || !opt_eq(&dir, working_directory);
            (NodeData::Terminal { title: keep_or(&p.title, title), startup_script: script, working_directory: dir }, changed)
        },
        NodeData::Decision { title, buttons, pending_message, pending_messages } => {
            let (pm, pms) = match &p.pending_messages {
                Some(q) => {
                    let q2 = copy_strings(q);
                    (first_string(&q2), q2)
                },
                None => match &p.pending_message {
                    Some(single) => {
                        let mut q: Vec<String> = Vec::new();
                        let t = trim_str(single.as_str());
                        if !t.as_str().is_empty() {
                            q.push(copy_string(single));
                        }
                        proof {
                            if nonblank(single@) {
                                assert(views(q@) =~= seq![single@]);
                            } else {
                                assert(views(q@) =~= Seq::<Seq<char>>::empty());
                            }
                        }
                        (first_string(&q), q)
                    },
                    None => (copy_opt_string(pending_message), copy_strings(pending_messages)),
                },
            };
            let b = match &p.buttons {
                Some(nb) => copy_buttons(nb),
                None => copy_buttons(buttons),
            };
            (
                NodeData::Decision {
                    title: keep_or(&p.title, title),
                    buttons: b,
                    pending_message: pm,
                    pending_messages: pms,
                },
                false,
            )
        },
        NodeData::Group { title, child_node_ids } => (
            NodeData::Group { title: keep_or(&p.title, title), child_node_ids: crate::model::copy_ids(child_node_ids) },
            false,
        ),
        _ => (d.copy(), false),
    }
}

impl Workspace {
    /// `node.update`: sets the given fields of a node's content; a terminal
    /// whose startup script or working directory changed restarts its shell.
    pub fn automation_node_update(&mut self, payload: NodeUpdatePayload) -> (r: Result<
        AutomationOutcome,
        AutomationFailure,
    >)
        requires
            old(self).wf(),
        ensures
            final(self).wf(),
            match node_index(old(self).graph.nodes_v(), payload.id) {
                None => failed_with(r, "NOT_FOUND"@, node_not_found(payload.id)) && *final(self) == *old(self),
                Some(i) => {
                    let (d, restart) = updated_data(old(self).graph.nodes_v()[i].data, payload);
                    &&& answered(r, OutcomeData::NodeChanged { node_id: payload.id, version: final(self).automation_state_version }, seq![payload.id])
                    &&& final(self).graph.nodes_v() == old(self).graph.nodes_v().update(
                        i,
                        NodeView { data: d, ..old(self).graph.nodes_v()[i] },
                    )
                    &&& final(self).graph.edges == old(self).graph.edges
                    &&& final(self).workspace_dirty
                    &&& final(self).automation_state_version == bumped(old(self).automation_state_version)
                    &&& !restart ==> final(self).terminals == old(self).terminals
                    &&& restart ==> final(self).terminals.running@ == old(self).terminals.running@.filter(
                        crate::terminal::id_not(payload.id),
                    ) && final(self).terminals.pending_starts@ == (if is_terminal_node(old(self).graph.nodes_v(), payload.id) {
                        old(self).terminals.pending_starts@.filter(crate::terminal::id_not(payload.id)).push(payload.id)
                    } else {
                        old(self).terminals.pending_starts@.filter(crate::terminal::id_not(payload.id))
                    })
                },
            },
    {
        let id = payload.id;
        let i = match self.graph.find_node_index(id) {
            Some(i) => i,
            None => {
                proof {
                    lemma_node_index_none(self.graph, id);
                }
                return Err(not_found_node(id));
            },
        };
        proof {
            lemma_node_index_some(self.graph, id, i as int);
        }
        let (data, restart) = update_data(&self.graph.nodes[i].data, &payload);
        let mut node = self.graph.nodes[i].copy();
        let ghost before = self.graph.nodes@;
        node.data = data;
        self.graph.nodes.set(i, node);
        proof {
            assert(crate::model::node_views(self.graph.nodes@) =~= crate::model::node_views(before).update(
                i as int,
                self.graph.nodes@[i as int]@,
            ));
            assert forall|a: int, b: int| 0 <= a < b < self.graph.nodes@.len() implies #[trigger] self.graph.nodes@[a].id != #[trigger] self.graph.nodes@[b].id by {
                assert(before[a].id != before[b].id);
                assert(self.graph.nodes@[a].id == before[a].id);
                assert(self.graph.nodes@[b].id == before[b].id);
            }
            assert forall|a: int| 0 <= a < self.graph.nodes@.len() implies #[trigger] self.graph.nodes@[a].id < self.graph.next_node_id by {
                assert(self.graph.nodes@[a].id == before[a].id);
            }
        }
        self.mark_workspace_dirty();
        proof {
            let o = old(self).graph.nodes_v();
            let n = self.graph.nodes_v();
            assert forall|j: int| 0 <= j < n.len() implies #[trigger] n[j].id == o[j].id && n[j].kind == o[j].kind by {}
            if is_terminal_node(o, id) {
                let j = choose|j: int| 0 <= j < o.len() && o[j].id == id && o[j].kind == NodeKind::Terminal;
                assert(n[j].id == id && n[j].kind == NodeKind::Terminal);
            }
            if is_terminal_node(n, id) {
                let j = choose|j: int| 0 <= j < n.len() && n[j].id == id && n[j].kind == NodeKind::Terminal;
                assert(o[j].id == id && o[j].kind == NodeKind::Terminal);
            }
        }
        if restart {
            self.restart_terminal_deferred(id);
        }
        Ok(AutomationOutcome {
            data: OutcomeData::NodeChanged { node_id: id, version: self.automation_state_version },
            affected_ids: one_id(id),
        })
    }
}


/// The fields that `node.create` may set; `pos` is where the node goes.
pub struct NodeCreatePayload {
    pub kind: String,
    pub pos: Coord,
    pub text_body: Option<String>,
    pub title: Option<String>,
    pub startup_script: Option<String>,
    pub working_directory: Option<String>,
    pub image_path: Option<String>,
    pub buttons: Option<Vec<DecisionButton>>,
    pub pending_message: Option<String>,
    pub pending_messages: Option<Vec<String>>,
}

/// A decision node's queue as created: a given list, or a given single
/// message (none where blank), or no message.
pub open spec fn created_queue(
    pms: Seq<Seq<char>>,
    new_pm: Option<Seq<char>>,
    new_pms: Option<Seq<Seq<char>>>,
) -> (Option<Seq<char>>, Seq<Seq<char>>) {
    match new_pms {
        Some(q) => (first_msg(q), q),
        None => match new_pm {
            Some(single) => {
                let q = if nonblank(single) {
                    seq![single]
                } else {
                    Seq::empty()
                };
                (first_msg(q), q)
            },
            None => (None, pms),
        },
    }
}

/// A new node's content with the fields that `node.create` sets.
pub open spec fn created_data(d: DataView, p: NodeCreatePayload) -> DataView {
    match d {
        DataView::Terminal { title, startup_script, working_directory } => DataView::Terminal {
            title: or_keep(opt_view(p.title), title),
            startup_script: or_keep(opt_view(p.startup_script), startup_script),
            working_directory: if p.working_directory is Some {
                clean_dir(opt_view(p.working_directory))
            } else {
                working_directory
            },
        },
        DataView::Text { text_body, auto_size } => DataView::Text {
            text_body: or_keep(opt_view(p.text_body), text_body),
            auto_size,
        },
        DataView::Decision { title, buttons, pending_messages, .. } => {
            let (pm, pms) = created_queue(pending_messages, opt_view(p.pending_message), opt_strings(p.pending_messages));
            DataView::Decision {
                title: or_keep(opt_view(p.title), title),
                buttons: match opt_buttons(p.buttons) {
                    Some(b) => b,
                    None => buttons,
                },
                pending_message: pm,
                pending_messages: pms,
            }
        },
        _ => d,
    }
}

fn create_update(d: &NodeData, p: &NodeCreatePayload) -> (r: NodeData)
    ensures
        r@ == created_data(d@, *p),
{
    match d {
        NodeData::Terminal { title, startup_script, working_directory } => {
            let dir = match &p.working_directory {
                Some(w) => {
                    let t = trim_str(w.as_str());
                    if t.as_str().is_empty() {
                        None
                    } else {
                        Some(t)
                    }
                },
                None => copy_opt_string(working_directory),
            };
            NodeData::Terminal {
                title: keep_or(&p.title, title),
                startup_script: keep_or(&p.startup_script, startup_script),
                working_directory: dir,
            }
        },
        NodeData::Text { text_body, auto_size } => NodeData::Text {
            text_body: keep_or(&p.text_body, text_body),
            auto_size: *auto_size,
        },
        NodeData::Decision { title, buttons, pending_messages, .. } => {
            let (pm, pms) = match &p.pending_messages {
                Some(q) => {
                    let q2 = copy_strings(q);
                    (first_string(&q2), q2)
                },
                None => match &p.pending_message {
                    Some(single) => {
                        let mut q: Vec<String> = Vec::new();
                        let t = trim_str(single.as_str());
                        if !t.as_str().is_empty() {
                            q.push(copy_string(single));
                        }
                        proof {
                            if nonblank(single@) {
                                assert(views(q@) =~= seq![single@]);
                            } else {
                                assert(views(q@) =~= Seq::<Seq<char>>::empty());
                            }
                        }
                        (first_string(&q), q)
                    },
                    None => (None, copy_strings(pending_messages)),
                },
            };
            let b = match &p.buttons {
                Some(nb) => copy_buttons(nb),
                None => copy_buttons(buttons),
            };
            NodeData::Decision { title: keep_or(&p.title, title), buttons: b, pending_message: pm, pending_messages: pms }
        },
        _ => d.copy(),
    }
}

/// The node that `node.create` adds: the base node `b` that creation made
/// (and recorded for undo), with the payload's fields set.
pub open spec fn created_as(o: Workspace, n: Workspace, b: NodeView, p: NodeCreatePayload) -> bool {
    &&& b.id == o.graph.next_node_id
    &&& b.pos == p.pos
    &&& b.uid.len() == 36
    &&& n.wf()
    &&& n.graph.nodes_v() == o.graph.nodes_v().push(NodeView { data: created_data(b.data, p), ..b })
    &&& n.graph.edges == o.graph.edges
    &&& n.history.undo_v() == o.history.undo_v().push(EntryView::CreateBatch { nodes: seq![b] })
    &&& n.selection.selected == Some(b.id)
    &&& n.selection.selected_nodes@ == seq![b.id]
    &&& n.graph.next_node_id == o.graph.next_node_id + 1
    &&& n.workspace_dirty
    &&& n.automation_state_version == bumped(bumped(bumped(o.automation_state_version)))
}

impl Workspace {
    fn set_last_node_data(&mut self, data: NodeData)
        requires
            old(self).wf(),
            old(self).graph.nodes@.len() > 0,
        ensures
            final(self).wf(),
            final(self).graph.nodes_v() == old(self).graph.nodes_v().update(
                old(self).graph.nodes@.len() - 1,
                NodeView { data: data@, ..old(self).graph.nodes_v()[old(self).graph.nodes@.len() - 1] },
            ),
            final(self).graph.edges == old(self).graph.edges,
            final(self).graph.edge_route_keys == old(self).graph.edge_route_keys,
            final(self).graph.next_node_id == old(self).graph.next_node_id,
            final(self).selection == old(self).selection,
            final(self).history == old(self).history,
            final(self).edit == old(self).edit,
            final(self).terminals == old(self).terminals,
            final(self).ui == old(self).ui,
            final(self).workspace_dirty == old(self).workspace_dirty,
            final(self).automation_state_version == old(self).automation_state_version,
            Workspace::same_meta(*old(self), *final(self)),
    {
        let i = self.graph.nodes.len() - 1;
        let mut node = self.graph.nodes[i].copy();
        let ghost before = self.graph.nodes@;
        node.data = data;
        self.graph.nodes.set(i, node);
        proof {
            assert(crate::model::node_views(self.graph.nodes@) =~= crate::model::node_views(before).update(
                i as int,
                self.graph.nodes@[i as int]@,
            ));
            assert forall|a: int, b: int| 0 <= a < b < self.graph.nodes@.len() implies #[trigger] self.graph.nodes@[a].id != #[trigger] self.graph.nodes@[b].id by {
                assert(before[a].id != before[b].id);
                assert(self.graph.nodes@[a].id == before[a].id);
                assert(self.graph.nodes@[b].id == before[b].id);
            }
            assert forall|a: int| 0 <= a < self.graph.nodes@.len() implies #[trigger] self.graph.nodes@[a].id < self.graph.next_node_id by {
                assert(self.graph.nodes@[a].id == before[a].id);
            }
        }
    }

    /// `node.create`: adds a terminal, text, image or decision node (the kind
    /// read in any ASCII case) at the payload's position and sets the given
    /// fields. An image node needs a path; `image_size` is the size read from
    /// the image.
    pub fn automation_node_create(&mut self, payload: NodeCreatePayload, image_size: Coord) -> (r: Result<
        AutomationOutcome,
        AutomationFailure,
    >)
        requires
            old(self).wf(),
            old(self).graph.next_node_id < usize::MAX,
        ensures
            final(self).wf(),
            ({
                let k = ascii_lowercase(payload.kind@);
                if k == "terminal"@ || k == "text"@ || k == "decision"@ || (k == "image"@ && payload.image_path is Some) {
                    &&& answered(r, OutcomeData::NodeCreated { node_id: old(self).graph.next_node_id, version: final(self).automation_state_version }, seq![old(self).graph.next_node_id])
                    &&& exists|b: NodeView| #[trigger] created_as(*old(self), *final(self), b, payload)
                        && (k == "terminal"@ ==> b.kind == NodeKind::Terminal && base_data(NodeKind::Terminal, b.data) && b.size == terminal_size())
                        && (k == "text"@ ==> b.kind == NodeKind::Text && (b.data matches DataView::Text { auto_size, .. } && !auto_size) && b.size == text_size())
                        && (k == "decision"@ ==> b.kind == NodeKind::Decision && base_data(NodeKind::Decision, b.data) && b.size == decision_size())
                        && (k == "image"@ ==> b.kind == NodeKind::Image && b.data == DataView::Image { image_path: opt_view(payload.image_path)->0 } && b.size == image_size)
                } else if k == "image"@ {
                    failed_with(r, "BAD_PAYLOAD"@, "image_path is required for image node"@) && *final(self) == *old(self)
                } else {
                    failed_with(r, "BAD_PAYLOAD"@, "unsupported node kind: "@ + payload.kind@) && *final(self) == *old(self)
                }
            }),
    {
        proof {
            reveal_strlit("terminal");
            reveal_strlit("text");
            reveal_strlit("image");
            reveal_strlit("decision");
        }
        proof {
            assert("image"@ != "terminal"@) by { assert("image"@[0] != "terminal"@[0]); }
            assert("image"@ != "text"@) by { assert("image"@[0] != "text"@[0]); }
            assert("image"@ != "decision"@) by { assert("image"@[0] != "decision"@[0]); }
            assert("text"@ != "terminal"@) by { assert("text"@.len() != "terminal"@.len()); }
            assert("decision"@ != "terminal"@) by { assert("decision"@[0] != "terminal"@[0]); }
            assert("decision"@ != "text"@) by { assert("decision"@[0] != "text"@[0]); }
        }
        let kind = to_ascii_lowercase_str(payload.kind.as_str());
        let pos = payload.pos;
        let ghost mut b: NodeView = vstd::pervasive::arbitrary();
        let id = if str_eq(kind.as_str(), "terminal") {
            let id = self.create_terminal_node(pos);
            proof {
                b = choose|n: NodeView| n.id == id && n.kind == NodeKind::Terminal && base_data(NodeKind::Terminal, n.data)
                    && n.pos == pos && n.size == terminal_size() && n.uid.len() == 36 && added_and_selected(*old(self), *self, n);
            }
            id
        } else if str_eq(kind.as_str(), "text") {
            let id = self.create_text_node(pos, false);
            proof {
                b = choose|n: NodeView| n.id == id && n.kind == NodeKind::Text && (n.data matches DataView::Text { auto_size, .. } && !auto_size)
                    && n.pos == pos && n.size == text_size() && n.uid.len() == 36 && added_and_selected(*old(self), *self, n);
            }
            id
        } else if str_eq(kind.as_str(), "image") {
            match &payload.image_path {
                Some(path) => {
                    let id = self.create_image_node_from_path(pos, image_size, copy_string(path));
                    proof {
                        b = choose|n: NodeView| n.id == id && n.kind == NodeKind::Image && n.data == (DataView::Image { image_path: path@ })
                            && n.pos == pos && n.size == image_size && n.uid.len() == 36 && added_and_selected(*old(self), *self, n);
                    }
                    id
                },
                None => {
                    return Err(AutomationFailure {
                        code: owned("BAD_PAYLOAD"),
                        message: owned("image_path is required for image node"),
                    });
                },
            }
        } else if str_eq(kind.as_str(), "decision") {
            let id = self.create_decision_node(pos);
            proof {
                b = choose|n: NodeView| n.id == id && n.kind == NodeKind::Decision && base_data(NodeKind::Decision, n.data)
                    && n.pos == pos && n.size == decision_size() && n.uid.len() == 36 && added_and_selected(*old(self), *self, n);
            }
            id
        } else {
            return Err(AutomationFailure {
                code: owned("BAD_PAYLOAD"),
                message: concat2("unsupported node kind: ", payload.kind.as_str()),
            });
        };
        proof {
            assert(self.graph.nodes_v() == old(self).graph.nodes_v().push(b));
            assert(self.graph.nodes_v().len() == self.graph.nodes@.len());
            assert(self.graph.nodes_v()[self.graph.nodes@.len() - 1] == b);
        }
        let last = self.graph.nodes.len() - 1;
        let data = create_update(&self.graph.nodes[last].data, &payload);
        self.set_last_node_data(data);
        self.bump_automation_state_version();
        proof {
            assert(self.graph.nodes_v() =~= old(self).graph.nodes_v().push(NodeView { data: created_data(b.data, payload), ..b }));
            assert(created_as(*old(self), *self, b, payload));
        }
        Ok(AutomationOutcome {
            data: OutcomeData::NodeCreated { node_id: id, version: self.automation_state_version },
            affected_ids: one_id(id),
        })
    }
}


/// The ids without repeats, each kept where it first occurs.
pub fn dedup_ids(v: &Vec<usize>) -> (r: Vec<usize>)
    ensures
        no_dups(r@),
        forall|x: usize| #[trigger] r@.contains(x) <==> v@.contains(x),
{
    let mut out: Vec<usize> = Vec::new();
    let mut i: usize = 0;
    while i < v.len()
        invariant
            i <= v@.len(),
            no_dups(out@),
            forall|x: usize| #[trigger] out@.contains(x) <==> v@.subrange(0, i as int).contains(x),
        decreases v@.len() - i,
    {
        let x = v[i];
        let ghost before = out@;
        if !crate::selection::contains_id(&out, x) {
            out.push(x);
            proof {
                assert forall|a: int, b: int| 0 <= a < b < out@.len() implies #[trigger] out@[a] != #[trigger] out@[b] by {
                    if b == before.len() {
                        assert(before.contains(before[a]));
                    } else {
                        assert(before[a] != before[b]);
                    }
                }
            }
        }
        proof {
            assert forall|y: usize| #[trigger] out@.contains(y) <==> v@.subrange(0, i + 1).contains(y) by {
                let sub = v@.subrange(0, i + 1);
                assert(sub == v@.subrange(0, i as int).push(x));
                if out@.contains(y) {
                    let k = choose|k: int| 0 <= k < out@.len() && out@[k] == y;
                    if k < before.len() {
                        assert(before.contains(y));
                        let q = choose|q: int| 0 <= q < i && v@.subrange(0, i as int)[q] == y;
                        assert(sub[q] == y);
                    } else {
                        assert(sub[i as int] == y);
                    }
                }
                if sub.contains(y) {
                    let q = choose|q: int| 0 <= q < sub.len() && sub[q] == y;
                    if q < i {
                        assert(v@.subrange(0, i as int)[q] == y);
                        assert(before.contains(y));
                        let k = choose|k: int| 0 <= k < before.len() && before[k] == y;
                        assert(out@[k] == y);
                    } else {
                        if before.contains(y) {
                            let k = choose|k: int| 0 <= k < before.len() && before[k] == y;
                            assert(out@[k] == y);
                        } else {
                            assert(out@[out@.len() - 1] == y);
                        }
                    }
                }
            }
        }
        i = i + 1;
    }
    assert(v@.subrange(0, i as int) =~= v@);
    out
}

impl Workspace {
    /// `group.create`: selects the given nodes and groups those that are not
    /// groups, when there are at least two, under the given title (trimmed);
    /// `pos` and `size` are the box around the children.
    pub fn automation_group_create(&mut self, node_ids: &Vec<usize>, title: Option<String>, pos: Coord, size: Coord) -> (r: Result<
        AutomationOutcome,
        AutomationFailure,
    >)
        requires
            old(self).wf(),
            old(self).graph.next_node_id < usize::MAX,
            max_title_index(old(self).graph.nodes_v()) < usize::MAX,
        ensures
            final(self).wf(),
            node_ids@.len() < 2 ==> failed_with(r, "BAD_PAYLOAD"@, "group.create requires at least two node_ids"@)
                && *final(self) == *old(self),
            node_ids@.len() >= 2 ==> {
                let picked = old(self).graph.nodes@.filter(group_candidate(node_ids@));
                &&& !can_group(old(self).graph.nodes@, node_ids@) ==> failed_with(r, "BAD_PAYLOAD"@, "cannot create group from provided node_ids"@)
                    && final(self).graph == old(self).graph
                    && final(self).selection.selected == Some(node_ids@.last())
                    && (forall|x: usize| #[trigger] final(self).selection.selected_nodes@.contains(x) <==> node_ids@.contains(x))
                &&& can_group(old(self).graph.nodes@, node_ids@) ==> {
                    &&& answered(r, OutcomeData::GroupCreated { group_id: old(self).graph.next_node_id, version: final(self).automation_state_version }, seq![old(self).graph.next_node_id])
                    &&& final(self).graph.next_node_id == old(self).graph.next_node_id + 1
                    &&& final(self).graph.nodes@.len() == old(self).graph.nodes@.len() + 1
                    &&& exists|k: int| 0 <= k < final(self).graph.nodes@.len()
                        && final(self).graph.nodes_v()[k].id == old(self).graph.next_node_id
                        && final(self).graph.nodes_v().remove(k) == old(self).graph.nodes_v()
                        && final(self).graph.nodes_v()[k].kind == NodeKind::Group
                        && final(self).graph.nodes_v()[k].data == (DataView::Group {
                            title: match opt_view(title) {
                                Some(t) => trim(t),
                                None => crate::groups::next_title(old(self).graph.nodes_v()),
                            },
                            child_node_ids: crate::workspace::ids_of(picked),
                        })
                    &&& final(self).selection.selected == Some(old(self).graph.next_node_id)
                    &&& final(self).workspace_dirty
                }
            },
    {
        if node_ids.len() < 2 {
            return Err(AutomationFailure {
                code: owned("BAD_PAYLOAD"),
                message: owned("group.create requires at least two node_ids"),
            });
        }
        let sel = dedup_ids(node_ids);
        self.selection.selected_nodes = sel;
        self.selection.selected = Some(node_ids[node_ids.len() - 1]);
        proof {
            assert(self.graph.nodes@.filter(group_candidate(self.selection.selected_nodes@)) =~= self.graph.nodes@.filter(group_candidate(node_ids@))) by {
                assert(group_candidate(self.selection.selected_nodes@) =~= group_candidate(node_ids@));
            }
        }
        let ghost before = *self;
        let group_id = match self.create_group_from_selection(pos, size) {
            Some(g) => g,
            None => {
                return Err(AutomationFailure {
                    code: owned("BAD_PAYLOAD"),
                    message: owned("cannot create group from provided node_ids"),
                });
            },
        };
        let ghost k = choose|k: int| grouped(before, *self, k, pos, size);
        proof {
            assert(grouped(before, *self, k, pos, size));
            assert(0 <= k < before.graph.nodes@.len());
            assert(0 <= k < self.graph.nodes@.len());
            assert(self.graph.nodes_v()[k].id == group_id);
            assert(self.graph.nodes@[k].id == self.graph.nodes_v()[k].id);
        }
        if let Some(t) = title {
            let ghost mid = self.graph.nodes_v();
            let idx = match self.graph.find_node_index(group_id) {
                Some(i) => i,
                None => {
                    proof {
                        assert(self.graph.nodes@[k].id == group_id);
                    }
                    return Ok(AutomationOutcome {
                        data: OutcomeData::GroupCreated { group_id, version: self.automation_state_version },
                        affected_ids: one_id(group_id),
                    });
                },
            };
            proof {
                assert(self.graph.nodes@[k].id == group_id);
                if idx != k {
                    if idx < k {
                        assert(self.graph.nodes@[idx as int].id != self.graph.nodes@[k].id);
                    } else {
                        assert(self.graph.nodes@[k].id != self.graph.nodes@[idx as int].id);
                    }
                }
            }
            let mut node = self.graph.nodes[idx].copy();
            let ghost nb = self.graph.nodes@;
            let new_data = match &node.data {
                NodeData::Group { child_node_ids, .. } => NodeData::Group {
                    title: trim_str(t.as_str()),
                    child_node_ids: crate::model::copy_ids(child_node_ids),
                },
                _ => node.data.copy(),
            };
            node.data = new_data;
            self.graph.nodes.set(idx, node);
            proof {
                assert(crate::model::node_views(self.graph.nodes@) =~= crate::model::node_views(nb).update(
                    idx as int,
                    self.graph.nodes@[idx as int]@,
                ));
                assert forall|a: int, c: int| 0 <= a < c < self.graph.nodes@.len() implies #[trigger] self.graph.nodes@[a].id != #[trigger] self.graph.nodes@[c].id by {
                    assert(nb[a].id != nb[c].id);
                    assert(self.graph.nodes@[a].id == nb[a].id);
                    assert(self.graph.nodes@[c].id == nb[c].id);
                }
                assert forall|a: int| 0 <= a < self.graph.nodes@.len() implies #[trigger] self.graph.nodes@[a].id < self.graph.next_node_id by {
                    assert(self.graph.nodes@[a].id == nb[a].id);
                }
                assert(self.graph.nodes_v().remove(k) =~= mid.remove(k));
            }
        }
        self.bump_automation_state_version();
        Ok(AutomationOutcome {
            data: OutcomeData::GroupCreated { group_id, version: self.automation_state_version },
            affected_ids: one_id(group_id),
        })
    }
}


/// The graph as `graph.get` reports it: nodes ordered by id, edges and route
/// keys ordered by their ends, and the selection with its ids ordered.
#[derive(Debug, Clone)]
pub struct GraphSnapshot {
    pub nodes: Vec<Node>,
    pub edges: Vec<(usize, usize)>,
    pub edge_routes: Vec<(usize, usize, String)>,
    pub selected: Option<usize>,
    pub selected_nodes: Vec<usize>,
    pub selected_edge: Option<(usize, usize)>,
}

/// `s` is the snapshot of the workspace `w`.
pub open spec fn snapshot_of(s: GraphSnapshot, w: Workspace) -> bool {
    &&& crate::model::node_views(s.nodes@).to_multiset() == w.graph.nodes_v().to_multiset()
    &&& sorted_by_id(crate::model::node_views(s.nodes@))
    &&& s.edges@.to_multiset() == w.graph.edges@.to_multiset()
    &&& pairs_ascending(s.edges@)
    &&& keyed_views(s.edge_routes@).to_multiset() == exported_routes(w.graph.edge_route_keys@, w.graph.edges@).to_multiset()
    &&& keyed_ascending(keyed_views(s.edge_routes@))
    &&& s.selected == w.selection.selected
    &&& s.selected_nodes@.to_multiset() == w.selection.selected_nodes@.to_multiset()
    &&& ascending(s.selected_nodes@)
    &&& s.selected_edge == w.selection.selected_edge
}

/// What `graph.get` answers: only the version and its time when the caller
/// has the present version, else also the snapshot.
pub open spec fn graph_got(r: Result<AutomationOutcome, AutomationFailure>, w: Workspace, since: Option<u64>) -> bool {
    &&& r is Ok
    &&& r->Ok_0.affected_ids@.len() == 0
    &&& if since == Some(w.automation_state_version) {
        r->Ok_0.data == OutcomeData::GraphUnchanged {
            version: w.automation_state_version,
            timestamp_ms: w.automation_state_timestamp_ms,
        }
    } else {
        match r->Ok_0.data {
            OutcomeData::Graph { version, timestamp_ms, snapshot } => version == w.automation_state_version
                && timestamp_ms == w.automation_state_timestamp_ms && snapshot_of(snapshot, w),
            _ => false,
        }
    }
}

impl Workspace {
    /// The snapshot of the graph that `graph.get` reports.
    pub fn graph_snapshot(&self) -> (r: GraphSnapshot)
        requires
            self.wf(),
        ensures
            snapshot_of(r, *self),
    {
        let mut g = crate::workspace::Graph {
            nodes: crate::model::copy_nodes(&self.graph.nodes),
            edges: Vec::new(),
            edge_route_keys: Vec::new(),
            next_node_id: self.graph.next_node_id,
        };
        proof {
            assert(crate::model::node_views(g.nodes@).len() == g.nodes@.len());
            assert(crate::model::node_views(self.graph.nodes@).len() == self.graph.nodes@.len());
            assert(g.nodes@.len() == self.graph.nodes@.len());
            assert forall|a: int| 0 <= a < g.nodes@.len() implies #[trigger] g.nodes@[a].id == self.graph.nodes@[a].id by {
                assert(crate::model::node_views(g.nodes@)[a] == crate::model::node_views(self.graph.nodes@)[a]);
                assert(crate::model::node_views(g.nodes@)[a].id == g.nodes@[a].id);
                assert(crate::model::node_views(self.graph.nodes@)[a].id == self.graph.nodes@[a].id);
            }
            assert forall|a: int, b: int| 0 <= a < b < g.nodes@.len() implies #[trigger] g.nodes@[a].id != #[trigger] g.nodes@[b].id by {
                assert(self.graph.nodes@[a].id != self.graph.nodes@[b].id);
            }
            assert forall|a: int| 0 <= a < g.nodes@.len() implies #[trigger] g.nodes@[a].id < g.next_node_id by {
                assert(self.graph.nodes@[a].id < self.graph.next_node_id);
            }
            assert(crate::workspace::unique_routes(g.edge_route_keys@));
        }
        g.sort_nodes_by_id();
        let config = self.graph_config();
        let mut keyed: Vec<(usize, usize, String)> = Vec::new();
        let mut i: usize = 0;
        while i < config.edge_routes.len()
            invariant
                i <= config.edge_routes@.len(),
                keyed_views(keyed@) == route_cfg_views(config.edge_routes@).subrange(0, i as int),
            decreases config.edge_routes@.len() - i,
        {
            let e = &config.edge_routes[i];
            let ghost before = keyed@;
            let item = (e.from, e.to, copy_string(&e.route_key));
            keyed.push(item);
            proof {
                assert(keyed_views(keyed@) =~= keyed_views(before).push((item.0, item.1, item.2@)));
                assert(route_cfg_views(config.edge_routes@)[i as int] == (item.0, item.1, item.2@));
            }
            i = i + 1;
            assert(keyed_views(keyed@) =~= route_cfg_views(config.edge_routes@).subrange(0, i as int));
        }
        assert(route_cfg_views(config.edge_routes@).subrange(0, i as int) =~= route_cfg_views(config.edge_routes@));
        GraphSnapshot {
            nodes: g.nodes,
            edges: sort_pairs(&self.graph.edges),
            edge_routes: sort_keyed(keyed),
            selected: self.selection.selected,
            selected_nodes: sort_ids(&self.selection.selected_nodes),
            selected_edge: self.selection.selected_edge,
        }
    }

    /// `graph.get`: the snapshot, or only the version when the caller already
    /// has the present version.
    pub fn automation_graph_get(&self, since_version: Option<u64>) -> (r: Result<AutomationOutcome, AutomationFailure>)
        requires
            self.wf(),
        ensures
            graph_got(r, *self, since_version),
    {
        let unchanged = match since_version {
            Some(v) => v == self.automation_state_version,
            None => false,
        };
        if unchanged {
            return Ok(AutomationOutcome {
                data: OutcomeData::GraphUnchanged {
                    version: self.automation_state_version,
                    timestamp_ms: self.automation_state_timestamp_ms,
                },
                affected_ids: Vec::new(),
            });
        }
        Ok(AutomationOutcome {
            data: OutcomeData::Graph {
                version: self.automation_state_version,
                timestamp_ms: self.automation_state_timestamp_ms,
                snapshot: self.graph_snapshot(),
            },
            affected_ids: Vec::new(),
        })
    }
}

/// What `inject.terminal` does: answers at once when told not to wait, or
/// runs the command with the time limit.
pub enum InjectTerminalPlan {
    Accepted(AutomationOutcome),
    Run { timeout_ms: u64 },
}

/// What `inject.terminal` plans.
pub open spec fn inject_planned(r: InjectTerminalPlan, w: Workspace, node_id: usize, wait: Option<bool>, timeout_ms: Option<u64>) -> bool {
    if wait == Some(false) {
        match r {
            InjectTerminalPlan::Accepted(o) => o.data == (OutcomeData::InjectAccepted { version: w.automation_state_version })
                && o.affected_ids@ == seq![node_id],
            _ => false,
        }
    } else {
        r == (InjectTerminalPlan::Run {
            timeout_ms: match timeout_ms {
                Some(t) => if t < 1 {
                    1
                } else {
                    t
                },
                None => 30000,
            },
        })
    }
}

impl Workspace {
    /// `inject.terminal`: without waiting (the default is to wait) the command
    /// is accepted and not run; else it runs with the given time limit
    /// (30000 ms where none is given, at least 1 ms).
    pub fn automation_inject_terminal(&self, node_id: usize, wait: Option<bool>, timeout_ms: Option<u64>) -> (r: InjectTerminalPlan)
        ensures
            inject_planned(r, *self, node_id, wait, timeout_ms),
    {
        let w = match wait {
            Some(b) => b,
            None => true,
        };
        if !w {
            return InjectTerminalPlan::Accepted(AutomationOutcome {
                data: OutcomeData::InjectAccepted { version: self.automation_state_version },
                affected_ids: one_id(node_id),
            });
        }
        let t = match timeout_ms {
            Some(t) => t,
            None => 30000,
        };
        InjectTerminalPlan::Run { timeout_ms: if t < 1 {
            1
        } else {
            t
        } }
    }
}


/// The answered request ids, in order.
pub open spec fn answered_ids(s: Seq<(String, AutomationResponse)>) -> Seq<Seq<char>> {
    s.map_values(|e: (String, AutomationResponse)| e.0@)
}

/// The answer kept for a request id: the first one kept under that id.
pub open spec fn found_answer(s: Seq<(String, AutomationResponse)>, id: Seq<char>) -> Option<AutomationResponse>
    decreases s.len(),
{
    if s.len() == 0 {
        None
    } else if s[0].0@ == id {
        Some(s[0].1)
    } else {
        found_answer(s.drop_first(), id)
    }
}

/// Two answers agree field by field: the request id, the outcome, the JSON
/// data, the error with its details, and all of the diagnostics.
pub open spec fn same_answer(a: AutomationResponse, b: AutomationResponse) -> bool {
    &&& opt_view(a.request_id) == opt_view(b.request_id)
    &&& a.ok == b.ok
    &&& a.data == b.data
    &&& (a.error is Some <==> b.error is Some)
    &&& (a.error matches Some(e) ==> e.code@ == b.error->0.code@ && e.message@ == b.error->0.message@
        && e.details == b.error->0.details)
    &&& a.diagnostics.action@ == b.diagnostics.action@
    &&& a.diagnostics.queue_ms == b.diagnostics.queue_ms
    &&& a.diagnostics.exec_ms == b.diagnostics.exec_ms
    &&& a.diagnostics.total_ms == b.diagnostics.total_ms
    &&& a.diagnostics.state_version == b.diagnostics.state_version
    &&& a.diagnostics.state_timestamp_ms == b.diagnostics.state_timestamp_ms
    &&& a.diagnostics.affected_ids@ == b.diagnostics.affected_ids@
}

proof fn lemma_found_answer_at(s: Seq<(String, AutomationResponse)>, id: Seq<char>, k: int)
    requires
        0 <= k < s.len(),
        s[k].0@ == id,
        forall|j: int| 0 <= j < k ==> #[trigger] s[j].0@ != id,
    ensures
        found_answer(s, id) == Some(s[k].1),
    decreases k,
{
    if k > 0 {
        assert(s[0].0@ != id);
        assert forall|j: int| 0 <= j < k - 1 implies #[trigger] s.drop_first()[j].0@ != id by {
            assert(s.drop_first()[j] == s[j + 1]);
        }
        lemma_found_answer_at(s.drop_first(), id, k - 1);
    }
}

proof fn lemma_found_answer_none(s: Seq<(String, AutomationResponse)>, id: Seq<char>)
    requires
        forall|j: int| 0 <= j < s.len() ==> #[trigger] s[j].0@ != id,
    ensures
        found_answer(s, id) is None,
    decreases s.len(),
{
    if s.len() > 0 {
        assert(s[0].0@ != id);
        assert forall|j: int| 0 <= j < s.len() - 1 implies #[trigger] s.drop_first()[j].0@ != id by {
            assert(s.drop_first()[j] == s[j + 1]);
        }
        lemma_found_answer_none(s.drop_first(), id);
    }
}

impl Workspace {
    /// A copy of the answer already given to a request id, if there is one.
    pub fn processed_response(&self, request_id: &str) -> (r: Option<AutomationResponse>)
        ensures
            r is Some <==> answered_ids(self.processed_automation_requests@).contains(request_id@),
            r is Some <==> found_answer(self.processed_automation_requests@, request_id@) is Some,
            r matches Some(resp) ==> same_answer(resp, found_answer(self.processed_automation_requests@, request_id@)->0),
    {
        let v = &self.processed_automation_requests;
        let mut i: usize = 0;
        while i < v.len()
            invariant
                i <= v@.len(),
                v == &self.processed_automation_requests,
                forall|j: int| 0 <= j < i ==> #[trigger] v@[j].0@ != request_id@,
            decreases v@.len() - i,
        {
            if str_eq(v[i].0.as_str(), request_id) {
                assert(answered_ids(v@)[i as int] == request_id@);
                proof {
                    lemma_found_answer_at(v@, request_id@, i as int);
                }
                return Some(v[i].1.copy());
            }
            i = i + 1;
        }
        proof {
            if answered_ids(v@).contains(request_id@) {
                let k = choose|k: int| 0 <= k < answered_ids(v@).len() && answered_ids(v@)[k] == request_id@;
                assert(v@[k].0@ == request_id@);
            }
            lemma_found_answer_none(v@, request_id@);
        }
        None
    }

    /// Keeps the answer given to a request id, replacing an earlier answer to
    /// the same id.
    pub fn remember_response(&mut self, request_id: &str, response: AutomationResponse)
        ensures
            answered_ids(final(self).processed_automation_requests@) == (if answered_ids(
                old(self).processed_automation_requests@,
            ).contains(request_id@) {
                answered_ids(old(self).processed_automation_requests@)
            } else {
                answered_ids(old(self).processed_automation_requests@).push(request_id@)
            }),
            found_answer(final(self).processed_automation_requests@, request_id@) == Some(response),
            final(self).graph == old(self).graph,
            final(self).selection == old(self).selection,
            final(self).history == old(self).history,
            final(self).workspace_dirty == old(self).workspace_dirty,
            final(self).automation_state_version == old(self).automation_state_version,
    {
        let ghost o = answered_ids(self.processed_automation_requests@);
        let mut i: usize = 0;
        while i < self.processed_automation_requests.len()
            invariant
                i <= self.processed_automation_requests@.len(),
                o == answered_ids(self.processed_automation_requests@),
                forall|j: int| 0 <= j < i ==> #[trigger] o[j] != request_id@,
                self.processed_automation_requests == old(self).processed_automation_requests,
                self.graph == old(self).graph,
                self.selection == old(self).selection,
                self.history == old(self).history,
                self.workspace_dirty == old(self).workspace_dirty,
                self.automation_state_version == old(self).automation_state_version,
            decreases self.processed_automation_requests@.len() - i,
        {
            if str_eq(self.processed_automation_requests[i].0.as_str(), request_id) {
                let ghost before = self.processed_automation_requests@;
                let _ = self.processed_automation_requests.remove(i);
                self.processed_automation_requests.insert(i, (owned(request_id), response));
                proof {
                    assert(answered_ids(self.processed_automation_requests@) =~= o);
                    assert forall|j: int| 0 <= j < i implies #[trigger] self.processed_automation_requests@[j].0@ != request_id@ by {
                        assert(self.processed_automation_requests@[j] == before[j]);
                        assert(o[j] == before[j].0@);
                    }
                    lemma_found_answer_at(self.processed_automation_requests@, request_id@, i as int);
                    assert(o.contains(request_id@)) by {
                        assert(o[i as int] == request_id@);
                    }
                }
                return;
            }
            i = i + 1;
        }
        let ghost before = self.processed_automation_requests@;
        self.processed_automation_requests.push((owned(request_id), response));
        proof {
            assert(answered_ids(self.processed_automation_requests@) =~= o.push(request_id@));
            assert forall|j: int| 0 <= j < before.len() implies #[trigger] self.processed_automation_requests@[j].0@ != request_id@ by {
                assert(self.processed_automation_requests@[j] == before[j]);
                assert(o[j] == before[j].0@);
            }
            lemma_found_answer_at(self.processed_automation_requests@, request_id@, before.len() as int);
            if o.contains(request_id@) {
                let k = choose|k: int| 0 <= k < o.len() && o[k] == request_id@;
            }
        }
    }
}

/// What to do with an incoming automation request: send back the answer
/// kept for its request id, or carry it out.
pub enum AutomationStart {
    Replay(AutomationResponse),
    Run,
}

impl Workspace {
    /// Decides how to answer a request: one whose request id was answered
    /// before gets the kept answer again; any other is carried out.
    pub fn start_automation_call(&self, request_id: &Option<String>) -> (r: AutomationStart)
        ensures
            request_id is None ==> r is Run,
            request_id matches Some(id) ==> match found_answer(self.processed_automation_requests@, id@) {
                Some(kept) => r matches AutomationStart::Replay(x) && same_answer(x, kept),
                None => r is Run,
            },
    {
        match request_id {
            None => AutomationStart::Run,
            Some(id) => match self.processed_response(id.as_str()) {
                Some(previous) => AutomationStart::Replay(previous),
                None => AutomationStart::Run,
            },
        }
    }

    /// Keeps the answer to a request that was carried out under its request
    /// id, where it has one, and hands the answer back to be sent.
    pub fn finish_automation_call(&mut self, response: AutomationResponse) -> (r: AutomationResponse)
        ensures
            same_answer(r, response),
            response.request_id is None ==> final(self).processed_automation_requests
                == old(self).processed_automation_requests,
            response.request_id matches Some(id) ==> found_answer(final(self).processed_automation_requests@, id@)
                matches Some(kept) && same_answer(kept, response),
            final(self).graph == old(self).graph,
            final(self).selection == old(self).selection,
            final(self).history == old(self).history,
            final(self).workspace_dirty == old(self).workspace_dirty,
            final(self).automation_state_version == old(self).automation_state_version,
    {
        let kept = response.copy();
        match &response.request_id {
            Some(id) => {
                self.remember_response(id.as_str(), kept);
            },
            None => {},
        }
        response
    }
}

/// Answering a request and then receiving it again under the same request
/// id replays the first answer, field by field, JSON data included: the
/// second call is not carried out. `after`
/// is the workspace as `finish_automation_call` left it for `response`, and
/// `replay` what `start_automation_call` decides there for the same id.
pub proof fn law_repeated_request_is_replayed(
    after: Workspace,
    id: String,
    response: AutomationResponse,
    replay: AutomationStart,
)
    requires
        response.request_id == Some(id),
        found_answer(after.processed_automation_requests@, id@) matches Some(kept) && same_answer(kept, response),
        match found_answer(after.processed_automation_requests@, id@) {
            Some(kept) => replay matches AutomationStart::Replay(x) && same_answer(x, kept),
            None => replay is Run,
        },
    ensures
        replay matches AutomationStart::Replay(x) && same_answer(x, response),
{
}

} // verus!
