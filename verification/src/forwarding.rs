//! Passing messages along edges: from a finished terminal, a completed text
//! node or a decision node to the terminals and decision queues downstream.
use crate::model::{DataView, NodeData, NodeKind, NodeView};
use crate::queue::{effective_queue, nonblank, normalized_queue, pending_len, with_queue};
use crate::terminal::{inject_v, term_view, TermView};
use crate::text::{trim, trim_end_line_breaks, trim_end_line_breaks_str};
use crate::notifications::toast_msgs;
use crate::protocol::DoneEvent;
use crate::routes::shown_route;
use crate::text::{concat3, decimal, owned, push_decimal, push_str, str_eq, trim_str};
use crate::model::opt_view;
use crate::workspace::{bumped, Workspace};
use vstd::prelude::*;

verus! {

/// What forwarding a message can change: the nodes (decision queues), what
/// the shells are told, the dirty flag and the state version.
pub struct FwdView {
    pub nodes: Seq<NodeView>,
    pub term: TermView,
    pub dirty: bool,
    pub version: u64,
}

pub open spec fn fwd_view(w: Workspace) -> FwdView {
    FwdView {
        nodes: w.graph.nodes_v(),
        term: term_view(w.terminals),
        dirty: w.workspace_dirty,
        version: w.automation_state_version,
    }
}

/// The position of the node with the id, if there is one.
pub open spec fn node_index(nodes: Seq<NodeView>, id: usize) -> Option<int> {
    if exists|i: int| 0 <= i < nodes.len() && nodes[i].id == id {
        Some(choose|i: int| 0 <= i < nodes.len() && nodes[i].id == id)
    } else {
        None
    }
}

/// A decision node's content with the trimmed message queued, when the
/// message is not blank.
pub open spec fn enqueue_v(d: DataView, msg: Seq<char>) -> DataView {
    match d {
        DataView::Decision { pending_messages, .. } => if nonblank(msg) {
            with_queue(d, pending_messages.push(trim(msg)))
        } else {
            d
        },
        _ => d,
    }
}

/// Whether a decision node takes the message: its content is a decision and
/// the message is not blank.
pub open spec fn takes_message(d: DataView, msg: Seq<char>) -> bool {
    d is Decision && nonblank(msg)
}

/// Forwarding a message to one node, and whether it was delivered: a
/// terminal gets the message and a carriage return; a decision node queues
/// it (and the workspace becomes dirty); other nodes take nothing.
pub open spec fn forward_step(s: FwdView, target: usize, msg: Seq<char>) -> (FwdView, bool) {
    match node_index(s.nodes, target) {
        None => (s, false),
        Some(i) => if s.nodes[i].kind == NodeKind::Terminal {
            (FwdView { term: inject_v(inject_v(s.term, target, msg), target, "\r"@), ..s }, true)
        } else if s.nodes[i].kind == NodeKind::Decision && takes_message(s.nodes[i].data, msg) {
            (
                FwdView {
                    nodes: s.nodes.update(i, NodeView { data: enqueue_v(s.nodes[i].data, msg), ..s.nodes[i] }),
                    dirty: true,
                    version: bumped(s.version),
                    ..s
                },
                true,
            )
        } else {
            (s, false)
        },
    }
}

/// Forwarding a message to each target in turn, and how many took it.
pub open spec fn forward_all(s: FwdView, targets: Seq<usize>, msg: Seq<char>) -> (FwdView, nat)
    decreases targets.len(),
{
    if targets.len() == 0 {
        (s, 0)
    } else {
        let (p, c) = forward_all(s, targets.drop_last(), msg);
        let (n, d) = forward_step(p, targets.last(), msg);
        (n, if d {
            c + 1
        } else {
            c
        })
    }
}

/// The text handed on from a message: its trailing line breaks cut.
pub fn build_injected_text_block(body: &str) -> (r: String)
    ensures
        r@ == trim_end_line_breaks(body@),
{
    trim_end_line_breaks_str(body)
}

/// The parts of the workspace that forwarding leaves alone are the same.
pub open spec fn forward_frame(o: Workspace, n: Workspace) -> bool {
    &&& quiet_frame(o, n)
    &&& n.toast_notifications == o.toast_notifications
    &&& n.next_toast_id == o.next_toast_id
}

/// The parts of the workspace that forwarding leaves alone, apart from the
/// notices, are the same.
pub open spec fn quiet_frame(o: Workspace, n: Workspace) -> bool {
    &&& n.wf()
    &&& n.graph.edges == o.graph.edges
    &&& n.graph.edge_route_keys == o.graph.edge_route_keys
    &&& n.graph.next_node_id == o.graph.next_node_id
    &&& n.selection == o.selection
    &&& n.history == o.history
    &&& n.edit == o.edit
    &&& n.ui == o.ui
    &&& n.terminals.exited == o.terminals.exited
    &&& n.terminals.errors == o.terminals.errors
    &&& n.terminals.pending_starts == o.terminals.pending_starts
    &&& n.workspace_name == o.workspace_name
    &&& n.editing_workspace_name == o.editing_workspace_name
    &&& n.pending_workspace_name_focus == o.pending_workspace_name_focus
    &&& n.workspace_name_edit_buffer == o.workspace_name_edit_buffer
    &&& n.processed_automation_requests == o.processed_automation_requests
    &&& n.node_clipboard == o.node_clipboard
    &&& n.active_graph_path == o.active_graph_path
}

impl Workspace {
    /// Queues a message on a decision node: `false` when the node is missing,
    /// is no decision node, or the message is blank.
    pub fn enqueue_decision_message(&mut self, node_id: usize, message: &str) -> (r: bool)
        requires
            old(self).wf(),
        ensures
            forward_frame(*old(self), *final(self)),
            term_view(final(self).terminals) == term_view(old(self).terminals),
            match node_index(old(self).graph.nodes_v(), node_id) {
                None => !r && fwd_view(*final(self)) == fwd_view(*old(self)),
                Some(i) => if takes_message(old(self).graph.nodes_v()[i].data, message@) {
                    &&& r
                    &&& final(self).graph.nodes_v() == old(self).graph.nodes_v().update(
                        i,
                        NodeView {
                            data: enqueue_v(old(self).graph.nodes_v()[i].data, message@),
                            ..old(self).graph.nodes_v()[i]
                        },
                    )
                    &&& final(self).workspace_dirty
                    &&& final(self).automation_state_version == bumped(old(self).automation_state_version)
                } else {
                    !r && fwd_view(*final(self)) == fwd_view(*old(self))
                },
            },
    {
        match self.graph.find_node_index(node_id) {
            None => {
                proof {
                    lemma_node_index_none(self.graph, node_id);
                }
                false
            },
            Some(i) => {
                proof {
                    lemma_node_index_some(self.graph, node_id, i as int);
                }
                self.enqueue_at(i, message)
            },
        }
    }

    fn enqueue_at(&mut self, i: usize, message: &str) -> (r: bool)
        requires
            old(self).wf(),
            i < old(self).graph.nodes@.len(),
        ensures
            forward_frame(*old(self), *final(self)),
            term_view(final(self).terminals) == term_view(old(self).terminals),
            if takes_message(old(self).graph.nodes_v()[i as int].data, message@) {
                &&& r
                &&& final(self).graph.nodes_v() == old(self).graph.nodes_v().update(
                    i as int,
                    NodeView {
                        data: enqueue_v(old(self).graph.nodes_v()[i as int].data, message@),
                        ..old(self).graph.nodes_v()[i as int]
                    },
                )
                &&& final(self).workspace_dirty
                &&& final(self).automation_state_version == bumped(old(self).automation_state_version)
            } else {
                !r && fwd_view(*final(self)) == fwd_view(*old(self))
            },
    {
        let mut node = self.graph.nodes[i].copy();
        let ghost before = self.graph.nodes@;
        let ok = node.data.enqueue_decision_message(message);
        if !ok {
            return false;
        }
        self.graph.nodes.set(i, node);
        proof {
            assert(crate::model::node_views(self.graph.nodes@) =~= crate::model::node_views(before).update(
                i as int,
                NodeView { data: enqueue_v(crate::model::node_views(before)[i as int].data, message@), ..crate::model::node_views(before)[i as int] },
            ));
            assert forall|a: int, b: int| 0 <= a < b < self.graph.nodes@.len() implies #[trigger] self.graph.nodes@[a].id != #[trigger] self.graph.nodes@[b].id by {
                assert(before[a].id != before[b].id);
                assert(self.graph.nodes@[a].id == before[a].id);
                assert(self.graph.nodes@[b].id == before[b].id);
            }
            assert forall|a: int| 0 <= a < self.graph.nodes@.len() implies #[trigger] self.graph.nodes@[a].id < self.graph.next_node_id by {
                assert(self.graph.nodes@[a].id == before[a].id);
            }
        }
        self.mark_workspace_dirty();
        true
    }

    /// Passes a message to one node; `true` when the node took it.
    pub fn forward_message_to_node(&mut self, target_id: usize, message: &str) -> (r: bool)
        requires
            old(self).wf(),
        ensures
            forward_frame(*old(self), *final(self)),
            (fwd_view(*final(self)), r) == forward_step(fwd_view(*old(self)), target_id, message@),
    {
        match self.graph.find_node_index(target_id) {
            None => {
                proof {
                    lemma_node_index_none(self.graph, target_id);
                }
                false
            },
            Some(i) => {
                proof {
                    lemma_node_index_some(self.graph, target_id, i as int);
                }
                match self.graph.nodes[i].kind {
                    NodeKind::Terminal => {
                        self.terminals.inject_text(target_id, message);
                        self.terminals.inject_text(target_id, "\r");
                        true
                    },
                    NodeKind::Decision => self.enqueue_at(i, message),
                    _ => false,
                }
            },
        }
    }

    /// Passes a message to each target in turn; returns how many took it.
    pub fn forward_message_to_targets(&mut self, target_ids: &Vec<usize>, message: &str) -> (r: usize)
        requires
            old(self).wf(),
        ensures
            forward_frame(*old(self), *final(self)),
            (fwd_view(*final(self)), r as nat) == forward_all(fwd_view(*old(self)), target_ids@, message@),
    {
        let mut delivered: usize = 0;
        let mut k: usize = 0;
        while k < target_ids.len()
            invariant
                k <= target_ids@.len(),
                delivered <= k,
                forward_frame(*old(self), *self),
                (fwd_view(*self), delivered as nat) == forward_all(
                    fwd_view(*old(self)),
                    target_ids@.subrange(0, k as int),
                    message@,
                ),
            decreases target_ids@.len() - k,
        {
            proof {
                assert(target_ids@.subrange(0, k + 1).drop_last() =~= target_ids@.subrange(0, k as int));
            }
            if self.forward_message_to_node(target_ids[k], message) {
                delivered = delivered + 1;
            }
            k = k + 1;
        }
        assert(target_ids@.subrange(0, k as int) =~= target_ids@);
        delivered
    }
}

pub proof fn lemma_node_index_none(g: crate::workspace::Graph, id: usize)
    requires
        !crate::workspace::has_node_id(g.nodes@, id),
    ensures
        node_index(g.nodes_v(), id) is None,
{
    if exists|i: int| 0 <= i < g.nodes_v().len() && g.nodes_v()[i].id == id {
        let i = choose|i: int| 0 <= i < g.nodes_v().len() && g.nodes_v()[i].id == id;
        assert(g.nodes@[i].id == id);
    }
}

pub proof fn lemma_node_index_some(g: crate::workspace::Graph, id: usize, i: int)
    requires
        g.wf(),
        0 <= i < g.nodes@.len(),
        g.nodes@[i].id == id,
    ensures
        node_index(g.nodes_v(), id) == Some(i),
{
    assert(g.nodes_v()[i].id == id);
    let j = choose|j: int| 0 <= j < g.nodes_v().len() && g.nodes_v()[j].id == id;
    if j != i {
        if j < i {
            assert(g.nodes@[j].id != g.nodes@[i].id);
        } else {
            assert(g.nodes@[i].id != g.nodes@[j].id);
        }
    }
}


/// How a decision queue operation ends: whether it did something and the
/// node's content after it (the queue is normalized first).
pub open spec fn queue_op(d: DataView, which: QueueOp) -> (bool, DataView) {
    match d {
        DataView::Decision { pending_message, pending_messages, .. } => {
            let q = normalized_queue(pending_message, pending_messages);
            if q.len() > 0 {
                (true, with_queue(d, match which {
                    QueueOp::First => q.drop_first(),
                    QueueOp::Last => q.drop_last(),
                    QueueOp::All => Seq::empty(),
                }))
            } else {
                (false, with_queue(d, q))
            }
        },
        _ => (false, d),
    }
}

/// Which messages a clearing removes.
pub enum QueueOp {
    First,
    Last,
    All,
}

impl Workspace {
    /// The number of messages waiting at a decision node; zero for a missing
    /// node or another kind.
    pub fn decision_pending_queue_len(&self, node_id: usize) -> (r: usize)
        requires
            self.wf(),
        ensures
            r as nat == match node_index(self.graph.nodes_v(), node_id) {
                Some(i) => match self.graph.nodes_v()[i].data {
                    DataView::Decision { pending_message, pending_messages, .. } => pending_len(
                        pending_message,
                        pending_messages,
                    ),
                    _ => 0nat,
                },
                None => 0nat,
            },
    {
        match self.graph.find_node_index(node_id) {
            Some(i) => {
                proof {
                    lemma_node_index_some(self.graph, node_id, i as int);
                }
                match self.graph.nodes[i].data.pending_queue_len() {
                    Some(n) => n,
                    None => 0,
                }
            },
            None => {
                proof {
                    lemma_node_index_none(self.graph, node_id);
                }
                0
            },
        }
    }

    /// The number of waiting messages of a decision node and the first of
    /// them; zero and an empty text for a missing node or another kind.
    pub fn decision_queue_preview(&self, node_id: usize) -> (r: (usize, String))
        requires
            self.wf(),
        ensures
            match node_index(self.graph.nodes_v(), node_id) {
                Some(i) => match self.graph.nodes_v()[i].data {
                    DataView::Decision { pending_message, pending_messages, .. } => {
                        let q = effective_queue(pending_message, pending_messages);
                        &&& r.0 == q.len()
                        &&& r.1@ == (if q.len() > 0 {
                            q[0]
                        } else {
                            Seq::<char>::empty()
                        })
                    },
                    _ => r.0 == 0 && r.1@.len() == 0,
                },
                None => r.0 == 0 && r.1@.len() == 0,
            },
    {
        match self.graph.find_node_index(node_id) {
            Some(i) => {
                proof {
                    lemma_node_index_some(self.graph, node_id, i as int);
                }
                match self.graph.nodes[i].data.queue_preview() {
                    Some(p) => p,
                    None => (0, String::new()),
                }
            },
            None => {
                proof {
                    lemma_node_index_none(self.graph, node_id);
                }
                (0, String::new())
            },
        }
    }

    /// Runs a clearing on a decision node's queue; the workspace becomes dirty
    /// when it removed something.
    fn clear_decision_pending(&mut self, node_id: usize, which: QueueOp) -> (r: bool)
        requires
            old(self).wf(),
        ensures
            forward_frame(*old(self), *final(self)),
            term_view(final(self).terminals) == term_view(old(self).terminals),
            match node_index(old(self).graph.nodes_v(), node_id) {
                None => !r && *final(self) == *old(self),
                Some(i) => {
                    let (done, d) = queue_op(old(self).graph.nodes_v()[i].data, which);
                    &&& r == done
                    &&& final(self).graph.nodes_v() == old(self).graph.nodes_v().update(
                        i,
                        NodeView { data: d, ..old(self).graph.nodes_v()[i] },
                    )
                    &&& final(self).workspace_dirty == (old(self).workspace_dirty || done)
                    &&& final(self).automation_state_version == (if done {
                        bumped(old(self).automation_state_version)
                    } else {
                        old(self).automation_state_version
                    })
                },
            },
    {
        match self.graph.find_node_index(node_id) {
            None => {
                proof {
                    lemma_node_index_none(self.graph, node_id);
                }
                false
            },
            Some(i) => {
                proof {
                    lemma_node_index_some(self.graph, node_id, i as int);
                }
                let mut node = self.graph.nodes[i].copy();
                let ghost before = self.graph.nodes@;
                let done = match which {
                    QueueOp::First => node.data.clear_pending_first(),
                    QueueOp::Last => node.data.clear_pending_last(),
                    QueueOp::All => node.data.clear_pending_all(),
                };
                self.graph.nodes.set(i, node);
                proof {
                    assert(crate::model::node_views(self.graph.nodes@) =~= crate::model::node_views(before).update(
                        i as int,
                        NodeView { data: queue_op(crate::model::node_views(before)[i as int].data, which).1, ..crate::model::node_views(before)[i as int] },
                    ));
                    assert forall|a: int, b: int| 0 <= a < b < self.graph.nodes@.len() implies #[trigger] self.graph.nodes@[a].id != #[trigger] self.graph.nodes@[b].id by {
                        assert(before[a].id != before[b].id);
                        assert(self.graph.nodes@[a].id == before[a].id);
                        assert(self.graph.nodes@[b].id == before[b].id);
                    }
                    assert forall|a: int| 0 <= a < self.graph.nodes@.len() implies #[trigger] self.graph.nodes@[a].id < self.graph.next_node_id by {
                        assert(self.graph.nodes@[a].id == before[a].id);
                    }
                }
                if done {
                    self.mark_workspace_dirty();
                }
                done
            },
        }
    }

    /// Removes the first waiting message of a decision node.
    pub fn clear_decision_pending_first(&mut self, node_id: usize) -> (r: bool)
        requires
            old(self).wf(),
        ensures
            forward_frame(*old(self), *final(self)),
            match node_index(old(self).graph.nodes_v(), node_id) {
                None => !r && *final(self) == *old(self),
                Some(i) => {
                    let (done, d) = queue_op(old(self).graph.nodes_v()[i].data, QueueOp::First);
                    &&& r == done
                    &&& final(self).graph.nodes_v() == old(self).graph.nodes_v().update(
                        i,
                        NodeView { data: d, ..old(self).graph.nodes_v()[i] },
                    )
                    &&& final(self).workspace_dirty == (old(self).workspace_dirty || done)
                },
            },
    {
        self.clear_decision_pending(node_id, QueueOp::First)
    }

    /// Removes the last waiting message of a decision node.
    pub fn clear_decision_pending_last(&mut self, node_id: usize) -> (r: bool)
        requires
            old(self).wf(),
        ensures
            forward_frame(*old(self), *final(self)),
            match node_index(old(self).graph.nodes_v(), node_id) {
                None => !r && *final(self) == *old(self),
                Some(i) => {
                    let (done, d) = queue_op(old(self).graph.nodes_v()[i].data, QueueOp::Last);
                    &&& r == done
                    &&& final(self).graph.nodes_v() == old(self).graph.nodes_v().update(
                        i,
                        NodeView { data: d, ..old(self).graph.nodes_v()[i] },
                    )
                    &&& final(self).workspace_dirty == (old(self).workspace_dirty || done)
                },
            },
    {
        self.clear_decision_pending(node_id, QueueOp::Last)
    }

    /// Empties the queue of a decision node.
    pub fn clear_decision_pending_all(&mut self, node_id: usize) -> (r: bool)
        requires
            old(self).wf(),
        ensures
            forward_frame(*old(self), *final(self)),
            match node_index(old(self).graph.nodes_v(), node_id) {
                None => !r && *final(self) == *old(self),
                Some(i) => {
                    let (done, d) = queue_op(old(self).graph.nodes_v()[i].data, QueueOp::All);
                    &&& r == done
                    &&& final(self).graph.nodes_v() == old(self).graph.nodes_v().update(
                        i,
                        NodeView { data: d, ..old(self).graph.nodes_v()[i] },
                    )
                    &&& final(self).workspace_dirty == (old(self).workspace_dirty || done)
                },
            },
    {
        self.clear_decision_pending(node_id, QueueOp::All)
    }
}


/// The id of the first node with the uid.
pub open spec fn first_uid_id(nodes: Seq<NodeView>, uid: Seq<char>) -> Option<usize>
    decreases nodes.len(),
{
    if nodes.len() == 0 {
        None
    } else if nodes[0].uid == uid {
        Some(nodes[0].id)
    } else {
        first_uid_id(nodes.drop_first(), uid)
    }
}

/// The targets of the edges that leave `source`, in order; with a route,
/// only those whose route key is that route.
pub open spec fn targets_of(
    edges: Seq<(usize, usize)>,
    source: usize,
    route: Option<Seq<char>>,
    routes: Map<(usize, usize), Seq<char>>,
) -> Seq<usize>
    decreases edges.len(),
{
    if edges.len() == 0 {
        Seq::empty()
    } else {
        let prev = targets_of(edges.drop_last(), source, route, routes);
        let e = edges.last();
        let keep = e.0 == source && match route {
            Some(r) => shown_route(routes, e.0, e.1) == Some(r),
            None => true,
        };
        if keep {
            prev.push(e.1)
        } else {
            prev
        }
    }
}

/// The route of a done event: its route key trimmed, where not blank.
pub open spec fn done_route(r: Option<Seq<char>>) -> Option<Seq<char>> {
    match r {
        Some(k) => if trim(k).len() > 0 {
            Some(trim(k))
        } else {
            None
        },
        None => None,
    }
}

/// The notice for a route with no edge.
pub open spec fn no_route_notice(route: Seq<char>) -> Seq<char> {
    "未找到 route_key = '"@ + route + "' 的下游连线"@
}

/// The notice for matching edges whose targets took nothing.
pub open spec fn nothing_taken_notice() -> Seq<char> {
    "匹配到连线，但无可接收消息的下游节点（仅支持终端/决策）"@
}

/// One notice more, with the next notice id.
pub open spec fn noticed(o: Workspace, n: Workspace, msg: Seq<char>) -> bool {
    &&& toast_msgs(n.toast_notifications@) == toast_msgs(o.toast_notifications@).push((o.next_toast_id, msg))
    &&& n.next_toast_id == o.next_toast_id + 1
}

/// No notice more.
pub open spec fn unnoticed(o: Workspace, n: Workspace) -> bool {
    &&& n.toast_notifications == o.toast_notifications
    &&& n.next_toast_id == o.next_toast_id
}

impl Workspace {
    fn first_node_with_uid(&self, uid: &str) -> (r: Option<usize>)
        ensures
            r == first_uid_id(self.graph.nodes_v(), uid@),
    {
        let ghost v = self.graph.nodes_v();
        assert(v.subrange(0, v.len() as int) =~= v);
        let mut i: usize = 0;
        while i < self.graph.nodes.len()
            invariant
                i <= v.len(),
                v == self.graph.nodes_v(),
                first_uid_id(v, uid@) == first_uid_id(v.subrange(i as int, v.len() as int), uid@),
            decreases v.len() - i,
        {
            let ghost rest = v.subrange(i as int, v.len() as int);
            assert(rest[0] == v[i as int]);
            if str_eq(self.graph.nodes[i].uid.as_str(), uid) {
                return Some(self.graph.nodes[i].id);
            }
            assert(rest.drop_first() =~= v.subrange(i + 1, v.len() as int));
            i = i + 1;
        }
        None
    }

    /// The targets of the edges that leave `source`; with a route, only those
    /// whose route key is that route.
    pub fn downstream_ids(&self, source: usize, route: Option<&str>) -> (r: Vec<usize>)
        requires
            self.graph.wf(),
        ensures
            r@ == targets_of(
                self.graph.edges@,
                source,
                crate::naming::opt_str_view(route),
                self.graph.routes(),
            ),
    {
        let ghost rv = crate::naming::opt_str_view(route);
        let mut out: Vec<usize> = Vec::new();
        let mut k: usize = 0;
        while k < self.graph.edges.len()
            invariant
                self.graph.wf(),
                k <= self.graph.edges@.len(),
                rv == crate::naming::opt_str_view(route),
                out@ == targets_of(self.graph.edges@.subrange(0, k as int), source, rv, self.graph.routes()),
            decreases self.graph.edges@.len() - k,
        {
            proof {
                assert(self.graph.edges@.subrange(0, k + 1).drop_last() =~= self.graph.edges@.subrange(0, k as int));
            }
            let e = self.graph.edges[k];
            if e.0 == source {
                let keep = match route {
                    Some(expected) => match self.graph.edge_route_key(e.0, e.1) {
                        Some(actual) => str_eq(actual.as_str(), expected),
                        None => false,
                    },
                    None => true,
                };
                if keep {
                    out.push(e.1);
                }
            }
            k = k + 1;
        }
        assert(self.graph.edges@.subrange(0, k as int) =~= self.graph.edges@);
        out
    }

    /// A terminal reported that it is done: its summary goes to the nodes
    /// downstream of it (along the edges with its route, when it names one).
    /// A notice tells when no edge matches a named route, or when no target
    /// took the summary. Events from unknown uids are ignored.
    pub fn handle_done_event(&mut self, event: DoneEvent)
        requires
            old(self).wf(),
            old(self).next_toast_id < u64::MAX,
        ensures
            quiet_frame(*old(self), *final(self)),
            match first_uid_id(old(self).graph.nodes_v(), event.node_uid@) {
                None => *final(self) == *old(self),
                Some(src) => {
                    let route = done_route(opt_view(event.route_key));
                    let ts = targets_of(old(self).graph.edges@, src, route, old(self).graph.routes());
                    if ts.len() == 0 {
                        &&& fwd_view(*final(self)) == fwd_view(*old(self))
                        &&& match route {
                            Some(e) => noticed(*old(self), *final(self), no_route_notice(e)),
                            None => unnoticed(*old(self), *final(self)),
                        }
                    } else {
                        let (f, c) = forward_all(fwd_view(*old(self)), ts, trim_end_line_breaks(event.summary@));
                        &&& fwd_view(*final(self)) == f
                        &&& c == 0 ==> noticed(*old(self), *final(self), nothing_taken_notice())
                        &&& c > 0 ==> unnoticed(*old(self), *final(self))
                    }
                },
            },
    {
        let source_id = match self.first_node_with_uid(event.node_uid.as_str()) {
            Some(id) => id,
            None => {
                return;
            },
        };
        let trimmed: Option<String> = match &event.route_key {
            Some(k) => {
                let t = trim_str(k.as_str());
                if t.as_str().is_empty() {
                    None
                } else {
                    Some(t)
                }
            },
            None => None,
        };
        let route: Option<&str> = match &trimmed {
            Some(t) => Some(t.as_str()),
            None => None,
        };
        let downstream = self.downstream_ids(source_id, route);
        if downstream.len() == 0 {
            if let Some(expected) = route {
                self.push_toast_notification(concat3("未找到 route_key = '", expected, "' 的下游连线"));
            }
            return;
        }
        let injected = build_injected_text_block(event.summary.as_str());
        let delivered = self.forward_message_to_targets(&downstream, injected.as_str());
        if delivered == 0 {
            self.push_toast_notification(owned("匹配到连线，但无可接收消息的下游节点（仅支持终端/决策）"));
        }
    }
}


/// Taking the first message of a decision node's normalized queue: the
/// message, if any, and the content after it.
pub open spec fn take_first_v(d: DataView) -> (Option<Seq<char>>, DataView) {
    match d {
        DataView::Decision { pending_message, pending_messages, .. } => {
            let q = normalized_queue(pending_message, pending_messages);
            if q.len() > 0 {
                (Some(q[0]), with_queue(d, q.drop_first()))
            } else {
                (None, with_queue(d, q))
            }
        },
        _ => (None, d),
    }
}

/// Draining up to `n` messages of a decision node to the targets: each is
/// taken off the queue and forwarded, trimmed; the count is of messages that
/// some target took.
pub open spec fn drain(s: FwdView, node_id: usize, ts: Seq<usize>, n: nat) -> (FwdView, nat)
    decreases n,
{
    if n == 0 {
        (s, 0)
    } else {
        match node_index(s.nodes, node_id) {
            None => (s, 0),
            Some(i) => {
                let (m, d) = take_first_v(s.nodes[i].data);
                let s1 = FwdView { nodes: s.nodes.update(i, NodeView { data: d, ..s.nodes[i] }), ..s };
                match m {
                    None => (s1, 0),
                    Some(msg) => {
                        let (s2, c) = forward_all(s1, ts, trim(msg));
                        let (s3, k) = drain(s2, node_id, ts, (n - 1) as nat);
                        (s3, k + if c > 0 {
                            1nat
                        } else {
                            0nat
                        })
                    },
                }
            },
        }
    }
}

pub open spec fn text_of(nodes: Seq<NodeView>, id: usize) -> Option<Seq<char>> {
    match node_index(nodes, id) {
        Some(i) => match nodes[i].data {
            DataView::Text { text_body, .. } => Some(trim(text_body)),
            _ => None,
        },
        None => None,
    }
}

impl Workspace {
    /// Hands a text node's text, trimmed, to the nodes downstream of it, and
    /// tells how it went in a notice.
    pub fn complete_text_node_and_forward(&mut self, node_id: usize)
        requires
            old(self).wf(),
            old(self).next_toast_id < u64::MAX,
        ensures
            quiet_frame(*old(self), *final(self)),
            match text_of(old(self).graph.nodes_v(), node_id) {
                None => *final(self) == *old(self),
                Some(t) => {
                    let ts = targets_of(old(self).graph.edges@, node_id, None, old(self).graph.routes());
                    if t.len() == 0 {
                        fwd_view(*final(self)) == fwd_view(*old(self)) && noticed(*old(self), *final(self), "文本为空，未传递到下游节点"@)
                    } else if ts.len() == 0 {
                        fwd_view(*final(self)) == fwd_view(*old(self)) && noticed(*old(self), *final(self), "无下游节点可接收传递内容"@)
                    } else {
                        let (f, c) = forward_all(fwd_view(*old(self)), ts, trim_end_line_breaks(t));
                        &&& fwd_view(*final(self)) == f
                        &&& c == 0 ==> noticed(*old(self), *final(self), "无可接收消息的下游节点（仅支持终端/决策）"@)
                        &&& c > 0 ==> noticed(
                            *old(self),
                            *final(self),
                            "已完成并传递到 "@ + decimal(c) + " 个下游节点"@,
                        )
                    }
                },
            },
    {
        let text_body = match self.graph.find_node_index(node_id) {
            Some(i) => {
                proof {
                    lemma_node_index_some(self.graph, node_id, i as int);
                }
                match &self.graph.nodes[i].data {
                    NodeData::Text { text_body, .. } => trim_str(text_body.as_str()),
                    _ => {
                        return;
                    },
                }
            },
            None => {
                proof {
                    lemma_node_index_none(self.graph, node_id);
                }
                return;
            },
        };
        if text_body.as_str().is_empty() {
            self.push_toast_notification(owned("文本为空，未传递到下游节点"));
            return;
        }
        let downstream = self.downstream_ids(node_id, None);
        if downstream.len() == 0 {
            self.push_toast_notification(owned("无下游节点可接收传递内容"));
            return;
        }
        let injected = build_injected_text_block(text_body.as_str());
        let delivered = self.forward_message_to_targets(&downstream, injected.as_str());
        if delivered == 0 {
            self.push_toast_notification(owned("无可接收消息的下游节点（仅支持终端/决策）"));
            return;
        }
        let mut notice = owned("已完成并传递到 ");
        push_decimal(&mut notice, delivered as u64);
        push_str(&mut notice, " 个下游节点");
        self.push_toast_notification(notice);
    }
}


/// The notice after a decision: how many messages went by the chosen route.
pub open spec fn routed_notice(label: Seq<char>, key: Seq<char>, all: bool, n: nat) -> Seq<char> {
    if all {
        "已按 '"@ + label + "' ("@ + key + ") 一次处理 "@ + decimal(n) + " 条消息"@
    } else {
        "已按 '"@ + label + "' ("@ + key + ") 分流 1 条消息"@
    }
}

impl Workspace {
    /// Takes waiting messages of a decision node (the first one, or all that
    /// were waiting) and forwards each, trimmed, along the edges whose route
    /// key is the chosen event key. Notices tell when nothing waits, when no
    /// edge has the route (the messages stay), when no target took anything,
    /// or how many went.
    pub fn forward_decision_message_by_event(
        &mut self,
        node_id: usize,
        event_key: &str,
        chosen_label: &str,
        process_all: bool,
    )
        requires
            old(self).wf(),
            old(self).next_toast_id < u64::MAX,
        ensures
            quiet_frame(*old(self), *final(self)),
            ({
                let qlen = match node_index(old(self).graph.nodes_v(), node_id) {
                    Some(i) => match old(self).graph.nodes_v()[i].data {
                        DataView::Decision { pending_message, pending_messages, .. } => pending_len(
                            pending_message,
                            pending_messages,
                        ),
                        _ => 0,
                    },
                    None => 0,
                };
                let ts = targets_of(old(self).graph.edges@, node_id, Some(event_key@), old(self).graph.routes());
                if qlen == 0 {
                    fwd_view(*final(self)) == fwd_view(*old(self)) && noticed(*old(self), *final(self), "当前无待处理消息"@)
                } else if ts.len() == 0 {
                    &&& fwd_view(*final(self)) == fwd_view(*old(self))
                    &&& noticed(
                        *old(self),
                        *final(self),
                        "未找到 route_key = '"@ + event_key@ + "' 的下游连线，消息未丢失"@,
                    )
                } else {
                    let (f, k) = drain(fwd_view(*old(self)), node_id, ts, if process_all {
                        qlen
                    } else {
                        1
                    });
                    &&& fwd_view(*final(self)) == FwdView { dirty: true, version: bumped(f.version), ..f }
                    &&& k == 0 ==> noticed(
                        *old(self),
                        *final(self),
                        "匹配连线存在，但无可接收消息的下游节点（仅支持终端/决策）"@,
                    )
                    &&& k > 0 ==> noticed(
                        *old(self),
                        *final(self),
                        routed_notice(chosen_label@, event_key@, process_all, k),
                    )
                }
            }),
    {
        let queue_len = self.decision_pending_queue_len(node_id);
        if queue_len == 0 {
            self.push_toast_notification(owned("当前无待处理消息"));
            return;
        }
        let downstream = self.downstream_ids(node_id, Some(event_key));
        if downstream.len() == 0 {
            self.push_toast_notification(concat3("未找到 route_key = '", event_key, "' 的下游连线，消息未丢失"));
            return;
        }
        let ghost s0 = fwd_view(*self);
        let ghost total: nat = if process_all { queue_len as nat } else { 1 };
        let mut remaining: usize = if process_all {
            queue_len
        } else {
            1
        };
        let mut delivered_messages: usize = 0;
        while remaining > 0
            invariant_except_break
                ({
                    let (f, k) = drain(fwd_view(*self), node_id, downstream@, remaining as nat);
                    (f, delivered_messages as nat + k) == drain(s0, node_id, downstream@, total)
                }),
            invariant
                quiet_frame(*old(self), *self),
                self.toast_notifications == old(self).toast_notifications,
                self.next_toast_id == old(self).next_toast_id,
                self.graph.edges == old(self).graph.edges,
                delivered_messages as nat + remaining as nat <= total,
                total <= usize::MAX,
            ensures
                (fwd_view(*self), delivered_messages as nat) == drain(s0, node_id, downstream@, total),
            decreases remaining,
        {
            let i = match self.graph.find_node_index(node_id) {
                Some(i) => i,
                None => {
                    proof {
                        lemma_node_index_none(self.graph, node_id);
                    }
                    break;
                },
            };
            proof {
                lemma_node_index_some(self.graph, node_id, i as int);
            }
            let mut node = self.graph.nodes[i].copy();
            let ghost before = self.graph.nodes@;
            let taken = node.data.take_first_pending();
            self.graph.nodes.set(i, node);
            proof {
                assert(crate::model::node_views(self.graph.nodes@) =~= crate::model::node_views(before).update(
                    i as int,
                    NodeView { data: take_first_v(crate::model::node_views(before)[i as int].data).1, ..crate::model::node_views(before)[i as int] },
                ));
                assert forall|a: int, b: int| 0 <= a < b < self.graph.nodes@.len() implies #[trigger] self.graph.nodes@[a].id != #[trigger] self.graph.nodes@[b].id by {
                    assert(before[a].id != before[b].id);
                    assert(self.graph.nodes@[a].id == before[a].id);
                    assert(self.graph.nodes@[b].id == before[b].id);
                }
                assert forall|a: int| 0 <= a < self.graph.nodes@.len() implies #[trigger] self.graph.nodes@[a].id < self.graph.next_node_id by {
                    assert(self.graph.nodes@[a].id == before[a].id);
                }
            }
            let message = match taken {
                Some(m) => m,
                None => {
                    break;
                },
            };
            let trimmed = trim_str(message.as_str());
            let delivered = self.forward_message_to_targets(&downstream, trimmed.as_str());
            if delivered > 0 {
                delivered_messages = delivered_messages + 1;
            }
            remaining = remaining - 1;
        }
        self.mark_workspace_dirty();
        if delivered_messages == 0 {
            self.push_toast_notification(owned("匹配连线存在，但无可接收消息的下游节点（仅支持终端/决策）"));
            return;
        }
        if process_all {
            let mut notice = owned("已按 '");
            push_str(&mut notice, chosen_label);
            push_str(&mut notice, "' (");
            push_str(&mut notice, event_key);
            push_str(&mut notice, ") 一次处理 ");
            push_decimal(&mut notice, delivered_messages as u64);
            push_str(&mut notice, " 条消息");
            self.push_toast_notification(notice);
        } else {
            let mut notice = owned("已按 '");
            push_str(&mut notice, chosen_label);
            push_str(&mut notice, "' (");
            push_str(&mut notice, event_key);
            push_str(&mut notice, ") 分流 1 条消息");
            self.push_toast_notification(notice);
        }
    }
}

} // verus!
