//! The life of a terminal node's shell: queued to start, started, failed,
//! exited, restarted, and the script it runs first.
use crate::forwarding::{lemma_node_index_none, lemma_node_index_some, node_index};
use crate::model::{opt_view, DataView, NodeData, NodeKind, NodeView};
use crate::selection::contains_id;
use crate::terminal::{error_key_not, first_key_at, id_not, inj_views, out_views, TerminalRuntime};
use crate::text::{push_str, views};
use crate::text::{concat2, copy_string, trim, trim_str};
use crate::workspace::Workspace;
use vstd::prelude::*;

verus! {

/// The trimmed startup script of a terminal node, where it is not blank.
pub open spec fn startup_script_of(nodes: Seq<NodeView>, id: usize) -> Option<Seq<char>> {
    match node_index(nodes, id) {
        Some(i) => match nodes[i].data {
            DataView::Terminal { startup_script, .. } => if trim(startup_script).len() > 0 {
                Some(trim(startup_script))
            } else {
                None
            },
            _ => None,
        },
        None => None,
    }
}

/// The trimmed working directory of a terminal node, where it is set and
/// not blank.
pub open spec fn working_directory_of(nodes: Seq<NodeView>, id: usize) -> Option<Seq<char>> {
    match node_index(nodes, id) {
        Some(i) => match nodes[i].data {
            DataView::Terminal { working_directory: Some(w), .. } => if trim(w).len() > 0 {
                Some(trim(w))
            } else {
                None
            },
            _ => None,
        },
        None => None,
    }
}

/// The node is a terminal node.
pub open spec fn is_terminal_node(nodes: Seq<NodeView>, id: usize) -> bool {
    exists|i: int| 0 <= i < nodes.len() && nodes[i].id == id && nodes[i].kind == NodeKind::Terminal
}

/// The error of a node's shell, if one is recorded.
pub open spec fn has_error(errors: Seq<(usize, String)>, id: usize) -> bool {
    exists|i: int| 0 <= i < errors.len() && errors[i].0 == id
}

/// Whether queuing a start does anything: the shell neither runs, failed nor
/// exited, the node is a terminal node and no start is queued yet.
pub open spec fn start_queued(t: TerminalRuntime, nodes: Seq<NodeView>, id: usize) -> bool {
    &&& !t.running@.contains(id)
    &&& !has_error(t.errors@, id)
    &&& !t.exited@.contains(id)
    &&& is_terminal_node(nodes, id)
    &&& !t.pending_starts@.contains(id)
}

fn has_error_entry(errors: &Vec<(usize, String)>, id: usize) -> (r: bool)
    ensures
        r == has_error(errors@, id),
{
    let mut i: usize = 0;
    while i < errors.len()
        invariant
            i <= errors@.len(),
            forall|j: int| 0 <= j < i ==> #[trigger] errors@[j].0 != id,
        decreases errors@.len() - i,
    {
        if errors[i].0 == id {
            return true;
        }
        i = i + 1;
    }
    false
}

impl Workspace {
    /// The uid of a node.
    pub fn terminal_uid(&self, node_id: usize) -> (r: Option<String>)
        requires
            self.wf(),
        ensures
            opt_view(r) == match node_index(self.graph.nodes_v(), node_id) {
                Some(i) => Some(self.graph.nodes_v()[i].uid),
                None => None,
            },
    {
        match self.graph.find_node_index(node_id) {
            Some(i) => {
                proof {
                    lemma_node_index_some(self.graph, node_id, i as int);
                }
                Some(copy_string(&self.graph.nodes[i].uid))
            },
            None => {
                proof {
                    lemma_node_index_none(self.graph, node_id);
                }
                None
            },
        }
    }

    /// The startup script of a terminal node, trimmed, where not blank.
    pub fn terminal_startup_script(&self, node_id: usize) -> (r: Option<String>)
        requires
            self.wf(),
        ensures
            opt_view(r) == startup_script_of(self.graph.nodes_v(), node_id),
    {
        match self.graph.find_node_index(node_id) {
            Some(i) => {
                proof {
                    lemma_node_index_some(self.graph, node_id, i as int);
                }
                match &self.graph.nodes[i].data {
                    NodeData::Terminal { startup_script, .. } => {
                        let t = trim_str(startup_script.as_str());
                        if t.as_str().is_empty() {
                            None
                        } else {
                            Some(t)
                        }
                    },
                    _ => None,
                }
            },
            None => {
                proof {
                    lemma_node_index_none(self.graph, node_id);
                }
                None
            },
        }
    }

    /// The working directory of a terminal node, trimmed, where set and not
    /// blank.
    pub fn terminal_working_directory(&self, node_id: usize) -> (r: Option<String>)
        requires
            self.wf(),
        ensures
            opt_view(r) == working_directory_of(self.graph.nodes_v(), node_id),
    {
        match self.graph.find_node_index(node_id) {
            Some(i) => {
                proof {
                    lemma_node_index_some(self.graph, node_id, i as int);
                }
                match &self.graph.nodes[i].data {
                    NodeData::Terminal { working_directory: Some(w), .. } => {
                        let t = trim_str(w.as_str());
                        if t.as_str().is_empty() {
                            None
                        } else {
                            Some(t)
                        }
                    },
                    _ => None,
                }
            },
            None => {
                proof {
                    lemma_node_index_none(self.graph, node_id);
                }
                None
            },
        }
    }

    /// Queues the start of a terminal node's shell, unless it runs, failed or
    /// exited, the node is no terminal node, or a start is queued already.
    pub fn queue_terminal_start(&mut self, node_id: usize)
        requires
            old(self).wf(),
        ensures
            final(self).terminals.pending_starts@ == (if start_queued(old(self).terminals, old(self).graph.nodes_v(), node_id) {
                old(self).terminals.pending_starts@.push(node_id)
            } else {
                old(self).terminals.pending_starts@
            }),
            final(self).terminals.running == old(self).terminals.running,
            final(self).terminals.exited == old(self).terminals.exited,
            final(self).terminals.errors == old(self).terminals.errors,
            final(self).terminals.pending_injections == old(self).terminals.pending_injections,
            final(self).terminals.outbox == old(self).terminals.outbox,
            final(self).graph == old(self).graph,
            final(self).selection == old(self).selection,
            final(self).history == old(self).history,
            final(self).edit == old(self).edit,
            final(self).ui == old(self).ui,
            final(self).workspace_dirty == old(self).workspace_dirty,
            final(self).automation_state_version == old(self).automation_state_version,
            Workspace::same_meta(*old(self), *final(self)),
    {
        if contains_id(&self.terminals.running, node_id) || has_error_entry(&self.terminals.errors, node_id)
            || contains_id(&self.terminals.exited, node_id) {
            return;
        }
        let is_terminal = match self.graph.find_node_index(node_id) {
            Some(i) => {
                proof {
                    if is_terminal_node(self.graph.nodes_v(), node_id) {
                        let j = choose|j: int| 0 <= j < self.graph.nodes_v().len() && self.graph.nodes_v()[j].id == node_id && self.graph.nodes_v()[j].kind == NodeKind::Terminal;
                        if j != i {
                            if j < i {
                                assert(self.graph.nodes@[j].id != self.graph.nodes@[i as int].id);
                            } else {
                                assert(self.graph.nodes@[i as int].id != self.graph.nodes@[j].id);
                            }
                        }
                    }
                    assert(self.graph.nodes_v()[i as int].id == node_id);
                }
                self.graph.nodes[i].kind == NodeKind::Terminal
            },
            None => {
                proof {
                    if is_terminal_node(self.graph.nodes_v(), node_id) {
                        let j = choose|j: int| 0 <= j < self.graph.nodes_v().len() && self.graph.nodes_v()[j].id == node_id && self.graph.nodes_v()[j].kind == NodeKind::Terminal;
                        assert(self.graph.nodes@[j].id == node_id);
                    }
                }
                false
            },
        };
        if !is_terminal {
            return;
        }
        if !contains_id(&self.terminals.pending_starts, node_id) {
            self.terminals.pending_starts.push(node_id);
        }
    }

    /// Forgets a node's shell and queues its start again.
    pub fn restart_terminal_deferred(&mut self, node_id: usize)
        requires
            old(self).wf(),
        ensures
            final(self).terminals.running@ == old(self).terminals.running@.filter(id_not(node_id)),
            final(self).terminals.exited@ == old(self).terminals.exited@.filter(id_not(node_id)),
            final(self).terminals.errors@ == old(self).terminals.errors@.filter(error_key_not(node_id)),
            final(self).terminals.pending_starts@ == (if is_terminal_node(old(self).graph.nodes_v(), node_id) {
                old(self).terminals.pending_starts@.filter(id_not(node_id)).push(node_id)
            } else {
                old(self).terminals.pending_starts@.filter(id_not(node_id))
            }),
            final(self).terminals.pending_injections == old(self).terminals.pending_injections,
            final(self).terminals.outbox == old(self).terminals.outbox,
            final(self).graph == old(self).graph,
            final(self).selection == old(self).selection,
            final(self).history == old(self).history,
            final(self).edit == old(self).edit,
            final(self).ui == old(self).ui,
            final(self).workspace_dirty == old(self).workspace_dirty,
            final(self).automation_state_version == old(self).automation_state_version,
            Workspace::same_meta(*old(self), *final(self)),
    {
        let ghost inj = self.terminals.pending_injections;
        self.terminals.forget_shell(node_id);
        proof {
            crate::seqs::lemma_filter_contains(old(self).terminals.running@, id_not(node_id));
            crate::seqs::lemma_filter_contains(old(self).terminals.exited@, id_not(node_id));
            crate::seqs::lemma_filter_contains(old(self).terminals.pending_starts@, id_not(node_id));
            crate::seqs::lemma_filter_contains(old(self).terminals.errors@, error_key_not(node_id));
            assert(!has_error(self.terminals.errors@, node_id)) by {
                if has_error(self.terminals.errors@, node_id) {
                    let k = choose|k: int| 0 <= k < self.terminals.errors@.len() && self.terminals.errors@[k].0 == node_id;
                    assert(self.terminals.errors@.contains(self.terminals.errors@[k]));
                }
            }
        }
        self.queue_terminal_start(node_id);
    }

    /// Takes the next queued start, if any.
    pub fn next_terminal_start(&mut self) -> (r: Option<usize>)
        ensures
            old(self).terminals.pending_starts@.len() == 0 ==> r is None && *final(self) == *old(self),
            old(self).terminals.pending_starts@.len() > 0 ==> r == Some(old(self).terminals.pending_starts@[0])
                && final(self).terminals.pending_starts@ == old(self).terminals.pending_starts@.drop_first(),
            final(self).terminals.running == old(self).terminals.running,
            final(self).graph == old(self).graph,
            final(self).selection == old(self).selection,
            final(self).history == old(self).history,
            Workspace::same_meta(*old(self), *final(self)),
    {
        if self.terminals.pending_starts.len() == 0 {
            return None;
        }
        let id = self.terminals.pending_starts.remove(0);
        assert(self.terminals.pending_starts@ =~= old(self).terminals.pending_starts@.drop_first());
        Some(id)
    }
}

impl TerminalRuntime {
    /// Forgets that a node's shell runs, exited or failed, and any queued
    /// start of it.
    pub fn forget_shell(&mut self, id: usize)
        ensures
            final(self).running@ == old(self).running@.filter(id_not(id)),
            final(self).exited@ == old(self).exited@.filter(id_not(id)),
            final(self).errors@ == old(self).errors@.filter(error_key_not(id)),
            final(self).pending_starts@ == old(self).pending_starts@.filter(id_not(id)),
            final(self).pending_injections == old(self).pending_injections,
            final(self).outbox == old(self).outbox,
    {
        let mut inj: Vec<(usize, Vec<String>)> = Vec::new();
        std::mem::swap(&mut inj, &mut self.pending_injections);
        self.forget(id);
        self.pending_injections = inj;
    }
}


/// The text waiting for the node's shell, as writes in order.
pub open spec fn waiting_writes(pending: Seq<(usize, Seq<Seq<char>>)>, id: usize) -> Seq<(usize, Seq<char>)> {
    if exists|k: int| first_key_at(pending, id, k) {
        let k = choose|k: int| first_key_at(pending, id, k);
        pending[k].1.map_values(|t: Seq<char>| (id, t))
    } else {
        Seq::empty()
    }
}

/// The waiting text without the node's entry.
pub open spec fn without_waiting(pending: Seq<(usize, Seq<Seq<char>>)>, id: usize) -> Seq<(usize, Seq<Seq<char>>)> {
    if exists|k: int| first_key_at(pending, id, k) {
        let k = choose|k: int| first_key_at(pending, id, k);
        pending.remove(k)
    } else {
        pending
    }
}

/// The writes of a startup script: the script and a line break.
pub open spec fn script_writes(script: Option<Seq<char>>, id: usize) -> Seq<(usize, Seq<char>)> {
    match script {
        Some(s) => seq![(id, s + "\r\n"@)],
        None => Seq::empty(),
    }
}

impl Workspace {
    /// A node's shell started: it runs, its exit and error are forgotten,
    /// its startup script and then the text that waited for it are written.
    pub fn record_terminal_started(&mut self, node_id: usize)
        requires
            old(self).wf(),
        ensures
            final(self).terminals.running@ == (if old(self).terminals.running@.contains(node_id) {
                old(self).terminals.running@
            } else {
                old(self).terminals.running@.push(node_id)
            }),
            final(self).terminals.exited@ == old(self).terminals.exited@.filter(id_not(node_id)),
            final(self).terminals.errors@ == old(self).terminals.errors@.filter(error_key_not(node_id)),
            out_views(final(self).terminals.outbox@) == out_views(old(self).terminals.outbox@) + script_writes(
                startup_script_of(old(self).graph.nodes_v(), node_id),
                node_id,
            ) + waiting_writes(inj_views(old(self).terminals.pending_injections@), node_id),
            inj_views(final(self).terminals.pending_injections@) == without_waiting(
                inj_views(old(self).terminals.pending_injections@),
                node_id,
            ),
            final(self).terminals.pending_starts == old(self).terminals.pending_starts,
            final(self).graph == old(self).graph,
            final(self).selection == old(self).selection,
            final(self).history == old(self).history,
            final(self).workspace_dirty == old(self).workspace_dirty,
            Workspace::same_meta(*old(self), *final(self)),
    {
        if !contains_id(&self.terminals.running, node_id) {
            self.terminals.running.push(node_id);
            assert(self.terminals.running@[self.terminals.running@.len() - 1] == node_id);
        }
        assert(self.terminals.running@.contains(node_id));
        let mut starts: Vec<usize> = Vec::new();
        std::mem::swap(&mut starts, &mut self.terminals.pending_starts);
        let mut running: Vec<usize> = Vec::new();
        std::mem::swap(&mut running, &mut self.terminals.running);
        let mut inj: Vec<(usize, Vec<String>)> = Vec::new();
        std::mem::swap(&mut inj, &mut self.terminals.pending_injections);
        self.terminals.forget(node_id);
        self.terminals.pending_starts = starts;
        self.terminals.running = running;
        self.terminals.pending_injections = inj;
        let ghost ob = out_views(self.terminals.outbox@);
        match self.terminal_startup_script(node_id) {
            Some(script) => {
                let mut command = script;
                push_str(&mut command, "\r\n");
                self.terminals.inject_text(node_id, command.as_str());
                assert(out_views(self.terminals.outbox@) =~= ob + seq![(node_id, command@)]);
            },
            None => {
                assert(out_views(self.terminals.outbox@) =~= ob + Seq::<(usize, Seq<char>)>::empty());
            },
        }
        let ghost o1 = out_views(self.terminals.outbox@);
        assert(o1 == ob + script_writes(startup_script_of(old(self).graph.nodes_v(), node_id), node_id));
        let ghost pv = inj_views(self.terminals.pending_injections@);
        let mut k: usize = 0;
        while k < self.terminals.pending_injections.len()
            invariant
                k <= self.terminals.pending_injections@.len(),
                pv == inj_views(self.terminals.pending_injections@),
                forall|j: int| 0 <= j < k ==> #[trigger] pv[j].0 != node_id,
            ensures
                k <= self.terminals.pending_injections@.len(),
                forall|j: int| 0 <= j < k ==> #[trigger] pv[j].0 != node_id,
                k < self.terminals.pending_injections@.len() ==> pv[k as int].0 == node_id,
            decreases self.terminals.pending_injections@.len() - k,
        {
            if self.terminals.pending_injections[k].0 == node_id {
                break;
            }
            k = k + 1;
        }
        if k < self.terminals.pending_injections.len() {
            assert(first_key_at(pv, node_id, k as int));
            let (_, texts) = self.terminals.pending_injections.remove(k);
            let ghost tv = views(texts@);
            let ghost t0 = self.terminals;
            let mut j: usize = 0;
            while j < texts.len()
                invariant
                    j <= texts@.len(),
                    tv == views(texts@),
                    self.terminals.running@.contains(node_id),
                    self.terminals.running == t0.running,
                    self.terminals.exited == t0.exited,
                    self.terminals.errors == t0.errors,
                    self.terminals.pending_starts == t0.pending_starts,
                    self.terminals.pending_injections == t0.pending_injections,
                    self.graph == old(self).graph,
                    self.selection == old(self).selection,
                    self.history == old(self).history,
                    self.workspace_dirty == old(self).workspace_dirty,
                    Workspace::same_meta(*old(self), *self),
                    out_views(self.terminals.outbox@) == o1 + tv.subrange(0, j as int).map_values(|t: Seq<char>| (node_id, t)),
                decreases texts@.len() - j,
            {
                let ghost before = out_views(self.terminals.outbox@);
                self.terminals.inject_text(node_id, texts[j].as_str());
                j = j + 1;
                assert(tv.subrange(0, j as int).map_values(|t: Seq<char>| (node_id, t)) =~= tv.subrange(0, j - 1).map_values(|t: Seq<char>| (node_id, t)).push((node_id, texts@[j - 1]@)));
            }
            assert(tv.subrange(0, j as int) =~= tv);
            proof {
                let kk = choose|q: int| first_key_at(pv, node_id, q);
                if kk != k {
                    if kk < k {
                        assert(pv[kk].0 != node_id);
                    } else {
                        assert(first_key_at(pv, node_id, kk));
                        assert(pv[k as int].0 != node_id);
                    }
                }
                assert(inj_views(self.terminals.pending_injections@) =~= pv.remove(k as int));
            }
        } else {
            proof {
                assert(!exists|q: int| first_key_at(pv, node_id, q));
                assert(o1 + Seq::<(usize, Seq<char>)>::empty() =~= o1);
            }
        }
    }
}


/// The errors by node.
pub open spec fn error_views(s: Seq<(usize, String)>) -> Seq<(usize, Seq<char>)> {
    s.map_values(|e: (usize, String)| (e.0, e.1@))
}

impl Workspace {
    /// A node's shell failed to start: its error reads `终端启动失败: ` and
    /// the detail, replacing an earlier error of the node.
    pub fn record_terminal_failed(&mut self, node_id: usize, detail: &str)
        ensures
            error_views(final(self).terminals.errors@) == error_views(
                old(self).terminals.errors@.filter(error_key_not(node_id)),
            ).push((node_id, "终端启动失败: "@ + detail@)),
            final(self).terminals.running == old(self).terminals.running,
            final(self).terminals.exited == old(self).terminals.exited,
            final(self).terminals.pending_starts == old(self).terminals.pending_starts,
            final(self).terminals.pending_injections == old(self).terminals.pending_injections,
            final(self).terminals.outbox == old(self).terminals.outbox,
            final(self).graph == old(self).graph,
            final(self).selection == old(self).selection,
            final(self).history == old(self).history,
            Workspace::same_meta(*old(self), *final(self)),
    {
        let mut starts: Vec<usize> = Vec::new();
        std::mem::swap(&mut starts, &mut self.terminals.pending_starts);
        let mut running: Vec<usize> = Vec::new();
        std::mem::swap(&mut running, &mut self.terminals.running);
        let mut exited: Vec<usize> = Vec::new();
        std::mem::swap(&mut exited, &mut self.terminals.exited);
        let mut inj: Vec<(usize, Vec<String>)> = Vec::new();
        std::mem::swap(&mut inj, &mut self.terminals.pending_injections);
        self.terminals.forget(node_id);
        self.terminals.pending_starts = starts;
        self.terminals.running = running;
        self.terminals.exited = exited;
        self.terminals.pending_injections = inj;
        let ghost before = self.terminals.errors@;
        self.terminals.errors.push((node_id, concat2("终端启动失败: ", detail)));
        assert(error_views(self.terminals.errors@) =~= error_views(before).push((node_id, "终端启动失败: "@ + detail@)));
    }

    /// A node's shell exited: it is marked exited and no longer runs.
    pub fn record_terminal_exited(&mut self, node_id: usize)
        ensures
            final(self).terminals.exited@ == (if old(self).terminals.exited@.contains(node_id) {
                old(self).terminals.exited@
            } else {
                old(self).terminals.exited@.push(node_id)
            }),
            final(self).terminals.running@ == old(self).terminals.running@.filter(id_not(node_id)),
            final(self).terminals.errors == old(self).terminals.errors,
            final(self).terminals.pending_starts == old(self).terminals.pending_starts,
            final(self).terminals.pending_injections == old(self).terminals.pending_injections,
            final(self).terminals.outbox == old(self).terminals.outbox,
            final(self).graph == old(self).graph,
            final(self).selection == old(self).selection,
            final(self).history == old(self).history,
            Workspace::same_meta(*old(self), *final(self)),
    {
        let mut exited: Vec<usize> = Vec::new();
        std::mem::swap(&mut exited, &mut self.terminals.exited);
        let mut starts: Vec<usize> = Vec::new();
        std::mem::swap(&mut starts, &mut self.terminals.pending_starts);
        let mut errors: Vec<(usize, String)> = Vec::new();
        std::mem::swap(&mut errors, &mut self.terminals.errors);
        let mut inj: Vec<(usize, Vec<String>)> = Vec::new();
        std::mem::swap(&mut inj, &mut self.terminals.pending_injections);
        self.terminals.forget(node_id);
        self.terminals.pending_starts = starts;
        self.terminals.errors = errors;
        self.terminals.pending_injections = inj;
        if !contains_id(&exited, node_id) {
            exited.push(node_id);
        }
        self.terminals.exited = exited;
    }
}

} // verus!
