//! The saved form of a workspace: what is written, and what loading it does.
use crate::groups::sanitized;
use crate::history::History;
use crate::model::{copy_nodes, kind_matches, kind_matches_data, node_views, opt_view, Node, NodeView};
use crate::naming::{opt_str_view, resolve_workspace_name, resolved_name};
use crate::selection::contains_id;
use crate::terminal::TerminalRuntime;
use crate::text::{copy_string, str_eq, trim, trim_str, views};
use crate::workspace::{
    bumped, copy_script_states, script_views, EditState, Graph, RouteKey, ScriptState, Selection, UiState,
    Workspace,
};
use vstd::prelude::*;

verus! {

/// The version written into saved configurations.
pub const GRAPH_CONFIG_VERSION: u32 = 10;

/// The version that a configuration without one is read as.
pub fn default_graph_config_version() -> (r: u32)
    ensures
        r == GRAPH_CONFIG_VERSION,
{
    GRAPH_CONFIG_VERSION
}

/// A saved route key.
pub struct EdgeRouteConfig {
    pub from: usize,
    pub to: usize,
    pub route_key: String,
}

/// The saved form of a workspace's graph, name and script node states.
pub struct GraphConfig {
    pub version: u32,
    pub nodes: Vec<Node>,
    pub edges: Vec<(usize, usize)>,
    pub edge_routes: Vec<EdgeRouteConfig>,
    pub workspace_name: Option<String>,
    pub script_states: Vec<ScriptState>,
}

/// The state belongs to one of the nodes.
pub open spec fn state_of_node(nodes: Seq<NodeView>) -> spec_fn((usize, Seq<(Seq<char>, Seq<char>)>)) -> bool {
    |e: (usize, Seq<(Seq<char>, Seq<char>)>)| has_id(nodes, e.0)
}

/// Whether one of the nodes has the id.
fn nodes_have_id(nodes: &Vec<Node>, id: usize) -> (r: bool)
    ensures
        r == has_id(node_views(nodes@), id),
{
    let mut i: usize = 0;
    while i < nodes.len()
        invariant
            i <= nodes@.len(),
            forall|j: int| 0 <= j < i ==> #[trigger] nodes@[j].id != id,
        decreases nodes@.len() - i,
    {
        if nodes[i].id == id {
            assert(node_views(nodes@)[i as int].id == id);
            return true;
        }
        i = i + 1;
    }
    proof {
        if has_id(node_views(nodes@), id) {
            let j = choose|j: int| 0 <= j < node_views(nodes@).len() && node_views(nodes@)[j].id == id;
            assert(nodes@[j].id == id);
        }
    }
    false
}

/// The saved script states that loading keeps: those of the loaded nodes, in order.
pub fn load_script_states(states: &Vec<ScriptState>, nodes: &Vec<Node>) -> (r: Vec<ScriptState>)
    ensures
        script_views(r@) == script_views(states@).filter(state_of_node(node_views(nodes@))),
{
    let ghost p = state_of_node(node_views(nodes@));
    let mut out: Vec<ScriptState> = Vec::new();
    let mut i: usize = 0;
    while i < states.len()
        invariant
            i <= states@.len(),
            p == state_of_node(node_views(nodes@)),
            script_views(out@) == script_views(states@.subrange(0, i as int)).filter(p),
        decreases states@.len() - i,
    {
        proof {
            assert(script_views(states@.subrange(0, i + 1)).drop_last() =~= script_views(
                states@.subrange(0, i as int),
            ));
            reveal_with_fuel(Seq::<_>::filter, 1);
        }
        if nodes_have_id(nodes, states[i].node_id) {
            let ghost before = out@;
            out.push(ScriptState { node_id: states[i].node_id, state: crate::workspace::copy_pairs(&states[i].state) });
            assert(script_views(out@) =~= script_views(before).push(script_views(states@)[i as int]));
        }
        i = i + 1;
    }
    assert(states@.subrange(0, i as int) =~= states@);
    out
}

pub open spec fn route_cfg_views(s: Seq<EdgeRouteConfig>) -> Seq<(usize, usize, Seq<char>)> {
    s.map_values(|r: EdgeRouteConfig| (r.from, r.to, r.route_key@))
}

/// No node before position `k` has the id of the node at `k`.
pub open spec fn id_fresh(cfg: Seq<NodeView>, k: int) -> bool {
    forall|j: int| 0 <= j < k ==> #[trigger] cfg[j].id != cfg[k].id
}

/// A node before position `k` with a fresh id has the uid of the node at `k`.
pub open spec fn uid_taken(cfg: Seq<NodeView>, k: int) -> bool {
    exists|j: int| 0 <= j < k && id_fresh(cfg, j) && #[trigger] cfg[j].uid == cfg[k].uid
}

/// The node at `k` is loaded: its id is fresh, its uid is not taken and its
/// kind agrees with its content.
pub open spec fn accepted(cfg: Seq<NodeView>, k: int) -> bool {
    id_fresh(cfg, k) && !uid_taken(cfg, k) && kind_matches(cfg[k].kind, cfg[k].data)
}

/// The nodes that loading keeps, in order.
pub open spec fn loaded_nodes(cfg: Seq<NodeView>) -> Seq<NodeView>
    decreases cfg.len(),
{
    if cfg.len() == 0 {
        cfg
    } else {
        let prev = loaded_nodes(cfg.drop_last());
        if accepted(cfg, cfg.len() - 1) {
            prev.push(cfg.last())
        } else {
            prev
        }
    }
}

/// One more than the largest id, or one for no nodes.
pub open spec fn next_id_after(nodes: Seq<NodeView>) -> int
    decreases nodes.len(),
{
    if nodes.len() == 0 {
        1
    } else {
        let prev = next_id_after(nodes.drop_last());
        if nodes.last().id + 1 > prev {
            nodes.last().id + 1
        } else {
            prev
        }
    }
}

pub open spec fn has_id(nodes: Seq<NodeView>, id: usize) -> bool {
    exists|i: int| 0 <= i < nodes.len() && nodes[i].id == id
}

/// Both ends of the edge are among the nodes.
pub open spec fn edge_between(nodes: Seq<NodeView>) -> spec_fn((usize, usize)) -> bool {
    |e: (usize, usize)| has_id(nodes, e.0) && has_id(nodes, e.1)
}

/// The route keys that loading keeps: each saved key, trimmed, of an edge
/// that is there, where it is not blank; a later key of the same edge wins.
pub open spec fn loaded_routes(
    routes: Seq<(usize, usize, Seq<char>)>,
    edges: Seq<(usize, usize)>,
) -> Map<(usize, usize), Seq<char>>
    decreases routes.len(),
{
    if routes.len() == 0 {
        Map::empty()
    } else {
        let prev = loaded_routes(routes.drop_last(), edges);
        let r = routes.last();
        if trim(r.2).len() > 0 && edges.contains((r.0, r.1)) {
            prev.insert((r.0, r.1), trim(r.2))
        } else {
            prev
        }
    }
}

fn contains_string(v: &Vec<String>, s: &str) -> (r: bool)
    ensures
        r == views(v@).contains(s@),
{
    let mut i: usize = 0;
    while i < v.len()
        invariant
            i <= v@.len(),
            forall|j: int| 0 <= j < i ==> #[trigger] v@[j]@ != s@,
        decreases v@.len() - i,
    {
        if str_eq(v[i].as_str(), s) {
            assert(views(v@)[i as int] == s@);
            return true;
        }
        i = i + 1;
    }
    proof {
        if views(v@).contains(s@) {
            let j = choose|j: int| 0 <= j < views(v@).len() && views(v@)[j] == s@;
            assert(v@[j]@ == s@);
        }
    }
    false
}

proof fn lemma_loaded_ids(cfg: Seq<NodeView>)
    ensures
        forall|i: int, j: int| 0 <= i < j < loaded_nodes(cfg).len() ==> #[trigger] loaded_nodes(cfg)[i].id != #[trigger] loaded_nodes(cfg)[j].id,
        forall|i: int| 0 <= i < loaded_nodes(cfg).len() ==> cfg.contains(#[trigger] loaded_nodes(cfg)[i]),
        forall|i: int| 0 <= i < loaded_nodes(cfg).len() ==> kind_matches(#[trigger] loaded_nodes(cfg)[i].kind, loaded_nodes(cfg)[i].data),
        loaded_nodes(cfg).len() <= cfg.len(),
    decreases cfg.len(),
{
    if cfg.len() > 0 {
        let t = cfg.drop_last();
        lemma_loaded_ids(t);
        let prev = loaded_nodes(t);
        assert forall|i: int| 0 <= i < prev.len() implies cfg.contains(#[trigger] prev[i]) by {
            assert(t.contains(prev[i]));
            let k = choose|k: int| 0 <= k < t.len() && t[k] == prev[i];
            assert(cfg[k] == t[k]);
        }
        if accepted(cfg, cfg.len() - 1) {
            let l = loaded_nodes(cfg);
            assert(l == prev.push(cfg.last()));
            assert forall|i: int, j: int| 0 <= i < j < l.len() implies #[trigger] l[i].id != #[trigger] l[j].id by {
                if j == l.len() - 1 {
                    assert(l[i] == prev[i]);
                    assert(t.contains(prev[i]));
                    let k = choose|k: int| 0 <= k < t.len() && t[k] == prev[i];
                    assert(cfg[k] == prev[i]);
                    assert(cfg[k].id != cfg[cfg.len() - 1].id);
                } else {
                    assert(l[i] == prev[i] && l[j] == prev[j]);
                }
            }
            assert forall|i: int| 0 <= i < l.len() implies cfg.contains(#[trigger] l[i]) by {
                if i == l.len() - 1 {
                    assert(cfg[cfg.len() - 1] == l[i]);
                } else {
                    assert(l[i] == prev[i]);
                }
            }
        }
    }
}

proof fn lemma_next_id_after(nodes: Seq<NodeView>)
    ensures
        next_id_after(nodes) >= 1,
        forall|i: int| 0 <= i < nodes.len() ==> #[trigger] nodes[i].id < next_id_after(nodes),
        nodes.len() > 0 ==> exists|i: int| 0 <= i < nodes.len() && next_id_after(nodes) == #[trigger] nodes[i].id + 1,
    decreases nodes.len(),
{
    if nodes.len() > 0 {
        let t = nodes.drop_last();
        lemma_next_id_after(t);
        assert forall|i: int| 0 <= i < nodes.len() implies #[trigger] nodes[i].id < next_id_after(nodes) by {
            if i < nodes.len() - 1 {
                assert(nodes[i] == t[i]);
            }
        }
        if next_id_after(nodes) != nodes.last().id + 1 {
            let k = choose|k: int| 0 <= k < t.len() && next_id_after(t) == #[trigger] t[k].id + 1;
            assert(nodes[k] == t[k]);
        } else {
            assert(nodes[nodes.len() - 1] == nodes.last());
        }
    }
}


/// The bits of `f32::max(x, 1.0)` for the `f32` `x` with bits `b`: `x`
/// itself where it is a number of at least 1 (positive infinity included),
/// else the bits of 1.0 (for smaller numbers, negative ones and NaN).
pub open spec fn at_least_one_bits(b: u32) -> u32 {
    if 0x3f80_0000 <= b && b <= 0x7f80_0000 {
        b
    } else {
        0x3f80_0000
    }
}

/// The node with each side of its size made at least 1.
pub open spec fn sized_node(n: NodeView) -> NodeView {
    NodeView {
        size: crate::model::Coord {
            x_bits: at_least_one_bits(n.size.x_bits),
            y_bits: at_least_one_bits(n.size.y_bits),
        },
        ..n
    }
}

/// The nodes with each side of their size made at least 1.
pub open spec fn sized_nodes(s: Seq<NodeView>) -> Seq<NodeView> {
    s.map_values(|n: NodeView| sized_node(n))
}

/// The bits of `f32::max(x, 1.0)` for the `f32` with bits `b`.
pub fn at_least_one(b: u32) -> (r: u32)
    ensures
        r == at_least_one_bits(b),
{
    if 0x3f80_0000 <= b && b <= 0x7f80_0000 {
        b
    } else {
        0x3f80_0000
    }
}

/// Makes each side of each node's size at least 1, as loading does.
fn clamp_node_sizes(nodes: Vec<Node>) -> (r: Vec<Node>)
    ensures
        node_views(r@) == sized_nodes(node_views(nodes@)),
{
    let mut out: Vec<Node> = Vec::new();
    let mut i: usize = 0;
    while i < nodes.len()
        invariant
            i <= nodes@.len(),
            node_views(out@) == sized_nodes(node_views(nodes@.subrange(0, i as int))),
        decreases nodes@.len() - i,
    {
        let mut n = nodes[i].copy();
        n.size = crate::model::Coord { x_bits: at_least_one(n.size.x_bits), y_bits: at_least_one(n.size.y_bits) };
        let ghost before = out@;
        out.push(n);
        assert(node_views(out@) =~= node_views(before).push(sized_node(nodes@[i as int]@)));
        assert(sized_nodes(node_views(nodes@.subrange(0, i + 1))) =~= sized_nodes(
            node_views(nodes@.subrange(0, i as int)),
        ).push(sized_node(nodes@[i as int]@)));
        i = i + 1;
    }
    assert(nodes@.subrange(0, i as int) =~= nodes@);
    out
}

/// Sizing nodes keeps their ids, kinds and content, and so which edges and
/// script states belong to them and the id handed out next.
proof fn lemma_sized_keeps_ids(raw: Seq<NodeView>)
    ensures
        sized_nodes(raw).len() == raw.len(),
        forall|i: int| 0 <= i < raw.len() ==> {
            &&& (#[trigger] sized_nodes(raw)[i]).id == raw[i].id
            &&& sized_nodes(raw)[i].uid == raw[i].uid
            &&& sized_nodes(raw)[i].kind == raw[i].kind
            &&& sized_nodes(raw)[i].data == raw[i].data
        },
        next_id_after(sized_nodes(raw)) == next_id_after(raw),
        edge_between(sized_nodes(raw)) == edge_between(raw),
        state_of_node(sized_nodes(raw)) == state_of_node(raw),
    decreases raw.len(),
{
    let sz = sized_nodes(raw);
    assert forall|x: usize| has_id(sz, x) == has_id(raw, x) by {
        if has_id(sz, x) {
            let q = choose|q: int| 0 <= q < sz.len() && sz[q].id == x;
            assert(raw[q].id == x);
        }
        if has_id(raw, x) {
            let q = choose|q: int| 0 <= q < raw.len() && raw[q].id == x;
            assert(sz[q].id == x);
        }
    }
    assert(edge_between(sz) =~= edge_between(raw));
    assert(state_of_node(sz) =~= state_of_node(raw));
    if raw.len() > 0 {
        lemma_sized_keeps_ids(raw.drop_last());
        assert(sz.drop_last() =~= sized_nodes(raw.drop_last()));
        assert(sz.last().id == raw.last().id);
    }
}

/// The nodes of a saved configuration that loading keeps: the first node of
/// each id, unless an earlier node already took its uid, and only where its
/// kind agrees with its content.
pub fn load_nodes(cfg: &Vec<Node>) -> (r: Vec<Node>)
    ensures
        node_views(r@) == loaded_nodes(node_views(cfg@)),
{
    let ghost nv = node_views(cfg@);
    let mut out: Vec<Node> = Vec::new();
    let mut seen_ids: Vec<usize> = Vec::new();
    let mut seen_uids: Vec<String> = Vec::new();
    let mut i: usize = 0;
    while i < cfg.len()
        invariant
            i <= nv.len(),
            nv == node_views(cfg@),
            node_views(out@) == loaded_nodes(nv.subrange(0, i as int)),
            forall|x: usize| #[trigger] seen_ids@.contains(x) <==> exists|j: int| 0 <= j < i && nv[j].id == x,
            forall|u: Seq<char>| #[trigger] views(seen_uids@).contains(u) <==> exists|j: int| 0 <= j < i && id_fresh(nv, j) && nv[j].uid == u,
        decreases nv.len() - i,
    {
        let ghost sub = nv.subrange(0, i + 1);
        proof {
            assert(sub.drop_last() =~= nv.subrange(0, i as int));
            assert(sub.last() == nv[i as int]);
            assert(id_fresh(sub, i as int) == id_fresh(nv, i as int)) by {
                assert forall|j: int| 0 <= j < i implies sub[j] == nv[j] by {}
            }
            assert(uid_taken(sub, i as int) == uid_taken(nv, i as int)) by {
                if uid_taken(sub, i as int) {
                    let j = choose|j: int| 0 <= j < i && id_fresh(sub, j) && #[trigger] sub[j].uid == sub[i as int].uid;
                    assert(id_fresh(nv, j)) by {
                        assert forall|q: int| 0 <= q < j implies #[trigger] nv[q].id != nv[j].id by {
                            assert(sub[q] == nv[q]);
                        }
                    }
                    assert(nv[j].uid == nv[i as int].uid);
                }
                if uid_taken(nv, i as int) {
                    let j = choose|j: int| 0 <= j < i && id_fresh(nv, j) && #[trigger] nv[j].uid == nv[i as int].uid;
                    assert(id_fresh(sub, j)) by {
                        assert forall|q: int| 0 <= q < j implies #[trigger] sub[q].id != sub[j].id by {
                            assert(sub[q] == nv[q]);
                        }
                    }
                    assert(sub[j].uid == sub[i as int].uid);
                }
            }
        }
        let id = cfg[i].id;
        let ghost u = cfg@[i as int].uid@;
        let ghost sid_before = seen_ids@;
        let ghost suid_before = views(seen_uids@);
        assert(nv[i as int].id == id && nv[i as int].uid == u);
        if contains_id(&seen_ids, id) {
            proof {
                let j = choose|j: int| 0 <= j < i && nv[j].id == id;
                assert(!id_fresh(nv, i as int));
            }
        } else {
            assert(id_fresh(nv, i as int));
            seen_ids.push(id);
            if contains_string(&seen_uids, cfg[i].uid.as_str()) {
                assert(uid_taken(nv, i as int)) by {
                    let j = choose|j: int| 0 <= j < i && id_fresh(nv, j) && nv[j].uid == u;
                }
            } else {
                assert(!uid_taken(nv, i as int));
                let ghost before = seen_uids@;
                seen_uids.push(copy_string(&cfg[i].uid));
                proof {
                    crate::text::lemma_views_push(before, seen_uids@.last());
                }
                if kind_matches_data(&cfg[i].kind, &cfg[i].data) {
                    let ghost ob = out@;
                    let c = cfg[i].copy();
                    out.push(c);
                    assert(node_views(out@) =~= node_views(ob).push(c@));
                }
            }
        }
        proof {
            assert(seen_ids@ == sid_before || seen_ids@ == sid_before.push(id));
            assert(sid_before.contains(id) || seen_ids@ == sid_before.push(id));
            assert forall|x: usize| #[trigger] seen_ids@.contains(x) <==> (sid_before.contains(x) || x == id) by {
                if seen_ids@ == sid_before.push(id) {
                    if seen_ids@.contains(x) {
                        let k = choose|k: int| 0 <= k < seen_ids@.len() && seen_ids@[k] == x;
                        if k < sid_before.len() {
                            assert(sid_before[k] == x);
                        }
                    }
                    if sid_before.contains(x) {
                        let k = choose|k: int| 0 <= k < sid_before.len() && sid_before[k] == x;
                        assert(seen_ids@[k] == x);
                    }
                    assert(seen_ids@[sid_before.len() as int] == id);
                }
            }
            assert forall|x: usize| #[trigger] seen_ids@.contains(x) <==> exists|j: int| 0 <= j < i + 1 && nv[j].id == x by {
                if exists|j: int| 0 <= j < i + 1 && nv[j].id == x {
                    let j = choose|j: int| 0 <= j < i + 1 && nv[j].id == x;
                    if j < i {
                        assert(exists|q: int| 0 <= q < i && nv[q].id == x);
                    }
                }
                if seen_ids@.contains(x) && !(exists|j: int| 0 <= j < i && nv[j].id == x) {
                    assert(x == id);
                }
            }
            assert(views(seen_uids@) == suid_before || (views(seen_uids@) == suid_before.push(u) && id_fresh(nv, i as int)));
            assert(views(seen_uids@) == suid_before ==> (!id_fresh(nv, i as int) || suid_before.contains(u)));
            assert forall|w: Seq<char>| #[trigger] views(seen_uids@).contains(w) <==> (suid_before.contains(w) || (w == u && id_fresh(nv, i as int))) by {
                if views(seen_uids@) != suid_before {
                    let vs = views(seen_uids@);
                    if vs.contains(w) {
                        let k = choose|k: int| 0 <= k < vs.len() && vs[k] == w;
                        if k < suid_before.len() {
                            assert(suid_before[k] == w);
                        }
                    }
                    if suid_before.contains(w) {
                        let k = choose|k: int| 0 <= k < suid_before.len() && suid_before[k] == w;
                        assert(vs[k] == w);
                    }
                    assert(vs[suid_before.len() as int] == u);
                }
            }
            assert forall|w: Seq<char>| #[trigger] views(seen_uids@).contains(w) <==> exists|j: int| 0 <= j < i + 1 && id_fresh(nv, j) && nv[j].uid == w by {
                if exists|j: int| 0 <= j < i + 1 && id_fresh(nv, j) && nv[j].uid == w {
                    let j = choose|j: int| 0 <= j < i + 1 && id_fresh(nv, j) && nv[j].uid == w;
                    if j < i {
                        assert(exists|q: int| 0 <= q < i && id_fresh(nv, q) && nv[q].uid == w);
                    }
                }
                if views(seen_uids@).contains(w) && !(exists|j: int| 0 <= j < i && id_fresh(nv, j) && nv[j].uid == w) {
                    assert(w == u && id_fresh(nv, i as int));
                }
            }
        }
        i = i + 1;
    }
    assert(nv.subrange(0, i as int) =~= nv);
    out
}


/// The saved route keys: each route key, trimmed, of an edge that exists,
/// where it is not blank.
pub open spec fn exported_routes(keys: Seq<RouteKey>, edges: Seq<(usize, usize)>) -> Seq<
    (usize, usize, Seq<char>),
>
    decreases keys.len(),
{
    if keys.len() == 0 {
        Seq::empty()
    } else {
        let prev = exported_routes(keys.drop_last(), edges);
        let k = keys.last();
        if trim(k.key@).len() > 0 && edges.contains((k.from, k.to)) {
            prev.push((k.from, k.to, trim(k.key@)))
        } else {
            prev
        }
    }
}

impl Workspace {
    /// The saved form of the workspace: its nodes and edges, the route keys
    /// worth keeping, and its name.
    pub fn graph_config(&self) -> (r: GraphConfig)
        ensures
            r.version == GRAPH_CONFIG_VERSION,
            node_views(r.nodes@) == self.graph.nodes_v(),
            r.edges@ == self.graph.edges@,
            route_cfg_views(r.edge_routes@) == exported_routes(self.graph.edge_route_keys@, self.graph.edges@),
            opt_view(r.workspace_name) == Some(self.workspace_name@),
            script_views(r.script_states@) == script_views(self.script_node_state@),
    {
        let keys = &self.graph.edge_route_keys;
        let mut routes: Vec<EdgeRouteConfig> = Vec::new();
        let mut i: usize = 0;
        while i < keys.len()
            invariant
                i <= keys@.len(),
                keys == &self.graph.edge_route_keys,
                route_cfg_views(routes@) == exported_routes(keys@.subrange(0, i as int), self.graph.edges@),
            decreases keys@.len() - i,
        {
            proof {
                assert(keys@.subrange(0, i + 1).drop_last() =~= keys@.subrange(0, i as int));
            }
            let trimmed = trim_str(keys[i].key.as_str());
            if !trimmed.as_str().is_empty() && self.graph.has_edge(keys[i].from, keys[i].to) {
                let ghost before = routes@;
                routes.push(EdgeRouteConfig { from: keys[i].from, to: keys[i].to, route_key: trimmed });
                assert(route_cfg_views(routes@) =~= route_cfg_views(before).push(
                    (keys@[i as int].from, keys@[i as int].to, trim(keys@[i as int].key@)),
                ));
            }
            i = i + 1;
        }
        assert(keys@.subrange(0, i as int) =~= keys@);
        let mut edges: Vec<(usize, usize)> = Vec::new();
        let mut j: usize = 0;
        while j < self.graph.edges.len()
            invariant
                j <= self.graph.edges@.len(),
                edges@ == self.graph.edges@.subrange(0, j as int),
            decreases self.graph.edges@.len() - j,
        {
            edges.push(self.graph.edges[j]);
            j = j + 1;
            assert(edges@ =~= self.graph.edges@.subrange(0, j as int));
        }
        assert(self.graph.edges@.subrange(0, j as int) =~= self.graph.edges@);
        GraphConfig {
            version: GRAPH_CONFIG_VERSION,
            nodes: copy_nodes(&self.graph.nodes),
            edges,
            edge_routes: routes,
            workspace_name: Some(copy_string(&self.workspace_name)),
            script_states: copy_script_states(&self.script_node_state),
        }
    }

    /// Replaces the workspace with a loaded configuration: the nodes that
    /// loading keeps (each side of their size at least 1, groups cleaned
    /// up), the edges between them, the route
    /// keys worth keeping, the script states of loaded nodes; selection, menus, editors, history and terminal
    /// state start afresh; the next id follows the largest; the name is the
    /// stored one or the one taken from the path. The largest loaded id is
    /// below `usize::MAX`, as the next id must follow it.
    pub fn apply_graph_config(&mut self, config: GraphConfig, fallback_path: Option<&str>)
        requires
            forall|i: int| 0 <= i < loaded_nodes(node_views(config.nodes@)).len()
                ==> #[trigger] loaded_nodes(node_views(config.nodes@))[i].id < usize::MAX,
        ensures
            final(self).wf(),
            ({
                let loaded = loaded_nodes(node_views(config.nodes@));
                &&& final(self).graph.nodes_v() == sanitized(sized_nodes(loaded))
                &&& final(self).graph.edges@ == config.edges@.filter(edge_between(loaded))
                &&& final(self).graph.next_node_id == next_id_after(loaded)
            }),
            final(self).graph.routes() == loaded_routes(route_cfg_views(config.edge_routes@), final(self).graph.edges@),
            script_views(final(self).script_node_state@) == script_views(config.script_states@).filter(
                state_of_node(loaded_nodes(node_views(config.nodes@))),
            ),
            final(self).selection.selected is None,
            final(self).selection.selected_nodes@.len() == 0,
            final(self).selection.selected_edge is None,
            final(self).ui.context_menu_node is None,
            final(self).ui.context_menu_edge is None,
            final(self).ui.linking_from is None,
            final(self).history.undo_stack@.len() == 0,
            final(self).history.redo_stack@.len() == 0,
            final(self).edit.all_closed(),
            final(self).terminals.running@.len() == 0,
            final(self).terminals.exited@.len() == 0,
            final(self).terminals.errors@.len() == 0,
            final(self).terminals.pending_injections@.len() == 0,
            final(self).terminals.pending_starts@.len() == 0,
            final(self).workspace_name@ == resolved_name(opt_view(config.workspace_name), opt_str_view(fallback_path)),
            !final(self).editing_workspace_name,
            !final(self).pending_workspace_name_focus,
            final(self).workspace_name_edit_buffer@.len() == 0,
            final(self).workspace_dirty == old(self).workspace_dirty,
            final(self).automation_state_version == bumped(old(self).automation_state_version),
            final(self).processed_automation_requests == old(self).processed_automation_requests,
            final(self).toast_notifications == old(self).toast_notifications,
            final(self).next_toast_id == old(self).next_toast_id,
            final(self).node_clipboard == old(self).node_clipboard,
            final(self).active_graph_path == old(self).active_graph_path,
    {
        let ghost o = *self;
        let raw_nodes = load_nodes(&config.nodes);
        let ghost raw = node_views(raw_nodes@);
        let nodes = clamp_node_sizes(raw_nodes);
        let ghost loaded = node_views(nodes@);
        proof {
            lemma_loaded_ids(node_views(config.nodes@));
            lemma_sized_keeps_ids(raw);
            lemma_next_id_after(loaded);
        }
        let mut next: usize = 1;
        let mut k: usize = 0;
        while k < nodes.len()
            invariant
                k <= nodes@.len(),
                loaded == node_views(nodes@),
                forall|i: int| 0 <= i < loaded.len() ==> #[trigger] loaded[i].id < usize::MAX,
                next == next_id_after(loaded.subrange(0, k as int)),
            decreases nodes@.len() - k,
        {
            proof {
                assert(loaded.subrange(0, k + 1).drop_last() =~= loaded.subrange(0, k as int));
                assert(loaded.subrange(0, k + 1).last() == loaded[k as int]);
                assert(nodes@[k as int].id == loaded[k as int].id);
            }
            if nodes[k].id + 1 > next {
                next = nodes[k].id + 1;
            }
            k = k + 1;
        }
        assert(loaded.subrange(0, k as int) =~= loaded);
        proof {
            assert forall|a: int, b: int| 0 <= a < b < nodes@.len() implies #[trigger] nodes@[a].id != #[trigger] nodes@[b].id by {
                assert(loaded[a].id != loaded[b].id);
            }
            assert forall|a: int| 0 <= a < nodes@.len() implies #[trigger] nodes@[a].id < next by {
                assert(loaded[a].id < next_id_after(loaded));
            }
        }
        let states = load_script_states(&config.script_states, &nodes);
        let ghost kept_states = script_views(config.script_states@).filter(state_of_node(loaded));
        self.graph = Graph { nodes, edges: Vec::new(), edge_route_keys: Vec::new(), next_node_id: next };
        let ghost eb = edge_between(loaded);
        let mut edges: Vec<(usize, usize)> = Vec::new();
        let mut j: usize = 0;
        while j < config.edges.len()
            invariant
                self.graph.wf(),
                self.graph.nodes_v() == loaded,
                eb == edge_between(loaded),
                j <= config.edges@.len(),
                edges@ == config.edges@.subrange(0, j as int).filter(eb),
                Workspace::same_meta(o, *self),
                self.workspace_dirty == o.workspace_dirty,
                self.automation_state_version == o.automation_state_version,
                script_views(states@) == kept_states,
            decreases config.edges@.len() - j,
        {
            proof {
                assert(config.edges@.subrange(0, j + 1).drop_last() =~= config.edges@.subrange(0, j as int));
                reveal_with_fuel(Seq::<_>::filter, 1);
            }
            let e = config.edges[j];
            proof {
                assert(crate::workspace::has_node_id(self.graph.nodes@, e.0) == has_id(loaded, e.0)) by {
                    if has_id(loaded, e.0) {
                        let q = choose|q: int| 0 <= q < loaded.len() && loaded[q].id == e.0;
                        assert(self.graph.nodes@[q].id == e.0);
                    }
                    if crate::workspace::has_node_id(self.graph.nodes@, e.0) {
                        let q = choose|q: int| 0 <= q < self.graph.nodes@.len() && self.graph.nodes@[q].id == e.0;
                        assert(loaded[q].id == e.0);
                    }
                }
                assert(crate::workspace::has_node_id(self.graph.nodes@, e.1) == has_id(loaded, e.1)) by {
                    if has_id(loaded, e.1) {
                        let q = choose|q: int| 0 <= q < loaded.len() && loaded[q].id == e.1;
                        assert(self.graph.nodes@[q].id == e.1);
                    }
                    if crate::workspace::has_node_id(self.graph.nodes@, e.1) {
                        let q = choose|q: int| 0 <= q < self.graph.nodes@.len() && self.graph.nodes@[q].id == e.1;
                        assert(loaded[q].id == e.1);
                    }
                }
            }
            if self.graph.has_node(e.0) && self.graph.has_node(e.1) {
                edges.push(e);
            }
            j = j + 1;
        }
        assert(config.edges@.subrange(0, j as int) =~= config.edges@);
        self.graph.edges = edges;
        self.graph.sanitize_groups();
        let ghost rv = route_cfg_views(config.edge_routes@);
        let mut r: usize = 0;
        while r < config.edge_routes.len()
            invariant
                self.graph.wf(),
                self.graph.nodes_v() == sanitized(loaded),
                self.graph.edges@ == config.edges@.filter(eb),
                self.graph.next_node_id == next,
                rv == route_cfg_views(config.edge_routes@),
                r <= rv.len(),
                self.graph.routes() == loaded_routes(rv.subrange(0, r as int), self.graph.edges@),
                Workspace::same_meta(o, *self),
                self.workspace_dirty == o.workspace_dirty,
                self.automation_state_version == o.automation_state_version,
                script_views(states@) == kept_states,
            decreases rv.len() - r,
        {
            proof {
                assert(rv.subrange(0, r + 1).drop_last() =~= rv.subrange(0, r as int));
                assert(rv.subrange(0, r + 1).last() == rv[r as int]);
            }
            let route = &config.edge_routes[r];
            let trimmed = trim_str(route.route_key.as_str());
            if !trimmed.as_str().is_empty() && self.graph.has_edge(route.from, route.to) {
                self.graph.set_edge_route_key(route.from, route.to, route.route_key.as_str());
            }
            r = r + 1;
        }
        assert(rv.subrange(0, r as int) =~= rv);
        self.selection = Selection::new();
        self.ui = UiState { context_menu_node: None, context_menu_edge: None, linking_from: None };
        self.history = History::new();
        self.edit = EditState::new();
        self.terminals = TerminalRuntime::new();
        let stored: Option<&str> = match &config.workspace_name {
            Some(n) => Some(n.as_str()),
            None => None,
        };
        self.workspace_name = resolve_workspace_name(stored, fallback_path);
        self.editing_workspace_name = false;
        self.pending_workspace_name_focus = false;
        self.workspace_name_edit_buffer = String::new();
        self.script_node_state = states;
        proof {
            assert(self.history.undo_v() =~= Seq::<crate::history::EntryView>::empty());
            assert(self.history.redo_v() =~= Seq::<crate::history::EntryView>::empty());
        }
        self.bump_automation_state_version();
    }
}

} // verus!
