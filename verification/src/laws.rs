//! What holds across operations: undo and redo take each other back.
use crate::history::{apply_moves, inverse_of, set_pos, swap_moves, with_missing, without_ids, EntryView};
use crate::model::{node_views, Coord, Node, NodeView};
use crate::groups::sanitized;
use crate::model::{kind_matches, opt_view};
use crate::naming::{normalized_name, resolved_name};
use crate::ordering::{id_present, ids_v, in_sel, node_with_id, not_in_sel, not_listed, ordered_by, reordered, step_backward, step_forward, swapped_adjacent, sweep_backward, sweep_forward, NodeOrderAction};
use crate::persistence::{
    at_least_one_bits, edge_between, exported_routes, has_id, sized_nodes, id_fresh, loaded_nodes, loaded_routes, next_id_after, route_cfg_views, state_of_node,
    uid_taken, GraphConfig,
};
use crate::buttons::{parsed_rgb, rgb_text};
use crate::routes::shown_route;
use crate::text::{decimal, lemma_trim_idempotent, first_match_from, is_digit, lemma_decimal_digits, lemma_trim_unchanged, parse_unsigned, split_from, split_seq, trim};
use crate::workspace::{has_node_id, id_is_not, ids_of, route_map, script_views, unique_ids, RouteKey, Workspace};
use vstd::prelude::*;

verus! {

/// Taking back a step twice gives the step back: the inverse of the inverse
/// of a move, of a multi-move, of a creation or of a deletion is the entry
/// itself.
pub proof fn law_inverse_involution(nodes: Seq<NodeView>, e: EntryView)
    requires
        !(e is ReorderNodes),
    ensures
        inverse_of(nodes, inverse_of(nodes, e)) == e,
{
    if let EntryView::MoveNodes { nodes: m } = e {
        assert(swap_moves(swap_moves(m)) =~= m);
    }
}

/// Undoing a move and redoing it leaves the nodes as they were, when the
/// node stood at the move's end point.
pub proof fn law_move_undo_redo(nodes: Seq<NodeView>, id: usize, from: Coord, to: Coord)
    requires
        set_pos(nodes, id, to) == nodes,
    ensures
        set_pos(set_pos(nodes, id, from), id, to) == nodes,
{
    assert(set_pos(set_pos(nodes, id, from), id, to) =~= set_pos(nodes, id, to));
}

/// Moving a node twice is moving it once, to the second place.
pub proof fn law_set_pos_last_wins(nodes: Seq<NodeView>, id: usize, a: Coord, b: Coord)
    ensures
        set_pos(set_pos(nodes, id, a), id, b) == set_pos(nodes, id, b),
{
    assert(set_pos(set_pos(nodes, id, a), id, b) =~= set_pos(nodes, id, b));
}

/// No two moves of the list move the same node.
pub open spec fn distinct_moves(m: Seq<(usize, Coord, Coord)>) -> bool {
    forall|i: int, j: int| 0 <= i < j < m.len() ==> #[trigger] m[i].0 != #[trigger] m[j].0
}

/// Each node that the list moves stands at the move's end point.
pub open spec fn at_end_points(nodes: Seq<NodeView>, m: Seq<(usize, Coord, Coord)>) -> bool {
    forall|i: int, k: int| 0 <= i < nodes.len() && 0 <= k < m.len() && #[trigger] nodes[i].id == #[trigger] m[k].0
        ==> nodes[i].pos == m[k].2
}

proof fn lemma_apply_moves_pointwise(nodes: Seq<NodeView>, m: Seq<(usize, Coord, Coord)>)
    requires
        distinct_moves(m),
    ensures
        apply_moves(nodes, m).len() == nodes.len(),
        forall|i: int| 0 <= i < nodes.len() ==> {
            let r = #[trigger] apply_moves(nodes, m)[i];
            &&& r.id == nodes[i].id
            &&& (forall|k: int| 0 <= k < m.len() ==> m[k].0 != nodes[i].id) ==> r == nodes[i]
            &&& (forall|k: int| 0 <= k < m.len() && m[k].0 == nodes[i].id ==> r == NodeView { pos: m[k].1, ..nodes[i] })
        },
    decreases m.len(),
{
    if m.len() > 0 {
        let t = m.drop_last();
        assert(distinct_moves(t)) by {
            assert forall|i: int, j: int| 0 <= i < j < t.len() implies #[trigger] t[i].0 != #[trigger] t[j].0 by {
                assert(t[i] == m[i] && t[j] == m[j]);
            }
        }
        lemma_apply_moves_pointwise(nodes, t);
        assert forall|i: int| 0 <= i < nodes.len() implies {
            let r = #[trigger] apply_moves(nodes, m)[i];
            &&& r.id == nodes[i].id
            &&& (forall|k: int| 0 <= k < m.len() ==> m[k].0 != nodes[i].id) ==> r == nodes[i]
            &&& (forall|k: int| 0 <= k < m.len() && m[k].0 == nodes[i].id ==> r == NodeView { pos: m[k].1, ..nodes[i] })
        } by {
            let p = apply_moves(nodes, t)[i];
            assert(forall|k: int| 0 <= k < t.len() ==> t[k] == m[k]);
            if m.last().0 == nodes[i].id {
                assert forall|k: int| 0 <= k < m.len() && m[k].0 == nodes[i].id implies apply_moves(nodes, m)[i] == NodeView { pos: m[k].1, ..nodes[i] } by {
                    if k < m.len() - 1 {
                        assert(m[k].0 != m[m.len() - 1].0);
                    }
                }
            } else {
                assert forall|k: int| 0 <= k < m.len() && m[k].0 == nodes[i].id implies apply_moves(nodes, m)[i] == NodeView { pos: m[k].1, ..nodes[i] } by {
                    assert(k < m.len() - 1);
                    assert(t[k] == m[k]);
                }
                if forall|k: int| 0 <= k < m.len() ==> m[k].0 != nodes[i].id {
                    assert(forall|k: int| 0 <= k < t.len() ==> t[k].0 != nodes[i].id);
                }
            }
        }
    }
}

/// Undoing a move of several nodes and redoing it leaves the nodes as they
/// were, when no node is moved twice by the list and each moved node stood
/// at its end point.
pub proof fn law_moves_undo_redo(nodes: Seq<NodeView>, m: Seq<(usize, Coord, Coord)>)
    requires
        distinct_moves(m),
        at_end_points(nodes, m),
    ensures
        apply_moves(apply_moves(nodes, m), swap_moves(m)) == nodes,
{
    let u = apply_moves(nodes, m);
    let sm = swap_moves(m);
    assert(distinct_moves(sm)) by {
        assert forall|i: int, j: int| 0 <= i < j < sm.len() implies #[trigger] sm[i].0 != #[trigger] sm[j].0 by {
            assert(m[i].0 != m[j].0);
        }
    }
    lemma_apply_moves_pointwise(nodes, m);
    lemma_apply_moves_pointwise(u, sm);
    let r = apply_moves(u, sm);
    assert forall|i: int| 0 <= i < nodes.len() implies r[i] == nodes[i] by {
        assert(u[i].id == nodes[i].id);
        if exists|k: int| 0 <= k < m.len() && m[k].0 == nodes[i].id {
            let k = choose|k: int| 0 <= k < m.len() && m[k].0 == nodes[i].id;
            assert(sm[k].0 == nodes[i].id);
            assert(r[i] == NodeView { pos: sm[k].1, ..u[i] });
            assert(nodes[i].pos == m[k].2);
        } else {
            assert forall|k: int| 0 <= k < sm.len() implies sm[k].0 != u[i].id by {
                assert(sm[k].0 == m[k].0);
            }
        }
    }
    assert(r =~= nodes);
}


/// The node's id is none of `ids`.
pub open spec fn not_in_ids(ids: Seq<usize>) -> spec_fn(Node) -> bool {
    |n: Node| !ids.contains(n.id)
}

proof fn lemma_filter_filter(s: Seq<Node>, p: spec_fn(Node) -> bool, q: spec_fn(Node) -> bool)
    ensures
        s.filter(p).filter(q) == s.filter(|x: Node| p(x) && q(x)),
    decreases s.len(),
{
    reveal_with_fuel(Seq::<_>::filter, 1);
    if s.len() > 0 {
        let t = s.drop_last();
        let l = s.last();
        let r = |x: Node| p(x) && q(x);
        lemma_filter_filter(t, p, q);
        let fp = t.filter(p);
        assert(s.filter(r) == if r(l) { t.filter(r).push(l) } else { t.filter(r) });
        if p(l) {
            assert(s.filter(p) == fp.push(l));
            assert(fp.push(l).drop_last() =~= fp);
            assert(fp.push(l).last() == l);
            assert(fp.push(l).filter(q) == if q(l) { fp.filter(q).push(l) } else { fp.filter(q) });
        } else {
            assert(s.filter(p) == fp);
        }
    }
}

proof fn lemma_without_ids_filter(s: Seq<Node>, ids: Seq<usize>)
    ensures
        without_ids(s, ids) == s.filter(not_in_ids(ids)),
    decreases ids.len(),
{
    if ids.len() == 0 {
        crate::seqs::lemma_filter_len_bound(s, not_in_ids(ids));
    } else {
        let t = ids.drop_last();
        lemma_without_ids_filter(s, t);
        lemma_filter_filter(s, not_in_ids(t), id_is_not(ids.last()));
        assert forall|x: Node| #[trigger] ids.contains(x.id) <==> t.contains(x.id) || x.id == ids.last() by {
            if ids.contains(x.id) {
                let k = choose|k: int| 0 <= k < ids.len() && ids[k] == x.id;
                if k < ids.len() - 1 {
                    assert(t[k] == x.id);
                }
            }
            if t.contains(x.id) {
                let k = choose|k: int| 0 <= k < t.len() && t[k] == x.id;
                assert(ids[k] == x.id);
            }
            assert(ids[ids.len() - 1] == ids.last());
        }
        assert((|x: Node| not_in_ids(t)(x) && id_is_not(ids.last())(x)) =~= not_in_ids(ids));
    }
}

proof fn lemma_filter_none(s: Seq<Node>, p: spec_fn(Node) -> bool)
    requires
        forall|i: int| 0 <= i < s.len() ==> !p(#[trigger] s[i]),
    ensures
        s.filter(p) == Seq::<Node>::empty(),
{
    crate::seqs::lemma_filter_contains(s, p);
    if s.filter(p).len() > 0 {
        let x = s.filter(p)[0];
        assert(s.filter(p).contains(x));
        let k = choose|k: int| 0 <= k < s.len() && s[k] == x;
    }
    assert(s.filter(p) =~= Seq::<Node>::empty());
}

proof fn lemma_with_missing_fresh(base: Seq<NodeView>, batch: Seq<NodeView>)
    requires
        forall|i: int, j: int| 0 <= i < j < (base + batch).len() ==> #[trigger] (base + batch)[i].id != #[trigger] (base + batch)[j].id,
    ensures
        with_missing(base, batch) == base + batch,
    decreases batch.len(),
{
    if batch.len() > 0 {
        let t = batch.drop_last();
        assert(base + t =~= (base + batch).drop_last());
        assert forall|i: int, j: int| 0 <= i < j < (base + t).len() implies #[trigger] (base + t)[i].id != #[trigger] (base + t)[j].id by {
            assert((base + t)[i] == (base + batch)[i] && (base + t)[j] == (base + batch)[j]);
        }
        lemma_with_missing_fresh(base, t);
        let prev = base + t;
        assert(!crate::history::has_view_id(prev, batch.last().id)) by {
            if crate::history::has_view_id(prev, batch.last().id) {
                let k = choose|k: int| 0 <= k < prev.len() && prev[k].id == batch.last().id;
                assert((base + batch)[k] == prev[k]);
                assert((base + batch)[(base + batch).len() - 1] == batch.last());
            }
        }
        assert(prev.push(batch.last()) =~= base + batch);
    }
}

/// Undoing a creation and redoing it gives back the nodes as they were: the
/// nodes of the batch were added last, and no id occurs twice.
pub proof fn law_create_undo_redo(base: Seq<Node>, batch: Seq<Node>)
    requires
        unique_ids(base + batch),
    ensures
        with_missing(
            node_views(without_ids(base + batch, ids_v(node_views(batch)))),
            node_views(batch),
        ) == node_views(base + batch),
{
    let ids = ids_v(node_views(batch));
    assert(ids =~= ids_of(batch));
    lemma_without_ids_filter(base + batch, ids);
    Seq::filter_distributes_over_add(base, batch, not_in_ids(ids));
    assert forall|i: int| 0 <= i < base.len() implies #[trigger] not_in_ids(ids)(base[i]) by {
        if ids.contains(base[i].id) {
            let k = choose|k: int| 0 <= k < ids.len() && ids[k] == base[i].id;
            assert((base + batch)[i] == base[i]);
            assert((base + batch)[base.len() + k] == batch[k]);
            assert(batch[k].id == ids[k]);
        }
    }
    crate::seqs::lemma_filter_len_bound(base, not_in_ids(ids));
    assert forall|i: int| 0 <= i < batch.len() implies !not_in_ids(ids)(#[trigger] batch[i]) by {
        assert(ids[i] == batch[i].id);
    }
    lemma_filter_none(batch, not_in_ids(ids));
    assert(base.filter(not_in_ids(ids)) + batch.filter(not_in_ids(ids)) =~= base);
    assert(node_views(base + batch) =~= node_views(base) + node_views(batch));
    assert forall|i: int, j: int| 0 <= i < j < (node_views(base) + node_views(batch)).len() implies #[trigger] (node_views(base) + node_views(batch))[i].id != #[trigger] (node_views(base) + node_views(batch))[j].id by {
        assert((base + batch)[i].id != (base + batch)[j].id);
    }
    lemma_with_missing_fresh(node_views(base), node_views(batch));
}


proof fn lemma_loaded_all(nv: Seq<NodeView>)
    requires
        forall|i: int, j: int| 0 <= i < j < nv.len() ==> #[trigger] nv[i].id != #[trigger] nv[j].id,
        forall|i: int, j: int| 0 <= i < j < nv.len() ==> #[trigger] nv[i].uid != #[trigger] nv[j].uid,
        forall|i: int| 0 <= i < nv.len() ==> kind_matches(#[trigger] nv[i].kind, nv[i].data),
    ensures
        loaded_nodes(nv) == nv,
    decreases nv.len(),
{
    if nv.len() > 0 {
        let t = nv.drop_last();
        assert forall|i: int, j: int| 0 <= i < j < t.len() implies #[trigger] t[i].id != #[trigger] t[j].id by {
            assert(t[i] == nv[i] && t[j] == nv[j]);
        }
        assert forall|i: int, j: int| 0 <= i < j < t.len() implies #[trigger] t[i].uid != #[trigger] t[j].uid by {
            assert(t[i] == nv[i] && t[j] == nv[j]);
        }
        assert forall|i: int| 0 <= i < t.len() implies kind_matches(#[trigger] t[i].kind, t[i].data) by {
            assert(t[i] == nv[i]);
        }
        lemma_loaded_all(t);
        let k = nv.len() - 1;
        assert(id_fresh(nv, k));
        assert(!uid_taken(nv, k)) by {
            if uid_taken(nv, k) {
                let j = choose|j: int| 0 <= j < k && id_fresh(nv, j) && #[trigger] nv[j].uid == nv[k].uid;
            }
        }
        assert(kind_matches(nv[k].kind, nv[k].data));
        assert(t.push(nv.last()) =~= nv);
    }
}

proof fn lemma_routes_roundtrip(keys: Seq<RouteKey>, edges: Seq<(usize, usize)>)
    requires
        forall|i: int| 0 <= i < keys.len() ==> trim((#[trigger] keys[i]).key@) == keys[i].key@ && keys[i].key@.len() > 0
            && edges.contains((keys[i].from, keys[i].to)),
    ensures
        loaded_routes(exported_routes(keys, edges), edges) == route_map(keys),
    decreases keys.len(),
{
    if keys.len() > 0 {
        let t = keys.drop_last();
        assert forall|i: int| 0 <= i < t.len() implies trim((#[trigger] t[i]).key@) == t[i].key@ && t[i].key@.len() > 0
            && edges.contains((t[i].from, t[i].to)) by {
            assert(t[i] == keys[i]);
        }
        lemma_routes_roundtrip(t, edges);
        let k = keys.last();
        assert(k == keys[keys.len() - 1]);
        let ex = exported_routes(keys, edges);
        assert(ex == exported_routes(t, edges).push((k.from, k.to, trim(k.key@))));
        assert(ex.drop_last() =~= exported_routes(t, edges));
        assert(ex.last() == (k.from, k.to, k.key@));
    }
}

proof fn lemma_next_at_most(nodes: Seq<NodeView>, n: int)
    requires
        n >= 1,
        forall|i: int| 0 <= i < nodes.len() ==> #[trigger] nodes[i].id < n,
    ensures
        next_id_after(nodes) <= n,
    decreases nodes.len(),
{
    if nodes.len() > 0 {
        let t = nodes.drop_last();
        assert forall|i: int| 0 <= i < t.len() implies #[trigger] t[i].id < n by {
            assert(t[i] == nodes[i]);
        }
        lemma_next_at_most(t, n);
        assert(nodes[nodes.len() - 1] == nodes.last());
    }
}

/// Every element passes the filter, so filtering keeps the sequence.
proof fn lemma_filter_keeps_all<A>(s: Seq<A>, p: spec_fn(A) -> bool)
    requires
        forall|i: int| 0 <= i < s.len() ==> p(#[trigger] s[i]),
    ensures
        s.filter(p) == s,
    decreases s.len(),
{
    reveal_with_fuel(Seq::<_>::filter, 1);
    if s.len() > 0 {
        let t = s.drop_last();
        assert forall|i: int| 0 <= i < t.len() implies p(#[trigger] t[i]) by {
            assert(t[i] == s[i]);
        }
        lemma_filter_keeps_all(t, p);
        assert(p(s[s.len() - 1]));
        assert(t.push(s.last()) =~= s);
    }
}

/// Saving a workspace and loading what was saved gives back its nodes,
/// edges, route keys, name and script node states, and an id to hand out
/// next that is no larger than before. It holds for a workspace as the
/// canvas keeps it: uids are unique, each node's kind agrees with its
/// content, each edge joins two nodes, ids are handed out from one, groups
/// are clean, each route key is trimmed and not blank and belongs to an
/// edge, each script state belongs to a node, each side of each node's size
/// is at least 1, and the name is already in its normal form.
pub proof fn law_save_load_roundtrip(w: Workspace, c: GraphConfig, path: Option<Seq<char>>)
    requires
        w.wf(),
        w.graph.next_node_id >= 1,
        forall|i: int, j: int| 0 <= i < j < w.graph.nodes@.len() ==> #[trigger] w.graph.nodes@[i].uid@ != #[trigger] w.graph.nodes@[j].uid@,
        forall|i: int| 0 <= i < w.graph.nodes@.len() ==> kind_matches(#[trigger] w.graph.nodes@[i].kind, w.graph.nodes@[i].data@),
        forall|i: int| 0 <= i < w.graph.edges@.len() ==> has_node_id(w.graph.nodes@, (#[trigger] w.graph.edges@[i]).0) && has_node_id(w.graph.nodes@, w.graph.edges@[i].1),
        sanitized(w.graph.nodes_v()) == w.graph.nodes_v(),
        forall|i: int| 0 <= i < w.graph.edge_route_keys@.len() ==> trim((#[trigger] w.graph.edge_route_keys@[i]).key@)
            == w.graph.edge_route_keys@[i].key@ && w.graph.edge_route_keys@[i].key@.len() > 0
            && w.graph.edges@.contains((w.graph.edge_route_keys@[i].from, w.graph.edge_route_keys@[i].to)),
        normalized_name(w.workspace_name@) == w.workspace_name@,
        node_views(c.nodes@) == w.graph.nodes_v(),
        c.edges@ == w.graph.edges@,
        route_cfg_views(c.edge_routes@) == exported_routes(w.graph.edge_route_keys@, w.graph.edges@),
        opt_view(c.workspace_name) == Some(w.workspace_name@),
        forall|i: int| 0 <= i < w.script_node_state@.len() ==> has_node_id(
            w.graph.nodes@,
            (#[trigger] w.script_node_state@[i]).node_id,
        ),
        script_views(c.script_states@) == script_views(w.script_node_state@),
        forall|i: int| 0 <= i < w.graph.nodes@.len() ==> {
            &&& at_least_one_bits((#[trigger] w.graph.nodes@[i]).size.x_bits) == w.graph.nodes@[i].size.x_bits
            &&& at_least_one_bits(w.graph.nodes@[i].size.y_bits) == w.graph.nodes@[i].size.y_bits
        },
    ensures
        sanitized(sized_nodes(loaded_nodes(node_views(c.nodes@)))) == w.graph.nodes_v(),
        script_views(c.script_states@).filter(state_of_node(loaded_nodes(node_views(c.nodes@))))
            == script_views(w.script_node_state@),
        c.edges@.filter(edge_between(loaded_nodes(node_views(c.nodes@)))) == w.graph.edges@,
        loaded_routes(route_cfg_views(c.edge_routes@), w.graph.edges@) == w.graph.routes(),
        resolved_name(opt_view(c.workspace_name), path) == w.workspace_name@,
        next_id_after(loaded_nodes(node_views(c.nodes@))) <= w.graph.next_node_id,
{
    let nv = w.graph.nodes_v();
    assert forall|i: int, j: int| 0 <= i < j < nv.len() implies #[trigger] nv[i].id != #[trigger] nv[j].id by {
        assert(w.graph.nodes@[i].id != w.graph.nodes@[j].id);
    }
    assert forall|i: int, j: int| 0 <= i < j < nv.len() implies #[trigger] nv[i].uid != #[trigger] nv[j].uid by {
        assert(w.graph.nodes@[i].uid@ != w.graph.nodes@[j].uid@);
    }
    assert forall|i: int| 0 <= i < nv.len() implies kind_matches(#[trigger] nv[i].kind, nv[i].data) by {
        assert(kind_matches(w.graph.nodes@[i].kind, w.graph.nodes@[i].data@));
    }
    lemma_loaded_all(nv);
    assert forall|i: int| 0 <= i < c.edges@.len() implies #[trigger] edge_between(nv)(c.edges@[i]) by {
        let e = c.edges@[i];
        assert(w.graph.edges@[i] == e);
        let a = choose|a: int| 0 <= a < w.graph.nodes@.len() && w.graph.nodes@[a].id == e.0;
        let b = choose|b: int| 0 <= b < w.graph.nodes@.len() && w.graph.nodes@[b].id == e.1;
        assert(nv[a].id == e.0 && nv[b].id == e.1);
    }
    crate::seqs::lemma_filter_len_bound(c.edges@, edge_between(nv));
    lemma_routes_roundtrip(w.graph.edge_route_keys@, w.graph.edges@);
    assert forall|i: int| 0 <= i < nv.len() implies #[trigger] nv[i].id < w.graph.next_node_id by {
        assert(nv[i].id == w.graph.nodes@[i].id);
    }
    lemma_next_at_most(nv, w.graph.next_node_id as int);
    assert(sized_nodes(nv) =~= nv) by {
        assert forall|i: int| 0 <= i < nv.len() implies #[trigger] sized_nodes(nv)[i] == nv[i] by {
            assert(nv[i] == w.graph.nodes@[i]@);
        }
    }
    let sv = script_views(w.script_node_state@);
    assert forall|i: int| 0 <= i < sv.len() implies state_of_node(nv)(#[trigger] sv[i]) by {
        let id = w.script_node_state@[i].node_id;
        let a = choose|a: int| 0 <= a < w.graph.nodes@.len() && w.graph.nodes@[a].id == id;
        assert(nv[a].id == id);
        assert(has_id(nv, sv[i].0));
    }
    lemma_filter_keeps_all(sv, state_of_node(nv));
}

/// A normalized workspace name is never empty and holds at most the longest
/// name's number of characters; where the raw name is not blank, it is the
/// trimmed name cut to that length.
pub proof fn law_normalized_name_shape(raw: Seq<char>)
    ensures
        normalized_name(raw).len() > 0,
        normalized_name(raw).len() <= crate::naming::MAX_WORKSPACE_NAME_CHARS,
        trim(raw).len() > 0 ==> normalized_name(raw) == crate::text::take_chars(
            trim(raw),
            crate::naming::MAX_WORKSPACE_NAME_CHARS as nat,
        ),
{
    assert(crate::naming::default_name().len() == 5);
}

/// `a` and `b` hold the same nodes.
pub open spec fn same_members(a: Seq<Node>, b: Seq<Node>) -> bool {
    &&& forall|x: Node| a.contains(x) ==> b.contains(x)
    &&& forall|x: Node| b.contains(x) ==> a.contains(x)
}

proof fn lemma_swap_members(s: Seq<Node>, i: int)
    requires
        0 <= i < s.len() - 1,
    ensures
        same_members(s, swapped_adjacent(s, i)),
{
    let t = swapped_adjacent(s, i);
    assert forall|x: Node| s.contains(x) implies t.contains(x) by {
        let j = choose|j: int| 0 <= j < s.len() && s[j] == x;
        if j == i {
            assert(t[i + 1] == x);
        } else if j == i + 1 {
            assert(t[i] == x);
        } else {
            assert(t[j] == x);
        }
    }
    assert forall|x: Node| t.contains(x) implies s.contains(x) by {
        let j = choose|j: int| 0 <= j < t.len() && t[j] == x;
        if j == i {
            assert(s[i + 1] == x);
        } else if j == i + 1 {
            assert(s[i] == x);
        } else {
            assert(s[j] == x);
        }
    }
}

proof fn lemma_sweep_forward_members(s: Seq<Node>, sel: Seq<usize>, i: int)
    requires
        i < s.len() - 1,
    ensures
        same_members(s, sweep_forward(s, sel, i)),
        sweep_forward(s, sel, i).len() == s.len(),
    decreases i + 1,
{
    if i >= 0 {
        let t = step_forward(s, sel, i);
        if sel.contains(s[i].id) && !sel.contains(s[i + 1].id) {
            lemma_swap_members(s, i);
        }
        lemma_sweep_forward_members(t, sel, i - 1);
    }
}

proof fn lemma_sweep_backward_members(s: Seq<Node>, sel: Seq<usize>, i: int)
    ensures
        same_members(s, sweep_backward(s, sel, i)),
        sweep_backward(s, sel, i).len() == s.len(),
    decreases s.len() - i,
{
    if i >= 1 && i < s.len() {
        let t = step_backward(s, sel, i);
        if sel.contains(s[i].id) && !sel.contains(s[i - 1].id) {
            lemma_swap_members(s, i - 1);
        }
        lemma_sweep_backward_members(t, sel, i + 1);
    }
}

proof fn lemma_reordered_members(nodes: Seq<Node>, sel: Seq<usize>, mode: NodeOrderAction)
    ensures
        same_members(nodes, reordered(nodes, sel, mode)),
{
    match mode {
        NodeOrderAction::BringToFront | NodeOrderAction::SendToBack => {
            crate::seqs::lemma_filter_contains(nodes, in_sel(sel));
            crate::seqs::lemma_filter_contains(nodes, not_in_sel(sel));
            let r = reordered(nodes, sel, mode);
            let a = nodes.filter(in_sel(sel));
            let b = nodes.filter(not_in_sel(sel));
            assert forall|x: Node| nodes.contains(x) implies r.contains(x) by {
                if sel.contains(x.id) {
                    assert(a.contains(x));
                    let k = choose|k: int| 0 <= k < a.len() && a[k] == x;
                    if mode == NodeOrderAction::SendToBack {
                        assert(r[k] == x);
                    } else {
                        assert(r[b.len() + k] == x);
                    }
                } else {
                    assert(b.contains(x));
                    let k = choose|k: int| 0 <= k < b.len() && b[k] == x;
                    if mode == NodeOrderAction::SendToBack {
                        assert(r[a.len() + k] == x);
                    } else {
                        assert(r[k] == x);
                    }
                }
            }
            assert forall|x: Node| r.contains(x) implies nodes.contains(x) by {
                let k = choose|k: int| 0 <= k < r.len() && r[k] == x;
                if mode == NodeOrderAction::SendToBack {
                    if k < a.len() {
                        assert(a.contains(x));
                    } else {
                        assert(b[k - a.len()] == x);
                        assert(b.contains(x));
                    }
                } else {
                    if k < b.len() {
                        assert(b.contains(x));
                    } else {
                        assert(a[k - b.len()] == x);
                        assert(a.contains(x));
                    }
                }
            }
        },
        NodeOrderAction::BringForwardOne => {
            lemma_sweep_forward_members(nodes, sel, nodes.len() - 2);
        },
        NodeOrderAction::SendBackwardOne => {
            lemma_sweep_backward_members(nodes, sel, 1);
        },
    }
}

/// Undoing a reorder gives back the drawing order it started from: the
/// nodes put back in the order of the ids recorded before it are the nodes
/// as they were.
pub proof fn law_reorder_undo(nodes: Seq<Node>, sel: Seq<usize>, mode: NodeOrderAction)
    requires
        unique_ids(nodes),
    ensures
        ordered_by(node_views(reordered(nodes, sel, mode)), ids_v(node_views(nodes))) == node_views(nodes),
{
    lemma_reordered_members(nodes, sel, mode);
    let p = reordered(nodes, sel, mode);
    let pv = node_views(p);
    let nv = node_views(nodes);
    let order = ids_v(nv);
    // every listed id is present among the reordered nodes
    assert forall|k: int| 0 <= k < order.len() implies #[trigger] id_present(pv)(order[k]) by {
        assert(nodes.contains(nodes[k]));
        assert(p.contains(nodes[k]));
        let i = choose|i: int| 0 <= i < p.len() && p[i] == nodes[k];
        assert(pv[i].id == order[k]);
    }
    crate::shortcuts::lemma_filter_all(order, id_present(pv));
    // the node found under each id is the node with that id before
    assert forall|k: int| 0 <= k < order.len() implies #[trigger] node_with_id(pv, order[k]) == nv[k] by {
        assert(id_present(pv)(order[k]));
        let i = choose|i: int| 0 <= i < pv.len() && pv[i].id == order[k];
        assert(p.contains(p[i]));
        assert(nodes.contains(p[i]));
        let j = choose|j: int| 0 <= j < nodes.len() && nodes[j] == p[i];
        if j != k {
            if j < k {
                assert(nodes[j].id != nodes[k].id);
            } else {
                assert(nodes[k].id != nodes[j].id);
            }
        }
    }
    // no reordered node is left over
    assert forall|i: int| 0 <= i < pv.len() implies !#[trigger] not_listed(order)(pv[i]) by {
        assert(p.contains(p[i]));
        assert(nodes.contains(p[i]));
        let j = choose|j: int| 0 <= j < nodes.len() && nodes[j] == p[i];
        assert(order[j] == pv[i].id);
    }
    assert(pv.filter(not_listed(order)) =~= Seq::<NodeView>::empty()) by {
        lemma_filter_rejects_all(pv, not_listed(order));
    }
    assert(ordered_by(pv, order) =~= nv);
}

proof fn lemma_filter_rejects_all<T>(s: Seq<T>, p: spec_fn(T) -> bool)
    requires
        forall|i: int| 0 <= i < s.len() ==> !#[trigger] p(s[i]),
    ensures
        s.filter(p) == Seq::<T>::empty(),
    decreases s.len(),
{
    reveal_with_fuel(Seq::<_>::filter, 1);
    if s.len() > 0 {
        assert forall|i: int| 0 <= i < s.drop_last().len() implies !#[trigger] p(s.drop_last()[i]) by {
            assert(s.drop_last()[i] == s[i]);
        }
        lemma_filter_rejects_all(s.drop_last(), p);
        assert(!p(s[s.len() - 1]));
    }
    assert(s.filter(p) =~= Seq::<T>::empty());
}

proof fn lemma_first_comma(s: Seq<char>, start: int, k: int)
    requires
        0 <= start <= k < s.len(),
        s[k] == ',',
        forall|j: int| start <= j < k ==> s[j] != ',',
    ensures
        first_match_from(s, ","@, start) == Some(k),
    decreases k - start,
{
    reveal_strlit(",");
    assert(","@ =~= seq![',']);
    if start == k {
        assert(s.subrange(k, k + 1) =~= ","@);
    } else {
        assert(s.subrange(start, start + 1)[0] == s[start]);
        assert(s.subrange(start, start + 1) != ","@);
        lemma_first_comma(s, start + 1, k);
    }
}

proof fn lemma_no_comma(s: Seq<char>, start: int)
    requires
        0 <= start <= s.len(),
        forall|j: int| start <= j < s.len() ==> s[j] != ',',
    ensures
        first_match_from(s, ","@, start) is None,
    decreases s.len() - start,
{
    reveal_strlit(",");
    assert(","@ =~= seq![',']);
    if start + 1 <= s.len() {
        assert(s.subrange(start, start + 1)[0] == s[start]);
        assert(s.subrange(start, start + 1) != ","@);
        lemma_no_comma(s, start + 1);
    }
}

proof fn lemma_reads_back(d: Seq<char>, n: nat)
    requires
        d == decimal(n),
        n <= 255,
    ensures
        parse_unsigned(trim(d), 255) == Some(n as int),
{
    lemma_decimal_digits(n);
    lemma_trim_unchanged(d);
    assert(is_digit(d[0]));
}

/// Writing a colour as `r,g,b` and reading the text back gives the colour.
pub proof fn law_rgb_text_roundtrip(c: [u8; 3])
    ensures
        parsed_rgb(rgb_text(c)) == Some((c[0] as int, c[1] as int, c[2] as int)),
{
    reveal_strlit(",");
    assert(","@ =~= seq![',']);
    let d0 = decimal(c[0] as nat);
    let d1 = decimal(c[1] as nat);
    let d2 = decimal(c[2] as nat);
    lemma_decimal_digits(c[0] as nat);
    lemma_decimal_digits(c[1] as nat);
    lemma_decimal_digits(c[2] as nat);
    let t = rgb_text(c);
    let k0 = d0.len() as int;
    let k1 = k0 + 1 + d1.len();
    assert(t =~= d0 + seq![','] + d1 + seq![','] + d2);
    assert(t[k0] == ',');
    assert(t[k1] == ',');
    assert forall|j: int| 0 <= j < k0 implies t[j] != ',' by {
        assert(t[j] == d0[j]);
    }
    assert forall|j: int| k0 + 1 <= j < k1 implies t[j] != ',' by {
        assert(t[j] == d1[j - k0 - 1]);
    }
    assert forall|j: int| k1 + 1 <= j < t.len() implies t[j] != ',' by {
        assert(t[j] == d2[j - k1 - 1]);
    }
    lemma_first_comma(t, 0, k0);
    lemma_first_comma(t, k0 + 1, k1);
    lemma_no_comma(t, k1 + 1);
    let p = ","@;
    assert(split_from(t, p, k1 + 1) == seq![t.subrange(k1 + 1, t.len() as int)]);
    assert(split_from(t, p, k0 + 1) == seq![t.subrange(k0 + 1, k1)] + split_from(t, p, k1 + 1));
    assert(split_from(t, p, 0) == seq![t.subrange(0, k0)] + split_from(t, p, k0 + 1));
    assert(t.subrange(0, k0) =~= d0);
    assert(t.subrange(k0 + 1, k1) =~= d1);
    assert(t.subrange(k1 + 1, t.len() as int) =~= d2);
    let parts = split_seq(t, p);
    assert(parts =~= seq![d0, d1, d2]);
    lemma_reads_back(d0, c[0] as nat);
    lemma_reads_back(d1, c[1] as nat);
    lemma_reads_back(d2, c[2] as nat);
}

/// Setting an edge's route key and reading it back gives the trimmed key,
/// or no key where the trimmed key is empty: the route map after
/// `set_edge_route_key` shows, for that edge, what `edge_route_key` then
/// returns.
pub proof fn law_route_key_read_after_write(
    m: Map<(usize, usize), Seq<char>>,
    from: usize,
    to: usize,
    key: Seq<char>,
)
    ensures
        shown_route(
            if trim(key).len() == 0 {
                m.remove((from, to))
            } else {
                m.insert((from, to), trim(key))
            },
            from,
            to,
        ) == (if trim(key).len() == 0 {
            None
        } else {
            Some(trim(key))
        }),
{
    lemma_trim_idempotent(key);
}

} // verus!
