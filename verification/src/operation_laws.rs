//! Laws that say what single operations are for, over all inputs: where
//! forwarding sends a message, what a `debug edge delete` request names,
//! what appending text gives, which number a new group gets, and what
//! clearing a decision queue keeps.
use crate::cli::{popped_value, spec_edge_delete, usize_arg, PayloadView};
use crate::forwarding::{queue_op, targets_of, QueueOp};
use crate::automation::injected_text;
use crate::groups::{max_title_index, next_title, title_index};
use crate::model::{DataView, NodeView};
use crate::queue::normalized_queue;
use crate::routes::shown_route;
use crate::text::{ascii_lowercase, decimal};
use vstd::prelude::*;

verus! {

/// The edge leaves `source` and, where a route is asked for, carries it as
/// its route key.
pub open spec fn edge_on_route(
    e: (usize, usize),
    source: usize,
    route: Option<Seq<char>>,
    routes: Map<(usize, usize), Seq<char>>,
) -> bool {
    &&& e.0 == source
    &&& match route {
        Some(r) => shown_route(routes, e.0, e.1) == Some(r),
        None => true,
    }
}

/// Forwarding from `source` reaches exactly the ends of the edges that leave
/// it: with a route, only those edges whose route key is that route; an edge
/// with another key or no key gives no target. Each target is the end of
/// such an edge, and each such edge's end is a target; the targets come in
/// the order of the edges, once per edge.
pub proof fn law_forwarding_follows_route(
    edges: Seq<(usize, usize)>,
    source: usize,
    route: Option<Seq<char>>,
    routes: Map<(usize, usize), Seq<char>>,
)
    ensures
        forall|i: int| 0 <= i < targets_of(edges, source, route, routes).len() ==> exists|j: int|
            0 <= j < edges.len() && edges[j] == (source, #[trigger] targets_of(edges, source, route, routes)[i])
                && edge_on_route(edges[j], source, route, routes),
        forall|i: int| route is Some && 0 <= i < targets_of(edges, source, route, routes).len()
            ==> shown_route(routes, source, #[trigger] targets_of(edges, source, route, routes)[i]) == route,
        forall|j: int| 0 <= j < edges.len() && #[trigger] edge_on_route(edges[j], source, route, routes)
            ==> targets_of(edges, source, route, routes).contains(edges[j].1),
        targets_of(edges, source, route, routes).len() <= edges.len(),
        targets_of(edges, source, route, routes) == edges.filter(|e: (usize, usize)| edge_on_route(e, source, route, routes)).map_values(
            |e: (usize, usize)| e.1,
        ),
    decreases edges.len(),
{
    reveal_with_fuel(Seq::<_>::filter, 1);
    let t = targets_of(edges, source, route, routes);
    if edges.len() > 0 {
        let d = edges.drop_last();
        let p = targets_of(d, source, route, routes);
        law_forwarding_follows_route(d, source, route, routes);
        let e = edges.last();
        assert(e == edges[edges.len() - 1]);
        let pf = |x: (usize, usize)| edge_on_route(x, source, route, routes);
        let snd = |x: (usize, usize)| x.1;
        assert(edges.drop_last() == d);
        if edge_on_route(e, source, route, routes) {
            assert(edges.filter(pf) == d.filter(pf).push(e));
            assert(edges.filter(pf).map_values(snd) =~= d.filter(pf).map_values(snd).push(e.1));
        } else {
            assert(edges.filter(pf) == d.filter(pf));
        }
        assert forall|i: int| 0 <= i < t.len() implies exists|j: int|
            0 <= j < edges.len() && edges[j] == (source, #[trigger] t[i]) && edge_on_route(edges[j], source, route, routes) by {
            if i < p.len() {
                assert(t[i] == p[i]);
                let j = choose|j: int| 0 <= j < d.len() && d[j] == (source, #[trigger] p[i]) && edge_on_route(d[j], source, route, routes);
                assert(edges[j] == d[j]);
            } else {
                assert(t[i] == e.1);
                assert(edges[edges.len() - 1] == (source, t[i]));
            }
        }
        assert forall|i: int| route is Some && 0 <= i < t.len()
            implies shown_route(routes, source, #[trigger] t[i]) == route by {
            let j = choose|j: int| 0 <= j < edges.len() && edges[j] == (source, #[trigger] t[i]) && edge_on_route(edges[j], source, route, routes);
        }
        assert forall|j: int| 0 <= j < edges.len() && #[trigger] edge_on_route(edges[j], source, route, routes)
            implies t.contains(edges[j].1) by {
            if j < d.len() {
                assert(d[j] == edges[j]);
                assert(edge_on_route(d[j], source, route, routes));
                let k = choose|k: int| 0 <= k < p.len() && p[k] == edges[j].1;
                assert(t[k] == p[k]);
            } else {
                assert(t[t.len() - 1] == e.1);
            }
        }
    }
}

/// A `debug edge delete` request names the edge the arguments give: its
/// start is the number written after `--from`, and its end the number
/// written after `--to` (among the arguments that `--from` and its value
/// leave). A missing or unreadable `--from`, and then `--to`, is the
/// error.
pub proof fn law_edge_delete_names_the_given_edge(a: Seq<Seq<char>>)
    ensures
        spec_edge_delete(a) matches Ok((PayloadView::EdgeDelete { from, to }, rest)) ==> {
            let (from_value, after_from) = popped_value(a, "--from"@);
            let (to_value, left) = popped_value(after_from, "--to"@);
            &&& usize_arg(from_value, "--from"@) == Ok::<int, Seq<char>>(from)
            &&& usize_arg(to_value, "--to"@) == Ok::<int, Seq<char>>(to)
            &&& rest == left
        },
        spec_edge_delete(a) matches Ok((p, _)) ==> p is EdgeDelete,
        ({
            let (from_value, after_from) = popped_value(a, "--from"@);
            let (to_value, _) = popped_value(after_from, "--to"@);
            &&& usize_arg(from_value, "--from"@) matches Err(e) ==> spec_edge_delete(a) == Err::<
                (PayloadView, Seq<Seq<char>>),
                Seq<char>,
            >(e)
            &&& usize_arg(from_value, "--from"@) is Ok ==> (usize_arg(to_value, "--to"@) matches Err(e)
                ==> spec_edge_delete(a) == Err::<(PayloadView, Seq<Seq<char>>), Seq<char>>(e))
            &&& usize_arg(from_value, "--from"@) is Ok && usize_arg(to_value, "--to"@) is Ok
                ==> spec_edge_delete(a) is Ok
        }),
{
}

/// `inject.text` in the mode `append` (in any ASCII case) keeps the old text
/// in front and puts the given text after it; in any other mode the text is
/// the given one.
pub proof fn law_injected_text_appends(old_text: Seq<char>, mode: Seq<char>, text: Seq<char>)
    ensures
        ascii_lowercase(mode) == "append"@ ==> {
            let t = injected_text(old_text, mode, text);
            &&& t.len() == old_text.len() + text.len()
            &&& t.subrange(0, old_text.len() as int) == old_text
            &&& t.subrange(old_text.len() as int, t.len() as int) == text
        },
        ascii_lowercase(mode) != "append"@ ==> injected_text(old_text, mode, text) == text,
{
    reveal_strlit("append");
    assert(ascii_lowercase("append"@) =~= "append"@);
    let t = injected_text(old_text, mode, text);
    if ascii_lowercase(mode) == "append"@ {
        assert(t.subrange(0, old_text.len() as int) =~= old_text);
        assert(t.subrange(old_text.len() as int, t.len() as int) =~= text);
    }
}

/// The number that numbering new groups starts from is the largest number
/// of a `Group <n>` title among the nodes: no such title has a larger one,
/// and it is the number of one of them, or 0 where there is none. So the
/// number of a new group's title is larger than that of every group titled
/// so.
pub proof fn law_group_number_is_the_largest(nodes: Seq<NodeView>)
    ensures
        forall|k: int| 0 <= k < nodes.len() ==> (#[trigger] title_index(nodes[k]) matches Some(n) ==> n
            <= max_title_index(nodes)),
        forall|k: int| 0 <= k < nodes.len() ==> (#[trigger] title_index(nodes[k]) matches Some(n) ==> n
            < max_title_index(nodes) + 1),
        max_title_index(nodes) == 0 || exists|k: int| 0 <= k < nodes.len() && #[trigger] title_index(nodes[k])
            == Some(max_title_index(nodes)),
        max_title_index(nodes) >= 0,
        next_title(nodes) == "Group "@ + decimal((max_title_index(nodes) + 1) as nat),
    decreases nodes.len(),
{
    if nodes.len() > 0 {
        let d = nodes.drop_last();
        law_group_number_is_the_largest(d);
        assert(nodes.last() == nodes[nodes.len() - 1]);
        assert forall|k: int| 0 <= k < nodes.len() implies (#[trigger] title_index(nodes[k]) matches Some(n) ==> n
            <= max_title_index(nodes)) by {
            if k < d.len() {
                assert(nodes[k] == d[k]);
                assert(title_index(d[k]) == title_index(nodes[k]));
            }
        }
        if max_title_index(nodes) != 0 {
            if max_title_index(nodes) == max_title_index(d) {
                let k = choose|k: int| 0 <= k < d.len() && #[trigger] title_index(d[k]) == Some(max_title_index(d));
                assert(nodes[k] == d[k]);
                assert(title_index(nodes[k]) == Some(max_title_index(nodes)));
            } else {
                assert(title_index(nodes[nodes.len() - 1]) == Some(max_title_index(nodes)));
            }
        }
    }
}

/// Clearing the last waiting message of a decision node keeps the first
/// messages of its (normalized) queue in order and drops the last; clearing
/// the first keeps all but the first; clearing all leaves none. The first
/// waiting message is then the first of what is kept. An empty queue is
/// left empty and nothing is done; a node that is no decision node is left
/// as it is.
pub proof fn law_clearing_a_queue_keeps_the_rest(d: DataView)
    ensures
        d matches DataView::Decision { pending_message, pending_messages, .. } ==> {
            let q = normalized_queue(pending_message, pending_messages);
            &&& q.len() > 0 ==> {
                &&& queue_op(d, QueueOp::Last).0
                &&& queue_op(d, QueueOp::Last).1 matches DataView::Decision { pending_message: pm, pending_messages: kept, .. }
                    && kept.len() + 1 == q.len()
                    && (forall|i: int| 0 <= i < kept.len() ==> #[trigger] kept[i] == q[i])
                    && pm == (if kept.len() > 0 { Some(kept[0]) } else { None::<Seq<char>> })
                &&& queue_op(d, QueueOp::First).0
                &&& queue_op(d, QueueOp::First).1 matches DataView::Decision { pending_message: pm, pending_messages: kept, .. }
                    && kept.len() + 1 == q.len()
                    && (forall|i: int| 0 <= i < kept.len() ==> #[trigger] kept[i] == q[i + 1])
                    && pm == (if kept.len() > 0 { Some(kept[0]) } else { None::<Seq<char>> })
                &&& queue_op(d, QueueOp::All).0
                &&& queue_op(d, QueueOp::All).1 matches DataView::Decision { pending_message: pm, pending_messages: kept, .. }
                    && kept.len() == 0 && pm is None
            }
            &&& q.len() == 0 ==> !queue_op(d, QueueOp::Last).0 && !queue_op(d, QueueOp::First).0
                && !queue_op(d, QueueOp::All).0
        },
        !(d is Decision) ==> queue_op(d, QueueOp::Last) == (false, d) && queue_op(d, QueueOp::First) == (
            false,
            d,
        ) && queue_op(d, QueueOp::All) == (false, d),
{
}

} // verus!
