use canvas_graph::model::{Coord, NodeData, NodeKind};
use canvas_graph::workspace::Workspace;

fn at(x: f32, y: f32) -> Coord {
    Coord { x_bits: x.to_bits(), y_bits: y.to_bits() }
}

fn ids(ws: &Workspace) -> Vec<usize> {
    ws.graph.nodes.iter().map(|n| n.id).collect()
}

#[test]
fn copy_needs_a_selection() {
    let mut ws = Workspace::new();
    assert!(!ws.copy_selected_nodes_to_internal_clipboard());
    assert!(ws.node_clipboard.is_none());
}

#[test]
fn copy_then_paste_duplicates_nodes_and_inner_edges() {
    let mut ws = Workspace::new();
    let a = ws.create_terminal_node(at(0.0, 0.0));
    let b = ws.create_decision_node(at(10.0, 0.0));
    let c = ws.create_terminal_node(at(20.0, 0.0));
    ws.graph.edges.push((a, b));
    ws.graph.edges.push((b, c));
    ws.graph.set_edge_route_key(a, b, "approve");
    ws.selection.set_single_selection(a);
    ws.selection.toggle_selection(b);
    assert!(ws.copy_selected_nodes_to_internal_clipboard());
    let clip = ws.node_clipboard.as_ref().unwrap();
    assert_eq!(clip.nodes.iter().map(|n| n.id).collect::<Vec<_>>(), vec![a, b]);
    assert_eq!(clip.edges.len(), 1);
    assert_eq!(clip.edges[0].route_key.as_deref(), Some("approve"));

    let undo_before = ws.history.undo_stack.len();
    assert!(ws.paste_nodes_from_internal_clipboard(&vec![at(100.0, 100.0), at(110.0, 100.0)]));
    assert_eq!(ids(&ws), vec![a, b, c, 4, 5]);
    assert_eq!(ws.graph.nodes[3].kind, NodeKind::Terminal);
    assert_eq!(ws.graph.nodes[4].kind, NodeKind::Decision);
    assert_eq!(ws.graph.nodes[3].pos, at(100.0, 100.0));
    assert_ne!(ws.graph.nodes[3].uid, ws.graph.nodes[0].uid);
    assert!(ws.graph.edges.contains(&(4, 5)));
    assert_eq!(ws.graph.edge_route_key(4, 5).as_deref(), Some("approve"));
    assert_eq!(ws.selection.selected_nodes, vec![4, 5]);
    assert_eq!(ws.selection.selected, Some(5));
    assert_eq!(ws.history.undo_stack.len(), undo_before + 1);

    ws.undo_last_change();
    assert_eq!(ids(&ws), vec![a, b, c]);
}

#[test]
fn paste_without_clipboard_does_nothing() {
    let mut ws = Workspace::new();
    assert!(!ws.paste_nodes_from_internal_clipboard(&Vec::new()));
    assert!(ws.graph.nodes.is_empty());
}

#[test]
fn copy_shortcut_tells_the_user() {
    let mut ws = Workspace::new();
    let a = ws.create_terminal_node(at(0.0, 0.0));
    ws.selection.clear_selection();
    assert!(!ws.copy_selection_with_notice());
    assert!(ws.toast_notifications.is_empty());
    ws.selection.set_single_selection(a);
    assert!(ws.copy_selection_with_notice());
    assert_eq!(ws.toast_notifications.len(), 1);
    assert_eq!(ws.toast_notifications.last().unwrap().message, "已复制节点");
}

#[test]
fn group_shortcut_reports_failure() {
    let mut ws = Workspace::new();
    ws.create_terminal_node(at(0.0, 0.0));
    assert_eq!(ws.group_selection_with_notice(at(0.0, 0.0), at(1.0, 1.0)), None);
    assert_eq!(
        ws.toast_notifications.last().unwrap().message,
        "创建分组失败：请选中至少 2 个节点，且不能与现有组成员完全一致"
    );
}

#[test]
fn shortcuts_blocked_while_editing() {
    let mut ws = Workspace::new();
    assert!(ws.node_clipboard_shortcut_allowed(false));
    assert!(!ws.node_clipboard_shortcut_allowed(true));
    ws.edit.editing_edge = Some((1, 2));
    assert!(!ws.node_clipboard_shortcut_allowed(false));
}

#[test]
fn cut_gesture_removes_hit_edges_and_nodes() {
    let mut ws = Workspace::new();
    let a = ws.create_terminal_node(at(0.0, 0.0));
    let b = ws.create_terminal_node(at(0.0, 0.0));
    let c = ws.create_terminal_node(at(0.0, 0.0));
    ws.graph.edges = vec![(a, b), (b, c), (a, c)];
    ws.set_edge_selection((b, c));
    ws.cut_edges(&vec![false, true, false]);
    assert_eq!(ws.graph.edges, vec![(a, b), (a, c)]);
    assert_eq!(ws.selection.selected_edge, None);
    ws.cut_nodes(&vec![b]);
    assert_eq!(ids(&ws), vec![a, c]);
    assert_eq!(ws.graph.edges, vec![(a, c)]);
}

#[test]
fn menus_dispatch_by_action_id() {
    let mut ws = Workspace::new();
    ws.run_create_action(0, at(0.0, 0.0));
    ws.run_create_action(1, at(0.0, 0.0));
    ws.run_create_action(2, at(0.0, 0.0));
    ws.run_create_action(9, at(0.0, 0.0));
    assert_eq!(
        ws.graph.nodes.iter().map(|n| n.kind).collect::<Vec<_>>(),
        vec![NodeKind::Terminal, NodeKind::Text, NodeKind::Decision]
    );
    assert_eq!(ws.edit.editing_text_node, Some(2));
    ws.run_edit_menu_action(0);
    assert_eq!(ids(&ws), vec![1, 2]);
    ws.run_edit_menu_action(1);
    assert_eq!(ids(&ws), vec![1, 2, 3]);
    ws.run_edit_menu_action(5);
    assert_eq!(ids(&ws), vec![1, 2, 3]);
}

#[test]
fn dropping_a_child_removes_groups_left_empty() {
    let mut ws = Workspace::new();
    let a = ws.create_terminal_node(at(0.0, 0.0));
    let b = ws.create_terminal_node(at(0.0, 0.0));
    ws.selection.set_single_selection(a);
    ws.selection.toggle_selection(b);
    let g = ws.create_group_from_selection(at(0.0, 0.0), at(10.0, 10.0)).unwrap();
    ws.remove_child_from_groups(a);
    let group = ws.graph.nodes.iter().find(|n| n.id == g).unwrap();
    match &group.data {
        NodeData::Group { child_node_ids, .. } => assert_eq!(child_node_ids, &vec![b]),
        _ => panic!("not a group"),
    }
    ws.remove_child_from_groups(b);
    assert!(ws.graph.nodes.iter().all(|n| n.id != g));
    assert_eq!(ids(&ws), vec![a, b]);
}
