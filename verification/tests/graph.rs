use canvas_graph::model::{Coord, Node, NodeData, NodeKind};
use canvas_graph::naming::{default_workspace_name, resolve_workspace_name};
use canvas_graph::ordering::NodeOrderAction;
use canvas_graph::persistence::{
    at_least_one, default_graph_config_version, GraphConfig, GRAPH_CONFIG_VERSION,
};
use canvas_graph::workspace::{ScriptState, Workspace};

fn at(x: f32, y: f32) -> Coord {
    Coord { x_bits: x.to_bits(), y_bits: y.to_bits() }
}

fn ids(ws: &Workspace) -> Vec<usize> {
    ws.graph.nodes.iter().map(|n| n.id).collect()
}

#[test]
fn created_nodes_get_increasing_ids_and_selection() {
    let mut ws = Workspace::new();
    let a = ws.create_terminal_node(at(0.0, 0.0));
    let b = ws.create_decision_node(at(10.0, 0.0));
    let c = ws.create_text_node(at(20.0, 0.0), true);
    assert_eq!((a, b, c), (1, 2, 3));
    assert_eq!(ws.graph.next_node_id, 4);
    assert_eq!(ws.selection.selected, Some(3));
    assert_eq!(ws.selection.selected_nodes, vec![3]);
    assert_eq!(ws.edit.editing_text_node, Some(3));
    assert_eq!(ws.graph.nodes[0].kind, NodeKind::Terminal);
    assert_eq!(ws.graph.nodes[0].uid.len(), 36);
    assert!(ws.workspace_dirty);
    assert_eq!(ws.history.undo_stack.len(), 3);
}

#[test]
fn undo_then_redo_restores_created_node() {
    let mut ws = Workspace::new();
    ws.create_terminal_node(at(0.0, 0.0));
    ws.create_decision_node(at(5.0, 5.0));
    ws.undo_last_change();
    assert_eq!(ids(&ws), vec![1]);
    assert_eq!(ws.history.redo_stack.len(), 1);
    ws.redo_last_change();
    assert_eq!(ids(&ws), vec![1, 2]);
    assert_eq!(ws.history.redo_stack.len(), 0);
}

#[test]
fn move_history_undo_restores_position() {
    let mut ws = Workspace::new();
    let id = ws.create_terminal_node(at(1.0, 2.0));
    ws.graph.set_node_pos(id, at(50.0, 60.0));
    ws.record_move_history(id, at(1.0, 2.0), at(50.0, 60.0));
    ws.undo_last_change();
    assert_eq!(ws.graph.nodes[0].pos, at(1.0, 2.0));
    ws.redo_last_change();
    assert_eq!(ws.graph.nodes[0].pos, at(50.0, 60.0));
}

#[test]
fn removing_a_node_drops_its_edges_and_selection() {
    let mut ws = Workspace::new();
    let a = ws.create_terminal_node(at(0.0, 0.0));
    let b = ws.create_terminal_node(at(100.0, 0.0));
    ws.graph.edges.push((a, b));
    ws.graph.set_edge_route_key(a, b, "fix");
    assert_eq!(ws.graph.edge_route_key(a, b).as_deref(), Some("fix"));
    ws.remove_node(b);
    assert_eq!(ids(&ws), vec![a]);
    assert!(ws.graph.edges.is_empty());
    assert_eq!(ws.graph.edge_route_key(a, b), None);
    assert_ne!(ws.selection.selected, Some(b));
}

#[test]
fn reorder_bring_to_front_and_undo() {
    let mut ws = Workspace::new();
    ws.create_terminal_node(at(0.0, 0.0));
    ws.create_terminal_node(at(0.0, 0.0));
    ws.create_terminal_node(at(0.0, 0.0));
    ws.selection.set_single_selection(1);
    ws.reorder_selection(NodeOrderAction::BringToFront);
    assert_eq!(ids(&ws), vec![2, 3, 1]);
    ws.undo_last_change();
    assert_eq!(ids(&ws), vec![1, 2, 3]);
}

#[test]
fn reorder_steps_one_place() {
    let mut ws = Workspace::new();
    for _ in 0..4 {
        ws.create_terminal_node(at(0.0, 0.0));
    }
    ws.selection.set_single_selection(2);
    ws.reorder_selection(NodeOrderAction::BringForwardOne);
    assert_eq!(ids(&ws), vec![1, 3, 2, 4]);
    ws.reorder_selection(NodeOrderAction::SendToBack);
    assert_eq!(ids(&ws), vec![2, 1, 3, 4]);
    ws.reorder_selection(NodeOrderAction::SendBackwardOne);
    assert_eq!(ids(&ws), vec![2, 1, 3, 4]);
}

#[test]
fn group_is_created_from_selection_with_numbered_title() {
    let mut ws = Workspace::new();
    let a = ws.create_terminal_node(at(0.0, 0.0));
    let b = ws.create_text_node(at(50.0, 0.0), false);
    ws.selection.set_single_selection(a);
    ws.selection.toggle_selection(b);
    let g = ws.create_group_from_selection(at(-10.0, -10.0), at(200.0, 120.0)).unwrap();
    let group = ws.graph.nodes.iter().find(|n| n.id == g).unwrap();
    match &group.data {
        NodeData::Group { title, child_node_ids } => {
            assert_eq!(title, "Group 1");
            assert_eq!(child_node_ids, &vec![a, b]);
        }
        _ => panic!("not a group"),
    }
    assert_eq!(ws.graph.next_group_title(), "Group 2");
}

#[test]
fn grouping_the_members_of_an_existing_group_again_is_refused() {
    let mut ws = Workspace::new();
    let a = ws.create_terminal_node(at(0.0, 0.0));
    let b = ws.create_text_node(at(50.0, 0.0), false);
    ws.selection.set_single_selection(b);
    ws.selection.toggle_selection(a);
    ws.create_group_from_selection(at(-10.0, -10.0), at(200.0, 120.0)).unwrap();
    let before = ids(&ws);
    let undo_len = ws.history.undo_stack.len();
    ws.selection.set_single_selection(a);
    ws.selection.toggle_selection(b);
    assert_eq!(ws.create_group_from_selection(at(0.0, 0.0), at(10.0, 10.0)), None);
    assert_eq!(ids(&ws), before);
    assert_eq!(ws.history.undo_stack.len(), undo_len);
    let c = ws.create_text_node(at(90.0, 0.0), false);
    ws.selection.set_single_selection(a);
    ws.selection.toggle_selection(b);
    ws.selection.toggle_selection(c);
    assert!(ws.create_group_from_selection(at(0.0, 0.0), at(10.0, 10.0)).is_some());
}

#[test]
fn saved_config_loads_back_the_same_graph() {
    let mut ws = Workspace::new();
    let a = ws.create_terminal_node(at(0.0, 0.0));
    let b = ws.create_decision_node(at(300.0, 0.0));
    ws.graph.edges.push((a, b));
    ws.graph.set_edge_route_key(a, b, "  fix ");
    ws.set_workspace_name("工作区C");
    let config = ws.graph_config();
    assert_eq!(config.version, GRAPH_CONFIG_VERSION);
    assert_eq!(config.workspace_name.as_deref(), Some("工作区C"));
    assert_eq!(config.edge_routes.len(), 1);
    assert_eq!(config.edge_routes[0].route_key, "fix");

    let mut loaded = Workspace::new();
    loaded.apply_graph_config(config, None);
    assert_eq!(ids(&loaded), vec![a, b]);
    assert_eq!(loaded.graph.edges, vec![(a, b)]);
    assert_eq!(loaded.graph.edge_route_key(a, b).as_deref(), Some("fix"));
    assert_eq!(loaded.workspace_name, "工作区C");
    assert_eq!(loaded.graph.next_node_id, 3);
    assert!(loaded.history.undo_stack.is_empty());
}

#[test]
fn default_config_version_is_current() {
    assert_eq!(default_graph_config_version(), 10);
}

#[test]
fn every_reorder_is_taken_back_by_undo() {
    for mode in [
        NodeOrderAction::BringToFront,
        NodeOrderAction::SendToBack,
        NodeOrderAction::BringForwardOne,
        NodeOrderAction::SendBackwardOne,
    ] {
        let mut ws = Workspace::new();
        for _ in 0..5 {
            ws.create_terminal_node(at(0.0, 0.0));
        }
        ws.selection.set_single_selection(2);
        ws.selection.toggle_selection(4);
        let before = ids(&ws);
        ws.reorder_selection(mode);
        ws.undo_last_change();
        assert_eq!(ids(&ws), before);
    }
}

fn sample_node(id: usize) -> Node {
    Node {
        id,
        uid: format!("u-{id}"),
        kind: NodeKind::Text,
        data: NodeData::Text { text_body: String::new(), auto_size: false },
        pos: at(0.0, 0.0),
        size: at(120.0, 80.0),
    }
}

fn config_of(nodes: Vec<Node>, edges: Vec<(usize, usize)>, workspace_name: Option<&str>) -> GraphConfig {
    GraphConfig {
        version: GRAPH_CONFIG_VERSION,
        nodes,
        edges,
        edge_routes: vec![],
        workspace_name: workspace_name.map(|n| n.to_owned()),
        script_states: vec![],
    }
}

#[test]
fn workspace_name_roundtrip_is_preserved() {
    let config = config_of(vec![sample_node(1)], vec![], Some("工作区C"));
    let mut ws = Workspace::new();
    ws.apply_graph_config(config, None);
    let parsed = ws.graph_config();
    assert_eq!(parsed.workspace_name.as_deref(), Some("工作区C"));
}

#[test]
fn workspace_name_saved_name_is_trimmed_on_replay() {
    let parsed = config_of(vec![sample_node(1)], vec![], Some("  画布命名A  "));
    assert_eq!(resolve_workspace_name(parsed.workspace_name.as_deref(), None), "画布命名A");
    let mut ws = Workspace::new();
    ws.apply_graph_config(parsed, None);
    assert_eq!(ws.workspace_name, "画布命名A");
}

#[test]
fn workspace_name_malformed_blank_field_falls_back_to_default() {
    let parsed = config_of(vec![sample_node(1)], vec![], Some("   "));
    assert_eq!(
        resolve_workspace_name(parsed.workspace_name.as_deref(), None),
        default_workspace_name()
    );
}

#[test]
fn workspace_name_legacy_config_without_field_is_supported() {
    let mut second = sample_node(2);
    second.pos = at(200.0, 100.0);
    let parsed = config_of(vec![sample_node(1), second], vec![(1, 2)], None);
    assert!(parsed.script_states.is_empty());
    assert_eq!(parsed.workspace_name, None);
    assert_eq!(
        resolve_workspace_name(parsed.workspace_name.as_deref(), Some("/tmp/legacy.graph.json")),
        "legacy.graph"
    );
    let mut ws = Workspace::new();
    ws.apply_graph_config(parsed, Some("/tmp/legacy.graph.json"));
    assert_eq!(ws.workspace_name, "legacy.graph");
    assert_eq!(ws.graph.edges, vec![(1, 2)]);
}

#[test]
fn loading_makes_each_side_of_a_node_at_least_one() {
    let mut small = sample_node(1);
    small.size = at(0.25, 300.0);
    let mut odd = sample_node(2);
    odd.size = at(-5.0, f32::NAN);
    let mut wide = sample_node(3);
    wide.size = at(f32::INFINITY, 1.0);
    let mut ws = Workspace::new();
    ws.apply_graph_config(config_of(vec![small, odd, wide], vec![], None), None);
    let sizes: Vec<(f32, f32)> = ws
        .graph
        .nodes
        .iter()
        .map(|n| (f32::from_bits(n.size.x_bits), f32::from_bits(n.size.y_bits)))
        .collect();
    assert_eq!(sizes, vec![(1.0, 300.0), (1.0, 1.0), (f32::INFINITY, 1.0)]);
    for x in [0.5f32, 1.0, 2.5, -0.0, f32::NAN, f32::NEG_INFINITY, f32::INFINITY, 1e30] {
        assert_eq!(at_least_one(x.to_bits()), x.max(1.0).to_bits());
    }
}

#[test]
fn script_states_of_loaded_nodes_survive_save_and_load() {
    let mut config = config_of(vec![sample_node(1), sample_node(2)], vec![], None);
    config.script_states = vec![
        ScriptState { node_id: 2, state: vec![("count".to_owned(), "3".to_owned())] },
        ScriptState { node_id: 9, state: vec![("gone".to_owned(), "x".to_owned())] },
    ];
    let mut ws = Workspace::new();
    ws.apply_graph_config(config, None);
    assert_eq!(ws.script_node_state.len(), 1);
    assert_eq!(ws.script_node_state[0].node_id, 2);
    let saved = ws.graph_config();
    assert_eq!(saved.script_states.len(), 1);
    assert_eq!(saved.script_states[0].node_id, 2);
    assert_eq!(saved.script_states[0].state, vec![("count".to_owned(), "3".to_owned())]);
}

#[test]
fn a_link_released_on_another_node_adds_one_edge() {
    let mut ws = Workspace::new();
    let a = ws.create_terminal_node(at(0.0, 0.0));
    let b = ws.create_text_node(at(50.0, 0.0), false);
    ws.mark_workspace_clean();
    ws.start_link(a);
    assert_eq!(ws.ui.linking_from, Some(a));
    assert_eq!(ws.selection.selected_nodes, vec![a]);
    let v = ws.automation_state_version;
    assert!(ws.finish_link(Some(b)));
    assert_eq!(ws.graph.edges, vec![(a, b)]);
    assert!(ws.workspace_dirty);
    assert_eq!(ws.automation_state_version, v + 1);
    assert_eq!(ws.ui.linking_from, None);
    ws.start_link(a);
    assert!(ws.finish_link(Some(b)));
    assert_eq!(ws.graph.edges, vec![(a, b)]);
    assert_eq!(ws.automation_state_version, v + 1);
    ws.start_link(a);
    assert!(!ws.finish_link(Some(a)));
    ws.start_link(b);
    assert!(!ws.finish_link(None));
    assert_eq!(ws.graph.edges, vec![(a, b)]);
    assert!(!ws.finish_link(Some(a)));
    assert_eq!(ws.graph.edges, vec![(a, b)]);
}

#[test]
fn a_notice_fades_in_stays_and_fades_out_on_the_monotonic_clock() {
    let mut ws = Workspace::new();
    ws.push_toast_notification("已复制节点".to_owned());
    let t = ws.toast_notifications.last().unwrap();
    assert_eq!((t.visible_for_ms, t.fade_in_ms, t.fade_out_ms), (2200, 180, 260));
    assert_eq!(t.message, "已复制节点");
    let created = t.created_at_ms;
    assert!(created <= ws.monotonic_now_ms());
    ws.prune_expired_toasts(created + 2639);
    assert_eq!(ws.toast_notifications.len(), 1);
    ws.prune_expired_toasts(created + 2640);
    assert!(ws.toast_notifications.is_empty());
}
