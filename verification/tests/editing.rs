use canvas_graph::text_menu::{copy_char_range, cut_char_range, paste_into_char_range};
use canvas_graph::buttons::{parse_rgb_color_text, rgb_color_text};
use canvas_graph::model::{Coord, DecisionButton, NodeData};
use canvas_graph::workspace::{DecisionButtonDraft, Workspace};

fn at(x: f32, y: f32) -> Coord {
    Coord { x_bits: x.to_bits(), y_bits: y.to_bits() }
}

fn data_of(ws: &Workspace, id: usize) -> &NodeData {
    &ws.graph.nodes.iter().find(|n| n.id == id).unwrap().data
}

#[test]
fn title_edit_commits_trimmed_title() {
    let mut ws = Workspace::new();
    let id = ws.create_terminal_node(at(0.0, 0.0));
    ws.mark_workspace_clean();
    ws.start_title_edit(id);
    assert_eq!(ws.edit.editing_title_node, Some(id));
    assert_eq!(ws.edit.title_edit_buffer, "Terminal");
    ws.edit.title_edit_buffer = "  构建  ".to_owned();
    ws.commit_title_edit(id);
    match data_of(&ws, id) {
        NodeData::Terminal { title, .. } => assert_eq!(title, "构建"),
        _ => panic!("not a terminal"),
    }
    assert!(ws.workspace_dirty);
    assert_eq!(ws.edit.editing_title_node, None);
    assert_eq!(ws.edit.suspend_terminal_focus, Some(id));
}

#[test]
fn blank_title_is_not_written() {
    let mut ws = Workspace::new();
    let id = ws.create_decision_node(at(0.0, 0.0));
    ws.mark_workspace_clean();
    ws.start_title_edit(id);
    ws.edit.title_edit_buffer = "   ".to_owned();
    ws.commit_title_edit(id);
    match data_of(&ws, id) {
        NodeData::Decision { title, .. } => assert_eq!(title, "Decision"),
        _ => panic!("not a decision"),
    }
    assert!(!ws.workspace_dirty);
}

#[test]
fn title_editor_does_not_open_on_text_nodes() {
    let mut ws = Workspace::new();
    let id = ws.create_text_node(at(0.0, 0.0), false);
    ws.start_title_edit(id);
    assert_eq!(ws.edit.editing_title_node, None);
}

#[test]
fn startup_edit_restarts_terminal_on_change() {
    let mut ws = Workspace::new();
    let id = ws.create_terminal_node(at(0.0, 0.0));
    ws.start_startup_edit(id);
    ws.edit.startup_edit_buffer = " npm test ".to_owned();
    assert!(ws.commit_startup_edit(id));
    match data_of(&ws, id) {
        NodeData::Terminal { startup_script, .. } => assert_eq!(startup_script, "npm test"),
        _ => panic!("not a terminal"),
    }
    assert_eq!(ws.terminals.pending_starts, vec![id]);
    ws.start_startup_edit(id);
    assert!(!ws.commit_startup_edit(id));
}

#[test]
fn working_directory_blank_means_none() {
    let mut ws = Workspace::new();
    let id = ws.create_terminal_node(at(0.0, 0.0));
    ws.start_working_directory_edit(id);
    assert_eq!(ws.edit.working_directory_edit_buffer, "");
    ws.edit.working_directory_edit_buffer = " /tmp/work ".to_owned();
    assert!(ws.commit_working_directory_edit(id));
    match data_of(&ws, id) {
        NodeData::Terminal { working_directory, .. } => {
            assert_eq!(working_directory.as_deref(), Some("/tmp/work"))
        }
        _ => panic!("not a terminal"),
    }
    ws.start_working_directory_edit(id);
    ws.edit.working_directory_edit_buffer = "   ".to_owned();
    assert!(ws.commit_working_directory_edit(id));
    match data_of(&ws, id) {
        NodeData::Terminal { working_directory, .. } => assert_eq!(*working_directory, None),
        _ => panic!("not a terminal"),
    }
}

#[test]
fn decision_queue_edit_round_trips() {
    let mut ws = Workspace::new();
    let id = ws.create_decision_node(at(0.0, 0.0));
    ws.start_decision_queue_edit(id);
    assert_eq!(ws.edit.decision_queue_edit_buffer, "");
    ws.edit.decision_queue_edit_buffer = "a\n\n-----\n\n  b  \n\n-----\n\n  ".to_owned();
    ws.commit_decision_queue_edit(id);
    match data_of(&ws, id) {
        NodeData::Decision { pending_message, pending_messages, .. } => {
            assert_eq!(pending_messages, &vec!["a".to_owned(), "b".to_owned()]);
            assert_eq!(pending_message.as_deref(), Some("a"));
        }
        _ => panic!("not a decision"),
    }
    ws.start_decision_queue_edit(id);
    assert_eq!(ws.edit.decision_queue_edit_buffer, "a\n\n-----\n\nb");
}

#[test]
fn edge_edit_sets_and_clears_route_key() {
    let mut ws = Workspace::new();
    let a = ws.create_terminal_node(at(0.0, 0.0));
    let b = ws.create_terminal_node(at(0.0, 0.0));
    ws.graph.edges.push((a, b));
    ws.start_edge_edit((a, b));
    assert_eq!(ws.edit.editing_edge, Some((a, b)));
    assert_eq!(ws.selection.selected_edge, Some((a, b)));
    ws.edit.edge_edit_buffer = " fix ".to_owned();
    ws.commit_edge_edit();
    assert_eq!(ws.graph.edge_route_key(a, b).as_deref(), Some("fix"));
    ws.start_edge_edit((a, b));
    assert_eq!(ws.edit.edge_edit_buffer, "fix");
    ws.edit.edge_edit_buffer = "".to_owned();
    ws.commit_edge_edit();
    assert_eq!(ws.graph.edge_route_key(a, b), None);
    assert_eq!(ws.edit.editing_edge, None);
}

#[test]
fn edge_editor_does_not_open_on_missing_edge() {
    let mut ws = Workspace::new();
    ws.start_edge_edit((1, 2));
    assert_eq!(ws.edit.editing_edge, None);
}

#[test]
fn decision_buttons_editor_checks_rows() {
    let mut ws = Workspace::new();
    let id = ws.create_decision_node(at(0.0, 0.0));
    ws.start_decision_buttons_edit(id);
    assert_eq!(ws.edit.decision_buttons_edit_rows.len(), 2);
    assert_eq!(ws.edit.decision_buttons_edit_rows[1].event_key, "reject");
    ws.add_decision_button_row();
    assert_eq!(ws.edit.decision_buttons_edit_rows[2].label, "新按钮");
    assert_eq!(ws.edit.decision_buttons_edit_rows[2].event_key, "event_3");
    assert_eq!(ws.edit.decision_buttons_edit_rows[2].color_rgb, [224, 232, 242]);

    ws.edit.decision_buttons_edit_rows[2].event_key = " approve ".to_owned();
    assert!(!ws.commit_decision_buttons_edit());
    assert_eq!(
        ws.edit.decision_buttons_edit_error.as_deref(),
        Some("第 3 行事件名重复: approve")
    );
    ws.edit.decision_buttons_edit_rows[2].label = " ".to_owned();
    assert!(!ws.commit_decision_buttons_edit());
    assert_eq!(ws.edit.decision_buttons_edit_error.as_deref(), Some("第 3 行显示名称不能为空"));
    ws.edit.decision_buttons_edit_rows[2].label = "稍后".to_owned();
    ws.edit.decision_buttons_edit_rows[2].event_key = "".to_owned();
    assert!(!ws.commit_decision_buttons_edit());
    assert_eq!(ws.edit.decision_buttons_edit_error.as_deref(), Some("第 3 行事件名不能为空"));

    ws.edit.decision_buttons_edit_rows[2].event_key = " later ".to_owned();
    assert!(ws.commit_decision_buttons_edit());
    match data_of(&ws, id) {
        NodeData::Decision { buttons, .. } => {
            assert_eq!(buttons.len(), 3);
            assert_eq!(buttons[2].label, "稍后");
            assert_eq!(buttons[2].event_key, "later");
            assert_eq!(buttons[2].color_rgb, Some([224, 232, 242]));
        }
        _ => panic!("not a decision"),
    }
    assert_eq!(ws.edit.editing_decision_buttons_node, None);
}

#[test]
fn decision_without_buttons_opens_with_approving_row() {
    let mut ws = Workspace::new();
    let id = ws.create_decision_node(at(0.0, 0.0));
    let idx = ws.graph.nodes.iter().position(|n| n.id == id).unwrap();
    if let NodeData::Decision { buttons, .. } = &mut ws.graph.nodes[idx].data {
        buttons.clear();
        buttons.push(DecisionButton { label: "x".to_owned(), event_key: "y".to_owned(), color_rgb: None });
    }
    ws.start_decision_buttons_edit(id);
    assert_eq!(ws.edit.decision_buttons_edit_rows[0].color_rgb, [224, 232, 242]);
    if let NodeData::Decision { buttons, .. } = &mut ws.graph.nodes[idx].data {
        buttons.clear();
    }
    ws.start_decision_buttons_edit(id);
    let row: &DecisionButtonDraft = &ws.edit.decision_buttons_edit_rows[0];
    assert_eq!((row.label.as_str(), row.event_key.as_str(), row.color_rgb), ("通过", "approve", [212, 244, 226]));
}

#[test]
fn removing_a_row_moves_the_colour_picker() {
    let mut ws = Workspace::new();
    let id = ws.create_decision_node(at(0.0, 0.0));
    ws.start_decision_buttons_edit(id);
    ws.add_decision_button_row();
    ws.edit.decision_color_popup = Some((id, 2));
    ws.remove_decision_button_row(0);
    assert_eq!(ws.edit.decision_buttons_edit_rows.len(), 2);
    assert_eq!(ws.edit.decision_color_popup, Some((id, 1)));
    ws.remove_decision_button_row(1);
    assert_eq!(ws.edit.decision_color_popup, None);
    ws.remove_decision_button_row(7);
    assert_eq!(ws.edit.decision_buttons_edit_rows.len(), 1);
}

#[test]
fn rgb_text_round_trips() {
    assert_eq!(rgb_color_text([212, 244, 6]), "212,244,6");
    assert_eq!(parse_rgb_color_text(" 1, 2 ,3"), Some([1, 2, 3]));
    assert_eq!(parse_rgb_color_text("1,2"), None);
    assert_eq!(parse_rgb_color_text("1,2,256"), None);
    assert_eq!(parse_rgb_color_text("1,2,x"), None);
}

#[test]
fn closing_editors_keeps_script_editor() {
    let mut ws = Workspace::new();
    let a = ws.create_terminal_node(at(0.0, 0.0));
    ws.edit.editing_script_node = Some(99);
    ws.start_title_edit(a);
    assert_eq!(ws.edit.editing_script_node, Some(99));
    ws.cancel_title_edit();
    assert_eq!(ws.edit.editing_title_node, None);
    assert_eq!(ws.edit.suspend_terminal_focus, Some(a));
}

#[test]
fn queue_text_round_trip_and_its_exception() {
    let mut ws = Workspace::new();
    let id = ws.create_decision_node(at(0.0, 0.0));
    assert!(ws.enqueue_decision_message(id, "first"));
    assert!(ws.enqueue_decision_message(id, "second\nline"));
    ws.start_decision_queue_edit(id);
    ws.mark_workspace_clean();
    ws.commit_decision_queue_edit(id);
    assert!(!ws.workspace_dirty);

    assert!(ws.clear_decision_pending_all(id));
    assert!(ws.enqueue_decision_message(id, "x\n\n-----"));
    assert!(ws.enqueue_decision_message(id, "y"));
    ws.start_decision_queue_edit(id);
    ws.commit_decision_queue_edit(id);
    match data_of(&ws, id) {
        NodeData::Decision { pending_messages, .. } => {
            assert_eq!(pending_messages, &vec!["x".to_owned(), "-----\n\ny".to_owned()]);
        }
        _ => panic!("not a decision"),
    }
}

#[test]
fn text_menu_copy_cut_and_paste_act_on_characters() {
    assert_eq!(copy_char_range("画布abc", 1, 3).as_deref(), Some("布a"));
    assert_eq!(copy_char_range("画布abc", 3, 3), None);
    assert_eq!(copy_char_range("画布abc", 4, 99).as_deref(), Some("c"));

    let mut text = "画布abc".to_owned();
    assert_eq!(cut_char_range(&mut text, 1, 3).as_deref(), Some("布a"));
    assert_eq!(text, "画bc");
    assert_eq!(cut_char_range(&mut text, 2, 1), None);
    assert_eq!(text, "画bc");

    let mut text = "hello".to_owned();
    assert!(paste_into_char_range(&mut text, Some((1, 4)), "EY"));
    assert_eq!(text, "hEYo");
    assert!(paste_into_char_range(&mut text, None, "!"));
    assert_eq!(text, "hEYo!");
    assert!(paste_into_char_range(&mut text, Some((50, 60)), "?"));
    assert_eq!(text, "hEYo!?");
    assert!(!paste_into_char_range(&mut text, Some((3, 1)), "x"));
    assert_eq!(text, "hEYo!?");
}
