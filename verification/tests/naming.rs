use canvas_graph::naming::{
    default_workspace_name, derive_workspace_name_from_path, format_workspace_window_title,
    normalize_workspace_name, resolve_workspace_name, workspace_name_submit_result,
    MAX_WORKSPACE_NAME_CHARS,
};
use canvas_graph::workspace::Workspace;

#[test]
fn workspace_name_defaults_when_blank() {
    assert_eq!(normalize_workspace_name(""), "未命名画布");
    assert_eq!(normalize_workspace_name("   \t\n"), "未命名画布");
}

#[test]
fn workspace_name_is_trimmed_and_capped() {
    let raw = format!("  {}  ", "x".repeat(160));
    let normalized = normalize_workspace_name(&raw);
    assert_eq!(normalized.chars().count(), 80);
    assert_eq!(normalized, "x".repeat(80));
}

#[test]
fn workspace_name_falls_back_to_path_stem_for_legacy_configs() {
    assert_eq!(resolve_workspace_name(None, Some("/tmp/test.json")), "test");
}

#[test]
fn workspace_title_uses_workspace_name_and_dirty_prefix() {
    assert_eq!(format_workspace_window_title("画布A", false), "画布A - CanvasTerminal");
    assert_eq!(format_workspace_window_title("画布A", true), "* 画布A - CanvasTerminal");
}

#[test]
fn window_bar_rename_blank_submit_falls_back_to_default() {
    let (next, changed) = workspace_name_submit_result("画布A", "   ");
    assert_eq!(next, default_workspace_name());
    assert!(changed);
}

#[test]
fn window_bar_rename_same_name_keeps_clean_state_signal() {
    let (next, changed) = workspace_name_submit_result("画布A", "  画布A  ");
    assert_eq!(next, "画布A");
    assert!(!changed);
}

#[test]
fn workspace_name_cap_counts_characters_not_bytes() {
    let raw = "画".repeat(100);
    let normalized = normalize_workspace_name(&raw);
    assert_eq!(normalized.chars().count(), MAX_WORKSPACE_NAME_CHARS);
    assert_eq!(normalized, "画".repeat(80));
}

#[test]
fn workspace_name_normalizing_twice_can_differ() {
    let raw = format!("a{}b", " ".repeat(100));
    let once = normalize_workspace_name(&raw);
    assert_eq!(once, format!("a{}", " ".repeat(79)));
    assert_eq!(normalize_workspace_name(&once), "a");
}

#[test]
fn derived_name_prefers_stem_then_file_name_then_default() {
    assert_eq!(derive_workspace_name_from_path(Some("/tmp/legacy.graph.json")), "legacy.graph");
    assert_eq!(derive_workspace_name_from_path(Some("/tmp/.hidden")), ".hidden");
    assert_eq!(derive_workspace_name_from_path(None), "未命名画布");
    assert_eq!(derive_workspace_name_from_path(Some("/")), "未命名画布");
}

#[test]
fn stored_name_wins_over_path() {
    assert_eq!(resolve_workspace_name(Some("  画布命名A  "), Some("/tmp/x.json")), "画布命名A");
    assert_eq!(resolve_workspace_name(Some("   "), None), default_workspace_name());
}

#[test]
fn renaming_a_workspace_marks_it_dirty_only_on_change() {
    let mut ws = Workspace::new();
    ws.start_workspace_name_edit();
    assert!(ws.editing_workspace_name);
    ws.workspace_name_edit_buffer = "  新名字 ".to_owned();
    ws.commit_workspace_name_edit();
    assert_eq!(ws.workspace_name, "新名字");
    assert!(ws.workspace_dirty);
    assert!(!ws.editing_workspace_name);
    assert_eq!(ws.workspace_window_title(), "* 新名字 - CanvasTerminal");
}

#[test]
fn committing_a_name_bumps_the_version_only_on_change() {
    let mut ws = Workspace::new();
    let v0 = ws.automation_state_version;
    ws.start_workspace_name_edit();
    assert!(ws.pending_workspace_name_focus);
    ws.commit_workspace_name_edit();
    assert!(!ws.pending_workspace_name_focus);
    assert!(!ws.workspace_dirty);
    assert_eq!(ws.automation_state_version, v0);
    ws.start_workspace_name_edit();
    ws.workspace_name_edit_buffer = "别名".to_owned();
    ws.commit_workspace_name_edit();
    assert!(!ws.pending_workspace_name_focus);
    assert!(ws.workspace_name_edit_buffer.is_empty());
    assert_eq!(ws.automation_state_version, v0 + 1);
}
