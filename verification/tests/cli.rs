use canvas_graph::cli::{
    parse_usize, pop_flag, pop_flag_value, try_build_debug_action, DebugPayload, HELP_TEXT,
};
use std::collections::VecDeque;

fn args(items: &[&str]) -> Vec<String> {
    items.iter().map(|s| s.to_string()).collect()
}

#[test]
fn debug_metrics_supports_direct_invocation() {
    let (request, pretty, jsonpath, warnings) =
        try_build_debug_action(vec!["metrics".to_owned()]).unwrap();

    assert_eq!(request.action, "metrics");
    assert_eq!(request.payload, DebugPayload::Metrics);
    assert!(!pretty);
    assert_eq!(jsonpath, None);
    assert!(warnings.is_empty());
}

#[test]
fn debug_metrics_supports_pretty_and_jsonpath_together() {
    let (request, pretty, jsonpath, warnings) = try_build_debug_action(vec![
        "metrics".to_owned(),
        "--pretty".to_owned(),
        "--jsonpath".to_owned(),
        "data.fps".to_owned(),
    ])
    .unwrap();

    assert_eq!(request.action, "metrics");
    assert!(pretty);
    assert_eq!(jsonpath.as_deref(), Some("data.fps"));
    assert!(warnings.is_empty());
}

#[test]
fn debug_metrics_ignores_extra_positional_args_with_warning() {
    let (request, _pretty, _jsonpath, warnings) = try_build_debug_action(vec![
        "metrics".to_owned(),
        "extra".to_owned(),
        "more".to_owned(),
    ])
    .unwrap();

    assert_eq!(request.action, "metrics");
    assert_eq!(warnings, vec!["extra".to_owned(), "more".to_owned()]);
}

#[test]
fn debug_metrics_requires_subcommand_group() {
    let err = try_build_debug_action(Vec::new()).unwrap_err();
    assert!(err.contains("usage: canvas debug"));
}

#[test]
fn help_text_mentions_debug_metrics() {
    assert!(HELP_TEXT.contains("debug metrics [--pretty] [--jsonpath p]"));
}

#[test]
fn debug_metrics_get_is_accepted_as_operation() {
    let (request, _, _, warnings) = try_build_debug_action(args(&["metrics", "get"])).unwrap();
    assert_eq!(request.action, "metrics");
    assert!(warnings.is_empty());
}

#[test]
fn debug_group_without_operation_is_refused() {
    let err = try_build_debug_action(args(&["node"])).unwrap_err();
    assert_eq!(err, "usage: canvas debug node <operation> ...");
}

#[test]
fn debug_unknown_command_is_refused() {
    let err = try_build_debug_action(args(&["node", "explode"])).unwrap_err();
    assert_eq!(err, "error: unknown debug command 'node explode'");
}

#[test]
fn debug_graph_get_reads_since_version() {
    let (request, _, _, _) =
        try_build_debug_action(args(&["graph", "get", "--since-version", "7"])).unwrap();
    assert_eq!(request.action, "graph.get");
    assert_eq!(request.payload, DebugPayload::GraphGet { since_version: Some(7) });
}

#[test]
fn debug_node_move_keeps_coordinates_as_text() {
    let (request, _, _, _) = try_build_debug_action(args(&[
        "node", "move", "--id", "3", "--x", "1.5", "--y", "-2",
    ]))
    .unwrap();
    assert_eq!(request.action, "node.move");
    assert_eq!(
        request.payload,
        DebugPayload::NodeMove { id: 3, x: Some("1.5".to_owned()), y: Some("-2".to_owned()) }
    );
}

#[test]
fn debug_node_delete_needs_an_id() {
    let err = try_build_debug_action(args(&["node", "delete"])).unwrap_err();
    assert_eq!(err, "error: missing --id");
    let err = try_build_debug_action(args(&["node", "delete", "--id", "x"])).unwrap_err();
    assert_eq!(err, "error: invalid --id");
}

#[test]
fn debug_request_id_is_taken_from_flag() {
    let (request, _, _, _) =
        try_build_debug_action(args(&["terminal", "restart", "--node-id", "4", "--request-id", "r9"]))
            .unwrap();
    assert_eq!(request.action, "terminal.restart");
    assert_eq!(request.request_id.as_deref(), Some("r9"));
    assert_eq!(request.payload, DebugPayload::TerminalRestart { node_id: 4 });
}

#[test]
fn parse_usize_reports_missing_and_invalid() {
    assert_eq!(parse_usize(Some("42".to_owned()), "--id"), Ok(42));
    assert_eq!(parse_usize(None, "--id"), Err("error: missing --id".to_owned()));
    assert_eq!(parse_usize(Some("-1".to_owned()), "--id"), Err("error: invalid --id".to_owned()));
}

#[test]
fn pop_flag_removes_first_occurrence_only() {
    let mut q: VecDeque<String> = args(&["a", "--pretty", "b", "--pretty"]).into_iter().collect();
    assert!(pop_flag(&mut q, "--pretty"));
    assert_eq!(q, args(&["a", "b", "--pretty"]).into_iter().collect::<VecDeque<_>>());
    let mut empty: VecDeque<String> = VecDeque::new();
    assert!(!pop_flag(&mut empty, "--pretty"));
}

#[test]
fn pop_flag_value_takes_flag_and_value() {
    let mut q: VecDeque<String> = args(&["--id", "5", "rest"]).into_iter().collect();
    assert_eq!(pop_flag_value(&mut q, "--id"), Some("5".to_owned()));
    assert_eq!(q, args(&["rest"]).into_iter().collect::<VecDeque<_>>());
    let mut dangling: VecDeque<String> = args(&["x", "--id"]).into_iter().collect();
    assert_eq!(pop_flag_value(&mut dangling, "--id"), None);
    assert_eq!(dangling, args(&["x"]).into_iter().collect::<VecDeque<_>>());
}
