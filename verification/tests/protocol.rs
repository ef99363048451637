use canvas_graph::automation::AutomationStart;
use canvas_graph::protocol::{
    AutomationDiagnostics, AutomationResponse,
    empty_diagnostics, now_timestamp_ms, response_error, timestamp_from_reading,
};
use canvas_graph::workspace::Workspace;

#[test]
fn response_error_contains_code() {
    let resp = response_error(Some("x".to_owned()), "node.create", "BAD_PAYLOAD", "bad".to_owned());
    assert!(!resp.ok);
    assert_eq!(resp.error.unwrap().code, "BAD_PAYLOAD");
}

#[test]
fn empty_diagnostics_names_action_and_zero_timings() {
    let d = empty_diagnostics("graph.get");
    assert_eq!(d.action, "graph.get");
    assert_eq!(d.queue_ms, 0);
    assert_eq!(d.exec_ms, 0);
    assert_eq!(d.total_ms, 0);
    assert_eq!(d.state_version, 0);
    assert!(d.affected_ids.is_empty());
}

#[test]
fn timestamps_are_after_2020() {
    assert!(now_timestamp_ms() > 1_577_836_800_000);
}

#[test]
fn a_repeated_request_gets_the_kept_answer() {
    let mut ws = Workspace::new();
    assert!(ws.processed_response("req-1").is_none());
    ws.remember_response("req-1", response_error(Some("req-1".to_owned()), "node.create", "BAD_PAYLOAD", "bad".to_owned()));
    let again = ws.processed_response("req-1").unwrap();
    assert!(!again.ok);
    assert_eq!(again.error.unwrap().code, "BAD_PAYLOAD");
    ws.remember_response("req-1", response_error(Some("req-1".to_owned()), "node.create", "NOT_FOUND", "gone".to_owned()));
    assert_eq!(ws.processed_response("req-1").unwrap().error.unwrap().code, "NOT_FOUND");
    assert_eq!(ws.processed_automation_requests.len(), 1);
}

#[test]
fn clock_readings_become_capped_timestamps() {
    assert_eq!(timestamp_from_reading(Some(1_700_000_000_123)), 1_700_000_000_123);
    assert_eq!(timestamp_from_reading(Some(u128::from(u64::MAX) + 5)), u64::MAX);
    assert_eq!(timestamp_from_reading(None), 0);
}

#[test]
fn a_request_id_answered_before_is_replayed() {
    let mut ws = Workspace::new();
    let id = Some("r-1".to_owned());
    assert!(matches!(ws.start_automation_call(&id), AutomationStart::Run));
    let resp = response_error(id.clone(), "node.create", "BAD_PAYLOAD", "bad".to_owned());
    let sent = ws.finish_automation_call(resp);
    assert_eq!(sent.request_id.as_deref(), Some("r-1"));
    match ws.start_automation_call(&id) {
        AutomationStart::Replay(previous) => {
            assert!(!previous.ok);
            assert_eq!(previous.error.unwrap().code, "BAD_PAYLOAD");
        }
        AutomationStart::Run => panic!("expected a replay"),
    }
    assert!(matches!(ws.start_automation_call(&None), AutomationStart::Run));
    assert!(matches!(ws.start_automation_call(&Some("r-2".to_owned())), AutomationStart::Run));
}

#[test]
fn a_replayed_answer_is_the_kept_answer_field_by_field() {
    let mut ws = Workspace::new();
    let id = Some("r-9".to_owned());
    let answer = AutomationResponse {
        request_id: id.clone(),
        ok: true,
        data: serde_json::Value::from(vec![3, 4]),
        error: None,
        diagnostics: AutomationDiagnostics {
            action: "graph.get".to_owned(),
            queue_ms: 5,
            exec_ms: 7,
            total_ms: 12,
            state_version: 3,
            state_timestamp_ms: 1_700_000_000_000,
            affected_ids: vec![1, 2],
        },
    };
    ws.finish_automation_call(answer);
    match ws.start_automation_call(&id) {
        AutomationStart::Replay(previous) => {
            assert!(previous.ok);
            assert_eq!(previous.data, serde_json::Value::from(vec![3, 4]));
            assert_eq!(previous.diagnostics.queue_ms, 5);
            assert_eq!(previous.diagnostics.exec_ms, 7);
            assert_eq!(previous.diagnostics.total_ms, 12);
            assert_eq!(previous.diagnostics.state_timestamp_ms, 1_700_000_000_000);
            assert_eq!(previous.diagnostics.affected_ids, vec![1, 2]);
        }
        AutomationStart::Run => panic!("expected a replay"),
    }
}
