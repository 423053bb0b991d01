use agent_maestro::activity::{
    ActivityStream, LineAction, ProcessExit, RunCycle, RunOutcome, SupervisorAction, SupervisorState,
    BACKOFF_MULTIPLIER, INITIAL_BACKOFF_SECS, MAX_BACKOFF_SECS, MAX_PARSE_ERRORS, READ_LINE_TIMEOUT_SECS,
    STARTUP_GRACE_SECS,
};
use agent_maestro::error::BdError;
use agent_maestro::json::JsonValue;
use agent_maestro::types::{ActivityEvent, Gate};
use std::time::Duration;

fn tree(v: &serde_json::Value) -> JsonValue {
    match v {
        serde_json::Value::Null => JsonValue::Null,
        serde_json::Value::Bool(b) => JsonValue::Bool(*b),
        serde_json::Value::Number(n) => JsonValue::Number(n.to_string()),
        serde_json::Value::String(s) => JsonValue::Str(s.clone()),
        serde_json::Value::Array(a) => JsonValue::Array(a.iter().map(tree).collect()),
        serde_json::Value::Object(m) => {
            JsonValue::Object(m.iter().map(|(k, x)| (k.clone(), tree(x))).collect())
        }
    }
}

fn parse(line: &str) -> Result<JsonValue, String> {
    serde_json::from_str::<serde_json::Value>(line)
        .map(|v| tree(&v))
        .map_err(|e| e.to_string())
}

fn failed() -> RunOutcome {
    RunOutcome::Failed(BdError::DaemonError("crash".to_string()))
}

#[test]
fn test_activity_stream_constants() {
    assert_eq!(Duration::from_secs(INITIAL_BACKOFF_SECS), Duration::from_secs(1));
    assert_eq!(Duration::from_secs(MAX_BACKOFF_SECS), Duration::from_secs(30));
    assert_eq!(BACKOFF_MULTIPLIER, 2);
    assert_eq!(MAX_PARSE_ERRORS, 100);
    assert_eq!(Duration::from_secs(READ_LINE_TIMEOUT_SECS), Duration::from_secs(60));
    assert_eq!(Duration::from_secs(STARTUP_GRACE_SECS), Duration::from_secs(5));
}

#[test]
fn test_parse_event_valid() {
    let json = r#"{
            "event_type": "issue_created",
            "issue_id": "ISSUE-001",
            "timestamp": "2024-01-01T00:00:00Z"
        }"#;

    let event = ActivityStream::parse_event(json, &parse(json)).unwrap();
    assert_eq!(event.event_type, "issue_created");
    assert_eq!(event.issue_id, Some("ISSUE-001".to_string()));
}

#[test]
fn test_parse_event_invalid() {
    let json = r#"invalid json"#;
    assert!(ActivityStream::parse_event(json, &parse(json)).is_err());
}

#[test]
fn test_parse_event_empty_issue_id() {
    let json = r#"{
            "event_type": "daemon_started",
            "timestamp": "2024-01-01T00:00:00Z"
        }"#;

    let event = ActivityStream::parse_event(json, &parse(json)).unwrap();
    assert_eq!(event.event_type, "daemon_started");
    assert_eq!(event.issue_id, None);
}

#[test]
fn parse_error_holds_offending_line() {
    let json = r#"{"event_type": 7, "timestamp": "t"}"#;
    match ActivityStream::parse_event(json, &parse(json)) {
        Err(BdError::ParseError(msg)) => {
            assert!(msg.starts_with("Failed to parse activity event: "));
            assert!(msg.ends_with(json));
        }
        other => panic!("unexpected: {:?}", other),
    }
    let bad = "not json at all";
    match ActivityStream::parse_event(bad, &parse(bad)) {
        Err(BdError::ParseError(msg)) => assert!(msg.contains("\nInput: not json at all")),
        other => panic!("unexpected: {:?}", other),
    }
}

#[test]
fn event_extra_fields_are_kept() {
    let json = r#"{"event_type": "issue.updated", "issue_id": null, "gate_id": "G-1", "timestamp": "t", "details": "x"}"#;
    let e = ActivityStream::parse_event(json, &parse(json)).unwrap();
    assert_eq!(e.issue_id, None);
    assert_eq!(e.gate_id, Some("G-1".to_string()));
    assert_eq!(e.extra.len(), 1);
    assert_eq!(e.extra[0].0, "details");
    assert!(matches!(&e.extra[0].1, JsonValue::Str(s) if s == "x"));
}

#[test]
fn test_activity_event_serialization() {
    let event = ActivityEvent {
        event_type: "issue.updated".to_string(),
        issue_id: Some("ISSUE-1".to_string()),
        gate_id: None,
        timestamp: "2024-01-01T00:00:00Z".to_string(),
        extra: vec![("details".to_string(), JsonValue::Str("test details".to_string()))],
    };

    let json = event.to_json();
    let deserialized = ActivityEvent::from_json(&json).unwrap();

    assert_eq!(deserialized.event_type, "issue.updated");
    assert_eq!(deserialized.issue_id, Some("ISSUE-1".to_string()));
    assert!(deserialized.gate_id.is_none());
}

#[test]
fn event_round_trip_keeps_every_field() {
    let event = ActivityEvent {
        event_type: "gate.created".to_string(),
        issue_id: None,
        gate_id: Some("GATE-9".to_string()),
        timestamp: "2024-02-02T00:00:00Z".to_string(),
        extra: vec![
            ("a".to_string(), JsonValue::Number("42".to_string())),
            ("b".to_string(), JsonValue::Array(vec![JsonValue::Bool(true), JsonValue::Null])),
        ],
    };
    let back = ActivityEvent::from_json(&event.to_json()).unwrap();
    assert_eq!(back.event_type, event.event_type);
    assert_eq!(back.issue_id, event.issue_id);
    assert_eq!(back.gate_id, event.gate_id);
    assert_eq!(back.timestamp, event.timestamp);
    assert_eq!(back.extra.len(), 2);
    assert_eq!(back.extra[0].0, "a");
    assert!(matches!(&back.extra[0].1, JsonValue::Number(n) if n == "42"));
    assert!(matches!(&back.extra[1].1, JsonValue::Array(v) if v.len() == 2));
}

#[test]
fn test_gate_status_parsing() {
    let gate_json = r#"{
            "id": "GATE-1",
            "issue_id": "ISSUE-1",
            "gate_type": "pm-approval",
            "status": "approved",
            "reason": null
        }"#;

    let gate = Gate::from_json(&parse(gate_json).unwrap()).unwrap();
    assert_eq!(gate.status, "approved");
    assert!(gate.reason.is_none());
}

#[test]
fn backoff_doubles_to_cap_then_stops_after_ten_failures() {
    let mut s = SupervisorState::new();
    let mut waits = Vec::new();
    loop {
        match s.on_run_end(&failed()) {
            SupervisorAction::Restart { after_secs } => waits.push(after_secs),
            SupervisorAction::Stop => break,
        }
    }
    assert_eq!(waits, vec![1, 2, 4, 8, 16, 30, 30, 30, 30, 30]);
    assert_eq!(s.consecutive_errors, 11);
    assert!(s.stopped);
    assert_eq!(s.on_run_end(&failed()), SupervisorAction::Stop);
}

#[test]
fn clean_end_and_lost_consumer_stop_for_good() {
    let mut s = SupervisorState::new();
    assert_eq!(s.on_run_end(&RunOutcome::Ended), SupervisorAction::Stop);
    assert!(s.stopped);
    let mut t = SupervisorState::new();
    assert_eq!(t.on_run_end(&failed()), SupervisorAction::Restart { after_secs: 1 });
    assert_eq!(t.on_run_end(&RunOutcome::ConsumerGone), SupervisorAction::Stop);
    assert_eq!(t.on_run_end(&failed()), SupervisorAction::Stop);
}

#[test]
fn blank_lines_are_skipped() {
    let mut c = RunCycle::new();
    assert!(matches!(c.on_line("   \t ", &parse("   \t ")), LineAction::Skip));
    assert!(matches!(c.on_line("", &parse("")), LineAction::Skip));
    assert_eq!(c.parse_errors, 0);
}

#[test]
fn parse_errors_are_counted_reset_and_capped() {
    let mut c = RunCycle::new();
    for _ in 0..3 {
        assert!(matches!(c.on_line("garbage", &parse("garbage")), LineAction::Dropped(BdError::ParseError(_))));
    }
    assert_eq!(c.parse_errors, 3);
    let good = r#"{"event_type": "x", "timestamp": "t"}"#;
    assert!(matches!(c.on_line(good, &parse(good)), LineAction::Forward(_)));
    assert_eq!(c.parse_errors, 0);
    for _ in 0..100 {
        assert!(matches!(c.on_line("garbage", &parse("garbage")), LineAction::Dropped(_)));
    }
    assert!(matches!(c.on_line("garbage", &parse("garbage")), LineAction::Abort(BdError::DaemonError(_))));
}

#[test]
fn exit_codes_decide_the_outcome() {
    let c = RunCycle::new();
    assert!(matches!(c.on_exit(ProcessExit::Exited(Some(0))), RunOutcome::Ended));
    assert!(matches!(c.on_exit(ProcessExit::Exited(None)), RunOutcome::Ended));
    assert!(matches!(
        c.on_exit(ProcessExit::Exited(Some(2))),
        RunOutcome::Failed(BdError::DaemonError(m)) if m == "Activity process exited with code: 2"
    ));
    assert!(matches!(
        c.on_exit(ProcessExit::Exited(Some(-9))),
        RunOutcome::Failed(BdError::DaemonError(m)) if m.ends_with("code: -9")
    ));
    assert!(matches!(c.on_exit(ProcessExit::TimedOut), RunOutcome::Failed(BdError::DaemonError(_))));
    assert!(matches!(
        c.on_exit(ProcessExit::WaitFailed("gone".to_string())),
        RunOutcome::Failed(BdError::DaemonError(_))
    ));
}

#[test]
fn unicode_white_space_lines_are_blank() {
    let mut c = RunCycle::new();
    let line = "\u{a0}\u{3000}\r\n";
    assert!(matches!(c.on_line(line, &parse(line)), LineAction::Skip));
    assert!(agent_maestro::text::blank_text(" \t\u{2028}"));
    assert!(!agent_maestro::text::blank_text(" x "));
    assert!(agent_maestro::text::contains_text("abcabd", "abd"));
    assert!(!agent_maestro::text::contains_text("ab", "abc"));
    assert!(agent_maestro::text::contains_text("ab", ""));
}
