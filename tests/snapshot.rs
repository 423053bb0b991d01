use agent_maestro::cache::{BeadsCache, SerializedCache};
use agent_maestro::decimal::{parse_u32, u32_text};
use agent_maestro::json::JsonValue;
use agent_maestro::snapshot::{parse_rfc3339_millis, rfc3339_text};
use agent_maestro::types::{EpicStatus, Gate, Issue};

fn tree(v: &serde_json::Value) -> JsonValue {
    match v {
        serde_json::Value::Null => JsonValue::Null,
        serde_json::Value::Bool(b) => JsonValue::Bool(*b),
        serde_json::Value::Number(n) => JsonValue::Number(n.to_string()),
        serde_json::Value::String(s) => JsonValue::Str(s.clone()),
        serde_json::Value::Array(a) => JsonValue::Array(a.iter().map(tree).collect()),
        serde_json::Value::Object(m) => {
            JsonValue::Object(m.iter().map(|(k, x)| (k.clone(), tree(x))).collect())
        }
    }
}

fn parse(text: &str) -> JsonValue {
    tree(&serde_json::from_str::<serde_json::Value>(text).unwrap())
}

fn issue(id: &str) -> Issue {
    Issue {
        id: id.to_string(),
        title: format!("Title {}", id),
        status: "open".to_string(),
        priority: Some(JsonValue::Number("2".to_string())),
        labels: vec!["bug".to_string(), "backend".to_string()],
        dependencies: vec![JsonValue::Str("parent-1".to_string())],
        assignee: Some("test-user".to_string()),
        owner: None,
        issue_type: Some("Bug".to_string()),
        extra: vec![("custom_field".to_string(), JsonValue::Str("custom_value".to_string()))],
    }
}

#[test]
fn decimal_text_and_back() {
    assert_eq!(u32_text(0), "0");
    assert_eq!(u32_text(4_294_967_295), "4294967295");
    assert_eq!(parse_u32("10"), Some(10));
    assert_eq!(parse_u32("4294967295"), Some(u32::MAX));
    assert_eq!(parse_u32("4294967296"), None);
    assert_eq!(parse_u32("1.5"), None);
    assert_eq!(parse_u32("-1"), None);
    assert_eq!(parse_u32(""), None);
}

#[test]
fn rfc3339_both_ways() {
    assert_eq!(rfc3339_text(0), Some("1970-01-01T00:00:00Z".to_string()));
    assert_eq!(rfc3339_text(1_500), Some("1970-01-01T00:00:01.500Z".to_string()));
    assert_eq!(parse_rfc3339_millis("1970-01-01T00:00:01Z"), Some(1_000));
    assert_eq!(parse_rfc3339_millis("2026-02-11T22:42:42-03:00"), Some(1_770_860_562_000));
    assert_eq!(parse_rfc3339_millis("yesterday"), None);
}

#[test]
fn epic_status_reads_counts() {
    let e = EpicStatus::from_json(&parse(
        r#"{"id": "EPIC-1", "title": "Test Epic", "total": 10, "open": 3, "closed": 5, "in_progress": 2, "blocked": 0, "owner": "x"}"#,
    ))
    .unwrap();
    assert_eq!((e.total, e.open, e.closed, e.in_progress, e.blocked), (10, 3, 5, 2, 0));
    assert_eq!(e.extra.len(), 1);
    assert!(EpicStatus::from_json(&parse(r#"{"id": "E", "title": "t", "total": 1.5, "open": 0, "closed": 0, "in_progress": 0, "blocked": 0}"#)).is_none());
}

#[test]
fn test_issue_serialization_round_trip() {
    let i = issue("TEST-1");
    let back = Issue::from_json(&i.to_json()).unwrap();
    assert_eq!(back.id, i.id);
    assert_eq!(back.title, i.title);
    assert_eq!(back.status, i.status);
    assert!(matches!(&back.priority, Some(JsonValue::Number(n)) if n == "2"));
    assert_eq!(back.labels, i.labels);
    assert_eq!(back.dependencies.len(), 1);
    assert_eq!(back.assignee, i.assignee);
    assert_eq!(back.issue_type, i.issue_type);
    assert_eq!(back.extra.len(), 1);
}

#[test]
fn test_gate_serialization_round_trip() {
    let g = Gate {
        id: "GATE-1".to_string(),
        issue_id: "ISSUE-1".to_string(),
        gate_type: "compile".to_string(),
        status: "pending".to_string(),
        reason: Some("Compile check required".to_string()),
        extra: vec![("metadata".to_string(), JsonValue::Object(vec![("key".to_string(), JsonValue::Str("value".to_string()))]))],
    };
    let back = Gate::from_json(&g.to_json()).unwrap();
    assert_eq!(back.id, g.id);
    assert_eq!(back.issue_id, g.issue_id);
    assert_eq!(back.gate_type, g.gate_type);
    assert_eq!(back.status, g.status);
    assert_eq!(back.reason, g.reason);
}

#[test]
fn snapshot_file_round_trips() {
    let epic = EpicStatus {
        id: "EPIC-1".to_string(),
        title: "Epic".to_string(),
        total: 10,
        open: 5,
        closed: 3,
        in_progress: 2,
        blocked: 0,
        extra: vec![],
    };
    let recorded = 1_700_000_000_123;
    let cache = BeadsCache::with_contents(vec![issue("A"), issue("B")], vec![], vec![epic], recorded, "/tmp/x.json".to_string());
    let json = cache.snapshot_json().unwrap();
    let text = serde_json::to_string(&json_to_serde(&json)).unwrap();
    let loaded = SerializedCache::from_json(&parse(&text)).unwrap();
    assert_eq!(loaded.last_full_sync_ms, recorded);
    let back = BeadsCache::new("/tmp/x.json".to_string(), Some(loaded), recorded + 1_000);
    assert_eq!(back.list_issues().len(), 2);
    assert_eq!(back.get_issue("B").unwrap().title, "Title B");
    assert_eq!(back.get_epic("EPIC-1").unwrap().total, 10);
    assert_eq!(back.last_full_sync_ms, recorded);
}

#[test]
fn stale_snapshot_file_loads_as_empty_store() {
    let text = r#"{"issues": {"T1": {"id": "T1", "title": "t", "status": "open"}}, "gates": {}, "epics": {}, "last_full_sync": "2024-01-01T00:00:00Z"}"#;
    let loaded = SerializedCache::from_json(&parse(text)).unwrap();
    let now = parse_rfc3339_millis("2024-01-01T00:01:00.001Z").unwrap();
    let cache = BeadsCache::new("/tmp/x.json".to_string(), Some(loaded), now);
    assert_eq!(cache.list_issues().len(), 0);
    assert!(!cache.is_stale_at(now));
}

#[test]
fn malformed_snapshot_file_is_refused() {
    assert!(SerializedCache::from_json(&parse(r#"{"issues": {}, "gates": {}, "epics": {}}"#)).is_none());
    assert!(SerializedCache::from_json(&parse(
        r#"{"issues": {"T1": {"id": "T1"}}, "gates": {}, "epics": {}, "last_full_sync": "2024-01-01T00:00:00Z"}"#
    ))
    .is_none());
}

fn json_to_serde(v: &JsonValue) -> serde_json::Value {
    match v {
        JsonValue::Null => serde_json::Value::Null,
        JsonValue::Bool(b) => serde_json::Value::Bool(*b),
        JsonValue::Number(n) => serde_json::from_str(n).unwrap(),
        JsonValue::Str(s) => serde_json::Value::String(s.clone()),
        JsonValue::Array(a) => serde_json::Value::Array(a.iter().map(json_to_serde).collect()),
        JsonValue::Object(m) => serde_json::Value::Object(m.iter().map(|(k, x)| (k.clone(), json_to_serde(x))).collect()),
    }
}

#[test]
fn test_issue_with_optional_fields() {
    let issue = Issue {
        id: "TEST-2".to_string(),
        title: "Minimal issue".to_string(),
        status: "closed".to_string(),
        priority: None,
        labels: vec![],
        dependencies: vec![],
        assignee: None,
        owner: None,
        issue_type: None,
        extra: vec![],
    };

    let deserialized = Issue::from_json(&issue.to_json()).unwrap();

    assert_eq!(deserialized.id, "TEST-2");
    assert!(deserialized.priority.is_none());
    assert!(deserialized.labels.is_empty());
    assert!(deserialized.assignee.is_none());
    assert!(deserialized.issue_type.is_none());
}

#[test]
fn test_issue_with_extra_fields() {
    let issue = Issue {
        id: "TEST-3".to_string(),
        title: "Issue with extra".to_string(),
        status: "open".to_string(),
        priority: None,
        labels: vec![],
        dependencies: vec![],
        assignee: None,
        owner: None,
        issue_type: None,
        extra: vec![
            ("custom_field".to_string(), JsonValue::Str("value".to_string())),
            ("number_field".to_string(), JsonValue::Number("42".to_string())),
        ],
    };

    let deserialized = Issue::from_json(&issue.to_json()).unwrap();

    let get = |k: &str| deserialized.extra.iter().find(|(n, _)| n == k).map(|(_, v)| v);
    assert!(matches!(get("custom_field"), Some(JsonValue::Str(s)) if s == "value"));
    assert!(matches!(get("number_field"), Some(JsonValue::Number(n)) if n == "42"));
}

#[test]
fn test_epic_status_serialization() {
    let epic = EpicStatus {
        id: "EPIC-1".to_string(),
        title: "Test Epic".to_string(),
        total: 10,
        open: 3,
        closed: 5,
        in_progress: 2,
        blocked: 0,
        extra: vec![],
    };

    let deserialized = EpicStatus::from_json(&epic.to_json()).unwrap();

    assert_eq!(deserialized.total, 10);
    assert_eq!(deserialized.open, 3);
    assert_eq!(deserialized.closed, 5);
    assert_eq!(deserialized.in_progress, 2);
    assert_eq!(deserialized.blocked, 0);
}
