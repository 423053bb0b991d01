use agent_maestro::cache::{index_by_id, BeadsCache, CacheError, SerializedCache, StatusBucket, status_bucket};
use agent_maestro::json::JsonValue;
use agent_maestro::types::{ActivityEvent, EpicStatus, Gate, Issue};

fn tree(v: &serde_json::Value) -> JsonValue {
    match v {
        serde_json::Value::Null => JsonValue::Null,
        serde_json::Value::Bool(b) => JsonValue::Bool(*b),
        serde_json::Value::Number(n) => JsonValue::Number(n.to_string()),
        serde_json::Value::String(s) => JsonValue::Str(s.clone()),
        serde_json::Value::Array(a) => JsonValue::Array(a.iter().map(tree).collect()),
        serde_json::Value::Object(m) => {
            JsonValue::Object(m.iter().map(|(k, x)| (k.clone(), tree(x))).collect())
        }
    }
}

fn parse(text: &str) -> JsonValue {
    tree(&serde_json::from_str::<serde_json::Value>(text).unwrap())
}

fn create_test_issue(id: &str, title: &str, status: &str) -> Issue {
    Issue {
        id: id.to_string(),
        title: title.to_string(),
        status: status.to_string(),
        priority: None,
        labels: vec![],
        dependencies: vec![],
        assignee: None,
        owner: None,
        issue_type: Some("Task".to_string()),
        extra: vec![],
    }
}

fn gate(id: &str, issue_id: &str, gate_type: &str, status: &str) -> Gate {
    Gate {
        id: id.to_string(),
        issue_id: issue_id.to_string(),
        gate_type: gate_type.to_string(),
        status: status.to_string(),
        reason: None,
        extra: vec![],
    }
}

fn epic(id: &str, title: &str, total: u32, open: u32, closed: u32, in_progress: u32) -> EpicStatus {
    EpicStatus {
        id: id.to_string(),
        title: title.to_string(),
        total,
        open,
        closed,
        in_progress,
        blocked: 0,
        extra: vec![],
    }
}

const NOW: i64 = 1_700_000_000_000;

fn cache_with(issues: Vec<Issue>, gates: Vec<Gate>, epics: Vec<EpicStatus>) -> BeadsCache {
    BeadsCache::with_contents(issues, gates, epics, NOW, "/tmp/test-cache.json".to_string())
}

fn event(kind: &str, issue_id: Option<&str>, gate_id: Option<&str>, extra: Vec<(String, JsonValue)>) -> ActivityEvent {
    ActivityEvent {
        event_type: kind.to_string(),
        issue_id: issue_id.map(String::from),
        gate_id: gate_id.map(String::from),
        timestamp: "2024-01-01T00:00:00Z".to_string(),
        extra,
    }
}

#[test]
fn test_full_refresh() {
    let issues = vec![create_test_issue("TASK-1", "Test Task", "open")];
    let mut cache = cache_with(vec![], vec![], vec![]);

    let staged = cache.stage_refresh(issues, vec![], vec![], NOW);
    cache.full_refresh(staged, Ok(())).unwrap();

    assert_eq!(cache.issues.entries.len(), 1);
    assert_eq!(cache.get_issue("TASK-1").unwrap().title, "Test Task");
}

#[test]
fn full_refresh_replaces_everything_and_is_fresh() {
    let mut cache = cache_with(vec![create_test_issue("OLD", "Old", "open")], vec![gate("G", "OLD", "c", "pending")], vec![]);
    let staged = cache.stage_refresh(
        vec![create_test_issue("A", "Item A", "open"), create_test_issue("B", "Item B", "closed")],
        vec![],
        vec![],
        NOW + 500_000,
    );
    cache.full_refresh(staged, Ok(())).unwrap();
    let mut ids: Vec<String> = cache.list_issues().iter().map(|i| i.id.clone()).collect();
    ids.sort();
    assert_eq!(ids, vec!["A".to_string(), "B".to_string()]);
    assert!(cache.get_issue("OLD").is_none());
    assert_eq!(cache.get_pending_gates().unwrap().len(), 0);
    assert!(!cache.is_stale_at(NOW + 500_000));
}

#[test]
fn failed_write_keeps_previous_state() {
    let mut cache = cache_with(vec![create_test_issue("OLD", "Old", "open")], vec![], vec![]);
    let staged = cache.stage_refresh(vec![create_test_issue("NEW", "New", "open")], vec![], vec![], NOW + 10);
    let r = cache.full_refresh(staged, Err(CacheError::IoError("disk full".to_string())));
    assert!(matches!(r, Err(CacheError::IoError(m)) if m == "disk full"));
    assert!(cache.get_issue("OLD").is_some());
    assert!(cache.get_issue("NEW").is_none());
    assert_eq!(cache.last_full_sync_ms, NOW);
}

#[test]
fn refresh_with_repeated_id_keeps_the_later_item() {
    let cache = cache_with(
        vec![create_test_issue("A", "first", "open"), create_test_issue("A", "second", "open")],
        vec![],
        vec![],
    );
    assert_eq!(cache.list_issues().len(), 1);
    assert_eq!(cache.get_issue("A").unwrap().title, "second");
}

#[test]
fn test_get_stats() {
    let cache = cache_with(
        vec![
            create_test_issue("TASK-1", "Task 1", "open"),
            create_test_issue("TASK-2", "Task 2", "in_progress"),
            create_test_issue("TASK-3", "Task 3", "closed"),
        ],
        vec![],
        vec![],
    );

    let stats = cache.get_stats().unwrap();

    assert_eq!(stats.total_issues, 3);
    assert_eq!(stats.open, 1);
    assert_eq!(stats.in_progress, 1);
    assert_eq!(stats.closed, 1);
}

#[test]
fn stats_bucket_statuses_ignoring_case() {
    let cache = cache_with(
        vec![
            create_test_issue("1", "a", "TODO"),
            create_test_issue("2", "b", "Backlog"),
            create_test_issue("3", "c", "In Progress"),
            create_test_issue("4", "d", "Done"),
            create_test_issue("5", "e", "BLOCKED"),
            create_test_issue("6", "f", "someday"),
        ],
        vec![gate("G1", "1", "compile", "pending"), gate("G2", "2", "compile", "approved")],
        vec![],
    );
    let stats = cache.stats_at(NOW + 1_500);
    assert_eq!(stats.total_issues, 6);
    assert_eq!(stats.open, 2);
    assert_eq!(stats.in_progress, 1);
    assert_eq!(stats.closed, 1);
    assert_eq!(stats.blocked, 1);
    assert_eq!(stats.pending_gates, 1);
    assert_eq!(stats.last_sync, "1.5s");
}

#[test]
fn status_bucket_of_lowered_text() {
    assert_eq!(status_bucket("doing"), StatusBucket::InProgress);
    assert_eq!(status_bucket("completed"), StatusBucket::Closed);
    assert_eq!(status_bucket("Open"), StatusBucket::Other);
}

#[test]
fn test_search_issues() {
    let cache = cache_with(
        vec![
            create_test_issue("TASK-1", "Fix bug", "open"),
            create_test_issue("TASK-2", "Add feature", "open"),
            create_test_issue("TASK-3", "Test code", "closed"),
        ],
        vec![],
        vec![],
    );

    let results = cache.search_issues("bug");

    assert_eq!(results.len(), 1);
    assert_eq!(results[0].id, "TASK-1");
}

#[test]
fn search_ignores_case_and_looks_at_status() {
    let cache = cache_with(
        vec![
            create_test_issue("T1", "Fix BUG in parser", "open"),
            create_test_issue("T2", "Other", "Bugfix-review"),
            create_test_issue("T3", "Nothing", "open"),
        ],
        vec![],
        vec![],
    );
    let mut ids: Vec<String> = cache.search_issues("Bug").iter().map(|i| i.id.clone()).collect();
    ids.sort();
    assert_eq!(ids, vec!["T1".to_string(), "T2".to_string()]);
    assert_eq!(cache.search_issues("OPEN").len(), 2);
    assert_eq!(cache.search_issues("zzz").len(), 0);
}

#[test]
fn test_is_stale() {
    let mut cache = cache_with(vec![], vec![], vec![]);
    cache.last_full_sync_ms = agent_maestro::clock::now_millis().unwrap();

    assert!(!cache.is_stale());

    // Simulate old cache
    cache.last_full_sync_ms = agent_maestro::clock::now_millis().unwrap() - 35_000;
    assert!(cache.is_stale());
}

#[test]
fn staleness_threshold_is_thirty_seconds() {
    let cache = cache_with(vec![], vec![], vec![]);
    assert!(!cache.is_stale_at(NOW));
    assert!(!cache.is_stale_at(NOW + 30_000));
    assert!(cache.is_stale_at(NOW + 30_001));
}

#[test]
fn test_apply_event_issue_updated() {
    let mut cache = cache_with(vec![], vec![], vec![]);

    let payload = parse(
        r#"{
            "id": "TASK-1",
            "title": "Updated Title",
            "status": "in_progress",
            "priority": null,
            "labels": [],
            "dependencies": [],
            "assignee": null,
            "issue_type": null,
            "extra": {}
        }"#,
    );
    let ev = event("issue.updated", Some("TASK-1"), None, vec![("issue".to_string(), payload)]);

    cache.apply_event(&ev).unwrap();

    assert_eq!(cache.issues.entries.len(), 1);
    assert_eq!(cache.get_issue("TASK-1").unwrap().title, "Updated Title");
}

#[test]
fn issue_update_replaces_only_that_item() {
    let mut cache = cache_with(
        vec![create_test_issue("T1", "One", "open"), create_test_issue("T2", "Two", "open")],
        vec![],
        vec![],
    );
    let payload = parse(r#"{"id": "T1", "title": "One again", "status": "closed", "labels": ["x"], "epic_id": "E"}"#);
    cache.apply_event(&event("issue.updated", Some("T1"), None, vec![("issue".to_string(), payload)])).unwrap();
    let t1 = cache.get_issue("T1").unwrap();
    assert_eq!(t1.title, "One again");
    assert_eq!(t1.status, "closed");
    assert_eq!(t1.labels, vec!["x".to_string()]);
    assert_eq!(t1.issue_type, None);
    assert_eq!(t1.extra.len(), 1);
    assert_eq!(t1.extra[0].0, "epic_id");
    assert_eq!(cache.get_issue("T2").unwrap().title, "Two");
    assert_eq!(cache.list_issues().len(), 2);
}

#[test]
fn malformed_payload_is_ignored() {
    let mut cache = cache_with(vec![create_test_issue("T1", "One", "open")], vec![], vec![]);
    let payload = parse(r#"{"id": "T1", "status": "closed"}"#);
    cache.apply_event(&event("issue.updated", Some("T1"), None, vec![("issue".to_string(), payload)])).unwrap();
    assert_eq!(cache.get_issue("T1").unwrap().title, "One");
    let wrong_labels = parse(r#"{"id": "T1", "title": "x", "status": "open", "labels": [1]}"#);
    cache.apply_event(&event("issue.created", Some("T1"), None, vec![("issue".to_string(), wrong_labels)])).unwrap();
    assert_eq!(cache.get_issue("T1").unwrap().title, "One");
}

#[test]
fn test_apply_event_issue_deleted() {
    let mut cache = cache_with(vec![create_test_issue("TASK-1", "Task 1", "open")], vec![], vec![]);

    assert_eq!(cache.issues.entries.len(), 1);

    let ev = event("issue.deleted", Some("TASK-1"), None, vec![]);

    cache.apply_event(&ev).unwrap();

    assert_eq!(cache.issues.entries.len(), 0);
}

#[test]
fn deleting_an_absent_item_changes_nothing() {
    let mut cache = cache_with(vec![create_test_issue("TASK-1", "Task 1", "open")], vec![], vec![]);
    assert!(cache.apply_event(&event("issue.deleted", Some("TASK-404"), None, vec![])).is_ok());
    assert_eq!(cache.list_issues().len(), 1);
    assert!(cache.apply_event(&event("something.else", Some("TASK-1"), None, vec![])).is_ok());
    assert_eq!(cache.list_issues().len(), 1);
    assert_eq!(cache.last_full_sync_ms, NOW);
}

#[test]
fn test_apply_event_gate_updated() {
    let mut cache = cache_with(vec![], vec![], vec![]);

    let payload = parse(
        r#"{
            "id": "GATE-1",
            "issue_id": "TASK-1",
            "gate_type": "compile",
            "status": "approved",
            "reason": "Looks good",
            "extra": {}
        }"#,
    );
    let ev = event("gate.updated", None, Some("GATE-1"), vec![("gate".to_string(), payload)]);

    cache.apply_event(&ev).unwrap();

    assert_eq!(cache.gates.entries.len(), 1);
    assert_eq!(cache.gates.get("GATE-1").unwrap().status, "approved");
}

#[test]
fn gate_delete_removes_it() {
    let mut cache = cache_with(vec![], vec![gate("G1", "T", "c", "pending")], vec![]);
    cache.apply_event(&event("gate.deleted", None, Some("G1"), vec![])).unwrap();
    assert!(cache.gates.get("G1").is_none());
}

#[test]
fn test_get_pending_gates() {
    let cache = cache_with(
        vec![],
        vec![
            gate("GATE-1", "TASK-1", "compile", "pending"),
            gate("GATE-2", "TASK-2", "pm-approval", "approved"),
            gate("GATE-3", "TASK-3", "compile", "blocked"),
        ],
        vec![],
    );

    let pending = cache.get_pending_gates().unwrap();

    assert_eq!(pending.len(), 2); // pending and blocked
    assert!(pending.iter().any(|g| g.id == "GATE-1"));
    assert!(pending.iter().any(|g| g.id == "GATE-3"));
}

#[test]
fn test_get_issue_and_list_issues() {
    let cache = cache_with(
        vec![create_test_issue("TASK-1", "Task 1", "open"), create_test_issue("TASK-2", "Task 2", "closed")],
        vec![],
        vec![],
    );

    let issue = cache.get_issue("TASK-1");
    assert!(issue.is_some());
    assert_eq!(issue.unwrap().title, "Task 1");

    let nonexistent = cache.get_issue("TASK-999");
    assert!(nonexistent.is_none());

    let all_issues = cache.list_issues();
    assert_eq!(all_issues.len(), 2);
}

#[test]
fn test_get_epic_and_list_epics() {
    let cache = cache_with(
        vec![],
        vec![],
        vec![epic("EPIC-1", "Epic 1", 10, 5, 3, 2), epic("EPIC-2", "Epic 2", 5, 2, 2, 1)],
    );

    let e = cache.get_epic("EPIC-1");
    assert!(e.is_some());
    assert_eq!(e.unwrap().total, 10);

    let all_epics = cache.list_epics();
    assert_eq!(all_epics.len(), 2);
}

fn snapshot(recorded: i64) -> SerializedCache {
    SerializedCache {
        issues: vec![("T1".to_string(), create_test_issue("T1", "Kept", "open"))],
        gates: vec![],
        epics: vec![],
        last_full_sync_ms: recorded,
    }
}

#[test]
fn old_snapshot_file_is_not_loaded() {
    let cache = BeadsCache::new("/tmp/c.json".to_string(), Some(snapshot(NOW - 60_001)), NOW);
    assert_eq!(cache.list_issues().len(), 0);
    assert_eq!(cache.last_full_sync_ms, NOW);
}

#[test]
fn recent_snapshot_file_is_loaded() {
    let cache = BeadsCache::new("/tmp/c.json".to_string(), Some(snapshot(NOW - 60_000)), NOW);
    assert_eq!(cache.get_issue("T1").unwrap().title, "Kept");
    assert_eq!(cache.last_full_sync_ms, NOW - 60_000);
    let empty = BeadsCache::new("/tmp/c.json".to_string(), None, NOW);
    assert_eq!(empty.list_issues().len(), 0);
}

#[test]
fn cache_file_lies_under_the_cache_dir() {
    assert_eq!(
        BeadsCache::cache_file_path_in("/home/u/.cache"),
        "/home/u/.cache/agent-maestro/agent-maestro-cache.json"
    );
}

#[test]
fn index_by_id_keys_by_identifier() {
    let store = index_by_id(vec![create_test_issue("X", "x", "open")]);
    assert!(store.contains_key("X"));
    assert!(!store.contains_key("x"));
}

#[test]
fn age_is_whole_seconds_and_never_negative() {
    let cache = cache_with(vec![], vec![], vec![]);
    assert_eq!(cache.age_secs_at(NOW + 61_999), 61);
    assert_eq!(cache.age_secs_at(NOW - 5_000), 0);
}

#[test]
fn update_is_keyed_by_the_payload_identifier() {
    let mut cache = cache_with(vec![create_test_issue("T1", "One", "open")], vec![], vec![]);
    let payload = parse(r#"{"id": "T2", "title": "Two", "status": "open"}"#);
    cache.apply_event(&event("issue.updated", Some("T1"), None, vec![("issue".to_string(), payload)])).unwrap();
    assert_eq!(cache.get_issue("T1").unwrap().title, "One");
    assert_eq!(cache.get_issue("T2").unwrap().id, "T2");
    let gate_payload = parse(r#"{"id": "G2", "issue_id": "T1", "gate_type": "c", "status": "pending"}"#);
    cache.apply_event(&event("gate.created", None, Some("G1"), vec![("gate".to_string(), gate_payload)])).unwrap();
    assert!(cache.gates.get("G1").is_none());
    assert_eq!(cache.gates.get("G2").unwrap().id, "G2");
}

#[test]
fn lowered_matching() {
    assert!(agent_maestro::cache::matches_lowered("fix bug", "open", "bug"));
    assert!(agent_maestro::cache::matches_lowered("x", "bugfix", "bug"));
    assert!(!agent_maestro::cache::matches_lowered("fix bug", "open", "Bug"));
}
