use agent_maestro::daemon::{DaemonManager, StartupAction, StartupEvent, DAEMON_SOCKET_PATH, DAEMON_START_TIMEOUT_SECS};
use agent_maestro::error::BdError;
use agent_maestro::events::{DashboardEvent, EventSource};
use agent_maestro::health::{HealthStatus, BdHealth, BD_VERSION_CHECK_TIMEOUT_SECS, MAX_CACHE_AGE_SECS};
use agent_maestro::types::{Gate, Issue};
use agent_maestro::workspace::WorkspaceDiscovery;
use std::time::Duration;

fn bare_issue(id: &str, title: &str, status: &str) -> Issue {
    Issue {
        id: id.to_string(),
        title: title.to_string(),
        status: status.to_string(),
        priority: None,
        labels: vec![],
        dependencies: vec![],
        assignee: None,
        owner: None,
        issue_type: None,
        extra: vec![],
    }
}

fn status(bd_available: bool, version: Option<&str>, age: Option<u64>, stale: bool) -> HealthStatus {
    HealthStatus {
        bd_available,
        bd_version: version.map(String::from),
        daemon_running: true,
        cache_age_secs: age,
        cache_stale: stale,
        last_check_secs: 0,
    }
}

#[test]
fn test_daemon_manager_constants() {
    assert_eq!(DAEMON_SOCKET_PATH, ".beads/bd.sock");
    assert_eq!(Duration::from_secs(DAEMON_START_TIMEOUT_SECS), Duration::from_secs(30));
}

#[test]
fn missing_tool_path_is_refused() {
    let r = DaemonManager::with_bd_path("/tmp/test-workspace".to_string(), "/nonexistent/path/12345/bd".to_string());
    match r {
        Err(BdError::CliNotFound { checked_paths }) => {
            assert_eq!(checked_paths, vec!["/nonexistent/path/12345/bd".to_string()])
        }
        other => panic!("unexpected: {:?}", other),
    }
}

#[test]
fn tool_candidates_in_order() {
    let c = DaemonManager::bd_candidates(Some("/home/u".to_string()));
    assert_eq!(c, vec!["bd".to_string(), "/home/u/.local/bin/bd".to_string()]);
    let d = DaemonManager::bd_candidates(None);
    assert_eq!(d[1], "~/.local/bin/bd");
}

#[test]
fn test_extract_name() {
    assert_eq!(WorkspaceDiscovery::extract_name("/home/user/projects/my-project"), "my-project");
    assert_eq!(WorkspaceDiscovery::extract_name("/tmp/my-project"), "my-project");
}

#[test]
fn extract_name_without_a_final_component_keeps_the_path() {
    assert_eq!(WorkspaceDiscovery::extract_name("/"), "/");
    assert_eq!(WorkspaceDiscovery::extract_name("/tmp/project/"), "project");
}

#[test]
fn test_health_check_impl_signature() {
    let _ = || {
        let result: Result<HealthStatus, String> = Ok(HealthStatus {
            bd_available: false,
            bd_version: None,
            daemon_running: false,
            cache_age_secs: None,
            cache_stale: false,
            last_check_secs: 0,
        });
        result
    };
}

#[test]
fn test_event_equality() {
    assert_eq!(EventSource::Bd, EventSource::Bd);
}

#[test]
fn test_dashboard_event_source() {
    let event = DashboardEvent::IssueUpdated { source: EventSource::Bd, issue: bare_issue("test-1", "Test Issue", "open") };

    assert_eq!(event.source(), EventSource::Bd);
}

#[test]
fn test_dashboard_event_type_name() {
    assert_eq!(
        DashboardEvent::IssueUpdated { source: EventSource::Bd, issue: bare_issue("test", "Test", "open") }.event_type_name(),
        "issue_updated"
    );

    assert_eq!(
        DashboardEvent::ConnectionChanged { source: EventSource::Bd, connected: true }.event_type_name(),
        "connection_changed"
    );
}

#[test]
fn test_is_actionable() {
    let cache_event = DashboardEvent::CacheRefreshed { source: EventSource::Bd, stats: "items: 10".to_string() };
    assert!(!cache_event.is_actionable());
}

#[test]
fn resolved_gate_still_pending_is_actionable() {
    let g = |s: &str| Gate {
        id: "G".to_string(),
        issue_id: "T".to_string(),
        gate_type: "compile".to_string(),
        status: s.to_string(),
        reason: None,
        extra: vec![],
    };
    assert!(DashboardEvent::GateResolved { source: EventSource::Bd, gate: g("pending") }.is_actionable());
    assert!(!DashboardEvent::GateResolved { source: EventSource::Bd, gate: g("approved") }.is_actionable());
    assert!(!DashboardEvent::GateCreated { source: EventSource::Bd, gate: g("pending") }.is_actionable());
}

#[test]
fn test_constants() {
    assert_eq!(MAX_CACHE_AGE_SECS, 300);
    assert_eq!(Duration::from_secs(BD_VERSION_CHECK_TIMEOUT_SECS), Duration::from_secs(5));
}

#[test]
fn test_is_healthy() {
    let healthy_status = status(true, Some("1.0.0"), Some(60), false);
    let unhealthy_status = status(false, None, Some(60), false);
    let stale_cache_status = status(true, Some("1.0.0"), Some(400), true);

    assert!(healthy_status.bd_available && healthy_status.daemon_running && !healthy_status.cache_stale);
    assert!(!(unhealthy_status.bd_available && unhealthy_status.daemon_running && !unhealthy_status.cache_stale));
    assert!(!(stale_cache_status.bd_available && stale_cache_status.daemon_running && !stale_cache_status.cache_stale));
    assert!(healthy_status.is_healthy());
    assert!(!unhealthy_status.is_healthy());
    assert!(!stale_cache_status.is_healthy());
}

#[test]
fn health_from_checks_marks_old_snapshot_stale() {
    let bd = BdHealth { available: true, version: Some("1.0.0".to_string()), daemon_running: true };
    let s = HealthStatus::from_checks(bd, Some(301), 99);
    assert!(s.cache_stale);
    assert_eq!(s.last_check_secs, 99);
    let bd2 = BdHealth { available: true, version: None, daemon_running: true };
    assert!(!HealthStatus::from_checks(bd2, None, 0).cache_stale);
}

#[test]
fn daemon_startup_steps() {
    let m = DaemonManager { workspace: "/w".to_string(), bd_path: "bd".to_string() };
    assert!(matches!(m.startup_step(StartupEvent::Status { running: true }), StartupAction::Ready));
    assert!(matches!(m.startup_step(StartupEvent::Status { running: false }), StartupAction::Start));
    assert!(matches!(m.startup_step(StartupEvent::Started { running: false }), StartupAction::Fail(BdError::DaemonError(_))));
    assert!(matches!(m.startup_step(StartupEvent::Started { running: true }), StartupAction::WaitForSocket { after_ms: 0 }));
    assert!(matches!(
        m.startup_step(StartupEvent::Socket { exists: false, elapsed_ms: 29_900 }),
        StartupAction::WaitForSocket { after_ms: 100 }
    ));
    assert!(matches!(m.startup_step(StartupEvent::Socket { exists: false, elapsed_ms: 30_000 }), StartupAction::Fail(_)));
    assert!(matches!(m.startup_step(StartupEvent::Socket { exists: true, elapsed_ms: 30_000 }), StartupAction::Ready));
}

#[test]
fn tool_place_is_checked_by_existence() {
    let ok = DaemonManager::from_existence("/w".to_string(), "/usr/bin/bd".to_string(), true).unwrap();
    assert_eq!(ok.bd_path, "/usr/bin/bd");
    assert_eq!(ok.workspace, "/w");
    match DaemonManager::from_existence("/w".to_string(), "/no/bd".to_string(), false) {
        Err(BdError::CliNotFound { checked_paths }) => assert_eq!(checked_paths, vec!["/no/bd".to_string()]),
        other => panic!("unexpected: {:?}", other),
    }
}
