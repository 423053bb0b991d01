use agent_maestro::cache::{index_by_id, BeadsCache};
use agent_maestro::dag::{DagBuilder, EdgeType, NodeType, SessionStatus};
use agent_maestro::json::JsonValue;
use agent_maestro::store::KeyedStore;
use agent_maestro::types::{EpicStatus, Gate, Issue};

fn create_test_issue(id: &str, title: &str, status: &str, issue_type: &str, labels: Vec<&str>, deps: Vec<&str>) -> Issue {
    Issue {
        id: id.to_string(),
        title: title.to_string(),
        status: status.to_string(),
        priority: None,
        labels: labels.into_iter().map(String::from).collect(),
        dependencies: deps.into_iter().map(|s| JsonValue::Str(s.to_string())).collect(),
        assignee: None,
        owner: None,
        issue_type: Some(issue_type.to_string()),
        extra: vec![("epic_id".to_string(), JsonValue::Str("EPIC-123".to_string()))],
    }
}

fn builder(issues: Vec<Issue>, gates: Vec<Gate>) -> DagBuilder {
    DagBuilder::new(index_by_id(issues), index_by_id(gates), index_by_id(Vec::<EpicStatus>::new()))
}

fn empty_builder() -> DagBuilder {
    builder(vec![], vec![])
}

#[test]
fn test_infer_node_type_from_labels() {
    let builder = empty_builder();

    let task_issue = create_test_issue("TASK-1", "Task", "open", "Task", vec![], vec![]);
    assert!(matches!(builder.infer_node_type(&task_issue), NodeType::Task));

    let review_issue = create_test_issue("TASK-2", "Task", "open", "Task", vec!["review"], vec![]);
    assert!(matches!(builder.infer_node_type(&review_issue), NodeType::Review));

    let gate_issue = create_test_issue("TASK-3", "Task", "open", "Task", vec!["gate"], vec![]);
    assert!(matches!(builder.infer_node_type(&gate_issue), NodeType::Gate));

    let pm_issue = create_test_issue("TASK-4", "Task", "open", "Task", vec!["pm-validation"], vec![]);
    assert!(matches!(builder.infer_node_type(&pm_issue), NodeType::PmValidation));
}

#[test]
fn labels_are_matched_ignoring_case_and_first_label_wins() {
    let b = empty_builder();
    let i = create_test_issue("T", "t", "open", "Task", vec!["Needs-REVIEW"], vec![]);
    assert_eq!(b.infer_node_type(&i), NodeType::Review);
    let j = create_test_issue("T", "t", "open", "Epic", vec!["backend", "PM Validation", "review"], vec![]);
    assert_eq!(b.infer_node_type(&j), NodeType::PmValidation);
    let k = create_test_issue("T", "t", "open", "Gate", vec!["backend"], vec![]);
    assert_eq!(b.infer_node_type(&k), NodeType::Gate);
}

#[test]
fn test_build_dag_simple() {
    let builder = builder(vec![create_test_issue("TASK-1", "First Task", "open", "Task", vec![], vec![])], vec![]);
    let dag = builder.build_dag("EPIC-123").unwrap();

    assert_eq!(dag.nodes.len(), 1);
    assert_eq!(dag.nodes[0].id, "TASK-1");
    assert!(matches!(dag.nodes[0].node_type, NodeType::Task));
    assert_eq!(dag.edges.len(), 0);
}

#[test]
fn test_build_dag_with_dependencies() {
    let builder = builder(
        vec![
            create_test_issue("TASK-1", "Task 1", "open", "Task", vec![], vec![]),
            create_test_issue("TASK-2", "Task 2", "open", "Task", vec![], vec!["TASK-1"]),
        ],
        vec![],
    );
    let dag = builder.build_dag("EPIC-123").unwrap();

    assert_eq!(dag.nodes.len(), 2);
    assert_eq!(dag.edges.len(), 1);
    assert_eq!(dag.edges[0].source, "TASK-1");
    assert_eq!(dag.edges[0].target, "TASK-2");
    assert!(matches!(dag.edges[0].edge_type, EdgeType::Blocks));
}

#[test]
fn test_build_dag_empty_issue_list() {
    let builder = empty_builder();
    let dag = builder.build_dag("EPIC-123").unwrap();

    assert_eq!(dag.nodes.len(), 0);
    assert_eq!(dag.edges.len(), 0);
}

#[test]
fn test_build_dag_linear_dependency_chain() {
    let builder = builder(
        vec![
            create_test_issue("TASK-1", "Task 1", "open", "Task", vec![], vec![]),
            create_test_issue("TASK-2", "Task 2", "open", "Task", vec![], vec!["TASK-1"]),
            create_test_issue("TASK-3", "Task 3", "open", "Task", vec![], vec!["TASK-2"]),
            create_test_issue("TASK-4", "Task 4", "open", "Task", vec![], vec!["TASK-3"]),
        ],
        vec![],
    );
    let dag = builder.build_dag("EPIC-123").unwrap();

    assert_eq!(dag.nodes.len(), 4);
    assert_eq!(dag.edges.len(), 3);

    let edge_sources: Vec<_> = dag.edges.iter().map(|e| e.source.as_str()).collect();
    let edge_targets: Vec<_> = dag.edges.iter().map(|e| e.target.as_str()).collect();

    assert!(edge_sources.contains(&"TASK-1"));
    assert!(edge_targets.contains(&"TASK-2"));
    assert!(edge_sources.contains(&"TASK-2"));
    assert!(edge_targets.contains(&"TASK-3"));
}

#[test]
fn test_build_dag_diamond_dependency_pattern() {
    let builder = builder(
        vec![
            create_test_issue("TASK-0", "Base Task", "open", "Task", vec![], vec![]),
            create_test_issue("TASK-2", "Task 2", "open", "Task", vec![], vec!["TASK-0"]),
            create_test_issue("TASK-3", "Task 3", "open", "Task", vec![], vec!["TASK-0"]),
            create_test_issue("TASK-1", "Merge Task", "open", "Task", vec![], vec!["TASK-2", "TASK-3"]),
        ],
        vec![],
    );
    let dag = builder.build_dag("EPIC-123").unwrap();

    assert_eq!(dag.nodes.len(), 4);
    assert_eq!(dag.edges.len(), 4);

    let task1_incoming: Vec<_> = dag.edges.iter().filter(|e| e.target == "TASK-1").map(|e| e.source.as_str()).collect();

    assert_eq!(task1_incoming.len(), 2);
    assert!(task1_incoming.contains(&"TASK-2"));
    assert!(task1_incoming.contains(&"TASK-3"));
}

#[test]
fn test_build_dag_with_multiple_reviews() {
    let builder = builder(
        vec![
            create_test_issue("TASK-1", "Implementation", "open", "Task", vec![], vec![]),
            create_test_issue("REVIEW-1", "Review 1", "open", "Task", vec!["review"], vec!["TASK-1"]),
            create_test_issue("REVIEW-2", "Review 2", "open", "Task", vec!["review"], vec!["TASK-1"]),
        ],
        vec![],
    );
    let dag = builder.build_dag("EPIC-123").unwrap();

    assert_eq!(dag.nodes.len(), 3);

    let review_nodes: Vec<_> = dag.nodes.iter().filter(|n| matches!(n.node_type, NodeType::Review)).collect();

    assert_eq!(review_nodes.len(), 2);
}

#[test]
fn test_build_dag_with_gates() {
    let gates = vec![Gate {
        id: "GATE-1".to_string(),
        issue_id: "TASK-1".to_string(),
        gate_type: "compile".to_string(),
        status: "pending".to_string(),
        reason: None,
        extra: vec![],
    }];
    let builder = builder(vec![create_test_issue("TASK-1", "Task 1", "open", "Task", vec![], vec![])], gates);
    let dag = builder.build_dag("EPIC-123").unwrap();

    assert_eq!(dag.nodes.len(), 2);

    let gate_nodes: Vec<_> = dag.nodes.iter().filter(|n| matches!(n.node_type, NodeType::Gate)).collect();

    assert_eq!(gate_nodes.len(), 1);
    assert!(gate_nodes[0].title.contains("Gate"));
    assert_eq!(gate_nodes[0].title, "Gate: compile");
    assert_eq!(dag.edges.len(), 1);
    assert_eq!(dag.edges[0].source, "TASK-1");
    assert_eq!(dag.edges[0].target, "GATE-1");
}

#[test]
fn test_dag_node_type_from_pm_validation_label() {
    let issue = create_test_issue("PM-1", "PM Validation", "open", "Task", vec!["pm-validation"], vec![]);
    let builder = empty_builder();

    assert!(matches!(builder.infer_node_type(&issue), NodeType::PmValidation));
}

#[test]
fn test_dag_node_type_from_issue_type() {
    let issue = Issue {
        id: "EPIC-1".to_string(),
        title: "Epic Title".to_string(),
        status: "open".to_string(),
        priority: None,
        labels: vec![],
        dependencies: vec![],
        assignee: None,
        owner: None,
        issue_type: Some("Epic".to_string()),
        extra: vec![("epic_id".to_string(), JsonValue::Str("EPIC-123".to_string()))],
    };

    let builder = empty_builder();
    assert!(matches!(builder.infer_node_type(&issue), NodeType::Epic));
}

#[test]
fn test_is_issue_in_epic() {
    let issue = Issue {
        id: "TASK-1".to_string(),
        title: "Test".to_string(),
        status: "open".to_string(),
        priority: None,
        labels: vec![],
        dependencies: vec![],
        assignee: None,
        owner: None,
        issue_type: None,
        extra: vec![("epic_id".to_string(), JsonValue::Str("EPIC-123".to_string()))],
    };

    let builder = empty_builder();
    assert!(builder.is_issue_in_epic(&issue, "EPIC-123"));
    assert!(!builder.is_issue_in_epic(&issue, "EPIC-456"));
}

#[test]
fn parent_field_is_read_when_epic_id_is_not_a_string() {
    let mut issue = create_test_issue("T", "t", "open", "Task", vec![], vec![]);
    issue.extra = vec![
        ("epic_id".to_string(), JsonValue::Number("5".to_string())),
        ("parent".to_string(), JsonValue::Str("E-9".to_string())),
    ];
    let b = empty_builder();
    assert!(b.is_issue_in_epic(&issue, "E-9"));
    issue.extra = vec![];
    assert!(!b.is_issue_in_epic(&issue, "E-9"));
}

#[test]
fn test_enrich_with_sessions() {
    let builder = builder(vec![create_test_issue("TASK-1", "Task 1", "open", "Task", vec![], vec![])], vec![]);
    let dag = builder.build_dag("EPIC-123").unwrap();

    let mut task_sessions = KeyedStore::new();
    task_sessions.insert(
        "TASK-1".to_string(),
        SessionStatus { session_id: Some("session-123".to_string()), task_status: "running".to_string() },
    );

    let enriched = builder.enrich_with_sessions(dag, &task_sessions);

    assert_eq!(enriched.nodes.len(), 1);
    assert_eq!(enriched.nodes[0].session_id, Some("session-123".to_string()));
    assert_eq!(enriched.nodes[0].task_status, Some("running".to_string()));
}

#[test]
fn unknown_dependency_gives_no_edge() {
    let mut obj_dep = create_test_issue("T2", "t2", "open", "Task", vec![], vec!["MISSING"]);
    obj_dep.dependencies.push(JsonValue::Object(vec![("id".to_string(), JsonValue::Str("T1".to_string()))]));
    obj_dep.dependencies.push(JsonValue::Object(vec![("name".to_string(), JsonValue::Str("T1".to_string()))]));
    obj_dep.dependencies.push(JsonValue::Number("3".to_string()));
    let b = builder(vec![create_test_issue("T1", "t1", "open", "Task", vec![], vec![]), obj_dep], vec![]);
    let dag = b.build_dag("EPIC-123").unwrap();
    assert_eq!(dag.nodes.len(), 2);
    assert_eq!(dag.edges.len(), 1);
    assert_eq!(dag.edges[0].source, "T1");
    assert_eq!(dag.edges[0].target, "T2");
}

#[test]
fn grouping_item_gets_its_own_node_and_assignee_falls_back_to_owner() {
    let mut epic = create_test_issue("EPIC-123", "The epic", "open", "Epic", vec![], vec![]);
    epic.extra = vec![];
    epic.owner = Some("olga".to_string());
    let b = builder(vec![epic], vec![]);
    let dag = b.build_dag("EPIC-123").unwrap();
    assert_eq!(dag.nodes.len(), 1);
    assert_eq!(dag.nodes[0].node_type, NodeType::Epic);
    assert_eq!(dag.nodes[0].id, "EPIC-123");
    assert_eq!(dag.nodes[0].assignee, Some("olga".to_string()));
}

#[test]
fn get_dag_of_unknown_grouping_is_none() {
    let cache = BeadsCache::with_contents(
        vec![create_test_issue("T1", "t1", "open", "Task", vec![], vec![])],
        vec![],
        vec![],
        0,
        "/tmp/x.json".to_string(),
    );
    assert!(cache.get_dag("EPIC-999").unwrap().is_none());
    assert_eq!(cache.get_dag("EPIC-123").unwrap().unwrap().nodes.len(), 1);
}

#[test]
fn grouping_item_gates_and_dependencies_are_in_the_graph() {
    let mut epic = create_test_issue("EPIC-123", "The epic", "open", "Epic", vec![], vec!["T1"]);
    epic.extra = vec![];
    let gates = vec![Gate {
        id: "GATE-E".to_string(),
        issue_id: "EPIC-123".to_string(),
        gate_type: "signoff".to_string(),
        status: "pending".to_string(),
        reason: None,
        extra: vec![],
    }];
    let b = builder(vec![create_test_issue("T1", "t1", "open", "Task", vec![], vec![]), epic], gates);
    let dag = b.build_dag("EPIC-123").unwrap();
    let ids: Vec<&str> = dag.nodes.iter().map(|n| n.id.as_str()).collect();
    assert_eq!(ids.len(), 3);
    assert_eq!(ids.iter().filter(|i| **i == "EPIC-123").count(), 1);
    assert!(ids.contains(&"T1") && ids.contains(&"GATE-E"));
    assert!(dag.edges.iter().any(|e| e.source == "T1" && e.target == "EPIC-123"));
    assert!(dag.edges.iter().any(|e| e.source == "EPIC-123" && e.target == "GATE-E"));
}

#[test]
fn lowered_label_kinds() {
    use_kinds();
}

fn use_kinds() {
    assert_eq!(agent_maestro::dag::label_kind_lowered("needs review"), Some(NodeType::Review));
    assert_eq!(agent_maestro::dag::label_kind_lowered("gate-review"), Some(NodeType::Review));
    assert_eq!(agent_maestro::dag::label_kind_lowered("pm validation"), Some(NodeType::PmValidation));
    assert_eq!(agent_maestro::dag::label_kind_lowered("Gate"), None);
}
