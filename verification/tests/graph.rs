use llmparty::graph::planning_decision;
use llmparty::json::JsonDoc;
use llmparty::error::Error;
use llmparty::graph::{
    cypher_string, decision_execution_state, decision_signal_kind, is_planning_event,
    projection_statements, provenance_from_rows, provenance_queries, push_unique_node,
    schema_statements, snapshot_decisions, snapshot_to_provenance, task_title, DecisionFacts,
    EvidenceFacts, GraphDecision, GraphEvidence, GraphProjectionService, GraphRuntimeConfig,
    ProvenanceNode, ProvenanceRows, ProvenanceSource, TaskEventFacts, TaskGraphSnapshot,
};
use llmparty::model::JsonField;

fn row(cells: &[&str]) -> Vec<String> {
    cells.iter().map(|c| c.to_string()).collect()
}

fn prop<'a>(props: &'a [(String, String)], key: &str) -> &'a str {
    props
        .iter()
        .find(|(k, _)| k == key)
        .map(|(_, v)| v.as_str())
        .unwrap()
}

fn snapshot() -> TaskGraphSnapshot {
    TaskGraphSnapshot {
        task_id: "task_1".to_string(),
        task_input: "Fix the login bug\nwith details".to_string(),
        task_created_at: "t0".to_string(),
        task_updated_at: "t1".to_string(),
        decisions: vec![GraphDecision {
            decision_id: "dec_1".to_string(),
            status: "resolved".to_string(),
            reason: "It's in repo".to_string(),
            confidence_text: "0.9".to_string(),
            created_at: "t2".to_string(),
            evidence: vec![GraphEvidence {
                evidence_id: "ev_1".to_string(),
                kind: "file".to_string(),
                reference: "src/main.rs".to_string(),
                summary: "entry point".to_string(),
            }],
        }],
    }
}

#[test]
fn cypher_string_quotes_and_escapes() {
    assert_eq!(cypher_string("plain"), "'plain'");
    assert_eq!(cypher_string("it's"), "'it\\'s'");
    assert_eq!(cypher_string("a\\b"), "'a\\\\b'");
    assert_eq!(cypher_string(""), "''");
}

#[test]
fn cypher_string_keeps_distinct_values_distinct() {
    assert_ne!(cypher_string("a'"), cypher_string("a\\'"));
    assert_ne!(cypher_string("x\\"), cypher_string("x\\\\"));
}

#[test]
fn task_title_takes_the_first_line_up_to_eighty_characters() {
    assert_eq!(task_title("first\nsecond"), "first");
    assert_eq!(task_title("windows\r\nline"), "windows");
    assert_eq!(task_title(""), "");
    let long: String = std::iter::repeat('x').take(100).collect();
    assert_eq!(task_title(&long).chars().count(), 80);
    assert_eq!(task_title("é".repeat(90).as_str()), "é".repeat(80));
}

#[test]
fn decision_states_and_signal_kinds() {
    assert_eq!(decision_execution_state("failed"), "failed");
    assert_eq!(decision_execution_state("resolved"), "completed");
    assert_eq!(decision_signal_kind("needs_input"), "constraint");
    assert_eq!(decision_signal_kind("failed"), "failure");
    assert_eq!(decision_signal_kind("resolved"), "finding");
}

#[test]
fn push_unique_node_skips_a_repeated_id_and_kind() {
    let mut nodes = Vec::new();
    let node = |id: &str, kind: &str, v: &str| ProvenanceNode {
        id: id.to_string(),
        kind: kind.to_string(),
        properties: vec![("v".to_string(), v.to_string())],
    };
    push_unique_node(&mut nodes, node("a", "Agent", "first"));
    push_unique_node(&mut nodes, node("a", "Agent", "second"));
    push_unique_node(&mut nodes, node("a", "Artifact", "third"));
    assert_eq!(nodes.len(), 2);
    assert_eq!(nodes[0].properties[0].1, "first");
    assert_eq!(nodes[1].kind, "Artifact");
}

#[test]
fn snapshot_provenance_has_task_agent_work_item_signal_and_artifact() {
    let p = snapshot_to_provenance(&snapshot());
    let ids: Vec<(&str, &str)> = p.nodes.iter().map(|n| (n.id.as_str(), n.kind.as_str())).collect();
    assert_eq!(
        ids,
        vec![
            ("task_1", "Task"),
            ("agent_planner", "Agent"),
            ("wi_dec_1", "WorkItem"),
            ("sig_dec_1", "Signal"),
            ("art_ev_1", "Artifact"),
        ]
    );
    assert_eq!(prop(&p.nodes[0].properties, "title"), "Fix the login bug");
    assert_eq!(prop(&p.nodes[0].properties, "ref"), "sqlite:task:task_1");
    assert_eq!(prop(&p.nodes[3].properties, "detail"), "planner status: resolved; confidence: 0.9");
    assert_eq!(prop(&p.nodes[3].properties, "origin_ref"), "sqlite:task:task_1");
    let edges: Vec<(&str, &str, &str)> = p
        .edges
        .iter()
        .map(|e| (e.from.as_str(), e.to.as_str(), e.kind.as_str()))
        .collect();
    assert_eq!(
        edges,
        vec![
            ("task_1", "wi_dec_1", "HAS_WORK"),
            ("wi_dec_1", "agent_planner", "ASSIGNED_TO"),
            ("task_1", "sig_dec_1", "HAS_SIGNAL"),
            ("agent_planner", "sig_dec_1", "EMITS"),
            ("wi_dec_1", "art_ev_1", "REQUIRES"),
            ("sig_dec_1", "art_ev_1", "SUPPORTED_BY"),
        ]
    );
}

#[test]
fn snapshot_without_decisions_is_only_the_task() {
    let mut s = snapshot();
    s.decisions.clear();
    let p = snapshot_to_provenance(&s);
    assert_eq!(p.nodes.len(), 1);
    assert!(p.edges.is_empty());
}

#[test]
fn projection_statements_merge_every_node_and_relation() {
    let statements = projection_statements(&snapshot());
    assert_eq!(statements.len(), 1 + 1 + 6 + 3);
    assert_eq!(
        statements[0],
        "MERGE (t:Task {task_id: 'task_1'}) SET t.title = 'Fix the login bug', t.description = 'Fix the login bug\nwith details', t.ref = 'sqlite:task:task_1', t.created_at = 't0', t.updated_at = 't1';"
    );
    assert!(statements[1].starts_with("MERGE (a:Agent {agent_id: 'agent_planner'})"));
    assert_eq!(
        statements[2],
        "MERGE (w:WorkItem {work_item_id: 'wi_dec_1'}) SET w.title = 'Plan task', w.description = 'It\\'s in repo', w.kind = 'planning', w.planning_state = 'active', w.execution_state = 'completed', w.execution_ref = '', w.created_at = 't2', w.updated_at = 't2';"
    );
    assert_eq!(
        statements[10],
        "MATCH (s:Signal {signal_id: 'sig_dec_1'}), (a:Artifact {artifact_id: 'art_ev_1'}) MERGE (s)-[:SUPPORTED_BY]->(a);"
    );
}

#[test]
fn snapshot_decisions_keeps_the_first_decision_of_each_id() {
    let decision = |id: Option<&str>, status: &str| DecisionFacts {
        decision_id: match id {
            Some(i) => JsonField::Text(i.to_string()),
            None => JsonField::Absent,
        },
        status: JsonField::Text(status.to_string()),
        reason: JsonField::Other,
        confidence_text: "1".to_string(),
        evidence: Some(vec![EvidenceFacts {
            evidence_id: JsonField::Absent,
            kind: JsonField::Absent,
            reference: JsonField::Text("r".to_string()),
            summary: JsonField::Absent,
        }]),
    };
    let events = vec![
        TaskEventFacts {
            event_type: "task.created".to_string(),
            decision: Some(decision(Some("dec_x"), "resolved")),
            created_at: "t0".to_string(),
        },
        TaskEventFacts {
            event_type: "task.planning_resolved".to_string(),
            decision: Some(decision(Some("dec_a"), "resolved")),
            created_at: "t1".to_string(),
        },
        TaskEventFacts {
            event_type: "task.planning_failed".to_string(),
            decision: Some(decision(Some("dec_a"), "failed")),
            created_at: "t2".to_string(),
        },
        TaskEventFacts {
            event_type: "task.planning_needs_input".to_string(),
            decision: None,
            created_at: "t3".to_string(),
        },
        TaskEventFacts {
            event_type: "task.planning_completed".to_string(),
            decision: Some(decision(None, "resolved")),
            created_at: "t4".to_string(),
        },
    ];
    let ds = snapshot_decisions(&events);
    assert_eq!(ds.len(), 2);
    assert_eq!(ds[0].decision_id, "dec_a");
    assert_eq!(ds[0].status, "resolved");
    assert_eq!(ds[0].reason, "");
    assert_eq!(ds[0].created_at, "t1");
    assert_eq!(ds[0].evidence[0].evidence_id, "dec_a_ev_0");
    assert_eq!(ds[0].evidence[0].kind, "other");
    assert_eq!(ds[0].evidence[0].reference, "r");
    assert_eq!(ds[1].decision_id, "dec_unknown");
    assert!(is_planning_event("task.planning_failed"));
    assert!(!is_planning_event("task.failed"));
}

#[test]
fn provenance_queries_scope_each_read_to_the_task() {
    let queries = provenance_queries("t'1");
    assert_eq!(queries.len(), 7);
    assert_eq!(
        queries[0],
        "MATCH (t:Task {task_id: 't\\'1'}) RETURN t.task_id, t.title, t.description, t.ref, t.created_at, t.updated_at;"
    );
    assert_eq!(
        queries[5],
        "MATCH (t:Task {task_id: 't\\'1'})-[:HAS_SIGNAL]->(s:Signal)<-[r:EMITS]-(a:Agent) RETURN a.agent_id, s.signal_id, a.name, a.role, a.capabilities, a.availability, a.ref, a.created_at, a.updated_at;"
    );
}

#[test]
fn schema_has_five_node_tables_and_eleven_relations() {
    let s = schema_statements();
    assert_eq!(s.len(), 16);
    assert_eq!(s.iter().filter(|x| x.starts_with("CREATE NODE TABLE")).count(), 5);
    assert_eq!(s[15], "CREATE REL TABLE IF NOT EXISTS DERIVED_FROM(FROM Artifact TO Artifact);");
}

#[test]
fn provenance_rows_become_nodes_once_and_edges_per_row() {
    let agent = ["wi_1", "agent_p", "Planner", "planner", "[]", "available", "internal", "", ""];
    let rows = ProvenanceRows {
        tasks: vec![row(&["task_1", "Title", "Desc", "sqlite:task:task_1", "c", "u"])],
        work_items: vec![row(&["task_1", "wi_1", "Plan", "D", "planning", "active", "completed", "", "c", "u"])],
        signals: vec![row(&["task_1", "sig_1", "agent", "finding", "S", "Dt", "o", "c"])],
        assignments: vec![row(&agent)],
        requirements: vec![row(&["wi_1", "art_1", "file", "n", "s", "available", "r", "", ""])],
        emissions: vec![row(&["agent_p", "sig_1", "Planner", "planner", "[]", "available", "internal", "", ""])],
        supports: vec![row(&["sig_1", "art_1", "file", "n", "s", "available", "r", "", ""])],
    };
    let p = provenance_from_rows(&rows);
    let ids: Vec<(&str, &str)> = p.nodes.iter().map(|n| (n.id.as_str(), n.kind.as_str())).collect();
    assert_eq!(
        ids,
        vec![
            ("task_1", "Task"),
            ("wi_1", "WorkItem"),
            ("sig_1", "Signal"),
            ("agent_p", "Agent"),
            ("art_1", "Artifact"),
        ]
    );
    assert_eq!(prop(&p.nodes[0].properties, "title"), "Title");
    assert_eq!(prop(&p.nodes[1].properties, "execution_state"), "completed");
    assert_eq!(prop(&p.nodes[3].properties, "role"), "planner");
    assert_eq!(p.nodes[3].properties.len(), 7);
    let kinds: Vec<&str> = p.edges.iter().map(|e| e.kind.as_str()).collect();
    assert_eq!(kinds, vec!["HAS_WORK", "HAS_SIGNAL", "ASSIGNED_TO", "REQUIRES", "EMITS", "SUPPORTED_BY"]);
    assert_eq!((p.edges[4].from.as_str(), p.edges[4].to.as_str()), ("agent_p", "sig_1"));
}

#[test]
fn projection_target_and_provenance_source_follow_the_config() {
    let off = GraphProjectionService::new((), GraphRuntimeConfig { enabled: false, db_dir: Some("/x".to_string()) });
    assert!(matches!(off.projection_target(), Ok(None)));
    assert!(matches!(off.provenance_source(), ProvenanceSource::Disabled));

    let no_dir = GraphProjectionService::new((), GraphRuntimeConfig { enabled: true, db_dir: None });
    match no_dir.projection_target() {
        Err(Error::InvalidConfig { key, message }) => {
            assert_eq!(key, "LLMPARTY_GRAPH_DB_DIR");
            assert_eq!(message, "graph projection is enabled but no database directory is configured");
        }
        other => panic!("unexpected {other:?}"),
    }
    assert!(matches!(no_dir.provenance_source(), ProvenanceSource::Snapshot));

    let on = GraphProjectionService::new((), GraphRuntimeConfig { enabled: true, db_dir: Some("/g".to_string()) });
    assert_eq!(on.projection_target().unwrap(), Some("/g".to_string()));
}

#[test]
fn planning_decisions_are_read_from_event_payloads() {
    let conf = |_: &JsonDoc| "0.5".to_string();
    assert!(planning_decision("task.created", "not json", conf).unwrap().is_none());
    assert!(planning_decision("task.planning_resolved", "{}", conf).unwrap().is_none());
    assert!(planning_decision("task.planning_resolved", "{\"decision\":3}", conf).unwrap().is_none());
    assert!(planning_decision("task.planning_failed", "{", conf).is_err());
    let d = planning_decision(
        "task.planning_resolved",
        "{\"decision\":{\"decision_id\":\"dec\",\"status\":\"resolved\",\"evidence\":[{\"kind\":\"file\",\"ref\":\"a.rs\"}]}}",
        conf,
    )
    .unwrap()
    .unwrap();
    assert!(matches!(d.decision_id, JsonField::Text(ref t) if t == "dec"));
    assert!(matches!(d.reason, JsonField::Absent));
    assert_eq!(d.confidence_text, "0.5");
    let ev = d.evidence.unwrap();
    assert!(matches!(ev[0].reference, JsonField::Text(ref r) if r == "a.rs"));
    assert!(matches!(ev[0].evidence_id, JsonField::Absent));
}
