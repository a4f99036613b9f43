use llmparty::queries::restart_count_of;
use llmparty::model::{WorkItemRecord, WorkItemRuntimeView};
use llmparty::queries::{attach_runtime, dag_summary, RuntimeRow};

fn record(id: &str, active: bool) -> WorkItemRecord {
    WorkItemRecord {
        work_item_id: id.to_string(),
        title: format!("title {id}"),
        description: String::new(),
        action: String::new(),
        execution_profile_id: "coder".to_string(),
        acceptance_criteria: None,
        active,
    }
}

fn rt(id: &str, state: &str) -> RuntimeRow {
    RuntimeRow {
        work_item_id: id.to_string(),
        runtime: WorkItemRuntimeView {
            current_run_id: None,
            current_state: state.to_string(),
            current_attempt: 0,
            ready_at: None,
            blocked_reason: None,
            outcome_state: None,
            outcome_reason: None,
            replanned_from_state: None,
            retry_count: 0,
            max_retries: 0,
            priority: 0,
            optional: false,
            parallelizable: false,
            session_id: None,
            turn_id: None,
            updated_at: String::new(),
        },
    }
}

#[test]
fn dag_summary_counts_distinct_active_items_by_their_last_projection() {
    let items = vec![
        record("a", true),
        record("b", true),
        record("a", true),
        record("c", false),
        record("d", true),
        record("e", true),
        record("f", true),
    ];
    let rows = vec![
        rt("a", "running"),
        rt("a", "ready"),
        rt("b", "needs_input"),
        rt("c", "failed"),
        rt("d", "completed"),
        rt("e", "cancelled"),
        rt("x", "ready"),
    ];
    let s = dag_summary(&items, &rows, 3, 9);
    assert_eq!(s.total_work_items, 5);
    assert_eq!(s.ready_work_items, 1);
    assert_eq!(s.running_work_items, 0);
    assert_eq!(s.completed_work_items, 1);
    assert_eq!(s.blocked_work_items, 1);
    assert_eq!(s.failed_work_items, 0);
    assert_eq!(s.open_signals, 3);
    assert_eq!(s.total_runs, 9);
    let counted = s.ready_work_items
        + s.running_work_items
        + s.completed_work_items
        + s.blocked_work_items
        + s.failed_work_items;
    assert!(counted <= s.total_work_items);
}

#[test]
fn dag_summary_of_nothing_is_zero() {
    let s = dag_summary(&vec![], &vec![], 0, 0);
    assert_eq!(s.total_work_items, 0);
    assert_eq!(s.ready_work_items, 0);
}

#[test]
fn attach_runtime_gives_each_item_its_last_projection() {
    let items = vec![record("a", true), record("b", false)];
    let rows = vec![rt("a", "running"), rt("a", "failed")];
    let out = attach_runtime(&items, &rows);
    assert_eq!(out.len(), 2);
    assert_eq!(out[0].work_item.work_item_id, "a");
    assert_eq!(out[0].runtime.as_ref().unwrap().current_state, "failed");
    assert_eq!(out[1].work_item.title, "title b");
    assert!(!out[1].work_item.active);
    assert!(out[1].runtime.is_none());
}

#[test]
fn restart_counts_default_to_zero() {
    assert_eq!(restart_count_of("{\"restart_count\":4}").unwrap(), 4);
    assert_eq!(restart_count_of("{\"restart_count\":\"x\"}").unwrap(), 0);
    assert_eq!(restart_count_of("[1]").unwrap(), 0);
    assert_eq!(restart_count_of("{\"restart_count\":-2}").unwrap(), -2);
    assert_eq!(restart_count_of("{}").unwrap(), 0);
    assert!(restart_count_of("[").is_err());
}
