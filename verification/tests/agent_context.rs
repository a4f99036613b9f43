use llmparty::agent_tools::execution_context;
use llmparty::agent_context::{
    non_empty, push_optional, push_signals, push_value_list, render_execution_context,
    render_planning_context,
};
use llmparty::agent_tools::AgentPlanningRole;
use llmparty::model::{
    DagProposal, DagSignalRecord, DagSummaryView, ExecutionProfileView, TaskDagView, TaskView,
    WorkItemEdgeView, WorkItemRecord, WorkItemRunRecord, WorkItemRuntimeView,
    WorkItemWithRuntimeView,
};

fn task(workspace: Option<&str>) -> TaskView {
    TaskView {
        task_id: "task_1".to_string(),
        input: "Ship the feature".to_string(),
        state: "running".to_string(),
        routing_state: "matched".to_string(),
        workspace_id: workspace.map(|w| w.to_string()),
        session_id: None,
        turn_id: None,
    }
}

fn runtime(state: &str) -> WorkItemRuntimeView {
    WorkItemRuntimeView {
        current_run_id: None,
        current_state: state.to_string(),
        current_attempt: 1,
        ready_at: None,
        blocked_reason: None,
        outcome_state: None,
        outcome_reason: None,
        replanned_from_state: None,
        retry_count: 0,
        max_retries: 2,
        priority: 0,
        optional: false,
        parallelizable: true,
        session_id: None,
        turn_id: None,
        updated_at: "2026-01-01T00:00:00Z".to_string(),
    }
}

fn item(id: &str, title: &str, criteria: Option<Vec<Option<String>>>, state: Option<&str>) -> WorkItemWithRuntimeView {
    WorkItemWithRuntimeView {
        work_item: WorkItemRecord {
            work_item_id: id.to_string(),
            title: title.to_string(),
            description: "  Write the code  ".to_string(),
            action: "   ".to_string(),
            execution_profile_id: "coder".to_string(),
            acceptance_criteria: criteria,
            active: true,
        },
        runtime: state.map(runtime),
    }
}

fn signal(id: &str, detail: Option<&str>) -> DagSignalRecord {
    DagSignalRecord {
        signal_id: id.to_string(),
        work_item_id: None,
        run_id: None,
        kind: "blocker".to_string(),
        summary: "Need credentials".to_string(),
        detail: detail.map(|d| d.to_string()),
        severity: "high".to_string(),
        state: "open".to_string(),
    }
}

#[test]
fn non_empty_trims_and_drops_blank_values() {
    assert_eq!(non_empty(Some("  hi  ")), Some("hi".to_string()));
    assert_eq!(non_empty(Some(" \t ")), None);
    assert_eq!(non_empty(None), None);
}

#[test]
fn push_optional_adds_a_labelled_line_only_for_a_value() {
    let mut lines = vec!["a".to_string()];
    push_optional(&mut lines, "Label", Some("v".to_string()));
    push_optional(&mut lines, "Other", None);
    assert_eq!(lines, vec!["a".to_string(), "Label: v".to_string()]);
}

#[test]
fn push_value_list_lists_non_blank_strings_or_the_empty_text() {
    let mut lines = Vec::new();
    push_value_list(
        &mut lines,
        "Criteria",
        &Some(vec![Some(" one ".to_string()), None, Some("  ".to_string()), Some("two".to_string())]),
        Some("none."),
    );
    assert_eq!(lines, vec!["Criteria:", "  - one", "  - two"]);

    let mut lines = Vec::new();
    push_value_list(&mut lines, "Criteria", &None, Some("none."));
    assert_eq!(lines, vec!["Criteria: none."]);

    let mut lines = Vec::new();
    push_value_list(&mut lines, "Criteria", &Some(vec![None]), None);
    assert!(lines.is_empty());
}

#[test]
fn push_signals_lists_each_signal_with_its_detail() {
    let mut lines = Vec::new();
    push_signals(&mut lines, "Open signals", &vec![]);
    assert_eq!(lines, vec!["Open signals: none."]);

    let mut lines = Vec::new();
    push_signals(
        &mut lines,
        "Open signals",
        &vec![signal("sig_1", Some(" token expired ")), signal("sig_2", Some(" "))],
    );
    assert_eq!(
        lines,
        vec![
            "Open signals:",
            "- sig_1 [high / blocker]: Need credentials",
            "  Detail: token expired",
            "- sig_2 [high / blocker]: Need credentials",
        ]
    );
}

#[test]
fn execution_context_lists_task_item_run_and_next_steps() {
    let work_item = item("wi_1", "Build", Some(vec![Some("tests pass".to_string())]), Some("running"));
    let run = WorkItemRunRecord {
        run_id: "run_1".to_string(),
        work_item_id: "wi_1".to_string(),
        attempt: 2,
        state: "running".to_string(),
    };
    let upstream = vec![item("wi_0", "Design", None, None)];
    let text = render_execution_context(
        &task(Some("ws_1")),
        &work_item,
        &run,
        &upstream,
        &work_item.work_item.acceptance_criteria,
        &vec![],
    );
    let expected = [
        "llmparty context: execution",
        "",
        "Task:",
        "- Goal: Ship the feature",
        "- State: running",
        "- Workspace: ws_1",
        "",
        "Current WorkItem:",
        "- ID: wi_1",
        "- Title: Build",
        "- Description: Write the code",
        "- Profile: coder",
        "- Attempt: 2",
        "- Run state: running",
        "- Acceptance criteria:",
        "  - tests pass",
        "",
        "Completed dependencies:",
        "- wi_0 [completed] Design",
        "",
        "Open related signals: none.",
        "",
        "Next:",
        "- Execute only this WorkItem.",
        "- Call submitResult when finished.",
        "- Call raiseSignal if blocked, missing input, or replanning is needed.",
    ]
    .join("\n");
    assert_eq!(text, expected);
}

#[test]
fn execution_context_says_when_there_are_no_criteria_or_dependencies() {
    let work_item = item("wi_1", "Build", None, None);
    let run = WorkItemRunRecord {
        run_id: "run_1".to_string(),
        work_item_id: "wi_1".to_string(),
        attempt: 1,
        state: "queued".to_string(),
    };
    let text = render_execution_context(&task(None), &work_item, &run, &vec![], &None, &vec![]);
    assert!(text.contains("- Acceptance criteria: none specified.\n"));
    assert!(text.contains("\nCompleted dependencies: none.\n"));
    assert!(!text.contains("Workspace"));
}

#[test]
fn planning_context_for_an_empty_dag() {
    let dag = TaskDagView {
        task_id: "task_1".to_string(),
        summary: DagSummaryView {
            total_work_items: 0,
            ready_work_items: 0,
            running_work_items: 0,
            completed_work_items: 0,
            blocked_work_items: 0,
            failed_work_items: 0,
            open_signals: 0,
            total_runs: 0,
        },
        work_items: vec![],
        edges: vec![],
        runs: vec![],
        signals: vec![],
    };
    let text = render_planning_context(AgentPlanningRole::Planner, &task(None), &dag, &vec![], &vec![], &vec![]);
    let expected = [
        "llmparty context: planning",
        "Role: planner",
        "",
        "Task:",
        "- Goal: Ship the feature",
        "- State: running",
        "",
        "Current DAG: none yet.",
        "",
        "Open signals: none.",
        "",
        "Relevant proposals: none.",
        "",
        "Available execution profiles: none.",
        "",
        "Next:",
        "- Submit an initial DAG with submitPlan.",
        "- Do not include task_id, work_item_id, run_id, session_id, or turn_id.",
    ]
    .join("\n");
    assert_eq!(text, expected);
}

#[test]
fn planning_context_for_a_replanner_lists_dag_proposals_and_profiles() {
    let dag = TaskDagView {
        task_id: "task_1".to_string(),
        summary: DagSummaryView {
            total_work_items: 2,
            ready_work_items: 1,
            running_work_items: 0,
            completed_work_items: 1,
            blocked_work_items: 0,
            failed_work_items: 0,
            open_signals: 1,
            total_runs: 3,
        },
        work_items: vec![
            item("wi_a", "Design", None, Some("completed")),
            item("wi_b", "Build", Some(vec![Some("ok".to_string())]), None),
        ],
        edges: vec![WorkItemEdgeView {
            from_work_item_id: "wi_a".to_string(),
            to_work_item_id: "wi_b".to_string(),
        }],
        runs: vec![],
        signals: vec![],
    };
    let proposals = vec![DagProposal {
        proposal_id: "prop_1".to_string(),
        state: "applied".to_string(),
        mode: "initial_dag".to_string(),
        summary: "First plan".to_string(),
    }];
    let profiles = vec![ExecutionProfileView {
        profile_id: "coder".to_string(),
        name: "Coder".to_string(),
        description: Some(" Writes code ".to_string()),
        supported_client_types: vec!["pi".to_string(), "codex".to_string()],
        expected_output_schema: Some("diff".to_string()),
    }];
    let text = render_planning_context(
        AgentPlanningRole::Replanner,
        &task(Some("ws_1")),
        &dag,
        &vec![signal("sig_1", None)],
        &proposals,
        &profiles,
    );
    let expected = [
        "llmparty context: planning",
        "Role: replanner",
        "",
        "Task:",
        "- Goal: Ship the feature",
        "- State: running",
        "- Workspace: ws_1",
        "",
        "Current DAG:",
        "- Summary: total 2, ready 1, running 0, completed 1, blocked 0, failed 0, open signals 1",
        "- Work items:",
        "  - wi_a [completed] Design",
        "    Description: Write the code",
        "    Profile: coder",
        "  - wi_b [unknown] Build",
        "    Description: Write the code",
        "    Profile: coder",
        "    Depends on: wi_a",
        "    Acceptance:",
        "  - ok",
        "",
        "Open signals:",
        "- sig_1 [high / blocker]: Need credentials",
        "",
        "Relevant proposals:",
        "- prop_1 [applied / initial_dag]: First plan",
        "",
        "Available execution profiles:",
        "- coder: Coder — Writes code",
        "  Clients: pi, codex",
        "  Expected output: diff",
        "",
        "Next:",
        "- Submit a DAG patch with submitPlan.",
        "- Do not include task_id, work_item_id, run_id, session_id, or turn_id.",
    ]
    .join("\n");
    assert_eq!(text, expected);
}

#[test]
fn execution_context_is_composed_from_the_task_records() {
    let items = vec![
        item("wi_0", "Design", None, Some("completed")),
        item("wi_1", "Build", Some(vec![Some("tests pass".to_string())]), Some("running")),
    ];
    let runs = vec![WorkItemRunRecord {
        run_id: "run_1".to_string(),
        work_item_id: "wi_1".to_string(),
        attempt: 2,
        state: "running".to_string(),
    }];
    let edges = vec![WorkItemEdgeView {
        from_work_item_id: "wi_0".to_string(),
        to_work_item_id: "wi_1".to_string(),
    }];
    let text = execution_context(&task(Some("ws_1")), &items, &runs, &edges, &vec![], "wi_1", "run_1").unwrap();
    assert!(text.contains("- ID: wi_1\n"));
    assert!(text.contains("  - tests pass\n"));
    assert!(text.contains("Completed dependencies:\n- wi_0 [completed] Design\n"));
    assert!(matches!(
        execution_context(&task(None), &items, &runs, &edges, &vec![], "wi_9", "run_1"),
        Err(llmparty::error::Error::NotFound(m)) if m == "work item wi_9 not found"
    ));
    assert!(matches!(
        execution_context(&task(None), &items, &runs, &edges, &vec![], "wi_1", "run_9"),
        Err(llmparty::error::Error::NotFound(m)) if m == "work item run run_9 not found"
    ));
}
