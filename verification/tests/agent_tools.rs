use llmparty::agent_tools::submit_plan_answer;
use llmparty::json::json_string;
use llmparty::agent_tools::{binding_instance, session_facts, turn_facts};
use llmparty::agent_tools::{
    binding_runtime_instance_id, check_no_applied_plan, check_runtime_instance, check_session_usable, check_tool_request,
    check_turn_session, execution_task_id, find_run, find_work_item, initial_plan_summary,
    is_known_tool, parse_planning_role, patch_plan_summary, patch_summary_or, plan_submission_kind, planning_role_text,
    planning_task_id, require_execution_turn, require_planning_turn, required_input_string,
    route_tool, select_open_signals, select_related_open_signals, select_upstream_completed,
    turn_planning_role, validate_required, AgentPlanningRole, AgentToolContextResolver,
    AgentToolMode, AgentToolName, AgentToolRequest, AgentToolService, PlanSubmissionKind,
    SessionForAgentTool, TurnForAgentTool,
};
use llmparty::error::Error;
use llmparty::model::{
    DagSignalRecord, JsonField, WorkItemEdgeView, WorkItemRecord, WorkItemRunRecord,
    WorkItemRuntimeView, WorkItemWithRuntimeView,
};

fn text(s: &str) -> JsonField {
    JsonField::Text(s.to_string())
}

fn message(e: Error) -> String {
    match e {
        Error::Domain(m) | Error::StateConflict(m) | Error::NotFound(m) | Error::CapabilityUnavailable(m) => m,
        Error::InvalidConfig { message, .. } => message,
    }
}

fn request(session: &str, turn: &str, runtime: &str) -> AgentToolRequest {
    AgentToolRequest {
        session_id: session.to_string(),
        turn_id: turn.to_string(),
        runtime_instance_id: runtime.to_string(),
        input: serde_json::Value::Null,
    }
}

fn signal(id: &str, state: &str, work_item: Option<&str>, run: Option<&str>) -> DagSignalRecord {
    DagSignalRecord {
        signal_id: id.to_string(),
        work_item_id: work_item.map(|s| s.to_string()),
        run_id: run.map(|s| s.to_string()),
        kind: "blocker".to_string(),
        summary: "s".to_string(),
        detail: None,
        severity: "low".to_string(),
        state: state.to_string(),
    }
}

fn item(id: &str, state: Option<&str>) -> WorkItemWithRuntimeView {
    WorkItemWithRuntimeView {
        work_item: WorkItemRecord {
            work_item_id: id.to_string(),
            title: id.to_uppercase(),
            description: String::new(),
            action: String::new(),
            execution_profile_id: "p".to_string(),
            acceptance_criteria: None,
            active: true,
        },
        runtime: state.map(|s| WorkItemRuntimeView {
            current_run_id: None,
            current_state: s.to_string(),
            current_attempt: 0,
            ready_at: None,
            blocked_reason: None,
            outcome_state: None,
            outcome_reason: None,
            replanned_from_state: None,
            retry_count: 0,
            max_retries: 0,
            priority: 0,
            optional: false,
            parallelizable: false,
            session_id: None,
            turn_id: None,
            updated_at: String::new(),
        }),
    }
}

#[test]
fn tools_are_routed_by_name() {
    assert!(is_known_tool("getContext"));
    assert!(!is_known_tool("deleteEverything"));
    assert_eq!(route_tool("raiseSignal").unwrap(), AgentToolName::RaiseSignal);
    assert!(matches!(route_tool("x"), Err(Error::NotFound(m)) if m == "agent tool x not found"));
}

#[test]
fn planning_roles_round_trip_through_their_names() {
    for role in [AgentPlanningRole::Planner, AgentPlanningRole::Replanner] {
        assert_eq!(parse_planning_role(planning_role_text(&role)).unwrap(), role);
    }
    assert_eq!(
        message(parse_planning_role("boss").unwrap_err()),
        "unsupported DAG planning role boss"
    );
}

#[test]
fn requests_need_their_identifiers() {
    assert!(check_tool_request(&request("s", "t", "r")).is_ok());
    assert_eq!(message(check_tool_request(&request("s", " ", "r")).unwrap_err()), "turn_id is required");
    assert_eq!(message(validate_required("x", "").unwrap_err()), "x is required");
    assert_eq!(message(check_runtime_instance("r1", &request("s", "t", "r2")).unwrap_err()), "runtime_instance_id does not match session s");
}

#[test]
fn sessions_and_turns_are_checked() {
    let session = SessionForAgentTool { client_type: "pi".to_string(), state: "exited".to_string(), task_id: JsonField::Absent };
    assert_eq!(message(check_session_usable(&session, "s1").unwrap_err()), "session s1 is terminal");
    let turn = TurnForAgentTool {
        session_id: "other".to_string(),
        dag_managed: Some(true),
        dag_planning_role: text("replanner"),
        task_id: JsonField::Absent,
    };
    assert_eq!(
        message(check_turn_session(&turn, &request("s1", "t1", "r")).unwrap_err()),
        "turn t1 does not belong to session s1"
    );
    assert_eq!(turn_planning_role(&turn, "t1").unwrap(), Some(AgentPlanningRole::Replanner));
    let unmanaged = TurnForAgentTool { dag_managed: None, ..turn };
    assert_eq!(message(turn_planning_role(&unmanaged, "t1").unwrap_err()), "turn t1 is not DAG-managed");
    assert!(binding_runtime_instance_id(&text("rt_1"), "s").is_ok());
    assert_eq!(
        message(binding_runtime_instance_id(&JsonField::Other, "s").unwrap_err()),
        "session s runtime binding missing runtime_instance_id"
    );
}

#[test]
fn planning_task_id_comes_from_the_turn_then_the_session() {
    let session = SessionForAgentTool { client_type: "pi".to_string(), state: "idle".to_string(), task_id: text("task_s") };
    let mut turn = TurnForAgentTool {
        session_id: "s".to_string(),
        dag_managed: Some(true),
        dag_planning_role: text("planner"),
        task_id: JsonField::Absent,
    };
    assert_eq!(planning_task_id(&turn, &session, "t").unwrap(), "task_s");
    turn.task_id = text("task_t");
    assert_eq!(planning_task_id(&turn, &session, "t").unwrap(), "task_t");
    turn.task_id = JsonField::Other;
    assert_eq!(message(planning_task_id(&turn, &session, "t").unwrap_err()), "DAG-managed planning turn t is missing task_id");
    assert_eq!(message(execution_task_id(None, "run_1").unwrap_err()), "work item run run_1 not found");
}

#[test]
fn tools_check_the_turn_mode() {
    let planning = AgentToolMode::Planning { role: AgentPlanningRole::Planner };
    let execution = AgentToolMode::Execution { run_id: "r".to_string(), work_item_id: "w".to_string() };
    assert!(require_execution_turn(&execution).is_ok());
    assert_eq!(message(require_execution_turn(&planning).unwrap_err()), "submitResult requires a DAG execution turn");
    assert_eq!(require_planning_turn(&planning).unwrap(), AgentPlanningRole::Planner);
    assert_eq!(message(require_planning_turn(&execution).unwrap_err()), "submitPlan requires a DAG planning turn");
}

#[test]
fn plan_submissions_match_the_role() {
    assert_eq!(plan_submission_kind(AgentPlanningRole::Planner, &text("initial_dag")).unwrap(), PlanSubmissionKind::InitialDag);
    assert_eq!(plan_submission_kind(AgentPlanningRole::Replanner, &text("patch")).unwrap(), PlanSubmissionKind::Patch);
    assert_eq!(message(plan_submission_kind(AgentPlanningRole::Replanner, &text("initial_dag")).unwrap_err()), "RePlanner can only submit patch plans");
    assert_eq!(message(plan_submission_kind(AgentPlanningRole::Planner, &text("patch")).unwrap_err()), "Planner can only submit initial_dag plans");
    assert_eq!(message(plan_submission_kind(AgentPlanningRole::Planner, &text("x")).unwrap_err()), "submitPlan mode must be initial_dag or patch, got x");
    assert_eq!(message(plan_submission_kind(AgentPlanningRole::Planner, &JsonField::Absent).unwrap_err()), "submitPlan input missing mode");
    assert_eq!(message(required_input_string(&text(" "), "summary").unwrap_err()), "submitPlan input missing string field summary");
    assert!(initial_plan_summary(&text("initial_dag"), &text("plan")).is_ok());
}

#[test]
fn signals_are_selected_by_state_and_scope() {
    let signals = vec![
        signal("a", "open", None, None),
        signal("b", "resolved", None, None),
        signal("c", "open", Some("wi_2"), Some("run_1")),
        signal("d", "open", Some("wi_2"), Some("run_9")),
        signal("e", "open", Some("wi_1"), None),
    ];
    let open: Vec<String> = select_open_signals(&signals).into_iter().map(|s| s.signal_id).collect();
    assert_eq!(open, vec!["a", "c", "d", "e"]);
    let related: Vec<String> = select_related_open_signals(&signals, "wi_1", "run_1")
        .into_iter()
        .map(|s| s.signal_id)
        .collect();
    assert_eq!(related, vec!["a", "c", "e"]);
}

#[test]
fn work_items_runs_and_upstream_items_are_found() {
    let items = vec![item("a", Some("completed")), item("b", Some("running")), item("c", None)];
    assert_eq!(find_work_item(&items, "b").unwrap().work_item.title, "B");
    assert!(matches!(find_work_item(&items, "z"), Err(Error::NotFound(_))));
    let runs = vec![WorkItemRunRecord { run_id: "r1".to_string(), work_item_id: "a".to_string(), attempt: 1, state: "completed".to_string() }];
    assert_eq!(find_run(&runs, "r1").unwrap().attempt, 1);
    assert!(find_run(&runs, "r2").is_err());
    let edges = vec![
        WorkItemEdgeView { from_work_item_id: "a".to_string(), to_work_item_id: "c".to_string() },
        WorkItemEdgeView { from_work_item_id: "b".to_string(), to_work_item_id: "c".to_string() },
        WorkItemEdgeView { from_work_item_id: "a".to_string(), to_work_item_id: "b".to_string() },
    ];
    let up: Vec<String> = select_upstream_completed(&edges, &items, "c")
        .into_iter()
        .map(|i| i.work_item.work_item_id)
        .collect();
    assert_eq!(up, vec!["a"]);
}

#[test]
fn services_share_one_pool() {
    let service = AgentToolService::new(7u32);
    assert_eq!(*service.pool(), 7);
    assert_eq!(*service.resolver().pool(), 7);
    assert_eq!(*service.queries().pool(), 7);
    assert_eq!(*service.profiles().pool(), 7);
    assert_eq!(*AgentToolContextResolver::new("db").pool(), "db");
}

#[test]
fn plan_payload_modes_and_summaries() {
    assert_eq!(patch_plan_summary(&JsonField::Absent, &text("fix")).unwrap(), "fix");
    assert_eq!(
        message(patch_plan_summary(&text("initial_dag"), &text("fix")).unwrap_err()),
        "submitPlan patch payload mode must be patch, got initial_dag"
    );
    assert_eq!(
        message(initial_plan_summary(&text("patch"), &text("x")).unwrap_err()),
        "submitPlan initial payload mode must be initial_dag, got patch"
    );
    assert_eq!(patch_summary_or(String::new(), "payload"), "payload");
    assert_eq!(patch_summary_or("own".to_string(), "payload"), "own");
}

#[test]
fn a_planning_session_applies_one_plan() {
    assert!(check_no_applied_plan(None).is_ok());
    assert_eq!(
        message(check_no_applied_plan(Some("prop_7".to_string())).unwrap_err()),
        "submitPlan already applied proposal prop_7 for this planning session"
    );
}

#[test]
fn stored_metadata_is_read_into_facts() {
    let s = session_facts("pi".to_string(), "idle".to_string(), "{\"task_id\":\"t1\"}").unwrap();
    assert!(matches!(s.task_id, JsonField::Text(ref t) if t == "t1"));
    let t = turn_facts("s1".to_string(), "{\"dag_managed\":true,\"dag_planning_role\":\"planner\",\"task_id\":3}").unwrap();
    assert_eq!(t.dag_managed, Some(true));
    assert!(matches!(t.dag_planning_role, JsonField::Text(ref r) if r == "planner"));
    assert!(matches!(t.task_id, JsonField::Other));
    let t = turn_facts("s1".to_string(), "{}").unwrap();
    assert_eq!(t.dag_managed, None);
    assert!(matches!(t.task_id, JsonField::Absent));
    assert!(matches!(session_facts("pi".to_string(), "idle".to_string(), "{"), Err(Error::Domain(_))));
    assert_eq!(binding_instance("{\"runtime_instance_id\":\"rt\"}", "s").unwrap(), "rt");
    assert_eq!(
        message(binding_instance("{}", "s").unwrap_err()),
        "session s runtime binding missing runtime_instance_id"
    );
}

#[test]
fn accepted_plan_answer_reports_validation_and_apply() {
    let r = submit_plan_answer(
        "proposal_1".to_string(),
        "applied",
        "initial_dag",
        serde_json::Value::Bool(true),
    );
    assert_eq!(r.proposal_id, "proposal_1");
    assert_eq!(r.validation, "{\"ok\":true}");
    assert_eq!(
        r.apply,
        "{\"applied\":true,\"mode\":\"initial_dag\",\"proposal_state\":\"applied\"}"
    );
    assert_eq!(r.scheduler, serde_json::Value::Bool(true));
    let apply: serde_json::Value = serde_json::from_str(&r.apply).unwrap();
    assert_eq!(apply["applied"], serde_json::Value::Bool(true));
    assert_eq!(apply["proposal_state"], serde_json::Value::String("applied".to_string()));
    let validation: serde_json::Value = serde_json::from_str(&r.validation).unwrap();
    assert_eq!(validation["ok"], serde_json::Value::Bool(true));
}

#[test]
fn json_string_literals_read_back_as_their_text() {
    assert_eq!(json_string("plain"), "\"plain\"");
    assert_eq!(json_string("a\"b\\c\n\t\u{1}"), "\"a\\\"b\\\\c\\n\\t\\u0001\"");
    for s in ["", "patch", "quote \" and \\ slash", "line\r\nfeed", "\u{8}\u{c}\u{1f}", "ünï €"] {
        let lit = json_string(s);
        assert_eq!(lit, serde_json::to_string(s).unwrap());
        let back: String = serde_json::from_str(&lit).unwrap();
        assert_eq!(back, s);
    }
}
