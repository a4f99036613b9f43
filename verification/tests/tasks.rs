use llmparty::tasks::{sync_tasks_from_turn_event, user_cancellation, TaskTurnRow};
use llmparty::tasks::{planner_attempt_plan, PlannerAnswer};
use llmparty::tasks::{create_task_step, CreateTaskStep};
use llmparty::tasks::{choose_session, dispatch_events, SessionCandidate};
use llmparty::dag_run_result::TurnEventType;
use llmparty::error::Error;
use llmparty::model::TaskView;
use llmparty::tasks::{
    check_confirm_workspace, planner_failure_reason, planner_question, resolved_reason,
    unknown_workspace_fallback, cancel_action, check_client_type, check_dag_task_request, check_planner_input,
    dispatch_routing, interrupt_target, is_terminal_task_state, new_task_route, planner_kind,
    task_state_for_turn, task_transition, workspace_lookup, CancelAction, DispatchRoutingUpdate,
    NewTaskRoute, PlannerKind, PlannerWorkspace, WorkspaceLookup, planning_started_step,
    planning_step, unrouted_step, PlannerDecisionStatus,
};

fn task(state: &str, routing: &str, session: Option<&str>, turn: Option<&str>) -> TaskView {
    TaskView {
        task_id: "task_1".to_string(),
        input: "do it".to_string(),
        state: state.to_string(),
        routing_state: routing.to_string(),
        workspace_id: None,
        session_id: session.map(|s| s.to_string()),
        turn_id: turn.map(|s| s.to_string()),
    }
}

fn message(e: Error) -> String {
    match e {
        Error::Domain(m) | Error::StateConflict(m) | Error::NotFound(m) | Error::CapabilityUnavailable(m) => m,
        Error::InvalidConfig { message, .. } => message,
    }
}

#[test]
fn terminal_task_states() {
    for s in ["completed", "failed", "cancelled"] {
        assert!(is_terminal_task_state(s));
    }
    assert!(!is_terminal_task_state("running"));
}

#[test]
fn dag_tasks_need_a_workspace_and_a_supported_client() {
    assert!(matches!(check_dag_task_request(None, "pi"), Err(Error::Domain(m)) if m == "workspace is required for DAG tasks"));
    assert!(matches!(check_dag_task_request(Some("  "), "pi"), Err(Error::Domain(_))));
    assert!(matches!(check_dag_task_request(Some("/w"), "vim"), Err(Error::Domain(m)) if m == "unsupported client_type: vim"));
    assert!(check_client_type("pi").is_ok());
}

#[test]
fn new_tasks_are_dispatched_planned_or_held() {
    assert_eq!(new_task_route(true, false), NewTaskRoute::Dispatch);
    assert_eq!(new_task_route(false, true), NewTaskRoute::Plan);
    assert_eq!(new_task_route(false, false), NewTaskRoute::AwaitConfirmation);
}

#[test]
fn planner_input_is_refused_in_order() {
    let waiting = task("needs_confirmation", "ambiguous", None, None);
    assert!(check_planner_input(Some(&waiting), "task_1", "pi", true).is_ok());
    assert_eq!(message(check_planner_input(Some(&waiting), "task_1", "pi", false).unwrap_err()), "planner is not enabled");
    assert!(matches!(check_planner_input(None, "task_9", "pi", true), Err(Error::NotFound(m)) if m == "task task_9 not found"));
    let dispatched = task("queued", "matched", Some("s"), Some("t"));
    assert_eq!(
        message(check_planner_input(Some(&dispatched), "task_1", "pi", true).unwrap_err()),
        "task task_1 has already been dispatched or is terminal"
    );
    let routed = task("routing", "matched", None, None);
    assert_eq!(
        message(check_planner_input(Some(&routed), "task_1", "pi", true).unwrap_err()),
        "task task_1 cannot receive planner input from state routing"
    );
}

#[test]
fn interrupting_needs_a_live_task_with_a_session_and_turn() {
    let t = task("running", "matched", Some("s1"), Some("t1"));
    assert_eq!(interrupt_target(Some(&t), "task_1").unwrap(), ("s1".to_string(), "t1".to_string()));
    let done = task("completed", "matched", Some("s1"), Some("t1"));
    assert_eq!(message(interrupt_target(Some(&done), "task_1").unwrap_err()), "task task_1 is already terminal");
    let no_turn = task("queued", "matched", Some("s1"), None);
    assert_eq!(message(interrupt_target(Some(&no_turn), "task_1").unwrap_err()), "task task_1 has no turn to interrupt");
}

#[test]
fn cancelling_interrupts_a_turn_or_marks_the_task() {
    let with_turn = task("running", "matched", Some("s"), Some("t"));
    assert_eq!(cancel_action(Some(&with_turn), "task_1").unwrap(), CancelAction::InterruptTurn);
    let without = task("pending", "pending", None, None);
    assert_eq!(cancel_action(Some(&without), "task_1").unwrap(), CancelAction::MarkCancelled);
    assert!(cancel_action(None, "task_1").is_err());
}

#[test]
fn turn_events_move_live_tasks_only() {
    assert_eq!(task_transition("queued", TurnEventType::TurnStarted), Some(("running", "task.running")));
    assert_eq!(task_transition("running", TurnEventType::TurnInterrupted), Some(("cancelled", "task.cancelled")));
    assert_eq!(task_transition("completed", TurnEventType::TurnFailed), None);
    assert_eq!(task_transition("running", TurnEventType::Other), None);
}

#[test]
fn dispatch_helpers() {
    assert_eq!(dispatch_routing(DispatchRoutingUpdate::Confirmed), ("confirmed", "task.workspace_confirmed"));
    assert_eq!(task_state_for_turn("running"), "running");
    assert_eq!(task_state_for_turn("pending"), "queued");
    assert_eq!(planner_kind("pi"), PlannerKind::Pi);
    assert_eq!(planner_kind("generic"), PlannerKind::Fake);
}

#[test]
fn resolved_workspaces_are_looked_up_by_id_then_path() {
    let by_id = PlannerWorkspace { workspace_id: Some("ws".to_string()), canonical_path: Some("/p".to_string()), reason: None };
    assert!(matches!(workspace_lookup(Some(&by_id)).unwrap(), WorkspaceLookup::ById(id) if id == "ws"));
    let by_path = PlannerWorkspace { workspace_id: None, canonical_path: Some("/p".to_string()), reason: None };
    assert!(matches!(workspace_lookup(Some(&by_path)).unwrap(), WorkspaceLookup::ByPath(p) if p == "/p"));
    let none = PlannerWorkspace { workspace_id: None, canonical_path: None, reason: None };
    assert_eq!(message(workspace_lookup(Some(&none)).unwrap_err()), "resolved planner decision missing canonical_path");
    assert_eq!(message(workspace_lookup(None).unwrap_err()), "resolved planner decision missing workspace");
}

#[test]
fn planning_outcomes_set_state_routing_and_event() {
    let r = planning_step(PlannerDecisionStatus::Resolved);
    assert_eq!((r.state, r.routing_state, r.event_type), ("routing", "matched", "task.planning_resolved"));
    let r = planning_step(PlannerDecisionStatus::NeedsInput);
    assert_eq!((r.state, r.routing_state, r.event_type), ("needs_confirmation", "ambiguous", "task.planning_needs_input"));
    let r = planning_step(PlannerDecisionStatus::Failed);
    assert_eq!((r.state, r.routing_state, r.event_type), ("needs_confirmation", "failed", "task.planning_failed"));
    let r = planning_started_step();
    assert_eq!((r.state, r.routing_state), ("routing", "pending"));
    let r = unrouted_step();
    assert_eq!(r.event_type, "task.routing_ambiguous");
}

#[test]
fn a_task_whose_planner_needs_input_takes_planner_input() {
    let r = planning_step(PlannerDecisionStatus::NeedsInput);
    let t = task(r.state, r.routing_state, None, None);
    assert!(check_planner_input(Some(&t), "task_1", "pi", true).is_ok());
}

#[test]
fn workspace_confirmation_needs_a_waiting_task() {
    let waiting = task("needs_confirmation", "ambiguous", None, None);
    assert!(check_confirm_workspace(Some(&waiting), "task_1", "pi").is_ok());
    let routing = task("routing", "pending", None, None);
    assert_eq!(
        message(check_confirm_workspace(Some(&routing), "task_1", "pi").unwrap_err()),
        "task task_1 cannot be workspace-confirmed from state routing"
    );
    assert_eq!(message(check_confirm_workspace(None, "task_2", "pi").unwrap_err()), "task task_2 not found");
    assert_eq!(message(check_confirm_workspace(Some(&waiting), "task_1", "emacs").unwrap_err()), "unsupported client_type: emacs");
}

#[test]
fn planner_texts_fall_back_to_defaults() {
    assert_eq!(planner_question(None), "Planner needs more input");
    assert_eq!(planner_question(Some("Which repo?".to_string())), "Which repo?");
    assert_eq!(planner_failure_reason(None), "planner failed");
    let w = PlannerWorkspace { workspace_id: Some("ws_9".to_string()), canonical_path: None, reason: None };
    assert_eq!(message(unknown_workspace_fallback(&w, "ws_9").unwrap_err()), "planner resolved unknown workspace_id ws_9");
    assert_eq!(resolved_reason(&w, &Some("decision".to_string())), "decision");
    assert_eq!(resolved_reason(&w, &None), "planner resolved workspace");
    let w = PlannerWorkspace { workspace_id: None, canonical_path: Some("/p".to_string()), reason: Some("own".to_string()) };
    assert_eq!(unknown_workspace_fallback(&w, "x").unwrap(), "/p");
    assert_eq!(resolved_reason(&w, &Some("decision".to_string())), "own");
}

#[test]
fn task_creation_replays_a_stored_response_and_otherwise_routes() {
    assert!(matches!(create_task_step(Some("{\"task\":1}".to_string()), "pi", true, true), Ok(CreateTaskStep::Replay(ref t)) if t == "{\"task\":1}"));
    assert!(matches!(create_task_step(None, "pi", true, false), Ok(CreateTaskStep::Create(NewTaskRoute::Dispatch))));
    assert!(matches!(create_task_step(None, "pi", false, true), Ok(CreateTaskStep::Create(NewTaskRoute::Plan))));
    assert!(matches!(create_task_step(None, "pi", false, false), Ok(CreateTaskStep::Create(NewTaskRoute::AwaitConfirmation))));
    assert_eq!(message(create_task_step(Some("x".to_string()), "vim", true, true).unwrap_err()), "unsupported client_type: vim");
}

#[test]
fn a_failed_creation_marks_the_task_failed() {
    let f = llmparty::tasks::creation_failed("no session");
    assert_eq!((f.state, f.routing_state, f.reason.as_str(), f.event_type), ("failed", "failed", "no session", "task.failed"));
}

#[test]
fn dispatch_reuses_the_first_idle_session_of_the_workspace_and_client() {
    let c = |id: &str, ws: Option<&str>, client: &str, state: &str, turn: Option<&str>| SessionCandidate {
        session_id: id.to_string(),
        workspace_id: ws.map(|w| w.to_string()),
        client_type: client.to_string(),
        state: state.to_string(),
        current_turn_id: turn.map(|t| t.to_string()),
    };
    let sessions = vec![
        c("s1", Some("ws"), "pi", "running", None),
        c("s2", Some("ws"), "pi", "idle", Some("t")),
        c("s3", Some("other"), "pi", "idle", None),
        c("s4", Some("ws"), "codex", "idle", None),
        c("s5", Some("ws"), "pi", "interrupted", None),
        c("s6", Some("ws"), "pi", "idle", None),
    ];
    assert_eq!(choose_session(&sessions, "ws", "pi"), Some(4));
    assert_eq!(choose_session(&sessions, "ws", "claude_code"), None);
    assert_eq!(
        dispatch_events(DispatchRoutingUpdate::Matched, true),
        vec!["task.routing_started", "task.workspace_matched", "task.session_selected", "task.turn_created"]
    );
    assert_eq!(dispatch_events(DispatchRoutingUpdate::Confirmed, false)[2], "task.session_created");
}

#[test]
fn planner_attempts_record_their_steps() {
    let p = planner_attempt_plan(PlannerAnswer::Errored, true);
    assert_eq!(p.events, vec!["task.planning_failed"]);
    assert_eq!((p.step.state, p.step.routing_state), ("needs_confirmation", "failed"));
    assert!(!p.dispatch);
    let p = planner_attempt_plan(PlannerAnswer::Decided(PlannerDecisionStatus::Resolved), false);
    assert_eq!(
        p.events,
        vec!["task.planning_completed", "task.planning_resolved", "task.dispatch_handoff_created"]
    );
    assert_eq!((p.step.state, p.step.routing_state), ("routing", "matched"));
    assert!(!p.dispatch);
    assert!(planner_attempt_plan(PlannerAnswer::Decided(PlannerDecisionStatus::Resolved), true).dispatch);
    let p = planner_attempt_plan(PlannerAnswer::Decided(PlannerDecisionStatus::NeedsInput), true);
    assert_eq!(p.events, vec!["task.planning_completed", "task.planning_needs_input"]);
    assert!(!p.dispatch);
}

fn turn_row(task_id: &str, state: &str, turn: Option<&str>) -> TaskTurnRow {
    TaskTurnRow { task_id: task_id.to_string(), state: state.to_string(), turn_id: turn.map(str::to_string) }
}

#[test]
fn turn_events_move_only_their_task() {
    let mut tasks = vec![
        turn_row("a", "running", Some("t1")),
        turn_row("b", "dispatched", Some("t2")),
        turn_row("c", "completed", Some("t3")),
    ];
    let ev = sync_tasks_from_turn_event(&mut tasks, Some("t2"), TurnEventType::TurnCompleted).unwrap();
    assert_eq!((ev.task_id.as_str(), ev.event_type), ("b", "task.completed"));
    assert_eq!(tasks[1].state, "completed");
    assert_eq!(tasks[0].state, "running");
    assert!(sync_tasks_from_turn_event(&mut tasks, Some("t3"), TurnEventType::TurnStarted).is_none());
    assert_eq!(tasks[2].state, "completed");
    assert!(sync_tasks_from_turn_event(&mut tasks, None, TurnEventType::TurnFailed).is_none());
    assert!(sync_tasks_from_turn_event(&mut tasks, Some("t9"), TurnEventType::TurnFailed).is_none());
    assert!(sync_tasks_from_turn_event(&mut tasks, Some("t1"), TurnEventType::Other).is_none());
    assert_eq!(tasks[0].state, "running");
}

#[test]
fn user_cancellation_is_terminal() {
    let c = user_cancellation();
    assert_eq!((c.state, c.event_type, c.reason), ("cancelled", "task.cancelled", "cancelled by user"));
    assert!(is_terminal_task_state(c.state));
}

fn dag_metadata(text: &str, client: &str) -> String {
    let doc = llmparty::json::parse_json(text).unwrap();
    llmparty::tasks::dag_task_metadata(&doc, client)
}

#[test]
fn dag_task_metadata_extends_an_object() {
    assert_eq!(
        dag_metadata("{\"a\":1}", "pi"),
        "{\"a\":1,\"dag_managed\":true,\"mode\":\"dag\",\"planner_client_type\":\"pi\"}"
    );
    assert_eq!(
        dag_metadata(" { } ", "codex"),
        "{ \"dag_managed\":true,\"mode\":\"dag\",\"planner_client_type\":\"codex\"}"
    );
    let merged: serde_json::Value =
        serde_json::from_str(&dag_metadata("{\"mode\":\"single\",\"k\":[1]}", "claude_code")).unwrap();
    assert_eq!(merged["mode"], serde_json::Value::String("dag".to_string()));
    assert_eq!(merged["dag_managed"], serde_json::Value::Bool(true));
    assert_eq!(merged["planner_client_type"], serde_json::Value::String("claude_code".to_string()));
    assert_eq!(merged["k"][0], serde_json::Value::from(1));
}

#[test]
fn dag_task_metadata_wraps_other_values() {
    assert_eq!(
        dag_metadata("[1,2]", "generic"),
        "{\"dag_managed\":true,\"mode\":\"dag\",\"original_metadata\":[1,2],\"planner_client_type\":\"generic\"}"
    );
    let wrapped: serde_json::Value = serde_json::from_str(&dag_metadata("null", "pi")).unwrap();
    assert_eq!(wrapped["original_metadata"], serde_json::Value::Null);
    assert_eq!(wrapped["mode"], serde_json::Value::String("dag".to_string()));
}
