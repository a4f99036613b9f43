use llmparty::dag_run_result::{
    aggregate_event_type, aggregate_task_state, blocked_reason, completed_result,
    failure_summary, is_replan_signal, is_terminal_run_state, new_dag_run_result_id,
    normalize_result_status, normalize_severity, parsed_payload_to_result, plan_terminal,
    run_event_action, ParsedRunResult, RaiseSignalPayload,
    run_follow_up, terminal_summary, RunEventAction, RunFailure, RunFollowUp,
    SubmitResultPayload, TurnEventType, TurnPayloadFacts, WorkItemStateRow,
};

fn payload() -> TurnPayloadFacts {
    TurnPayloadFacts {
        output_summary_nested: None,
        output_summary: None,
        summary: None,
        output_text: None,
        output_content: None,
        output: None,
        failure_message: None,
        message: None,
    }
}

fn submitted(status: &str) -> SubmitResultPayload {
    SubmitResultPayload {
        status: status.to_string(),
        summary: "done".to_string(),
        failure: None,
        signals: vec![],
    }
}

fn rows(states: &[(&str, bool)]) -> Vec<WorkItemStateRow> {
    states
        .iter()
        .map(|(s, optional)| WorkItemStateRow { current_state: s.to_string(), optional: *optional })
        .collect()
}

#[test]
fn result_status_and_severity_are_normalized() {
    assert_eq!(normalize_result_status("blocked"), "blocked");
    assert_eq!(normalize_result_status("weird"), "completed");
    assert_eq!(normalize_severity("high"), "high");
    assert_eq!(normalize_severity("urgent"), "medium");
    assert!(is_terminal_run_state(&normalize_result_status("anything")));
    assert!(is_terminal_run_state("cancelled"));
    assert!(!is_terminal_run_state("running"));
}

#[test]
fn summaries_prefer_the_first_present_field() {
    let mut p = payload();
    assert_eq!(terminal_summary(&p), None);
    p.output = Some("out".to_string());
    p.summary = Some("sum".to_string());
    assert_eq!(terminal_summary(&p), Some("sum".to_string()));
    assert_eq!(failure_summary(&p), "turn failed");
    p.message = Some("boom".to_string());
    assert_eq!(failure_summary(&p), "boom");
    p.failure_message = Some("crash".to_string());
    assert_eq!(failure_summary(&p), "crash");
}

#[test]
fn turn_events_decide_the_run_action() {
    let mut p = payload();
    p.message = Some("boom".to_string());
    assert!(matches!(run_event_action(TurnEventType::TurnStarted, &p), RunEventAction::MarkStarted));
    assert!(matches!(run_event_action(TurnEventType::TurnCompleted, &p), RunEventAction::Complete));
    assert!(matches!(run_event_action(TurnEventType::Other, &p), RunEventAction::Ignore));
    match run_event_action(TurnEventType::TurnFailed, &p) {
        RunEventAction::Finish(r) => {
            assert_eq!(r.state, "failed");
            assert_eq!(r.summary, "boom");
            assert!(matches!(r.failure, Some(RunFailure::Message(ref m)) if m == "boom"));
        }
        _ => panic!("expected a finished run"),
    }
    match run_event_action(TurnEventType::TurnInterrupted, &payload()) {
        RunEventAction::Finish(r) => {
            assert_eq!(r.state, "cancelled");
            assert_eq!(r.summary, "turn.interrupted");
            assert!(r.failure.is_none());
        }
        _ => panic!("expected a finished run"),
    }
}

#[test]
fn completed_results_try_each_reading_in_turn() {
    let r = completed_result(Some(submitted("weird")), Some(submitted("failed")), "t".to_string(), None);
    assert_eq!(r.state, "completed");
    assert_eq!(r.summary, "done");
    let r = completed_result(None, Some(submitted("failed")), "t".to_string(), None);
    assert_eq!(r.state, "failed");
    let r = completed_result(None, None, "plain text".to_string(), None);
    assert_eq!(r.state, "completed");
    assert_eq!(r.summary, "plain text");
    let r = parsed_payload_to_result(submitted("needs_input"));
    assert_eq!(r.state, "needs_input");
    assert!(r.failure.is_none());
}

#[test]
fn held_work_items_keep_the_summary_as_reason() {
    assert_eq!(blocked_reason("needs_input", "why"), Some("why".to_string()));
    assert_eq!(blocked_reason("completed", "why"), None);
    assert!(is_replan_signal("replan_requested"));
    assert_eq!(run_follow_up(true, "completed"), RunFollowUp::Replan);
    assert_eq!(run_follow_up(false, "completed"), RunFollowUp::ScheduleThenAggregate);
    assert_eq!(run_follow_up(false, "failed"), RunFollowUp::Aggregate);
}

#[test]
fn task_state_aggregates_required_work_items() {
    assert_eq!(aggregate_task_state(&rows(&[])), None);
    assert_eq!(aggregate_task_state(&rows(&[("failed", true)])), None);
    assert_eq!(aggregate_task_state(&rows(&[("completed", false), ("failed", true)])), Some("completed"));
    assert_eq!(aggregate_task_state(&rows(&[("completed", false), ("failed", false), ("blocked", false)])), Some("failed"));
    assert_eq!(aggregate_task_state(&rows(&[("cancelled", false), ("running", false)])), Some("blocked"));
    assert_eq!(aggregate_task_state(&rows(&[("ready", false), ("completed", false)])), Some("running"));
    assert_eq!(aggregate_event_type("blocked"), "task.blocked");
    assert_eq!(aggregate_event_type("running"), "task.running");
}

#[test]
fn run_result_ids_carry_their_prefix_and_a_uuid() {
    let a = new_dag_run_result_id("sig");
    let b = new_dag_run_result_id("sig");
    assert!(a.starts_with("sig_"));
    assert_eq!(a.len(), 40);
    assert_eq!(a.matches('-').count(), 4);
    assert_ne!(a, b);
    let u: Vec<char> = a["sig_".len()..].chars().collect();
    assert_eq!(u[8], '-');
    assert_eq!(u[13], '-');
    assert_eq!(u[14], '7');
    assert!(matches!(u[19], '8' | '9' | 'a' | 'b'));
    assert!(u.iter().all(|c| *c == '-' || c.is_ascii_digit() || ('a'..='f').contains(c)));
}

fn raised(kind: &str, severity: &str) -> RaiseSignalPayload {
    RaiseSignalPayload {
        kind: kind.to_string(),
        summary: "s".to_string(),
        detail: Some("d".to_string()),
        severity: severity.to_string(),
        related_refs: serde_json::Value::Null,
    }
}

#[test]
fn finishing_a_run_records_signals_and_picks_what_follows() {
    let result = ParsedRunResult {
        state: "needs_input".to_string(),
        summary: "waiting on keys".to_string(),
        failure: None,
        signals: vec![raised("blocker", "critical"), raised("replan_requested", "low")],
    };
    let plan = plan_terminal("running", &result).unwrap();
    assert_eq!(plan.blocked_reason.as_deref(), Some("waiting on keys"));
    assert_eq!(plan.signals.len(), 2);
    assert_eq!(plan.signals[0].severity, "medium");
    assert!(!plan.signals[0].replan);
    assert!(plan.signals[1].replan);
    assert_eq!(plan.follow_up, RunFollowUp::Replan);

    let done = ParsedRunResult {
        state: "completed".to_string(),
        summary: "ok".to_string(),
        failure: None,
        signals: vec![],
    };
    let plan = plan_terminal("queued", &done).unwrap();
    assert_eq!(plan.blocked_reason, None);
    assert_eq!(plan.follow_up, RunFollowUp::ScheduleThenAggregate);
    assert!(plan_terminal("completed", &done).is_none());
    assert!(plan_terminal(&done.state, &done).is_none());
}
