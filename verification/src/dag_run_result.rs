//! What a turn lifecycle event means for the DAG work item run behind the
//! turn: the run's result, the signals it raises, and the task state that the
//! required work items add up to.
use vstd::prelude::*;
use vstd::string::*;

use crate::text::{cat, owned, text_eq};

verus! {

/// The lifecycle events of a turn.
#[derive(Debug, Clone, Copy, PartialEq, Eq, Structural)]
pub enum TurnEventType {
    TurnStarted,
    TurnCompleted,
    TurnFailed,
    TurnCancelled,
    TurnInterrupted,
    Other,
}

/// The wire name of a turn lifecycle event.
pub open spec fn spec_event_type_text(t: TurnEventType) -> Seq<char> {
    match t {
        TurnEventType::TurnStarted => "turn.started"@,
        TurnEventType::TurnCompleted => "turn.completed"@,
        TurnEventType::TurnFailed => "turn.failed"@,
        TurnEventType::TurnCancelled => "turn.cancelled"@,
        TurnEventType::TurnInterrupted => "turn.interrupted"@,
        TurnEventType::Other => "turn.other"@,
    }
}

/// The wire name of a turn lifecycle event.
pub fn event_type_text(t: TurnEventType) -> (r: &'static str)
    ensures
        r@ == spec_event_type_text(t),
{
    match t {
        TurnEventType::TurnStarted => "turn.started",
        TurnEventType::TurnCompleted => "turn.completed",
        TurnEventType::TurnFailed => "turn.failed",
        TurnEventType::TurnCancelled => "turn.cancelled",
        TurnEventType::TurnInterrupted => "turn.interrupted",
        TurnEventType::Other => "turn.other",
    }
}

/// The text fields of a turn event payload that results are read from; each
/// holds the string at its path when there is one.
#[derive(Debug)]
pub struct TurnPayloadFacts {
    /// `output.summary`
    pub output_summary_nested: Option<String>,
    /// `output_summary`
    pub output_summary: Option<String>,
    /// `summary`
    pub summary: Option<String>,
    /// `output.text`
    pub output_text: Option<String>,
    /// `output.content`
    pub output_content: Option<String>,
    /// `output`, when it is itself a string
    pub output: Option<String>,
    /// `failure.message`
    pub failure_message: Option<String>,
    /// `message`
    pub message: Option<String>,
}

/// The text of `a` when present, else `rest`.
pub open spec fn or_next(a: Option<String>, rest: Option<Seq<char>>) -> Option<Seq<char>> {
    match a {
        Some(t) => Some(t@),
        None => rest,
    }
}

/// The summary of a terminal turn: the first of `output.summary`,
/// `output_summary`, `summary`, `output.text`, `output.content` and `output`.
pub open spec fn spec_terminal_summary(p: TurnPayloadFacts) -> Option<Seq<char>> {
    or_next(
        p.output_summary_nested,
        or_next(
            p.output_summary,
            or_next(p.summary, or_next(p.output_text, or_next(p.output_content, or_next(p.output, None)))),
        ),
    )
}

fn pick(o: &Option<String>) -> (r: Option<String>)
    ensures
        r == *o,
{
    match o {
        Some(t) => Some(t.clone()),
        None => None,
    }
}

/// The summary of a terminal turn's payload, if it has one.
pub fn terminal_summary(payload: &TurnPayloadFacts) -> (r: Option<String>)
    ensures
        crate::config::opt_view(r) == spec_terminal_summary(*payload),
{
    if payload.output_summary_nested.is_some() {
        return pick(&payload.output_summary_nested);
    }
    if payload.output_summary.is_some() {
        return pick(&payload.output_summary);
    }
    if payload.summary.is_some() {
        return pick(&payload.summary);
    }
    if payload.output_text.is_some() {
        return pick(&payload.output_text);
    }
    if payload.output_content.is_some() {
        return pick(&payload.output_content);
    }
    pick(&payload.output)
}

/// The summary of a failed turn: `failure.message`, else `message`, else
/// `turn failed`.
pub open spec fn spec_failure_summary(p: TurnPayloadFacts) -> Seq<char> {
    match p.failure_message {
        Some(m) => m@,
        None => match p.message {
            Some(m) => m@,
            None => "turn failed"@,
        },
    }
}

/// The summary of a failed turn's payload.
pub fn failure_summary(payload: &TurnPayloadFacts) -> (r: String)
    ensures
        r@ == spec_failure_summary(*payload),
{
    match &payload.failure_message {
        Some(m) => m.clone(),
        None => match &payload.message {
            Some(m) => m.clone(),
            None => String::from_str("turn failed"),
        },
    }
}

/// The result states an agent may report; anything else counts as `completed`.
pub open spec fn spec_normalize_result_status(status: Seq<char>) -> Seq<char> {
    if status == "completed"@ || status == "failed"@ || status == "blocked"@ || status
        == "needs_input"@ {
        status
    } else {
        "completed"@
    }
}

/// Normalizes a reported result status.
pub fn normalize_result_status(status: &str) -> (r: String)
    ensures
        r@ == spec_normalize_result_status(status@),
{
    if text_eq(status, "completed") || text_eq(status, "failed") || text_eq(status, "blocked")
        || text_eq(status, "needs_input") {
        owned(status)
    } else {
        String::from_str("completed")
    }
}

/// The signal severities; anything else counts as `medium`.
pub open spec fn spec_normalize_severity(severity: Seq<char>) -> Seq<char> {
    if severity == "low"@ || severity == "medium"@ || severity == "high"@ {
        severity
    } else {
        "medium"@
    }
}

/// Normalizes a reported signal severity.
pub fn normalize_severity(severity: &str) -> (r: String)
    ensures
        r@ == spec_normalize_severity(severity@),
{
    if text_eq(severity, "low") || text_eq(severity, "medium") || text_eq(severity, "high") {
        owned(severity)
    } else {
        String::from_str("medium")
    }
}

/// The run states after which a run takes no further result.
pub open spec fn spec_is_terminal_run_state(state: Seq<char>) -> bool {
    state == "completed"@ || state == "failed"@ || state == "blocked"@ || state == "needs_input"@
        || state == "cancelled"@
}

/// The run is finished.
pub fn is_terminal_run_state(state: &str) -> (r: bool)
    ensures
        r == spec_is_terminal_run_state(state@),
{
    text_eq(state, "completed") || text_eq(state, "failed") || text_eq(state, "blocked") || text_eq(
        state,
        "needs_input",
    ) || text_eq(state, "cancelled")
}

/// Every normalized result status finishes a run, and normalizing twice is
/// normalizing once.
pub proof fn lemma_normalized_status_is_terminal(status: Seq<char>)
    ensures
        spec_is_terminal_run_state(spec_normalize_result_status(status)),
        spec_normalize_result_status(spec_normalize_result_status(status))
            == spec_normalize_result_status(status),
{
}

/// Normalizing a severity twice is normalizing it once, and the result is one
/// of `low`, `medium`, `high`.
pub proof fn lemma_normalized_severity_is_stable(severity: Seq<char>)
    ensures
        spec_normalize_severity(spec_normalize_severity(severity)) == spec_normalize_severity(
            severity,
        ),
        spec_normalize_severity(severity) == "low"@ || spec_normalize_severity(severity)
            == "medium"@ || spec_normalize_severity(severity) == "high"@,
{
}

/// A signal an agent raises.
#[derive(Debug)]
pub struct RaiseSignalPayload {
    pub kind: String,
    pub summary: String,
    pub detail: Option<String>,
    pub severity: String,
    pub related_refs: serde_json::Value,
}

/// The failure a run result records: a message of the control plane, or the
/// failure value an agent reported.
#[derive(Debug)]
pub enum RunFailure {
    Message(String),
    Reported(serde_json::Value),
}

/// The result an agent submits for a run.
#[derive(Debug)]
pub struct SubmitResultPayload {
    pub status: String,
    pub summary: String,
    pub failure: Option<serde_json::Value>,
    pub signals: Vec<RaiseSignalPayload>,
}

/// The result a run ends with.
#[derive(Debug)]
pub struct ParsedRunResult {
    pub state: String,
    pub summary: String,
    pub failure: Option<RunFailure>,
    pub signals: Vec<RaiseSignalPayload>,
}

/// The run result a submitted payload stands for: its status normalized, the
/// rest as submitted.
pub open spec fn result_of_payload(r: ParsedRunResult, payload: SubmitResultPayload) -> bool {
    &&& r.state@ == spec_normalize_result_status(payload.status@)
    &&& r.summary == payload.summary
    &&& r.signals == payload.signals
    &&& match payload.failure {
        Some(v) => r.failure == Some(RunFailure::Reported(v)),
        None => r.failure is None,
    }
}

/// The run result a submitted payload stands for (see `result_of_payload`).
pub fn parsed_payload_to_result(payload: SubmitResultPayload) -> (r: ParsedRunResult)
    ensures
        result_of_payload(r, payload),
{
    let state = normalize_result_status(payload.status.as_str());
    let failure = match payload.failure {
        Some(v) => Some(RunFailure::Reported(v)),
        None => None,
    };
    ParsedRunResult { state, summary: payload.summary, failure, signals: payload.signals }
}

/// The result of a completed turn: the payload read as a submitted result;
/// else its `output` read as one; else its summary text (or, without one, the
/// payload's JSON text) read as one; else a `completed` result whose summary is
/// that text.
///
/// `direct`, `nested` and `from_text` are the three readings; `text` is the
/// text the last reading was made from.
pub fn completed_result(
    direct: Option<SubmitResultPayload>,
    nested: Option<SubmitResultPayload>,
    text: String,
    from_text: Option<SubmitResultPayload>,
) -> (r: ParsedRunResult)
    ensures
        match (direct, nested, from_text) {
            (Some(p), _, _) => result_of_payload(r, p),
            (None, Some(p), _) => result_of_payload(r, p),
            (None, None, Some(p)) => result_of_payload(r, p),
            (None, None, None) => r.state@ == "completed"@ && r.summary == text && r.failure is None
                && r.signals@.len() == 0,
        },
{
    match direct {
        Some(p) => parsed_payload_to_result(p),
        None => match nested {
            Some(p) => parsed_payload_to_result(p),
            None => match from_text {
                Some(p) => parsed_payload_to_result(p),
                None => ParsedRunResult {
                    state: String::from_str("completed"),
                    summary: text,
                    failure: None,
                    signals: Vec::new(),
                },
            },
        },
    }
}

/// What a turn event does to the run behind the turn.
#[derive(Debug)]
pub enum RunEventAction {
    /// Mark the run (and its work item) running.
    MarkStarted,
    /// Finish the run with the result of a completed turn.
    Complete,
    /// Finish the run with this result.
    Finish(ParsedRunResult),
    /// Nothing to do.
    Ignore,
}

/// What a turn event does to its run: a start marks it running, a completion
/// finishes it with the submitted result, a failure with a `failed` result
/// whose summary is the failure summary, a cancellation or interruption with a
/// `cancelled` result whose summary is the terminal summary (or the event's
/// name); other events do nothing.
pub fn run_event_action(event_type: TurnEventType, payload: &TurnPayloadFacts) -> (r: RunEventAction)
    ensures
        event_type == TurnEventType::TurnStarted ==> r is MarkStarted,
        event_type == TurnEventType::TurnCompleted ==> r is Complete,
        event_type == TurnEventType::Other ==> r is Ignore,
        event_type == TurnEventType::TurnFailed ==> (r matches RunEventAction::Finish(res)
            && res.state@ == "failed"@ && res.summary@ == spec_failure_summary(*payload)
            && (res.failure matches Some(RunFailure::Message(m)) && m@ == spec_failure_summary(
            *payload,
        )) && res.signals@.len() == 0),
        (event_type == TurnEventType::TurnCancelled || event_type
            == TurnEventType::TurnInterrupted) ==> (r matches RunEventAction::Finish(res)
            && res.state@ == "cancelled"@ && res.summary@ == (match spec_terminal_summary(
            *payload,
        ) {
            Some(s) => s,
            None => spec_event_type_text(event_type),
        }) && res.failure is None && res.signals@.len() == 0),
{
    match event_type {
        TurnEventType::TurnStarted => RunEventAction::MarkStarted,
        TurnEventType::TurnCompleted => RunEventAction::Complete,
        TurnEventType::TurnFailed => {
            let summary = failure_summary(payload);
            let message = summary.clone();
            RunEventAction::Finish(
                ParsedRunResult {
                    state: String::from_str("failed"),
                    summary,
                    failure: Some(RunFailure::Message(message)),
                    signals: Vec::new(),
                },
            )
        },
        TurnEventType::TurnCancelled | TurnEventType::TurnInterrupted => {
            let summary = match terminal_summary(payload) {
                Some(s) => s,
                None => String::from_str(event_type_text(event_type)),
            };
            RunEventAction::Finish(
                ParsedRunResult {
                    state: String::from_str("cancelled"),
                    summary,
                    failure: None,
                    signals: Vec::new(),
                },
            )
        },
        TurnEventType::Other => RunEventAction::Ignore,
    }
}

/// The reason a work item is held: the summary of a blocked, needs-input or
/// cancelled result.
pub fn blocked_reason(state: &str, summary: &str) -> (r: Option<String>)
    ensures
        match r {
            Some(t) => (state@ == "blocked"@ || state@ == "needs_input"@ || state@ == "cancelled"@)
                && t@ == summary@,
            None => !(state@ == "blocked"@ || state@ == "needs_input"@ || state@ == "cancelled"@),
        },
{
    if text_eq(state, "blocked") || text_eq(state, "needs_input") || text_eq(state, "cancelled") {
        Some(owned(summary))
    } else {
        None
    }
}

/// A signal of this kind asks for the DAG to be replanned.
pub fn is_replan_signal(kind: &str) -> (r: bool)
    ensures
        r == (kind@ == "replan_requested"@),
{
    text_eq(kind, "replan_requested")
}

/// What follows a finished run.
#[derive(Debug, Clone, Copy, PartialEq, Eq, Structural)]
pub enum RunFollowUp {
    /// Start replanning for each replan signal, and nothing else.
    Replan,
    /// Schedule the next work items, then aggregate the task state.
    ScheduleThenAggregate,
    /// Aggregate the task state.
    Aggregate,
}

/// What follows a finished run: replanning when it raised a replan signal,
/// scheduling when it completed, and the task state aggregation otherwise.
pub fn run_follow_up(raised_replan: bool, state: &str) -> (r: RunFollowUp)
    ensures
        r == (if raised_replan {
            RunFollowUp::Replan
        } else if state@ == "completed"@ {
            RunFollowUp::ScheduleThenAggregate
        } else {
            RunFollowUp::Aggregate
        }),
{
    if raised_replan {
        RunFollowUp::Replan
    } else if text_eq(state, "completed") {
        RunFollowUp::ScheduleThenAggregate
    } else {
        RunFollowUp::Aggregate
    }
}

/// A signal a run result records: its kind, summary and detail as raised,
/// its severity normalized, and whether it asks for replanning.
#[derive(Debug)]
pub struct PlannedSignal {
    pub kind: String,
    pub summary: String,
    pub detail: Option<String>,
    pub severity: String,
    pub replan: bool,
}

/// The value of a planned signal.
pub open spec fn planned_signal_of(p: PlannedSignal, s: RaiseSignalPayload) -> bool {
    &&& p.kind@ == s.kind@
    &&& p.summary@ == s.summary@
    &&& p.detail == s.detail
    &&& p.severity@ == spec_normalize_severity(s.severity@)
    &&& p.replan == (s.kind@ == "replan_requested"@)
}

/// What finishing a run with a result records and does next.
#[derive(Debug)]
pub struct TerminalPlan {
    /// The reason the work item is held, for a blocked, needs-input or
    /// cancelled result.
    pub blocked_reason: Option<String>,
    /// The signals to record, one per signal of the result, in order.
    pub signals: Vec<PlannedSignal>,
    /// What follows.
    pub follow_up: RunFollowUp,
}

/// How a run in state `run_state` is finished with `result`: not at all when
/// the run is already finished; otherwise the work item is held for a
/// blocked, needs-input or cancelled result, each signal of the result is
/// recorded with its severity normalized, and replanning follows a replan
/// signal, scheduling a completed result, and aggregation anything else.
pub fn plan_terminal(run_state: &str, result: &ParsedRunResult) -> (r: Option<TerminalPlan>)
    ensures
        r is None <==> spec_is_terminal_run_state(run_state@),
        r matches Some(p) ==> {
            &&& (p.blocked_reason matches Some(t) ==> t@ == result.summary@)
            &&& (p.blocked_reason is Some <==> (result.state@ == "blocked"@ || result.state@
                == "needs_input"@ || result.state@ == "cancelled"@))
            &&& p.signals@.len() == result.signals@.len()
            &&& forall|k: int| 0 <= k < p.signals@.len() ==> planned_signal_of(#[trigger] p.signals@[k], result.signals@[k])
            &&& p.follow_up == (if exists|k: int| 0 <= k < result.signals@.len() && #[trigger] result.signals@[k].kind@ == "replan_requested"@ {
                RunFollowUp::Replan
            } else if result.state@ == "completed"@ {
                RunFollowUp::ScheduleThenAggregate
            } else {
                RunFollowUp::Aggregate
            })
        },
{
    if is_terminal_run_state(run_state) {
        return None;
    }
    let blocked = blocked_reason(result.state.as_str(), result.summary.as_str());
    let mut signals: Vec<PlannedSignal> = Vec::new();
    let mut any_replan = false;
    let mut i: usize = 0;
    while i < result.signals.len()
        invariant
            i <= result.signals.len(),
            signals@.len() == i,
            forall|k: int| 0 <= k < i ==> planned_signal_of(#[trigger] signals@[k], result.signals@[k]),
            any_replan == exists|k: int| 0 <= k < i && #[trigger] result.signals@[k].kind@ == "replan_requested"@,
        decreases result.signals.len() - i,
    {
        let s = &result.signals[i];
        let replan = is_replan_signal(s.kind.as_str());
        let detail = match &s.detail {
            Some(d) => Some(d.clone()),
            None => None,
        };
        signals.push(
            PlannedSignal {
                kind: s.kind.clone(),
                summary: s.summary.clone(),
                detail,
                severity: normalize_severity(s.severity.as_str()),
                replan,
            },
        );
        any_replan = any_replan || replan;
        i += 1;
    }
    let follow_up = run_follow_up(any_replan, result.state.as_str());
    Some(TerminalPlan { blocked_reason: blocked, signals, follow_up })
}

/// Every state a run result can carry finishes the run: a normalized reported
/// status, `failed` and `cancelled`. So once a run is finished, later terminal
/// events for it are ignored (`plan_terminal` gives `None`).
pub proof fn lemma_result_states_finish_runs(status: Seq<char>)
    ensures
        spec_is_terminal_run_state(spec_normalize_result_status(status)),
        spec_is_terminal_run_state("failed"@),
        spec_is_terminal_run_state("cancelled"@),
{
}

/// The state of one active work item of a task, and whether it is optional.
#[derive(Debug)]
pub struct WorkItemStateRow {
    pub current_state: String,
    pub optional: bool,
}

/// The current states of the required work items.
pub open spec fn required_states(rows: Seq<WorkItemStateRow>) -> Seq<Seq<char>>
    decreases rows.len(),
{
    if rows.len() == 0 {
        Seq::empty()
    } else {
        let prev = required_states(rows.drop_last());
        if rows.last().optional {
            prev
        } else {
            prev.push(rows.last().current_state@)
        }
    }
}

/// The task state the states of its required work items add up to: none
/// without required work items; `completed` when all completed; else `failed`
/// when one failed; else `blocked` when one is blocked, needs input or was
/// cancelled; else `running`.
pub open spec fn spec_task_state_of(required: Seq<Seq<char>>) -> Option<Seq<char>> {
    if required.len() == 0 {
        None
    } else if forall|i: int| 0 <= i < required.len() ==> #[trigger] required[i] == "completed"@ {
        Some("completed"@)
    } else if exists|i: int| 0 <= i < required.len() && #[trigger] required[i] == "failed"@ {
        Some("failed"@)
    } else if exists|i: int|
        0 <= i < required.len() && (#[trigger] required[i] == "blocked"@ || required[i]
            == "needs_input"@ || required[i] == "cancelled"@) {
        Some("blocked"@)
    } else {
        Some("running"@)
    }
}

/// The task state the active work items of a task add up to.
pub fn aggregate_task_state(rows: &Vec<WorkItemStateRow>) -> (r: Option<&'static str>)
    ensures
        match r {
            Some(t) => spec_task_state_of(required_states(rows@)) == Some(t@),
            None => spec_task_state_of(required_states(rows@)) is None,
        },
{
    let mut count: usize = 0;
    let mut all_completed = true;
    let mut any_failed = false;
    let mut any_held = false;
    let mut i: usize = 0;
    let ghost mut req: Seq<Seq<char>> = Seq::empty();
    assert(rows@.take(0) =~= Seq::<WorkItemStateRow>::empty());
    while i < rows.len()
        invariant
            i <= rows.len(),
            req == required_states(rows@.take(i as int)),
            count == req.len(),
            count <= i,
            all_completed == (forall|k: int| 0 <= k < req.len() ==> #[trigger] req[k] == "completed"@),
            any_failed == (exists|k: int| 0 <= k < req.len() && #[trigger] req[k] == "failed"@),
            any_held == (exists|k: int|
                0 <= k < req.len() && (#[trigger] req[k] == "blocked"@ || req[k] == "needs_input"@
                    || req[k] == "cancelled"@)),
        decreases rows.len() - i,
    {
        assert(rows@.take(i + 1).drop_last() =~= rows@.take(i as int));
        let row = &rows[i];
        if !row.optional {
            let s = row.current_state.as_str();
            let c = text_eq(s, "completed");
            let f = text_eq(s, "failed");
            let h = text_eq(s, "blocked") || text_eq(s, "needs_input") || text_eq(s, "cancelled");
            let ghost old_req = req;
            proof {
                req = req.push(row.current_state@);
            }
            assert(forall|k: int| 0 <= k < old_req.len() ==> req[k] == old_req[k]);
            assert(req[old_req.len() as int] == row.current_state@);
            all_completed = all_completed && c;
            any_failed = any_failed || f;
            any_held = any_held || h;
            count += 1;
        }
        i += 1;
    }
    assert(rows@.take(rows.len() as int) =~= rows@);
    if count == 0 {
        None
    } else if all_completed {
        Some("completed")
    } else if any_failed {
        Some("failed")
    } else if any_held {
        Some("blocked")
    } else {
        Some("running")
    }
}

proof fn lemma_required_states_members(rows: Seq<WorkItemStateRow>)
    ensures
        forall|k: int|
            0 <= k < rows.len() && !(#[trigger] rows[k]).optional ==> required_states(rows).contains(
                rows[k].current_state@,
            ),
        forall|j: int|
            #![trigger required_states(rows)[j]]
            0 <= j < required_states(rows).len() ==> exists|k: int|
                0 <= k < rows.len() && !(#[trigger] rows[k]).optional && rows[k].current_state@
                    == required_states(rows)[j],
    decreases rows.len(),
{
    if rows.len() > 0 {
        let init = rows.drop_last();
        lemma_required_states_members(init);
        let prev = required_states(init);
        let req = required_states(rows);
        assert forall|k: int| 0 <= k < rows.len() && !(#[trigger] rows[k]).optional implies req.contains(
            rows[k].current_state@,
        ) by {
            if k < rows.len() - 1 {
                assert(init[k] == rows[k]);
                let j = choose|j: int| 0 <= j < prev.len() && prev[j] == rows[k].current_state@;
                assert(req[j] == prev[j]);
            } else {
                assert(req[req.len() - 1] == rows[k].current_state@);
            }
        }
        assert forall|j: int| #![trigger req[j]] 0 <= j < req.len() implies exists|k: int|
            0 <= k < rows.len() && !(#[trigger] rows[k]).optional && rows[k].current_state@ == req[j] by {
            if j < prev.len() {
                assert(req[j] == prev[j]);
                let k = choose|k: int|
                    0 <= k < init.len() && !(#[trigger] init[k]).optional && init[k].current_state@ == prev[j];
                assert(rows[k] == init[k]);
            } else {
                assert(!rows.last().optional);
                assert(rows[rows.len() - 1] == rows.last());
            }
        }
    }
}

/// How a task's state follows from its required (non-optional) work items:
/// none without any; `completed` when every one completed; `failed` when one
/// failed; otherwise `blocked` when one is blocked, needs input or was
/// cancelled; and `running` when one is unfinished and none of these holds.
pub proof fn lemma_aggregate_task_state(rows: Seq<WorkItemStateRow>)
    ensures
        (forall|k: int| 0 <= k < rows.len() ==> (#[trigger] rows[k]).optional) <==> spec_task_state_of(
            required_states(rows),
        ) is None,
        (exists|k: int| 0 <= k < rows.len() && !(#[trigger] rows[k]).optional) && (forall|k: int|
            0 <= k < rows.len() && !(#[trigger] rows[k]).optional ==> rows[k].current_state@
                == "completed"@) ==> spec_task_state_of(required_states(rows)) == Some("completed"@),
        (exists|k: int|
            0 <= k < rows.len() && !(#[trigger] rows[k]).optional && rows[k].current_state@ == "failed"@)
            ==> spec_task_state_of(required_states(rows)) == Some("failed"@),
        (exists|k: int|
            0 <= k < rows.len() && !(#[trigger] rows[k]).optional && (rows[k].current_state@
                == "blocked"@ || rows[k].current_state@ == "needs_input"@ || rows[k].current_state@
                == "cancelled"@)) && (forall|k: int|
            0 <= k < rows.len() && !(#[trigger] rows[k]).optional ==> rows[k].current_state@
                != "failed"@) ==> spec_task_state_of(required_states(rows)) == Some("blocked"@),
        (exists|k: int|
            0 <= k < rows.len() && !(#[trigger] rows[k]).optional && rows[k].current_state@
                != "completed"@) && (forall|k: int|
            0 <= k < rows.len() && !(#[trigger] rows[k]).optional ==> rows[k].current_state@ != "failed"@
                && rows[k].current_state@ != "blocked"@ && rows[k].current_state@ != "needs_input"@
                && rows[k].current_state@ != "cancelled"@) ==> spec_task_state_of(required_states(rows))
            == Some("running"@),
{
    reveal_strlit("completed");
    reveal_strlit("failed");
    reveal_strlit("blocked");
    reveal_strlit("needs_input");
    reveal_strlit("cancelled");
    assert("completed"@[0] != "failed"@[0]);
    assert("completed"@[0] != "blocked"@[0]);
    assert("completed"@[0] != "needs_input"@[0]);
    assert("completed"@[1] != "cancelled"@[1]);
    lemma_required_states_members(rows);
    let req = required_states(rows);
    if forall|k: int| 0 <= k < rows.len() ==> (#[trigger] rows[k]).optional {
        if req.len() > 0 {
            let k = choose|k: int|
                0 <= k < rows.len() && !(#[trigger] rows[k]).optional && rows[k].current_state@ == req[0];
            assert(false);
        }
    } else {
        let k = choose|k: int| 0 <= k < rows.len() && !(#[trigger] rows[k]).optional;
        assert(req.contains(rows[k].current_state@));
    }
    if exists|k: int| 0 <= k < rows.len() && !(#[trigger] rows[k]).optional {
        let k0 = choose|k: int| 0 <= k < rows.len() && !(#[trigger] rows[k]).optional;
        assert(req.contains(rows[k0].current_state@));
        if forall|k: int| 0 <= k < rows.len() && !(#[trigger] rows[k]).optional ==> rows[k].current_state@
            == "completed"@ {
            assert forall|i: int| 0 <= i < req.len() implies #[trigger] req[i] == "completed"@ by {
                let k = choose|k: int|
                    0 <= k < rows.len() && !(#[trigger] rows[k]).optional && rows[k].current_state@ == req[i];
            }
        }
    }
    if exists|k: int|
        0 <= k < rows.len() && !(#[trigger] rows[k]).optional && rows[k].current_state@ != "completed"@ {
        let k = choose|k: int|
            0 <= k < rows.len() && !(#[trigger] rows[k]).optional && rows[k].current_state@ != "completed"@;
        let i = choose|i: int| 0 <= i < req.len() && req[i] == rows[k].current_state@;
        assert(req[i] != "completed"@);
        if forall|k: int| 0 <= k < rows.len() && !(#[trigger] rows[k]).optional ==> rows[k].current_state@
            != "failed"@ {
            assert forall|i: int| 0 <= i < req.len() implies #[trigger] req[i] != "failed"@ by {
                let k = choose|k: int|
                    0 <= k < rows.len() && !(#[trigger] rows[k]).optional && rows[k].current_state@ == req[i];
            }
        }
        if forall|k: int| 0 <= k < rows.len() && !(#[trigger] rows[k]).optional ==> rows[k].current_state@
            != "failed"@ && rows[k].current_state@ != "blocked"@ && rows[k].current_state@ != "needs_input"@
            && rows[k].current_state@ != "cancelled"@ {
            assert forall|i: int| 0 <= i < req.len() implies !(#[trigger] req[i] == "blocked"@ || req[i]
                == "needs_input"@ || req[i] == "cancelled"@) by {
                let k = choose|k: int|
                    0 <= k < rows.len() && !(#[trigger] rows[k]).optional && rows[k].current_state@ == req[i];
            }
        }
    }
    if exists|k: int|
        0 <= k < rows.len() && !(#[trigger] rows[k]).optional && rows[k].current_state@ == "failed"@ {
        let k = choose|k: int|
            0 <= k < rows.len() && !(#[trigger] rows[k]).optional && rows[k].current_state@ == "failed"@;
        let i = choose|i: int| 0 <= i < req.len() && req[i] == rows[k].current_state@;
        assert(req[i] == "failed"@);
        assert(req[i] != "completed"@);
    }
    if exists|k: int|
        0 <= k < rows.len() && !(#[trigger] rows[k]).optional && (rows[k].current_state@ == "blocked"@
            || rows[k].current_state@ == "needs_input"@ || rows[k].current_state@ == "cancelled"@) {
        let k = choose|k: int|
            0 <= k < rows.len() && !(#[trigger] rows[k]).optional && (rows[k].current_state@ == "blocked"@
                || rows[k].current_state@ == "needs_input"@ || rows[k].current_state@ == "cancelled"@);
        let i = choose|i: int| 0 <= i < req.len() && req[i] == rows[k].current_state@;
        assert(req[i] != "completed"@);
        assert(req[i] == "blocked"@ || req[i] == "needs_input"@ || req[i] == "cancelled"@);
        if forall|k: int| 0 <= k < rows.len() && !(#[trigger] rows[k]).optional ==> rows[k].current_state@
            != "failed"@ {
            assert forall|i: int| 0 <= i < req.len() implies #[trigger] req[i] != "failed"@ by {
                let k = choose|k: int|
                    0 <= k < rows.len() && !(#[trigger] rows[k]).optional && rows[k].current_state@ == req[i];
            }
        }
    }
}

/// The task event recorded for an aggregated task state.
pub fn aggregate_event_type(state: &str) -> (r: &'static str)
    ensures
        r@ == (if state@ == "completed"@ {
            "task.completed"@
        } else if state@ == "failed"@ {
            "task.failed"@
        } else if state@ == "blocked"@ {
            "task.blocked"@
        } else {
            "task.running"@
        }),
{
    if text_eq(state, "completed") {
        "task.completed"
    } else if text_eq(state, "failed") {
        "task.failed"
    } else if text_eq(state, "blocked") {
        "task.blocked"
    } else {
        "task.running"
    }
}

/// A fresh time-ordered unique identifier (`Uuid::now_v7`) in its hyphenated
/// text form.
///
/// A lowercase hexadecimal digit.
pub open spec fn is_lower_hex(c: char) -> bool {
    ('0' <= c && c <= '9') || ('a' <= c && c <= 'f')
}

/// The hyphenated lowercase text of a version 7 UUID: 36 characters,
/// hyphens at offsets 8, 13, 18 and 23, hexadecimal digits elsewhere, the
/// version digit `7` at offset 14 and one of `8`, `9`, `a`, `b` (the RFC 4122
/// variant) at offset 19.
pub open spec fn uuid_v7_text(t: Seq<char>) -> bool {
    &&& t.len() == 36
    &&& forall|i: int|
        0 <= i < 36 ==> if i == 8 || i == 13 || i == 18 || i == 23 {
            t[i] == '-'
        } else {
            is_lower_hex(#[trigger] t[i])
        }
    &&& t[14] == '7'
    &&& (t[19] == '8' || t[19] == '9' || t[19] == 'a' || t[19] == 'b')
}

/// `uuid::Uuid::now_v7` rendered with `to_string`: a fresh version 7 UUID in
/// its hyphenated lowercase form (the crate's `Display` writes
/// `format_hyphenated` in lowercase, and `encode_unix_timestamp_millis` sets
/// the version and variant bits). Which UUID comes back depends on the clock
/// and on chance and is not stated.
#[verifier::external_body]
fn new_uuid_v7_text() -> (r: String)
    ensures
        uuid_v7_text(r@),
{
    uuid::Uuid::now_v7().to_string()
}

/// A fresh identifier `{prefix}_{uuid}` for records the run result creates,
/// where `uuid` is the text of a new version 7 UUID.
pub fn new_dag_run_result_id(prefix: &str) -> (r: String)
    ensures
        r@.len() == prefix@.len() + 37,
        r@.subrange(0, prefix@.len() + 1int) == prefix@ + "_"@,
        uuid_v7_text(r@.subrange(prefix@.len() + 1int, r@.len() as int)),
{
    let id = new_uuid_v7_text();
    let r = cat(prefix, "_").concat(id.as_str());
    proof {
        reveal_strlit("_");
        assert(r@.subrange(0, prefix@.len() + 1int) =~= prefix@ + "_"@);
        assert(r@.subrange(prefix@.len() + 1int, r@.len() as int) =~= id@);
    }
    r
}


/// Keeps DAG runs, work items and tasks in step with the turn events of the
/// runs' sessions.
pub struct DagRunResultService<P> {
    pool: P,
}

impl<P> DagRunResultService<P> {
    /// The pool the service writes.
    pub closed spec fn spec_pool(&self) -> P {
        self.pool
    }

    /// A service writing `pool`.
    pub fn new(pool: P) -> (r: Self)
        ensures
            r.spec_pool() == pool,
    {
        Self { pool }
    }

    /// The pool the service writes.
    pub fn pool(&self) -> (r: &P)
        ensures
            *r == self.spec_pool(),
    {
        &self.pool
    }
}

} // verus!
