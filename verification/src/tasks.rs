//! Task commands: which requests a task accepts in which state, how a task
//! follows the lifecycle of its turn, and how planner outcomes are applied.
use vstd::prelude::*;
use vstd::string::*;

use crate::dag_run_result::TurnEventType;
use crate::error::{Error, ErrorV};
use crate::model::TaskView;
use crate::json::{json_at, json_string, json_string_text, json_value_at, JsonAt, JsonAtV, JsonDoc};
use crate::text::{
    blank, cat, cat3, chars_of, is_blank, owned, string_of_range, text_eq, trim, trim_bounds, trim_text,
};

verus! {

/// The task states a task never leaves.
pub open spec fn spec_is_terminal_task_state(state: Seq<char>) -> bool {
    state == "completed"@ || state == "failed"@ || state == "cancelled"@
}

/// The task is finished.
pub fn is_terminal_task_state(state: &str) -> (r: bool)
    ensures
        r == spec_is_terminal_task_state(state@),
{
    text_eq(state, "completed") || text_eq(state, "failed") || text_eq(state, "cancelled")
}

/// The agent clients a task may run on.
pub open spec fn spec_is_supported_client_type(client_type: Seq<char>) -> bool {
    client_type == "generic"@ || client_type == "pi"@ || client_type == "claude_code"@ || client_type
        == "codex"@
}

/// The client type can run tasks.
pub fn is_supported_client_type(client_type: &str) -> (r: bool)
    ensures
        r == spec_is_supported_client_type(client_type@),
{
    text_eq(client_type, "generic") || text_eq(client_type, "pi") || text_eq(client_type, "claude_code")
        || text_eq(client_type, "codex")
}

/// The error an unsupported client type is refused with.
pub open spec fn unsupported_client(client_type: Seq<char>) -> ErrorV {
    ErrorV::Domain("unsupported client_type: "@ + client_type)
}

/// A task may only run on a supported client.
pub fn check_client_type(client_type: &str) -> (r: Result<(), Error>)
    ensures
        r is Ok <==> spec_is_supported_client_type(client_type@),
        r matches Err(e) ==> e@ == unsupported_client(client_type@),
{
    if is_supported_client_type(client_type) {
        Ok(())
    } else {
        Err(Error::Domain(cat("unsupported client_type: ", client_type)))
    }
}

/// A DAG task needs a workspace (the trimmed value must not be empty) and a
/// supported client; the result is the trimmed workspace.
pub fn check_dag_task_request(workspace: Option<&str>, client_type: &str) -> (r: Result<String, Error>)
    ensures
        ({
            let w = match workspace {
                Some(x) => trim(x@),
                None => Seq::<char>::empty(),
            };
            match r {
                Ok(t) => t@ == w && w.len() > 0 && spec_is_supported_client_type(client_type@),
                Err(e) => if w.len() == 0 {
                    e@ == ErrorV::Domain("workspace is required for DAG tasks"@)
                } else {
                    !spec_is_supported_client_type(client_type@) && e@ == unsupported_client(
                        client_type@,
                    )
                },
            }
        }),
{
    let w = match workspace {
        Some(x) => trim_text(x),
        None => String::new(),
    };
    if w.as_str().unicode_len() == 0 {
        return Err(Error::Domain(String::from_str("workspace is required for DAG tasks")));
    }
    check_client_type(client_type)?;
    Ok(w)
}

/// The members a DAG task's metadata gains: `dag_managed` true, `mode`
/// `"dag"` and the planner's client.
pub open spec fn dag_members_text(client_type: Seq<char>) -> Seq<char> {
    "\"dag_managed\":true,\"mode\":\"dag\",\"planner_client_type\":"@ + json_string_text(client_type)
}

/// `u` is written as an object: between braces.
pub open spec fn braced(u: Seq<char>) -> bool {
    u.len() >= 2 && u[0] == '{' && u.last() == '}'
}

/// The metadata a DAG task is stored with, as JSON text. An object keeps its
/// members and gains the DAG members after them (a JSON object that repeats a
/// key keeps its last value, so these replace members of the same name); any
/// other value is kept whole as `original_metadata` beside the DAG members.
pub open spec fn dag_metadata_text(text: Seq<char>, is_object: bool, client_type: Seq<char>) -> Seq<char> {
    let u = trim(text);
    if is_object && braced(u) {
        let inner = u.subrange(1, u.len() - 1);
        u.drop_last() + (if is_blank(inner) { Seq::empty() } else { ","@ }) + dag_members_text(client_type)
            + "}"@
    } else {
        "{\"dag_managed\":true,\"mode\":\"dag\",\"original_metadata\":"@ + text
            + ",\"planner_client_type\":"@ + json_string_text(client_type) + "}"@
    }
}

/// The metadata a new DAG task is stored with: the request's metadata with
/// the DAG members merged in when it is an object, wrapped with them when it
/// is not.
pub fn dag_task_metadata(metadata: &JsonDoc, client_type: &str) -> (r: String)
    ensures
        r@ == dag_metadata_text(
            metadata@,
            json_value_at(metadata@, Seq::empty()) is Object,
            client_type@,
        ),
{
    proof {
        reveal_strlit("");
        assert(""@ =~= Seq::<char>::empty());
    }
    let is_object = match json_at(metadata, "") {
        JsonAt::Object => true,
        _ => false,
    };
    let text = metadata.text();
    let cs = chars_of(text);
    let (i, j) = trim_bounds(&cs);
    let q = json_string(client_type);
    let ghost u = trim(text@);
    if is_object && j - i >= 2 && cs[i] == '{' && cs[j - 1] == '}' {
        assert(u =~= cs@.subrange(i as int, j as int));
        let head = string_of_range(&cs, i, j - 1);
        let inner = string_of_range(&cs, i + 1, j - 1);
        assert(head@ =~= u.drop_last());
        assert(inner@ =~= u.subrange(1, u.len() - 1));
        let sep = if blank(inner.as_str()) {
            String::new()
        } else {
            String::from_str(",")
        };
        assert(sep@ == (if is_blank(u.subrange(1, u.len() - 1)) { Seq::empty() } else { ","@ }));
        head.concat(sep.as_str()).concat(
            "\"dag_managed\":true,\"mode\":\"dag\",\"planner_client_type\":",
        ).concat(q.as_str()).concat("}")
    } else {
        proof {
            if is_object && braced(u) {
                assert(u =~= cs@.subrange(i as int, j as int));
            }
        }
        String::from_str("{\"dag_managed\":true,\"mode\":\"dag\",\"original_metadata\":").concat(
            text,
        ).concat(",\"planner_client_type\":").concat(q.as_str()).concat("}")
    }
}

/// How a new task proceeds once it is recorded.
#[derive(Debug, Clone, Copy, PartialEq, Eq, Structural)]
pub enum NewTaskRoute {
    /// Dispatch it to the workspace it names.
    Dispatch,
    /// Ask the planner for a workspace.
    Plan,
    /// Wait for the user to confirm a workspace.
    AwaitConfirmation,
}

/// A task that names a workspace is dispatched; otherwise the planner routes
/// it when enabled, and the user is asked when not.
pub fn new_task_route(has_workspace: bool, planner_enabled: bool) -> (r: NewTaskRoute)
    ensures
        r == (if has_workspace {
            NewTaskRoute::Dispatch
        } else if planner_enabled {
            NewTaskRoute::Plan
        } else {
            NewTaskRoute::AwaitConfirmation
        }),
{
    if has_workspace {
        NewTaskRoute::Dispatch
    } else if planner_enabled {
        NewTaskRoute::Plan
    } else {
        NewTaskRoute::AwaitConfirmation
    }
}

/// The task is not yet dispatched and not finished.
pub open spec fn undispatched(task: TaskView) -> bool {
    task.turn_id is None && !spec_is_terminal_task_state(task.state@)
}

/// The error for a task that does not exist.
pub open spec fn task_not_found(task_id: Seq<char>) -> ErrorV {
    ErrorV::NotFound("task "@ + task_id + " not found"@)
}

/// The error for a task that was dispatched already or is finished.
pub open spec fn already_dispatched(task_id: Seq<char>) -> ErrorV {
    ErrorV::StateConflict("task "@ + task_id + " has already been dispatched or is terminal"@)
}

/// The task exists, or `NotFound`.
fn require_task<'a>(task: Option<&'a TaskView>, task_id: &str) -> (r: Result<&'a TaskView, Error>)
    ensures
        match r {
            Ok(t) => task == Some(t),
            Err(e) => task is None && e@ == task_not_found(task_id@),
        },
{
    match task {
        Some(t) => Ok(t),
        None => Err(Error::NotFound(cat3("task ", task_id, " not found"))),
    }
}

/// The task is neither dispatched nor finished.
fn require_undispatched(task: &TaskView, task_id: &str) -> (r: Result<(), Error>)
    ensures
        r is Ok <==> undispatched(*task),
        r matches Err(e) ==> e@ == already_dispatched(task_id@),
{
    if task.turn_id.is_some() || is_terminal_task_state(task.state.as_str()) {
        Err(Error::StateConflict(cat3("task ", task_id, " has already been dispatched or is terminal")))
    } else {
        Ok(())
    }
}

/// Whether planner input may resume the routing of a task.
pub open spec fn can_resume(task: TaskView) -> bool {
    task.state@ == "needs_confirmation"@ || task.routing_state@ == "ambiguous"@
        || task.routing_state@ == "failed"@ || task.routing_state@ == "pending"@
}

/// Which error planner input for a task is refused with, if any: an
/// unsupported client, a disabled planner, a missing task, a dispatched or
/// finished task, or a task whose routing is not waiting, in that order.
pub open spec fn spec_planner_input_error(
    task: Option<TaskView>,
    task_id: Seq<char>,
    client_type: Seq<char>,
    planner_enabled: bool,
) -> Option<ErrorV> {
    if !spec_is_supported_client_type(client_type) {
        Some(unsupported_client(client_type))
    } else if !planner_enabled {
        Some(ErrorV::StateConflict("planner is not enabled"@))
    } else {
        match task {
            None => Some(task_not_found(task_id)),
            Some(t) => if !undispatched(t) {
                Some(already_dispatched(task_id))
            } else if !can_resume(t) {
                Some(
                    ErrorV::StateConflict(
                        "task "@ + task_id + " cannot receive planner input from state "@ + t.state@,
                    ),
                )
            } else {
                None
            },
        }
    }
}

/// Decides whether planner input for a task is accepted.
pub fn check_planner_input(
    task: Option<&TaskView>,
    task_id: &str,
    client_type: &str,
    planner_enabled: bool,
) -> (r: Result<(), Error>)
    ensures
        match r {
            Ok(_) => spec_planner_input_error(
                match task {
                    Some(t) => Some(*t),
                    None => None,
                },
                task_id@,
                client_type@,
                planner_enabled,
            ) is None,
            Err(e) => spec_planner_input_error(
                match task {
                    Some(t) => Some(*t),
                    None => None,
                },
                task_id@,
                client_type@,
                planner_enabled,
            ) == Some(e@),
        },
{
    check_client_type(client_type)?;
    if !planner_enabled {
        return Err(Error::StateConflict(String::from_str("planner is not enabled")));
    }
    let t = require_task(task, task_id)?;
    require_undispatched(t, task_id)?;
    let resumable = text_eq(t.state.as_str(), "needs_confirmation") || text_eq(
        t.routing_state.as_str(),
        "ambiguous",
    ) || text_eq(t.routing_state.as_str(), "failed") || text_eq(t.routing_state.as_str(), "pending");
    if !resumable {
        return Err(
            Error::StateConflict(
                cat3("task ", task_id, " cannot receive planner input from state ").concat(
                    t.state.as_str(),
                ),
            ),
        );
    }
    Ok(())
}

/// Whether a workspace may be confirmed for a task.
pub open spec fn can_confirm(task: TaskView) -> bool {
    task.state@ == "needs_confirmation"@ || task.routing_state@ == "ambiguous"@
        || task.routing_state@ == "failed"@
}

/// Which error a workspace confirmation is refused with, if any: an
/// unsupported client, a missing task, a dispatched or finished task, or a
/// task that is not waiting for a workspace, in that order.
pub open spec fn spec_confirm_error(task: Option<TaskView>, task_id: Seq<char>, client_type: Seq<char>) -> Option<
    ErrorV,
> {
    if !spec_is_supported_client_type(client_type) {
        Some(unsupported_client(client_type))
    } else {
        match task {
            None => Some(task_not_found(task_id)),
            Some(t) => if !undispatched(t) {
                Some(already_dispatched(task_id))
            } else if !can_confirm(t) {
                Some(
                    ErrorV::StateConflict(
                        "task "@ + task_id + " cannot be workspace-confirmed from state "@ + t.state@,
                    ),
                )
            } else {
                None
            },
        }
    }
}

/// Decides whether a workspace confirmation for a task is accepted.
pub fn check_confirm_workspace(task: Option<&TaskView>, task_id: &str, client_type: &str) -> (r: Result<
    (),
    Error,
>)
    ensures
        match r {
            Ok(_) => spec_confirm_error(
                match task {
                    Some(t) => Some(*t),
                    None => None,
                },
                task_id@,
                client_type@,
            ) is None,
            Err(e) => spec_confirm_error(
                match task {
                    Some(t) => Some(*t),
                    None => None,
                },
                task_id@,
                client_type@,
            ) == Some(e@),
        },
{
    check_client_type(client_type)?;
    let t = require_task(task, task_id)?;
    require_undispatched(t, task_id)?;
    let confirmable = text_eq(t.state.as_str(), "needs_confirmation") || text_eq(
        t.routing_state.as_str(),
        "ambiguous",
    ) || text_eq(t.routing_state.as_str(), "failed");
    if !confirmable {
        return Err(
            Error::StateConflict(
                cat3("task ", task_id, " cannot be workspace-confirmed from state ").concat(
                    t.state.as_str(),
                ),
            ),
        );
    }
    Ok(())
}

/// The session and turn to interrupt for a task: it must exist, not be
/// finished, and have both.
pub fn interrupt_target(task: Option<&TaskView>, task_id: &str) -> (r: Result<(String, String), Error>)
    ensures
        match r {
            Ok((s, t)) => task matches Some(x) && !spec_is_terminal_task_state(x.state@)
                && x.session_id == Some(s) && x.turn_id == Some(t),
            Err(e) => match task {
                None => e@ == task_not_found(task_id@),
                Some(x) => if spec_is_terminal_task_state(x.state@) {
                    e@ == ErrorV::StateConflict("task "@ + task_id@ + " is already terminal"@)
                } else if x.session_id is None {
                    e@ == ErrorV::StateConflict("task "@ + task_id@ + " has no session to interrupt"@)
                } else {
                    x.turn_id is None && e@ == ErrorV::StateConflict(
                        "task "@ + task_id@ + " has no turn to interrupt"@,
                    )
                },
            },
        },
{
    let t = require_task(task, task_id)?;
    if is_terminal_task_state(t.state.as_str()) {
        return Err(Error::StateConflict(cat3("task ", task_id, " is already terminal")));
    }
    let session_id = match &t.session_id {
        Some(s) => s.clone(),
        None => return Err(Error::StateConflict(cat3("task ", task_id, " has no session to interrupt"))),
    };
    let turn_id = match &t.turn_id {
        Some(x) => x.clone(),
        None => return Err(Error::StateConflict(cat3("task ", task_id, " has no turn to interrupt"))),
    };
    Ok((session_id, turn_id))
}

/// How a task is cancelled.
#[derive(Debug, Clone, Copy, PartialEq, Eq, Structural)]
pub enum CancelAction {
    /// Interrupt its running turn.
    InterruptTurn,
    /// Mark it cancelled.
    MarkCancelled,
}

/// A task with a turn is cancelled by interrupting the turn; one without is
/// marked cancelled; a missing or finished task cannot be cancelled.
pub fn cancel_action(task: Option<&TaskView>, task_id: &str) -> (r: Result<CancelAction, Error>)
    ensures
        match r {
            Ok(a) => task matches Some(x) && !spec_is_terminal_task_state(x.state@) && a == (if x.turn_id
                is Some {
                CancelAction::InterruptTurn
            } else {
                CancelAction::MarkCancelled
            }),
            Err(e) => match task {
                None => e@ == task_not_found(task_id@),
                Some(x) => spec_is_terminal_task_state(x.state@) && e@ == ErrorV::StateConflict(
                    "task "@ + task_id@ + " is already terminal"@,
                ),
            },
        },
{
    let t = require_task(task, task_id)?;
    if is_terminal_task_state(t.state.as_str()) {
        return Err(Error::StateConflict(cat3("task ", task_id, " is already terminal")));
    }
    if t.turn_id.is_some() {
        Ok(CancelAction::InterruptTurn)
    } else {
        Ok(CancelAction::MarkCancelled)
    }
}

/// What marking a task cancelled records: the state it takes, the task event,
/// and the reason the event carries.
#[derive(Debug, Clone, Copy)]
pub struct Cancellation {
    pub state: &'static str,
    pub event_type: &'static str,
    pub reason: &'static str,
}

/// A task without a turn that its user cancels (see `cancel_action`) takes
/// state `cancelled`, a terminal state, and records `task.cancelled` with
/// reason `cancelled by user`.
pub fn user_cancellation() -> (r: Cancellation)
    ensures
        r.state@ == "cancelled"@,
        r.event_type@ == "task.cancelled"@,
        r.reason@ == "cancelled by user"@,
        spec_is_terminal_task_state(r.state@),
{
    let r = Cancellation { state: "cancelled", event_type: "task.cancelled", reason: "cancelled by user" };
    proof {
        reveal_strlit("cancelled");
        reveal_strlit("completed");
        reveal_strlit("failed");
    }
    r
}

/// The state a task takes, and the task event recorded, when its turn moves.
pub open spec fn spec_task_transition(current_state: Seq<char>, event: TurnEventType) -> Option<
    (Seq<char>, Seq<char>),
> {
    if spec_is_terminal_task_state(current_state) {
        None
    } else {
        match event {
            TurnEventType::TurnStarted => Some(("running"@, "task.running"@)),
            TurnEventType::TurnCompleted => Some(("completed"@, "task.completed"@)),
            TurnEventType::TurnFailed => Some(("failed"@, "task.failed"@)),
            TurnEventType::TurnInterrupted => Some(("cancelled"@, "task.cancelled"@)),
            TurnEventType::TurnCancelled => Some(("cancelled"@, "task.cancelled"@)),
            TurnEventType::Other => None,
        }
    }
}

/// How a task follows a lifecycle event of its turn: started runs it,
/// completed completes it, failed fails it, interrupted and cancelled cancel
/// it; a finished task does not move.
pub fn task_transition(current_state: &str, event: TurnEventType) -> (r: Option<(&'static str, &'static str)>)
    ensures
        match r {
            Some((s, e)) => spec_task_transition(current_state@, event) == Some((s@, e@)),
            None => spec_task_transition(current_state@, event) is None,
        },
{
    if is_terminal_task_state(current_state) {
        return None;
    }
    match event {
        TurnEventType::TurnStarted => Some(("running", "task.running")),
        TurnEventType::TurnCompleted => Some(("completed", "task.completed")),
        TurnEventType::TurnFailed => Some(("failed", "task.failed")),
        TurnEventType::TurnInterrupted => Some(("cancelled", "task.cancelled")),
        TurnEventType::TurnCancelled => Some(("cancelled", "task.cancelled")),
        TurnEventType::Other => None,
    }
}

/// A finished task never changes state, whatever its turn does; and every
/// state a task is moved to by its turn's completion, failure, cancellation or
/// interruption is a finished state.
pub proof fn lemma_terminal_tasks_stay(current_state: Seq<char>, event: TurnEventType)
    ensures
        spec_is_terminal_task_state(current_state) ==> spec_task_transition(current_state, event) is None,
        spec_task_transition(current_state, event) matches Some((next, _)) ==> (event
            != TurnEventType::TurnStarted <==> spec_is_terminal_task_state(next)),
{
    reveal_strlit("running");
    reveal_strlit("completed");
    reveal_strlit("failed");
    reveal_strlit("cancelled");
    assert("running"@ != "completed"@) by {
        assert("running"@.len() != "completed"@.len());
    }
    assert("running"@ != "failed"@) by {
        assert("running"@.len() != "failed"@.len());
    }
    assert("running"@ != "cancelled"@) by {
        assert("running"@.len() != "cancelled"@.len());
    }
}

/// How a dispatch records the workspace it routes to.
#[derive(Debug, Clone, Copy, PartialEq, Eq, Structural)]
pub enum DispatchRoutingUpdate {
    Matched,
    Confirmed,
}

/// The routing state and the task event of a dispatch.
pub fn dispatch_routing(update: DispatchRoutingUpdate) -> (r: (&'static str, &'static str))
    ensures
        update == DispatchRoutingUpdate::Matched ==> r.0@ == "matched"@ && r.1@ == "task.workspace_matched"@,
        update == DispatchRoutingUpdate::Confirmed ==> r.0@ == "confirmed"@ && r.1@
            == "task.workspace_confirmed"@,
{
    match update {
        DispatchRoutingUpdate::Matched => ("matched", "task.workspace_matched"),
        DispatchRoutingUpdate::Confirmed => ("confirmed", "task.workspace_confirmed"),
    }
}

/// The task state after its turn is created: `running` when the turn runs,
/// `queued` otherwise.
pub fn task_state_for_turn(turn_state: &str) -> (r: &'static str)
    ensures
        r@ == (if turn_state@ == "running"@ {
            "running"@
        } else {
            "queued"@
        }),
{
    if text_eq(turn_state, "running") {
        "running"
    } else {
        "queued"
    }
}

/// The question a task waits on when the planner needs input.
pub fn planner_question(question: Option<String>) -> (r: String)
    ensures
        r@ == (match question {
            Some(q) => q@,
            None => "Planner needs more input"@,
        }),
{
    match question {
        Some(q) => q,
        None => String::from_str("Planner needs more input"),
    }
}

/// The reason recorded when the planner fails.
pub fn planner_failure_reason(reason: Option<String>) -> (r: String)
    ensures
        r@ == (match reason {
            Some(x) => x@,
            None => "planner failed"@,
        }),
{
    match reason {
        Some(x) => x,
        None => String::from_str("planner failed"),
    }
}

/// Which planner a planner configuration uses.
#[derive(Debug, Clone, Copy, PartialEq, Eq, Structural)]
pub enum PlannerKind {
    Pi,
    Fake,
}

/// The `pi` client type plans with the pi planner; any other with the
/// built-in one.
pub fn planner_kind(client_type: &str) -> (r: PlannerKind)
    ensures
        r == (if client_type@ == "pi"@ {
            PlannerKind::Pi
        } else {
            PlannerKind::Fake
        }),
{
    if text_eq(client_type, "pi") {
        PlannerKind::Pi
    } else {
        PlannerKind::Fake
    }
}

/// The workspace a resolved planner decision names.
#[derive(Debug)]
pub struct PlannerWorkspace {
    pub workspace_id: Option<String>,
    pub canonical_path: Option<String>,
    pub reason: Option<String>,
}

/// How the workspace of a resolved planner decision is found.
#[derive(Debug)]
pub enum WorkspaceLookup {
    /// Look it up by id (falling back to its path when the id is unknown).
    ById(String),
    /// Register it by path.
    ByPath(String),
}

/// How to find the workspace of a resolved decision: by id when it has one,
/// else by path; without a workspace or a path the decision is malformed.
pub fn workspace_lookup(workspace: Option<&PlannerWorkspace>) -> (r: Result<WorkspaceLookup, Error>)
    ensures
        match r {
            Ok(WorkspaceLookup::ById(id)) => workspace matches Some(w) && w.workspace_id == Some(id),
            Ok(WorkspaceLookup::ByPath(p)) => workspace matches Some(w) && w.workspace_id is None
                && w.canonical_path == Some(p),
            Err(e) => match workspace {
                None => e@ == ErrorV::Domain("resolved planner decision missing workspace"@),
                Some(w) => w.workspace_id is None && w.canonical_path is None && e@ == ErrorV::Domain(
                    "resolved planner decision missing canonical_path"@,
                ),
            },
        },
{
    let w = match workspace {
        Some(w) => w,
        None => return Err(Error::Domain(String::from_str("resolved planner decision missing workspace"))),
    };
    match &w.workspace_id {
        Some(id) => Ok(WorkspaceLookup::ById(id.clone())),
        None => match &w.canonical_path {
            Some(p) => Ok(WorkspaceLookup::ByPath(p.clone())),
            None => Err(Error::Domain(String::from_str("resolved planner decision missing canonical_path"))),
        },
    }
}

/// When the workspace id of a decision is unknown, its path is registered
/// instead; without a path the decision is refused.
pub fn unknown_workspace_fallback(workspace: &PlannerWorkspace, workspace_id: &str) -> (r: Result<String, Error>)
    ensures
        match r {
            Ok(p) => workspace.canonical_path == Some(p),
            Err(e) => workspace.canonical_path is None && e@ == ErrorV::Domain(
                "planner resolved unknown workspace_id "@ + workspace_id@,
            ),
        },
{
    match &workspace.canonical_path {
        Some(p) => Ok(p.clone()),
        None => Err(Error::Domain(cat("planner resolved unknown workspace_id ", workspace_id))),
    }
}

/// The routing reason of a resolved decision: the workspace's reason, else
/// the decision's, else a fixed text.
pub fn resolved_reason(workspace: &PlannerWorkspace, decision_reason: &Option<String>) -> (r: String)
    ensures
        r@ == (match workspace.reason {
            Some(x) => x@,
            None => match *decision_reason {
                Some(y) => y@,
                None => "planner resolved workspace"@,
            },
        }),
{
    match &workspace.reason {
        Some(x) => x.clone(),
        None => match decision_reason {
            Some(y) => y.clone(),
            None => String::from_str("planner resolved workspace"),
        },
    }
}


/// How a planner decided.
#[derive(Debug, Clone, Copy, PartialEq, Eq, Structural)]
pub enum PlannerDecisionStatus {
    Resolved,
    NeedsInput,
    Failed,
}

/// Where the routing of a task stands: its state, its routing state, and the
/// task event that records the move there.
#[derive(Debug, Clone, Copy)]
pub struct RoutingStep {
    pub state: &'static str,
    pub routing_state: &'static str,
    pub event_type: &'static str,
}

/// The value of a routing step.
pub open spec fn step_v(r: RoutingStep) -> (Seq<char>, Seq<char>, Seq<char>) {
    (r.state@, r.routing_state@, r.event_type@)
}

/// Where planning leaves a task: routing (`matched`) once resolved, waiting
/// for confirmation (`ambiguous`) when the planner needs input, and waiting
/// for confirmation (`failed`) when it failed.
pub open spec fn spec_planning_step(status: PlannerDecisionStatus) -> (Seq<char>, Seq<char>, Seq<char>) {
    match status {
        PlannerDecisionStatus::Resolved => ("routing"@, "matched"@, "task.planning_resolved"@),
        PlannerDecisionStatus::NeedsInput => ("needs_confirmation"@, "ambiguous"@, "task.planning_needs_input"@),
        PlannerDecisionStatus::Failed => ("needs_confirmation"@, "failed"@, "task.planning_failed"@),
    }
}

/// Where a planner decision (or a planner error, as `Failed`) leaves a task.
pub fn planning_step(status: PlannerDecisionStatus) -> (r: RoutingStep)
    ensures
        step_v(r) == spec_planning_step(status),
{
    match status {
        PlannerDecisionStatus::Resolved => RoutingStep {
            state: "routing",
            routing_state: "matched",
            event_type: "task.planning_resolved",
        },
        PlannerDecisionStatus::NeedsInput => RoutingStep {
            state: "needs_confirmation",
            routing_state: "ambiguous",
            event_type: "task.planning_needs_input",
        },
        PlannerDecisionStatus::Failed => RoutingStep {
            state: "needs_confirmation",
            routing_state: "failed",
            event_type: "task.planning_failed",
        },
    }
}

/// Where a task stands while the planner runs: routing, pending.
pub fn planning_started_step() -> (r: RoutingStep)
    ensures
        step_v(r) == ("routing"@, "pending"@, "task.planning_started"@),
{
    RoutingStep { state: "routing", routing_state: "pending", event_type: "task.planning_started" }
}

/// Where a task without a workspace stands when no planner is enabled:
/// waiting for confirmation, ambiguous.
pub fn unrouted_step() -> (r: RoutingStep)
    ensures
        step_v(r) == ("needs_confirmation"@, "ambiguous"@, "task.routing_ambiguous"@),
{
    RoutingStep { state: "needs_confirmation", routing_state: "ambiguous", event_type: "task.routing_ambiguous" }
}

/// A task left undecided by planning (the planner still running, needing
/// input or failed), or held for lack of a planner, can take planner input
/// again, as long as it was not dispatched.
pub proof fn lemma_undecided_tasks_take_planner_input(task: TaskView, status: PlannerDecisionStatus, held: bool)
    requires
        status != PlannerDecisionStatus::Resolved,
        ({
            let step = if held {
                ("needs_confirmation"@, "ambiguous"@, "task.routing_ambiguous"@)
            } else {
                spec_planning_step(status)
            };
            task.state@ == step.0 && task.routing_state@ == step.1
        }) || (task.state@ == "routing"@ && task.routing_state@ == "pending"@),
    ensures
        can_resume(task),
        !spec_is_terminal_task_state(task.state@),
{
    reveal_strlit("routing");
    reveal_strlit("needs_confirmation");
    reveal_strlit("completed");
    reveal_strlit("failed");
    reveal_strlit("cancelled");
    assert(task.state@.len() == 7 || task.state@.len() == 18);
    assert("completed"@.len() == 9 && "failed"@.len() == 6 && "cancelled"@.len() == 9);
}


/// The first step of creating a task.
#[derive(Debug)]
pub enum CreateTaskStep {
    /// The request repeats one whose response was stored under its
    /// idempotency key: answer with that response, marked as a duplicate.
    Replay(String),
    /// Record a new task, then route it this way.
    Create(NewTaskRoute),
}

/// How a task creation starts: an unsupported client is refused; a request
/// whose idempotency key already has a stored response replays it (so
/// creation is idempotent: a stored response is answered again, whatever else
/// the request says); any other creates a task and routes it (see
/// `new_task_route`).
///
/// `stored` is the response stored under the request's idempotency key, none
/// when the request has no key or nothing is stored under it.
pub fn create_task_step(
    stored: Option<String>,
    client_type: &str,
    has_workspace: bool,
    planner_enabled: bool,
) -> (r: Result<CreateTaskStep, Error>)
    ensures
        match r {
            Err(e) => !spec_is_supported_client_type(client_type@) && e@ == unsupported_client(client_type@),
            Ok(CreateTaskStep::Replay(t)) => spec_is_supported_client_type(client_type@) && stored == Some(t),
            Ok(CreateTaskStep::Create(route)) => spec_is_supported_client_type(client_type@) && stored is None
                && route == (if has_workspace {
                NewTaskRoute::Dispatch
            } else if planner_enabled {
                NewTaskRoute::Plan
            } else {
                NewTaskRoute::AwaitConfirmation
            }),
        },
{
    check_client_type(client_type)?;
    match stored {
        Some(t) => Ok(CreateTaskStep::Replay(t)),
        None => Ok(CreateTaskStep::Create(new_task_route(has_workspace, planner_enabled))),
    }
}

/// Where a failed task stands: its state and routing state, the reason, and
/// the task event that records it.
#[derive(Debug)]
pub struct RoutingFailure {
    pub state: &'static str,
    pub routing_state: &'static str,
    pub reason: String,
    pub event_type: &'static str,
}

/// A task whose creation failed (its dispatch went wrong) is marked failed,
/// in state and routing, with the failure as its reason.
pub fn creation_failed(reason: &str) -> (r: RoutingFailure)
    ensures
        r.state@ == "failed"@,
        r.routing_state@ == "failed"@,
        r.reason@ == reason@,
        r.event_type@ == "task.failed"@,
{
    RoutingFailure { state: "failed", routing_state: "failed", reason: owned(reason), event_type: "task.failed" }
}

/// A session that a task might be dispatched to.
#[derive(Debug)]
pub struct SessionCandidate {
    pub session_id: String,
    pub workspace_id: Option<String>,
    pub client_type: String,
    pub state: String,
    pub current_turn_id: Option<String>,
}

/// The session is idle (or interrupted), runs no turn, and belongs to this
/// workspace and client type.
pub open spec fn reusable(c: SessionCandidate, workspace_id: Seq<char>, client_type: Seq<char>) -> bool {
    &&& c.workspace_id matches Some(w) && w@ == workspace_id
    &&& c.client_type@ == client_type
    &&& (c.state@ == "idle"@ || c.state@ == "interrupted"@)
    &&& c.current_turn_id is None
}

/// The session a dispatch reuses: the first reusable one, in the order the
/// sessions are given (most recently updated first); none when no session
/// can be reused, and a new one is created.
pub fn choose_session(sessions: &Vec<SessionCandidate>, workspace_id: &str, client_type: &str) -> (r: Option<
    usize,
>)
    ensures
        match r {
            Some(i) => i < sessions.len() && reusable(sessions@[i as int], workspace_id@, client_type@)
                && forall|k: int| 0 <= k < i ==> !reusable(#[trigger] sessions@[k], workspace_id@, client_type@),
            None => forall|k: int| 0 <= k < sessions.len() ==> !reusable(#[trigger] sessions@[k], workspace_id@, client_type@),
        },
{
    let mut i: usize = 0;
    while i < sessions.len()
        invariant
            i <= sessions.len(),
            forall|k: int| 0 <= k < i ==> !reusable(#[trigger] sessions@[k], workspace_id@, client_type@),
        decreases sessions.len() - i,
    {
        let c = &sessions[i];
        let same_workspace = match &c.workspace_id {
            Some(w) => text_eq(w.as_str(), workspace_id),
            None => false,
        };
        if same_workspace && text_eq(c.client_type.as_str(), client_type) && (text_eq(c.state.as_str(), "idle")
            || text_eq(c.state.as_str(), "interrupted")) && c.current_turn_id.is_none() {
            return Some(i);
        }
        i += 1;
    }
    None
}

/// The task events a dispatch records, in order.
pub open spec fn spec_dispatch_events(update: DispatchRoutingUpdate, reused_session: bool) -> Seq<Seq<char>> {
    seq![
        "task.routing_started"@,
        match update {
            DispatchRoutingUpdate::Matched => "task.workspace_matched"@,
            DispatchRoutingUpdate::Confirmed => "task.workspace_confirmed"@,
        },
        if reused_session {
            "task.session_selected"@
        } else {
            "task.session_created"@
        },
        "task.turn_created"@,
    ]
}

/// The task events a dispatch records, in order: routing started, the
/// workspace matched or confirmed, a session selected (reused) or created, and
/// the turn created.
pub fn dispatch_events(update: DispatchRoutingUpdate, reused_session: bool) -> (r: Vec<&'static str>)
    ensures
        r@.map_values(|x: &'static str| x@) == spec_dispatch_events(update, reused_session),
{
    let mut out: Vec<&'static str> = Vec::new();
    out.push("task.routing_started");
    let (_, workspace_event) = dispatch_routing(update);
    out.push(workspace_event);
    out.push(if reused_session {
        "task.session_selected"
    } else {
        "task.session_created"
    });
    out.push("task.turn_created");
    assert(out@.map_values(|x: &'static str| x@) =~= spec_dispatch_events(update, reused_session));
    out
}

/// What the planner answered a planning attempt: a decision with its status,
/// or an error (the planner could not be run or gave no decision).
#[derive(Debug, Clone, Copy, PartialEq, Eq, Structural)]
pub enum PlannerAnswer {
    Decided(PlannerDecisionStatus),
    Errored,
}

/// What a planning attempt does once the planner has answered: the task
/// events it records after `task.planning_started`, in order; where it leaves
/// the task; and whether it dispatches the task at once.
#[derive(Debug)]
pub struct AttemptPlan {
    pub events: Vec<&'static str>,
    pub step: RoutingStep,
    pub dispatch: bool,
}

/// The task events a planning attempt records after it started.
pub open spec fn spec_attempt_events(answer: PlannerAnswer) -> Seq<Seq<char>> {
    match answer {
        PlannerAnswer::Errored => seq!["task.planning_failed"@],
        PlannerAnswer::Decided(PlannerDecisionStatus::Resolved) => seq![
            "task.planning_completed"@,
            "task.planning_resolved"@,
            "task.dispatch_handoff_created"@,
        ],
        PlannerAnswer::Decided(PlannerDecisionStatus::NeedsInput) => seq![
            "task.planning_completed"@,
            "task.planning_needs_input"@,
        ],
        PlannerAnswer::Decided(PlannerDecisionStatus::Failed) => seq![
            "task.planning_completed"@,
            "task.planning_failed"@,
        ],
    }
}

/// The status a planner answer counts as: an error counts as a failed
/// decision.
pub open spec fn answer_status(answer: PlannerAnswer) -> PlannerDecisionStatus {
    match answer {
        PlannerAnswer::Decided(s) => s,
        PlannerAnswer::Errored => PlannerDecisionStatus::Failed,
    }
}

/// How a planning attempt goes on once the planner has answered. A decision
/// is recorded (`task.planning_completed`) and then resolved (with a dispatch
/// handoff recorded), left waiting for input, or failed; a planner error is
/// recorded as a failed planning step without a decision, and the attempt
/// still answers with the task. The task is dispatched at once only for a
/// resolved decision under compatibility direct dispatch.
pub fn planner_attempt_plan(answer: PlannerAnswer, direct_dispatch: bool) -> (r: AttemptPlan)
    ensures
        r.events@.map_values(|x: &'static str| x@) == spec_attempt_events(answer),
        step_v(r.step) == spec_planning_step(answer_status(answer)),
        r.dispatch == (answer == PlannerAnswer::Decided(PlannerDecisionStatus::Resolved) && direct_dispatch),
{
    let mut events: Vec<&'static str> = Vec::new();
    let status = match answer {
        PlannerAnswer::Decided(s) => {
            events.push("task.planning_completed");
            s
        },
        PlannerAnswer::Errored => PlannerDecisionStatus::Failed,
    };
    let step = planning_step(status);
    events.push(step.event_type);
    let resolved = match status {
        PlannerDecisionStatus::Resolved => true,
        _ => false,
    };
    if resolved {
        events.push("task.dispatch_handoff_created");
    }
    assert(events@.map_values(|x: &'static str| x@) =~= spec_attempt_events(answer));
    AttemptPlan { events, step, dispatch: resolved && direct_dispatch }
}

/// A task as following its turn's events reads it: its id, its state and the
/// turn it runs, if any.
#[derive(Debug)]
pub struct TaskTurnRow {
    pub task_id: String,
    pub state: String,
    pub turn_id: Option<String>,
}

/// The task event recorded for a task.
#[derive(Debug)]
pub struct TaskEventRecord {
    pub task_id: String,
    pub event_type: &'static str,
}

/// The task runs the turn `turn`.
pub open spec fn runs_turn(row: TaskTurnRow, turn: Seq<char>) -> bool {
    row.turn_id matches Some(t) && t@ == turn
}

/// The first task, in the order given, that runs the turn `turn`.
pub open spec fn first_running(rows: Seq<TaskTurnRow>, turn: Seq<char>, k: int) -> bool {
    &&& 0 <= k < rows.len()
    &&& runs_turn(rows[k], turn)
    &&& forall|j: int| 0 <= j < k ==> !runs_turn(#[trigger] rows[j], turn)
}

/// The text of an event's turn, if it has one.
pub open spec fn turn_of(turn_id: Option<&str>) -> Option<Seq<char>> {
    match turn_id {
        Some(t) => Some(t@),
        None => None,
    }
}

/// Task `k` is the one an event of turn `turn` concerns: the first that runs
/// it.
pub open spec fn synced_task(rows: Seq<TaskTurnRow>, turn: Option<Seq<char>>, k: int) -> bool {
    turn matches Some(t) && first_running(rows, t, k)
}

/// `after` is `before` moved by `event` as `task_transition` says, keeping its
/// id and turn, and `ev` is the task event recorded for it.
pub open spec fn moved_row(before: TaskTurnRow, after: TaskTurnRow, ev: TaskEventRecord, event: TurnEventType) -> bool {
    match spec_task_transition(before.state@, event) {
        Some((next, ty)) => {
            &&& ev.task_id@ == before.task_id@
            &&& ev.event_type@ == ty
            &&& after.task_id == before.task_id
            &&& after.turn_id == before.turn_id
            &&& after.state@ == next
        },
        None => false,
    }
}

/// The index of the first task that runs `turn`, if any.
fn find_turn_task(rows: &Vec<TaskTurnRow>, turn: &str) -> (r: Option<usize>)
    ensures
        match r {
            Some(k) => first_running(rows@, turn@, k as int),
            None => forall|j: int| 0 <= j < rows.len() ==> !runs_turn(#[trigger] rows@[j], turn@),
        },
{
    let mut i: usize = 0;
    while i < rows.len()
        invariant
            i <= rows.len(),
            forall|j: int| 0 <= j < i ==> !runs_turn(#[trigger] rows@[j], turn@),
        decreases rows.len() - i,
    {
        let hit = match &rows[i].turn_id {
            Some(t) => text_eq(t.as_str(), turn),
            None => false,
        };
        if hit {
            return Some(i);
        }
        i += 1;
    }
    None
}

/// The tasks follow a lifecycle event of turn `turn_id`: the first task that
/// runs that turn moves as `task_transition` says, keeping its id and turn,
/// and the event it records is returned. Nothing changes for an event
/// without a turn, a turn no task runs, a finished task, or an event that
/// moves nothing. No other task is touched, so a finished task never moves.
pub fn sync_tasks_from_turn_event(
    tasks: &mut Vec<TaskTurnRow>,
    turn_id: Option<&str>,
    event: TurnEventType,
) -> (r: Option<TaskEventRecord>)
    ensures
        final(tasks)@.len() == old(tasks)@.len(),
        forall|k: int|
            0 <= k < old(tasks)@.len() && !synced_task(old(tasks)@, turn_of(turn_id), k) ==> #[trigger] final(tasks)@[k] == old(tasks)@[k],
        forall|k: int|
            0 <= k < old(tasks)@.len() && spec_is_terminal_task_state(old(tasks)@[k].state@) ==> #[trigger] final(tasks)@[k] == old(tasks)@[k],
        r is None ==> final(tasks)@ == old(tasks)@ && forall|k: int|
            #[trigger] synced_task(old(tasks)@, turn_of(turn_id), k) ==> spec_task_transition(
                old(tasks)@[k].state@,
                event,
            ) is None,
        r matches Some(ev) ==> exists|k: int|
            #[trigger] synced_task(old(tasks)@, turn_of(turn_id), k) && moved_row(
                old(tasks)@[k],
                final(tasks)@[k],
                ev,
                event,
            ),
{
    let turn = match turn_id {
        Some(t) => t,
        None => return None,
    };
    let k = match find_turn_task(tasks, turn) {
        Some(k) => k,
        None => return None,
    };
    let (next, ty) = match task_transition(tasks[k].state.as_str(), event) {
        Some(p) => p,
        None => {
            proof {
                assert forall|j: int| first_running(old(tasks)@, turn@, j) implies spec_task_transition(
                    old(tasks)@[j].state@,
                    event,
                ) is None by {
                    if j < k {
                        assert(!runs_turn(old(tasks)@[j], turn@));
                    } else if j > k {
                        assert(!runs_turn(old(tasks)@[k as int], turn@));
                    }
                }
            }
            return None;
        },
    };
    proof {
        lemma_terminal_tasks_stay(tasks@[k as int].state@, event);
    }
    let ghost before = tasks@;
    let row = tasks.remove(k);
    let task_id = row.task_id;
    let record = TaskEventRecord { task_id: task_id.clone(), event_type: ty };
    tasks.insert(k, TaskTurnRow { task_id, state: String::from_str(next), turn_id: row.turn_id });
    proof {
        assert forall|j: int| 0 <= j < before.len() && j != k implies #[trigger] tasks@[j] == before[j] by {
            if j < k {
                assert(tasks@[j] == before[j]);
            } else {
                assert(tasks@[j] == before[j]);
            }
        }
        assert(first_running(before, turn@, k as int));
        assert(turn_of(turn_id) == Some(turn@));
        assert(synced_task(before, turn_of(turn_id), k as int));
        assert(tasks@[k as int].task_id == before[k as int].task_id);
        assert(tasks@[k as int].turn_id == before[k as int].turn_id);
        assert(moved_row(before[k as int], tasks@[k as int], record, event));
        assert forall|j: int| first_running(before, turn@, j) implies j == k by {
            if j < k {
                assert(!runs_turn(before[j], turn@));
            } else if j > k {
                assert(!runs_turn(before[k as int], turn@));
            }
        }
    }
    Some(record)
}

} // verus!
