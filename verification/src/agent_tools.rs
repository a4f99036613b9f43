//! The agent tool surface: which tools exist, how a tool request is tied to
//! a session, a turn and a DAG task, and what each tool may do in which mode.
use vstd::prelude::*;
use vstd::string::*;

use crate::error::{Error, ErrorV};
use crate::agent_context::{execution_lines, render_execution_context};
use crate::model::{
    TaskView, same_item, JsonField, DagSignalRecord, WorkItemEdgeView, WorkItemRunRecord, WorkItemWithRuntimeView,
};
use crate::json::{bool_of, field_agrees, json_bool, json_field, json_parse_error, json_value_at, parse_json, json_string, json_string_text, JsonAtV};
use crate::queries::{AgentProfileService, ExternalQueryService};
use crate::text::{blank, cat, cat3, is_blank, join, owned, text_eq};

verus! {

/// The planning role of a DAG-managed planning turn.
#[derive(Debug, Clone, Copy, PartialEq, Eq, Structural)]
pub enum AgentPlanningRole {
    Planner,
    Replanner,
}

/// The name of a planning role.
pub open spec fn spec_role_text(role: AgentPlanningRole) -> Seq<char> {
    match role {
        AgentPlanningRole::Planner => "planner"@,
        AgentPlanningRole::Replanner => "replanner"@,
    }
}

/// The name of a planning role.
pub fn planning_role_text(role: &AgentPlanningRole) -> (r: &'static str)
    ensures
        r@ == spec_role_text(*role),
{
    match role {
        AgentPlanningRole::Planner => "planner",
        AgentPlanningRole::Replanner => "replanner",
    }
}


/// The tools an agent may call.
#[derive(Debug, Clone, Copy, PartialEq, Eq, Structural)]
pub enum AgentToolName {
    GetContext,
    SubmitPlan,
    SubmitResult,
    RaiseSignal,
}

/// The tool a name stands for.
pub open spec fn spec_tool_name(name: Seq<char>) -> Option<AgentToolName> {
    if name == "getContext"@ {
        Some(AgentToolName::GetContext)
    } else if name == "submitPlan"@ {
        Some(AgentToolName::SubmitPlan)
    } else if name == "submitResult"@ {
        Some(AgentToolName::SubmitResult)
    } else if name == "raiseSignal"@ {
        Some(AgentToolName::RaiseSignal)
    } else {
        None
    }
}

/// Tool routing is the naming of the four tools: a name routes to a tool
/// exactly when it is that tool's own name, so `getContext`, `submitPlan`,
/// `submitResult` and `raiseSignal` each reach their own tool, no two names
/// reach the same tool, and every other name reaches none.
pub proof fn lemma_tool_routing(name: Seq<char>, t: AgentToolName)
    ensures
        spec_tool_name(name) == Some(t) <==> name == (match t {
            AgentToolName::GetContext => "getContext"@,
            AgentToolName::SubmitPlan => "submitPlan"@,
            AgentToolName::SubmitResult => "submitResult"@,
            AgentToolName::RaiseSignal => "raiseSignal"@,
        }),
        spec_tool_name(name) is None <==> (name != "getContext"@ && name != "submitPlan"@ && name
            != "submitResult"@ && name != "raiseSignal"@),
{
    reveal_strlit("getContext");
    reveal_strlit("submitPlan");
    reveal_strlit("submitResult");
    reveal_strlit("raiseSignal");
    assert("getContext"@[0] != "submitPlan"@[0]);
    assert("getContext"@[0] != "submitResult"@[0]);
    assert("getContext"@[0] != "raiseSignal"@[0]);
    assert("submitPlan"@.len() != "submitResult"@.len());
    assert("submitPlan"@[0] != "raiseSignal"@[0]);
    assert("submitResult"@[0] != "raiseSignal"@[0]);
}

/// `name` is one of the four agent tools.
pub fn is_known_tool(tool_name: &str) -> (r: bool)
    ensures
        r == spec_tool_name(tool_name@) is Some,
{
    text_eq(tool_name, "getContext") || text_eq(tool_name, "submitPlan") || text_eq(
        tool_name,
        "submitResult",
    ) || text_eq(tool_name, "raiseSignal")
}

/// The tool a call names; an unknown name is `NotFound`.
pub fn route_tool(tool_name: &str) -> (r: Result<AgentToolName, Error>)
    ensures
        match r {
            Ok(t) => spec_tool_name(tool_name@) == Some(t),
            Err(e) => spec_tool_name(tool_name@) is None && e@ == ErrorV::NotFound(
                "agent tool "@ + tool_name@ + " not found"@,
            ),
        },
{
    if text_eq(tool_name, "getContext") {
        Ok(AgentToolName::GetContext)
    } else if text_eq(tool_name, "submitPlan") {
        Ok(AgentToolName::SubmitPlan)
    } else if text_eq(tool_name, "submitResult") {
        Ok(AgentToolName::SubmitResult)
    } else if text_eq(tool_name, "raiseSignal") {
        Ok(AgentToolName::RaiseSignal)
    } else {
        Err(Error::NotFound(cat3("agent tool ", tool_name, " not found")))
    }
}

/// A required request field must not be blank.
pub fn validate_required(field: &str, value: &str) -> (r: Result<(), Error>)
    ensures
        r is Ok <==> !is_blank(value@),
        r matches Err(e) ==> e@ == ErrorV::Domain(field@ + " is required"@),
{
    if blank(value) {
        Err(Error::Domain(cat(field, " is required")))
    } else {
        Ok(())
    }
}

/// The planning role a turn's `dag_planning_role` names.
pub open spec fn spec_parse_planning_role(role: Seq<char>) -> Result<AgentPlanningRole, ErrorV> {
    if role == "planner"@ {
        Ok(AgentPlanningRole::Planner)
    } else if role == "replanner"@ {
        Ok(AgentPlanningRole::Replanner)
    } else {
        Err(ErrorV::StateConflict("unsupported DAG planning role "@ + role))
    }
}

/// Reads a planning role: `planner` or `replanner`.
pub fn parse_planning_role(role: &str) -> (r: Result<AgentPlanningRole, Error>)
    ensures
        crate::error::result_view(r, |x: AgentPlanningRole| x) == spec_parse_planning_role(role@),
{
    if text_eq(role, "planner") {
        Ok(AgentPlanningRole::Planner)
    } else if text_eq(role, "replanner") {
        Ok(AgentPlanningRole::Replanner)
    } else {
        Err(Error::StateConflict(cat("unsupported DAG planning role ", role)))
    }
}

/// A role's name reads back as the role.
pub proof fn lemma_planning_role_roundtrip(role: AgentPlanningRole)
    ensures
        spec_parse_planning_role(spec_role_text(role)) == Ok::<AgentPlanningRole, ErrorV>(role),
{
    reveal_strlit("planner");
    reveal_strlit("replanner");
    match role {
        AgentPlanningRole::Planner => {},
        AgentPlanningRole::Replanner => {
            assert("replanner"@ != "planner"@) by {
                assert("replanner"@.len() != "planner"@.len());
            }
        },
    }
}

/// The text of a field when it is a non-blank string.
pub open spec fn spec_non_blank_text(field: JsonField) -> Option<Seq<char>> {
    match field {
        JsonField::Text(t) => if is_blank(t@) {
            None
        } else {
            Some(t@)
        },
        _ => None,
    }
}

/// A required non-blank string field of a `submitPlan` input.
pub fn required_input_string(field: &JsonField, key: &str) -> (r: Result<String, Error>)
    ensures
        match r {
            Ok(t) => spec_non_blank_text(*field) == Some(t@),
            Err(e) => spec_non_blank_text(*field) is None && e@ == ErrorV::Domain(
                "submitPlan input missing string field "@ + key@,
            ),
        },
{
    match field {
        JsonField::Text(t) => {
            if !blank(t.as_str()) {
                return Ok(owned(t.as_str()));
            }
        },
        _ => {},
    }
    Err(Error::Domain(cat("submitPlan input missing string field ", key)))
}

/// What a tool call runs as: a planning turn with its role, or an execution
/// turn with its run and work item.
#[derive(Debug)]
pub enum AgentToolMode {
    Planning { role: AgentPlanningRole },
    Execution { run_id: String, work_item_id: String },
}

/// The resolved context of a tool call.
#[derive(Debug)]
pub struct AgentToolContext {
    pub session_id: String,
    pub turn_id: String,
    pub client_type: String,
    pub runtime_instance_id: String,
    pub task_id: String,
    pub mode: AgentToolMode,
}

/// `submitResult` is only for execution turns.
pub fn require_execution_turn(mode: &AgentToolMode) -> (r: Result<(), Error>)
    ensures
        r is Ok <==> mode is Execution,
        r matches Err(e) ==> e@ == ErrorV::StateConflict(
            "submitResult requires a DAG execution turn"@,
        ),
{
    match mode {
        AgentToolMode::Execution { .. } => Ok(()),
        _ => Err(Error::StateConflict(String::from_str("submitResult requires a DAG execution turn"))),
    }
}

/// `submitPlan` is only for planning turns; the result is the turn's role.
pub fn require_planning_turn(mode: &AgentToolMode) -> (r: Result<AgentPlanningRole, Error>)
    ensures
        match r {
            Ok(role) => *mode == (AgentToolMode::Planning { role }),
            Err(e) => mode is Execution && e@ == ErrorV::StateConflict(
                "submitPlan requires a DAG planning turn"@,
            ),
        },
{
    match mode {
        AgentToolMode::Planning { role } => Ok(*role),
        _ => Err(Error::StateConflict(String::from_str("submitPlan requires a DAG planning turn"))),
    }
}

/// What a `submitPlan` call submits.
#[derive(Debug, Clone, Copy, PartialEq, Eq, Structural)]
pub enum PlanSubmissionKind {
    InitialDag,
    Patch,
}

/// What a `submitPlan` input's `mode` allows for a role: planners submit
/// initial DAGs, replanners submit patches.
pub open spec fn spec_plan_submission_kind(role: AgentPlanningRole, mode: JsonField) -> Result<
    PlanSubmissionKind,
    ErrorV,
> {
    match mode {
        JsonField::Text(m) => if m@ == "initial_dag"@ {
            match role {
                AgentPlanningRole::Planner => Ok(PlanSubmissionKind::InitialDag),
                AgentPlanningRole::Replanner => Err(
                    ErrorV::StateConflict("RePlanner can only submit patch plans"@),
                ),
            }
        } else if m@ == "patch"@ {
            match role {
                AgentPlanningRole::Planner => Err(
                    ErrorV::StateConflict("Planner can only submit initial_dag plans"@),
                ),
                AgentPlanningRole::Replanner => Ok(PlanSubmissionKind::Patch),
            }
        } else {
            Err(ErrorV::Domain("submitPlan mode must be initial_dag or patch, got "@ + m@))
        },
        _ => Err(ErrorV::Domain("submitPlan input missing mode"@)),
    }
}

/// Decides what a `submitPlan` call submits from the role and the input mode.
pub fn plan_submission_kind(role: AgentPlanningRole, mode: &JsonField) -> (r: Result<
    PlanSubmissionKind,
    Error,
>)
    ensures
        crate::error::result_view(r, |k: PlanSubmissionKind| k) == spec_plan_submission_kind(role, *mode),
{
    match mode {
        JsonField::Text(m) => {
            if text_eq(m.as_str(), "initial_dag") {
                match role {
                    AgentPlanningRole::Planner => Ok(PlanSubmissionKind::InitialDag),
                    AgentPlanningRole::Replanner => Err(
                        Error::StateConflict(String::from_str("RePlanner can only submit patch plans")),
                    ),
                }
            } else if text_eq(m.as_str(), "patch") {
                match role {
                    AgentPlanningRole::Planner => Err(
                        Error::StateConflict(String::from_str("Planner can only submit initial_dag plans")),
                    ),
                    AgentPlanningRole::Replanner => Ok(PlanSubmissionKind::Patch),
                }
            } else {
                Err(Error::Domain(cat("submitPlan mode must be initial_dag or patch, got ", m.as_str())))
            }
        },
        _ => Err(Error::Domain(String::from_str("submitPlan input missing mode"))),
    }
}

/// The mode a plan payload declares, `default` when it declares none as a string.
pub open spec fn declared_mode(mode: JsonField, default: Seq<char>) -> Seq<char> {
    match mode {
        JsonField::Text(m) => m@,
        _ => default,
    }
}

/// The summary of an initial DAG payload: its mode (default `initial_dag`)
/// must be `initial_dag` and its summary must be a non-blank string.
pub fn initial_plan_summary(mode: &JsonField, summary: &JsonField) -> (r: Result<String, Error>)
    ensures
        declared_mode(*mode, "initial_dag"@) != "initial_dag"@ ==> (r matches Err(e) && e@
            == ErrorV::Domain(
            "submitPlan initial payload mode must be initial_dag, got "@ + declared_mode(
                *mode,
                "initial_dag"@,
            ),
        )),
        declared_mode(*mode, "initial_dag"@) == "initial_dag"@ ==> match r {
            Ok(t) => spec_non_blank_text(*summary) == Some(t@),
            Err(e) => spec_non_blank_text(*summary) is None && e@ == ErrorV::Domain(
                "submitPlan input missing string field summary"@,
            ),
        },
{
    let declared = match mode {
        JsonField::Text(m) => owned(m.as_str()),
        _ => String::from_str("initial_dag"),
    };
    if !text_eq(declared.as_str(), "initial_dag") {
        return Err(
            Error::Domain(cat("submitPlan initial payload mode must be initial_dag, got ", declared.as_str())),
        );
    }
    proof {
        reveal_strlit("submitPlan input missing string field ");
        reveal_strlit("summary");
        reveal_strlit("submitPlan input missing string field summary");
        assert("submitPlan input missing string field "@ + "summary"@
            =~= "submitPlan input missing string field summary"@);
    }
    required_input_string(summary, "summary")
}

/// The summary of a patch payload: its mode (default `patch`) must be `patch`
/// and its summary must be a non-blank string.
pub fn patch_plan_summary(mode: &JsonField, summary: &JsonField) -> (r: Result<String, Error>)
    ensures
        declared_mode(*mode, "patch"@) != "patch"@ ==> (r matches Err(e) && e@ == ErrorV::Domain(
            "submitPlan patch payload mode must be patch, got "@ + declared_mode(*mode, "patch"@),
        )),
        declared_mode(*mode, "patch"@) == "patch"@ ==> match r {
            Ok(t) => spec_non_blank_text(*summary) == Some(t@),
            Err(e) => spec_non_blank_text(*summary) is None && e@ == ErrorV::Domain(
                "submitPlan input missing string field summary"@,
            ),
        },
{
    let declared = match mode {
        JsonField::Text(m) => owned(m.as_str()),
        _ => String::from_str("patch"),
    };
    if !text_eq(declared.as_str(), "patch") {
        return Err(Error::Domain(cat("submitPlan patch payload mode must be patch, got ", declared.as_str())));
    }
    proof {
        reveal_strlit("submitPlan input missing string field ");
        reveal_strlit("summary");
        reveal_strlit("submitPlan input missing string field summary");
        assert("submitPlan input missing string field "@ + "summary"@
            =~= "submitPlan input missing string field summary"@);
    }
    required_input_string(summary, "summary")
}

/// The summary a parsed patch keeps: its own, or the payload's when it has none.
pub fn patch_summary_or(own_summary: String, summary: &str) -> (r: String)
    ensures
        r@ == (if own_summary@.len() == 0 {
            summary@
        } else {
            own_summary@
        }),
{
    if own_summary.as_str().unicode_len() == 0 {
        owned(summary)
    } else {
        own_summary
    }
}


/// `serde_json::Value`, carried through opaquely.
#[verifier::external_type_specification]
#[verifier::external_body]
pub struct ExJsonValue(serde_json::Value);

/// A tool call as an agent sends it.
#[derive(Debug)]
pub struct AgentToolRequest {
    pub session_id: String,
    pub turn_id: String,
    pub runtime_instance_id: String,
    pub input: serde_json::Value,
}

/// What a tool call reads of its session: the client type, the state and the
/// `task_id` field of its metadata.
#[derive(Debug)]
pub struct SessionForAgentTool {
    pub client_type: String,
    pub state: String,
    pub task_id: JsonField,
}

/// What a tool call reads of its turn: the owning session and the
/// `dag_managed` (when it is a boolean), `dag_planning_role` and `task_id`
/// fields of its metadata.
#[derive(Debug)]
pub struct TurnForAgentTool {
    pub session_id: String,
    pub dag_managed: Option<bool>,
    pub dag_planning_role: JsonField,
    pub task_id: JsonField,
}

/// The JSON error a stored metadata text gives, if it is not JSON.
pub open spec fn metadata_error(metadata: Seq<char>) -> Option<ErrorV> {
    match json_parse_error(metadata) {
        Some(m) => Some(ErrorV::Domain(m)),
        None => None,
    }
}

/// What a tool call reads of a session: its client type and state as
/// stored, and the `task_id` field of its metadata. The metadata text must be
/// JSON.
pub fn session_facts(client_type: String, state: String, metadata: &str) -> (r: Result<
    SessionForAgentTool,
    Error,
>)
    ensures
        r is Ok <==> metadata_error(metadata@) is None,
        r matches Err(e) ==> metadata_error(metadata@) == Some(e@),
        r matches Ok(x) ==> x.client_type == client_type && x.state == state && field_agrees(
            x.task_id,
            json_value_at(metadata@, "/task_id"@),
        ),
{
    let d = parse_json(metadata)?;
    Ok(SessionForAgentTool { client_type, state, task_id: json_field(&d, "/task_id") })
}

/// What a tool call reads of a turn: its session as stored, and the
/// `dag_managed` (when boolean), `dag_planning_role` and `task_id` fields of
/// its metadata. The metadata text must be JSON.
pub fn turn_facts(session_id: String, metadata: &str) -> (r: Result<TurnForAgentTool, Error>)
    ensures
        r is Ok <==> metadata_error(metadata@) is None,
        r matches Err(e) ==> metadata_error(metadata@) == Some(e@),
        r matches Ok(x) ==> {
            &&& x.session_id == session_id
            &&& x.dag_managed == bool_of(json_value_at(metadata@, "/dag_managed"@))
            &&& field_agrees(x.dag_planning_role, json_value_at(metadata@, "/dag_planning_role"@))
            &&& field_agrees(x.task_id, json_value_at(metadata@, "/task_id"@))
        },
{
    let d = parse_json(metadata)?;
    Ok(
        TurnForAgentTool {
            session_id,
            dag_managed: json_bool(&d, "/dag_managed"),
            dag_planning_role: json_field(&d, "/dag_planning_role"),
            task_id: json_field(&d, "/task_id"),
        },
    )
}

/// The text of a JSON string value that is not blank.
pub open spec fn non_blank_string(n: JsonAtV) -> Option<Seq<char>> {
    match n {
        JsonAtV::Text(t) => if is_blank(t) {
            None
        } else {
            Some(t)
        },
        _ => None,
    }
}

/// The runtime instance a session's runtime binding names: the non-blank
/// `runtime_instance_id` string of its metadata (see
/// `binding_runtime_instance_id`). The metadata text must be JSON.
pub fn binding_instance(metadata: &str, session_id: &str) -> (r: Result<String, Error>)
    ensures
        metadata_error(metadata@) matches Some(e) ==> (r matches Err(x) && x@ == e),
        metadata_error(metadata@) is None ==> match r {
            Ok(t) => non_blank_string(json_value_at(metadata@, "/runtime_instance_id"@)) == Some(t@),
            Err(e) => non_blank_string(json_value_at(metadata@, "/runtime_instance_id"@)) is None && e@
                == ErrorV::StateConflict(
                "session "@ + session_id@ + " runtime binding missing runtime_instance_id"@,
            ),
        },
{
    let d = parse_json(metadata)?;
    binding_runtime_instance_id(&json_field(&d, "/runtime_instance_id"), session_id)
}

/// The identifiers of a tool request must not be blank.
pub fn check_tool_request(request: &AgentToolRequest) -> (r: Result<(), Error>)
    ensures
        r is Ok <==> (!is_blank(request.session_id@) && !is_blank(request.turn_id@) && !is_blank(
            request.runtime_instance_id@,
        )),
        r matches Err(e) ==> e@ == (if is_blank(request.session_id@) {
            ErrorV::Domain("session_id"@ + " is required"@)
        } else if is_blank(request.turn_id@) {
            ErrorV::Domain("turn_id"@ + " is required"@)
        } else {
            ErrorV::Domain("runtime_instance_id"@ + " is required"@)
        }),
{
    validate_required("session_id", request.session_id.as_str())?;
    validate_required("turn_id", request.turn_id.as_str())?;
    validate_required("runtime_instance_id", request.runtime_instance_id.as_str())
}

/// A session that exited or errored takes no tool calls.
pub fn check_session_usable(session: &SessionForAgentTool, session_id: &str) -> (r: Result<(), Error>)
    ensures
        r is Ok <==> !(session.state@ == "exited"@ || session.state@ == "error"@),
        r matches Err(e) ==> e@ == ErrorV::StateConflict("session "@ + session_id@ + " is terminal"@),
{
    if text_eq(session.state.as_str(), "exited") || text_eq(session.state.as_str(), "error") {
        Err(Error::StateConflict(cat3("session ", session_id, " is terminal")))
    } else {
        Ok(())
    }
}

/// The turn must belong to the session of the request.
pub fn check_turn_session(turn: &TurnForAgentTool, request: &AgentToolRequest) -> (r: Result<(), Error>)
    ensures
        r is Ok <==> turn.session_id@ == request.session_id@,
        r matches Err(e) ==> e@ == ErrorV::StateConflict(
            "turn "@ + request.turn_id@ + " does not belong to session "@ + request.session_id@,
        ),
{
    if text_eq(turn.session_id.as_str(), request.session_id.as_str()) {
        Ok(())
    } else {
        Err(
            Error::StateConflict(
                cat3("turn ", request.turn_id.as_str(), " does not belong to session ").concat(
                    request.session_id.as_str(),
                ),
            ),
        )
    }
}

/// The runtime instance a runtime binding records: its `runtime_instance_id`
/// field, which must be a non-blank string.
pub fn binding_runtime_instance_id(field: &JsonField, session_id: &str) -> (r: Result<String, Error>)
    ensures
        match r {
            Ok(t) => spec_non_blank_text(*field) == Some(t@),
            Err(e) => spec_non_blank_text(*field) is None && e@ == ErrorV::StateConflict(
                "session "@ + session_id@ + " runtime binding missing runtime_instance_id"@,
            ),
        },
{
    match field {
        JsonField::Text(t) => {
            if !blank(t.as_str()) {
                return Ok(owned(t.as_str()));
            }
        },
        _ => {},
    }
    Err(Error::StateConflict(cat3("session ", session_id, " runtime binding missing runtime_instance_id")))
}

/// The request must come from the runtime instance bound to the session.
pub fn check_runtime_instance(bound: &str, request: &AgentToolRequest) -> (r: Result<(), Error>)
    ensures
        r is Ok <==> bound@ == request.runtime_instance_id@,
        r matches Err(e) ==> e@ == ErrorV::StateConflict(
            "runtime_instance_id does not match session "@ + request.session_id@,
        ),
{
    if text_eq(bound, request.runtime_instance_id.as_str()) {
        Ok(())
    } else {
        Err(Error::StateConflict(cat("runtime_instance_id does not match session ", request.session_id.as_str())))
    }
}

/// What a turn is for the tools: it must be DAG-managed; with a planning role
/// it is a planning turn (`Some(role)`), otherwise an execution turn (`None`).
pub open spec fn spec_turn_planning_role(turn: TurnForAgentTool, turn_id: Seq<char>) -> Result<
    Option<AgentPlanningRole>,
    ErrorV,
> {
    if turn.dag_managed != Some(true) {
        Err(ErrorV::StateConflict("turn "@ + turn_id + " is not DAG-managed"@))
    } else {
        match turn.dag_planning_role {
            JsonField::Text(r) => match spec_parse_planning_role(r@) {
                Ok(role) => Ok(Some(role)),
                Err(e) => Err(e),
            },
            _ => Ok(None),
        }
    }
}

/// Decides whether a turn is a planning turn (with its role) or an execution turn.
pub fn turn_planning_role(turn: &TurnForAgentTool, turn_id: &str) -> (r: Result<
    Option<AgentPlanningRole>,
    Error,
>)
    ensures
        crate::error::result_view(r, |x: Option<AgentPlanningRole>| x) == spec_turn_planning_role(
            *turn,
            turn_id@,
        ),
{
    let managed = match turn.dag_managed {
        Some(b) => b,
        None => false,
    };
    if !managed {
        return Err(Error::StateConflict(cat3("turn ", turn_id, " is not DAG-managed")));
    }
    match &turn.dag_planning_role {
        JsonField::Text(r) => match parse_planning_role(r.as_str()) {
            Ok(role) => Ok(Some(role)),
            Err(e) => Err(e),
        },
        _ => Ok(None),
    }
}

/// The task of a planning turn: the turn's `task_id`, or the session's when
/// the turn has none; it must be a non-blank string.
pub open spec fn spec_planning_task_id(turn: TurnForAgentTool, session: SessionForAgentTool) -> Option<
    Seq<char>,
> {
    match turn.task_id {
        JsonField::Absent => spec_non_blank_text(session.task_id),
        _ => spec_non_blank_text(turn.task_id),
    }
}

/// Finds the task of a planning turn.
pub fn planning_task_id(
    turn: &TurnForAgentTool,
    session: &SessionForAgentTool,
    turn_id: &str,
) -> (r: Result<String, Error>)
    ensures
        match r {
            Ok(t) => spec_planning_task_id(*turn, *session) == Some(t@),
            Err(e) => spec_planning_task_id(*turn, *session) is None && e@ == ErrorV::StateConflict(
                "DAG-managed planning turn "@ + turn_id@ + " is missing task_id"@,
            ),
        },
{
    let field = match &turn.task_id {
        JsonField::Absent => &session.task_id,
        _ => &turn.task_id,
    };
    match field {
        JsonField::Text(t) => {
            if !blank(t.as_str()) {
                return Ok(owned(t.as_str()));
            }
        },
        _ => {},
    }
    Err(Error::StateConflict(cat3("DAG-managed planning turn ", turn_id, " is missing task_id")))
}

/// The task of an execution turn: the task of its run, which must exist.
pub fn execution_task_id(task_id: Option<String>, run_id: &str) -> (r: Result<String, Error>)
    ensures
        match r {
            Ok(t) => task_id == Some(t),
            Err(e) => task_id is None && e@ == ErrorV::NotFound(
                "work item run "@ + run_id@ + " not found"@,
            ),
        },
{
    match task_id {
        Some(t) => Ok(t),
        None => Err(Error::NotFound(cat3("work item run ", run_id, " not found"))),
    }
}

/// The signals that are open.
pub open spec fn open_signals(s: Seq<DagSignalRecord>) -> Seq<DagSignalRecord>
    decreases s.len(),
{
    if s.len() == 0 {
        Seq::empty()
    } else {
        let prev = open_signals(s.drop_last());
        if s.last().state@ == "open"@ {
            prev.push(s.last())
        } else {
            prev
        }
    }
}

/// The open signals of a DAG, in order (what a planning turn is shown).
pub fn select_open_signals(signals: &Vec<DagSignalRecord>) -> (r: Vec<DagSignalRecord>)
    ensures
        r@ == open_signals(signals@),
{
    let mut out: Vec<DagSignalRecord> = Vec::new();
    let mut i: usize = 0;
    assert(signals@.take(0) =~= Seq::<DagSignalRecord>::empty());
    while i < signals.len()
        invariant
            i <= signals.len(),
            out@ == open_signals(signals@.take(i as int)),
        decreases signals.len() - i,
    {
        assert(signals@.take(i + 1).drop_last() =~= signals@.take(i as int));
        if text_eq(signals[i].state.as_str(), "open") {
            out.push(signals[i].duplicate());
        }
        i += 1;
    }
    assert(signals@.take(signals.len() as int) =~= signals@);
    out
}

/// The signal is open and concerns the whole task, the work item or the run.
pub open spec fn related_open(s: DagSignalRecord, work_item_id: Seq<char>, run_id: Seq<char>) -> bool {
    &&& s.state@ == "open"@
    &&& (s.work_item_id is None || s.work_item_id->0@ == work_item_id || (s.run_id is Some
        && s.run_id->0@ == run_id))
}

/// The open signals related to a work item run.
pub open spec fn related_open_signals(
    s: Seq<DagSignalRecord>,
    work_item_id: Seq<char>,
    run_id: Seq<char>,
) -> Seq<DagSignalRecord>
    decreases s.len(),
{
    if s.len() == 0 {
        Seq::empty()
    } else {
        let prev = related_open_signals(s.drop_last(), work_item_id, run_id);
        if related_open(s.last(), work_item_id, run_id) {
            prev.push(s.last())
        } else {
            prev
        }
    }
}

/// The open signals an execution turn is shown, in order.
pub fn select_related_open_signals(
    signals: &Vec<DagSignalRecord>,
    work_item_id: &str,
    run_id: &str,
) -> (r: Vec<DagSignalRecord>)
    ensures
        r@ == related_open_signals(signals@, work_item_id@, run_id@),
{
    let mut out: Vec<DagSignalRecord> = Vec::new();
    let mut i: usize = 0;
    assert(signals@.take(0) =~= Seq::<DagSignalRecord>::empty());
    while i < signals.len()
        invariant
            i <= signals.len(),
            out@ == related_open_signals(signals@.take(i as int), work_item_id@, run_id@),
        decreases signals.len() - i,
    {
        assert(signals@.take(i + 1).drop_last() =~= signals@.take(i as int));
        let s = &signals[i];
        let scoped = match &s.work_item_id {
            None => true,
            Some(w) => text_eq(w.as_str(), work_item_id) || match &s.run_id {
                Some(r) => text_eq(r.as_str(), run_id),
                None => false,
            },
        };
        if text_eq(s.state.as_str(), "open") && scoped {
            out.push(s.duplicate());
        }
        i += 1;
    }
    assert(signals@.take(signals.len() as int) =~= signals@);
    out
}

/// `i` is the first position of a work item with id `id`.
pub open spec fn first_item_with_id(items: Seq<WorkItemWithRuntimeView>, id: Seq<char>, i: int) -> bool {
    &&& 0 <= i < items.len()
    &&& items[i].work_item.work_item_id@ == id
    &&& forall|j: int| 0 <= j < i ==> items[j].work_item.work_item_id@ != id
}

/// The work item an execution turn works on.
pub fn find_work_item(items: &Vec<WorkItemWithRuntimeView>, work_item_id: &str) -> (r: Result<
    WorkItemWithRuntimeView,
    Error,
>)
    ensures
        match r {
            Ok(x) => exists|i: int| first_item_with_id(items@, work_item_id@, i) && same_item(x, items@[i]),
            Err(e) => (forall|i: int| 0 <= i < items@.len() ==> items@[i].work_item.work_item_id@
                != work_item_id@) && e@ == ErrorV::NotFound("work item "@ + work_item_id@ + " not found"@),
        },
{
    let mut i: usize = 0;
    while i < items.len()
        invariant
            i <= items.len(),
            forall|j: int| 0 <= j < i ==> items@[j].work_item.work_item_id@ != work_item_id@,
        decreases items.len() - i,
    {
        if text_eq(items[i].work_item.work_item_id.as_str(), work_item_id) {
            let x = items[i].duplicate();
            assert(first_item_with_id(items@, work_item_id@, i as int));
            return Ok(x);
        }
        i += 1;
    }
    Err(Error::NotFound(cat3("work item ", work_item_id, " not found")))
}

/// The run an execution turn belongs to.
pub fn find_run(runs: &Vec<WorkItemRunRecord>, run_id: &str) -> (r: Result<WorkItemRunRecord, Error>)
    ensures
        match r {
            Ok(x) => exists|i: int|
                0 <= i < runs@.len() && runs@[i].run_id@ == run_id@ && x == runs@[i] && forall|j: int|
                    0 <= j < i ==> runs@[j].run_id@ != run_id@,
            Err(e) => (forall|i: int| 0 <= i < runs@.len() ==> runs@[i].run_id@ != run_id@) && e@
                == ErrorV::NotFound("work item run "@ + run_id@ + " not found"@),
        },
{
    let mut i: usize = 0;
    while i < runs.len()
        invariant
            i <= runs.len(),
            forall|j: int| 0 <= j < i ==> runs@[j].run_id@ != run_id@,
        decreases runs.len() - i,
    {
        if text_eq(runs[i].run_id.as_str(), run_id) {
            return Ok(runs[i].duplicate());
        }
        i += 1;
    }
    Err(Error::NotFound(cat3("work item run ", run_id, " not found")))
}

/// The item has a runtime whose state is `completed`.
pub open spec fn is_completed_item(item: WorkItemWithRuntimeView) -> bool {
    item.runtime is Some && item.runtime->0.current_state@ == "completed"@
}

/// The first completed work item with id `id`, if any.
pub open spec fn first_completed(items: Seq<WorkItemWithRuntimeView>, id: Seq<char>) -> Option<int>
    decreases items.len(),
{
    if items.len() == 0 {
        None
    } else if items[0].work_item.work_item_id@ == id && is_completed_item(items[0]) {
        Some(0)
    } else {
        match first_completed(items.drop_first(), id) {
            Some(i) => Some(i + 1),
            None => None,
        }
    }
}

/// For each edge into `work_item_id` (in edge order), the position of the
/// first completed work item it comes from, when there is one.
pub open spec fn upstream_positions(
    edges: Seq<WorkItemEdgeView>,
    items: Seq<WorkItemWithRuntimeView>,
    work_item_id: Seq<char>,
) -> Seq<int>
    decreases edges.len(),
{
    if edges.len() == 0 {
        Seq::empty()
    } else {
        let prev = upstream_positions(edges.drop_last(), items, work_item_id);
        let e = edges.last();
        if e.to_work_item_id@ == work_item_id {
            match first_completed(items, e.from_work_item_id@) {
                Some(i) => prev.push(i),
                None => prev,
            }
        } else {
            prev
        }
    }
}

proof fn lemma_first_completed_bounds(items: Seq<WorkItemWithRuntimeView>, id: Seq<char>)
    ensures
        first_completed(items, id) matches Some(i) ==> 0 <= i < items.len(),
    decreases items.len(),
{
    if items.len() > 0 {
        lemma_first_completed_bounds(items.drop_first(), id);
    }
}

/// Position of the first completed work item with id `id`.
fn first_completed_position(items: &Vec<WorkItemWithRuntimeView>, id: &str) -> (r: Option<usize>)
    ensures
        match r {
            Some(i) => first_completed(items@, id@) == Some(i as int) && i < items@.len(),
            None => first_completed(items@, id@) is None,
        },
{
    let mut i: usize = 0;
    assert(items@.skip(0) =~= items@);
    while i < items.len()
        invariant
            i <= items.len(),
            first_completed(items@, id@) == (match first_completed(items@.skip(i as int), id@) {
                Some(k) => Some(k + i),
                None => None::<int>,
            }),
        decreases items.len() - i,
    {
        assert(items@.skip(i as int).drop_first() =~= items@.skip(i + 1));
        assert(items@.skip(i as int)[0] == items@[i as int]);
        let item = &items[i];
        let completed = match &item.runtime {
            Some(rt) => text_eq(rt.current_state.as_str(), "completed"),
            None => false,
        };
        if completed && text_eq(item.work_item.work_item_id.as_str(), id) {
            return Some(i);
        }
        i += 1;
    }
    None
}

/// The completed work items an execution turn's work item depends on, in
/// dependency order.
pub fn select_upstream_completed(
    edges: &Vec<WorkItemEdgeView>,
    items: &Vec<WorkItemWithRuntimeView>,
    work_item_id: &str,
) -> (r: Vec<WorkItemWithRuntimeView>)
    ensures
        r@.len() == upstream_positions(edges@, items@, work_item_id@).len(),
        forall|k: int|
            0 <= k < r@.len() ==> same_item(
                #[trigger] r@[k],
                items@[upstream_positions(edges@, items@, work_item_id@)[k]],
            ),
{
    let mut out: Vec<WorkItemWithRuntimeView> = Vec::new();
    let mut i: usize = 0;
    assert(edges@.take(0) =~= Seq::<WorkItemEdgeView>::empty());
    let ghost mut pos: Seq<int> = Seq::empty();
    while i < edges.len()
        invariant
            i <= edges.len(),
            pos == upstream_positions(edges@.take(i as int), items@, work_item_id@),
            out@.len() == pos.len(),
            forall|k: int| 0 <= k < pos.len() ==> 0 <= #[trigger] pos[k] < items@.len(),
            forall|k: int| 0 <= k < out@.len() ==> same_item(#[trigger] out@[k], items@[pos[k]]),
        decreases edges.len() - i,
    {
        assert(edges@.take(i + 1).drop_last() =~= edges@.take(i as int));
        let e = &edges[i];
        let ghost old_out = out@;
        let ghost old_pos = pos;
        if text_eq(e.to_work_item_id.as_str(), work_item_id) {
            match first_completed_position(items, e.from_work_item_id.as_str()) {
                Some(p) => {
                    let x = items[p].duplicate();
                    out.push(x);
                    proof {
                        pos = pos.push(p as int);
                        assert forall|k: int| 0 <= k < pos.len() implies 0 <= #[trigger] pos[k] < items@.len() by {
                            if k < old_pos.len() {
                                assert(pos[k] == old_pos[k]);
                            }
                        }
                        assert forall|k: int| 0 <= k < out@.len() implies same_item(#[trigger] out@[k], items@[pos[k]]) by {
                            if k < old_out.len() {
                                assert(out@[k] == old_out[k]);
                                assert(pos[k] == old_pos[k]);
                            }
                        }
                    }
                },
                None => {},
            }
        }
        i += 1;
    }
    assert(edges@.take(edges.len() as int) =~= edges@);
    out
}


/// A planning session submits one successful plan: a proposal it already
/// applied refuses the next submission.
pub fn check_no_applied_plan(applied_proposal: Option<String>) -> (r: Result<(), Error>)
    ensures
        r is Ok <==> applied_proposal is None,
        r matches Err(e) ==> applied_proposal matches Some(p) && e@ == ErrorV::StateConflict(
            "submitPlan already applied proposal "@ + p@ + " for this planning session"@,
        ),
{
    match applied_proposal {
        Some(p) => Err(Error::StateConflict(cat3("submitPlan already applied proposal ", p.as_str(), " for this planning session"))),
        None => Ok(()),
    }
}

/// The answer of `getContext`: the rendered context.
#[derive(Debug)]
pub struct GetContextToolResponse {
    pub text: String,
}

/// The answer of `submitPlan`: the proposal, the JSON texts of its
/// validation report and of what was applied, and the scheduler's report.
#[derive(Debug)]
pub struct SubmitPlanToolResponse {
    pub proposal_id: String,
    pub validation: String,
    pub apply: String,
    pub scheduler: serde_json::Value,
}

/// The validation report of an accepted plan: `{"ok":true}`.
pub open spec fn plan_validation_text() -> Seq<char> {
    "{\"ok\":true}"@
}

/// What an accepted plan reports as applied, as a JSON object with its keys
/// in order: `applied` true, the proposal's mode and its state.
pub open spec fn plan_apply_text(proposal_state: Seq<char>, proposal_mode: Seq<char>) -> Seq<char> {
    "{\"applied\":true,\"mode\":"@ + json_string_text(proposal_mode) + ",\"proposal_state\":"@
        + json_string_text(proposal_state) + "}"@
}

/// The answer of an accepted `submitPlan`: validation ok, the proposal
/// applied with its state and mode, and the scheduler's report passed on.
pub fn submit_plan_answer(
    proposal_id: String,
    proposal_state: &str,
    proposal_mode: &str,
    scheduler: serde_json::Value,
) -> (r: SubmitPlanToolResponse)
    ensures
        r.proposal_id == proposal_id,
        r.validation@ == plan_validation_text(),
        r.apply@ == plan_apply_text(proposal_state@, proposal_mode@),
        r.scheduler == scheduler,
{
    let validation = String::from_str("{\"ok\":true}");
    let mode = json_string(proposal_mode);
    let state = json_string(proposal_state);
    let apply = String::from_str("{\"applied\":true,\"mode\":").concat(mode.as_str()).concat(
        ",\"proposal_state\":",
    ).concat(state.as_str()).concat("}");
    SubmitPlanToolResponse { proposal_id, validation, apply, scheduler }
}

/// The answer of `submitResult`.
#[derive(Debug)]
pub struct SubmitResultToolResponse {
    pub task_id: String,
    pub work_item_id: String,
    pub run_id: String,
    pub state: String,
    pub scheduler: serde_json::Value,
}

/// The answer of `raiseSignal`.
#[derive(Debug)]
pub struct RaiseSignalToolResponse {
    pub signal_id: String,
    pub task_id: String,
    pub work_item_id: Option<String>,
    pub run_id: Option<String>,
    pub kind: String,
    pub state: String,
    pub policy: serde_json::Value,
}

/// The answer of a tool call.
#[derive(Debug)]
pub enum AgentToolResponse {
    Skeleton { context: AgentToolContext },
    GetContext(GetContextToolResponse),
    SubmitPlan(SubmitPlanToolResponse),
    SubmitResult(SubmitResultToolResponse),
    RaiseSignal(RaiseSignalToolResponse),
}

/// Resolves who calls an agent tool, in which turn and for which task.
pub struct AgentToolContextResolver<P> {
    pool: P,
}

impl<P> AgentToolContextResolver<P> {
    /// The pool the resolver reads.
    pub closed spec fn spec_pool(&self) -> P {
        self.pool
    }

    /// A resolver reading `pool`.
    pub fn new(pool: P) -> (r: Self)
        ensures
            r.spec_pool() == pool,
    {
        Self { pool }
    }

    /// The pool the resolver reads.
    pub fn pool(&self) -> (r: &P)
        ensures
            *r == self.spec_pool(),
    {
        &self.pool
    }
}

/// Serves the agent tools.
pub struct AgentToolService<P> {
    pool: P,
    resolver: AgentToolContextResolver<P>,
    queries: ExternalQueryService<P>,
    profiles: AgentProfileService<P>,
}

impl<P: Clone> AgentToolService<P> {
    /// The pool the service writes.
    pub closed spec fn spec_pool(&self) -> P {
        self.pool
    }

    /// The resolver of the service.
    pub closed spec fn spec_resolver(&self) -> AgentToolContextResolver<P> {
        self.resolver
    }

    /// The read model the service queries.
    pub closed spec fn spec_queries(&self) -> ExternalQueryService<P> {
        self.queries
    }

    /// The execution profiles the service reads.
    pub closed spec fn spec_profiles(&self) -> AgentProfileService<P> {
        self.profiles
    }

    /// A service on `pool`: it keeps `pool`, and its resolver, queries and
    /// profiles each hold a clone of it.
    pub fn new(pool: P) -> (r: Self)
        ensures
            r.spec_pool() == pool,
            cloned(pool, r.spec_resolver().spec_pool()),
            cloned(pool, r.spec_queries().spec_pool()),
            cloned(pool, r.spec_profiles().spec_pool()),
    {
        let resolver = AgentToolContextResolver::new(pool.clone());
        let queries = ExternalQueryService::new(pool.clone());
        let profiles = AgentProfileService::new(pool.clone());
        Self { pool, resolver, queries, profiles }
    }

    /// The pool the service writes.
    pub fn pool(&self) -> (r: &P)
        ensures
            *r == self.spec_pool(),
    {
        &self.pool
    }

    /// The resolver of the service.
    pub fn resolver(&self) -> (r: &AgentToolContextResolver<P>)
        ensures
            *r == self.spec_resolver(),
    {
        &self.resolver
    }

    /// The read model the service queries.
    pub fn queries(&self) -> (r: &ExternalQueryService<P>)
        ensures
            *r == self.spec_queries(),
    {
        &self.queries
    }

    /// The execution profiles the service reads.
    pub fn profiles(&self) -> (r: &AgentProfileService<P>)
        ensures
            *r == self.spec_profiles(),
    {
        &self.profiles
    }
}

/// The execution context an agent's `getContext` answers in an execution
/// turn: the task, the turn's work item (the first with its id) and run (the
/// first with its id), the completed work items it depends on, its acceptance
/// criteria and the open signals that concern it, rendered as
/// `render_execution_context` renders them. A missing work item or run is
/// `NotFound`, the work item first.
pub fn execution_context(
    task: &TaskView,
    work_items: &Vec<WorkItemWithRuntimeView>,
    runs: &Vec<WorkItemRunRecord>,
    edges: &Vec<WorkItemEdgeView>,
    signals: &Vec<DagSignalRecord>,
    work_item_id: &str,
    run_id: &str,
) -> (r: Result<String, Error>)
    ensures
        (forall|i: int| 0 <= i < work_items@.len() ==> work_items@[i].work_item.work_item_id@ != work_item_id@)
            ==> (r matches Err(e) && e@ == ErrorV::NotFound("work item "@ + work_item_id@ + " not found"@)),
        (exists|i: int| 0 <= i < work_items@.len() && work_items@[i].work_item.work_item_id@ == work_item_id@)
            && (forall|i: int| 0 <= i < runs@.len() ==> runs@[i].run_id@ != run_id@) ==> (r matches Err(e) && e@
            == ErrorV::NotFound("work item run "@ + run_id@ + " not found"@)),
        r is Err ==> (forall|i: int| 0 <= i < work_items@.len() ==> work_items@[i].work_item.work_item_id@ != work_item_id@)
            || (forall|i: int| 0 <= i < runs@.len() ==> runs@[i].run_id@ != run_id@),
        r matches Ok(t) ==> exists|x: WorkItemWithRuntimeView, i: int, run: WorkItemRunRecord, j: int, up: Seq<
            WorkItemWithRuntimeView,
        >| {
            &&& first_item_with_id(work_items@, work_item_id@, i)
            &&& same_item(x, work_items@[i])
            &&& 0 <= j < runs@.len()
            &&& runs@[j].run_id@ == run_id@
            &&& (forall|l: int| 0 <= l < j ==> runs@[l].run_id@ != run_id@)
            &&& run == runs@[j]
            &&& up.len() == upstream_positions(edges@, work_items@, work_item_id@).len()
            &&& (forall|k: int|
                0 <= k < up.len() ==> same_item(
                    #[trigger] up[k],
                    work_items@[upstream_positions(edges@, work_items@, work_item_id@)[k]],
                ))
            &&& t@ == join(
                execution_lines(
                    *task,
                    x,
                    run,
                    up,
                    x.work_item.acceptance_criteria,
                    related_open_signals(signals@, work_item_id@, run_id@),
                ),
                "\n"@,
            )
        },
{
    let item = find_work_item(work_items, work_item_id)?;
    let run = find_run(runs, run_id)?;
    let upstream = select_upstream_completed(edges, work_items, work_item_id);
    let open = select_related_open_signals(signals, work_item_id, run_id);
    let text = render_execution_context(task, &item, &run, &upstream, &item.work_item.acceptance_criteria, &open);
    Ok(text)
}

} // verus!
