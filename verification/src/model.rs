//! The records of tasks, DAG work items, runs, signals, proposals and
//! execution profiles, as far as the library's logic reads them.
use vstd::prelude::*;

verus! {

/// A JSON object field as the tool logic reads it: absent, a string, or any
/// other JSON value.
#[derive(Debug)]
pub enum JsonField {
    Absent,
    Text(String),
    Other,
}

/// A task as the agent context shows it.
#[derive(Debug)]
pub struct TaskView {
    pub task_id: String,
    pub input: String,
    pub state: String,
    pub routing_state: String,
    pub workspace_id: Option<String>,
    pub session_id: Option<String>,
    pub turn_id: Option<String>,
}

/// Counts of a task's DAG.
#[derive(Debug)]
pub struct DagSummaryView {
    pub total_work_items: i64,
    pub ready_work_items: i64,
    pub running_work_items: i64,
    pub completed_work_items: i64,
    pub blocked_work_items: i64,
    pub failed_work_items: i64,
    pub open_signals: i64,
    pub total_runs: i64,
}

/// A work item of a DAG.
///
/// `acceptance_criteria` is the JSON value of the criteria: `None` when it is
/// not an array, otherwise one entry per array element, holding the element's
/// text when the element is a string.
#[derive(Debug)]
pub struct WorkItemRecord {
    pub work_item_id: String,
    pub title: String,
    pub description: String,
    pub action: String,
    pub execution_profile_id: String,
    pub acceptance_criteria: Option<Vec<Option<String>>>,
    pub active: bool,
}

/// The runtime projection of a work item: its current run and state, how it
/// ended, its retry budget and scheduling flags.
#[derive(Debug)]
pub struct WorkItemRuntimeView {
    pub current_run_id: Option<String>,
    pub current_state: String,
    pub current_attempt: i64,
    pub ready_at: Option<String>,
    pub blocked_reason: Option<String>,
    pub outcome_state: Option<String>,
    pub outcome_reason: Option<String>,
    pub replanned_from_state: Option<String>,
    pub retry_count: i64,
    pub max_retries: i64,
    pub priority: i64,
    pub optional: bool,
    pub parallelizable: bool,
    pub session_id: Option<String>,
    pub turn_id: Option<String>,
    pub updated_at: String,
}

/// A work item with its runtime projection, if it has one.
#[derive(Debug)]
pub struct WorkItemWithRuntimeView {
    pub work_item: WorkItemRecord,
    pub runtime: Option<WorkItemRuntimeView>,
}

/// A dependency edge: `to_work_item_id` depends on `from_work_item_id`.
#[derive(Debug)]
pub struct WorkItemEdgeView {
    pub from_work_item_id: String,
    pub to_work_item_id: String,
}

/// One run (attempt) of a work item.
#[derive(Debug)]
pub struct WorkItemRunRecord {
    pub run_id: String,
    pub work_item_id: String,
    pub attempt: i64,
    pub state: String,
}

/// A signal raised on a DAG.
#[derive(Debug)]
pub struct DagSignalRecord {
    pub signal_id: String,
    pub work_item_id: Option<String>,
    pub run_id: Option<String>,
    pub kind: String,
    pub summary: String,
    pub detail: Option<String>,
    pub severity: String,
    pub state: String,
}

/// A DAG plan proposal.
#[derive(Debug)]
pub struct DagProposal {
    pub proposal_id: String,
    pub state: String,
    pub mode: String,
    pub summary: String,
}

/// An execution profile, as the planner sees it.
#[derive(Debug)]
pub struct ExecutionProfileView {
    pub profile_id: String,
    pub name: String,
    pub description: Option<String>,
    pub supported_client_types: Vec<String>,
    pub expected_output_schema: Option<String>,
}

/// The whole DAG of a task.
#[derive(Debug)]
pub struct TaskDagView {
    pub task_id: String,
    pub summary: DagSummaryView,
    pub work_items: Vec<WorkItemWithRuntimeView>,
    pub edges: Vec<WorkItemEdgeView>,
    pub runs: Vec<WorkItemRunRecord>,
    pub signals: Vec<DagSignalRecord>,
}

/// The texts of a sequence of strings.
pub open spec fn sv(v: Seq<String>) -> Seq<Seq<char>> {
    v.map_values(|s: String| s@)
}

/// Pushing a string pushes its text.
pub proof fn lemma_sv_push(v: Seq<String>, s: String)
    ensures
        sv(v.push(s)) == sv(v).push(s@),
{
    assert(sv(v.push(s)) =~= sv(v).push(s@));
}


/// A copy of an optional text.
pub fn copy_opt(o: &Option<String>) -> (r: Option<String>)
    ensures
        r == *o,
{
    match o {
        Some(s) => Some(s.clone()),
        None => None,
    }
}

/// The view of a JSON list of optional texts.
pub open spec fn list_view(o: Option<Vec<Option<String>>>) -> Option<Seq<Option<String>>> {
    match o {
        Some(v) => Some(v@),
        None => None,
    }
}

/// `a` and `b` hold the same work item: equal fields, equal criteria lists.
pub open spec fn same_item(a: WorkItemWithRuntimeView, b: WorkItemWithRuntimeView) -> bool {
    &&& a.runtime == b.runtime
    &&& a.work_item.work_item_id == b.work_item.work_item_id
    &&& a.work_item.title == b.work_item.title
    &&& a.work_item.description == b.work_item.description
    &&& a.work_item.action == b.work_item.action
    &&& a.work_item.execution_profile_id == b.work_item.execution_profile_id
    &&& list_view(a.work_item.acceptance_criteria) == list_view(b.work_item.acceptance_criteria)
    &&& a.work_item.active == b.work_item.active
}

/// A copy of a JSON list of optional texts.
pub fn copy_opt_list(o: &Option<Vec<Option<String>>>) -> (r: Option<Vec<Option<String>>>)
    ensures
        list_view(r) == list_view(*o),
{
    match o {
        None => None,
        Some(v) => {
            let mut out: Vec<Option<String>> = Vec::new();
            let mut i: usize = 0;
            while i < v.len()
                invariant
                    i <= v.len(),
                    out@ == v@.take(i as int),
                decreases v.len() - i,
            {
                out.push(copy_opt(&v[i]));
                assert(out@ =~= v@.take(i + 1));
                i += 1;
            }
            assert(out@ =~= v@);
            Some(out)
        },
    }
}

impl DagSignalRecord {
    /// A copy of the record.
    pub fn duplicate(&self) -> (r: Self)
        ensures
            r == *self,
    {
        DagSignalRecord {
            signal_id: self.signal_id.clone(),
            work_item_id: copy_opt(&self.work_item_id),
            run_id: copy_opt(&self.run_id),
            kind: self.kind.clone(),
            summary: self.summary.clone(),
            detail: copy_opt(&self.detail),
            severity: self.severity.clone(),
            state: self.state.clone(),
        }
    }
}

impl WorkItemRuntimeView {
    /// A copy of the projection.
    pub fn duplicate(&self) -> (r: Self)
        ensures
            r == *self,
    {
        WorkItemRuntimeView {
            current_run_id: copy_opt(&self.current_run_id),
            current_state: self.current_state.clone(),
            current_attempt: self.current_attempt,
            ready_at: copy_opt(&self.ready_at),
            blocked_reason: copy_opt(&self.blocked_reason),
            outcome_state: copy_opt(&self.outcome_state),
            outcome_reason: copy_opt(&self.outcome_reason),
            replanned_from_state: copy_opt(&self.replanned_from_state),
            retry_count: self.retry_count,
            max_retries: self.max_retries,
            priority: self.priority,
            optional: self.optional,
            parallelizable: self.parallelizable,
            session_id: copy_opt(&self.session_id),
            turn_id: copy_opt(&self.turn_id),
            updated_at: self.updated_at.clone(),
        }
    }
}

impl WorkItemWithRuntimeView {
    /// A copy of the record.
    pub fn duplicate(&self) -> (r: Self)
        ensures
            same_item(r, *self),
    {
        let w = &self.work_item;
        WorkItemWithRuntimeView {
            work_item: WorkItemRecord {
                work_item_id: w.work_item_id.clone(),
                title: w.title.clone(),
                description: w.description.clone(),
                action: w.action.clone(),
                execution_profile_id: w.execution_profile_id.clone(),
                acceptance_criteria: copy_opt_list(&w.acceptance_criteria),
                active: w.active,
            },
            runtime: match &self.runtime {
                Some(rt) => Some(rt.duplicate()),
                None => None,
            },
        }
    }
}

impl WorkItemRunRecord {
    /// A copy of the record.
    pub fn duplicate(&self) -> (r: Self)
        ensures
            r == *self,
    {
        WorkItemRunRecord {
            run_id: self.run_id.clone(),
            work_item_id: self.work_item_id.clone(),
            attempt: self.attempt,
            state: self.state.clone(),
        }
    }
}

} // verus!
