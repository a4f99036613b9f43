//! The text an agent receives from the `getContext` tool: a planning context
//! for planner and replanner turns, an execution context for work item runs.
use vstd::prelude::*;
use vstd::string::*;

use crate::agent_tools::{planning_role_text, spec_role_text, AgentPlanningRole};
use crate::model::{
    lemma_sv_push, sv, DagProposal, DagSignalRecord, DagSummaryView, ExecutionProfileView, TaskDagView,
    TaskView, WorkItemEdgeView, WorkItemRunRecord, WorkItemWithRuntimeView,
};
use crate::text::{i64_text, int_text, join, join_texts, owned, trim, trim_text, blank};

verus! {

/// The view of an optional text.
pub open spec fn ov(v: Option<String>) -> Option<Seq<char>> {
    match v {
        Some(x) => Some(x@),
        None => None,
    }
}

/// `value` trimmed, unless it is absent or blank after trimming.
pub open spec fn spec_non_empty(value: Option<Seq<char>>) -> Option<Seq<char>> {
    match value {
        Some(v) => if trim(v).len() == 0 {
            None
        } else {
            Some(trim(v))
        },
        None => None,
    }
}

/// `label: value` when there is a value.
pub open spec fn optional_line(label: Seq<char>, value: Option<Seq<char>>) -> Seq<Seq<char>> {
    match value {
        Some(v) => seq![label + ": "@ + v],
        None => Seq::empty(),
    }
}

/// The non-blank string elements of a JSON array, trimmed, in order.
pub open spec fn list_entries(items: Seq<Option<String>>) -> Seq<Seq<char>>
    decreases items.len(),
{
    if items.len() == 0 {
        Seq::empty()
    } else {
        let prev = list_entries(items.drop_last());
        match spec_non_empty(ov(items.last())) {
            Some(t) => prev.push(t),
            None => prev,
        }
    }
}

/// The entries of a JSON value read as a list: none when it is not an array.
pub open spec fn value_entries(value: Option<Vec<Option<String>>>) -> Seq<Seq<char>> {
    match value {
        Some(v) => list_entries(v@),
        None => Seq::empty(),
    }
}

/// `  - item` for each item.
pub open spec fn bullets(items: Seq<Seq<char>>) -> Seq<Seq<char>>
    decreases items.len(),
{
    if items.len() == 0 {
        Seq::empty()
    } else {
        bullets(items.drop_last()).push("  - "@ + items.last())
    }
}

/// A labelled list of the entries of `value`; `label: empty_text` (or nothing)
/// when it has none.
pub open spec fn value_list_lines(
    label: Seq<char>,
    value: Option<Vec<Option<String>>>,
    empty_text: Option<Seq<char>>,
) -> Seq<Seq<char>> {
    let items = value_entries(value);
    if items.len() == 0 {
        match empty_text {
            Some(t) => seq![label + ": "@ + t],
            None => Seq::empty(),
        }
    } else {
        seq![label + ":"@] + bullets(items)
    }
}

/// The lines of one signal.
pub open spec fn signal_lines(s: DagSignalRecord) -> Seq<Seq<char>> {
    seq![
        "- "@ + s.signal_id@ + " ["@ + s.severity@ + " / "@ + s.kind@ + "]: "@ + s.summary@,
    ] + optional_line("  Detail"@, spec_non_empty(ov(s.detail)))
}

/// The lines of several signals.
pub open spec fn signals_body(signals: Seq<DagSignalRecord>) -> Seq<Seq<char>>
    decreases signals.len(),
{
    if signals.len() == 0 {
        Seq::empty()
    } else {
        signals_body(signals.drop_last()) + signal_lines(signals.last())
    }
}

/// A labelled list of signals, `label: none.` when there are none.
pub open spec fn signal_section(label: Seq<char>, signals: Seq<DagSignalRecord>) -> Seq<Seq<char>> {
    if signals.len() == 0 {
        seq![label + ": none."@]
    } else {
        seq![label + ":"@] + signals_body(signals)
    }
}

/// The current state of a work item, `default` when it has no runtime.
pub open spec fn state_or(item: WorkItemWithRuntimeView, default: Seq<char>) -> Seq<char> {
    match item.runtime {
        Some(r) => r.current_state@,
        None => default,
    }
}

/// The work items `id` depends on, in edge order.
pub open spec fn depends_on(edges: Seq<WorkItemEdgeView>, id: Seq<char>) -> Seq<Seq<char>>
    decreases edges.len(),
{
    if edges.len() == 0 {
        Seq::empty()
    } else {
        let prev = depends_on(edges.drop_last(), id);
        if edges.last().to_work_item_id@ == id {
            prev.push(edges.last().from_work_item_id@)
        } else {
            prev
        }
    }
}

/// `    Depends on: a, b` when there are dependencies.
pub open spec fn depends_line(deps: Seq<Seq<char>>) -> Seq<Seq<char>> {
    if deps.len() == 0 {
        Seq::empty()
    } else {
        seq!["    Depends on: "@ + join(deps, ", "@)]
    }
}

/// The lines of one work item of the planning DAG.
pub open spec fn planning_item_lines(item: WorkItemWithRuntimeView, edges: Seq<WorkItemEdgeView>) -> Seq<
    Seq<char>,
> {
    let w = item.work_item;
    seq!["  - "@ + w.work_item_id@ + " ["@ + state_or(item, "unknown"@) + "] "@ + w.title@]
        + optional_line("    Description"@, spec_non_empty(Some(w.description@)))
        + optional_line("    Action"@, spec_non_empty(Some(w.action@)))
        + seq!["    Profile: "@ + w.execution_profile_id@]
        + depends_line(depends_on(edges, w.work_item_id@))
        + value_list_lines("    Acceptance"@, w.acceptance_criteria, None)
}

/// The lines of the work items of the planning DAG.
pub open spec fn planning_items_lines(
    items: Seq<WorkItemWithRuntimeView>,
    edges: Seq<WorkItemEdgeView>,
) -> Seq<Seq<char>>
    decreases items.len(),
{
    if items.len() == 0 {
        Seq::empty()
    } else {
        planning_items_lines(items.drop_last(), edges) + planning_item_lines(items.last(), edges)
    }
}

/// The summary line of a DAG.
pub open spec fn summary_line(s: DagSummaryView) -> Seq<char> {
    "- Summary: total "@ + int_text(s.total_work_items as int) + ", ready "@ + int_text(
        s.ready_work_items as int,
    ) + ", running "@ + int_text(s.running_work_items as int) + ", completed "@ + int_text(
        s.completed_work_items as int,
    ) + ", blocked "@ + int_text(s.blocked_work_items as int) + ", failed "@ + int_text(
        s.failed_work_items as int,
    ) + ", open signals "@ + int_text(s.open_signals as int)
}

/// The DAG section of the planning context.
pub open spec fn dag_section(dag: TaskDagView) -> Seq<Seq<char>> {
    if dag.work_items@.len() == 0 {
        seq!["Current DAG: none yet."@]
    } else {
        seq!["Current DAG:"@, summary_line(dag.summary), "- Work items:"@] + planning_items_lines(
            dag.work_items@,
            dag.edges@,
        )
    }
}

/// The lines of the relevant proposals.
pub open spec fn proposals_body(ps: Seq<DagProposal>) -> Seq<Seq<char>>
    decreases ps.len(),
{
    if ps.len() == 0 {
        Seq::empty()
    } else {
        let p = ps.last();
        proposals_body(ps.drop_last()).push(
            "- "@ + p.proposal_id@ + " ["@ + p.state@ + " / "@ + p.mode@ + "]: "@ + p.summary@,
        )
    }
}

/// The proposal section of the planning context.
pub open spec fn proposal_section(ps: Seq<DagProposal>) -> Seq<Seq<char>> {
    if ps.len() == 0 {
        seq!["Relevant proposals: none."@]
    } else {
        seq!["Relevant proposals:"@] + proposals_body(ps)
    }
}

/// The texts of a vector of strings.
pub open spec fn texts(v: Vec<String>) -> Seq<Seq<char>> {
    v@.map_values(|s: String| s@)
}

/// The lines of one execution profile.
pub open spec fn profile_lines(p: ExecutionProfileView) -> Seq<Seq<char>> {
    let head = "- "@ + p.profile_id@ + ": "@ + p.name@;
    let first = match spec_non_empty(ov(p.description)) {
        Some(d) => head + " — "@ + d,
        None => head,
    };
    seq![first] + (if p.supported_client_types@.len() == 0 {
        Seq::<Seq<char>>::empty()
    } else {
        seq!["  Clients: "@ + join(texts(p.supported_client_types), ", "@)]
    }) + optional_line("  Expected output"@, spec_non_empty(ov(p.expected_output_schema)))
}

/// The lines of several execution profiles.
pub open spec fn profiles_body(ps: Seq<ExecutionProfileView>) -> Seq<Seq<char>>
    decreases ps.len(),
{
    if ps.len() == 0 {
        Seq::empty()
    } else {
        profiles_body(ps.drop_last()) + profile_lines(ps.last())
    }
}

/// The execution profile section of the planning context.
pub open spec fn profile_section(ps: Seq<ExecutionProfileView>) -> Seq<Seq<char>> {
    if ps.len() == 0 {
        seq!["Available execution profiles: none."@]
    } else {
        seq!["Available execution profiles:"@] + profiles_body(ps)
    }
}

/// The workspace line of a task, when it has a workspace.
pub open spec fn workspace_lines(task: TaskView) -> Seq<Seq<char>> {
    optional_line("- Workspace"@, spec_non_empty(ov(task.workspace_id)))
}

/// What the planner or replanner is asked to do next.
pub open spec fn next_line(role: AgentPlanningRole) -> Seq<char> {
    match role {
        AgentPlanningRole::Planner => "- Submit an initial DAG with submitPlan."@,
        AgentPlanningRole::Replanner => "- Submit a DAG patch with submitPlan."@,
    }
}

/// The execution context shows the work item's action: when the action is
/// not blank, the line `- Action: ` with the trimmed action comes right after
/// the work item's title (or its description, when it has one) and right
/// before its profile; when the action is blank, the profile line takes that
/// place.
pub proof fn lemma_execution_context_action(
    task: TaskView,
    item: WorkItemWithRuntimeView,
    run: WorkItemRunRecord,
    upstream: Seq<WorkItemWithRuntimeView>,
    acceptance: Option<Vec<Option<String>>>,
    open_signals: Seq<DagSignalRecord>,
)
    ensures
        ({
            let lines = execution_lines(task, item, run, upstream, acceptance, open_signals);
            let w = item.work_item;
            let after_title_or_description = |j: int|
                lines[j - 1] == "- Title: "@ + w.title@ || lines[j - 1] == "- Description: "@ + trim(
                    w.description@,
                );
            &&& trim(w.action@).len() > 0 ==> exists|j: int|
                1 <= j && j + 1 < lines.len() && #[trigger] lines[j] == "- Action: "@ + trim(w.action@)
                    && after_title_or_description(j) && lines[j + 1] == "- Profile: "@
                    + w.execution_profile_id@
            &&& trim(w.action@).len() == 0 ==> exists|j: int|
                1 <= j < lines.len() && #[trigger] lines[j] == "- Profile: "@ + w.execution_profile_id@
                    && after_title_or_description(j)
        }),
{
    let lines = execution_lines(task, item, run, upstream, acceptance, open_signals);
    let w = item.work_item;
    let head = seq![
        "llmparty context: execution"@,
        Seq::empty(),
        "Task:"@,
        "- Goal: "@ + task.input@,
        "- State: "@ + task.state@,
    ] + workspace_lines(task) + seq![
        Seq::empty(),
        "Current WorkItem:"@,
        "- ID: "@ + w.work_item_id@,
        "- Title: "@ + w.title@,
    ];
    let desc = optional_line("- Description"@, spec_non_empty(Some(w.description@)));
    let act = optional_line("- Action"@, spec_non_empty(Some(w.action@)));
    let tail = seq![
        "- Profile: "@ + w.execution_profile_id@,
        "- Attempt: "@ + int_text(run.attempt as int),
        "- Run state: "@ + run.state@,
    ] + value_list_lines("- Acceptance criteria"@, acceptance, Some("none specified."@)) + seq![
        Seq::empty(),
    ] + completed_section(upstream) + seq![Seq::empty()] + signal_section(
        "Open related signals"@,
        open_signals,
    ) + seq![
        Seq::empty(),
        "Next:"@,
        "- Execute only this WorkItem."@,
        "- Call submitResult when finished."@,
        "- Call raiseSignal if blocked, missing input, or replanning is needed."@,
    ];
    assert(lines =~= head + desc + act + tail);
    reveal_strlit("- Action");
    reveal_strlit("- Action: ");
    reveal_strlit("- Description");
    reveal_strlit("- Description: ");
    reveal_strlit(": ");
    assert("- Action"@ + ": "@ =~= "- Action: "@);
    assert("- Description"@ + ": "@ =~= "- Description: "@);
    let h = head.len() as int;
    let dl = desc.len() as int;
    let al = act.len() as int;
    assert(head[h - 1] == "- Title: "@ + w.title@);
    assert(lines[h - 1 + dl] == "- Title: "@ + w.title@ || lines[h - 1 + dl] == "- Description: "@ + trim(
        w.description@,
    )) by {
        if dl == 0 {
            assert(lines[h - 1] == head[h - 1]);
        } else {
            assert(lines[h] == desc[0]);
            assert(desc[0] == "- Description"@ + ": "@ + trim(w.description@));
        }
    }
    assert(lines[h + dl + al] == "- Profile: "@ + w.execution_profile_id@) by {
        assert(lines[h + dl + al] == tail[0]);
    }
    if trim(w.action@).len() > 0 {
        assert(al == 1);
        assert(lines[h + dl] == act[0]);
        assert(lines[h + dl] == "- Action: "@ + trim(w.action@));
        assert(lines[h + dl + 1] == "- Profile: "@ + w.execution_profile_id@);
    } else {
        assert(al == 0);
    }
}

/// The lines of the planning context.
pub open spec fn planning_lines(
    role: AgentPlanningRole,
    task: TaskView,
    dag: TaskDagView,
    open_signals: Seq<DagSignalRecord>,
    proposals: Seq<DagProposal>,
    profiles: Seq<ExecutionProfileView>,
) -> Seq<Seq<char>> {
    seq![
        "llmparty context: planning"@,
        "Role: "@ + spec_role_text(role),
        Seq::empty(),
        "Task:"@,
        "- Goal: "@ + task.input@,
        "- State: "@ + task.state@,
    ] + workspace_lines(task) + seq![Seq::empty()] + dag_section(dag) + seq![Seq::empty()]
        + signal_section("Open signals"@, open_signals) + seq![Seq::empty()] + proposal_section(
        proposals,
    ) + seq![Seq::empty()] + profile_section(profiles) + seq![
        Seq::empty(),
        "Next:"@,
        next_line(role),
        "- Do not include task_id, work_item_id, run_id, session_id, or turn_id."@,
    ]
}

/// The lines of the completed dependencies of the execution context.
pub open spec fn completed_body(items: Seq<WorkItemWithRuntimeView>) -> Seq<Seq<char>>
    decreases items.len(),
{
    if items.len() == 0 {
        Seq::empty()
    } else {
        let w = items.last().work_item;
        completed_body(items.drop_last()).push(
            "- "@ + w.work_item_id@ + " ["@ + state_or(items.last(), "completed"@) + "] "@ + w.title@,
        )
    }
}

/// The dependency section of the execution context.
pub open spec fn completed_section(items: Seq<WorkItemWithRuntimeView>) -> Seq<Seq<char>> {
    if items.len() == 0 {
        seq!["Completed dependencies: none."@]
    } else {
        seq!["Completed dependencies:"@] + completed_body(items)
    }
}

/// The lines of the execution context.
pub open spec fn execution_lines(
    task: TaskView,
    item: WorkItemWithRuntimeView,
    run: WorkItemRunRecord,
    upstream: Seq<WorkItemWithRuntimeView>,
    acceptance: Option<Vec<Option<String>>>,
    open_signals: Seq<DagSignalRecord>,
) -> Seq<Seq<char>> {
    let w = item.work_item;
    seq![
        "llmparty context: execution"@,
        Seq::empty(),
        "Task:"@,
        "- Goal: "@ + task.input@,
        "- State: "@ + task.state@,
    ] + workspace_lines(task) + seq![
        Seq::empty(),
        "Current WorkItem:"@,
        "- ID: "@ + w.work_item_id@,
        "- Title: "@ + w.title@,
    ] + optional_line("- Description"@, spec_non_empty(Some(w.description@))) + optional_line(
        "- Action"@,
        spec_non_empty(Some(w.action@)),
    ) + seq![
        "- Profile: "@ + w.execution_profile_id@,
        "- Attempt: "@ + int_text(run.attempt as int),
        "- Run state: "@ + run.state@,
    ] + value_list_lines("- Acceptance criteria"@, acceptance, Some("none specified."@)) + seq![
        Seq::empty(),
    ] + completed_section(upstream) + seq![Seq::empty()] + signal_section(
        "Open related signals"@,
        open_signals,
    ) + seq![
        Seq::empty(),
        "Next:"@,
        "- Execute only this WorkItem."@,
        "- Call submitResult when finished."@,
        "- Call raiseSignal if blocked, missing input, or replanning is needed."@,
    ]
}

/// Appends one line.
fn push_line(lines: &mut Vec<String>, line: String)
    ensures
        sv(final(lines)@) == sv(old(lines)@).push(line@),
{
    let ghost before = lines@;
    lines.push(line);
    proof {
        lemma_sv_push(before, line);
    }
}

/// The value trimmed, unless it is absent or blank.
pub fn non_empty(value: Option<&str>) -> (r: Option<String>)
    ensures
        ov(r) == spec_non_empty(
            match value {
                Some(v) => Some(v@),
                None => None,
            },
        ),
{
    match value {
        Some(v) => {
            let t = trim_text(v);
            if t.as_str().unicode_len() == 0 {
                None
            } else {
                Some(t)
            }
        },
        None => None,
    }
}

/// Appends `label: value` when there is a value.
pub fn push_optional(lines: &mut Vec<String>, label: &str, value: Option<String>)
    ensures
        sv(final(lines)@) == sv(old(lines)@) + optional_line(label@, ov(value)),
{
    match value {
        Some(v) => {
            let line = String::from_str(label).concat(": ").concat(v.as_str());
            push_line(lines, line);
            assert(sv(lines@) =~= sv(old(lines)@) + optional_line(label@, ov(Some(v))));
        },
        None => {
            assert(sv(lines@) =~= sv(old(lines)@) + optional_line(label@, ov(value)));
        },
    }
}

/// The non-blank string entries of a JSON list, trimmed.
fn entries_of(value: &Option<Vec<Option<String>>>) -> (r: Vec<String>)
    ensures
        sv(r@) == value_entries(*value),
{
    let mut out: Vec<String> = Vec::new();
    match value {
        None => {
            assert(sv(out@) =~= Seq::<Seq<char>>::empty());
            out
        },
        Some(items) => {
            let mut i: usize = 0;
            assert(items@.take(0) =~= Seq::<Option<String>>::empty());
            assert(sv(out@) =~= Seq::<Seq<char>>::empty());
            while i < items.len()
                invariant
                    i <= items.len(),
                    sv(out@) == list_entries(items@.take(i as int)),
                decreases items.len() - i,
            {
                assert(items@.take(i + 1).drop_last() =~= items@.take(i as int));
                let entry = match &items[i] {
                    Some(t) => non_empty(Some(t.as_str())),
                    None => None,
                };
                match entry {
                    Some(t) => {
                        push_line(&mut out, t);
                    },
                    None => {},
                }
                i += 1;
            }
            assert(items@.take(items.len() as int) =~= items@);
            out
        },
    }
}

/// Appends a labelled list of the entries of `value`; `label: empty_text`
/// (or nothing) when it has none.
pub fn push_value_list(
    lines: &mut Vec<String>,
    label: &str,
    value: &Option<Vec<Option<String>>>,
    empty_text: Option<&str>,
)
    ensures
        sv(final(lines)@) == sv(old(lines)@) + value_list_lines(
            label@,
            *value,
            match empty_text {
                Some(t) => Some(t@),
                None => None,
            },
        ),
{
    let items = entries_of(value);
    if items.len() == 0 {
        match empty_text {
            Some(t) => {
                push_line(lines, String::from_str(label).concat(": ").concat(t));
            },
            None => {},
        }
        assert(sv(lines@) =~= sv(old(lines)@) + value_list_lines(
            label@,
            *value,
            match empty_text {
                Some(t) => Some(t@),
                None => None,
            },
        ));
        return ;
    }
    push_line(lines, String::from_str(label).concat(":"));
    let ghost base = sv(lines@);
    let ghost iv = sv(items@);
    let mut i: usize = 0;
    assert(iv.take(0) =~= Seq::<Seq<char>>::empty());
    assert(sv(lines@) =~= base + bullets(iv.take(0)));
    while i < items.len()
        invariant
            i <= items.len(),
            iv == sv(items@),
            sv(lines@) == base + bullets(iv.take(i as int)),
        decreases items.len() - i,
    {
        assert(iv.take(i + 1).drop_last() =~= iv.take(i as int));
        assert(iv.take(i + 1).last() == items@[i as int]@);
        push_line(lines, String::from_str("  - ").concat(items[i].as_str()));
        assert(sv(lines@) =~= base + bullets(iv.take(i + 1)));
        i += 1;
    }
    assert(iv.take(items.len() as int) =~= iv);
    assert(sv(lines@) =~= sv(old(lines)@) + value_list_lines(
        label@,
        *value,
        match empty_text {
            Some(t) => Some(t@),
            None => None,
        },
    ));
}

/// Appends the lines of a list of signals; `label: none.` when there are none.
pub fn push_signals(lines: &mut Vec<String>, label: &str, signals: &Vec<DagSignalRecord>)
    ensures
        sv(final(lines)@) == sv(old(lines)@) + signal_section(label@, signals@),
{
    if signals.len() == 0 {
        push_line(lines, String::from_str(label).concat(": none."));
        assert(sv(lines@) =~= sv(old(lines)@) + signal_section(label@, signals@));
        return ;
    }
    push_line(lines, String::from_str(label).concat(":"));
    let ghost base = sv(lines@);
    let mut i: usize = 0;
    assert(signals@.take(0) =~= Seq::<DagSignalRecord>::empty());
    assert(sv(lines@) =~= base + signals_body(signals@.take(0)));
    while i < signals.len()
        invariant
            i <= signals.len(),
            sv(lines@) == base + signals_body(signals@.take(i as int)),
        decreases signals.len() - i,
    {
        assert(signals@.take(i + 1).drop_last() =~= signals@.take(i as int));
        let s = &signals[i];
        let ghost before = sv(lines@);
        let line = String::from_str("- ").concat(s.signal_id.as_str()).concat(" [").concat(
            s.severity.as_str(),
        ).concat(" / ").concat(s.kind.as_str()).concat("]: ").concat(s.summary.as_str());
        push_line(lines, line);
        let detail = match &s.detail {
            Some(d) => non_empty(Some(d.as_str())),
            None => None,
        };
        push_optional(lines, "  Detail", detail);
        assert(sv(lines@) =~= before + signal_lines(*s));
        assert(sv(lines@) =~= base + signals_body(signals@.take(i + 1)));
        i += 1;
    }
    assert(signals@.take(signals.len() as int) =~= signals@);
    assert(sv(lines@) =~= sv(old(lines)@) + signal_section(label@, signals@));
}


/// Appends the workspace line of a task, when it has a workspace.
fn push_workspace(lines: &mut Vec<String>, task: &TaskView)
    ensures
        sv(final(lines)@) == sv(old(lines)@) + workspace_lines(*task),
{
    let ws = match &task.workspace_id {
        Some(w) => non_empty(Some(w.as_str())),
        None => None,
    };
    push_optional(lines, "- Workspace", ws);
}

/// The ids of the work items `id` depends on, in edge order.
fn depends_ids(edges: &Vec<WorkItemEdgeView>, id: &str) -> (r: Vec<String>)
    ensures
        sv(r@) == depends_on(edges@, id@),
{
    let mut out: Vec<String> = Vec::new();
    let mut i: usize = 0;
    assert(edges@.take(0) =~= Seq::<WorkItemEdgeView>::empty());
    assert(sv(out@) =~= Seq::<Seq<char>>::empty());
    while i < edges.len()
        invariant
            i <= edges.len(),
            sv(out@) == depends_on(edges@.take(i as int), id@),
        decreases edges.len() - i,
    {
        assert(edges@.take(i + 1).drop_last() =~= edges@.take(i as int));
        if crate::text::text_eq(edges[i].to_work_item_id.as_str(), id) {
            push_line(&mut out, owned(edges[i].from_work_item_id.as_str()));
        }
        i += 1;
    }
    assert(edges@.take(edges.len() as int) =~= edges@);
    out
}

/// The current state of a work item, `default` when it has no runtime.
fn item_state(item: &WorkItemWithRuntimeView, default: &str) -> (r: String)
    ensures
        r@ == state_or(*item, default@),
{
    match &item.runtime {
        Some(rt) => owned(rt.current_state.as_str()),
        None => owned(default),
    }
}

/// Appends the lines of one work item of the planning DAG.
fn push_planning_item(lines: &mut Vec<String>, item: &WorkItemWithRuntimeView, edges: &Vec<WorkItemEdgeView>)
    ensures
        sv(final(lines)@) == sv(old(lines)@) + planning_item_lines(*item, edges@),
{
    let w = &item.work_item;
    let state = item_state(item, "unknown");
    push_line(
        lines,
        String::from_str("  - ").concat(w.work_item_id.as_str()).concat(" [").concat(
            state.as_str(),
        ).concat("] ").concat(w.title.as_str()),
    );
    let ghost a = sv(lines@);
    push_optional(lines, "    Description", non_empty(Some(w.description.as_str())));
    push_optional(lines, "    Action", non_empty(Some(w.action.as_str())));
    push_line(lines, String::from_str("    Profile: ").concat(w.execution_profile_id.as_str()));
    let deps = depends_ids(edges, w.work_item_id.as_str());
    let ghost b = sv(lines@);
    if deps.len() > 0 {
        let joined = join_texts(&deps, ", ");
        assert(deps@.map_values(|p: String| p@) == sv(deps@));
        push_line(lines, String::from_str("    Depends on: ").concat(joined.as_str()));
    }
    assert(sv(lines@) =~= b + depends_line(depends_on(edges@, w.work_item_id@)));
    push_value_list(lines, "    Acceptance", &w.acceptance_criteria, None);
    assert(sv(lines@) =~= sv(old(lines)@) + planning_item_lines(*item, edges@));
}

/// Appends the DAG section of the planning context.
fn push_dag_section(lines: &mut Vec<String>, dag: &TaskDagView)
    ensures
        sv(final(lines)@) == sv(old(lines)@) + dag_section(*dag),
{
    if dag.work_items.len() == 0 {
        push_line(lines, String::from_str("Current DAG: none yet."));
        assert(sv(lines@) =~= sv(old(lines)@) + dag_section(*dag));
        return ;
    }
    push_line(lines, String::from_str("Current DAG:"));
    let s = &dag.summary;
    let summary = String::from_str("- Summary: total ").concat(i64_text(s.total_work_items).as_str()).concat(
        ", ready ",
    ).concat(i64_text(s.ready_work_items).as_str()).concat(", running ").concat(
        i64_text(s.running_work_items).as_str(),
    ).concat(", completed ").concat(i64_text(s.completed_work_items).as_str()).concat(
        ", blocked ",
    ).concat(i64_text(s.blocked_work_items).as_str()).concat(", failed ").concat(
        i64_text(s.failed_work_items).as_str(),
    ).concat(", open signals ").concat(i64_text(s.open_signals).as_str());
    push_line(lines, summary);
    push_line(lines, String::from_str("- Work items:"));
    let ghost base = sv(lines@);
    let items = &dag.work_items;
    let mut i: usize = 0;
    assert(items@.take(0) =~= Seq::<WorkItemWithRuntimeView>::empty());
    assert(sv(lines@) =~= base + planning_items_lines(items@.take(0), dag.edges@));
    while i < items.len()
        invariant
            i <= items.len(),
            items@ == dag.work_items@,
            sv(lines@) == base + planning_items_lines(items@.take(i as int), dag.edges@),
        decreases items.len() - i,
    {
        assert(items@.take(i + 1).drop_last() =~= items@.take(i as int));
        push_planning_item(lines, &items[i], &dag.edges);
        assert(sv(lines@) =~= base + planning_items_lines(items@.take(i + 1), dag.edges@));
        i += 1;
    }
    assert(items@.take(items.len() as int) =~= items@);
    assert(sv(lines@) =~= sv(old(lines)@) + dag_section(*dag));
}

/// Appends the proposal section of the planning context.
fn push_proposals(lines: &mut Vec<String>, proposals: &Vec<DagProposal>)
    ensures
        sv(final(lines)@) == sv(old(lines)@) + proposal_section(proposals@),
{
    if proposals.len() == 0 {
        push_line(lines, String::from_str("Relevant proposals: none."));
        assert(sv(lines@) =~= sv(old(lines)@) + proposal_section(proposals@));
        return ;
    }
    push_line(lines, String::from_str("Relevant proposals:"));
    let ghost base = sv(lines@);
    let mut i: usize = 0;
    assert(proposals@.take(0) =~= Seq::<DagProposal>::empty());
    assert(sv(lines@) =~= base + proposals_body(proposals@.take(0)));
    while i < proposals.len()
        invariant
            i <= proposals.len(),
            sv(lines@) == base + proposals_body(proposals@.take(i as int)),
        decreases proposals.len() - i,
    {
        assert(proposals@.take(i + 1).drop_last() =~= proposals@.take(i as int));
        let p = &proposals[i];
        push_line(
            lines,
            String::from_str("- ").concat(p.proposal_id.as_str()).concat(" [").concat(
                p.state.as_str(),
            ).concat(" / ").concat(p.mode.as_str()).concat("]: ").concat(p.summary.as_str()),
        );
        assert(sv(lines@) =~= base + proposals_body(proposals@.take(i + 1)));
        i += 1;
    }
    assert(proposals@.take(proposals.len() as int) =~= proposals@);
    assert(sv(lines@) =~= sv(old(lines)@) + proposal_section(proposals@));
}

/// Appends the lines of one execution profile.
fn push_profile(lines: &mut Vec<String>, p: &ExecutionProfileView)
    ensures
        sv(final(lines)@) == sv(old(lines)@) + profile_lines(*p),
{
    let head = String::from_str("- ").concat(p.profile_id.as_str()).concat(": ").concat(p.name.as_str());
    let desc = match &p.description {
        Some(d) => non_empty(Some(d.as_str())),
        None => None,
    };
    let first = match desc {
        Some(d) => head.concat(" — ").concat(d.as_str()),
        None => head,
    };
    push_line(lines, first);
    let ghost a = sv(lines@);
    if p.supported_client_types.len() > 0 {
        let joined = join_texts(&p.supported_client_types, ", ");
        push_line(lines, String::from_str("  Clients: ").concat(joined.as_str()));
    }
    let ghost b = sv(lines@);
    let schema = match &p.expected_output_schema {
        Some(x) => non_empty(Some(x.as_str())),
        None => None,
    };
    push_optional(lines, "  Expected output", schema);
    assert(sv(lines@) =~= sv(old(lines)@) + profile_lines(*p));
}

/// Appends the execution profile section of the planning context.
fn push_profiles(lines: &mut Vec<String>, profiles: &Vec<ExecutionProfileView>)
    ensures
        sv(final(lines)@) == sv(old(lines)@) + profile_section(profiles@),
{
    if profiles.len() == 0 {
        push_line(lines, String::from_str("Available execution profiles: none."));
        assert(sv(lines@) =~= sv(old(lines)@) + profile_section(profiles@));
        return ;
    }
    push_line(lines, String::from_str("Available execution profiles:"));
    let ghost base = sv(lines@);
    let mut i: usize = 0;
    assert(profiles@.take(0) =~= Seq::<ExecutionProfileView>::empty());
    assert(sv(lines@) =~= base + profiles_body(profiles@.take(0)));
    while i < profiles.len()
        invariant
            i <= profiles.len(),
            sv(lines@) == base + profiles_body(profiles@.take(i as int)),
        decreases profiles.len() - i,
    {
        assert(profiles@.take(i + 1).drop_last() =~= profiles@.take(i as int));
        push_profile(lines, &profiles[i]);
        assert(sv(lines@) =~= base + profiles_body(profiles@.take(i + 1)));
        i += 1;
    }
    assert(profiles@.take(profiles.len() as int) =~= profiles@);
    assert(sv(lines@) =~= sv(old(lines)@) + profile_section(profiles@));
}

/// Lines joined with newlines.
fn join_lines(lines: &Vec<String>) -> (r: String)
    ensures
        r@ == join(sv(lines@), "\n"@),
{
    let r = join_texts(lines, "\n");
    assert(lines@.map_values(|p: String| p@) == sv(lines@));
    r
}

/// The context a planner or replanner turn receives: the task, the current
/// DAG, the open signals, the relevant proposals, the available execution
/// profiles and what to submit next, one item per line.
pub fn render_planning_context(
    role: AgentPlanningRole,
    task: &TaskView,
    dag: &TaskDagView,
    open_signals: &Vec<DagSignalRecord>,
    relevant_proposals: &Vec<DagProposal>,
    execution_profiles: &Vec<ExecutionProfileView>,
) -> (r: String)
    ensures
        r@ == join(
            planning_lines(
                role,
                *task,
                *dag,
                open_signals@,
                relevant_proposals@,
                execution_profiles@,
            ),
            "\n"@,
        ),
{
    let mut lines: Vec<String> = Vec::new();
    push_line(&mut lines, String::from_str("llmparty context: planning"));
    push_line(&mut lines, String::from_str("Role: ").concat(planning_role_text(&role)));
    push_line(&mut lines, String::new());
    push_line(&mut lines, String::from_str("Task:"));
    push_line(&mut lines, String::from_str("- Goal: ").concat(task.input.as_str()));
    push_line(&mut lines, String::from_str("- State: ").concat(task.state.as_str()));
    let ghost s1 = sv(lines@);
    push_workspace(&mut lines, task);
    push_line(&mut lines, String::new());
    let ghost s2 = sv(lines@);
    push_dag_section(&mut lines, dag);
    push_line(&mut lines, String::new());
    let ghost s3 = sv(lines@);
    push_signals(&mut lines, "Open signals", open_signals);
    push_line(&mut lines, String::new());
    let ghost s4 = sv(lines@);
    push_proposals(&mut lines, relevant_proposals);
    push_line(&mut lines, String::new());
    let ghost s5 = sv(lines@);
    push_profiles(&mut lines, execution_profiles);
    push_line(&mut lines, String::new());
    push_line(&mut lines, String::from_str("Next:"));
    match role {
        AgentPlanningRole::Planner => {
            push_line(&mut lines, String::from_str("- Submit an initial DAG with submitPlan."));
        },
        AgentPlanningRole::Replanner => {
            push_line(&mut lines, String::from_str("- Submit a DAG patch with submitPlan."));
        },
    }
    push_line(
        &mut lines,
        String::from_str("- Do not include task_id, work_item_id, run_id, session_id, or turn_id."),
    );
    assert(sv(lines@) =~= planning_lines(
        role,
        *task,
        *dag,
        open_signals@,
        relevant_proposals@,
        execution_profiles@,
    ));
    join_lines(&lines)
}

/// Appends the dependency section of the execution context.
fn push_completed(lines: &mut Vec<String>, items: &Vec<WorkItemWithRuntimeView>)
    ensures
        sv(final(lines)@) == sv(old(lines)@) + completed_section(items@),
{
    if items.len() == 0 {
        push_line(lines, String::from_str("Completed dependencies: none."));
        assert(sv(lines@) =~= sv(old(lines)@) + completed_section(items@));
        return ;
    }
    push_line(lines, String::from_str("Completed dependencies:"));
    let ghost base = sv(lines@);
    let mut i: usize = 0;
    assert(items@.take(0) =~= Seq::<WorkItemWithRuntimeView>::empty());
    assert(sv(lines@) =~= base + completed_body(items@.take(0)));
    while i < items.len()
        invariant
            i <= items.len(),
            sv(lines@) == base + completed_body(items@.take(i as int)),
        decreases items.len() - i,
    {
        assert(items@.take(i + 1).drop_last() =~= items@.take(i as int));
        let item = &items[i];
        let state = item_state(item, "completed");
        push_line(
            lines,
            String::from_str("- ").concat(item.work_item.work_item_id.as_str()).concat(" [").concat(
                state.as_str(),
            ).concat("] ").concat(item.work_item.title.as_str()),
        );
        assert(sv(lines@) =~= base + completed_body(items@.take(i + 1)));
        i += 1;
    }
    assert(items@.take(items.len() as int) =~= items@);
    assert(sv(lines@) =~= sv(old(lines)@) + completed_section(items@));
}

/// The context an execution turn receives: the task, the work item and its
/// run, its acceptance criteria, its completed dependencies, the open related
/// signals and what to do next, one item per line.
pub fn render_execution_context(
    task: &TaskView,
    work_item: &WorkItemWithRuntimeView,
    work_item_run: &WorkItemRunRecord,
    upstream_completed_items: &Vec<WorkItemWithRuntimeView>,
    acceptance_criteria: &Option<Vec<Option<String>>>,
    open_signals: &Vec<DagSignalRecord>,
) -> (r: String)
    ensures
        r@ == join(
            execution_lines(
                *task,
                *work_item,
                *work_item_run,
                upstream_completed_items@,
                *acceptance_criteria,
                open_signals@,
            ),
            "\n"@,
        ),
{
    let w = &work_item.work_item;
    let mut lines: Vec<String> = Vec::new();
    push_line(&mut lines, String::from_str("llmparty context: execution"));
    push_line(&mut lines, String::new());
    push_line(&mut lines, String::from_str("Task:"));
    push_line(&mut lines, String::from_str("- Goal: ").concat(task.input.as_str()));
    push_line(&mut lines, String::from_str("- State: ").concat(task.state.as_str()));
    push_workspace(&mut lines, task);
    let ghost p1 = sv(lines@);
    assert(p1 =~= seq![
        "llmparty context: execution"@,
        Seq::empty(),
        "Task:"@,
        "- Goal: "@ + task.input@,
        "- State: "@ + task.state@,
    ] + workspace_lines(*task));
    push_line(&mut lines, String::new());
    push_line(&mut lines, String::from_str("Current WorkItem:"));
    push_line(&mut lines, String::from_str("- ID: ").concat(w.work_item_id.as_str()));
    push_line(&mut lines, String::from_str("- Title: ").concat(w.title.as_str()));
    push_optional(&mut lines, "- Description", non_empty(Some(w.description.as_str())));
    push_optional(&mut lines, "- Action", non_empty(Some(w.action.as_str())));
    let ghost p2 = sv(lines@);
    assert(p2 =~= p1 + seq![
        Seq::empty(),
        "Current WorkItem:"@,
        "- ID: "@ + w.work_item_id@,
        "- Title: "@ + w.title@,
    ] + optional_line("- Description"@, spec_non_empty(Some(w.description@))) + optional_line(
        "- Action"@,
        spec_non_empty(Some(w.action@)),
    ));
    push_line(&mut lines, String::from_str("- Profile: ").concat(w.execution_profile_id.as_str()));
    push_line(
        &mut lines,
        String::from_str("- Attempt: ").concat(i64_text(work_item_run.attempt).as_str()),
    );
    push_line(&mut lines, String::from_str("- Run state: ").concat(work_item_run.state.as_str()));
    push_value_list(&mut lines, "- Acceptance criteria", acceptance_criteria, Some("none specified."));
    push_line(&mut lines, String::new());
    let ghost p3 = sv(lines@);
    assert(p3 =~= p2 + seq![
        "- Profile: "@ + w.execution_profile_id@,
        "- Attempt: "@ + int_text(work_item_run.attempt as int),
        "- Run state: "@ + work_item_run.state@,
    ] + value_list_lines("- Acceptance criteria"@, *acceptance_criteria, Some("none specified."@)) + seq![
        Seq::empty(),
    ]);
    push_completed(&mut lines, upstream_completed_items);
    push_line(&mut lines, String::new());
    push_signals(&mut lines, "Open related signals", open_signals);
    let ghost p4 = sv(lines@);
    assert(p4 =~= p3 + completed_section(upstream_completed_items@) + seq![Seq::empty()] + signal_section(
        "Open related signals"@,
        open_signals@,
    ));
    push_line(&mut lines, String::new());
    push_line(&mut lines, String::from_str("Next:"));
    push_line(&mut lines, String::from_str("- Execute only this WorkItem."));
    push_line(&mut lines, String::from_str("- Call submitResult when finished."));
    push_line(
        &mut lines,
        String::from_str("- Call raiseSignal if blocked, missing input, or replanning is needed."),
    );
    assert(sv(lines@) =~= p4 + seq![
        Seq::empty(),
        "Next:"@,
        "- Execute only this WorkItem."@,
        "- Call submitResult when finished."@,
        "- Call raiseSignal if blocked, missing input, or replanning is needed."@,
    ]);
    assert(sv(lines@) =~= execution_lines(
        *task,
        *work_item,
        *work_item_run,
        upstream_completed_items@,
        *acceptance_criteria,
        open_signals@,
    ));
    join_lines(&lines)
}

} // verus!
