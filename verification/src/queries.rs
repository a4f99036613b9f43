//! The read model of tasks and their DAGs, and the execution profiles.
use vstd::prelude::*;
use vstd::string::*;
use vstd::seq_lib::seq_to_set_is_finite;
use vstd::set_lib::{lemma_len_subset, lemma_set_disjoint_lens};

use crate::model::{
    copy_opt_list, lemma_sv_push, same_item, sv, DagSummaryView, WorkItemRecord, WorkItemRuntimeView,
    WorkItemWithRuntimeView,
};
use crate::error::{Error, ErrorV};
use crate::json::{json_at, json_parse_error, json_value_at, parse_json, JsonAt, JsonAtV};
use crate::text::text_eq;

verus! {

/// Answers read queries on tasks, sessions, workspaces and DAGs.
pub struct ExternalQueryService<P> {
    pool: P,
}

impl<P> ExternalQueryService<P> {
    /// The pool the service reads.
    pub closed spec fn spec_pool(&self) -> P {
        self.pool
    }

    /// A query service reading `pool`.
    pub fn new(pool: P) -> (r: Self)
        ensures
            r.spec_pool() == pool,
    {
        Self { pool }
    }

    /// The pool the service reads.
    pub fn pool(&self) -> (r: &P)
        ensures
            *r == self.spec_pool(),
    {
        &self.pool
    }
}

/// Reads and records execution profiles.
pub struct AgentProfileService<P> {
    pool: P,
}

impl<P> AgentProfileService<P> {
    /// The pool the service reads.
    pub closed spec fn spec_pool(&self) -> P {
        self.pool
    }

    /// A profile service reading `pool`.
    pub fn new(pool: P) -> (r: Self)
        ensures
            r.spec_pool() == pool,
    {
        Self { pool }
    }

    /// The pool the service reads.
    pub fn pool(&self) -> (r: &P)
        ensures
            *r == self.spec_pool(),
    {
        &self.pool
    }
}


/// A row of the runtime projection: the work item it belongs to and its
/// projection.
#[derive(Debug)]
pub struct RuntimeRow {
    pub work_item_id: String,
    pub runtime: WorkItemRuntimeView,
}

/// The projection of work item `id`: that of the last row for it, as when
/// the rows are inserted in order into a map keyed by work item.
pub open spec fn runtime_of(rows: Seq<RuntimeRow>, id: Seq<char>) -> Option<WorkItemRuntimeView>
    decreases rows.len(),
{
    if rows.len() == 0 {
        None
    } else if rows.last().work_item_id@ == id {
        Some(rows.last().runtime)
    } else {
        runtime_of(rows.drop_last(), id)
    }
}

/// The ids of the active work items.
pub open spec fn active_ids(items: Seq<WorkItemRecord>) -> Set<Seq<char>> {
    Set::new(
        |id: Seq<char>|
            exists|i: int| 0 <= i < items.len() && items[i].active && #[trigger] items[i].work_item_id@ == id,
    )
}

/// The count a runtime state falls under: 0 ready, 1 running, 2 completed,
/// 3 blocked (or needing input), 4 failed, 5 none of these.
pub open spec fn state_category(state: Seq<char>) -> int {
    if state == "ready"@ {
        0
    } else if state == "running"@ {
        1
    } else if state == "completed"@ {
        2
    } else if state == "blocked"@ || state == "needs_input"@ {
        3
    } else if state == "failed"@ {
        4
    } else {
        5
    }
}

/// The work items whose projection is in category `c`.
pub open spec fn in_category(rows: Seq<RuntimeRow>, c: int) -> spec_fn(Seq<char>) -> bool {
    |id: Seq<char>| runtime_of(rows, id) matches Some(rt) && state_category(rt.current_state@) == c
}

/// How many active work items have a projection in category `c`.
pub open spec fn category_count(items: Seq<WorkItemRecord>, rows: Seq<RuntimeRow>, c: int) -> nat {
    active_ids(items).filter(in_category(rows, c)).len()
}

/// The summary of a DAG: its distinct active work items, how many of them
/// are ready, running, completed, blocked and failed by their projection, and
/// the counts of open signals and runs as given.
pub open spec fn summary_of(
    v: DagSummaryView,
    items: Seq<WorkItemRecord>,
    rows: Seq<RuntimeRow>,
    open_signals: i64,
    total_runs: i64,
) -> bool {
    &&& v.total_work_items == active_ids(items).len()
    &&& v.ready_work_items == category_count(items, rows, 0)
    &&& v.running_work_items == category_count(items, rows, 1)
    &&& v.completed_work_items == category_count(items, rows, 2)
    &&& v.blocked_work_items == category_count(items, rows, 3)
    &&& v.failed_work_items == category_count(items, rows, 4)
    &&& v.open_signals == open_signals
    &&& v.total_runs == total_runs
}

/// How many distinct active work items have a projection whose state is one
/// of `states`.
pub open spec fn active_in_states(items: Seq<WorkItemRecord>, rows: Seq<RuntimeRow>, states: Set<Seq<char>>) -> nat {
    active_ids(items).filter(
        |id: Seq<char>| runtime_of(rows, id) matches Some(rt) && states.contains(rt.current_state@),
    ).len()
}

proof fn lemma_category_is_state(items: Seq<WorkItemRecord>, rows: Seq<RuntimeRow>, c: int, states: Set<Seq<char>>)
    requires
        forall|st: Seq<char>| state_category(st) == c <==> #[trigger] states.contains(st),
    ensures
        category_count(items, rows, c) == active_in_states(items, rows, states),
{
    assert(active_ids(items).filter(in_category(rows, c)) =~= active_ids(items).filter(
        |id: Seq<char>| runtime_of(rows, id) matches Some(rt) && states.contains(rt.current_state@),
    ));
}

/// The counts of a DAG summary by state: ready counts the distinct active
/// work items whose projection is `ready`, running those `running`,
/// completed those `completed`, blocked those `blocked` or `needs_input`,
/// and failed those `failed`; the total counts every distinct active work
/// item.
pub proof fn lemma_summary_counts(
    v: DagSummaryView,
    items: Seq<WorkItemRecord>,
    rows: Seq<RuntimeRow>,
    open_signals: i64,
    total_runs: i64,
)
    requires
        summary_of(v, items, rows, open_signals, total_runs),
    ensures
        v.total_work_items == active_ids(items).len(),
        v.ready_work_items == active_in_states(items, rows, set!["ready"@]),
        v.running_work_items == active_in_states(items, rows, set!["running"@]),
        v.completed_work_items == active_in_states(items, rows, set!["completed"@]),
        v.blocked_work_items == active_in_states(items, rows, set!["blocked"@, "needs_input"@]),
        v.failed_work_items == active_in_states(items, rows, set!["failed"@]),
{
    reveal_strlit("ready");
    reveal_strlit("running");
    reveal_strlit("completed");
    reveal_strlit("blocked");
    reveal_strlit("needs_input");
    reveal_strlit("failed");
    assert("running"@[0] != "blocked"@[0]);
    assert("running"@.len() != "ready"@.len());
    assert("completed"@.len() != "ready"@.len() && "completed"@.len() != "running"@.len());
    assert("blocked"@.len() != "ready"@.len() && "blocked"@.len() != "completed"@.len());
    assert("needs_input"@.len() != "ready"@.len() && "needs_input"@.len() != "running"@.len()
        && "needs_input"@.len() != "completed"@.len());
    assert("failed"@.len() != "ready"@.len() && "failed"@.len() != "running"@.len() && "failed"@.len()
        != "completed"@.len() && "failed"@.len() != "blocked"@.len() && "failed"@.len()
        != "needs_input"@.len());
    lemma_category_is_state(items, rows, 0, set!["ready"@]);
    lemma_category_is_state(items, rows, 1, set!["running"@]);
    lemma_category_is_state(items, rows, 2, set!["completed"@]);
    lemma_category_is_state(items, rows, 3, set!["blocked"@, "needs_input"@]);
    lemma_category_is_state(items, rows, 4, set!["failed"@]);
}

fn contains_text(v: &Vec<String>, s: &str) -> (r: bool)
    ensures
        r == sv(v@).contains(s@),
{
    let mut i: usize = 0;
    while i < v.len()
        invariant
            i <= v.len(),
            forall|k: int| 0 <= k < i ==> sv(v@)[k] != s@,
        decreases v.len() - i,
    {
        if text_eq(v[i].as_str(), s) {
            assert(sv(v@)[i as int] == s@);
            return true;
        }
        i += 1;
    }
    false
}

proof fn lemma_runtime_of_prefix(rows: Seq<RuntimeRow>, id: Seq<char>, j: int)
    requires
        0 <= j <= rows.len(),
        forall|k: int| j <= k < rows.len() ==> rows[k].work_item_id@ != id,
    ensures
        runtime_of(rows, id) == runtime_of(rows.take(j), id),
    decreases rows.len() - j,
{
    if j < rows.len() {
        assert(rows.drop_last().take(j) =~= rows.take(j));
        lemma_runtime_of_prefix(rows.drop_last(), id, j);
    } else {
        assert(rows.take(j) =~= rows);
    }
}

/// The index of the row that gives the projection of work item `id`.
fn runtime_index(rows: &Vec<RuntimeRow>, id: &str) -> (r: Option<usize>)
    ensures
        match r {
            Some(k) => k < rows.len() && runtime_of(rows@, id@) == Some(rows@[k as int].runtime),
            None => runtime_of(rows@, id@) is None,
        },
{
    let mut j: usize = rows.len();
    while j > 0
        invariant
            j <= rows.len(),
            forall|k: int| j <= k < rows.len() ==> rows@[k].work_item_id@ != id@,
        decreases j,
    {
        if text_eq(rows[j - 1].work_item_id.as_str(), id) {
            proof {
                lemma_runtime_of_prefix(rows@, id@, j as int);
                assert(rows@.take(j as int).drop_last() =~= rows@.take(j - 1));
            }
            return Some(j - 1);
        }
        j -= 1;
    }
    proof {
        lemma_runtime_of_prefix(rows@, id@, 0);
    }
    None
}

/// The ids of the active work items, each once, in order of first
/// appearance.
fn distinct_active_ids(items: &Vec<WorkItemRecord>) -> (r: Vec<String>)
    ensures
        sv(r@).no_duplicates(),
        sv(r@).to_set() == active_ids(items@),
{
    let mut out: Vec<String> = Vec::new();
    let mut i: usize = 0;
    assert(sv(out@).to_set() =~= active_ids(items@.take(0)));
    while i < items.len()
        invariant
            i <= items.len(),
            sv(out@).no_duplicates(),
            sv(out@).to_set() == active_ids(items@.take(i as int)),
        decreases items.len() - i,
    {
        let w = &items[i];
        let ghost t1 = items@.take(i + 1);
        assert(t1.drop_last() =~= items@.take(i as int));
        if w.active && !contains_text(&out, w.work_item_id.as_str()) {
            let ghost before = out@;
            out.push(w.work_item_id.clone());
            proof {
                lemma_sv_push(before, w.work_item_id);
                assert forall|id: Seq<char>| sv(out@).to_set().contains(id) == active_ids(t1).contains(id) by {
                    if active_ids(t1).contains(id) {
                        let k = choose|k: int| 0 <= k < t1.len() && t1[k].active && #[trigger] t1[k].work_item_id@ == id;
                        if k < i {
                            assert(items@.take(i as int)[k] == t1[k]);
                            assert(active_ids(items@.take(i as int)).contains(id));
                            assert(sv(before).contains(id));
                            let m = choose|m: int| 0 <= m < sv(before).len() && #[trigger] sv(before)[m] == id;
                            assert(sv(out@)[m] == id);
                        } else {
                            assert(sv(out@)[sv(before).len() as int] == id);
                        }
                    }
                    if sv(out@).to_set().contains(id) {
                        let m = choose|m: int| 0 <= m < sv(out@).len() && #[trigger] sv(out@)[m] == id;
                        if m < sv(before).len() {
                            assert(sv(before)[m] == id);
                            assert(sv(before).to_set().contains(id));
                            let k = choose|k: int| 0 <= k < items@.take(i as int).len() && items@.take(i as int)[k].active
                                && #[trigger] items@.take(i as int)[k].work_item_id@ == id;
                            assert(t1[k] == items@.take(i as int)[k]);
                        } else {
                            assert(t1[i as int].work_item_id@ == id);
                        }
                    }
                }
                assert(sv(out@).to_set() =~= active_ids(t1));
            }
        } else {
            proof {
                assert forall|id: Seq<char>| active_ids(t1).contains(id) implies active_ids(items@.take(i as int)).contains(id) by {
                    let k = choose|k: int| 0 <= k < t1.len() && t1[k].active && #[trigger] t1[k].work_item_id@ == id;
                    if k < i {
                        assert(items@.take(i as int)[k] == t1[k]);
                    } else {
                        assert(sv(out@).contains(id));
                        let m = choose|m: int| 0 <= m < sv(out@).len() && #[trigger] sv(out@)[m] == id;
                        assert(sv(out@).to_set().contains(id));
                    }
                }
                assert forall|id: Seq<char>| active_ids(items@.take(i as int)).contains(id) implies active_ids(t1).contains(id) by {
                    let k = choose|k: int| 0 <= k < items@.take(i as int).len() && items@.take(i as int)[k].active
                        && #[trigger] items@.take(i as int)[k].work_item_id@ == id;
                    assert(t1[k] == items@.take(i as int)[k]);
                }
                assert(active_ids(t1) =~= active_ids(items@.take(i as int)));
            }
        }
        i += 1;
    }
    assert(items@.take(items.len() as int) =~= items@);
    out
}

proof fn lemma_filter_count_step(ids: Seq<Seq<char>>, j: int, f: spec_fn(Seq<char>) -> bool)
    requires
        ids.no_duplicates(),
        0 <= j < ids.len(),
    ensures
        ids.take(j + 1).to_set().filter(f).len() == ids.take(j).to_set().filter(f).len() + (if f(ids[j]) {
            1int
        } else {
            0int
        }),
{
    let a = ids.take(j).to_set();
    assert(ids.take(j + 1).to_set() =~= a.insert(ids[j])) by {
        assert forall|x: Seq<char>| ids.take(j + 1).to_set().contains(x) == a.insert(ids[j]).contains(x) by {
            if ids.take(j + 1).contains(x) {
                let k = choose|k: int| 0 <= k < ids.take(j + 1).len() && #[trigger] ids.take(j + 1)[k] == x;
                if k < j {
                    assert(ids.take(j)[k] == x);
                }
            }
            if a.contains(x) && x != ids[j] {
                let k = choose|k: int| 0 <= k < ids.take(j).len() && #[trigger] ids.take(j)[k] == x;
                assert(ids.take(j + 1)[k] == x);
            }
            if x == ids[j] {
                assert(ids.take(j + 1)[j] == x);
            }
        }
    }
    assert(!a.contains(ids[j])) by {
        if a.contains(ids[j]) {
            let k = choose|k: int| 0 <= k < ids.take(j).len() && #[trigger] ids.take(j)[k] == ids[j];
            assert(ids[k] == ids[j]);
        }
    }
    seq_to_set_is_finite(ids.take(j));
    let af = a.filter(f);
    lemma_len_subset(af, a);
    if f(ids[j]) {
        assert(a.insert(ids[j]).filter(f) =~= af.insert(ids[j]));
    } else {
        assert(a.insert(ids[j]).filter(f) =~= af);
    }
}

/// The summary of a DAG (see `summary_of`) from its work items, the rows of
/// its runtime projection, and its counts of open signals and runs.
pub fn dag_summary(
    items: &Vec<WorkItemRecord>,
    rows: &Vec<RuntimeRow>,
    open_signals: i64,
    total_runs: i64,
) -> (r: DagSummaryView)
    requires
        items.len() <= i64::MAX,
    ensures
        summary_of(r, items@, rows@, open_signals, total_runs),
{
    let ids = distinct_active_ids(items);
    proof {
        sv(ids@).unique_seq_to_set();
        assert(sv(ids@).len() == ids@.len());
        sv(ids@).lemma_cardinality_of_set();
    }
    let ghost s = sv(ids@);
    proof {
        active_subset_items(items@);
    }
    let mut counts: [i64; 5] = [0, 0, 0, 0, 0];
    let mut j: usize = 0;
    assert forall|c: int| 0 <= c < 5 implies #[trigger] counts@[c] == s.take(0).to_set().filter(in_category(rows@, c)).len() by {
        assert(s.take(0).to_set().filter(in_category(rows@, c)) =~= Set::empty());
    }
    while j < ids.len()
        invariant
            j <= ids.len(),
            s == sv(ids@),
            s.no_duplicates(),
            ids.len() <= items.len() <= i64::MAX,
            counts@.len() == 5,
            forall|c: int| 0 <= c < 5 ==> #[trigger] counts@[c] == s.take(j as int).to_set().filter(in_category(rows@, c)).len(),
            forall|c: int| 0 <= c < 5 ==> #[trigger] counts@[c] <= j,
        decreases ids.len() - j,
    {
        let k = runtime_index(rows, ids[j].as_str());
        let ghost prev = counts@;
        let cat: usize = match k {
            Some(k) => {
                let st = rows[k].runtime.current_state.as_str();
                if text_eq(st, "ready") {
                    0
                } else if text_eq(st, "running") {
                    1
                } else if text_eq(st, "completed") {
                    2
                } else if text_eq(st, "blocked") || text_eq(st, "needs_input") {
                    3
                } else if text_eq(st, "failed") {
                    4
                } else {
                    5
                }
            },
            None => 5,
        };
        proof {
            assert(s[j as int] == ids@[j as int]@);
            assert forall|c: int| 0 <= c < 5 implies (in_category(rows@, c)(s[j as int]) <==> c == cat) by {}
        }
        if cat < 5 {
            counts[cat] = counts[cat] + 1;
        }
        proof {
            assert forall|c: int| 0 <= c < 5 implies #[trigger] counts@[c] == s.take(j + 1).to_set().filter(in_category(rows@, c)).len() by {
                lemma_filter_count_step(s, j as int, in_category(rows@, c));
            }
        }
        j += 1;
    }
    assert(s.take(ids.len() as int) =~= s);
    DagSummaryView {
        total_work_items: ids.len() as i64,
        ready_work_items: counts[0],
        running_work_items: counts[1],
        completed_work_items: counts[2],
        blocked_work_items: counts[3],
        failed_work_items: counts[4],
        open_signals,
        total_runs,
    }
}

proof fn active_subset_items(items: Seq<WorkItemRecord>)
    ensures
        active_ids(items).finite(),
        active_ids(items).len() <= items.len(),
{
    let all = items.map_values(|w: WorkItemRecord| w.work_item_id@).to_set();
    seq_to_set_is_finite(items.map_values(|w: WorkItemRecord| w.work_item_id@));
    assert forall|id: Seq<char>| active_ids(items).contains(id) implies all.contains(id) by {
        let k = choose|k: int| 0 <= k < items.len() && items[k].active && #[trigger] items[k].work_item_id@ == id;
        assert(items.map_values(|w: WorkItemRecord| w.work_item_id@)[k] == id);
    }
    lemma_len_subset(active_ids(items), all);
    items.map_values(|w: WorkItemRecord| w.work_item_id@).lemma_cardinality_of_set();
}


/// The ready, running, completed, blocked and failed counts of a DAG summary
/// together never exceed its total: each active work item is counted at most
/// once.
pub proof fn lemma_summary_counts_within_total(items: Seq<WorkItemRecord>, rows: Seq<RuntimeRow>)
    ensures
        category_count(items, rows, 0) + category_count(items, rows, 1) + category_count(items, rows, 2)
            + category_count(items, rows, 3) + category_count(items, rows, 4) <= active_ids(items).len(),
{
    let act = active_ids(items);
    active_subset_items(items);
    let a0 = act.filter(in_category(rows, 0));
    let a1 = act.filter(in_category(rows, 1));
    let a2 = act.filter(in_category(rows, 2));
    let a3 = act.filter(in_category(rows, 3));
    let a4 = act.filter(in_category(rows, 4));
    lemma_len_subset(a0, act);
    lemma_len_subset(a1, act);
    lemma_len_subset(a2, act);
    lemma_len_subset(a3, act);
    lemma_len_subset(a4, act);
    lemma_set_disjoint_lens(a0, a1);
    let u1 = a0 + a1;
    lemma_set_disjoint_lens(u1, a2);
    let u2 = u1 + a2;
    lemma_set_disjoint_lens(u2, a3);
    let u3 = u2 + a3;
    lemma_set_disjoint_lens(u3, a4);
    let u4 = u3 + a4;
    lemma_len_subset(u4, act);
}

/// Each work item with the projection of its last runtime row, if any.
pub fn attach_runtime(items: &Vec<WorkItemRecord>, rows: &Vec<RuntimeRow>) -> (r: Vec<WorkItemWithRuntimeView>)
    ensures
        r.len() == items.len(),
        forall|k: int|
            0 <= k < items.len() ==> same_item(
                #[trigger] r@[k],
                (WorkItemWithRuntimeView { work_item: items@[k], runtime: runtime_of(rows@, items@[k].work_item_id@) }),
            ),
{
    let mut out: Vec<WorkItemWithRuntimeView> = Vec::new();
    let mut i: usize = 0;
    while i < items.len()
        invariant
            i <= items.len(),
            out.len() == i,
            forall|k: int|
                0 <= k < i ==> same_item(
                    #[trigger] out@[k],
                    (WorkItemWithRuntimeView { work_item: items@[k], runtime: runtime_of(rows@, items@[k].work_item_id@) }),
                ),
        decreases items.len() - i,
    {
        let w = &items[i];
        let runtime = match runtime_index(rows, w.work_item_id.as_str()) {
            Some(k) => Some(rows[k].runtime.duplicate()),
            None => None,
        };
        let x = WorkItemWithRuntimeView {
            work_item: WorkItemRecord {
                work_item_id: w.work_item_id.clone(),
                title: w.title.clone(),
                description: w.description.clone(),
                action: w.action.clone(),
                execution_profile_id: w.execution_profile_id.clone(),
                acceptance_criteria: copy_opt_list(&w.acceptance_criteria),
                active: w.active,
            },
            runtime,
        };
        out.push(x);
        i += 1;
    }
    out
}


/// The integer a JSON value is, 0 when it is not one (or does not fit in 64
/// bits).
pub open spec fn int_or_zero(n: JsonAtV) -> i64 {
    match n {
        JsonAtV::Int(i) => i,
        _ => 0,
    }
}

/// How often a session's runtime was restarted, from its binding's metadata:
/// its `restart_count` when that is an integer, 0 otherwise. The metadata
/// text must be JSON.
pub fn restart_count_of(metadata: &str) -> (r: Result<i64, Error>)
    ensures
        r is Ok <==> json_parse_error(metadata@) is None,
        r matches Err(e) ==> json_parse_error(metadata@) matches Some(m) && e@ == ErrorV::Domain(m),
        r matches Ok(n) ==> n == int_or_zero(json_value_at(metadata@, "/restart_count"@)),
{
    let d = parse_json(metadata)?;
    match json_at(&d, "/restart_count") {
        JsonAt::Int(n) => Ok(n),
        _ => Ok(0),
    }
}

} // verus!
