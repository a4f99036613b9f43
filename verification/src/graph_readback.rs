//! What a projected snapshot leaves in the graph, and what the provenance reads
//! give back from it.
use vstd::prelude::*;

use crate::graph::{
    agent_keys, agent_node_v, art_id, art_node_v, artifact_keys, sig_id, sig_node_v, signal_keys, task_keys,
    task_node_v, wi_id, wi_node_v, work_item_keys, GraphDecision, GraphEvidence, NodeV, TaskGraphSnapshot,
    agent_ref, agent_write, art_ref, decision_head_writes, decision_writes, decisions_nodes, decisions_writes,
    evidence_nodes, evidence_writes, evidences_writes, sig_ref, spec_projection_writes, spec_provenance_nodes,
    task_node_ref, task_write, wi_ref, plain_edge, decision_nodes, row_node, group_nodes, group_edges,
    has_node, push_all, rows_v, spec_provenance_from_rows, spec_row_edges, spec_row_nodes, ProvenanceRows, keys_distinct, lemma_projection_endpoints, evidence_edges, decision_edges, decisions_edges, EdgeV,
};
use crate::graph_store::{
    agree_on, edge_entries, edge_write, node_key, entry_keys_distinct, lemma_cells_of_entry, lemma_run_writes,
    lemma_written_entries, run_writes, written_cells, written_edges, written_nodes, GraphState, lemma_entries_concat, node_entries, node_write, prop_cells, GraphWrite,
};

verus! {

/// The node `(label, id)` read back with properties `keys`, in order.
pub open spec fn read_node(
    m: Map<(Seq<char>, Seq<char>, Seq<char>), Seq<char>>,
    label: Seq<char>,
    id: Seq<char>,
    keys: Seq<Seq<char>>,
) -> NodeV {
    (id, label, Seq::new(keys.len(), |i: int| (keys[i], m[(label, id, keys[i])])))
}

proof fn lemma_prop_cells_take(label: Seq<char>, id: Seq<char>, ps: Seq<(Seq<char>, Seq<char>)>, n: int)
    requires
        0 < n <= ps.len(),
    ensures
        prop_cells(label, id, ps.take(n)) == prop_cells(label, id, ps.take(n - 1)).insert(
            (label, id, ps[n - 1].0),
            ps[n - 1].1,
        ),
{
    assert(ps.take(n).drop_last() =~= ps.take(n - 1));
    assert(ps.take(n).last() == ps[n - 1]);
}

proof fn lemma_prop_cells_all(label: Seq<char>, id: Seq<char>, ps: Seq<(Seq<char>, Seq<char>)>)
    ensures
        prop_cells(label, id, ps) == prop_cells(label, id, ps.take(ps.len() as int)),
        prop_cells(label, id, ps.take(0)) == Map::<(Seq<char>, Seq<char>, Seq<char>), Seq<char>>::empty(),
{
    assert(ps.take(ps.len() as int) =~= ps);
    assert(ps.take(0).len() == 0);
}

/// The node read back from cells that agree with its one write is the node.
pub proof fn lemma_read_task(m: Map<(Seq<char>, Seq<char>, Seq<char>), Seq<char>>, s: TaskGraphSnapshot)
    requires
        agree_on(m, prop_cells("Task"@, s.task_id@, task_node_v(s).2), "Task"@, s.task_id@),
    ensures
        read_node(m, "Task"@, s.task_id@, task_keys()) == task_node_v(s),
{
    let ps = task_node_v(s).2;
    let l = "Task"@;
    let id = s.task_id@;
    let ks = task_keys();
    reveal_strlit("title");
    reveal_strlit("description");
    reveal_strlit("ref");
    reveal_strlit("created_at");
    reveal_strlit("updated_at");
    assert("title"@.len() == 5 && "description"@.len() == 11 && "ref"@.len() == 3 && "created_at"@.len() == 10 && "updated_at"@.len() == 10);
    assert("created_at"@[0] != "updated_at"@[0]);
    lemma_prop_cells_all(l, id, ps);
    lemma_prop_cells_take(l, id, ps, 1);
    lemma_prop_cells_take(l, id, ps, 2);
    lemma_prop_cells_take(l, id, ps, 3);
    lemma_prop_cells_take(l, id, ps, 4);
    lemma_prop_cells_take(l, id, ps, 5);
    let c0 = (l, id, ks[0]);
    assert(prop_cells(l, id, ps.take(1)).contains_key(c0) && prop_cells(l, id, ps.take(1))[c0] == ps[0].1);
    assert(prop_cells(l, id, ps.take(2)).contains_key(c0) && prop_cells(l, id, ps.take(2))[c0] == ps[0].1);
    assert(prop_cells(l, id, ps.take(3)).contains_key(c0) && prop_cells(l, id, ps.take(3))[c0] == ps[0].1);
    assert(prop_cells(l, id, ps.take(4)).contains_key(c0) && prop_cells(l, id, ps.take(4))[c0] == ps[0].1);
    assert(prop_cells(l, id, ps).contains_key(c0) && prop_cells(l, id, ps)[c0] == ps[0].1);
    assert(m.contains_key(c0) && m[c0] == ps[0].1);
    let c1 = (l, id, ks[1]);
    assert(prop_cells(l, id, ps.take(2)).contains_key(c1) && prop_cells(l, id, ps.take(2))[c1] == ps[1].1);
    assert(prop_cells(l, id, ps.take(3)).contains_key(c1) && prop_cells(l, id, ps.take(3))[c1] == ps[1].1);
    assert(prop_cells(l, id, ps.take(4)).contains_key(c1) && prop_cells(l, id, ps.take(4))[c1] == ps[1].1);
    assert(prop_cells(l, id, ps).contains_key(c1) && prop_cells(l, id, ps)[c1] == ps[1].1);
    assert(m.contains_key(c1) && m[c1] == ps[1].1);
    let c2 = (l, id, ks[2]);
    assert(prop_cells(l, id, ps.take(3)).contains_key(c2) && prop_cells(l, id, ps.take(3))[c2] == ps[2].1);
    assert(prop_cells(l, id, ps.take(4)).contains_key(c2) && prop_cells(l, id, ps.take(4))[c2] == ps[2].1);
    assert(prop_cells(l, id, ps).contains_key(c2) && prop_cells(l, id, ps)[c2] == ps[2].1);
    assert(m.contains_key(c2) && m[c2] == ps[2].1);
    let c3 = (l, id, ks[3]);
    assert(prop_cells(l, id, ps.take(4)).contains_key(c3) && prop_cells(l, id, ps.take(4))[c3] == ps[3].1);
    assert(prop_cells(l, id, ps).contains_key(c3) && prop_cells(l, id, ps)[c3] == ps[3].1);
    assert(m.contains_key(c3) && m[c3] == ps[3].1);
    let c4 = (l, id, ks[4]);
    assert(prop_cells(l, id, ps).contains_key(c4) && prop_cells(l, id, ps)[c4] == ps[4].1);
    assert(m.contains_key(c4) && m[c4] == ps[4].1);
    assert(read_node(m, l, id, ks).2 =~= ps);
}

/// The node read back from cells that agree with its one write is the node.
pub proof fn lemma_read_agent(m: Map<(Seq<char>, Seq<char>, Seq<char>), Seq<char>>)
    requires
        agree_on(m, prop_cells("Agent"@, "agent_planner"@, agent_node_v().2), "Agent"@, "agent_planner"@),
    ensures
        read_node(m, "Agent"@, "agent_planner"@, agent_keys()) == agent_node_v(),
{
    let ps = agent_node_v().2;
    let l = "Agent"@;
    let id = "agent_planner"@;
    let ks = agent_keys();
    reveal_strlit("name");
    reveal_strlit("role");
    reveal_strlit("capabilities");
    reveal_strlit("availability");
    reveal_strlit("ref");
    reveal_strlit("created_at");
    reveal_strlit("updated_at");
    assert("name"@.len() == 4 && "role"@.len() == 4 && "capabilities"@.len() == 12 && "availability"@.len() == 12 && "ref"@.len() == 3 && "created_at"@.len() == 10 && "updated_at"@.len() == 10);
    assert("name"@[0] != "role"@[0]);
    assert("capabilities"@[0] != "availability"@[0]);
    assert("created_at"@[0] != "updated_at"@[0]);
    lemma_prop_cells_all(l, id, ps);
    lemma_prop_cells_take(l, id, ps, 1);
    lemma_prop_cells_take(l, id, ps, 2);
    lemma_prop_cells_take(l, id, ps, 3);
    lemma_prop_cells_take(l, id, ps, 4);
    lemma_prop_cells_take(l, id, ps, 5);
    lemma_prop_cells_take(l, id, ps, 6);
    lemma_prop_cells_take(l, id, ps, 7);
    let c0 = (l, id, ks[0]);
    assert(prop_cells(l, id, ps.take(1)).contains_key(c0) && prop_cells(l, id, ps.take(1))[c0] == ps[0].1);
    assert(prop_cells(l, id, ps.take(2)).contains_key(c0) && prop_cells(l, id, ps.take(2))[c0] == ps[0].1);
    assert(prop_cells(l, id, ps.take(3)).contains_key(c0) && prop_cells(l, id, ps.take(3))[c0] == ps[0].1);
    assert(prop_cells(l, id, ps.take(4)).contains_key(c0) && prop_cells(l, id, ps.take(4))[c0] == ps[0].1);
    assert(prop_cells(l, id, ps.take(5)).contains_key(c0) && prop_cells(l, id, ps.take(5))[c0] == ps[0].1);
    assert(prop_cells(l, id, ps.take(6)).contains_key(c0) && prop_cells(l, id, ps.take(6))[c0] == ps[0].1);
    assert(prop_cells(l, id, ps).contains_key(c0) && prop_cells(l, id, ps)[c0] == ps[0].1);
    assert(m.contains_key(c0) && m[c0] == ps[0].1);
    let c1 = (l, id, ks[1]);
    assert(prop_cells(l, id, ps.take(2)).contains_key(c1) && prop_cells(l, id, ps.take(2))[c1] == ps[1].1);
    assert(prop_cells(l, id, ps.take(3)).contains_key(c1) && prop_cells(l, id, ps.take(3))[c1] == ps[1].1);
    assert(prop_cells(l, id, ps.take(4)).contains_key(c1) && prop_cells(l, id, ps.take(4))[c1] == ps[1].1);
    assert(prop_cells(l, id, ps.take(5)).contains_key(c1) && prop_cells(l, id, ps.take(5))[c1] == ps[1].1);
    assert(prop_cells(l, id, ps.take(6)).contains_key(c1) && prop_cells(l, id, ps.take(6))[c1] == ps[1].1);
    assert(prop_cells(l, id, ps).contains_key(c1) && prop_cells(l, id, ps)[c1] == ps[1].1);
    assert(m.contains_key(c1) && m[c1] == ps[1].1);
    let c2 = (l, id, ks[2]);
    assert(prop_cells(l, id, ps.take(3)).contains_key(c2) && prop_cells(l, id, ps.take(3))[c2] == ps[2].1);
    assert(prop_cells(l, id, ps.take(4)).contains_key(c2) && prop_cells(l, id, ps.take(4))[c2] == ps[2].1);
    assert(prop_cells(l, id, ps.take(5)).contains_key(c2) && prop_cells(l, id, ps.take(5))[c2] == ps[2].1);
    assert(prop_cells(l, id, ps.take(6)).contains_key(c2) && prop_cells(l, id, ps.take(6))[c2] == ps[2].1);
    assert(prop_cells(l, id, ps).contains_key(c2) && prop_cells(l, id, ps)[c2] == ps[2].1);
    assert(m.contains_key(c2) && m[c2] == ps[2].1);
    let c3 = (l, id, ks[3]);
    assert(prop_cells(l, id, ps.take(4)).contains_key(c3) && prop_cells(l, id, ps.take(4))[c3] == ps[3].1);
    assert(prop_cells(l, id, ps.take(5)).contains_key(c3) && prop_cells(l, id, ps.take(5))[c3] == ps[3].1);
    assert(prop_cells(l, id, ps.take(6)).contains_key(c3) && prop_cells(l, id, ps.take(6))[c3] == ps[3].1);
    assert(prop_cells(l, id, ps).contains_key(c3) && prop_cells(l, id, ps)[c3] == ps[3].1);
    assert(m.contains_key(c3) && m[c3] == ps[3].1);
    let c4 = (l, id, ks[4]);
    assert(prop_cells(l, id, ps.take(5)).contains_key(c4) && prop_cells(l, id, ps.take(5))[c4] == ps[4].1);
    assert(prop_cells(l, id, ps.take(6)).contains_key(c4) && prop_cells(l, id, ps.take(6))[c4] == ps[4].1);
    assert(prop_cells(l, id, ps).contains_key(c4) && prop_cells(l, id, ps)[c4] == ps[4].1);
    assert(m.contains_key(c4) && m[c4] == ps[4].1);
    let c5 = (l, id, ks[5]);
    assert(prop_cells(l, id, ps.take(6)).contains_key(c5) && prop_cells(l, id, ps.take(6))[c5] == ps[5].1);
    assert(prop_cells(l, id, ps).contains_key(c5) && prop_cells(l, id, ps)[c5] == ps[5].1);
    assert(m.contains_key(c5) && m[c5] == ps[5].1);
    let c6 = (l, id, ks[6]);
    assert(prop_cells(l, id, ps).contains_key(c6) && prop_cells(l, id, ps)[c6] == ps[6].1);
    assert(m.contains_key(c6) && m[c6] == ps[6].1);
    assert(read_node(m, l, id, ks).2 =~= ps);
}

/// The node read back from cells that agree with its one write is the node.
pub proof fn lemma_read_work_item(m: Map<(Seq<char>, Seq<char>, Seq<char>), Seq<char>>, d: GraphDecision)
    requires
        agree_on(m, prop_cells("WorkItem"@, wi_id(d), wi_node_v(d).2), "WorkItem"@, wi_id(d)),
    ensures
        read_node(m, "WorkItem"@, wi_id(d), work_item_keys()) == wi_node_v(d),
{
    let ps = wi_node_v(d).2;
    let l = "WorkItem"@;
    let id = wi_id(d);
    let ks = work_item_keys();
    reveal_strlit("title");
    reveal_strlit("description");
    reveal_strlit("kind");
    reveal_strlit("planning_state");
    reveal_strlit("execution_state");
    reveal_strlit("execution_ref");
    reveal_strlit("created_at");
    reveal_strlit("updated_at");
    assert("title"@.len() == 5 && "description"@.len() == 11 && "kind"@.len() == 4 && "planning_state"@.len() == 14 && "execution_state"@.len() == 15 && "execution_ref"@.len() == 13 && "created_at"@.len() == 10 && "updated_at"@.len() == 10);
    assert("created_at"@[0] != "updated_at"@[0]);
    lemma_prop_cells_all(l, id, ps);
    lemma_prop_cells_take(l, id, ps, 1);
    lemma_prop_cells_take(l, id, ps, 2);
    lemma_prop_cells_take(l, id, ps, 3);
    lemma_prop_cells_take(l, id, ps, 4);
    lemma_prop_cells_take(l, id, ps, 5);
    lemma_prop_cells_take(l, id, ps, 6);
    lemma_prop_cells_take(l, id, ps, 7);
    lemma_prop_cells_take(l, id, ps, 8);
    let c0 = (l, id, ks[0]);
    assert(prop_cells(l, id, ps.take(1)).contains_key(c0) && prop_cells(l, id, ps.take(1))[c0] == ps[0].1);
    assert(prop_cells(l, id, ps.take(2)).contains_key(c0) && prop_cells(l, id, ps.take(2))[c0] == ps[0].1);
    assert(prop_cells(l, id, ps.take(3)).contains_key(c0) && prop_cells(l, id, ps.take(3))[c0] == ps[0].1);
    assert(prop_cells(l, id, ps.take(4)).contains_key(c0) && prop_cells(l, id, ps.take(4))[c0] == ps[0].1);
    assert(prop_cells(l, id, ps.take(5)).contains_key(c0) && prop_cells(l, id, ps.take(5))[c0] == ps[0].1);
    assert(prop_cells(l, id, ps.take(6)).contains_key(c0) && prop_cells(l, id, ps.take(6))[c0] == ps[0].1);
    assert(prop_cells(l, id, ps.take(7)).contains_key(c0) && prop_cells(l, id, ps.take(7))[c0] == ps[0].1);
    assert(prop_cells(l, id, ps).contains_key(c0) && prop_cells(l, id, ps)[c0] == ps[0].1);
    assert(m.contains_key(c0) && m[c0] == ps[0].1);
    let c1 = (l, id, ks[1]);
    assert(prop_cells(l, id, ps.take(2)).contains_key(c1) && prop_cells(l, id, ps.take(2))[c1] == ps[1].1);
    assert(prop_cells(l, id, ps.take(3)).contains_key(c1) && prop_cells(l, id, ps.take(3))[c1] == ps[1].1);
    assert(prop_cells(l, id, ps.take(4)).contains_key(c1) && prop_cells(l, id, ps.take(4))[c1] == ps[1].1);
    assert(prop_cells(l, id, ps.take(5)).contains_key(c1) && prop_cells(l, id, ps.take(5))[c1] == ps[1].1);
    assert(prop_cells(l, id, ps.take(6)).contains_key(c1) && prop_cells(l, id, ps.take(6))[c1] == ps[1].1);
    assert(prop_cells(l, id, ps.take(7)).contains_key(c1) && prop_cells(l, id, ps.take(7))[c1] == ps[1].1);
    assert(prop_cells(l, id, ps).contains_key(c1) && prop_cells(l, id, ps)[c1] == ps[1].1);
    assert(m.contains_key(c1) && m[c1] == ps[1].1);
    let c2 = (l, id, ks[2]);
    assert(prop_cells(l, id, ps.take(3)).contains_key(c2) && prop_cells(l, id, ps.take(3))[c2] == ps[2].1);
    assert(prop_cells(l, id, ps.take(4)).contains_key(c2) && prop_cells(l, id, ps.take(4))[c2] == ps[2].1);
    assert(prop_cells(l, id, ps.take(5)).contains_key(c2) && prop_cells(l, id, ps.take(5))[c2] == ps[2].1);
    assert(prop_cells(l, id, ps.take(6)).contains_key(c2) && prop_cells(l, id, ps.take(6))[c2] == ps[2].1);
    assert(prop_cells(l, id, ps.take(7)).contains_key(c2) && prop_cells(l, id, ps.take(7))[c2] == ps[2].1);
    assert(prop_cells(l, id, ps).contains_key(c2) && prop_cells(l, id, ps)[c2] == ps[2].1);
    assert(m.contains_key(c2) && m[c2] == ps[2].1);
    let c3 = (l, id, ks[3]);
    assert(prop_cells(l, id, ps.take(4)).contains_key(c3) && prop_cells(l, id, ps.take(4))[c3] == ps[3].1);
    assert(prop_cells(l, id, ps.take(5)).contains_key(c3) && prop_cells(l, id, ps.take(5))[c3] == ps[3].1);
    assert(prop_cells(l, id, ps.take(6)).contains_key(c3) && prop_cells(l, id, ps.take(6))[c3] == ps[3].1);
    assert(prop_cells(l, id, ps.take(7)).contains_key(c3) && prop_cells(l, id, ps.take(7))[c3] == ps[3].1);
    assert(prop_cells(l, id, ps).contains_key(c3) && prop_cells(l, id, ps)[c3] == ps[3].1);
    assert(m.contains_key(c3) && m[c3] == ps[3].1);
    let c4 = (l, id, ks[4]);
    assert(prop_cells(l, id, ps.take(5)).contains_key(c4) && prop_cells(l, id, ps.take(5))[c4] == ps[4].1);
    assert(prop_cells(l, id, ps.take(6)).contains_key(c4) && prop_cells(l, id, ps.take(6))[c4] == ps[4].1);
    assert(prop_cells(l, id, ps.take(7)).contains_key(c4) && prop_cells(l, id, ps.take(7))[c4] == ps[4].1);
    assert(prop_cells(l, id, ps).contains_key(c4) && prop_cells(l, id, ps)[c4] == ps[4].1);
    assert(m.contains_key(c4) && m[c4] == ps[4].1);
    let c5 = (l, id, ks[5]);
    assert(prop_cells(l, id, ps.take(6)).contains_key(c5) && prop_cells(l, id, ps.take(6))[c5] == ps[5].1);
    assert(prop_cells(l, id, ps.take(7)).contains_key(c5) && prop_cells(l, id, ps.take(7))[c5] == ps[5].1);
    assert(prop_cells(l, id, ps).contains_key(c5) && prop_cells(l, id, ps)[c5] == ps[5].1);
    assert(m.contains_key(c5) && m[c5] == ps[5].1);
    let c6 = (l, id, ks[6]);
    assert(prop_cells(l, id, ps.take(7)).contains_key(c6) && prop_cells(l, id, ps.take(7))[c6] == ps[6].1);
    assert(prop_cells(l, id, ps).contains_key(c6) && prop_cells(l, id, ps)[c6] == ps[6].1);
    assert(m.contains_key(c6) && m[c6] == ps[6].1);
    let c7 = (l, id, ks[7]);
    assert(prop_cells(l, id, ps).contains_key(c7) && prop_cells(l, id, ps)[c7] == ps[7].1);
    assert(m.contains_key(c7) && m[c7] == ps[7].1);
    assert(read_node(m, l, id, ks).2 =~= ps);
}

/// The node read back from cells that agree with its one write is the node.
pub proof fn lemma_read_signal(m: Map<(Seq<char>, Seq<char>, Seq<char>), Seq<char>>, d: GraphDecision, task_id: Seq<char>)
    requires
        agree_on(m, prop_cells("Signal"@, sig_id(d), sig_node_v(d, task_id).2), "Signal"@, sig_id(d)),
    ensures
        read_node(m, "Signal"@, sig_id(d), signal_keys()) == sig_node_v(d, task_id),
{
    let ps = sig_node_v(d, task_id).2;
    let l = "Signal"@;
    let id = sig_id(d);
    let ks = signal_keys();
    reveal_strlit("source_type");
    reveal_strlit("kind");
    reveal_strlit("summary");
    reveal_strlit("detail");
    reveal_strlit("origin_ref");
    reveal_strlit("created_at");
    assert("source_type"@.len() == 11 && "kind"@.len() == 4 && "summary"@.len() == 7 && "detail"@.len() == 6 && "origin_ref"@.len() == 10 && "created_at"@.len() == 10);
    assert("origin_ref"@[0] != "created_at"@[0]);
    lemma_prop_cells_all(l, id, ps);
    lemma_prop_cells_take(l, id, ps, 1);
    lemma_prop_cells_take(l, id, ps, 2);
    lemma_prop_cells_take(l, id, ps, 3);
    lemma_prop_cells_take(l, id, ps, 4);
    lemma_prop_cells_take(l, id, ps, 5);
    lemma_prop_cells_take(l, id, ps, 6);
    let c0 = (l, id, ks[0]);
    assert(prop_cells(l, id, ps.take(1)).contains_key(c0) && prop_cells(l, id, ps.take(1))[c0] == ps[0].1);
    assert(prop_cells(l, id, ps.take(2)).contains_key(c0) && prop_cells(l, id, ps.take(2))[c0] == ps[0].1);
    assert(prop_cells(l, id, ps.take(3)).contains_key(c0) && prop_cells(l, id, ps.take(3))[c0] == ps[0].1);
    assert(prop_cells(l, id, ps.take(4)).contains_key(c0) && prop_cells(l, id, ps.take(4))[c0] == ps[0].1);
    assert(prop_cells(l, id, ps.take(5)).contains_key(c0) && prop_cells(l, id, ps.take(5))[c0] == ps[0].1);
    assert(prop_cells(l, id, ps).contains_key(c0) && prop_cells(l, id, ps)[c0] == ps[0].1);
    assert(m.contains_key(c0) && m[c0] == ps[0].1);
    let c1 = (l, id, ks[1]);
    assert(prop_cells(l, id, ps.take(2)).contains_key(c1) && prop_cells(l, id, ps.take(2))[c1] == ps[1].1);
    assert(prop_cells(l, id, ps.take(3)).contains_key(c1) && prop_cells(l, id, ps.take(3))[c1] == ps[1].1);
    assert(prop_cells(l, id, ps.take(4)).contains_key(c1) && prop_cells(l, id, ps.take(4))[c1] == ps[1].1);
    assert(prop_cells(l, id, ps.take(5)).contains_key(c1) && prop_cells(l, id, ps.take(5))[c1] == ps[1].1);
    assert(prop_cells(l, id, ps).contains_key(c1) && prop_cells(l, id, ps)[c1] == ps[1].1);
    assert(m.contains_key(c1) && m[c1] == ps[1].1);
    let c2 = (l, id, ks[2]);
    assert(prop_cells(l, id, ps.take(3)).contains_key(c2) && prop_cells(l, id, ps.take(3))[c2] == ps[2].1);
    assert(prop_cells(l, id, ps.take(4)).contains_key(c2) && prop_cells(l, id, ps.take(4))[c2] == ps[2].1);
    assert(prop_cells(l, id, ps.take(5)).contains_key(c2) && prop_cells(l, id, ps.take(5))[c2] == ps[2].1);
    assert(prop_cells(l, id, ps).contains_key(c2) && prop_cells(l, id, ps)[c2] == ps[2].1);
    assert(m.contains_key(c2) && m[c2] == ps[2].1);
    let c3 = (l, id, ks[3]);
    assert(prop_cells(l, id, ps.take(4)).contains_key(c3) && prop_cells(l, id, ps.take(4))[c3] == ps[3].1);
    assert(prop_cells(l, id, ps.take(5)).contains_key(c3) && prop_cells(l, id, ps.take(5))[c3] == ps[3].1);
    assert(prop_cells(l, id, ps).contains_key(c3) && prop_cells(l, id, ps)[c3] == ps[3].1);
    assert(m.contains_key(c3) && m[c3] == ps[3].1);
    let c4 = (l, id, ks[4]);
    assert(prop_cells(l, id, ps.take(5)).contains_key(c4) && prop_cells(l, id, ps.take(5))[c4] == ps[4].1);
    assert(prop_cells(l, id, ps).contains_key(c4) && prop_cells(l, id, ps)[c4] == ps[4].1);
    assert(m.contains_key(c4) && m[c4] == ps[4].1);
    let c5 = (l, id, ks[5]);
    assert(prop_cells(l, id, ps).contains_key(c5) && prop_cells(l, id, ps)[c5] == ps[5].1);
    assert(m.contains_key(c5) && m[c5] == ps[5].1);
    assert(read_node(m, l, id, ks).2 =~= ps);
}

/// The node read back from cells that agree with its one write is the node.
pub proof fn lemma_read_artifact(m: Map<(Seq<char>, Seq<char>, Seq<char>), Seq<char>>, e: GraphEvidence)
    requires
        agree_on(m, prop_cells("Artifact"@, art_id(e), art_node_v(e).2), "Artifact"@, art_id(e)),
    ensures
        read_node(m, "Artifact"@, art_id(e), artifact_keys()) == art_node_v(e),
{
    let ps = art_node_v(e).2;
    let l = "Artifact"@;
    let id = art_id(e);
    let ks = artifact_keys();
    reveal_strlit("kind");
    reveal_strlit("name");
    reveal_strlit("summary");
    reveal_strlit("availability");
    reveal_strlit("ref");
    reveal_strlit("created_at");
    reveal_strlit("updated_at");
    assert("kind"@.len() == 4 && "name"@.len() == 4 && "summary"@.len() == 7 && "availability"@.len() == 12 && "ref"@.len() == 3 && "created_at"@.len() == 10 && "updated_at"@.len() == 10);
    assert("kind"@[0] != "name"@[0]);
    assert("created_at"@[0] != "updated_at"@[0]);
    lemma_prop_cells_all(l, id, ps);
    lemma_prop_cells_take(l, id, ps, 1);
    lemma_prop_cells_take(l, id, ps, 2);
    lemma_prop_cells_take(l, id, ps, 3);
    lemma_prop_cells_take(l, id, ps, 4);
    lemma_prop_cells_take(l, id, ps, 5);
    lemma_prop_cells_take(l, id, ps, 6);
    lemma_prop_cells_take(l, id, ps, 7);
    let c0 = (l, id, ks[0]);
    assert(prop_cells(l, id, ps.take(1)).contains_key(c0) && prop_cells(l, id, ps.take(1))[c0] == ps[0].1);
    assert(prop_cells(l, id, ps.take(2)).contains_key(c0) && prop_cells(l, id, ps.take(2))[c0] == ps[0].1);
    assert(prop_cells(l, id, ps.take(3)).contains_key(c0) && prop_cells(l, id, ps.take(3))[c0] == ps[0].1);
    assert(prop_cells(l, id, ps.take(4)).contains_key(c0) && prop_cells(l, id, ps.take(4))[c0] == ps[0].1);
    assert(prop_cells(l, id, ps.take(5)).contains_key(c0) && prop_cells(l, id, ps.take(5))[c0] == ps[0].1);
    assert(prop_cells(l, id, ps.take(6)).contains_key(c0) && prop_cells(l, id, ps.take(6))[c0] == ps[0].1);
    assert(prop_cells(l, id, ps).contains_key(c0) && prop_cells(l, id, ps)[c0] == ps[0].1);
    assert(m.contains_key(c0) && m[c0] == ps[0].1);
    let c1 = (l, id, ks[1]);
    assert(prop_cells(l, id, ps.take(2)).contains_key(c1) && prop_cells(l, id, ps.take(2))[c1] == ps[1].1);
    assert(prop_cells(l, id, ps.take(3)).contains_key(c1) && prop_cells(l, id, ps.take(3))[c1] == ps[1].1);
    assert(prop_cells(l, id, ps.take(4)).contains_key(c1) && prop_cells(l, id, ps.take(4))[c1] == ps[1].1);
    assert(prop_cells(l, id, ps.take(5)).contains_key(c1) && prop_cells(l, id, ps.take(5))[c1] == ps[1].1);
    assert(prop_cells(l, id, ps.take(6)).contains_key(c1) && prop_cells(l, id, ps.take(6))[c1] == ps[1].1);
    assert(prop_cells(l, id, ps).contains_key(c1) && prop_cells(l, id, ps)[c1] == ps[1].1);
    assert(m.contains_key(c1) && m[c1] == ps[1].1);
    let c2 = (l, id, ks[2]);
    assert(prop_cells(l, id, ps.take(3)).contains_key(c2) && prop_cells(l, id, ps.take(3))[c2] == ps[2].1);
    assert(prop_cells(l, id, ps.take(4)).contains_key(c2) && prop_cells(l, id, ps.take(4))[c2] == ps[2].1);
    assert(prop_cells(l, id, ps.take(5)).contains_key(c2) && prop_cells(l, id, ps.take(5))[c2] == ps[2].1);
    assert(prop_cells(l, id, ps.take(6)).contains_key(c2) && prop_cells(l, id, ps.take(6))[c2] == ps[2].1);
    assert(prop_cells(l, id, ps).contains_key(c2) && prop_cells(l, id, ps)[c2] == ps[2].1);
    assert(m.contains_key(c2) && m[c2] == ps[2].1);
    let c3 = (l, id, ks[3]);
    assert(prop_cells(l, id, ps.take(4)).contains_key(c3) && prop_cells(l, id, ps.take(4))[c3] == ps[3].1);
    assert(prop_cells(l, id, ps.take(5)).contains_key(c3) && prop_cells(l, id, ps.take(5))[c3] == ps[3].1);
    assert(prop_cells(l, id, ps.take(6)).contains_key(c3) && prop_cells(l, id, ps.take(6))[c3] == ps[3].1);
    assert(prop_cells(l, id, ps).contains_key(c3) && prop_cells(l, id, ps)[c3] == ps[3].1);
    assert(m.contains_key(c3) && m[c3] == ps[3].1);
    let c4 = (l, id, ks[4]);
    assert(prop_cells(l, id, ps.take(5)).contains_key(c4) && prop_cells(l, id, ps.take(5))[c4] == ps[4].1);
    assert(prop_cells(l, id, ps.take(6)).contains_key(c4) && prop_cells(l, id, ps.take(6))[c4] == ps[4].1);
    assert(prop_cells(l, id, ps).contains_key(c4) && prop_cells(l, id, ps)[c4] == ps[4].1);
    assert(m.contains_key(c4) && m[c4] == ps[4].1);
    let c5 = (l, id, ks[5]);
    assert(prop_cells(l, id, ps.take(6)).contains_key(c5) && prop_cells(l, id, ps.take(6))[c5] == ps[5].1);
    assert(prop_cells(l, id, ps).contains_key(c5) && prop_cells(l, id, ps)[c5] == ps[5].1);
    assert(m.contains_key(c5) && m[c5] == ps[5].1);
    let c6 = (l, id, ks[6]);
    assert(prop_cells(l, id, ps).contains_key(c6) && prop_cells(l, id, ps)[c6] == ps[6].1);
    assert(m.contains_key(c6) && m[c6] == ps[6].1);
    assert(read_node(m, l, id, ks).2 =~= ps);
}


proof fn lemma_contains_concat<A>(a: Seq<A>, b: Seq<A>)
    ensures
        forall|x: A| #[trigger] (a + b).contains(x) <==> a.contains(x) || b.contains(x),
{
    assert forall|x: A| #[trigger] (a + b).contains(x) <==> a.contains(x) || b.contains(x) by {
        if (a + b).contains(x) {
            let i = choose|i: int| 0 <= i < (a + b).len() && (a + b)[i] == x;
            if i < a.len() {
                assert(a[i] == x);
            } else {
                assert(b[i - a.len()] == x);
            }
        }
        if a.contains(x) {
            let i = choose|i: int| 0 <= i < a.len() && a[i] == x;
            assert((a + b)[i] == x);
        }
        if b.contains(x) {
            let i = choose|i: int| 0 <= i < b.len() && b[i] == x;
            assert((a + b)[i + a.len()] == x);
        }
    }
}

proof fn lemma_evidence_node_entries(d: GraphDecision, es: Seq<GraphEvidence>)
    ensures
        node_entries(evidences_writes(d, es)) == evidence_nodes(es),
    decreases es.len(),
{
    if es.len() > 0 {
        let e = es.last();
        lemma_evidence_node_entries(d, es.drop_last());
        lemma_entries_concat(evidences_writes(d, es.drop_last()), evidence_writes(d, e));
        let w0 = node_write(art_ref(e), art_node_v(e).2);
        let w1 = edge_write("REQUIRES"@, wi_ref(d), art_ref(e));
        let w2 = edge_write("SUPPORTED_BY"@, sig_ref(d), art_ref(e));
        let e0 = Seq::<GraphWrite>::empty();
        assert(e0.push(w0).drop_last() =~= e0);
        assert(e0.push(w0).push(w1).drop_last() =~= e0.push(w0));
        assert(e0.push(w0).push(w1).push(w2).drop_last() =~= e0.push(w0).push(w1));
        assert(node_entries(e0) =~= Seq::<NodeV>::empty());
        assert(node_entries(e0.push(w0)) =~= seq![art_node_v(e)]);
        assert(node_entries(e0.push(w0).push(w1)) =~= seq![art_node_v(e)]);
        assert(evidence_writes(d, e) == e0.push(w0).push(w1).push(w2));
        assert(node_entries(evidence_writes(d, e)) =~= seq![art_node_v(e)]);
        assert(evidence_nodes(es) =~= evidence_nodes(es.drop_last()) + seq![art_node_v(e)]);
    } else {
        assert(node_entries(evidences_writes(d, es)) =~= evidence_nodes(es));
    }
}

proof fn lemma_decisions_node_entries(ds: Seq<GraphDecision>, task_id: Seq<char>)
    ensures
        node_entries(decisions_writes(ds, task_id)) == decisions_nodes(ds, task_id),
    decreases ds.len(),
{
    if ds.len() > 0 {
        let d = ds.last();
        lemma_decisions_node_entries(ds.drop_last(), task_id);
        lemma_entries_concat(decisions_writes(ds.drop_last(), task_id), decision_writes(d, task_id));
        lemma_entries_concat(decision_head_writes(d, task_id), evidences_writes(d, d.evidence@));
        lemma_evidence_node_entries(d, d.evidence@);
        let w0 = node_write(wi_ref(d), wi_node_v(d).2);
        let w1 = edge_write("HAS_WORK"@, task_node_ref(task_id), wi_ref(d));
        let w2 = edge_write("ASSIGNED_TO"@, wi_ref(d), agent_ref());
        let w3 = node_write(sig_ref(d), sig_node_v(d, task_id).2);
        let w4 = edge_write("HAS_SIGNAL"@, task_node_ref(task_id), sig_ref(d));
        let w5 = edge_write("EMITS"@, agent_ref(), sig_ref(d));
        let e0 = Seq::<GraphWrite>::empty();
        let p1 = e0.push(w0);
        let p2 = p1.push(w1);
        let p3 = p2.push(w2);
        let p4 = p3.push(w3);
        let p5 = p4.push(w4);
        let p6 = p5.push(w5);
        assert(p1.drop_last() =~= e0);
        assert(p2.drop_last() =~= p1);
        assert(p3.drop_last() =~= p2);
        assert(p4.drop_last() =~= p3);
        assert(p5.drop_last() =~= p4);
        assert(p6.drop_last() =~= p5);
        assert(node_entries(e0) =~= Seq::<NodeV>::empty());
        assert(node_entries(p1) =~= seq![wi_node_v(d)]);
        assert(node_entries(p2) =~= seq![wi_node_v(d)]);
        assert(node_entries(p3) =~= seq![wi_node_v(d)]);
        assert(node_entries(p4) =~= seq![wi_node_v(d), sig_node_v(d, task_id)]);
        assert(node_entries(p5) =~= seq![wi_node_v(d), sig_node_v(d, task_id)]);
        assert(decision_head_writes(d, task_id) == p6);
        assert(node_entries(p6) =~= seq![wi_node_v(d), sig_node_v(d, task_id)]);
    } else {
        assert(node_entries(decisions_writes(ds, task_id)) =~= decisions_nodes(ds, task_id));
    }
}

/// The nodes the projection merges, in order, are the provenance nodes.
pub proof fn lemma_projection_node_entries(s: TaskGraphSnapshot)
    ensures
        node_entries(spec_projection_writes(s)) == spec_provenance_nodes(s),
{
    let ds = s.decisions@;
    let head = seq![task_write(s)] + (if ds.len() == 0 {
        Seq::<GraphWrite>::empty()
    } else {
        seq![agent_write()]
    });
    lemma_decisions_node_entries(ds, s.task_id@);
    lemma_entries_concat(head, decisions_writes(ds, s.task_id@));
    let e0 = Seq::<GraphWrite>::empty();
    assert(e0.push(task_write(s)).drop_last() =~= e0);
    assert(node_entries(e0) =~= Seq::<NodeV>::empty());
    assert(node_entries(e0.push(task_write(s))) =~= seq![task_node_v(s)]);
    if ds.len() == 0 {
        assert(head =~= e0.push(task_write(s)));
        assert(node_entries(head) =~= seq![task_node_v(s)] + Seq::<NodeV>::empty());
    } else {
        assert(head =~= e0.push(task_write(s)).push(agent_write()));
        assert(e0.push(task_write(s)).push(agent_write()).drop_last() =~= e0.push(task_write(s)));
        assert(node_entries(head) =~= seq![task_node_v(s)] + seq![agent_node_v()]);
    }
}

/// One of the relations the projection merges for decision `d`.
pub open spec fn decision_relation(
    d: GraphDecision,
    task_id: Seq<char>,
    e: (Seq<char>, (Seq<char>, Seq<char>), (Seq<char>, Seq<char>)),
) -> bool {
    ||| e == ("HAS_WORK"@, node_key(task_node_ref(task_id)), node_key(wi_ref(d)))
    ||| e == ("ASSIGNED_TO"@, node_key(wi_ref(d)), node_key(agent_ref()))
    ||| e == ("HAS_SIGNAL"@, node_key(task_node_ref(task_id)), node_key(sig_ref(d)))
    ||| e == ("EMITS"@, node_key(agent_ref()), node_key(sig_ref(d)))
    ||| exists|j: int|
        0 <= j < d.evidence@.len() && (e == ("REQUIRES"@, node_key(wi_ref(d)), node_key(art_ref(d.evidence@[j])))
            || e == ("SUPPORTED_BY"@, node_key(sig_ref(d)), node_key(art_ref(d.evidence@[j]))))
}

/// One of the provenance edges of decision `d`.
pub open spec fn decision_edge(d: GraphDecision, task_id: Seq<char>, e: EdgeV) -> bool {
    ||| e == plain_edge(task_id, wi_id(d), "HAS_WORK"@)
    ||| e == plain_edge(wi_id(d), "agent_planner"@, "ASSIGNED_TO"@)
    ||| e == plain_edge(task_id, sig_id(d), "HAS_SIGNAL"@)
    ||| e == plain_edge("agent_planner"@, sig_id(d), "EMITS"@)
    ||| exists|j: int|
        0 <= j < d.evidence@.len() && (e == plain_edge(wi_id(d), art_id(d.evidence@[j]), "REQUIRES"@) || e
            == plain_edge(sig_id(d), art_id(d.evidence@[j]), "SUPPORTED_BY"@))
}

/// One of the provenance nodes of decision `d`.
pub open spec fn decision_node(d: GraphDecision, task_id: Seq<char>, n: NodeV) -> bool {
    ||| n == wi_node_v(d)
    ||| n == sig_node_v(d, task_id)
    ||| exists|j: int| 0 <= j < d.evidence@.len() && n == art_node_v(d.evidence@[j])
}

proof fn lemma_evidence_relations(d: GraphDecision, es: Seq<GraphEvidence>)
    ensures
        forall|e| #[trigger] edge_entries(evidences_writes(d, es)).contains(e) <==> exists|j: int|
            0 <= j < es.len() && (e == ("REQUIRES"@, node_key(wi_ref(d)), node_key(art_ref(es[j]))) || e == (
                "SUPPORTED_BY"@,
                node_key(sig_ref(d)),
                node_key(art_ref(es[j])),
            )),
        forall|e| #[trigger] evidence_edges(d, es).contains(e) <==> exists|j: int|
            0 <= j < es.len() && (e == plain_edge(wi_id(d), art_id(es[j]), "REQUIRES"@) || e == plain_edge(
                sig_id(d),
                art_id(es[j]),
                "SUPPORTED_BY"@,
            )),
        forall|n| #[trigger] evidence_nodes(es).contains(n) <==> exists|j: int| 0 <= j < es.len() && n == art_node_v(es[j]),
    decreases es.len(),
{
    if es.len() > 0 {
        let front = es.drop_last();
        let e = es.last();
        lemma_evidence_relations(d, front);
        lemma_entries_concat(evidences_writes(d, front), evidence_writes(d, e));
        let w0 = node_write(art_ref(e), art_node_v(e).2);
        let w1 = edge_write("REQUIRES"@, wi_ref(d), art_ref(e));
        let w2 = edge_write("SUPPORTED_BY"@, sig_ref(d), art_ref(e));
        let e0 = Seq::<GraphWrite>::empty();
        assert(e0.push(w0).drop_last() =~= e0);
        assert(e0.push(w0).push(w1).drop_last() =~= e0.push(w0));
        assert(e0.push(w0).push(w1).push(w2).drop_last() =~= e0.push(w0).push(w1));
        assert(evidence_writes(d, e) == e0.push(w0).push(w1).push(w2));
        let r1 = ("REQUIRES"@, node_key(wi_ref(d)), node_key(art_ref(e)));
        let r2 = ("SUPPORTED_BY"@, node_key(sig_ref(d)), node_key(art_ref(e)));
        assert(edge_entries(e0) =~= Seq::<(Seq<char>, (Seq<char>, Seq<char>), (Seq<char>, Seq<char>))>::empty());
        assert(edge_entries(e0.push(w0)) =~= Seq::<(Seq<char>, (Seq<char>, Seq<char>), (Seq<char>, Seq<char>))>::empty());
        assert(edge_entries(e0.push(w0).push(w1)) =~= seq![r1]);
        assert(edge_entries(e0.push(w0).push(w1).push(w2)) =~= seq![r1, r2]);
        assert(edge_entries(evidence_writes(d, e)) =~= seq![r1, r2]);
        let ee = edge_entries(evidences_writes(d, es));
        let ef = edge_entries(evidences_writes(d, front));
        lemma_contains_concat(ef, seq![r1, r2]);
        assert forall|x| #[trigger] ee.contains(x) <==> exists|j: int|
            0 <= j < es.len() && (x == ("REQUIRES"@, node_key(wi_ref(d)), node_key(art_ref(es[j]))) || x == (
                "SUPPORTED_BY"@,
                node_key(sig_ref(d)),
                node_key(art_ref(es[j])),
            )) by {
            if ef.contains(x) {
                let j = choose|j: int|
                    0 <= j < front.len() && (x == ("REQUIRES"@, node_key(wi_ref(d)), node_key(art_ref(front[j]))) || x
                        == ("SUPPORTED_BY"@, node_key(sig_ref(d)), node_key(art_ref(front[j]))));
                assert(es[j] == front[j]);
            }
            if seq![r1, r2].contains(x) {
                assert(x == r1 || x == r2) by {
                    let k = choose|k: int| 0 <= k < 2 && seq![r1, r2][k] == x;
                }
                assert(es[es.len() - 1] == e);
            }
            if exists|j: int|
                0 <= j < es.len() && (x == ("REQUIRES"@, node_key(wi_ref(d)), node_key(art_ref(es[j]))) || x == (
                    "SUPPORTED_BY"@,
                    node_key(sig_ref(d)),
                    node_key(art_ref(es[j])),
                )) {
                let j = choose|j: int|
                    0 <= j < es.len() && (x == ("REQUIRES"@, node_key(wi_ref(d)), node_key(art_ref(es[j]))) || x == (
                        "SUPPORTED_BY"@,
                        node_key(sig_ref(d)),
                        node_key(art_ref(es[j])),
                    ));
                if j < front.len() {
                    assert(es[j] == front[j]);
                    assert(ef.contains(x));
                } else {
                    assert(seq![r1, r2][0] == r1);
                    assert(seq![r1, r2][1] == r2);
                }
            }
        }
        let p1 = plain_edge(wi_id(d), art_id(e), "REQUIRES"@);
        let p2 = plain_edge(sig_id(d), art_id(e), "SUPPORTED_BY"@);
        let pf = evidence_edges(d, front);
        lemma_contains_concat(pf, seq![p1, p2]);
        assert forall|x| #[trigger] evidence_edges(d, es).contains(x) <==> exists|j: int|
            0 <= j < es.len() && (x == plain_edge(wi_id(d), art_id(es[j]), "REQUIRES"@) || x == plain_edge(
                sig_id(d),
                art_id(es[j]),
                "SUPPORTED_BY"@,
            )) by {
            if pf.contains(x) {
                let j = choose|j: int|
                    0 <= j < front.len() && (x == plain_edge(wi_id(d), art_id(front[j]), "REQUIRES"@) || x == plain_edge(
                        sig_id(d),
                        art_id(front[j]),
                        "SUPPORTED_BY"@,
                    ));
                assert(es[j] == front[j]);
            }
            if seq![p1, p2].contains(x) {
                assert(x == p1 || x == p2) by {
                    let k = choose|k: int| 0 <= k < 2 && seq![p1, p2][k] == x;
                }
                assert(es[es.len() - 1] == e);
            }
            if exists|j: int|
                0 <= j < es.len() && (x == plain_edge(wi_id(d), art_id(es[j]), "REQUIRES"@) || x == plain_edge(
                    sig_id(d),
                    art_id(es[j]),
                    "SUPPORTED_BY"@,
                )) {
                let j = choose|j: int|
                    0 <= j < es.len() && (x == plain_edge(wi_id(d), art_id(es[j]), "REQUIRES"@) || x == plain_edge(
                        sig_id(d),
                        art_id(es[j]),
                        "SUPPORTED_BY"@,
                    ));
                if j < front.len() {
                    assert(es[j] == front[j]);
                    assert(pf.contains(x));
                } else {
                    assert(seq![p1, p2][0] == p1);
                    assert(seq![p1, p2][1] == p2);
                }
            }
        }
        let nf = evidence_nodes(front);
        assert(evidence_nodes(es) =~= nf + seq![art_node_v(e)]);
        lemma_contains_concat(nf, seq![art_node_v(e)]);
        assert forall|n| #[trigger] evidence_nodes(es).contains(n) <==> exists|j: int|
            0 <= j < es.len() && n == art_node_v(es[j]) by {
            if nf.contains(n) {
                let j = choose|j: int| 0 <= j < front.len() && n == art_node_v(front[j]);
                assert(es[j] == front[j]);
            }
            if seq![art_node_v(e)].contains(n) {
                assert(seq![art_node_v(e)][0] == n);
                assert(es[es.len() - 1] == e);
            }
            if exists|j: int| 0 <= j < es.len() && n == art_node_v(es[j]) {
                let j = choose|j: int| 0 <= j < es.len() && n == art_node_v(es[j]);
                if j < front.len() {
                    assert(es[j] == front[j]);
                    assert(nf.contains(n));
                } else {
                    assert(seq![art_node_v(e)][0] == n);
                }
            }
        }
    } else {
        assert(edge_entries(evidences_writes(d, es)) =~= Seq::<
            (Seq<char>, (Seq<char>, Seq<char>), (Seq<char>, Seq<char>)),
        >::empty());
    }
}

proof fn lemma_decision_relations(d: GraphDecision, task_id: Seq<char>)
    ensures
        forall|e| #[trigger] edge_entries(decision_writes(d, task_id)).contains(e) <==> decision_relation(d, task_id, e),
        forall|e| #[trigger] decision_edges(d, task_id).contains(e) <==> decision_edge(d, task_id, e),
        forall|n| #[trigger] decision_nodes(d, task_id).contains(n) <==> decision_node(d, task_id, n),
{
    let es = d.evidence@;
    lemma_evidence_relations(d, es);
    lemma_entries_concat(decision_head_writes(d, task_id), evidences_writes(d, es));
    let w0 = node_write(wi_ref(d), wi_node_v(d).2);
    let w1 = edge_write("HAS_WORK"@, task_node_ref(task_id), wi_ref(d));
    let w2 = edge_write("ASSIGNED_TO"@, wi_ref(d), agent_ref());
    let w3 = node_write(sig_ref(d), sig_node_v(d, task_id).2);
    let w4 = edge_write("HAS_SIGNAL"@, task_node_ref(task_id), sig_ref(d));
    let w5 = edge_write("EMITS"@, agent_ref(), sig_ref(d));
    let e0 = Seq::<GraphWrite>::empty();
    let p1 = e0.push(w0);
    let p2 = p1.push(w1);
    let p3 = p2.push(w2);
    let p4 = p3.push(w3);
    let p5 = p4.push(w4);
    let p6 = p5.push(w5);
    assert(p1.drop_last() =~= e0);
    assert(p2.drop_last() =~= p1);
    assert(p3.drop_last() =~= p2);
    assert(p4.drop_last() =~= p3);
    assert(p5.drop_last() =~= p4);
    assert(p6.drop_last() =~= p5);
    assert(decision_head_writes(d, task_id) == p6);
    let r1 = ("HAS_WORK"@, node_key(task_node_ref(task_id)), node_key(wi_ref(d)));
    let r2 = ("ASSIGNED_TO"@, node_key(wi_ref(d)), node_key(agent_ref()));
    let r3 = ("HAS_SIGNAL"@, node_key(task_node_ref(task_id)), node_key(sig_ref(d)));
    let r4 = ("EMITS"@, node_key(agent_ref()), node_key(sig_ref(d)));
    assert(edge_entries(e0) =~= Seq::<(Seq<char>, (Seq<char>, Seq<char>), (Seq<char>, Seq<char>))>::empty());
    assert(edge_entries(p1) =~= Seq::<(Seq<char>, (Seq<char>, Seq<char>), (Seq<char>, Seq<char>))>::empty());
    assert(edge_entries(p2) =~= seq![r1]);
    assert(edge_entries(p3) =~= seq![r1, r2]);
    assert(edge_entries(p4) =~= seq![r1, r2]);
    assert(edge_entries(p5) =~= seq![r1, r2, r3]);
    assert(edge_entries(p6) =~= seq![r1, r2, r3, r4]);
    let hr = seq![r1, r2, r3, r4];
    let er = edge_entries(evidences_writes(d, es));
    lemma_contains_concat(hr, er);
    assert(hr[0] == r1 && hr[1] == r2 && hr[2] == r3 && hr[3] == r4);
    assert forall|e| #[trigger] edge_entries(decision_writes(d, task_id)).contains(e) <==> decision_relation(d, task_id, e) by {
        if hr.contains(e) {
            let k = choose|k: int| 0 <= k < 4 && hr[k] == e;
        }
        if er.contains(e) {
        }
    }
    let ph = seq![
        plain_edge(task_id, wi_id(d), "HAS_WORK"@),
        plain_edge(wi_id(d), "agent_planner"@, "ASSIGNED_TO"@),
        plain_edge(task_id, sig_id(d), "HAS_SIGNAL"@),
        plain_edge("agent_planner"@, sig_id(d), "EMITS"@),
    ];
    let pe = evidence_edges(d, es);
    lemma_contains_concat(ph, pe);
    assert(ph[0] == plain_edge(task_id, wi_id(d), "HAS_WORK"@));
    assert(ph[1] == plain_edge(wi_id(d), "agent_planner"@, "ASSIGNED_TO"@));
    assert(ph[2] == plain_edge(task_id, sig_id(d), "HAS_SIGNAL"@));
    assert(ph[3] == plain_edge("agent_planner"@, sig_id(d), "EMITS"@));
    assert forall|e| #[trigger] decision_edges(d, task_id).contains(e) <==> decision_edge(d, task_id, e) by {
        if ph.contains(e) {
            let k = choose|k: int| 0 <= k < 4 && ph[k] == e;
        }
    }
    let nh = seq![wi_node_v(d), sig_node_v(d, task_id)];
    let ne = evidence_nodes(es);
    lemma_contains_concat(nh, ne);
    assert(nh[0] == wi_node_v(d) && nh[1] == sig_node_v(d, task_id));
    assert forall|n| #[trigger] decision_nodes(d, task_id).contains(n) <==> decision_node(d, task_id, n) by {
        if nh.contains(n) {
            let k = choose|k: int| 0 <= k < 2 && nh[k] == n;
        }
    }
}

proof fn lemma_decisions_relations(ds: Seq<GraphDecision>, task_id: Seq<char>)
    ensures
        forall|e| #[trigger] edge_entries(decisions_writes(ds, task_id)).contains(e) <==> exists|i: int|
            0 <= i < ds.len() && decision_relation(ds[i], task_id, e),
        forall|e| #[trigger] decisions_edges(ds, task_id).contains(e) <==> exists|i: int|
            0 <= i < ds.len() && decision_edge(ds[i], task_id, e),
        forall|n| #[trigger] decisions_nodes(ds, task_id).contains(n) <==> exists|i: int|
            0 <= i < ds.len() && decision_node(ds[i], task_id, n),
    decreases ds.len(),
{
    if ds.len() > 0 {
        let front = ds.drop_last();
        let d = ds.last();
        lemma_decisions_relations(front, task_id);
        lemma_decision_relations(d, task_id);
        lemma_entries_concat(decisions_writes(front, task_id), decision_writes(d, task_id));
        let fr = edge_entries(decisions_writes(front, task_id));
        let lr = edge_entries(decision_writes(d, task_id));
        lemma_contains_concat(fr, lr);
        lemma_contains_concat(decisions_edges(front, task_id), decision_edges(d, task_id));
        lemma_contains_concat(decisions_nodes(front, task_id), decision_nodes(d, task_id));
        assert(ds[ds.len() - 1] == d);
        assert forall|e| #[trigger] edge_entries(decisions_writes(ds, task_id)).contains(e) <==> exists|i: int|
            0 <= i < ds.len() && decision_relation(ds[i], task_id, e) by {
            if fr.contains(e) {
                let i = choose|i: int| 0 <= i < front.len() && decision_relation(front[i], task_id, e);
                assert(ds[i] == front[i]);
            }
            if exists|i: int| 0 <= i < ds.len() && decision_relation(ds[i], task_id, e) {
                let i = choose|i: int| 0 <= i < ds.len() && decision_relation(ds[i], task_id, e);
                if i < front.len() {
                    assert(ds[i] == front[i]);
                    assert(fr.contains(e));
                }
            }
        }
        assert forall|e| #[trigger] decisions_edges(ds, task_id).contains(e) <==> exists|i: int|
            0 <= i < ds.len() && decision_edge(ds[i], task_id, e) by {
            if decisions_edges(front, task_id).contains(e) {
                let i = choose|i: int| 0 <= i < front.len() && decision_edge(front[i], task_id, e);
                assert(ds[i] == front[i]);
            }
            if exists|i: int| 0 <= i < ds.len() && decision_edge(ds[i], task_id, e) {
                let i = choose|i: int| 0 <= i < ds.len() && decision_edge(ds[i], task_id, e);
                if i < front.len() {
                    assert(ds[i] == front[i]);
                    assert(decisions_edges(front, task_id).contains(e));
                }
            }
        }
        assert forall|n| #[trigger] decisions_nodes(ds, task_id).contains(n) <==> exists|i: int|
            0 <= i < ds.len() && decision_node(ds[i], task_id, n) by {
            if decisions_nodes(front, task_id).contains(n) {
                let i = choose|i: int| 0 <= i < front.len() && decision_node(front[i], task_id, n);
                assert(ds[i] == front[i]);
            }
            if exists|i: int| 0 <= i < ds.len() && decision_node(ds[i], task_id, n) {
                let i = choose|i: int| 0 <= i < ds.len() && decision_node(ds[i], task_id, n);
                if i < front.len() {
                    assert(ds[i] == front[i]);
                    assert(decisions_nodes(front, task_id).contains(n));
                }
            }
        }
    } else {
        assert(edge_entries(decisions_writes(ds, task_id)) =~= Seq::<
            (Seq<char>, (Seq<char>, Seq<char>), (Seq<char>, Seq<char>)),
        >::empty());
        assert(decisions_edges(ds, task_id) =~= Seq::<EdgeV>::empty());
        assert(decisions_nodes(ds, task_id) =~= Seq::<NodeV>::empty());
    }
}

/// A graph with nothing in it.
pub open spec fn empty_graph() -> GraphState {
    GraphState { nodes: Set::empty(), props: Map::empty(), edges: Set::empty() }
}

/// The graph that projecting `s` into an empty database leaves.
#[verifier::opaque]
pub open spec fn projected(s: TaskGraphSnapshot) -> GraphState {
    run_writes(empty_graph(), spec_projection_writes(s))
}

/// One of the provenance nodes of snapshot `s`.
pub open spec fn provenance_node(s: TaskGraphSnapshot, n: NodeV) -> bool {
    ||| n == task_node_v(s)
    ||| s.decisions@.len() > 0 && n == agent_node_v()
    ||| exists|i: int| 0 <= i < s.decisions@.len() && decision_node(s.decisions@[i], s.task_id@, n)
}

/// The provenance nodes of a snapshot are its task, the planner agent when
/// it has decisions, and the nodes of its decisions.
pub proof fn lemma_provenance_nodes_contain(s: TaskGraphSnapshot)
    ensures
        forall|n| #[trigger] spec_provenance_nodes(s).contains(n) <==> provenance_node(s, n),
{
    let ds = s.decisions@;
    let head = seq![task_node_v(s)] + (if ds.len() == 0 {
        Seq::<NodeV>::empty()
    } else {
        seq![agent_node_v()]
    });
    lemma_decisions_relations(ds, s.task_id@);
    lemma_contains_concat(head, decisions_nodes(ds, s.task_id@));
    if ds.len() == 0 {
        assert(head =~= seq![task_node_v(s)]);
    } else {
        assert(head =~= seq![task_node_v(s), agent_node_v()]);
    }
    assert forall|n| #[trigger] spec_provenance_nodes(s).contains(n) <==> provenance_node(s, n) by {
        if head.contains(n) {
            let k = choose|k: int| 0 <= k < head.len() && head[k] == n;
        }
        if n == task_node_v(s) {
            assert(head[0] == n);
        }
        if ds.len() > 0 && n == agent_node_v() {
            assert(head[1] == n);
        }
    }
}

/// What projecting a snapshot into an empty database leaves there: its
/// relations are those of the decisions, its nodes are the provenance nodes,
/// and when no two provenance nodes share a key, each node's properties are
/// the ones its provenance node lists.
pub proof fn lemma_projected_graph(s: TaskGraphSnapshot)
    ensures
        relations_are_decisions(s, projected(s)),
        forall|n: NodeV| #[trigger] spec_provenance_nodes(s).contains(n) ==> projected(s).nodes.contains((n.1, n.0)),
        keys_distinct(spec_provenance_nodes(s)) ==> forall|n: NodeV| #[trigger] spec_provenance_nodes(s).contains(n)
            ==> agree_on(projected(s).props, prop_cells(n.1, n.0, n.2), n.1, n.0),
{
    reveal(projected);
    let ws = spec_projection_writes(s);
    let ds = s.decisions@;
    let g0 = empty_graph();
    lemma_projection_endpoints(s, g0.nodes);
    lemma_run_writes(g0, ws);
    lemma_written_entries(ws);
    lemma_projection_node_entries(s);
    lemma_decisions_relations(ds, s.task_id@);
    let g = projected(s);
    assert(g.edges =~= written_edges(ws));
    assert(g.nodes =~= written_nodes(ws));
    assert(g.props =~= written_cells(ws));
    let head = seq![task_write(s)] + (if ds.len() == 0 {
        Seq::<GraphWrite>::empty()
    } else {
        seq![agent_write()]
    });
    lemma_entries_concat(head, decisions_writes(ds, s.task_id@));
    let e0 = Seq::<GraphWrite>::empty();
    assert(e0.push(task_write(s)).drop_last() =~= e0);
    assert(edge_entries(e0) =~= Seq::<(Seq<char>, (Seq<char>, Seq<char>), (Seq<char>, Seq<char>))>::empty());
    assert(edge_entries(e0.push(task_write(s))) =~= Seq::<(Seq<char>, (Seq<char>, Seq<char>), (Seq<char>, Seq<char>))>::empty());
    if ds.len() == 0 {
        assert(head =~= e0.push(task_write(s)));
    } else {
        assert(head =~= e0.push(task_write(s)).push(agent_write()));
        assert(e0.push(task_write(s)).push(agent_write()).drop_last() =~= e0.push(task_write(s)));
        assert(edge_entries(e0.push(task_write(s)).push(agent_write())) =~= Seq::<(Seq<char>, (Seq<char>, Seq<char>), (Seq<char>, Seq<char>))>::empty());
    }
    assert(edge_entries(head) =~= Seq::<(Seq<char>, (Seq<char>, Seq<char>), (Seq<char>, Seq<char>))>::empty());
    assert(edge_entries(ws) =~= edge_entries(decisions_writes(ds, s.task_id@)));
    let prov = spec_provenance_nodes(s);
    assert forall|n: NodeV| #[trigger] prov.contains(n) implies g.nodes.contains((n.1, n.0)) by {
        let i = choose|i: int| 0 <= i < prov.len() && prov[i] == n;
        assert(node_entries(ws)[i] == n);
    }
    if keys_distinct(prov) {
        assert(entry_keys_distinct(node_entries(ws)));
        assert forall|n: NodeV| #[trigger] prov.contains(n) implies agree_on(g.props, prop_cells(n.1, n.0, n.2), n.1, n.0) by {
            let i = choose|i: int| 0 <= i < prov.len() && prov[i] == n;
            assert(node_entries(ws)[i] == n);
            lemma_cells_of_entry(ws, i);
        }
    }
}

/// The relation kinds are distinct names.
pub proof fn lemma_relation_kinds()
    ensures
        "HAS_WORK"@ != "ASSIGNED_TO"@,
        "HAS_WORK"@ != "HAS_SIGNAL"@,
        "HAS_WORK"@ != "EMITS"@,
        "HAS_WORK"@ != "REQUIRES"@,
        "HAS_WORK"@ != "SUPPORTED_BY"@,
        "ASSIGNED_TO"@ != "HAS_SIGNAL"@,
        "ASSIGNED_TO"@ != "EMITS"@,
        "ASSIGNED_TO"@ != "REQUIRES"@,
        "ASSIGNED_TO"@ != "SUPPORTED_BY"@,
        "HAS_SIGNAL"@ != "EMITS"@,
        "HAS_SIGNAL"@ != "REQUIRES"@,
        "HAS_SIGNAL"@ != "SUPPORTED_BY"@,
        "EMITS"@ != "REQUIRES"@,
        "EMITS"@ != "SUPPORTED_BY"@,
        "REQUIRES"@ != "SUPPORTED_BY"@,
{
    reveal_strlit("HAS_WORK");
    reveal_strlit("ASSIGNED_TO");
    reveal_strlit("HAS_SIGNAL");
    reveal_strlit("EMITS");
    reveal_strlit("REQUIRES");
    reveal_strlit("SUPPORTED_BY");
    assert("HAS_WORK"@.len() == 8 && "ASSIGNED_TO"@.len() == 11 && "HAS_SIGNAL"@.len() == 10 && "EMITS"@.len() == 5 && "REQUIRES"@.len() == 8 && "SUPPORTED_BY"@.len() == 12);
    assert("HAS_WORK"@[0] != "REQUIRES"@[0]);
}

/// The cells `keys` of node `(label, id)`, in order.
pub open spec fn cells_of(g: GraphState, label: Seq<char>, id: Seq<char>, keys: Seq<Seq<char>>) -> Seq<Seq<char>> {
    keys.map_values(|k: Seq<char>| g.props[(label, id, k)])
}

/// A relation of `kind` from node `(from_label, from)` to node `(to_label, to)`.
pub open spec fn related(
    g: GraphState,
    kind: Seq<char>,
    from_label: Seq<char>,
    from: Seq<char>,
    to_label: Seq<char>,
    to: Seq<char>,
) -> bool {
    g.edges.contains((kind, (from_label, from), (to_label, to)))
}

/// A row whose columns from `prefix.len()` on are cells of one node reads
/// back as that node.
proof fn lemma_row_reads_node(
    g: GraphState,
    prefix: Seq<Seq<char>>,
    id_col: int,
    label: Seq<char>,
    id: Seq<char>,
    keys: Seq<Seq<char>>,
)
    requires
        0 <= id_col < prefix.len(),
        prefix[id_col] == id,
    ensures
        row_node(prefix + cells_of(g, label, id, keys), id_col, prefix.len() as int, label, keys) == read_node(
            g.props,
            label,
            id,
            keys,
        ),
{
    let row = prefix + cells_of(g, label, id, keys);
    assert(row_node(row, id_col, prefix.len() as int, label, keys).2 =~= read_node(g.props, label, id, keys).2);
}

/// Every relation of the projected graph is one of a decision's.
pub open spec fn relations_are_decisions(s: TaskGraphSnapshot, g: GraphState) -> bool {
    forall|e| #[trigger] g.edges.contains(e) <==> exists|i: int|
        0 <= i < s.decisions@.len() && decision_relation(s.decisions@[i], s.task_id@, e)
}

proof fn lemma_projected_relations(s: TaskGraphSnapshot)
    ensures
        relations_are_decisions(s, projected(s)),
{
    lemma_projected_graph(s);
}

/// The rows of the read of a task's work items: the task's key, the work
/// item's key and its properties, for each `HAS_WORK` relation of the task.
pub open spec fn work_item_rows(g: GraphState, t: Seq<char>) -> Set<Seq<Seq<char>>> {
    Set::new(
        |row: Seq<Seq<char>>|
            exists|w: Seq<char>|
                #[trigger] related(g, "HAS_WORK"@, "Task"@, t, "WorkItem"@, w) && row == seq![t, w] + cells_of(
                    g,
                    "WorkItem"@,
                    w,
                    work_item_keys(),
                ),
    )
}

/// The row read for decision `d`'s work item.
#[verifier::opaque]
pub open spec fn wi_row(g: GraphState, t: Seq<char>, d: GraphDecision) -> Seq<Seq<char>> {
    seq![t, wi_id(d)] + cells_of(g, "WorkItem"@, wi_id(d), work_item_keys())
}

#[verifier::spinoff_prover]
proof fn lemma_wi_row_of(s: TaskGraphSnapshot, rows: Seq<Seq<Seq<char>>>, k: int)
    requires
        rows.to_set() == work_item_rows(projected(s), s.task_id@),
        0 <= k < rows.len(),
    ensures
        exists|i: int| 0 <= i < s.decisions@.len() && rows[k] == wi_row(projected(s), s.task_id@, s.decisions@[i]),
{
    let g = projected(s);
    let ds = s.decisions@;
    let t = s.task_id@;
    lemma_projected_relations(s);
    lemma_relation_kinds();
    reveal(wi_row);
    assert(rows.to_set().contains(rows[k]));
    let w = choose|w: Seq<char>|
        #[trigger] related(g, "HAS_WORK"@, "Task"@, t, "WorkItem"@, w) && rows[k] == seq![t, w] + cells_of(
            g,
            "WorkItem"@,
            w,
            work_item_keys(),
        );
    let e = ("HAS_WORK"@, ("Task"@, t), ("WorkItem"@, w));
    assert(g.edges.contains(e));
    let i = choose|i: int| 0 <= i < ds.len() && decision_relation(ds[i], t, e);
    assert(w == wi_id(ds[i]));
    assert(rows[k] == wi_row(g, t, ds[i]));
}

#[verifier::spinoff_prover]
proof fn lemma_wi_row_at(s: TaskGraphSnapshot, rows: Seq<Seq<Seq<char>>>, i: int)
    requires
        keys_distinct(spec_provenance_nodes(s)),
        rows.to_set() == work_item_rows(projected(s), s.task_id@),
        0 <= i < s.decisions@.len(),
    ensures
        exists|k: int| 0 <= k < rows.len() && rows[k] == wi_row(projected(s), s.task_id@, s.decisions@[i]),
        row_node(wi_row(projected(s), s.task_id@, s.decisions@[i]), 1, 2, "WorkItem"@, work_item_keys())
            == wi_node_v(s.decisions@[i]),
{
    let g = projected(s);
    let ds = s.decisions@;
    let t = s.task_id@;
    let d = ds[i];
    lemma_projected_relations(s);
    reveal(wi_row);
    let w = wi_id(d);
    let row = wi_row(g, t, d);
    let e = ("HAS_WORK"@, ("Task"@, t), ("WorkItem"@, w));
    assert(decision_relation(d, t, e));
    assert(related(g, "HAS_WORK"@, "Task"@, t, "WorkItem"@, w));
    assert(work_item_rows(g, t).contains(row));
    assert(rows.to_set().contains(row));
    lemma_wi_node_read(s, i);
}

#[verifier::spinoff_prover]
proof fn lemma_wi_node_read(s: TaskGraphSnapshot, i: int)
    requires
        keys_distinct(spec_provenance_nodes(s)),
        0 <= i < s.decisions@.len(),
    ensures
        row_node(wi_row(projected(s), s.task_id@, s.decisions@[i]), 1, 2, "WorkItem"@, work_item_keys())
            == wi_node_v(s.decisions@[i]),
{
    let g = projected(s);
    let t = s.task_id@;
    let d = s.decisions@[i];
    lemma_projected_graph(s);
    lemma_provenance_nodes_contain(s);
    reveal(wi_row);
    assert(decision_node(d, t, wi_node_v(d)));
    assert(provenance_node(s, wi_node_v(d)));
    assert(spec_provenance_nodes(s).contains(wi_node_v(d)));
    lemma_row_reads_node(g, seq![t, wi_id(d)], 1, "WorkItem"@, wi_id(d), work_item_keys());
    lemma_read_work_item(g.props, d);
}

#[verifier::spinoff_prover]
proof fn lemma_work_item_group(s: TaskGraphSnapshot, rows: Seq<Seq<Seq<char>>>)
    requires
        keys_distinct(spec_provenance_nodes(s)),
        rows.to_set() == work_item_rows(projected(s), s.task_id@),
    ensures
        forall|n: NodeV| #[trigger] group_nodes(rows, 1, 2, "WorkItem"@, work_item_keys()).contains(n) <==> exists|i: int|
            0 <= i < s.decisions@.len() && n == wi_node_v(s.decisions@[i]),
        forall|e: EdgeV| #[trigger] group_edges(rows, "HAS_WORK"@).contains(e) <==> exists|i: int|
            0 <= i < s.decisions@.len() && e == plain_edge(s.task_id@, wi_id(s.decisions@[i]), "HAS_WORK"@),
{
    let g = projected(s);
    let ds = s.decisions@;
    let t = s.task_id@;
    let ks = work_item_keys();
    let gn = group_nodes(rows, 1, 2, "WorkItem"@, ks);
    let ge = group_edges(rows, "HAS_WORK"@);
    assert forall|n: NodeV| #[trigger] gn.contains(n) <==> exists|i: int| 0 <= i < ds.len() && n == wi_node_v(ds[i]) by {
        if gn.contains(n) {
            let k = choose|k: int| 0 <= k < gn.len() && gn[k] == n;
            lemma_wi_row_of(s, rows, k);
            let i = choose|i: int| 0 <= i < ds.len() && rows[k] == wi_row(g, t, ds[i]);
            lemma_wi_node_read(s, i);
            assert(n == wi_node_v(ds[i]));
        }
        if exists|i: int| 0 <= i < ds.len() && n == wi_node_v(ds[i]) {
            let i = choose|i: int| 0 <= i < ds.len() && n == wi_node_v(ds[i]);
            lemma_wi_row_at(s, rows, i);
            let k = choose|k: int| 0 <= k < rows.len() && rows[k] == wi_row(g, t, ds[i]);
            assert(gn[k] == n);
        }
    }
    assert forall|e: EdgeV| #[trigger] ge.contains(e) <==> exists|i: int|
        0 <= i < ds.len() && e == plain_edge(t, wi_id(ds[i]), "HAS_WORK"@) by {
        if ge.contains(e) {
            let k = choose|k: int| 0 <= k < ge.len() && ge[k] == e;
            lemma_wi_row_of(s, rows, k);
            let i = choose|i: int| 0 <= i < ds.len() && rows[k] == wi_row(g, t, ds[i]);
            reveal(wi_row);
            assert(rows[k][0] == t && rows[k][1] == wi_id(ds[i]));
        }
        if exists|i: int| 0 <= i < ds.len() && e == plain_edge(t, wi_id(ds[i]), "HAS_WORK"@) {
            let i = choose|i: int| 0 <= i < ds.len() && e == plain_edge(t, wi_id(ds[i]), "HAS_WORK"@);
            lemma_wi_row_at(s, rows, i);
            let k = choose|k: int| 0 <= k < rows.len() && rows[k] == wi_row(g, t, ds[i]);
            reveal(wi_row);
            assert(rows[k][0] == t && rows[k][1] == wi_id(ds[i]));
            assert(ge[k] == e);
        }
    }
}

/// The rows of the read of a task's signals: the task's key, the signal's
/// key and its properties, for each `HAS_SIGNAL` relation of the task.
pub open spec fn signal_rows(g: GraphState, t: Seq<char>) -> Set<Seq<Seq<char>>> {
    Set::new(
        |row: Seq<Seq<char>>|
            exists|w: Seq<char>|
                #[trigger] related(g, "HAS_SIGNAL"@, "Task"@, t, "Signal"@, w) && row == seq![t, w] + cells_of(
                    g,
                    "Signal"@,
                    w,
                    signal_keys(),
                ),
    )
}

/// The row read for decision `d`'s signal.
#[verifier::opaque]
pub open spec fn sig_row(g: GraphState, t: Seq<char>, d: GraphDecision) -> Seq<Seq<char>> {
    seq![t, sig_id(d)] + cells_of(g, "Signal"@, sig_id(d), signal_keys())
}

#[verifier::spinoff_prover]
proof fn lemma_sig_row_of(s: TaskGraphSnapshot, rows: Seq<Seq<Seq<char>>>, k: int)
    requires
        rows.to_set() == signal_rows(projected(s), s.task_id@),
        0 <= k < rows.len(),
    ensures
        exists|i: int| 0 <= i < s.decisions@.len() && rows[k] == sig_row(projected(s), s.task_id@, s.decisions@[i]),
{
    let g = projected(s);
    let ds = s.decisions@;
    let t = s.task_id@;
    lemma_projected_relations(s);
    lemma_relation_kinds();
    reveal(sig_row);
    assert(rows.to_set().contains(rows[k]));
    let w = choose|w: Seq<char>|
        #[trigger] related(g, "HAS_SIGNAL"@, "Task"@, t, "Signal"@, w) && rows[k] == seq![t, w] + cells_of(
            g,
            "Signal"@,
            w,
            signal_keys(),
        );
    let e = ("HAS_SIGNAL"@, ("Task"@, t), ("Signal"@, w));
    assert(g.edges.contains(e));
    let i = choose|i: int| 0 <= i < ds.len() && decision_relation(ds[i], t, e);
    assert(w == sig_id(ds[i]));
    assert(rows[k] == sig_row(g, t, ds[i]));
}

#[verifier::spinoff_prover]
proof fn lemma_sig_row_at(s: TaskGraphSnapshot, rows: Seq<Seq<Seq<char>>>, i: int)
    requires
        keys_distinct(spec_provenance_nodes(s)),
        rows.to_set() == signal_rows(projected(s), s.task_id@),
        0 <= i < s.decisions@.len(),
    ensures
        exists|k: int| 0 <= k < rows.len() && rows[k] == sig_row(projected(s), s.task_id@, s.decisions@[i]),
        row_node(sig_row(projected(s), s.task_id@, s.decisions@[i]), 1, 2, "Signal"@, signal_keys())
            == sig_node_v(s.decisions@[i], s.task_id@),
{
    let g = projected(s);
    let ds = s.decisions@;
    let t = s.task_id@;
    let d = ds[i];
    lemma_projected_relations(s);
    reveal(sig_row);
    let w = sig_id(d);
    let row = sig_row(g, t, d);
    let e = ("HAS_SIGNAL"@, ("Task"@, t), ("Signal"@, w));
    assert(decision_relation(d, t, e));
    assert(related(g, "HAS_SIGNAL"@, "Task"@, t, "Signal"@, w));
    assert(signal_rows(g, t).contains(row));
    assert(rows.to_set().contains(row));
    lemma_sig_node_read(s, i);
}

#[verifier::spinoff_prover]
proof fn lemma_sig_node_read(s: TaskGraphSnapshot, i: int)
    requires
        keys_distinct(spec_provenance_nodes(s)),
        0 <= i < s.decisions@.len(),
    ensures
        row_node(sig_row(projected(s), s.task_id@, s.decisions@[i]), 1, 2, "Signal"@, signal_keys())
            == sig_node_v(s.decisions@[i], s.task_id@),
{
    let g = projected(s);
    let t = s.task_id@;
    let d = s.decisions@[i];
    lemma_projected_graph(s);
    lemma_provenance_nodes_contain(s);
    reveal(sig_row);
    assert(decision_node(d, t, sig_node_v(d, t)));
    assert(provenance_node(s, sig_node_v(d, t)));
    assert(spec_provenance_nodes(s).contains(sig_node_v(d, t)));
    lemma_row_reads_node(g, seq![t, sig_id(d)], 1, "Signal"@, sig_id(d), signal_keys());
    lemma_read_signal(g.props, d, t);
}

#[verifier::spinoff_prover]
proof fn lemma_signal_group(s: TaskGraphSnapshot, rows: Seq<Seq<Seq<char>>>)
    requires
        keys_distinct(spec_provenance_nodes(s)),
        rows.to_set() == signal_rows(projected(s), s.task_id@),
    ensures
        forall|n: NodeV| #[trigger] group_nodes(rows, 1, 2, "Signal"@, signal_keys()).contains(n) <==> exists|i: int|
            0 <= i < s.decisions@.len() && n == sig_node_v(s.decisions@[i], s.task_id@),
        forall|e: EdgeV| #[trigger] group_edges(rows, "HAS_SIGNAL"@).contains(e) <==> exists|i: int|
            0 <= i < s.decisions@.len() && e == plain_edge(s.task_id@, sig_id(s.decisions@[i]), "HAS_SIGNAL"@),
{
    let g = projected(s);
    let ds = s.decisions@;
    let t = s.task_id@;
    let ks = signal_keys();
    let gn = group_nodes(rows, 1, 2, "Signal"@, ks);
    let ge = group_edges(rows, "HAS_SIGNAL"@);
    assert forall|n: NodeV| #[trigger] gn.contains(n) <==> exists|i: int| 0 <= i < ds.len() && n == sig_node_v(ds[i], t) by {
        if gn.contains(n) {
            let k = choose|k: int| 0 <= k < gn.len() && gn[k] == n;
            lemma_sig_row_of(s, rows, k);
            let i = choose|i: int| 0 <= i < ds.len() && rows[k] == sig_row(g, t, ds[i]);
            lemma_sig_node_read(s, i);
            assert(n == sig_node_v(ds[i], t));
        }
        if exists|i: int| 0 <= i < ds.len() && n == sig_node_v(ds[i], t) {
            let i = choose|i: int| 0 <= i < ds.len() && n == sig_node_v(ds[i], t);
            lemma_sig_row_at(s, rows, i);
            let k = choose|k: int| 0 <= k < rows.len() && rows[k] == sig_row(g, t, ds[i]);
            assert(gn[k] == n);
        }
    }
    assert forall|e: EdgeV| #[trigger] ge.contains(e) <==> exists|i: int|
        0 <= i < ds.len() && e == plain_edge(t, sig_id(ds[i]), "HAS_SIGNAL"@) by {
        if ge.contains(e) {
            let k = choose|k: int| 0 <= k < ge.len() && ge[k] == e;
            lemma_sig_row_of(s, rows, k);
            let i = choose|i: int| 0 <= i < ds.len() && rows[k] == sig_row(g, t, ds[i]);
            reveal(sig_row);
            assert(rows[k][0] == t && rows[k][1] == sig_id(ds[i]));
        }
        if exists|i: int| 0 <= i < ds.len() && e == plain_edge(t, sig_id(ds[i]), "HAS_SIGNAL"@) {
            let i = choose|i: int| 0 <= i < ds.len() && e == plain_edge(t, sig_id(ds[i]), "HAS_SIGNAL"@);
            lemma_sig_row_at(s, rows, i);
            let k = choose|k: int| 0 <= k < rows.len() && rows[k] == sig_row(g, t, ds[i]);
            reveal(sig_row);
            assert(rows[k][0] == t && rows[k][1] == sig_id(ds[i]));
            assert(ge[k] == e);
        }
    }
}

/// The rows of the read of a task: its key and its properties, when the
/// task node is in the graph.
pub open spec fn task_rows(g: GraphState, t: Seq<char>) -> Set<Seq<Seq<char>>> {
    Set::new(|row: Seq<Seq<char>>| g.nodes.contains(("Task"@, t)) && row == task_row(g, t))
}

/// The row read for the task node `t`.
pub open spec fn task_row(g: GraphState, t: Seq<char>) -> Seq<Seq<char>> {
    seq![t] + cells_of(g, "Task"@, t, task_keys())
}

#[verifier::spinoff_prover]
proof fn lemma_task_group(s: TaskGraphSnapshot, rows: Seq<Seq<Seq<char>>>)
    requires
        keys_distinct(spec_provenance_nodes(s)),
        rows.to_set() == task_rows(projected(s), s.task_id@),
    ensures
        forall|n: NodeV| #[trigger] group_nodes(rows, 0, 1, "Task"@, task_keys()).contains(n) <==> n == task_node_v(s),
{
    let g = projected(s);
    let t = s.task_id@;
    let gn = group_nodes(rows, 0, 1, "Task"@, task_keys());
    lemma_projected_graph(s);
    lemma_provenance_nodes_contain(s);
    assert(provenance_node(s, task_node_v(s)));
    assert(spec_provenance_nodes(s).contains(task_node_v(s)));
    lemma_row_reads_node(g, seq![t], 0, "Task"@, t, task_keys());
    lemma_read_task(g.props, s);
    assert(row_node(task_row(g, t), 0, 1, "Task"@, task_keys()) == task_node_v(s));
    assert forall|n: NodeV| #[trigger] gn.contains(n) <==> n == task_node_v(s) by {
        if gn.contains(n) {
            let k = choose|k: int| 0 <= k < gn.len() && gn[k] == n;
            assert(rows.to_set().contains(rows[k]));
            assert(rows[k] == task_row(g, t));
        }
        if n == task_node_v(s) {
            assert(task_rows(g, t).contains(task_row(g, t)));
            assert(rows.to_set().contains(task_row(g, t)));
            let k = choose|k: int| 0 <= k < rows.len() && rows[k] == task_row(g, t);
            assert(gn[k] == n);
        }
    }
}

/// The planner agent node read back from the projected graph.
#[verifier::spinoff_prover]
proof fn lemma_agent_node_read(s: TaskGraphSnapshot, i: int)
    requires
        keys_distinct(spec_provenance_nodes(s)),
        0 <= i < s.decisions@.len(),
    ensures
        read_node(projected(s).props, "Agent"@, "agent_planner"@, agent_keys()) == agent_node_v(),
{
    lemma_projected_graph(s);
    lemma_provenance_nodes_contain(s);
    assert(provenance_node(s, agent_node_v()));
    assert(spec_provenance_nodes(s).contains(agent_node_v()));
    lemma_read_agent(projected(s).props);
}

/// The rows of the read of the agents assigned to a task's work items: the
/// work item's key, the agent's key and its properties.
pub open spec fn assignment_rows(g: GraphState, t: Seq<char>) -> Set<Seq<Seq<char>>> {
    Set::new(
        |row: Seq<Seq<char>>|
            exists|x: Seq<char>, a: Seq<char>|
                #[trigger] related(g, "HAS_WORK"@, "Task"@, t, "WorkItem"@, x) && #[trigger] related(g, "ASSIGNED_TO"@, "WorkItem"@, x, "Agent"@, a)
                    && row == seq![x, a] + cells_of(g, "Agent"@, a, agent_keys()),
    )
}

/// The row read for the planner agent through decision `d`.
#[verifier::opaque]
pub open spec fn asg_row(g: GraphState, d: GraphDecision) -> Seq<Seq<char>> {
    seq![wi_id(d), "agent_planner"@] + cells_of(g, "Agent"@, "agent_planner"@, agent_keys())
}

#[verifier::spinoff_prover]
proof fn lemma_asg_row_of(s: TaskGraphSnapshot, rows: Seq<Seq<Seq<char>>>, k: int)
    requires
        rows.to_set() == assignment_rows(projected(s), s.task_id@),
        0 <= k < rows.len(),
    ensures
        exists|i: int| 0 <= i < s.decisions@.len() && rows[k] == asg_row(projected(s), s.decisions@[i]),
{
    let g = projected(s);
    let ds = s.decisions@;
    let t = s.task_id@;
    lemma_projected_relations(s);
    lemma_relation_kinds();
    reveal(asg_row);
    assert(rows.to_set().contains(rows[k]));
    let (x, a) = choose|x: Seq<char>, a: Seq<char>|
        #[trigger] related(g, "HAS_WORK"@, "Task"@, t, "WorkItem"@, x) && #[trigger] related(g, "ASSIGNED_TO"@, "WorkItem"@, x, "Agent"@, a)
            && rows[k] == seq![x, a] + cells_of(g, "Agent"@, a, agent_keys());
    let e = ("ASSIGNED_TO"@, ("WorkItem"@, x), ("Agent"@, a));
    assert(g.edges.contains(e));
    let i = choose|i: int| 0 <= i < ds.len() && decision_relation(ds[i], t, e);
    assert(x == wi_id(ds[i]) && a == "agent_planner"@);
    assert(rows[k] == asg_row(g, ds[i]));
}

#[verifier::spinoff_prover]
proof fn lemma_asg_row_at(s: TaskGraphSnapshot, rows: Seq<Seq<Seq<char>>>, i: int)
    requires
        keys_distinct(spec_provenance_nodes(s)),
        rows.to_set() == assignment_rows(projected(s), s.task_id@),
        0 <= i < s.decisions@.len(),
    ensures
        exists|k: int| 0 <= k < rows.len() && rows[k] == asg_row(projected(s), s.decisions@[i]),
        row_node(asg_row(projected(s), s.decisions@[i]), 1, 2, "Agent"@, agent_keys()) == agent_node_v(),
{
    let g = projected(s);
    let ds = s.decisions@;
    let t = s.task_id@;
    let d = ds[i];
    lemma_projected_relations(s);
    reveal(asg_row);
    let row = asg_row(g, d);
    let e1 = ("HAS_WORK"@, ("Task"@, t), ("WorkItem"@, wi_id(d)));
    let e2 = ("ASSIGNED_TO"@, ("WorkItem"@, wi_id(d)), ("Agent"@, "agent_planner"@));
    assert(decision_relation(d, t, e1));
    assert(decision_relation(d, t, e2));
    assert(g.edges.contains(e1));
    assert(g.edges.contains(e2));
    assert(related(g, "HAS_WORK"@, "Task"@, t, "WorkItem"@, wi_id(d)));
    assert(related(g, "ASSIGNED_TO"@, "WorkItem"@, wi_id(d), "Agent"@, "agent_planner"@));
    assert(assignment_rows(g, t).contains(row));
    assert(rows.to_set().contains(row));
    lemma_agent_node_read(s, i);
    lemma_row_reads_node(g, seq![wi_id(d), "agent_planner"@], 1, "Agent"@, "agent_planner"@, agent_keys());
}

#[verifier::spinoff_prover]
proof fn lemma_asg_group(s: TaskGraphSnapshot, rows: Seq<Seq<Seq<char>>>)
    requires
        keys_distinct(spec_provenance_nodes(s)),
        rows.to_set() == assignment_rows(projected(s), s.task_id@),
    ensures
        forall|n: NodeV| #[trigger] group_nodes(rows, 1, 2, "Agent"@, agent_keys()).contains(n) <==> s.decisions@.len() > 0
            && n == agent_node_v(),
        forall|e: EdgeV| #[trigger] group_edges(rows, "ASSIGNED_TO"@).contains(e) <==> exists|i: int|
            0 <= i < s.decisions@.len() && e == plain_edge(wi_id(s.decisions@[i]), "agent_planner"@, "ASSIGNED_TO"@),
{
    let g = projected(s);
    let ds = s.decisions@;
    let t = s.task_id@;
    let gn = group_nodes(rows, 1, 2, "Agent"@, agent_keys());
    let ge = group_edges(rows, "ASSIGNED_TO"@);
    assert forall|n: NodeV| #[trigger] gn.contains(n) <==> ds.len() > 0 && n == agent_node_v() by {
        if gn.contains(n) {
            let k = choose|k: int| 0 <= k < gn.len() && gn[k] == n;
            lemma_asg_row_of(s, rows, k);
            let i = choose|i: int| 0 <= i < ds.len() && rows[k] == asg_row(g, ds[i]);
            lemma_asg_row_at(s, rows, i);
        }
        if ds.len() > 0 && n == agent_node_v() {
            lemma_asg_row_at(s, rows, 0);
            let k = choose|k: int| 0 <= k < rows.len() && rows[k] == asg_row(g, ds[0]);
            assert(gn[k] == n);
        }
    }
    assert forall|e: EdgeV| #[trigger] ge.contains(e) <==> exists|i: int| 0 <= i < ds.len() && e == plain_edge(wi_id(ds[i]), "agent_planner"@, "ASSIGNED_TO"@) by {
        if ge.contains(e) {
            let k = choose|k: int| 0 <= k < ge.len() && ge[k] == e;
            lemma_asg_row_of(s, rows, k);
            let i = choose|i: int| 0 <= i < ds.len() && rows[k] == asg_row(g, ds[i]);
            reveal(asg_row);
            assert(e == plain_edge(wi_id(ds[i]), "agent_planner"@, "ASSIGNED_TO"@));
        }
        if exists|i: int| 0 <= i < ds.len() && e == plain_edge(wi_id(ds[i]), "agent_planner"@, "ASSIGNED_TO"@) {
            let i = choose|i: int| 0 <= i < ds.len() && e == plain_edge(wi_id(ds[i]), "agent_planner"@, "ASSIGNED_TO"@);
            lemma_asg_row_at(s, rows, i);
            let k = choose|k: int| 0 <= k < rows.len() && rows[k] == asg_row(g, ds[i]);
            reveal(asg_row);
            assert(ge[k] == e);
        }
    }
}

/// The rows of the read of the agents that emitted a task's signals: the
/// agent's key, the signal's key and the agent's properties.
pub open spec fn emission_rows(g: GraphState, t: Seq<char>) -> Set<Seq<Seq<char>>> {
    Set::new(
        |row: Seq<Seq<char>>|
            exists|x: Seq<char>, a: Seq<char>|
                #[trigger] related(g, "HAS_SIGNAL"@, "Task"@, t, "Signal"@, x) && #[trigger] related(g, "EMITS"@, "Agent"@, a, "Signal"@, x)
                    && row == seq![a, x] + cells_of(g, "Agent"@, a, agent_keys()),
    )
}

/// The row read for the planner agent through decision `d`.
#[verifier::opaque]
pub open spec fn emi_row(g: GraphState, d: GraphDecision) -> Seq<Seq<char>> {
    seq!["agent_planner"@, sig_id(d)] + cells_of(g, "Agent"@, "agent_planner"@, agent_keys())
}

#[verifier::spinoff_prover]
proof fn lemma_emi_row_of(s: TaskGraphSnapshot, rows: Seq<Seq<Seq<char>>>, k: int)
    requires
        rows.to_set() == emission_rows(projected(s), s.task_id@),
        0 <= k < rows.len(),
    ensures
        exists|i: int| 0 <= i < s.decisions@.len() && rows[k] == emi_row(projected(s), s.decisions@[i]),
{
    let g = projected(s);
    let ds = s.decisions@;
    let t = s.task_id@;
    lemma_projected_relations(s);
    lemma_relation_kinds();
    reveal(emi_row);
    assert(rows.to_set().contains(rows[k]));
    let (x, a) = choose|x: Seq<char>, a: Seq<char>|
        #[trigger] related(g, "HAS_SIGNAL"@, "Task"@, t, "Signal"@, x) && #[trigger] related(g, "EMITS"@, "Agent"@, a, "Signal"@, x)
            && rows[k] == seq![a, x] + cells_of(g, "Agent"@, a, agent_keys());
    let e = ("EMITS"@, ("Agent"@, a), ("Signal"@, x));
    assert(g.edges.contains(e));
    let i = choose|i: int| 0 <= i < ds.len() && decision_relation(ds[i], t, e);
    assert(x == sig_id(ds[i]) && a == "agent_planner"@);
    assert(rows[k] == emi_row(g, ds[i]));
}

#[verifier::spinoff_prover]
proof fn lemma_emi_row_at(s: TaskGraphSnapshot, rows: Seq<Seq<Seq<char>>>, i: int)
    requires
        keys_distinct(spec_provenance_nodes(s)),
        rows.to_set() == emission_rows(projected(s), s.task_id@),
        0 <= i < s.decisions@.len(),
    ensures
        exists|k: int| 0 <= k < rows.len() && rows[k] == emi_row(projected(s), s.decisions@[i]),
        row_node(emi_row(projected(s), s.decisions@[i]), 0, 2, "Agent"@, agent_keys()) == agent_node_v(),
{
    let g = projected(s);
    let ds = s.decisions@;
    let t = s.task_id@;
    let d = ds[i];
    lemma_projected_relations(s);
    reveal(emi_row);
    let row = emi_row(g, d);
    let e1 = ("HAS_SIGNAL"@, ("Task"@, t), ("Signal"@, sig_id(d)));
    let e2 = ("EMITS"@, ("Agent"@, "agent_planner"@), ("Signal"@, sig_id(d)));
    assert(decision_relation(d, t, e1));
    assert(decision_relation(d, t, e2));
    assert(g.edges.contains(e1));
    assert(g.edges.contains(e2));
    assert(related(g, "HAS_SIGNAL"@, "Task"@, t, "Signal"@, sig_id(d)));
    assert(related(g, "EMITS"@, "Agent"@, "agent_planner"@, "Signal"@, sig_id(d)));
    assert(emission_rows(g, t).contains(row));
    assert(rows.to_set().contains(row));
    lemma_agent_node_read(s, i);
    lemma_row_reads_node(g, seq!["agent_planner"@, sig_id(d)], 0, "Agent"@, "agent_planner"@, agent_keys());
}

#[verifier::spinoff_prover]
proof fn lemma_emi_group(s: TaskGraphSnapshot, rows: Seq<Seq<Seq<char>>>)
    requires
        keys_distinct(spec_provenance_nodes(s)),
        rows.to_set() == emission_rows(projected(s), s.task_id@),
    ensures
        forall|n: NodeV| #[trigger] group_nodes(rows, 0, 2, "Agent"@, agent_keys()).contains(n) <==> s.decisions@.len() > 0
            && n == agent_node_v(),
        forall|e: EdgeV| #[trigger] group_edges(rows, "EMITS"@).contains(e) <==> exists|i: int|
            0 <= i < s.decisions@.len() && e == plain_edge("agent_planner"@, sig_id(s.decisions@[i]), "EMITS"@),
{
    let g = projected(s);
    let ds = s.decisions@;
    let t = s.task_id@;
    let gn = group_nodes(rows, 0, 2, "Agent"@, agent_keys());
    let ge = group_edges(rows, "EMITS"@);
    assert forall|n: NodeV| #[trigger] gn.contains(n) <==> ds.len() > 0 && n == agent_node_v() by {
        if gn.contains(n) {
            let k = choose|k: int| 0 <= k < gn.len() && gn[k] == n;
            lemma_emi_row_of(s, rows, k);
            let i = choose|i: int| 0 <= i < ds.len() && rows[k] == emi_row(g, ds[i]);
            lemma_emi_row_at(s, rows, i);
        }
        if ds.len() > 0 && n == agent_node_v() {
            lemma_emi_row_at(s, rows, 0);
            let k = choose|k: int| 0 <= k < rows.len() && rows[k] == emi_row(g, ds[0]);
            assert(gn[k] == n);
        }
    }
    assert forall|e: EdgeV| #[trigger] ge.contains(e) <==> exists|i: int| 0 <= i < ds.len() && e == plain_edge("agent_planner"@, sig_id(ds[i]), "EMITS"@) by {
        if ge.contains(e) {
            let k = choose|k: int| 0 <= k < ge.len() && ge[k] == e;
            lemma_emi_row_of(s, rows, k);
            let i = choose|i: int| 0 <= i < ds.len() && rows[k] == emi_row(g, ds[i]);
            reveal(emi_row);
            assert(e == plain_edge("agent_planner"@, sig_id(ds[i]), "EMITS"@));
        }
        if exists|i: int| 0 <= i < ds.len() && e == plain_edge("agent_planner"@, sig_id(ds[i]), "EMITS"@) {
            let i = choose|i: int| 0 <= i < ds.len() && e == plain_edge("agent_planner"@, sig_id(ds[i]), "EMITS"@);
            lemma_emi_row_at(s, rows, i);
            let k = choose|k: int| 0 <= k < rows.len() && rows[k] == emi_row(g, ds[i]);
            reveal(emi_row);
            assert(ge[k] == e);
        }
    }
}

/// An evidence artifact node read back from the projected graph.
#[verifier::spinoff_prover]
proof fn lemma_art_node_read(s: TaskGraphSnapshot, i: int, j: int)
    requires
        keys_distinct(spec_provenance_nodes(s)),
        0 <= i < s.decisions@.len(),
        0 <= j < s.decisions@[i].evidence@.len(),
    ensures
        read_node(projected(s).props, "Artifact"@, art_id(s.decisions@[i].evidence@[j]), artifact_keys()) == art_node_v(
            s.decisions@[i].evidence@[j],
        ),
{
    let d = s.decisions@[i];
    let ev = d.evidence@[j];
    lemma_projected_graph(s);
    lemma_provenance_nodes_contain(s);
    assert(decision_node(d, s.task_id@, art_node_v(ev)));
    assert(provenance_node(s, art_node_v(ev)));
    assert(spec_provenance_nodes(s).contains(art_node_v(ev)));
    lemma_read_artifact(projected(s).props, ev);
}

/// The rows of the read of the artifacts a task's work items require: the
/// work item's key, the artifact's key and its properties.
pub open spec fn requirement_rows(g: GraphState, t: Seq<char>) -> Set<Seq<Seq<char>>> {
    Set::new(
        |row: Seq<Seq<char>>|
            exists|x: Seq<char>, a: Seq<char>|
                #[trigger] related(g, "HAS_WORK"@, "Task"@, t, "WorkItem"@, x) && #[trigger] related(
                    g,
                    "REQUIRES"@,
                    "WorkItem"@,
                    x,
                    "Artifact"@,
                    a,
                ) && row == seq![x, a] + cells_of(g, "Artifact"@, a, artifact_keys()),
    )
}

/// The row read for evidence `e` of decision `d`.
#[verifier::opaque]
pub open spec fn rq_row(g: GraphState, d: GraphDecision, e: GraphEvidence) -> Seq<Seq<char>> {
    seq![wi_id(d), art_id(e)] + cells_of(g, "Artifact"@, art_id(e), artifact_keys())
}

#[verifier::spinoff_prover]
proof fn lemma_rq_row_of(s: TaskGraphSnapshot, rows: Seq<Seq<Seq<char>>>, k: int)
    requires
        rows.to_set() == requirement_rows(projected(s), s.task_id@),
        0 <= k < rows.len(),
    ensures
        exists|i: int, j: int|
            0 <= i < s.decisions@.len() && 0 <= j < s.decisions@[i].evidence@.len() && rows[k] == rq_row(
                projected(s),
                s.decisions@[i],
                s.decisions@[i].evidence@[j],
            ),
{
    let g = projected(s);
    let ds = s.decisions@;
    let t = s.task_id@;
    lemma_projected_relations(s);
    lemma_relation_kinds();
    reveal(rq_row);
    assert(rows.to_set().contains(rows[k]));
    let (x, a) = choose|x: Seq<char>, a: Seq<char>|
        #[trigger] related(g, "HAS_WORK"@, "Task"@, t, "WorkItem"@, x) && #[trigger] related(
            g,
            "REQUIRES"@,
            "WorkItem"@,
            x,
            "Artifact"@,
            a,
        ) && rows[k] == seq![x, a] + cells_of(g, "Artifact"@, a, artifact_keys());
    let e = ("REQUIRES"@, ("WorkItem"@, x), ("Artifact"@, a));
    assert(g.edges.contains(e));
    let i = choose|i: int| 0 <= i < ds.len() && decision_relation(ds[i], t, e);
    let d = ds[i];
    let j = choose|j: int|
        0 <= j < d.evidence@.len() && (e == ("REQUIRES"@, node_key(wi_ref(d)), node_key(art_ref(d.evidence@[j]))) || e
            == ("SUPPORTED_BY"@, node_key(sig_ref(d)), node_key(art_ref(d.evidence@[j]))));
    assert(x == wi_id(d) && a == art_id(d.evidence@[j]));
    assert(rows[k] == rq_row(g, d, d.evidence@[j]));
}

#[verifier::spinoff_prover]
proof fn lemma_rq_row_at(s: TaskGraphSnapshot, rows: Seq<Seq<Seq<char>>>, i: int, j: int)
    requires
        keys_distinct(spec_provenance_nodes(s)),
        rows.to_set() == requirement_rows(projected(s), s.task_id@),
        0 <= i < s.decisions@.len(),
        0 <= j < s.decisions@[i].evidence@.len(),
    ensures
        exists|k: int| 0 <= k < rows.len() && rows[k] == rq_row(projected(s), s.decisions@[i], s.decisions@[i].evidence@[j]),
        row_node(rq_row(projected(s), s.decisions@[i], s.decisions@[i].evidence@[j]), 1, 2, "Artifact"@, artifact_keys())
            == art_node_v(s.decisions@[i].evidence@[j]),
{
    let g = projected(s);
    let ds = s.decisions@;
    let t = s.task_id@;
    let d = ds[i];
    let ev = d.evidence@[j];
    lemma_projected_relations(s);
    reveal(rq_row);
    let row = rq_row(g, d, ev);
    let e1 = ("HAS_WORK"@, ("Task"@, t), ("WorkItem"@, wi_id(d)));
    let e2 = ("REQUIRES"@, ("WorkItem"@, wi_id(d)), ("Artifact"@, art_id(ev)));
    assert(decision_relation(d, t, e1));
    assert(0 <= j < d.evidence@.len() && (e2 == ("REQUIRES"@, node_key(wi_ref(d)), node_key(art_ref(d.evidence@[j])))
        || e2 == ("SUPPORTED_BY"@, node_key(sig_ref(d)), node_key(art_ref(d.evidence@[j])))));
    assert(decision_relation(d, t, e2));
    assert(g.edges.contains(e1));
    assert(g.edges.contains(e2));
    assert(related(g, "HAS_WORK"@, "Task"@, t, "WorkItem"@, wi_id(d)));
    assert(related(g, "REQUIRES"@, "WorkItem"@, wi_id(d), "Artifact"@, art_id(ev)));
    assert(requirement_rows(g, t).contains(row));
    assert(rows.to_set().contains(row));
    lemma_art_node_read(s, i, j);
    lemma_row_reads_node(g, seq![wi_id(d), art_id(ev)], 1, "Artifact"@, art_id(ev), artifact_keys());
}

#[verifier::spinoff_prover]
proof fn lemma_rq_group(s: TaskGraphSnapshot, rows: Seq<Seq<Seq<char>>>)
    requires
        keys_distinct(spec_provenance_nodes(s)),
        rows.to_set() == requirement_rows(projected(s), s.task_id@),
    ensures
        forall|n: NodeV| #[trigger] group_nodes(rows, 1, 2, "Artifact"@, artifact_keys()).contains(n) <==> exists|i: int, j: int|
            0 <= i < s.decisions@.len() && 0 <= j < s.decisions@[i].evidence@.len() && n == art_node_v(
                s.decisions@[i].evidence@[j],
            ),
        forall|e: EdgeV| #[trigger] group_edges(rows, "REQUIRES"@).contains(e) <==> exists|i: int, j: int|
            0 <= i < s.decisions@.len() && 0 <= j < s.decisions@[i].evidence@.len() && e == plain_edge(
                wi_id(s.decisions@[i]),
                art_id(s.decisions@[i].evidence@[j]),
                "REQUIRES"@,
            ),
{
    let g = projected(s);
    let ds = s.decisions@;
    let t = s.task_id@;
    let gn = group_nodes(rows, 1, 2, "Artifact"@, artifact_keys());
    let ge = group_edges(rows, "REQUIRES"@);
    assert forall|n: NodeV| #[trigger] gn.contains(n) <==> exists|i: int, j: int|
        0 <= i < ds.len() && 0 <= j < ds[i].evidence@.len() && n == art_node_v(ds[i].evidence@[j]) by {
        if gn.contains(n) {
            let k = choose|k: int| 0 <= k < gn.len() && gn[k] == n;
            lemma_rq_row_of(s, rows, k);
            let (i, j) = choose|i: int, j: int|
                0 <= i < ds.len() && 0 <= j < ds[i].evidence@.len() && rows[k] == rq_row(g, ds[i], ds[i].evidence@[j]);
            lemma_rq_row_at(s, rows, i, j);
        }
        if exists|i: int, j: int| 0 <= i < ds.len() && 0 <= j < ds[i].evidence@.len() && n == art_node_v(ds[i].evidence@[j]) {
            let (i, j) = choose|i: int, j: int| 0 <= i < ds.len() && 0 <= j < ds[i].evidence@.len() && n == art_node_v(ds[i].evidence@[j]);
            lemma_rq_row_at(s, rows, i, j);
            let k = choose|k: int| 0 <= k < rows.len() && rows[k] == rq_row(g, ds[i], ds[i].evidence@[j]);
            assert(gn[k] == n);
        }
    }
    assert forall|e: EdgeV| #[trigger] ge.contains(e) <==> exists|i: int, j: int|
        0 <= i < ds.len() && 0 <= j < ds[i].evidence@.len() && e == plain_edge(wi_id(ds[i]), art_id(ds[i].evidence@[j]), "REQUIRES"@) by {
        if ge.contains(e) {
            let k = choose|k: int| 0 <= k < ge.len() && ge[k] == e;
            lemma_rq_row_of(s, rows, k);
            let (i, j) = choose|i: int, j: int|
                0 <= i < ds.len() && 0 <= j < ds[i].evidence@.len() && rows[k] == rq_row(g, ds[i], ds[i].evidence@[j]);
            reveal(rq_row);
            assert(e == plain_edge(wi_id(ds[i]), art_id(ds[i].evidence@[j]), "REQUIRES"@));
        }
        if exists|i: int, j: int|
            0 <= i < ds.len() && 0 <= j < ds[i].evidence@.len() && e == plain_edge(wi_id(ds[i]), art_id(ds[i].evidence@[j]), "REQUIRES"@) {
            let (i, j) = choose|i: int, j: int|
                0 <= i < ds.len() && 0 <= j < ds[i].evidence@.len() && e == plain_edge(wi_id(ds[i]), art_id(ds[i].evidence@[j]), "REQUIRES"@);
            lemma_rq_row_at(s, rows, i, j);
            let k = choose|k: int| 0 <= k < rows.len() && rows[k] == rq_row(g, ds[i], ds[i].evidence@[j]);
            reveal(rq_row);
            assert(ge[k] == e);
        }
    }
}

/// The rows of the read of the artifacts that support a task's signals: the
/// signal's key, the artifact's key and its properties.
pub open spec fn support_rows(g: GraphState, t: Seq<char>) -> Set<Seq<Seq<char>>> {
    Set::new(
        |row: Seq<Seq<char>>|
            exists|x: Seq<char>, a: Seq<char>|
                #[trigger] related(g, "HAS_SIGNAL"@, "Task"@, t, "Signal"@, x) && #[trigger] related(
                    g,
                    "SUPPORTED_BY"@,
                    "Signal"@,
                    x,
                    "Artifact"@,
                    a,
                ) && row == seq![x, a] + cells_of(g, "Artifact"@, a, artifact_keys()),
    )
}

/// The row read for evidence `e` of decision `d`.
#[verifier::opaque]
pub open spec fn sp_row(g: GraphState, d: GraphDecision, e: GraphEvidence) -> Seq<Seq<char>> {
    seq![sig_id(d), art_id(e)] + cells_of(g, "Artifact"@, art_id(e), artifact_keys())
}

#[verifier::spinoff_prover]
proof fn lemma_sp_row_of(s: TaskGraphSnapshot, rows: Seq<Seq<Seq<char>>>, k: int)
    requires
        rows.to_set() == support_rows(projected(s), s.task_id@),
        0 <= k < rows.len(),
    ensures
        exists|i: int, j: int|
            0 <= i < s.decisions@.len() && 0 <= j < s.decisions@[i].evidence@.len() && rows[k] == sp_row(
                projected(s),
                s.decisions@[i],
                s.decisions@[i].evidence@[j],
            ),
{
    let g = projected(s);
    let ds = s.decisions@;
    let t = s.task_id@;
    lemma_projected_relations(s);
    lemma_relation_kinds();
    reveal(sp_row);
    assert(rows.to_set().contains(rows[k]));
    let (x, a) = choose|x: Seq<char>, a: Seq<char>|
        #[trigger] related(g, "HAS_SIGNAL"@, "Task"@, t, "Signal"@, x) && #[trigger] related(
            g,
            "SUPPORTED_BY"@,
            "Signal"@,
            x,
            "Artifact"@,
            a,
        ) && rows[k] == seq![x, a] + cells_of(g, "Artifact"@, a, artifact_keys());
    let e = ("SUPPORTED_BY"@, ("Signal"@, x), ("Artifact"@, a));
    assert(g.edges.contains(e));
    let i = choose|i: int| 0 <= i < ds.len() && decision_relation(ds[i], t, e);
    let d = ds[i];
    let j = choose|j: int|
        0 <= j < d.evidence@.len() && (e == ("REQUIRES"@, node_key(wi_ref(d)), node_key(art_ref(d.evidence@[j]))) || e
            == ("SUPPORTED_BY"@, node_key(sig_ref(d)), node_key(art_ref(d.evidence@[j]))));
    assert(x == sig_id(d) && a == art_id(d.evidence@[j]));
    assert(rows[k] == sp_row(g, d, d.evidence@[j]));
}

#[verifier::spinoff_prover]
proof fn lemma_sp_row_at(s: TaskGraphSnapshot, rows: Seq<Seq<Seq<char>>>, i: int, j: int)
    requires
        keys_distinct(spec_provenance_nodes(s)),
        rows.to_set() == support_rows(projected(s), s.task_id@),
        0 <= i < s.decisions@.len(),
        0 <= j < s.decisions@[i].evidence@.len(),
    ensures
        exists|k: int| 0 <= k < rows.len() && rows[k] == sp_row(projected(s), s.decisions@[i], s.decisions@[i].evidence@[j]),
        row_node(sp_row(projected(s), s.decisions@[i], s.decisions@[i].evidence@[j]), 1, 2, "Artifact"@, artifact_keys())
            == art_node_v(s.decisions@[i].evidence@[j]),
{
    let g = projected(s);
    let ds = s.decisions@;
    let t = s.task_id@;
    let d = ds[i];
    let ev = d.evidence@[j];
    lemma_projected_relations(s);
    reveal(sp_row);
    let row = sp_row(g, d, ev);
    let e1 = ("HAS_SIGNAL"@, ("Task"@, t), ("Signal"@, sig_id(d)));
    let e2 = ("SUPPORTED_BY"@, ("Signal"@, sig_id(d)), ("Artifact"@, art_id(ev)));
    assert(decision_relation(d, t, e1));
    assert(0 <= j < d.evidence@.len() && (e2 == ("REQUIRES"@, node_key(wi_ref(d)), node_key(art_ref(d.evidence@[j])))
        || e2 == ("SUPPORTED_BY"@, node_key(sig_ref(d)), node_key(art_ref(d.evidence@[j])))));
    assert(decision_relation(d, t, e2));
    assert(g.edges.contains(e1));
    assert(g.edges.contains(e2));
    assert(related(g, "HAS_SIGNAL"@, "Task"@, t, "Signal"@, sig_id(d)));
    assert(related(g, "SUPPORTED_BY"@, "Signal"@, sig_id(d), "Artifact"@, art_id(ev)));
    assert(support_rows(g, t).contains(row));
    assert(rows.to_set().contains(row));
    lemma_art_node_read(s, i, j);
    lemma_row_reads_node(g, seq![sig_id(d), art_id(ev)], 1, "Artifact"@, art_id(ev), artifact_keys());
}

#[verifier::spinoff_prover]
proof fn lemma_sp_group(s: TaskGraphSnapshot, rows: Seq<Seq<Seq<char>>>)
    requires
        keys_distinct(spec_provenance_nodes(s)),
        rows.to_set() == support_rows(projected(s), s.task_id@),
    ensures
        forall|n: NodeV| #[trigger] group_nodes(rows, 1, 2, "Artifact"@, artifact_keys()).contains(n) <==> exists|i: int, j: int|
            0 <= i < s.decisions@.len() && 0 <= j < s.decisions@[i].evidence@.len() && n == art_node_v(
                s.decisions@[i].evidence@[j],
            ),
        forall|e: EdgeV| #[trigger] group_edges(rows, "SUPPORTED_BY"@).contains(e) <==> exists|i: int, j: int|
            0 <= i < s.decisions@.len() && 0 <= j < s.decisions@[i].evidence@.len() && e == plain_edge(
                sig_id(s.decisions@[i]),
                art_id(s.decisions@[i].evidence@[j]),
                "SUPPORTED_BY"@,
            ),
{
    let g = projected(s);
    let ds = s.decisions@;
    let t = s.task_id@;
    let gn = group_nodes(rows, 1, 2, "Artifact"@, artifact_keys());
    let ge = group_edges(rows, "SUPPORTED_BY"@);
    assert forall|n: NodeV| #[trigger] gn.contains(n) <==> exists|i: int, j: int|
        0 <= i < ds.len() && 0 <= j < ds[i].evidence@.len() && n == art_node_v(ds[i].evidence@[j]) by {
        if gn.contains(n) {
            let k = choose|k: int| 0 <= k < gn.len() && gn[k] == n;
            lemma_sp_row_of(s, rows, k);
            let (i, j) = choose|i: int, j: int|
                0 <= i < ds.len() && 0 <= j < ds[i].evidence@.len() && rows[k] == sp_row(g, ds[i], ds[i].evidence@[j]);
            lemma_sp_row_at(s, rows, i, j);
        }
        if exists|i: int, j: int| 0 <= i < ds.len() && 0 <= j < ds[i].evidence@.len() && n == art_node_v(ds[i].evidence@[j]) {
            let (i, j) = choose|i: int, j: int| 0 <= i < ds.len() && 0 <= j < ds[i].evidence@.len() && n == art_node_v(ds[i].evidence@[j]);
            lemma_sp_row_at(s, rows, i, j);
            let k = choose|k: int| 0 <= k < rows.len() && rows[k] == sp_row(g, ds[i], ds[i].evidence@[j]);
            assert(gn[k] == n);
        }
    }
    assert forall|e: EdgeV| #[trigger] ge.contains(e) <==> exists|i: int, j: int|
        0 <= i < ds.len() && 0 <= j < ds[i].evidence@.len() && e == plain_edge(sig_id(ds[i]), art_id(ds[i].evidence@[j]), "SUPPORTED_BY"@) by {
        if ge.contains(e) {
            let k = choose|k: int| 0 <= k < ge.len() && ge[k] == e;
            lemma_sp_row_of(s, rows, k);
            let (i, j) = choose|i: int, j: int|
                0 <= i < ds.len() && 0 <= j < ds[i].evidence@.len() && rows[k] == sp_row(g, ds[i], ds[i].evidence@[j]);
            reveal(sp_row);
            assert(e == plain_edge(sig_id(ds[i]), art_id(ds[i].evidence@[j]), "SUPPORTED_BY"@));
        }
        if exists|i: int, j: int|
            0 <= i < ds.len() && 0 <= j < ds[i].evidence@.len() && e == plain_edge(sig_id(ds[i]), art_id(ds[i].evidence@[j]), "SUPPORTED_BY"@) {
            let (i, j) = choose|i: int, j: int|
                0 <= i < ds.len() && 0 <= j < ds[i].evidence@.len() && e == plain_edge(sig_id(ds[i]), art_id(ds[i].evidence@[j]), "SUPPORTED_BY"@);
            lemma_sp_row_at(s, rows, i, j);
            let k = choose|k: int| 0 <= k < rows.len() && rows[k] == sp_row(g, ds[i], ds[i].evidence@[j]);
            reveal(sp_row);
            assert(ge[k] == e);
        }
    }
}

/// No two decisions of the snapshot share an id, and no two pieces of
/// evidence, of one decision or of two, share an id.
pub open spec fn snapshot_ids_distinct(s: TaskGraphSnapshot) -> bool {
    let ds = s.decisions@;
    &&& forall|i: int, k: int|
        0 <= i < k < ds.len() ==> #[trigger] ds[i].decision_id@ != #[trigger] ds[k].decision_id@
    &&& forall|i: int, j: int, k: int, l: int|
        0 <= i < ds.len() && 0 <= j < ds[i].evidence@.len() && 0 <= k < ds.len() && 0 <= l < ds[k].evidence@.len() && (i
            != k || j != l) ==> #[trigger] ds[i].evidence@[j].evidence_id@ != #[trigger] ds[k].evidence@[l].evidence_id@
}

proof fn lemma_prefix_injective(p: Seq<char>, a: Seq<char>, b: Seq<char>)
    ensures
        p + a == p + b ==> a == b,
{
    if p + a == p + b {
        assert((p + a).subrange(p.len() as int, (p + a).len() as int) =~= a);
        assert((p + b).subrange(p.len() as int, (p + b).len() as int) =~= b);
    }
}

/// No node of `a` shares a key and kind with a node of `b`.
pub open spec fn keys_apart(a: Seq<NodeV>, b: Seq<NodeV>) -> bool {
    forall|x: NodeV, y: NodeV| #[trigger] a.contains(x) && #[trigger] b.contains(y) ==> !(x.0 == y.0 && x.1 == y.1)
}

proof fn lemma_keys_distinct_concat(a: Seq<NodeV>, b: Seq<NodeV>)
    requires
        keys_distinct(a),
        keys_distinct(b),
        keys_apart(a, b),
    ensures
        keys_distinct(a + b),
{
    let c = a + b;
    assert forall|i: int, k: int| 0 <= i < k < c.len() implies !(#[trigger] c[i].0 == #[trigger] c[k].0 && c[i].1 == c[k].1) by {
        if k < a.len() {
            assert(c[i] == a[i] && c[k] == a[k]);
        } else if i >= a.len() {
            assert(c[i] == b[i - a.len()] && c[k] == b[k - a.len()]);
        } else {
            assert(c[i] == a[i] && c[k] == b[k - a.len()]);
            assert(a.contains(a[i]));
            assert(b.contains(b[k - a.len()]));
        }
    }
}

proof fn lemma_kind_names()
    ensures
        "Task"@ != "Agent"@,
        "Task"@ != "WorkItem"@,
        "Task"@ != "Signal"@,
        "Task"@ != "Artifact"@,
        "Agent"@ != "WorkItem"@,
        "Agent"@ != "Signal"@,
        "Agent"@ != "Artifact"@,
        "WorkItem"@ != "Signal"@,
        "WorkItem"@ != "Artifact"@,
        "Signal"@ != "Artifact"@,
{
    reveal_strlit("Task");
    reveal_strlit("Agent");
    reveal_strlit("WorkItem");
    reveal_strlit("Signal");
    reveal_strlit("Artifact");
    assert("Task"@.len() == 4 && "Agent"@.len() == 5 && "WorkItem"@.len() == 8 && "Signal"@.len() == 6
        && "Artifact"@.len() == 8);
    assert("WorkItem"@[0] != "Artifact"@[0]);
}

proof fn lemma_evidence_keys_distinct(s: TaskGraphSnapshot, i: int, n: int)
    requires
        snapshot_ids_distinct(s),
        0 <= i < s.decisions@.len(),
        0 <= n <= s.decisions@[i].evidence@.len(),
    ensures
        keys_distinct(evidence_nodes(s.decisions@[i].evidence@.take(n))),
    decreases n,
{
    let d = s.decisions@[i];
    let es = d.evidence@.take(n);
    if n > 0 {
        let front = es.drop_last();
        assert(front =~= d.evidence@.take(n - 1));
        lemma_evidence_keys_distinct(s, i, n - 1);
        lemma_evidence_relations(d, front);
        let last = seq![art_node_v(es.last())];
        assert(evidence_nodes(es) == evidence_nodes(front) + last);
        assert(keys_distinct(last));
        assert forall|x: NodeV, y: NodeV| #[trigger] evidence_nodes(front).contains(x) && #[trigger] last.contains(y) implies !(x.0
            == y.0 && x.1 == y.1) by {
            let j = choose|j: int| 0 <= j < front.len() && x == art_node_v(front[j]);
            assert(y == last[0]);
            assert(front[j] == d.evidence@[j]);
            assert(es.last() == d.evidence@[n - 1]);
            lemma_prefix_injective("art_"@, front[j].evidence_id@, es.last().evidence_id@);
        }
        lemma_keys_distinct_concat(evidence_nodes(front), last);
    } else {
        assert(evidence_nodes(es) =~= Seq::<NodeV>::empty());
    }
}

proof fn lemma_decision_keys_distinct(s: TaskGraphSnapshot, i: int)
    requires
        snapshot_ids_distinct(s),
        0 <= i < s.decisions@.len(),
    ensures
        keys_distinct(decision_nodes(s.decisions@[i], s.task_id@)),
{
    let d = s.decisions@[i];
    let t = s.task_id@;
    lemma_kind_names();
    lemma_evidence_keys_distinct(s, i, d.evidence@.len() as int);
    assert(d.evidence@.take(d.evidence@.len() as int) =~= d.evidence@);
    lemma_evidence_relations(d, d.evidence@);
    let head = seq![wi_node_v(d), sig_node_v(d, t)];
    assert(keys_distinct(head));
    assert forall|x: NodeV, y: NodeV| #[trigger] head.contains(x) && #[trigger] evidence_nodes(d.evidence@).contains(y) implies !(x.0
        == y.0 && x.1 == y.1) by {
        let k = choose|k: int| 0 <= k < 2 && head[k] == x;
        let j = choose|j: int| 0 <= j < d.evidence@.len() && y == art_node_v(d.evidence@[j]);
    }
    lemma_keys_distinct_concat(head, evidence_nodes(d.evidence@));
}

proof fn lemma_decisions_keys_distinct(s: TaskGraphSnapshot, n: int)
    requires
        snapshot_ids_distinct(s),
        0 <= n <= s.decisions@.len(),
    ensures
        keys_distinct(decisions_nodes(s.decisions@.take(n), s.task_id@)),
    decreases n,
{
    let ds = s.decisions@;
    let t = s.task_id@;
    let dn = ds.take(n);
    if n > 0 {
        let front = dn.drop_last();
        assert(front =~= ds.take(n - 1));
        assert(dn.last() == ds[n - 1]);
        lemma_decisions_keys_distinct(s, n - 1);
        lemma_decision_keys_distinct(s, n - 1);
        lemma_decisions_relations(front, t);
        lemma_decision_relations(ds[n - 1], t);
        lemma_kind_names();
        let fa = decisions_nodes(front, t);
        let la = decision_nodes(ds[n - 1], t);
        assert forall|x: NodeV, y: NodeV| #[trigger] fa.contains(x) && #[trigger] la.contains(y) implies !(x.0 == y.0
            && x.1 == y.1) by {
            let i = choose|i: int| 0 <= i < front.len() && decision_node(front[i], t, x);
            assert(front[i] == ds[i]);
            let a = ds[i];
            let b = ds[n - 1];
            lemma_prefix_injective("wi_"@, a.decision_id@, b.decision_id@);
            lemma_prefix_injective("sig_"@, a.decision_id@, b.decision_id@);
            if exists|j: int| 0 <= j < a.evidence@.len() && x == art_node_v(a.evidence@[j]) {
                let j = choose|j: int| 0 <= j < a.evidence@.len() && x == art_node_v(a.evidence@[j]);
                if exists|l: int| 0 <= l < b.evidence@.len() && y == art_node_v(b.evidence@[l]) {
                    let l = choose|l: int| 0 <= l < b.evidence@.len() && y == art_node_v(b.evidence@[l]);
                    lemma_prefix_injective("art_"@, a.evidence@[j].evidence_id@, b.evidence@[l].evidence_id@);
                }
            }
        }
        lemma_keys_distinct_concat(fa, la);
    } else {
        assert(decisions_nodes(dn, t) =~= Seq::<NodeV>::empty());
    }
}

/// Distinct decision ids and evidence ids give every provenance node its own
/// key and kind.
pub proof fn lemma_ids_make_keys_distinct(s: TaskGraphSnapshot)
    requires
        snapshot_ids_distinct(s),
    ensures
        keys_distinct(spec_provenance_nodes(s)),
{
    let ds = s.decisions@;
    let t = s.task_id@;
    lemma_decisions_keys_distinct(s, ds.len() as int);
    assert(ds.take(ds.len() as int) =~= ds);
    lemma_decisions_relations(ds, t);
    lemma_kind_names();
    let head = seq![task_node_v(s)] + (if ds.len() == 0 {
        Seq::<NodeV>::empty()
    } else {
        seq![agent_node_v()]
    });
    if ds.len() == 0 {
        assert(head =~= seq![task_node_v(s)]);
    } else {
        assert(head =~= seq![task_node_v(s), agent_node_v()]);
    }
    assert(keys_distinct(head));
    let rest = decisions_nodes(ds, t);
    assert forall|x: NodeV, y: NodeV| #[trigger] head.contains(x) && #[trigger] rest.contains(y) implies !(x.0 == y.0
        && x.1 == y.1) by {
        let k = choose|k: int| 0 <= k < head.len() && head[k] == x;
        let i = choose|i: int| 0 <= i < ds.len() && decision_node(ds[i], t, y);
        if exists|j: int| 0 <= j < ds[i].evidence@.len() && y == art_node_v(ds[i].evidence@[j]) {
            let j = choose|j: int| 0 <= j < ds[i].evidence@.len() && y == art_node_v(ds[i].evidence@[j]);
        }
    }
    lemma_keys_distinct_concat(head, rest);
}

/// Nodes with the same key and kind are the same node.
pub open spec fn nodes_consistent(xs: Seq<NodeV>) -> bool {
    forall|a: NodeV, b: NodeV|
        #[trigger] xs.contains(a) && #[trigger] xs.contains(b) && a.0 == b.0 && a.1 == b.1 ==> a == b
}

/// When nodes with the same key and kind are the same node, pushing them
/// without repeats keeps exactly the nodes there were.
pub proof fn lemma_push_all_contains(ns: Seq<NodeV>, add: Seq<NodeV>)
    requires
        nodes_consistent(ns + add),
    ensures
        forall|n: NodeV| #[trigger] push_all(ns, add).contains(n) <==> ns.contains(n) || add.contains(n),
    decreases add.len(),
{
    lemma_contains_concat(ns, add);
    if add.len() == 0 {
        assert forall|n: NodeV| #[trigger] push_all(ns, add).contains(n) <==> ns.contains(n) || add.contains(n) by {
            if add.contains(n) {
                let k = choose|k: int| 0 <= k < add.len() && add[k] == n;
            }
        }
    } else {
        let front = add.drop_last();
        let x = add.last();
        assert(add =~= front.push(x));
        lemma_contains_concat(ns, front);
        assert forall|n: NodeV| #[trigger] front.contains(n) implies add.contains(n) by {
            let k = choose|k: int| 0 <= k < front.len() && front[k] == n;
            assert(add[k] == n);
        }
        assert(add[add.len() - 1] == x);
        assert forall|a: NodeV| #[trigger] (ns + front).contains(a) implies (ns + add).contains(a) by {
            if front.contains(a) {
                assert(add.contains(a));
            }
        }
        assert(nodes_consistent(ns + front)) by {
            assert forall|a: NodeV, b: NodeV|
                #[trigger] (ns + front).contains(a) && #[trigger] (ns + front).contains(b) && a.0 == b.0 && a.1 == b.1 implies a
                == b by {
                assert((ns + add).contains(a));
                assert((ns + add).contains(b));
            }
        }
        lemma_push_all_contains(ns, front);
        let p = push_all(ns, front);
        assert forall|n: NodeV| #[trigger] add.contains(n) implies front.contains(n) || n == x by {
            let k = choose|k: int| 0 <= k < add.len() && add[k] == n;
            if k < add.len() - 1 {
                assert(front[k] == n);
            }
        }
        if has_node(p, x.0, x.1) {
            let i = choose|i: int| 0 <= i < p.len() && #[trigger] p[i].0 == x.0 && p[i].1 == x.1;
            assert(p.contains(p[i]));
            assert((ns + add).contains(p[i]));
            assert((ns + add).contains(x));
            assert(p[i] == x);
        } else {
            assert forall|n: NodeV| #[trigger] p.push(x).contains(n) <==> p.contains(n) || n == x by {
                if p.push(x).contains(n) {
                    let k = choose|k: int| 0 <= k < p.push(x).len() && p.push(x)[k] == n;
                    if k < p.len() {
                        assert(p[k] == n);
                    }
                }
                if p.contains(n) {
                    let k = choose|k: int| 0 <= k < p.len() && p[k] == n;
                    assert(p.push(x)[k] == n);
                }
                if n == x {
                    assert(p.push(x)[p.len() as int] == n);
                }
            }
        }
    }
}

/// Every group of rows holds exactly the matches of its read on graph `g`,
/// in whatever order the database returns them.
pub open spec fn rows_read(g: GraphState, t: Seq<char>, r: ProvenanceRows) -> bool {
    &&& rows_v(r.tasks@).to_set() == task_rows(g, t)
    &&& rows_v(r.work_items@).to_set() == work_item_rows(g, t)
    &&& rows_v(r.signals@).to_set() == signal_rows(g, t)
    &&& rows_v(r.assignments@).to_set() == assignment_rows(g, t)
    &&& rows_v(r.requirements@).to_set() == requirement_rows(g, t)
    &&& rows_v(r.emissions@).to_set() == emission_rows(g, t)
    &&& rows_v(r.supports@).to_set() == support_rows(g, t)
}

/// Reading back a snapshot projected into an empty graph database gives the
/// snapshot's provenance: when its decision ids are distinct and its evidence
/// ids are distinct across all its decisions, and the seven provenance reads
/// return the matches of their patterns on the projected graph (in any
/// order), the nodes and edges built from the rows are, as sets, the nodes and
/// edges of `snapshot_to_provenance`.
pub proof fn lemma_projection_read_back(s: TaskGraphSnapshot, r: ProvenanceRows)
    requires
        snapshot_ids_distinct(s),
        rows_read(projected(s), s.task_id@, r),
    ensures
        spec_provenance_from_rows(r).0.to_set() == spec_provenance_nodes(s).to_set(),
        spec_provenance_from_rows(r).1.to_set() == decisions_edges(s.decisions@, s.task_id@).to_set(),
{
    lemma_ids_make_keys_distinct(s);
    let ds = s.decisions@;
    let t = s.task_id@;
    let prov = spec_provenance_nodes(s);
    lemma_task_group(s, rows_v(r.tasks@));
    lemma_work_item_group(s, rows_v(r.work_items@));
    lemma_signal_group(s, rows_v(r.signals@));
    lemma_asg_group(s, rows_v(r.assignments@));
    lemma_rq_group(s, rows_v(r.requirements@));
    lemma_emi_group(s, rows_v(r.emissions@));
    lemma_sp_group(s, rows_v(r.supports@));
    lemma_provenance_nodes_contain(s);
    lemma_decisions_relations(ds, t);
    let g1 = group_nodes(rows_v(r.tasks@), 0, 1, "Task"@, task_keys());
    let g2 = group_nodes(rows_v(r.work_items@), 1, 2, "WorkItem"@, work_item_keys());
    let g3 = group_nodes(rows_v(r.signals@), 1, 2, "Signal"@, signal_keys());
    let g4 = group_nodes(rows_v(r.assignments@), 1, 2, "Agent"@, agent_keys());
    let g5 = group_nodes(rows_v(r.requirements@), 1, 2, "Artifact"@, artifact_keys());
    let g6 = group_nodes(rows_v(r.emissions@), 0, 2, "Agent"@, agent_keys());
    let g7 = group_nodes(rows_v(r.supports@), 1, 2, "Artifact"@, artifact_keys());
    lemma_contains_concat(g1, g2);
    lemma_contains_concat(g1 + g2, g3);
    lemma_contains_concat(g1 + g2 + g3, g4);
    lemma_contains_concat(g1 + g2 + g3 + g4, g5);
    lemma_contains_concat(g1 + g2 + g3 + g4 + g5, g6);
    lemma_contains_concat(g1 + g2 + g3 + g4 + g5 + g6, g7);
    let xs = spec_row_nodes(r);
    assert(xs == g1 + g2 + g3 + g4 + g5 + g6 + g7);
    assert forall|n: NodeV| #[trigger] xs.contains(n) <==> prov.contains(n) by {
        if prov.contains(n) {
            if n == task_node_v(s) {
            } else if ds.len() > 0 && n == agent_node_v() {
            } else {
                let i = choose|i: int| 0 <= i < ds.len() && decision_node(ds[i], t, n);
                if n == wi_node_v(ds[i]) {
                } else if n == sig_node_v(ds[i], t) {
                } else {
                    let j = choose|j: int| 0 <= j < ds[i].evidence@.len() && n == art_node_v(ds[i].evidence@[j]);
                    assert(g5.contains(n));
                }
            }
        }
        if xs.contains(n) {
            if g2.contains(n) {
                let i = choose|i: int| 0 <= i < ds.len() && n == wi_node_v(ds[i]);
                assert(decision_node(ds[i], t, n));
            } else if g3.contains(n) {
                let i = choose|i: int| 0 <= i < ds.len() && n == sig_node_v(ds[i], t);
                assert(decision_node(ds[i], t, n));
            } else if g5.contains(n) || g7.contains(n) {
                let (i, j) = choose|i: int, j: int|
                    0 <= i < ds.len() && 0 <= j < ds[i].evidence@.len() && n == art_node_v(ds[i].evidence@[j]);
                assert(decision_node(ds[i], t, n));
            }
            assert(provenance_node(s, n));
        }
    }
    let e0 = Seq::<NodeV>::empty();
    assert(e0 + xs =~= xs);
    assert(nodes_consistent(e0 + xs)) by {
        assert forall|a: NodeV, b: NodeV|
            #[trigger] (e0 + xs).contains(a) && #[trigger] (e0 + xs).contains(b) && a.0 == b.0 && a.1 == b.1 implies a == b by {
            let ia = choose|ia: int| 0 <= ia < prov.len() && prov[ia] == a;
            let ib = choose|ib: int| 0 <= ib < prov.len() && prov[ib] == b;
            if ia < ib {
                assert(!(prov[ia].0 == prov[ib].0 && prov[ia].1 == prov[ib].1));
            } else if ib < ia {
                assert(!(prov[ib].0 == prov[ia].0 && prov[ib].1 == prov[ia].1));
            }
        }
    }
    lemma_push_all_contains(e0, xs);
    assert(spec_provenance_from_rows(r).0.to_set() =~= prov.to_set());
    let f2 = group_edges(rows_v(r.work_items@), "HAS_WORK"@);
    let f3 = group_edges(rows_v(r.signals@), "HAS_SIGNAL"@);
    let f4 = group_edges(rows_v(r.assignments@), "ASSIGNED_TO"@);
    let f5 = group_edges(rows_v(r.requirements@), "REQUIRES"@);
    let f6 = group_edges(rows_v(r.emissions@), "EMITS"@);
    let f7 = group_edges(rows_v(r.supports@), "SUPPORTED_BY"@);
    lemma_contains_concat(f2, f3);
    lemma_contains_concat(f2 + f3, f4);
    lemma_contains_concat(f2 + f3 + f4, f5);
    lemma_contains_concat(f2 + f3 + f4 + f5, f6);
    lemma_contains_concat(f2 + f3 + f4 + f5 + f6, f7);
    let es = spec_row_edges(r);
    let de = decisions_edges(ds, t);
    assert(es == f2 + f3 + f4 + f5 + f6 + f7);
    assert forall|e: EdgeV| #[trigger] es.contains(e) <==> de.contains(e) by {
        if de.contains(e) {
            let i = choose|i: int| 0 <= i < ds.len() && decision_edge(ds[i], t, e);
            if e == plain_edge(t, wi_id(ds[i]), "HAS_WORK"@) {
                assert(f2.contains(e));
            } else if e == plain_edge(wi_id(ds[i]), "agent_planner"@, "ASSIGNED_TO"@) {
                assert(f4.contains(e));
            } else if e == plain_edge(t, sig_id(ds[i]), "HAS_SIGNAL"@) {
                assert(f3.contains(e));
            } else if e == plain_edge("agent_planner"@, sig_id(ds[i]), "EMITS"@) {
                assert(f6.contains(e));
            } else {
                let j = choose|j: int|
                    0 <= j < ds[i].evidence@.len() && (e == plain_edge(wi_id(ds[i]), art_id(ds[i].evidence@[j]), "REQUIRES"@)
                        || e == plain_edge(sig_id(ds[i]), art_id(ds[i].evidence@[j]), "SUPPORTED_BY"@));
                if e == plain_edge(wi_id(ds[i]), art_id(ds[i].evidence@[j]), "REQUIRES"@) {
                    assert(f5.contains(e));
                } else {
                    assert(f7.contains(e));
                }
            }
        }
        if es.contains(e) {
            if f2.contains(e) {
                let i = choose|i: int| 0 <= i < ds.len() && e == plain_edge(t, wi_id(ds[i]), "HAS_WORK"@);
                assert(decision_edge(ds[i], t, e));
            } else if f3.contains(e) {
                let i = choose|i: int| 0 <= i < ds.len() && e == plain_edge(t, sig_id(ds[i]), "HAS_SIGNAL"@);
                assert(decision_edge(ds[i], t, e));
            } else if f4.contains(e) {
                let i = choose|i: int| 0 <= i < ds.len() && e == plain_edge(wi_id(ds[i]), "agent_planner"@, "ASSIGNED_TO"@);
                assert(decision_edge(ds[i], t, e));
            } else if f5.contains(e) {
                let (i, j) = choose|i: int, j: int|
                    0 <= i < ds.len() && 0 <= j < ds[i].evidence@.len() && e == plain_edge(
                        wi_id(ds[i]),
                        art_id(ds[i].evidence@[j]),
                        "REQUIRES"@,
                    );
                assert(decision_edge(ds[i], t, e));
            } else if f6.contains(e) {
                let i = choose|i: int| 0 <= i < ds.len() && e == plain_edge("agent_planner"@, sig_id(ds[i]), "EMITS"@);
                assert(decision_edge(ds[i], t, e));
            } else {
                let (i, j) = choose|i: int, j: int|
                    0 <= i < ds.len() && 0 <= j < ds[i].evidence@.len() && e == plain_edge(
                        sig_id(ds[i]),
                        art_id(ds[i].evidence@[j]),
                        "SUPPORTED_BY"@,
                    );
                assert(decision_edge(ds[i], t, e));
            }
        }
    }
    assert(spec_provenance_from_rows(r).1.to_set() =~= de.to_set());
}

/// Every relation of `g` joins two of its nodes.
pub open spec fn relations_joined(g: GraphState) -> bool {
    forall|e: (Seq<char>, (Seq<char>, Seq<char>), (Seq<char>, Seq<char>))|
        #[trigger] g.edges.contains(e) ==> g.nodes.contains(e.1) && g.nodes.contains(e.2)
}

/// Writes keep every relation joined to two nodes: a relation is merged only
/// between nodes that are there, and nodes are never removed.
pub proof fn lemma_run_writes_joined(g: GraphState, ws: Seq<GraphWrite>)
    requires
        relations_joined(g),
    ensures
        relations_joined(run_writes(g, ws)),
    decreases ws.len(),
{
    if ws.len() > 0 {
        lemma_run_writes_joined(g, ws.drop_last());
    }
}

proof fn lemma_no_rows(rows: Seq<Seq<Seq<char>>>)
    requires
        rows.to_set() == Set::<Seq<Seq<char>>>::empty(),
    ensures
        rows.len() == 0,
{
    if rows.len() > 0 {
        assert(rows.to_set().contains(rows[0]));
    }
}

/// Reading back the provenance of a task that is not in the graph gives no
/// nodes and no edges, in any graph whose relations join its nodes (as every
/// graph the writes build from an empty one does).
pub proof fn lemma_read_back_missing_task(g: GraphState, t: Seq<char>, r: ProvenanceRows)
    requires
        relations_joined(g),
        !g.nodes.contains(("Task"@, t)),
        rows_read(g, t, r),
    ensures
        spec_provenance_from_rows(r).0.len() == 0,
        spec_provenance_from_rows(r).1.len() == 0,
{
    let e = Set::<Seq<Seq<char>>>::empty();
    assert(task_rows(g, t) =~= e);
    assert(work_item_rows(g, t) =~= e) by {
        assert forall|row| !#[trigger] work_item_rows(g, t).contains(row) by {
            if work_item_rows(g, t).contains(row) {
                let w = choose|w: Seq<char>|
                    #[trigger] related(g, "HAS_WORK"@, "Task"@, t, "WorkItem"@, w) && row == seq![t, w] + cells_of(
                        g,
                        "WorkItem"@,
                        w,
                        work_item_keys(),
                    );
                assert(g.edges.contains(("HAS_WORK"@, ("Task"@, t), ("WorkItem"@, w))));
            }
        }
    }
    assert(signal_rows(g, t) =~= e) by {
        assert forall|row| !#[trigger] signal_rows(g, t).contains(row) by {
            if signal_rows(g, t).contains(row) {
                let w = choose|w: Seq<char>|
                    #[trigger] related(g, "HAS_SIGNAL"@, "Task"@, t, "Signal"@, w) && row == seq![t, w] + cells_of(
                        g,
                        "Signal"@,
                        w,
                        signal_keys(),
                    );
                assert(g.edges.contains(("HAS_SIGNAL"@, ("Task"@, t), ("Signal"@, w))));
            }
        }
    }
    assert(assignment_rows(g, t) =~= e) by {
        assert forall|row| !#[trigger] assignment_rows(g, t).contains(row) by {
            if assignment_rows(g, t).contains(row) {
                let (x, a) = choose|x: Seq<char>, a: Seq<char>|
                    #[trigger] related(g, "HAS_WORK"@, "Task"@, t, "WorkItem"@, x) && #[trigger] related(
                        g,
                        "ASSIGNED_TO"@,
                        "WorkItem"@,
                        x,
                        "Agent"@,
                        a,
                    ) && row == seq![x, a] + cells_of(g, "Agent"@, a, agent_keys());
                assert(g.edges.contains(("HAS_WORK"@, ("Task"@, t), ("WorkItem"@, x))));
            }
        }
    }
    assert(requirement_rows(g, t) =~= e) by {
        assert forall|row| !#[trigger] requirement_rows(g, t).contains(row) by {
            if requirement_rows(g, t).contains(row) {
                let (x, a) = choose|x: Seq<char>, a: Seq<char>|
                    #[trigger] related(g, "HAS_WORK"@, "Task"@, t, "WorkItem"@, x) && #[trigger] related(
                        g,
                        "REQUIRES"@,
                        "WorkItem"@,
                        x,
                        "Artifact"@,
                        a,
                    ) && row == seq![x, a] + cells_of(g, "Artifact"@, a, artifact_keys());
                assert(g.edges.contains(("HAS_WORK"@, ("Task"@, t), ("WorkItem"@, x))));
            }
        }
    }
    assert(emission_rows(g, t) =~= e) by {
        assert forall|row| !#[trigger] emission_rows(g, t).contains(row) by {
            if emission_rows(g, t).contains(row) {
                let (x, a) = choose|x: Seq<char>, a: Seq<char>|
                    #[trigger] related(g, "HAS_SIGNAL"@, "Task"@, t, "Signal"@, x) && #[trigger] related(
                        g,
                        "EMITS"@,
                        "Agent"@,
                        a,
                        "Signal"@,
                        x,
                    ) && row == seq![a, x] + cells_of(g, "Agent"@, a, agent_keys());
                assert(g.edges.contains(("HAS_SIGNAL"@, ("Task"@, t), ("Signal"@, x))));
            }
        }
    }
    assert(support_rows(g, t) =~= e) by {
        assert forall|row| !#[trigger] support_rows(g, t).contains(row) by {
            if support_rows(g, t).contains(row) {
                let (x, a) = choose|x: Seq<char>, a: Seq<char>|
                    #[trigger] related(g, "HAS_SIGNAL"@, "Task"@, t, "Signal"@, x) && #[trigger] related(
                        g,
                        "SUPPORTED_BY"@,
                        "Signal"@,
                        x,
                        "Artifact"@,
                        a,
                    ) && row == seq![x, a] + cells_of(g, "Artifact"@, a, artifact_keys());
                assert(g.edges.contains(("HAS_SIGNAL"@, ("Task"@, t), ("Signal"@, x))));
            }
        }
    }
    lemma_no_rows(rows_v(r.tasks@));
    lemma_no_rows(rows_v(r.work_items@));
    lemma_no_rows(rows_v(r.signals@));
    lemma_no_rows(rows_v(r.assignments@));
    lemma_no_rows(rows_v(r.requirements@));
    lemma_no_rows(rows_v(r.emissions@));
    lemma_no_rows(rows_v(r.supports@));
    assert(spec_row_nodes(r).len() == 0);
    assert(spec_row_edges(r).len() == 0);
    assert(push_all(Seq::empty(), spec_row_nodes(r)) == Seq::<NodeV>::empty());
}

} // verus!
