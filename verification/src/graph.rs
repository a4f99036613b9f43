//! Task provenance graph: projection of planner decisions into a property
//! graph and reading it back.
use vstd::prelude::*;
use vstd::string::*;

use crate::error::{Error, ErrorV};
use crate::json::{field_agrees, json_at, json_field, json_parse_error, json_value_at, parse_json, JsonAt, JsonAtV, JsonDoc};
use crate::model::JsonField;
use crate::graph_store::{
    edge_statement, edge_write, endpoints_written, lemma_endpoints_written_concat, lemma_run_writes_twice,
    node_key, node_ref, node_statement, node_write, render, run_writes, written_nodes, GraphState,
    GraphWrite, NodeRef,
};
use crate::text::{push_char, cat, chars_of, nat_text, owned, string_of, string_of_range, text_eq, u64_text};

verus! {

/// Settings of the graph projection.
#[derive(Debug)]
pub struct GraphRuntimeConfig {
    pub enabled: bool,
    pub db_dir: Option<String>,
}

/// Position of the first `c` in `s`, or its length when there is none.
pub open spec fn index_of_char(s: Seq<char>, c: char) -> nat
    decreases s.len(),
{
    if s.len() == 0 {
        0
    } else if s[0] == c {
        0
    } else {
        1 + index_of_char(s.drop_first(), c)
    }
}

/// The first line of `s` as `str::lines` yields it: up to the first `\n`,
/// without a `\r` right before it; the whole text when it has no `\n`.
pub open spec fn first_line(s: Seq<char>) -> Seq<char> {
    let end = index_of_char(s, '\n');
    let line = s.take(end as int);
    if end < s.len() && line.len() > 0 && line.last() == '\r' {
        line.drop_last()
    } else {
        line
    }
}

/// The title of a task: the first 80 characters of the first line of its input.
pub open spec fn spec_task_title(input: Seq<char>) -> Seq<char> {
    let l = first_line(input);
    if l.len() <= 80 {
        l
    } else {
        l.take(80)
    }
}

proof fn lemma_index_of_char(s: Seq<char>, c: char)
    ensures
        index_of_char(s, c) <= s.len(),
        forall|k: int| 0 <= k < index_of_char(s, c) ==> s[k] != c,
        index_of_char(s, c) < s.len() ==> s[index_of_char(s, c) as int] == c,
    decreases s.len(),
{
    if s.len() > 0 && s[0] != c {
        lemma_index_of_char(s.drop_first(), c);
        assert forall|k: int| 0 <= k < index_of_char(s, c) implies s[k] != c by {
            if k > 0 {
                assert(s[k] == s.drop_first()[k - 1]);
            }
        }
    }
}

proof fn lemma_index_of_char_unique(s: Seq<char>, c: char, i: int)
    requires
        0 <= i <= s.len(),
        forall|k: int| 0 <= k < i ==> s[k] != c,
        i < s.len() ==> s[i] == c,
    ensures
        index_of_char(s, c) == i,
    decreases s.len(),
{
    if s.len() > 0 && i > 0 {
        lemma_index_of_char_unique(s.drop_first(), c, i - 1);
    }
}

/// The title of a task: the first 80 characters of the first line of its input.
pub fn task_title(input: &str) -> (r: String)
    ensures
        r@ == spec_task_title(input@),
{
    let v = chars_of(input);
    let mut end: usize = 0;
    while end < v.len() && v[end] != '\n'
        invariant
            v@ == input@,
            end <= v.len(),
            forall|k: int| 0 <= k < end ==> v@[k] != '\n',
        decreases v.len() - end,
    {
        end += 1;
    }
    proof {
        lemma_index_of_char_unique(v@, '\n', end as int);
    }
    let mut stop = end;
    if end < v.len() && end > 0 && v[end - 1] == '\r' {
        stop = end - 1;
    }
    let take = if stop <= 80 {
        stop
    } else {
        80
    };
    let r = string_of_range(&v, 0, take);
    assert(r@ =~= spec_task_title(input@));
    r
}

/// The execution state of the planning work item of a decision.
pub open spec fn spec_decision_execution_state(status: Seq<char>) -> Seq<char> {
    if status == "failed"@ {
        "failed"@
    } else {
        "completed"@
    }
}

/// The execution state of the planning work item of a decision: `failed` for
/// a failed decision, `completed` otherwise.
pub fn decision_execution_state(status: &str) -> (r: &'static str)
    ensures
        r@ == spec_decision_execution_state(status@),
{
    if text_eq(status, "failed") {
        "failed"
    } else {
        "completed"
    }
}

/// The kind of the signal a decision emits.
pub open spec fn spec_decision_signal_kind(status: Seq<char>) -> Seq<char> {
    if status == "needs_input"@ {
        "constraint"@
    } else if status == "failed"@ {
        "failure"@
    } else {
        "finding"@
    }
}

/// The kind of the signal a decision emits: a constraint when it needs input,
/// a failure when it failed, a finding otherwise.
pub fn decision_signal_kind(status: &str) -> (r: &'static str)
    ensures
        r@ == spec_decision_signal_kind(status@),
{
    if text_eq(status, "needs_input") {
        "constraint"
    } else if text_eq(status, "failed") {
        "failure"
    } else {
        "finding"
    }
}

/// One character inside a quoted Cypher string: backslash and quote are
/// escaped with a backslash.
pub open spec fn escape_char(c: char) -> Seq<char> {
    if c == '\\' || c == '\'' {
        seq!['\\', c]
    } else {
        seq![c]
    }
}

/// The escaped body of a quoted Cypher string.
pub open spec fn escape(s: Seq<char>) -> Seq<char>
    decreases s.len(),
{
    if s.len() == 0 {
        Seq::empty()
    } else {
        escape_char(s[0]) + escape(s.drop_first())
    }
}

/// A quoted Cypher string literal.
pub open spec fn spec_cypher_string(s: Seq<char>) -> Seq<char> {
    seq!['\''] + escape(s) + seq!['\'']
}

/// Reads back an escaped body.
pub open spec fn unescape(s: Seq<char>) -> Seq<char>
    decreases s.len(),
{
    if s.len() == 0 {
        Seq::empty()
    } else if s[0] == '\\' && s.len() >= 2 {
        seq![s[1]] + unescape(s.skip(2))
    } else {
        seq![s[0]] + unescape(s.drop_first())
    }
}

proof fn lemma_escape_push(s: Seq<char>, c: char)
    ensures
        escape(s.push(c)) == escape(s) + escape_char(c),
    decreases s.len(),
{
    if s.len() == 0 {
        assert(s.push(c).drop_first() =~= Seq::<char>::empty());
        assert(s.push(c)[0] == c);
        assert(escape(s.push(c).drop_first()) == Seq::<char>::empty());
        assert(escape(s.push(c)) =~= escape_char(c));
        assert(escape(s) == Seq::<char>::empty());
    } else {
        assert(s.push(c).drop_first() =~= s.drop_first().push(c));
        lemma_escape_push(s.drop_first(), c);
        assert(escape(s.push(c)) =~= escape(s) + escape_char(c));
    }
}

/// Unescaping an escaped body gives the text back.
pub proof fn lemma_unescape_escape(s: Seq<char>)
    ensures
        unescape(escape(s)) == s,
    decreases s.len(),
{
    if s.len() > 0 {
        lemma_unescape_escape(s.drop_first());
        let e = escape(s);
        let rest = escape(s.drop_first());
        if s[0] == '\\' || s[0] == '\'' {
            assert(e =~= seq!['\\', s[0]] + rest);
            assert(e.skip(2) =~= rest);
        } else {
            assert(e =~= seq![s[0]] + rest);
            assert(e.drop_first() =~= rest);
        }
        assert(unescape(e) =~= s);
    }
}

/// Distinct texts give distinct Cypher literals, so a value read back from
/// the graph is the value that was written.
pub proof fn lemma_cypher_string_injective(a: Seq<char>, b: Seq<char>)
    ensures
        spec_cypher_string(a) == spec_cypher_string(b) ==> a == b,
{
    if spec_cypher_string(a) == spec_cypher_string(b) {
        let la = spec_cypher_string(a);
        assert(escape(a) =~= la.subrange(1, la.len() - 1));
        assert(escape(b) =~= la.subrange(1, la.len() - 1));
        lemma_unescape_escape(a);
        lemma_unescape_escape(b);
    }
}

/// A quoted Cypher string literal of `value`.
pub fn cypher_string(value: &str) -> (r: String)
    ensures
        r@ == spec_cypher_string(value@),
{
    let v = chars_of(value);
    let mut out = String::new();
    push_char(&mut out, '\'');
    let mut i: usize = 0;
    assert(v@.take(0) =~= Seq::<char>::empty());
    while i < v.len()
        invariant
            v@ == value@,
            i <= v.len(),
            out@ == seq!['\''] + escape(v@.take(i as int)),
        decreases v.len() - i,
    {
        let c = v[i];
        proof {
            assert(v@.take(i + 1) =~= v@.take(i as int).push(c));
            lemma_escape_push(v@.take(i as int), c);
        }
        if c == '\\' || c == '\'' {
            push_char(&mut out, '\\');
        }
        push_char(&mut out, c);
        assert(out@ =~= seq!['\''] + escape(v@.take(i + 1)));
        i += 1;
    }
    push_char(&mut out, '\'');
    assert(v@.take(v.len() as int) =~= v@);
    assert(out@ =~= spec_cypher_string(value@));
    out
}


/// A node of the provenance graph with its text properties.
#[derive(Debug)]
pub struct ProvenanceNode {
    pub id: String,
    pub kind: String,
    pub properties: Vec<(String, String)>,
}

/// An edge of the provenance graph with its text properties.
#[derive(Debug)]
pub struct ProvenanceEdge {
    pub from: String,
    pub to: String,
    pub kind: String,
    pub properties: Vec<(String, String)>,
}

/// The provenance graph of a task.
#[derive(Debug)]
pub struct TaskProvenance {
    pub nodes: Vec<ProvenanceNode>,
    pub edges: Vec<ProvenanceEdge>,
}

/// The value of a list of properties.
pub open spec fn props_v(p: Seq<(String, String)>) -> Seq<(Seq<char>, Seq<char>)> {
    p.map_values(|x: (String, String)| (x.0@, x.1@))
}

/// The value of a node: id, kind, properties.
pub open spec fn node_v(n: ProvenanceNode) -> (Seq<char>, Seq<char>, Seq<(Seq<char>, Seq<char>)>) {
    (n.id@, n.kind@, props_v(n.properties@))
}

/// The values of nodes.
pub open spec fn nodes_v(ns: Seq<ProvenanceNode>) -> Seq<(Seq<char>, Seq<char>, Seq<(Seq<char>, Seq<char>)>)> {
    ns.map_values(|n: ProvenanceNode| node_v(n))
}

/// The value of an edge: from, to, kind, properties.
pub open spec fn edge_v(e: ProvenanceEdge) -> (Seq<char>, Seq<char>, Seq<char>, Seq<(Seq<char>, Seq<char>)>) {
    (e.from@, e.to@, e.kind@, props_v(e.properties@))
}

/// The values of edges.
pub open spec fn edges_v(es: Seq<ProvenanceEdge>) -> Seq<(Seq<char>, Seq<char>, Seq<char>, Seq<(Seq<char>, Seq<char>)>)> {
    es.map_values(|e: ProvenanceEdge| edge_v(e))
}

/// Some node of `ns` has this id and kind.
pub open spec fn has_node(ns: Seq<(Seq<char>, Seq<char>, Seq<(Seq<char>, Seq<char>)>)>, id: Seq<char>, kind: Seq<char>) -> bool {
    exists|i: int| 0 <= i < ns.len() && #[trigger] ns[i].0 == id && ns[i].1 == kind
}

/// `n` added to `ns` unless a node with its id and kind is there already.
pub open spec fn spec_push_unique(
    ns: Seq<(Seq<char>, Seq<char>, Seq<(Seq<char>, Seq<char>)>)>,
    n: (Seq<char>, Seq<char>, Seq<(Seq<char>, Seq<char>)>),
) -> Seq<(Seq<char>, Seq<char>, Seq<(Seq<char>, Seq<char>)>)> {
    if has_node(ns, n.0, n.1) {
        ns
    } else {
        ns.push(n)
    }
}

/// No two nodes share an id and a kind.
pub open spec fn keys_distinct(ns: Seq<(Seq<char>, Seq<char>, Seq<(Seq<char>, Seq<char>)>)>) -> bool {
    forall|i: int, j: int|
        0 <= i < j < ns.len() ==> !(#[trigger] ns[i].0 == #[trigger] ns[j].0 && ns[i].1 == ns[j].1)
}

/// Adding nodes with `push_unique_node` never creates two nodes with the same
/// id and kind.
pub proof fn lemma_push_unique_keeps_keys_distinct(
    ns: Seq<(Seq<char>, Seq<char>, Seq<(Seq<char>, Seq<char>)>)>,
    n: (Seq<char>, Seq<char>, Seq<(Seq<char>, Seq<char>)>),
)
    requires
        keys_distinct(ns),
    ensures
        keys_distinct(spec_push_unique(ns, n)),
        has_node(spec_push_unique(ns, n), n.0, n.1),
{
    if has_node(ns, n.0, n.1) {
    } else {
        let r = ns.push(n);
        assert forall|i: int, j: int| 0 <= i < j < r.len() implies !(#[trigger] r[i].0 == #[trigger] r[j].0
            && r[i].1 == r[j].1) by {
            if j == ns.len() {
                if r[i].0 == r[j].0 && r[i].1 == r[j].1 {
                    assert(ns[i].0 == n.0 && ns[i].1 == n.1);
                }
            }
        }
        assert(r[ns.len() as int] == n);
    }
}

/// Adds `node` unless a node with its id and kind is there already.
pub fn push_unique_node(nodes: &mut Vec<ProvenanceNode>, node: ProvenanceNode)
    ensures
        nodes_v(final(nodes)@) == spec_push_unique(nodes_v(old(nodes)@), node_v(node)),
{
    let ghost nv = nodes_v(nodes@);
    let mut i: usize = 0;
    while i < nodes.len()
        invariant
            i <= nodes.len(),
            nv == nodes_v(nodes@),
            forall|k: int| 0 <= k < i ==> !(nv[k].0 == node.id@ && nv[k].1 == node.kind@),
        decreases nodes.len() - i,
    {
        if text_eq(nodes[i].id.as_str(), node.id.as_str()) && text_eq(
            nodes[i].kind.as_str(),
            node.kind.as_str(),
        ) {
            assert(nv[i as int].0 == node.id@ && nv[i as int].1 == node.kind@);
            assert(has_node(nv, node_v(node).0, node_v(node).1));
            return ;
        }
        i += 1;
    }
    assert(!has_node(nv, node_v(node).0, node_v(node).1));
    nodes.push(node);
    assert(nodes_v(nodes@) =~= nv.push(node_v(node)));
}


/// The value of a node: id, kind and properties.
pub type NodeV = (Seq<char>, Seq<char>, Seq<(Seq<char>, Seq<char>)>);

/// The value of an edge: from, to, kind and properties.
pub type EdgeV = (Seq<char>, Seq<char>, Seq<char>, Seq<(Seq<char>, Seq<char>)>);

/// A piece of evidence a planner decision cites.
#[derive(Debug)]
pub struct GraphEvidence {
    pub evidence_id: String,
    pub kind: String,
    pub reference: String,
    pub summary: String,
}

/// A planner decision about a task. `confidence_text` is the decision's
/// workspace confidence as it is displayed.
#[derive(Debug)]
pub struct GraphDecision {
    pub decision_id: String,
    pub status: String,
    pub reason: String,
    pub confidence_text: String,
    pub created_at: String,
    pub evidence: Vec<GraphEvidence>,
}

/// A task and the planner decisions about it.
#[derive(Debug)]
pub struct TaskGraphSnapshot {
    pub task_id: String,
    pub task_input: String,
    pub task_created_at: String,
    pub task_updated_at: String,
    pub decisions: Vec<GraphDecision>,
}

/// `sqlite:task:{task_id}`, the reference of a task record.
pub open spec fn task_ref(task_id: Seq<char>) -> Seq<char> {
    "sqlite:task:"@ + task_id
}

/// The task node.
pub open spec fn task_node_v(s: TaskGraphSnapshot) -> NodeV {
    (
        s.task_id@,
        "Task"@,
        seq![
            ("title"@, spec_task_title(s.task_input@)),
            ("description"@, s.task_input@),
            ("ref"@, task_ref(s.task_id@)),
            ("created_at"@, s.task_created_at@),
            ("updated_at"@, s.task_updated_at@),
        ],
    )
}

/// The planner agent node.
pub open spec fn agent_node_v() -> NodeV {
    (
        "agent_planner"@,
        "Agent"@,
        seq![
            ("name"@, "Task Planner"@),
            ("role"@, "planner"@),
            ("capabilities"@, "[\"workspace_routing\",\"task_planning\"]"@),
            ("availability"@, "available"@),
            ("ref"@, "internal:planner"@),
            ("created_at"@, Seq::empty()),
            ("updated_at"@, Seq::empty()),
        ],
    )
}

/// The id of a decision's planning work item.
pub open spec fn wi_id(d: GraphDecision) -> Seq<char> {
    "wi_"@ + d.decision_id@
}

/// The id of a decision's signal.
pub open spec fn sig_id(d: GraphDecision) -> Seq<char> {
    "sig_"@ + d.decision_id@
}

/// The id of an evidence artifact.
pub open spec fn art_id(e: GraphEvidence) -> Seq<char> {
    "art_"@ + e.evidence_id@
}

/// The detail of a decision's signal.
pub open spec fn signal_detail(d: GraphDecision) -> Seq<char> {
    "planner status: "@ + d.status@ + "; confidence: "@ + d.confidence_text@
}

/// The planning work item node of a decision.
pub open spec fn wi_node_v(d: GraphDecision) -> NodeV {
    (
        wi_id(d),
        "WorkItem"@,
        seq![
            ("title"@, "Plan task"@),
            ("description"@, d.reason@),
            ("kind"@, "planning"@),
            ("planning_state"@, "active"@),
            ("execution_state"@, spec_decision_execution_state(d.status@)),
            ("execution_ref"@, Seq::empty()),
            ("created_at"@, d.created_at@),
            ("updated_at"@, d.created_at@),
        ],
    )
}

/// The signal node of a decision.
pub open spec fn sig_node_v(d: GraphDecision, task_id: Seq<char>) -> NodeV {
    (
        sig_id(d),
        "Signal"@,
        seq![
            ("source_type"@, "agent"@),
            ("kind"@, spec_decision_signal_kind(d.status@)),
            ("summary"@, d.reason@),
            ("detail"@, signal_detail(d)),
            ("origin_ref"@, task_ref(task_id)),
            ("created_at"@, d.created_at@),
        ],
    )
}

/// The artifact node of a piece of evidence.
pub open spec fn art_node_v(e: GraphEvidence) -> NodeV {
    (
        art_id(e),
        "Artifact"@,
        seq![
            ("kind"@, e.kind@),
            ("name"@, e.evidence_id@),
            ("summary"@, e.summary@),
            ("availability"@, "available"@),
            ("ref"@, e.reference@),
            ("created_at"@, Seq::empty()),
            ("updated_at"@, Seq::empty()),
        ],
    )
}

/// The artifact nodes of a list of evidence.
pub open spec fn evidence_nodes(es: Seq<GraphEvidence>) -> Seq<NodeV>
    decreases es.len(),
{
    if es.len() == 0 {
        Seq::empty()
    } else {
        evidence_nodes(es.drop_last()).push(art_node_v(es.last()))
    }
}

/// The nodes of one decision: its work item, its signal, its evidence.
pub open spec fn decision_nodes(d: GraphDecision, task_id: Seq<char>) -> Seq<NodeV> {
    seq![wi_node_v(d), sig_node_v(d, task_id)] + evidence_nodes(d.evidence@)
}

/// The nodes of several decisions.
pub open spec fn decisions_nodes(ds: Seq<GraphDecision>, task_id: Seq<char>) -> Seq<NodeV>
    decreases ds.len(),
{
    if ds.len() == 0 {
        Seq::empty()
    } else {
        decisions_nodes(ds.drop_last(), task_id) + decision_nodes(ds.last(), task_id)
    }
}

/// An edge without properties.
pub open spec fn plain_edge(from: Seq<char>, to: Seq<char>, kind: Seq<char>) -> EdgeV {
    (from, to, kind, Seq::empty())
}

/// The edges of the evidence of a decision.
pub open spec fn evidence_edges(d: GraphDecision, es: Seq<GraphEvidence>) -> Seq<EdgeV>
    decreases es.len(),
{
    if es.len() == 0 {
        Seq::empty()
    } else {
        evidence_edges(d, es.drop_last()) + seq![
            plain_edge(wi_id(d), art_id(es.last()), "REQUIRES"@),
            plain_edge(sig_id(d), art_id(es.last()), "SUPPORTED_BY"@),
        ]
    }
}

/// The edges of one decision.
pub open spec fn decision_edges(d: GraphDecision, task_id: Seq<char>) -> Seq<EdgeV> {
    seq![
        plain_edge(task_id, wi_id(d), "HAS_WORK"@),
        plain_edge(wi_id(d), "agent_planner"@, "ASSIGNED_TO"@),
        plain_edge(task_id, sig_id(d), "HAS_SIGNAL"@),
        plain_edge("agent_planner"@, sig_id(d), "EMITS"@),
    ] + evidence_edges(d, d.evidence@)
}

/// The edges of several decisions.
pub open spec fn decisions_edges(ds: Seq<GraphDecision>, task_id: Seq<char>) -> Seq<EdgeV>
    decreases ds.len(),
{
    if ds.len() == 0 {
        Seq::empty()
    } else {
        decisions_edges(ds.drop_last(), task_id) + decision_edges(ds.last(), task_id)
    }
}

/// The nodes of the provenance of a snapshot: the task, the planner agent
/// when there are decisions, and the nodes of each decision.
pub open spec fn spec_provenance_nodes(s: TaskGraphSnapshot) -> Seq<NodeV> {
    seq![task_node_v(s)] + (if s.decisions@.len() == 0 {
        Seq::<NodeV>::empty()
    } else {
        seq![agent_node_v()]
    }) + decisions_nodes(s.decisions@, s.task_id@)
}

/// Appends one property.
fn push_prop(props: &mut Vec<(String, String)>, key: &str, value: String)
    ensures
        props_v(final(props)@) == props_v(old(props)@).push((key@, value@)),
{
    let ghost before = props@;
    props.push((String::from_str(key), value));
    assert(props_v(props@) =~= props_v(before).push((key@, value@)));
}

/// Appends one node.
fn push_node(nodes: &mut Vec<ProvenanceNode>, node: ProvenanceNode)
    ensures
        nodes_v(final(nodes)@) == nodes_v(old(nodes)@).push(node_v(node)),
{
    let ghost before = nodes@;
    nodes.push(node);
    assert(nodes_v(nodes@) =~= nodes_v(before).push(node_v(node)));
}

/// Appends one edge without properties.
fn push_edge(edges: &mut Vec<ProvenanceEdge>, from: String, to: String, kind: &str)
    ensures
        edges_v(final(edges)@) == edges_v(old(edges)@).push(plain_edge(from@, to@, kind@)),
{
    let ghost before = edges@;
    let e = ProvenanceEdge { from, to, kind: String::from_str(kind), properties: Vec::new() };
    assert(props_v(e.properties@) =~= Seq::empty());
    edges.push(e);
    assert(edges_v(edges@) =~= edges_v(before).push(plain_edge(from@, to@, kind@)));
}

fn task_node(s: &TaskGraphSnapshot) -> (r: ProvenanceNode)
    ensures
        node_v(r) == task_node_v(*s),
{
    let mut p: Vec<(String, String)> = Vec::new();
    assert(props_v(p@) =~= Seq::empty());
    push_prop(&mut p, "title", task_title(s.task_input.as_str()));
    push_prop(&mut p, "description", s.task_input.clone());
    push_prop(&mut p, "ref", String::from_str("sqlite:task:").concat(s.task_id.as_str()));
    push_prop(&mut p, "created_at", s.task_created_at.clone());
    push_prop(&mut p, "updated_at", s.task_updated_at.clone());
    let r = ProvenanceNode { id: s.task_id.clone(), kind: String::from_str("Task"), properties: p };
    assert(node_v(r) =~= task_node_v(*s));
    r
}

fn agent_node() -> (r: ProvenanceNode)
    ensures
        node_v(r) == agent_node_v(),
{
    let mut p: Vec<(String, String)> = Vec::new();
    assert(props_v(p@) =~= Seq::empty());
    push_prop(&mut p, "name", String::from_str("Task Planner"));
    push_prop(&mut p, "role", String::from_str("planner"));
    push_prop(&mut p, "capabilities", String::from_str("[\"workspace_routing\",\"task_planning\"]"));
    push_prop(&mut p, "availability", String::from_str("available"));
    push_prop(&mut p, "ref", String::from_str("internal:planner"));
    push_prop(&mut p, "created_at", String::new());
    push_prop(&mut p, "updated_at", String::new());
    let r = ProvenanceNode { id: String::from_str("agent_planner"), kind: String::from_str("Agent"), properties: p };
    assert(node_v(r) =~= agent_node_v());
    r
}

fn wi_node(d: &GraphDecision) -> (r: ProvenanceNode)
    ensures
        node_v(r) == wi_node_v(*d),
{
    let mut p: Vec<(String, String)> = Vec::new();
    assert(props_v(p@) =~= Seq::empty());
    push_prop(&mut p, "title", String::from_str("Plan task"));
    push_prop(&mut p, "description", d.reason.clone());
    push_prop(&mut p, "kind", String::from_str("planning"));
    push_prop(&mut p, "planning_state", String::from_str("active"));
    push_prop(&mut p, "execution_state", String::from_str(decision_execution_state(d.status.as_str())));
    push_prop(&mut p, "execution_ref", String::new());
    push_prop(&mut p, "created_at", d.created_at.clone());
    push_prop(&mut p, "updated_at", d.created_at.clone());
    let r = ProvenanceNode {
        id: String::from_str("wi_").concat(d.decision_id.as_str()),
        kind: String::from_str("WorkItem"),
        properties: p,
    };
    assert(node_v(r) =~= wi_node_v(*d));
    r
}

fn sig_node(d: &GraphDecision, task_id: &str) -> (r: ProvenanceNode)
    ensures
        node_v(r) == sig_node_v(*d, task_id@),
{
    let mut p: Vec<(String, String)> = Vec::new();
    assert(props_v(p@) =~= Seq::empty());
    push_prop(&mut p, "source_type", String::from_str("agent"));
    push_prop(&mut p, "kind", String::from_str(decision_signal_kind(d.status.as_str())));
    push_prop(&mut p, "summary", d.reason.clone());
    push_prop(
        &mut p,
        "detail",
        String::from_str("planner status: ").concat(d.status.as_str()).concat("; confidence: ").concat(
            d.confidence_text.as_str(),
        ),
    );
    push_prop(&mut p, "origin_ref", String::from_str("sqlite:task:").concat(task_id));
    push_prop(&mut p, "created_at", d.created_at.clone());
    let r = ProvenanceNode {
        id: String::from_str("sig_").concat(d.decision_id.as_str()),
        kind: String::from_str("Signal"),
        properties: p,
    };
    assert(node_v(r) =~= sig_node_v(*d, task_id@));
    r
}

fn art_node(e: &GraphEvidence) -> (r: ProvenanceNode)
    ensures
        node_v(r) == art_node_v(*e),
{
    let mut p: Vec<(String, String)> = Vec::new();
    assert(props_v(p@) =~= Seq::empty());
    push_prop(&mut p, "kind", e.kind.clone());
    push_prop(&mut p, "name", e.evidence_id.clone());
    push_prop(&mut p, "summary", e.summary.clone());
    push_prop(&mut p, "availability", String::from_str("available"));
    push_prop(&mut p, "ref", e.reference.clone());
    push_prop(&mut p, "created_at", String::new());
    push_prop(&mut p, "updated_at", String::new());
    let r = ProvenanceNode {
        id: String::from_str("art_").concat(e.evidence_id.as_str()),
        kind: String::from_str("Artifact"),
        properties: p,
    };
    assert(node_v(r) =~= art_node_v(*e));
    r
}

/// Appends the nodes and edges of one decision.
fn push_decision(
    nodes: &mut Vec<ProvenanceNode>,
    edges: &mut Vec<ProvenanceEdge>,
    d: &GraphDecision,
    task_id: &str,
)
    ensures
        nodes_v(final(nodes)@) == nodes_v(old(nodes)@) + decision_nodes(*d, task_id@),
        edges_v(final(edges)@) == edges_v(old(edges)@) + decision_edges(*d, task_id@),
{
    let wi = String::from_str("wi_").concat(d.decision_id.as_str());
    let sig = String::from_str("sig_").concat(d.decision_id.as_str());
    push_node(nodes, wi_node(d));
    push_edge(edges, owned(task_id), wi.clone(), "HAS_WORK");
    push_edge(edges, wi.clone(), String::from_str("agent_planner"), "ASSIGNED_TO");
    push_node(nodes, sig_node(d, task_id));
    push_edge(edges, owned(task_id), sig.clone(), "HAS_SIGNAL");
    push_edge(edges, String::from_str("agent_planner"), sig.clone(), "EMITS");
    let ghost nbase = nodes_v(nodes@);
    let ghost ebase = edges_v(edges@);
    assert(nbase =~= nodes_v(old(nodes)@) + seq![wi_node_v(*d), sig_node_v(*d, task_id@)]);
    let es = &d.evidence;
    let mut i: usize = 0;
    assert(es@.take(0) =~= Seq::<GraphEvidence>::empty());
    assert(nodes_v(nodes@) =~= nbase + evidence_nodes(es@.take(0)));
    assert(edges_v(edges@) =~= ebase + evidence_edges(*d, es@.take(0)));
    while i < es.len()
        invariant
            i <= es.len(),
            es@ == d.evidence@,
            wi@ == wi_id(*d),
            sig@ == sig_id(*d),
            nodes_v(nodes@) == nbase + evidence_nodes(es@.take(i as int)),
            edges_v(edges@) == ebase + evidence_edges(*d, es@.take(i as int)),
        decreases es.len() - i,
    {
        assert(es@.take(i + 1).drop_last() =~= es@.take(i as int));
        let e = &es[i];
        let art = String::from_str("art_").concat(e.evidence_id.as_str());
        push_node(nodes, art_node(e));
        push_edge(edges, wi.clone(), art.clone(), "REQUIRES");
        push_edge(edges, sig.clone(), art, "SUPPORTED_BY");
        assert(nodes_v(nodes@) =~= nbase + evidence_nodes(es@.take(i + 1)));
        assert(edges_v(edges@) =~= ebase + evidence_edges(*d, es@.take(i + 1)));
        i += 1;
    }
    assert(es@.take(es.len() as int) =~= es@);
    assert(nodes_v(nodes@) =~= nodes_v(old(nodes)@) + decision_nodes(*d, task_id@));
    assert(edges_v(edges@) =~= edges_v(old(edges)@) + decision_edges(*d, task_id@));
}

/// The provenance graph of a snapshot, built without the graph database: the
/// task, the planner agent when there are decisions, and for each decision
/// its planning work item, its signal and its evidence artifacts, with the
/// edges between them.
pub fn snapshot_to_provenance(snapshot: &TaskGraphSnapshot) -> (r: TaskProvenance)
    ensures
        nodes_v(r.nodes@) == spec_provenance_nodes(*snapshot),
        edges_v(r.edges@) == decisions_edges(snapshot.decisions@, snapshot.task_id@),
{
    let mut nodes: Vec<ProvenanceNode> = Vec::new();
    let mut edges: Vec<ProvenanceEdge> = Vec::new();
    assert(nodes_v(nodes@) =~= Seq::empty());
    assert(edges_v(edges@) =~= Seq::empty());
    push_node(&mut nodes, task_node(snapshot));
    if snapshot.decisions.len() > 0 {
        push_node(&mut nodes, agent_node());
    }
    let ghost nbase = nodes_v(nodes@);
    let ds = &snapshot.decisions;
    let mut i: usize = 0;
    assert(ds@.take(0) =~= Seq::<GraphDecision>::empty());
    assert(nodes_v(nodes@) =~= nbase + decisions_nodes(ds@.take(0), snapshot.task_id@));
    assert(edges_v(edges@) =~= decisions_edges(ds@.take(0), snapshot.task_id@));
    while i < ds.len()
        invariant
            i <= ds.len(),
            ds@ == snapshot.decisions@,
            nodes_v(nodes@) == nbase + decisions_nodes(ds@.take(i as int), snapshot.task_id@),
            edges_v(edges@) == decisions_edges(ds@.take(i as int), snapshot.task_id@),
        decreases ds.len() - i,
    {
        assert(ds@.take(i + 1).drop_last() =~= ds@.take(i as int));
        push_decision(&mut nodes, &mut edges, &ds[i], snapshot.task_id.as_str());
        assert(nodes_v(nodes@) =~= nbase + decisions_nodes(ds@.take(i + 1), snapshot.task_id@));
        i += 1;
    }
    assert(ds@.take(ds.len() as int) =~= ds@);
    assert(nodes_v(nodes@) =~= spec_provenance_nodes(*snapshot));
    TaskProvenance { nodes, edges }
}


/// What the snapshot reads of one piece of evidence of a decision.
#[derive(Debug)]
pub struct EvidenceFacts {
    pub evidence_id: JsonField,
    pub kind: JsonField,
    pub reference: JsonField,
    pub summary: JsonField,
}

/// What the snapshot reads of a planner decision recorded in a task event:
/// its fields, its workspace confidence as displayed, and its evidence when
/// `evidence` is an array.
#[derive(Debug)]
pub struct DecisionFacts {
    pub decision_id: JsonField,
    pub status: JsonField,
    pub reason: JsonField,
    pub confidence_text: String,
    pub evidence: Option<Vec<EvidenceFacts>>,
}

/// A task event: its type, the decision of its payload when that is an
/// object, and when it was recorded.
#[derive(Debug)]
pub struct TaskEventFacts {
    pub event_type: String,
    pub decision: Option<DecisionFacts>,
    pub created_at: String,
}

/// The value of a piece of evidence.
pub type EvidenceV = (Seq<char>, Seq<char>, Seq<char>, Seq<char>);

/// The value of a decision: id, status, reason, confidence, time, evidence.
pub type DecisionV = (Seq<char>, Seq<char>, Seq<char>, Seq<char>, Seq<char>, Seq<EvidenceV>);

/// The value of a piece of evidence: id, kind, reference, summary.
pub open spec fn evidence_v(e: GraphEvidence) -> EvidenceV {
    (e.evidence_id@, e.kind@, e.reference@, e.summary@)
}

/// The value of a decision.
pub open spec fn decision_v(d: GraphDecision) -> DecisionV {
    (
        d.decision_id@,
        d.status@,
        d.reason@,
        d.confidence_text@,
        d.created_at@,
        d.evidence@.map_values(|e: GraphEvidence| evidence_v(e)),
    )
}

/// The values of decisions.
pub open spec fn decisions_v(ds: Seq<GraphDecision>) -> Seq<DecisionV> {
    ds.map_values(|d: GraphDecision| decision_v(d))
}

/// The text of a string field, `default` otherwise.
pub open spec fn text_or(f: JsonField, default: Seq<char>) -> Seq<char> {
    match f {
        JsonField::Text(t) => t@,
        _ => default,
    }
}

/// The task events that record a planner decision.
pub open spec fn spec_is_planning_event(t: Seq<char>) -> bool {
    t == "task.planning_completed"@ || t == "task.planning_resolved"@ || t
        == "task.planning_needs_input"@ || t == "task.planning_failed"@
}

/// The task event records a planner decision.
pub fn is_planning_event(event_type: &str) -> (r: bool)
    ensures
        r == spec_is_planning_event(event_type@),
{
    text_eq(event_type, "task.planning_completed") || text_eq(event_type, "task.planning_resolved")
        || text_eq(event_type, "task.planning_needs_input") || text_eq(
        event_type,
        "task.planning_failed",
    )
}

/// The JSON pointer to field `key` (given with its leading `/`) of element
/// `i` of a decision's `evidence` array.
pub open spec fn evidence_pointer(i: nat, key: Seq<char>) -> Seq<char> {
    "/decision/evidence/"@ + nat_text(i) + key
}

/// `e` holds the fields of element `i` of the `evidence` array of the
/// decision in the JSON text `text`.
pub open spec fn evidence_agrees(e: EvidenceFacts, text: Seq<char>, i: nat) -> bool {
    &&& field_agrees(e.evidence_id, json_value_at(text, evidence_pointer(i, "/evidence_id"@)))
    &&& field_agrees(e.kind, json_value_at(text, evidence_pointer(i, "/kind"@)))
    &&& field_agrees(e.reference, json_value_at(text, evidence_pointer(i, "/ref"@)))
    &&& field_agrees(e.summary, json_value_at(text, evidence_pointer(i, "/summary"@)))
}

/// `f` holds the fields of the `decision` object of the JSON text `text`:
/// its id, status and reason, and its evidence exactly when `evidence` is an
/// array, element by element.
pub open spec fn decision_agrees(f: DecisionFacts, text: Seq<char>) -> bool {
    &&& field_agrees(f.decision_id, json_value_at(text, "/decision/decision_id"@))
    &&& field_agrees(f.status, json_value_at(text, "/decision/status"@))
    &&& field_agrees(f.reason, json_value_at(text, "/decision/reason"@))
    &&& match json_value_at(text, "/decision/evidence"@) {
        JsonAtV::Array(n) => f.evidence matches Some(es) && es.len() == n && forall|i: int|
            0 <= i < n ==> evidence_agrees(#[trigger] es@[i], text, i as nat),
        _ => f.evidence is None,
    }
}

/// The text of `prefix` followed by `suffix`.
fn joined_text(prefix: &str, suffix: &str) -> (r: String)
    ensures
        r@ == prefix@ + suffix@,
{
    String::from_str(prefix).concat(suffix)
}

/// The facts of element `i` of a decision's `evidence` array.
fn evidence_facts(doc: &JsonDoc, i: usize) -> (r: EvidenceFacts)
    ensures
        evidence_agrees(r, doc@, i as nat),
{
    let base = joined_text("/decision/evidence/", u64_text(i as u64).as_str());
    EvidenceFacts {
        evidence_id: json_field(doc, joined_text(base.as_str(), "/evidence_id").as_str()),
        kind: json_field(doc, joined_text(base.as_str(), "/kind").as_str()),
        reference: json_field(doc, joined_text(base.as_str(), "/ref").as_str()),
        summary: json_field(doc, joined_text(base.as_str(), "/summary").as_str()),
    }
}

/// The planner decision a task event records: none for an event that is not
/// a planning event (its payload is not read) or whose payload's `decision`
/// is not an object; otherwise its id, status and reason fields, its
/// confidence as `confidence_text` writes it from the payload, and its
/// evidence when `evidence` is an array. The payload of a planning event must
/// be JSON.
pub fn planning_decision<F: Fn(&JsonDoc) -> String>(
    event_type: &str,
    payload: &str,
    confidence_text: F,
) -> (r: Result<Option<DecisionFacts>, Error>)
    requires
        forall|d: &JsonDoc| #[trigger] confidence_text.requires((d,)),
    ensures
        !spec_is_planning_event(event_type@) ==> (r matches Ok(None)),
        spec_is_planning_event(event_type@) ==> (r is Ok <==> json_parse_error(payload@) is None),
        r matches Err(e) ==> spec_is_planning_event(event_type@) && (json_parse_error(payload@) matches Some(m)
            && e@ == ErrorV::Domain(m)),
        spec_is_planning_event(event_type@) && json_parse_error(payload@) is None ==> (r matches Ok(Some(_))
            <==> json_value_at(payload@, "/decision"@) is Object),
        r matches Ok(Some(f)) ==> decision_agrees(f, payload@) && exists|d: JsonDoc|
            d@ == payload@ && call_ensures(confidence_text, (&d,), f.confidence_text),
{
    if !is_planning_event(event_type) {
        return Ok(None);
    }
    let doc = parse_json(payload)?;
    match json_at(&doc, "/decision") {
        JsonAt::Object => {},
        _ => return Ok(None),
    }
    let evidence = match json_at(&doc, "/decision/evidence") {
        JsonAt::Array(n) => {
            let mut out: Vec<EvidenceFacts> = Vec::new();
            let mut i: usize = 0;
            while i < n
                invariant
                    i <= n,
                    out.len() == i,
                    forall|k: int| 0 <= k < i ==> evidence_agrees(#[trigger] out@[k], doc@, k as nat),
                decreases n - i,
            {
                out.push(evidence_facts(&doc, i));
                i += 1;
            }
            Some(out)
        },
        _ => None,
    };
    let confidence = confidence_text(&doc);
    Ok(
        Some(
            DecisionFacts {
                decision_id: json_field(&doc, "/decision/decision_id"),
                status: json_field(&doc, "/decision/status"),
                reason: json_field(&doc, "/decision/reason"),
                confidence_text: confidence,
                evidence,
            },
        ),
    )
}

/// The evidence of a decision: ids default to `{decision_id}_ev_{index}`,
/// kinds to `other`, references and summaries to empty.
pub open spec fn evidence_from(items: Seq<EvidenceFacts>, decision_id: Seq<char>) -> Seq<EvidenceV> {
    Seq::new(
        items.len(),
        |i: int|
            (
                match items[i].evidence_id {
                    JsonField::Text(t) => t@,
                    _ => decision_id + "_ev_"@ + nat_text(i as nat),
                },
                text_or(items[i].kind, "other"@),
                text_or(items[i].reference, Seq::empty()),
                text_or(items[i].summary, Seq::empty()),
            ),
    )
}

/// The decision a task event records: id defaults to `dec_unknown`, status to
/// `unknown`, reason to empty.
pub open spec fn decision_from(d: DecisionFacts, created_at: Seq<char>) -> DecisionV {
    let id = text_or(d.decision_id, "dec_unknown"@);
    (
        id,
        text_or(d.status, "unknown"@),
        text_or(d.reason, Seq::empty()),
        d.confidence_text@,
        created_at,
        match d.evidence {
            Some(items) => evidence_from(items@, id),
            None => Seq::empty(),
        },
    )
}

/// Some decision of `ds` has this id.
pub open spec fn has_decision(ds: Seq<DecisionV>, id: Seq<char>) -> bool {
    exists|i: int| 0 <= i < ds.len() && #[trigger] ds[i].0 == id
}

/// The planner decisions of a task's events, in event order; a decision id
/// seen before is skipped.
pub open spec fn spec_snapshot_decisions(events: Seq<TaskEventFacts>) -> Seq<DecisionV>
    decreases events.len(),
{
    if events.len() == 0 {
        Seq::empty()
    } else {
        let prev = spec_snapshot_decisions(events.drop_last());
        let e = events.last();
        if !spec_is_planning_event(e.event_type@) {
            prev
        } else {
            match e.decision {
                None => prev,
                Some(d) => if has_decision(prev, text_or(d.decision_id, "dec_unknown"@)) {
                    prev
                } else {
                    prev.push(decision_from(d, e.created_at@))
                },
            }
        }
    }
}

/// The text of a string field, or a copy of `default`.
fn field_text_or(f: &JsonField, default: &str) -> (r: String)
    ensures
        r@ == text_or(*f, default@),
{
    match f {
        JsonField::Text(t) => t.clone(),
        _ => owned(default),
    }
}

/// The evidence of a decision.
fn evidence_of(items: &Vec<EvidenceFacts>, decision_id: &str) -> (r: Vec<GraphEvidence>)
    ensures
        r@.map_values(|e: GraphEvidence| evidence_v(e)) == evidence_from(items@, decision_id@),
{
    let mut out: Vec<GraphEvidence> = Vec::new();
    let mut i: usize = 0;
    while i < items.len()
        invariant
            i <= items.len(),
            out@.len() == i,
            forall|k: int| 0 <= k < i ==> evidence_v(#[trigger] out@[k]) == evidence_from(items@, decision_id@)[k],
        decreases items.len() - i,
    {
        let it = &items[i];
        let evidence_id = match &it.evidence_id {
            JsonField::Text(t) => t.clone(),
            _ => cat(decision_id, "_ev_").concat(u64_text(i as u64).as_str()),
        };
        let ev = GraphEvidence {
            evidence_id,
            kind: field_text_or(&it.kind, "other"),
            reference: field_text_or(&it.reference, ""),
            summary: field_text_or(&it.summary, ""),
        };
        proof {
            reveal_strlit("");
            assert(""@ =~= Seq::<char>::empty());
        }
        assert(evidence_v(ev) == evidence_from(items@, decision_id@)[i as int]);
        let ghost before = out@;
        out.push(ev);
        assert forall|k: int| 0 <= k < i + 1 implies evidence_v(#[trigger] out@[k]) == evidence_from(
            items@,
            decision_id@,
        )[k] by {
            if k < i {
                assert(out@[k] == before[k]);
            }
        }
        i += 1;
    }
    assert(out@.map_values(|e: GraphEvidence| evidence_v(e)) =~= evidence_from(items@, decision_id@));
    out
}

/// A decision id among those collected so far.
fn has_decision_id(ds: &Vec<GraphDecision>, id: &str) -> (r: bool)
    ensures
        r == has_decision(decisions_v(ds@), id@),
{
    let mut i: usize = 0;
    while i < ds.len()
        invariant
            i <= ds.len(),
            forall|k: int| 0 <= k < i ==> ds@[k].decision_id@ != id@,
        decreases ds.len() - i,
    {
        if text_eq(ds[i].decision_id.as_str(), id) {
            assert(decisions_v(ds@)[i as int].0 == id@);
            return true;
        }
        i += 1;
    }
    assert forall|k: int| 0 <= k < decisions_v(ds@).len() implies #[trigger] decisions_v(ds@)[k].0 != id@ by {
        assert(decisions_v(ds@)[k].0 == ds@[k].decision_id@);
    }
    false
}

/// The planner decisions recorded in a task's events, in event order: only
/// planning events whose payload holds a decision object count, and a
/// decision id seen before is skipped.
pub fn snapshot_decisions(events: &Vec<TaskEventFacts>) -> (r: Vec<GraphDecision>)
    ensures
        decisions_v(r@) == spec_snapshot_decisions(events@),
{
    let mut out: Vec<GraphDecision> = Vec::new();
    let mut i: usize = 0;
    assert(events@.take(0) =~= Seq::<TaskEventFacts>::empty());
    assert(decisions_v(out@) =~= Seq::empty());
    while i < events.len()
        invariant
            i <= events.len(),
            decisions_v(out@) == spec_snapshot_decisions(events@.take(i as int)),
        decreases events.len() - i,
    {
        assert(events@.take(i + 1).drop_last() =~= events@.take(i as int));
        let e = &events[i];
        if is_planning_event(e.event_type.as_str()) {
            match &e.decision {
                None => {},
                Some(d) => {
                    let id = field_text_or(&d.decision_id, "dec_unknown");
                    if !has_decision_id(&out, id.as_str()) {
                        let evidence = match &d.evidence {
                            Some(items) => evidence_of(items, id.as_str()),
                            None => Vec::new(),
                        };
                        let gd = GraphDecision {
                            decision_id: id,
                            status: field_text_or(&d.status, "unknown"),
                            reason: field_text_or(&d.reason, ""),
                            confidence_text: d.confidence_text.clone(),
                            created_at: e.created_at.clone(),
                            evidence,
                        };
                        proof {
                            reveal_strlit("");
                            assert(""@ =~= Seq::<char>::empty());
                            assert(gd.evidence@.map_values(|x: GraphEvidence| evidence_v(x)) =~= (match d.evidence {
                                Some(items) => evidence_from(items@, gd.decision_id@),
                                None => Seq::empty(),
                            }));
                        }
                        assert(decision_v(gd) == decision_from(*d, e.created_at@));
                        let ghost before = out@;
                        out.push(gd);
                        assert(decisions_v(out@) =~= decisions_v(before).push(decision_v(gd)));
                    }
                },
            }
        }
        i += 1;
    }
    assert(events@.take(events.len() as int) =~= events@);
    out
}


/// The node of a task, as the projection names it.
pub open spec fn task_node_ref(task_id: Seq<char>) -> NodeRef {
    node_ref("t"@, "Task"@, "task_id"@, task_id)
}

/// The planner agent node, as the projection names it.
pub open spec fn agent_ref() -> NodeRef {
    node_ref("a"@, "Agent"@, "agent_id"@, "agent_planner"@)
}

/// The planning work item node of a decision, as the projection names it.
pub open spec fn wi_ref(d: GraphDecision) -> NodeRef {
    node_ref("w"@, "WorkItem"@, "work_item_id"@, wi_id(d))
}

/// The signal node of a decision, as the projection names it.
pub open spec fn sig_ref(d: GraphDecision) -> NodeRef {
    node_ref("s"@, "Signal"@, "signal_id"@, sig_id(d))
}

/// The artifact node of a piece of evidence, as the projection names it.
pub open spec fn art_ref(e: GraphEvidence) -> NodeRef {
    node_ref("a"@, "Artifact"@, "artifact_id"@, art_id(e))
}

/// The write of the task node, with the properties of its provenance node.
pub open spec fn task_write(s: TaskGraphSnapshot) -> GraphWrite {
    node_write(task_node_ref(s.task_id@), task_node_v(s).2)
}

/// The write of the planner agent node.
pub open spec fn agent_write() -> GraphWrite {
    node_write(agent_ref(), agent_node_v().2)
}

/// The writes of one piece of evidence of a decision: its artifact, and the
/// relations from the decision's work item and signal to it.
pub open spec fn evidence_writes(d: GraphDecision, e: GraphEvidence) -> Seq<GraphWrite> {
    seq![
        node_write(art_ref(e), art_node_v(e).2),
        edge_write("REQUIRES"@, wi_ref(d), art_ref(e)),
        edge_write("SUPPORTED_BY"@, sig_ref(d), art_ref(e)),
    ]
}

/// The writes of the evidence of a decision.
pub open spec fn evidences_writes(d: GraphDecision, es: Seq<GraphEvidence>) -> Seq<GraphWrite>
    decreases es.len(),
{
    if es.len() == 0 {
        Seq::empty()
    } else {
        evidences_writes(d, es.drop_last()) + evidence_writes(d, es.last())
    }
}

/// The first writes of a decision: its work item and signal and their
/// relations to the task and the planner agent.
pub open spec fn decision_head_writes(d: GraphDecision, task_id: Seq<char>) -> Seq<GraphWrite> {
    seq![
        node_write(wi_ref(d), wi_node_v(d).2),
        edge_write("HAS_WORK"@, task_node_ref(task_id), wi_ref(d)),
        edge_write("ASSIGNED_TO"@, wi_ref(d), agent_ref()),
        node_write(sig_ref(d), sig_node_v(d, task_id).2),
        edge_write("HAS_SIGNAL"@, task_node_ref(task_id), sig_ref(d)),
        edge_write("EMITS"@, agent_ref(), sig_ref(d)),
    ]
}

/// The writes of one decision.
pub open spec fn decision_writes(d: GraphDecision, task_id: Seq<char>) -> Seq<GraphWrite> {
    decision_head_writes(d, task_id) + evidences_writes(d, d.evidence@)
}

/// The writes of several decisions.
pub open spec fn decisions_writes(ds: Seq<GraphDecision>, task_id: Seq<char>) -> Seq<GraphWrite>
    decreases ds.len(),
{
    if ds.len() == 0 {
        Seq::empty()
    } else {
        decisions_writes(ds.drop_last(), task_id) + decision_writes(ds.last(), task_id)
    }
}

/// The writes that project a snapshot into the graph database: the task, the
/// planner agent when there are decisions, and each decision.
pub open spec fn spec_projection_writes(s: TaskGraphSnapshot) -> Seq<GraphWrite> {
    seq![task_write(s)] + (if s.decisions@.len() == 0 {
        Seq::<GraphWrite>::empty()
    } else {
        seq![agent_write()]
    }) + decisions_writes(s.decisions@, s.task_id@)
}

/// The properties `props` give `key` the value `value`: they hold that pair,
/// and no other value for `key`.
pub open spec fn prop_is(props: Seq<(Seq<char>, Seq<char>)>, key: Seq<char>, value: Seq<char>) -> bool {
    &&& exists|k: int| 0 <= k < props.len() && props[k] == (key, value)
    &&& forall|k: int| 0 <= k < props.len() && (#[trigger] props[k]).0 == key ==> props[k].1 == value
}

proof fn lemma_decisions_hold_work_item(ds: Seq<GraphDecision>, task_id: Seq<char>, i: int)
    requires
        0 <= i < ds.len(),
    ensures
        decisions_nodes(ds, task_id).contains(wi_node_v(ds[i])),
        decisions_writes(ds, task_id).contains(node_write(wi_ref(ds[i]), wi_node_v(ds[i]).2)),
    decreases ds.len(),
{
    let init = ds.drop_last();
    if i < ds.len() - 1 {
        lemma_decisions_hold_work_item(init, task_id, i);
        assert(init[i] == ds[i]);
        let prev_n = decisions_nodes(init, task_id);
        let prev_w = decisions_writes(init, task_id);
        let jn = choose|j: int| 0 <= j < prev_n.len() && prev_n[j] == wi_node_v(ds[i]);
        assert(decisions_nodes(ds, task_id)[jn] == prev_n[jn]);
        let jw = choose|j: int| 0 <= j < prev_w.len() && prev_w[j] == node_write(wi_ref(ds[i]), wi_node_v(ds[i]).2);
        assert(decisions_writes(ds, task_id)[jw] == prev_w[jw]);
    } else {
        let n = decisions_nodes(init, task_id).len();
        assert(decisions_nodes(ds, task_id)[n as int] == decision_nodes(ds.last(), task_id)[0]);
        let m = decisions_writes(init, task_id).len();
        assert(decisions_writes(ds, task_id)[m as int] == decision_writes(ds.last(), task_id)[0]);
    }
}

/// Every planning decision of a task gives, in its provenance and in the
/// writes that project it, the work item node `wi_<decision id>` whose
/// execution state is `failed` exactly when the decision's status is
/// `failed`, and `completed` for every other status (`resolved`,
/// `needs_input` and the rest).
pub proof fn lemma_decision_work_item_state(s: TaskGraphSnapshot, i: int)
    requires
        0 <= i < s.decisions@.len(),
    ensures
        ({
            let d = s.decisions@[i];
            let state = if d.status@ == "failed"@ { "failed"@ } else { "completed"@ };
            &&& exists|j: int|
                0 <= j < spec_provenance_nodes(s).len() && (#[trigger] spec_provenance_nodes(s)[j]).0
                    == "wi_"@ + d.decision_id@ && spec_provenance_nodes(s)[j].1 == "WorkItem"@ && prop_is(
                    spec_provenance_nodes(s)[j].2,
                    "execution_state"@,
                    state,
                )
            &&& exists|j: int|
                #![trigger spec_projection_writes(s)[j]]
                {
                    &&& 0 <= j < spec_projection_writes(s).len()
                    &&& spec_projection_writes(s)[j] matches GraphWrite::Node { node, props }
                    &&& node.label == "WorkItem"@
                    &&& node.id == "wi_"@ + d.decision_id@
                    &&& prop_is(props, "execution_state"@, state)
                }
        }),
{
    let d = s.decisions@[i];
    let state = if d.status@ == "failed"@ { "failed"@ } else { "completed"@ };
    reveal_strlit("title");
    reveal_strlit("description");
    reveal_strlit("kind");
    reveal_strlit("planning_state");
    reveal_strlit("execution_state");
    reveal_strlit("execution_ref");
    reveal_strlit("created_at");
    reveal_strlit("updated_at");
    let props = wi_node_v(d).2;
    assert(props[4] == ("execution_state"@, state));
    assert forall|k: int| 0 <= k < props.len() && (#[trigger] props[k]).0 == "execution_state"@ implies props[k].1 == state by {
        if k != 4 {
            assert(props[k].0.len() != "execution_state"@.len());
        }
    }
    assert(prop_is(props, "execution_state"@, state));
    lemma_decisions_hold_work_item(s.decisions@, s.task_id@, i);
    let base_n = seq![task_node_v(s)] + (if s.decisions@.len() == 0 {
        Seq::<NodeV>::empty()
    } else {
        seq![agent_node_v()]
    });
    let dn = decisions_nodes(s.decisions@, s.task_id@);
    let jn = choose|j: int| 0 <= j < dn.len() && dn[j] == wi_node_v(d);
    assert(spec_provenance_nodes(s)[base_n.len() + jn] == wi_node_v(d));
    let base_w = seq![task_write(s)] + (if s.decisions@.len() == 0 {
        Seq::<GraphWrite>::empty()
    } else {
        seq![agent_write()]
    });
    let dw = decisions_writes(s.decisions@, s.task_id@);
    let jw = choose|j: int| 0 <= j < dw.len() && dw[j] == node_write(wi_ref(d), props);
    assert(spec_projection_writes(s)[base_w.len() + jw] == node_write(wi_ref(d), props));
}

/// The Cypher text of each of a list of writes.
pub open spec fn rendered(ws: Seq<GraphWrite>) -> Seq<Seq<char>> {
    ws.map_values(|w: GraphWrite| render(w))
}

/// The statement that records the task node.
pub open spec fn task_statement(s: TaskGraphSnapshot) -> Seq<char> {
    render(task_write(s))
}

/// The statement that records the planner agent node.
pub open spec fn agent_statement() -> Seq<char> {
    render(agent_write())
}

/// The statements that record one piece of evidence of a decision.
pub open spec fn evidence_statements(d: GraphDecision, e: GraphEvidence) -> Seq<Seq<char>> {
    rendered(evidence_writes(d, e))
}

/// The statements that record the evidence of a decision.
pub open spec fn evidences_statements(d: GraphDecision, es: Seq<GraphEvidence>) -> Seq<Seq<char>>
    decreases es.len(),
{
    if es.len() == 0 {
        Seq::empty()
    } else {
        evidences_statements(d, es.drop_last()) + evidence_statements(d, es.last())
    }
}

/// The statements that record one decision.
pub open spec fn decision_statements(d: GraphDecision, task_id: Seq<char>) -> Seq<Seq<char>> {
    rendered(decision_head_writes(d, task_id)) + evidences_statements(d, d.evidence@)
}

/// The statements that record several decisions.
pub open spec fn decisions_statements(ds: Seq<GraphDecision>, task_id: Seq<char>) -> Seq<Seq<char>>
    decreases ds.len(),
{
    if ds.len() == 0 {
        Seq::empty()
    } else {
        decisions_statements(ds.drop_last(), task_id) + decision_statements(ds.last(), task_id)
    }
}

/// The statements that project a snapshot into the graph database.
pub open spec fn spec_projection_statements(s: TaskGraphSnapshot) -> Seq<Seq<char>> {
    seq![task_statement(s)] + (if s.decisions@.len() == 0 {
        Seq::<Seq<char>>::empty()
    } else {
        seq![agent_statement()]
    }) + decisions_statements(s.decisions@, s.task_id@)
}

/// Appends one statement.
fn push_statement(out: &mut Vec<String>, st: String)
    ensures
        crate::model::sv(final(out)@) == crate::model::sv(old(out)@).push(st@),
{
    let ghost before = out@;
    out.push(st);
    proof {
        crate::model::lemma_sv_push(before, st);
    }
}

/// Appends the statements of one decision.
fn push_decision_statements(out: &mut Vec<String>, d: &GraphDecision, task_id: &str)
    ensures
        crate::model::sv(final(out)@) == crate::model::sv(old(out)@) + decision_statements(*d, task_id@),
{
    let wi = String::from_str("wi_").concat(d.decision_id.as_str());
    let sig = String::from_str("sig_").concat(d.decision_id.as_str());
    let wn = wi_node(d);
    let sn = sig_node(d, task_id);
    push_statement(out, node_statement("w", "WorkItem", "work_item_id", wi.as_str(), &wn.properties));
    push_statement(
        out,
        edge_statement("HAS_WORK", "t", "Task", "task_id", task_id, "w", "WorkItem", "work_item_id", wi.as_str()),
    );
    push_statement(
        out,
        edge_statement(
            "ASSIGNED_TO",
            "w",
            "WorkItem",
            "work_item_id",
            wi.as_str(),
            "a",
            "Agent",
            "agent_id",
            "agent_planner",
        ),
    );
    push_statement(out, node_statement("s", "Signal", "signal_id", sig.as_str(), &sn.properties));
    push_statement(
        out,
        edge_statement("HAS_SIGNAL", "t", "Task", "task_id", task_id, "s", "Signal", "signal_id", sig.as_str()),
    );
    push_statement(
        out,
        edge_statement("EMITS", "a", "Agent", "agent_id", "agent_planner", "s", "Signal", "signal_id", sig.as_str()),
    );
    let ghost base = crate::model::sv(out@);
    assert(base =~= crate::model::sv(old(out)@) + rendered(decision_head_writes(*d, task_id@)));
    let es = &d.evidence;
    let mut i: usize = 0;
    assert(es@.take(0) =~= Seq::<GraphEvidence>::empty());
    assert(crate::model::sv(out@) =~= base + evidences_statements(*d, es@.take(0)));
    while i < es.len()
        invariant
            i <= es.len(),
            es@ == d.evidence@,
            wi@ == wi_id(*d),
            sig@ == sig_id(*d),
            crate::model::sv(out@) == base + evidences_statements(*d, es@.take(i as int)),
        decreases es.len() - i,
    {
        assert(es@.take(i + 1).drop_last() =~= es@.take(i as int));
        let e = &es[i];
        let art = String::from_str("art_").concat(e.evidence_id.as_str());
        let an = art_node(e);
        let ghost before = crate::model::sv(out@);
        push_statement(out, node_statement("a", "Artifact", "artifact_id", art.as_str(), &an.properties));
        push_statement(
            out,
            edge_statement(
                "REQUIRES",
                "w",
                "WorkItem",
                "work_item_id",
                wi.as_str(),
                "a",
                "Artifact",
                "artifact_id",
                art.as_str(),
            ),
        );
        push_statement(
            out,
            edge_statement(
                "SUPPORTED_BY",
                "s",
                "Signal",
                "signal_id",
                sig.as_str(),
                "a",
                "Artifact",
                "artifact_id",
                art.as_str(),
            ),
        );
        assert(crate::model::sv(out@) =~= before + evidence_statements(*d, *e));
        assert(crate::model::sv(out@) =~= base + evidences_statements(*d, es@.take(i + 1)));
        i += 1;
    }
    assert(es@.take(es.len() as int) =~= es@);
    assert(crate::model::sv(out@) =~= crate::model::sv(old(out)@) + decision_statements(*d, task_id@));
}

/// The statements that project a snapshot into the graph database: the task
/// node, the planner agent when there are decisions, and for each decision its
/// work item, signal and evidence artifacts with their relations.
pub fn projection_statements(snapshot: &TaskGraphSnapshot) -> (r: Vec<String>)
    ensures
        crate::model::sv(r@) == spec_projection_statements(*snapshot),
{
    let mut out: Vec<String> = Vec::new();
    assert(crate::model::sv(out@) =~= Seq::empty());
    let tn = task_node(snapshot);
    push_statement(&mut out, node_statement("t", "Task", "task_id", snapshot.task_id.as_str(), &tn.properties));
    if snapshot.decisions.len() > 0 {
        let an = agent_node();
        push_statement(&mut out, node_statement("a", "Agent", "agent_id", "agent_planner", &an.properties));
    }
    let ghost base = crate::model::sv(out@);
    let ds = &snapshot.decisions;
    let mut i: usize = 0;
    assert(ds@.take(0) =~= Seq::<GraphDecision>::empty());
    assert(crate::model::sv(out@) =~= base + decisions_statements(ds@.take(0), snapshot.task_id@));
    while i < ds.len()
        invariant
            i <= ds.len(),
            ds@ == snapshot.decisions@,
            crate::model::sv(out@) == base + decisions_statements(ds@.take(i as int), snapshot.task_id@),
        decreases ds.len() - i,
    {
        assert(ds@.take(i + 1).drop_last() =~= ds@.take(i as int));
        push_decision_statements(&mut out, &ds[i], snapshot.task_id.as_str());
        assert(crate::model::sv(out@) =~= base + decisions_statements(ds@.take(i + 1), snapshot.task_id@));
        i += 1;
    }
    assert(ds@.take(ds.len() as int) =~= ds@);
    assert(crate::model::sv(out@) =~= spec_projection_statements(*snapshot));
    out
}


proof fn lemma_rendered_concat(a: Seq<GraphWrite>, b: Seq<GraphWrite>)
    ensures
        rendered(a + b) == rendered(a) + rendered(b),
{
    assert(rendered(a + b) =~= rendered(a) + rendered(b));
}

proof fn lemma_evidences_rendered(d: GraphDecision, es: Seq<GraphEvidence>)
    ensures
        evidences_statements(d, es) == rendered(evidences_writes(d, es)),
    decreases es.len(),
{
    if es.len() > 0 {
        lemma_evidences_rendered(d, es.drop_last());
        lemma_rendered_concat(evidences_writes(d, es.drop_last()), evidence_writes(d, es.last()));
    } else {
        assert(rendered(Seq::<GraphWrite>::empty()) =~= Seq::<Seq<char>>::empty());
    }
}

proof fn lemma_decisions_rendered(ds: Seq<GraphDecision>, task_id: Seq<char>)
    ensures
        decisions_statements(ds, task_id) == rendered(decisions_writes(ds, task_id)),
    decreases ds.len(),
{
    if ds.len() > 0 {
        let d = ds.last();
        lemma_decisions_rendered(ds.drop_last(), task_id);
        lemma_evidences_rendered(d, d.evidence@);
        lemma_rendered_concat(decision_head_writes(d, task_id), evidences_writes(d, d.evidence@));
        lemma_rendered_concat(decisions_writes(ds.drop_last(), task_id), decision_writes(d, task_id));
    } else {
        assert(rendered(Seq::<GraphWrite>::empty()) =~= Seq::<Seq<char>>::empty());
    }
}

/// The projection's statements are the Cypher text of its writes, in order.
pub proof fn lemma_projection_statements_rendered(s: TaskGraphSnapshot)
    ensures
        spec_projection_statements(s) == rendered(spec_projection_writes(s)),
{
    let head = seq![task_write(s)] + (if s.decisions@.len() == 0 {
        Seq::<GraphWrite>::empty()
    } else {
        seq![agent_write()]
    });
    lemma_decisions_rendered(s.decisions@, s.task_id@);
    lemma_rendered_concat(head, decisions_writes(s.decisions@, s.task_id@));
    assert(rendered(head) =~= seq![task_statement(s)] + (if s.decisions@.len() == 0 {
        Seq::<Seq<char>>::empty()
    } else {
        seq![agent_statement()]
    }));
}

proof fn lemma_push_parts(ws: Seq<GraphWrite>, w: GraphWrite)
    ensures
        ws.push(w).drop_last() == ws,
        ws.push(w).last() == w,
        ws.push(w).len() == ws.len() + 1,
{
    assert(ws.push(w).drop_last() =~= ws);
}

proof fn lemma_evidence_endpoints(
    known: Set<(Seq<char>, Seq<char>)>,
    d: GraphDecision,
    es: Seq<GraphEvidence>,
)
    requires
        known.contains(node_key(wi_ref(d))),
        known.contains(node_key(sig_ref(d))),
    ensures
        endpoints_written(known, evidences_writes(d, es)),
    decreases es.len(),
{
    if es.len() > 0 {
        let front = evidences_writes(d, es.drop_last());
        let e = es.last();
        lemma_evidence_endpoints(known, d, es.drop_last());
        let k2 = known + written_nodes(front);
        let w0 = node_write(art_ref(e), art_node_v(e).2);
        let w1 = edge_write("REQUIRES"@, wi_ref(d), art_ref(e));
        let w2 = edge_write("SUPPORTED_BY"@, sig_ref(d), art_ref(e));
        let e0 = Seq::<GraphWrite>::empty();
        lemma_push_parts(e0, w0);
        lemma_push_parts(e0.push(w0), w1);
        lemma_push_parts(e0.push(w0).push(w1), w2);
        assert(evidence_writes(d, e) == e0.push(w0).push(w1).push(w2));
        assert(endpoints_written(k2, e0));
        assert(written_nodes(e0) == Set::<(Seq<char>, Seq<char>)>::empty());
        assert(endpoints_written(k2, e0.push(w0)));
        assert(written_nodes(e0.push(w0)) == written_nodes(e0).insert(node_key(art_ref(e))));
        assert(endpoints_written(k2, e0.push(w0).push(w1)));
        assert(written_nodes(e0.push(w0).push(w1)) == written_nodes(e0.push(w0)));
        assert(endpoints_written(k2, evidence_writes(d, e)));
        lemma_endpoints_written_concat(known, front, evidence_writes(d, e));
    }
}

proof fn lemma_decision_endpoints(known: Set<(Seq<char>, Seq<char>)>, d: GraphDecision, task_id: Seq<char>)
    requires
        known.contains(node_key(task_node_ref(task_id))),
        known.contains(node_key(agent_ref())),
    ensures
        endpoints_written(known, decision_writes(d, task_id)),
{
    let w0 = node_write(wi_ref(d), wi_node_v(d).2);
    let w1 = edge_write("HAS_WORK"@, task_node_ref(task_id), wi_ref(d));
    let w2 = edge_write("ASSIGNED_TO"@, wi_ref(d), agent_ref());
    let w3 = node_write(sig_ref(d), sig_node_v(d, task_id).2);
    let w4 = edge_write("HAS_SIGNAL"@, task_node_ref(task_id), sig_ref(d));
    let w5 = edge_write("EMITS"@, agent_ref(), sig_ref(d));
    let e0 = Seq::<GraphWrite>::empty();
    let p1 = e0.push(w0);
    let p2 = p1.push(w1);
    let p3 = p2.push(w2);
    let p4 = p3.push(w3);
    let p5 = p4.push(w4);
    let head = p5.push(w5);
    lemma_push_parts(e0, w0);
    lemma_push_parts(p1, w1);
    lemma_push_parts(p2, w2);
    lemma_push_parts(p3, w3);
    lemma_push_parts(p4, w4);
    lemma_push_parts(p5, w5);
    assert(decision_head_writes(d, task_id) == head);
    assert(endpoints_written(known, e0));
    assert(written_nodes(e0) == Set::<(Seq<char>, Seq<char>)>::empty());
    assert(endpoints_written(known, p1));
    assert(written_nodes(p1) == written_nodes(e0).insert(node_key(wi_ref(d))));
    assert(endpoints_written(known, p2));
    assert(written_nodes(p2) == written_nodes(p1));
    assert(endpoints_written(known, p3));
    assert(written_nodes(p3) == written_nodes(p2));
    assert(endpoints_written(known, p4));
    assert(written_nodes(p4) == written_nodes(p3).insert(node_key(sig_ref(d))));
    assert(endpoints_written(known, p5));
    assert(written_nodes(p5) == written_nodes(p4));
    assert(endpoints_written(known, head));
    assert(written_nodes(head) == written_nodes(p5));
    let k2 = known + written_nodes(head);
    assert(k2.contains(node_key(wi_ref(d))));
    assert(k2.contains(node_key(sig_ref(d))));
    lemma_evidence_endpoints(k2, d, d.evidence@);
    lemma_endpoints_written_concat(known, head, evidences_writes(d, d.evidence@));
}

proof fn lemma_decisions_endpoints(
    known: Set<(Seq<char>, Seq<char>)>,
    ds: Seq<GraphDecision>,
    task_id: Seq<char>,
)
    requires
        known.contains(node_key(task_node_ref(task_id))),
        known.contains(node_key(agent_ref())),
    ensures
        endpoints_written(known, decisions_writes(ds, task_id)),
    decreases ds.len(),
{
    if ds.len() > 0 {
        let front = decisions_writes(ds.drop_last(), task_id);
        lemma_decisions_endpoints(known, ds.drop_last(), task_id);
        lemma_decision_endpoints(known + written_nodes(front), ds.last(), task_id);
        lemma_endpoints_written_concat(known, front, decision_writes(ds.last(), task_id));
    }
}

/// Every relation the projection merges joins nodes that an earlier write of
/// the projection merged, whatever the graph held before.
pub proof fn lemma_projection_endpoints(s: TaskGraphSnapshot, known: Set<(Seq<char>, Seq<char>)>)
    ensures
        endpoints_written(known, spec_projection_writes(s)),
{
    let e0 = Seq::<GraphWrite>::empty();
    let t = e0.push(task_write(s));
    lemma_push_parts(e0, task_write(s));
    assert(seq![task_write(s)] == t);
    assert(endpoints_written(known, e0));
    assert(written_nodes(e0) == Set::<(Seq<char>, Seq<char>)>::empty());
    assert(endpoints_written(known, t));
    assert(written_nodes(t) == written_nodes(e0).insert(node_key(task_node_ref(s.task_id@))));
    let ds = s.decisions@;
    if ds.len() == 0 {
        assert(decisions_writes(ds, s.task_id@) =~= e0);
        assert(spec_projection_writes(s) =~= t);
    } else {
        let head = t.push(agent_write());
        lemma_push_parts(t, agent_write());
        assert(seq![task_write(s)] + seq![agent_write()] =~= head);
        assert(spec_projection_writes(s) == head + decisions_writes(ds, s.task_id@));
        assert(endpoints_written(known, head));
        assert(written_nodes(head) == written_nodes(t).insert(node_key(agent_ref())));
        let k2 = known + written_nodes(head);
        assert(written_nodes(head).contains(node_key(task_node_ref(s.task_id@))));
        assert(written_nodes(head).contains(node_key(agent_ref())));
        lemma_decisions_endpoints(k2, ds, s.task_id@);
        lemma_endpoints_written_concat(known, head, decisions_writes(ds, s.task_id@));
    }
}

/// Projecting a snapshot a second time leaves the graph as the first
/// projection left it: the projection's statements are the Cypher text of its
/// writes, each write merges a node on its primary key and sets properties to
/// fixed values or merges a relation between nodes already written, and on
/// any graph running those writes again changes nothing.
pub proof fn lemma_projection_idempotent(s: TaskGraphSnapshot, g: GraphState)
    ensures
        spec_projection_statements(s) == rendered(spec_projection_writes(s)),
        run_writes(run_writes(g, spec_projection_writes(s)), spec_projection_writes(s)) == run_writes(
            g,
            spec_projection_writes(s),
        ),
{
    lemma_projection_statements_rendered(s);
    lemma_projection_endpoints(s, g.nodes);
    lemma_run_writes_twice(g, spec_projection_writes(s));
}

/// The text of each of a list of string slices.
pub open spec fn strs_v(k: Seq<&str>) -> Seq<Seq<char>> {
    k.map_values(|x: &str| x@)
}

/// The property names of a task node read back from the graph.
pub open spec fn task_keys() -> Seq<Seq<char>> {
    seq!["title"@, "description"@, "ref"@, "created_at"@, "updated_at"@]
}

/// The property names of a work item node read back from the graph.
pub open spec fn work_item_keys() -> Seq<Seq<char>> {
    seq![
        "title"@,
        "description"@,
        "kind"@,
        "planning_state"@,
        "execution_state"@,
        "execution_ref"@,
        "created_at"@,
        "updated_at"@,
    ]
}

/// The property names of a signal node read back from the graph.
pub open spec fn signal_keys() -> Seq<Seq<char>> {
    seq!["source_type"@, "kind"@, "summary"@, "detail"@, "origin_ref"@, "created_at"@]
}

/// The property names of an agent node read back from the graph.
pub open spec fn agent_keys() -> Seq<Seq<char>> {
    seq!["name"@, "role"@, "capabilities"@, "availability"@, "ref"@, "created_at"@, "updated_at"@]
}

/// The property names of an artifact node read back from the graph.
pub open spec fn artifact_keys() -> Seq<Seq<char>> {
    seq!["kind"@, "name"@, "summary"@, "availability"@, "ref"@, "created_at"@, "updated_at"@]
}

/// The node a result row describes: its id in column `id_col`, and the
/// property `keys[i]` in column `first + i`.
pub open spec fn row_node(
    r: Seq<Seq<char>>,
    id_col: int,
    first: int,
    kind: Seq<char>,
    keys: Seq<Seq<char>>,
) -> NodeV {
    (r[id_col], kind, Seq::new(keys.len(), |i: int| (keys[i], r[first + i])))
}

/// The text of each cell of each row.
pub open spec fn rows_v(rows: Seq<Vec<String>>) -> Seq<Seq<Seq<char>>> {
    rows.map_values(|r: Vec<String>| crate::model::sv(r@))
}

/// The nodes that a group of rows describes, in row order.
pub open spec fn group_nodes(
    rows: Seq<Seq<Seq<char>>>,
    id_col: int,
    first: int,
    kind: Seq<char>,
    keys: Seq<Seq<char>>,
) -> Seq<NodeV> {
    rows.map_values(|r: Seq<Seq<char>>| row_node(r, id_col, first, kind, keys))
}

/// The edges that a group of rows describes: from the first column to the
/// second.
pub open spec fn group_edges(rows: Seq<Seq<Seq<char>>>, kind: Seq<char>) -> Seq<EdgeV> {
    rows.map_values(|r: Seq<Seq<char>>| plain_edge(r[0], r[1], kind))
}

/// `add` pushed, in order, onto `ns` with `spec_push_unique`.
pub open spec fn push_all(ns: Seq<NodeV>, add: Seq<NodeV>) -> Seq<NodeV>
    decreases add.len(),
{
    if add.len() == 0 {
        ns
    } else {
        spec_push_unique(push_all(ns, add.drop_last()), add.last())
    }
}

proof fn lemma_push_all_append(ns: Seq<NodeV>, a: Seq<NodeV>, b: Seq<NodeV>)
    ensures
        push_all(ns, a + b) == push_all(push_all(ns, a), b),
    decreases b.len(),
{
    if b.len() == 0 {
        assert(a + b =~= a);
    } else {
        assert((a + b).drop_last() =~= a + b.drop_last());
        assert((a + b).last() == b.last());
        lemma_push_all_append(ns, a, b.drop_last());
    }
}

proof fn lemma_push_unique_keeps_nodes(ns: Seq<NodeV>, n: NodeV, id: Seq<char>, kind: Seq<char>)
    requires
        has_node(ns, id, kind),
    ensures
        has_node(spec_push_unique(ns, n), id, kind),
{
    if !has_node(ns, n.0, n.1) {
        let i = choose|i: int| 0 <= i < ns.len() && #[trigger] ns[i].0 == id && ns[i].1 == kind;
        assert(ns.push(n)[i] == ns[i]);
    }
}

/// Pushing nodes with `spec_push_unique` keeps ids and kinds distinct, keeps
/// every node that was there, and leaves a node for each one pushed.
pub proof fn lemma_push_all_distinct(ns: Seq<NodeV>, add: Seq<NodeV>)
    requires
        keys_distinct(ns),
    ensures
        keys_distinct(push_all(ns, add)),
        forall|i: int| 0 <= i < add.len() ==> has_node(push_all(ns, add), #[trigger] add[i].0, add[i].1),
        forall|id: Seq<char>, kind: Seq<char>| has_node(ns, id, kind) ==> has_node(push_all(ns, add), id, kind),
    decreases add.len(),
{
    if add.len() > 0 {
        let front = add.drop_last();
        let prev = push_all(ns, front);
        lemma_push_all_distinct(ns, front);
        lemma_push_unique_keeps_keys_distinct(prev, add.last());
        assert forall|i: int| 0 <= i < add.len() implies has_node(push_all(ns, add), #[trigger] add[i].0, add[i].1) by {
            if i < add.len() - 1 {
                assert(front[i] == add[i]);
                lemma_push_unique_keeps_nodes(prev, add.last(), add[i].0, add[i].1);
            }
        }
        assert forall|id: Seq<char>, kind: Seq<char>| has_node(ns, id, kind) implies has_node(push_all(ns, add), id, kind) by {
            lemma_push_unique_keeps_nodes(prev, add.last(), id, kind);
        }
    }
}

/// Every row of `rows` has at least `w` columns.
pub open spec fn all_width(rows: Seq<Vec<String>>, w: nat) -> bool {
    forall|k: int| 0 <= k < rows.len() ==> w <= #[trigger] rows[k].len()
}

/// The rows of the seven provenance reads, each in the column order of its
/// query (see `provenance_query_texts`).
#[derive(Debug)]
pub struct ProvenanceRows {
    pub tasks: Vec<Vec<String>>,
    pub work_items: Vec<Vec<String>>,
    pub signals: Vec<Vec<String>>,
    pub assignments: Vec<Vec<String>>,
    pub requirements: Vec<Vec<String>>,
    pub emissions: Vec<Vec<String>>,
    pub supports: Vec<Vec<String>>,
}

/// Each group of rows has the columns its query returns.
pub open spec fn rows_fit(r: ProvenanceRows) -> bool {
    &&& all_width(r.tasks@, 6)
    &&& all_width(r.work_items@, 10)
    &&& all_width(r.signals@, 8)
    &&& all_width(r.assignments@, 9)
    &&& all_width(r.requirements@, 9)
    &&& all_width(r.emissions@, 9)
    &&& all_width(r.supports@, 9)
}

/// The nodes the rows describe, in the order they are read.
pub open spec fn spec_row_nodes(r: ProvenanceRows) -> Seq<NodeV> {
    group_nodes(rows_v(r.tasks@), 0, 1, "Task"@, task_keys())
        + group_nodes(rows_v(r.work_items@), 1, 2, "WorkItem"@, work_item_keys())
        + group_nodes(rows_v(r.signals@), 1, 2, "Signal"@, signal_keys())
        + group_nodes(rows_v(r.assignments@), 1, 2, "Agent"@, agent_keys())
        + group_nodes(rows_v(r.requirements@), 1, 2, "Artifact"@, artifact_keys())
        + group_nodes(rows_v(r.emissions@), 0, 2, "Agent"@, agent_keys())
        + group_nodes(rows_v(r.supports@), 1, 2, "Artifact"@, artifact_keys())
}

/// The edges the rows describe, in the order they are read.
pub open spec fn spec_row_edges(r: ProvenanceRows) -> Seq<EdgeV> {
    group_edges(rows_v(r.work_items@), "HAS_WORK"@) + group_edges(rows_v(r.signals@), "HAS_SIGNAL"@)
        + group_edges(rows_v(r.assignments@), "ASSIGNED_TO"@) + group_edges(
        rows_v(r.requirements@),
        "REQUIRES"@,
    ) + group_edges(rows_v(r.emissions@), "EMITS"@) + group_edges(rows_v(r.supports@), "SUPPORTED_BY"@)
}

/// The provenance graph read back from rows: nodes without repeated id and
/// kind (the first row wins), and one edge per relation row.
pub open spec fn spec_provenance_from_rows(r: ProvenanceRows) -> (Seq<NodeV>, Seq<EdgeV>) {
    (push_all(Seq::empty(), spec_row_nodes(r)), spec_row_edges(r))
}

/// The provenance read back from the graph never lists a node (id and kind)
/// twice, and lists a node for every row read.
pub proof fn lemma_provenance_rows_distinct(r: ProvenanceRows)
    ensures
        keys_distinct(spec_provenance_from_rows(r).0),
        forall|i: int|
            0 <= i < spec_row_nodes(r).len() ==> has_node(
                spec_provenance_from_rows(r).0,
                #[trigger] spec_row_nodes(r)[i].0,
                spec_row_nodes(r)[i].1,
            ),
{
    lemma_push_all_distinct(Seq::empty(), spec_row_nodes(r));
}

fn key_list_5(a: &'static str, b: &'static str, c: &'static str, d: &'static str, e: &'static str) -> (k: Vec<&'static str>)
    ensures
        k.len() == 5,
        strs_v(k@) == seq![a@, b@, c@, d@, e@],
{
    let mut k: Vec<&'static str> = Vec::new();
    k.push(a);
    k.push(b);
    k.push(c);
    k.push(d);
    k.push(e);
    assert(strs_v(k@) =~= seq![a@, b@, c@, d@, e@]);
    k
}

fn push_key(k: &mut Vec<&'static str>, x: &'static str)
    ensures
        strs_v(final(k)@) == strs_v(old(k)@).push(x@),
{
    let ghost before = k@;
    k.push(x);
    assert(strs_v(k@) =~= strs_v(before).push(x@));
}

/// The node of one row.
fn row_node_of(row: &Vec<String>, id_col: usize, first: usize, kind: &str, keys: &Vec<&'static str>) -> (n: ProvenanceNode)
    requires
        id_col < row.len(),
        first + keys.len() <= row.len(),
    ensures
        node_v(n) == row_node(crate::model::sv(row@), id_col as int, first as int, kind@, strs_v(keys@)),
{
    let ghost rv = crate::model::sv(row@);
    let ghost kv = strs_v(keys@);
    let mut p: Vec<(String, String)> = Vec::new();
    let mut i: usize = 0;
    assert(props_v(p@) =~= Seq::new(0, |j: int| (kv[j], rv[first + j])));
    while i < keys.len()
        invariant
            i <= keys.len(),
            first + keys.len() <= row.len(),
            rv == crate::model::sv(row@),
            kv == strs_v(keys@),
            props_v(p@) == Seq::new(i as nat, |j: int| (kv[j], rv[first + j])),
        decreases keys.len() - i,
    {
        push_prop(&mut p, keys[i], row[first + i].clone());
        assert(props_v(p@) =~= Seq::new((i + 1) as nat, |j: int| (kv[j], rv[first + j])));
        i += 1;
    }
    let n = ProvenanceNode { id: row[id_col].clone(), kind: String::from_str(kind), properties: p };
    assert(node_v(n) =~= row_node(rv, id_col as int, first as int, kind@, kv));
    n
}

/// Reads one group of rows: a node per row, pushed unless already there, and
/// an edge per row where the group is a relation.
fn absorb_rows(
    nodes: &mut Vec<ProvenanceNode>,
    edges: &mut Vec<ProvenanceEdge>,
    rows: &Vec<Vec<String>>,
    id_col: usize,
    first: usize,
    kind: &str,
    keys: &Vec<&'static str>,
    edge_kind: Option<&str>,
)
    requires
        id_col < 2,
        forall|k: int|
            0 <= k < rows.len() ==> first + keys.len() <= #[trigger] rows@[k].len() && 2 <= rows@[k].len(),
    ensures
        nodes_v(final(nodes)@) == push_all(
            nodes_v(old(nodes)@),
            group_nodes(rows_v(rows@), id_col as int, first as int, kind@, strs_v(keys@)),
        ),
        edges_v(final(edges)@) == edges_v(old(edges)@) + match edge_kind {
            Some(e) => group_edges(rows_v(rows@), e@),
            None => Seq::<EdgeV>::empty(),
        },
{
    let ghost n0 = nodes_v(nodes@);
    let ghost e0 = edges_v(edges@);
    let ghost rv = rows_v(rows@);
    let ghost kv = strs_v(keys@);
    let ghost ek = match edge_kind {
        Some(e) => e@,
        None => Seq::<char>::empty(),
    };
    let mut i: usize = 0;
    assert(rv.take(0) =~= Seq::<Seq<Seq<char>>>::empty());
    assert(group_nodes(rv.take(0), id_col as int, first as int, kind@, kv) =~= Seq::<NodeV>::empty());
    assert(group_edges(rv.take(0), ek) =~= Seq::<EdgeV>::empty());
    assert(e0 + Seq::<EdgeV>::empty() =~= e0);
    while i < rows.len()
        invariant
            i <= rows.len(),
            id_col < 2,
            forall|k: int|
                0 <= k < rows.len() ==> first + keys.len() <= #[trigger] rows@[k].len() && 2 <= rows@[k].len(),
            rv == rows_v(rows@),
            kv == strs_v(keys@),
            ek == match edge_kind {
                Some(e) => e@,
                None => Seq::<char>::empty(),
            },
            nodes_v(nodes@) == push_all(n0, group_nodes(rv.take(i as int), id_col as int, first as int, kind@, kv)),
            edges_v(edges@) == e0 + match edge_kind {
                Some(_) => group_edges(rv.take(i as int), ek),
                None => Seq::<EdgeV>::empty(),
            },
        decreases rows.len() - i,
    {
        let row = &rows[i];
        assert(rv[i as int] == crate::model::sv(row@));
        let ghost before = group_nodes(rv.take(i as int), id_col as int, first as int, kind@, kv);
        let ghost after = group_nodes(rv.take(i + 1), id_col as int, first as int, kind@, kv);
        assert(after =~= before.push(row_node(rv[i as int], id_col as int, first as int, kind@, kv)));
        assert(after.drop_last() =~= before);
        if let Some(e) = edge_kind {
            assert(group_edges(rv.take(i + 1), ek) =~= group_edges(rv.take(i as int), ek).push(
                plain_edge(rv[i as int][0], rv[i as int][1], ek),
            ));
            assert(crate::model::sv(row@)[0] == row@[0]@);
            assert(crate::model::sv(row@)[1] == row@[1]@);
            push_edge(edges, row[0].clone(), row[1].clone(), e);
        }
        let n = row_node_of(row, id_col, first, kind, keys);
        push_unique_node(nodes, n);
        i += 1;
    }
    assert(rv.take(rows.len() as int) =~= rv);
}

/// The provenance graph that the rows of the seven provenance reads describe.
pub fn provenance_from_rows(rows: &ProvenanceRows) -> (p: TaskProvenance)
    requires
        rows_fit(*rows),
    ensures
        nodes_v(p.nodes@) == spec_provenance_from_rows(*rows).0,
        edges_v(p.edges@) == spec_provenance_from_rows(*rows).1,
{
    let mut nodes: Vec<ProvenanceNode> = Vec::new();
    let mut edges: Vec<ProvenanceEdge> = Vec::new();
    let tk = key_list_5("title", "description", "ref", "created_at", "updated_at");
    let mut wk = key_list_5("title", "description", "kind", "planning_state", "execution_state");
    push_key(&mut wk, "execution_ref");
    push_key(&mut wk, "created_at");
    push_key(&mut wk, "updated_at");
    let mut sk = key_list_5("source_type", "kind", "summary", "detail", "origin_ref");
    push_key(&mut sk, "created_at");
    let mut ak = key_list_5("name", "role", "capabilities", "availability", "ref");
    push_key(&mut ak, "created_at");
    push_key(&mut ak, "updated_at");
    let mut rk = key_list_5("kind", "name", "summary", "availability", "ref");
    push_key(&mut rk, "created_at");
    push_key(&mut rk, "updated_at");
    assert(strs_v(wk@) =~= work_item_keys());
    assert(strs_v(sk@) =~= signal_keys());
    assert(strs_v(ak@) =~= agent_keys());
    assert(strs_v(rk@) =~= artifact_keys());
    assert(nodes_v(nodes@) =~= Seq::<NodeV>::empty());
    assert(edges_v(edges@) =~= Seq::<EdgeV>::empty());
    let ghost r = *rows;
    let ghost g1 = group_nodes(rows_v(r.tasks@), 0, 1, "Task"@, task_keys());
    let ghost g2 = group_nodes(rows_v(r.work_items@), 1, 2, "WorkItem"@, work_item_keys());
    let ghost g3 = group_nodes(rows_v(r.signals@), 1, 2, "Signal"@, signal_keys());
    let ghost g4 = group_nodes(rows_v(r.assignments@), 1, 2, "Agent"@, agent_keys());
    let ghost g5 = group_nodes(rows_v(r.requirements@), 1, 2, "Artifact"@, artifact_keys());
    let ghost g6 = group_nodes(rows_v(r.emissions@), 0, 2, "Agent"@, agent_keys());
    let ghost g7 = group_nodes(rows_v(r.supports@), 1, 2, "Artifact"@, artifact_keys());
    absorb_rows(&mut nodes, &mut edges, &rows.tasks, 0, 1, "Task", &tk, None);
    absorb_rows(&mut nodes, &mut edges, &rows.work_items, 1, 2, "WorkItem", &wk, Some("HAS_WORK"));
    absorb_rows(&mut nodes, &mut edges, &rows.signals, 1, 2, "Signal", &sk, Some("HAS_SIGNAL"));
    absorb_rows(&mut nodes, &mut edges, &rows.assignments, 1, 2, "Agent", &ak, Some("ASSIGNED_TO"));
    absorb_rows(&mut nodes, &mut edges, &rows.requirements, 1, 2, "Artifact", &rk, Some("REQUIRES"));
    absorb_rows(&mut nodes, &mut edges, &rows.emissions, 0, 2, "Agent", &ak, Some("EMITS"));
    absorb_rows(&mut nodes, &mut edges, &rows.supports, 1, 2, "Artifact", &rk, Some("SUPPORTED_BY"));
    proof {
        let e = Seq::<NodeV>::empty();
        assert(Seq::<EdgeV>::empty() + Seq::<EdgeV>::empty() =~= Seq::<EdgeV>::empty());
        lemma_push_all_append(e, g1, g2);
        lemma_push_all_append(e, g1 + g2, g3);
        lemma_push_all_append(e, g1 + g2 + g3, g4);
        lemma_push_all_append(e, g1 + g2 + g3 + g4, g5);
        lemma_push_all_append(e, g1 + g2 + g3 + g4 + g5, g6);
        lemma_push_all_append(e, g1 + g2 + g3 + g4 + g5 + g6, g7);
        assert(edges_v(edges@) =~= spec_row_edges(r));
    }
    TaskProvenance { nodes, edges }
}


/// A read of the provenance graph scoped to one task: the match on the task
/// node followed by `tail`.
pub open spec fn task_match(quoted_task_id: Seq<char>, tail: Seq<char>) -> Seq<char> {
    "MATCH (t:Task {task_id: "@ + quoted_task_id + tail
}

/// The seven reads of a task's provenance, in the order their rows are
/// absorbed: the task, its work items, its signals, the agents assigned to
/// its work items, the artifacts they require, the agents that emitted its
/// signals, and the artifacts that support them.
pub open spec fn provenance_query_texts(task_id: Seq<char>) -> Seq<Seq<char>> {
    let c = spec_cypher_string(task_id);
    seq![
        task_match(c, "}) RETURN t.task_id, t.title, t.description, t.ref, t.created_at, t.updated_at;"@),
        task_match(c, "})-[r:HAS_WORK]->(w:WorkItem) RETURN t.task_id, w.work_item_id, w.title, w.description, w.kind, w.planning_state, w.execution_state, w.execution_ref, w.created_at, w.updated_at;"@),
        task_match(c, "})-[r:HAS_SIGNAL]->(s:Signal) RETURN t.task_id, s.signal_id, s.source_type, s.kind, s.summary, s.detail, s.origin_ref, s.created_at;"@),
        task_match(c, "})-[:HAS_WORK]->(w:WorkItem)-[r:ASSIGNED_TO]->(a:Agent) RETURN w.work_item_id, a.agent_id, a.name, a.role, a.capabilities, a.availability, a.ref, a.created_at, a.updated_at;"@),
        task_match(c, "})-[:HAS_WORK]->(w:WorkItem)-[r:REQUIRES]->(a:Artifact) RETURN w.work_item_id, a.artifact_id, a.kind, a.name, a.summary, a.availability, a.ref, a.created_at, a.updated_at;"@),
        task_match(c, "})-[:HAS_SIGNAL]->(s:Signal)<-[r:EMITS]-(a:Agent) RETURN a.agent_id, s.signal_id, a.name, a.role, a.capabilities, a.availability, a.ref, a.created_at, a.updated_at;"@),
        task_match(c, "})-[:HAS_SIGNAL]->(s:Signal)-[r:SUPPORTED_BY]->(a:Artifact) RETURN s.signal_id, a.artifact_id, a.kind, a.name, a.summary, a.availability, a.ref, a.created_at, a.updated_at;"@),
    ]
}

fn task_query(quoted_task_id: &str, tail: &str) -> (r: String)
    ensures
        r@ == task_match(quoted_task_id@, tail@),
{
    String::from_str("MATCH (t:Task {task_id: ").concat(quoted_task_id).concat(tail)
}

/// The seven reads of a task's provenance (see `provenance_query_texts`).
pub fn provenance_queries(task_id: &str) -> (r: Vec<String>)
    ensures
        crate::model::sv(r@) == provenance_query_texts(task_id@),
{
    let c = cypher_string(task_id);
    let mut out: Vec<String> = Vec::new();
    push_statement(&mut out, task_query(c.as_str(), "}) RETURN t.task_id, t.title, t.description, t.ref, t.created_at, t.updated_at;"));
    push_statement(&mut out, task_query(c.as_str(), "})-[r:HAS_WORK]->(w:WorkItem) RETURN t.task_id, w.work_item_id, w.title, w.description, w.kind, w.planning_state, w.execution_state, w.execution_ref, w.created_at, w.updated_at;"));
    push_statement(&mut out, task_query(c.as_str(), "})-[r:HAS_SIGNAL]->(s:Signal) RETURN t.task_id, s.signal_id, s.source_type, s.kind, s.summary, s.detail, s.origin_ref, s.created_at;"));
    push_statement(&mut out, task_query(c.as_str(), "})-[:HAS_WORK]->(w:WorkItem)-[r:ASSIGNED_TO]->(a:Agent) RETURN w.work_item_id, a.agent_id, a.name, a.role, a.capabilities, a.availability, a.ref, a.created_at, a.updated_at;"));
    push_statement(&mut out, task_query(c.as_str(), "})-[:HAS_WORK]->(w:WorkItem)-[r:REQUIRES]->(a:Artifact) RETURN w.work_item_id, a.artifact_id, a.kind, a.name, a.summary, a.availability, a.ref, a.created_at, a.updated_at;"));
    push_statement(&mut out, task_query(c.as_str(), "})-[:HAS_SIGNAL]->(s:Signal)<-[r:EMITS]-(a:Agent) RETURN a.agent_id, s.signal_id, a.name, a.role, a.capabilities, a.availability, a.ref, a.created_at, a.updated_at;"));
    push_statement(&mut out, task_query(c.as_str(), "})-[:HAS_SIGNAL]->(s:Signal)-[r:SUPPORTED_BY]->(a:Artifact) RETURN s.signal_id, a.artifact_id, a.kind, a.name, a.summary, a.availability, a.ref, a.created_at, a.updated_at;"));
    assert(crate::model::sv(out@) =~= provenance_query_texts(task_id@));
    out
}

/// The statements that create the graph schema when it is missing: five node
/// tables and eleven relation tables.
pub open spec fn spec_schema_statements() -> Seq<Seq<char>> {
    seq![
        "CREATE NODE TABLE IF NOT EXISTS Task(task_id STRING, title STRING, description STRING, ref STRING, created_at STRING, updated_at STRING, PRIMARY KEY(task_id));"@,
        "CREATE NODE TABLE IF NOT EXISTS WorkItem(work_item_id STRING, title STRING, description STRING, kind STRING, planning_state STRING, execution_state STRING, execution_ref STRING, created_at STRING, updated_at STRING, PRIMARY KEY(work_item_id));"@,
        "CREATE NODE TABLE IF NOT EXISTS Agent(agent_id STRING, name STRING, role STRING, capabilities STRING, availability STRING, ref STRING, created_at STRING, updated_at STRING, PRIMARY KEY(agent_id));"@,
        "CREATE NODE TABLE IF NOT EXISTS Artifact(artifact_id STRING, kind STRING, name STRING, summary STRING, availability STRING, ref STRING, created_at STRING, updated_at STRING, PRIMARY KEY(artifact_id));"@,
        "CREATE NODE TABLE IF NOT EXISTS Signal(signal_id STRING, source_type STRING, kind STRING, summary STRING, detail STRING, origin_ref STRING, created_at STRING, PRIMARY KEY(signal_id));"@,
        "CREATE REL TABLE IF NOT EXISTS HAS_WORK(FROM Task TO WorkItem);"@,
        "CREATE REL TABLE IF NOT EXISTS HAS_SIGNAL(FROM Task TO Signal);"@,
        "CREATE REL TABLE IF NOT EXISTS DEPENDS_ON(FROM WorkItem TO WorkItem);"@,
        "CREATE REL TABLE IF NOT EXISTS SUPERSEDES(FROM WorkItem TO WorkItem);"@,
        "CREATE REL TABLE IF NOT EXISTS CAUSED_BY(FROM WorkItem TO Signal);"@,
        "CREATE REL TABLE IF NOT EXISTS ASSIGNED_TO(FROM WorkItem TO Agent);"@,
        "CREATE REL TABLE IF NOT EXISTS REQUIRES(FROM WorkItem TO Artifact);"@,
        "CREATE REL TABLE IF NOT EXISTS PRODUCES(FROM WorkItem TO Artifact);"@,
        "CREATE REL TABLE IF NOT EXISTS EMITS(FROM Agent TO Signal);"@,
        "CREATE REL TABLE IF NOT EXISTS SUPPORTED_BY(FROM Signal TO Artifact);"@,
        "CREATE REL TABLE IF NOT EXISTS DERIVED_FROM(FROM Artifact TO Artifact);"@,
    ]
}

/// The statements that create the graph schema (see `spec_schema_statements`).
pub fn schema_statements() -> (r: Vec<&'static str>)
    ensures
        strs_v(r@) == spec_schema_statements(),
{
    let mut out: Vec<&'static str> = Vec::new();
    push_key(&mut out, "CREATE NODE TABLE IF NOT EXISTS Task(task_id STRING, title STRING, description STRING, ref STRING, created_at STRING, updated_at STRING, PRIMARY KEY(task_id));");
    push_key(&mut out, "CREATE NODE TABLE IF NOT EXISTS WorkItem(work_item_id STRING, title STRING, description STRING, kind STRING, planning_state STRING, execution_state STRING, execution_ref STRING, created_at STRING, updated_at STRING, PRIMARY KEY(work_item_id));");
    push_key(&mut out, "CREATE NODE TABLE IF NOT EXISTS Agent(agent_id STRING, name STRING, role STRING, capabilities STRING, availability STRING, ref STRING, created_at STRING, updated_at STRING, PRIMARY KEY(agent_id));");
    push_key(&mut out, "CREATE NODE TABLE IF NOT EXISTS Artifact(artifact_id STRING, kind STRING, name STRING, summary STRING, availability STRING, ref STRING, created_at STRING, updated_at STRING, PRIMARY KEY(artifact_id));");
    push_key(&mut out, "CREATE NODE TABLE IF NOT EXISTS Signal(signal_id STRING, source_type STRING, kind STRING, summary STRING, detail STRING, origin_ref STRING, created_at STRING, PRIMARY KEY(signal_id));");
    push_key(&mut out, "CREATE REL TABLE IF NOT EXISTS HAS_WORK(FROM Task TO WorkItem);");
    push_key(&mut out, "CREATE REL TABLE IF NOT EXISTS HAS_SIGNAL(FROM Task TO Signal);");
    push_key(&mut out, "CREATE REL TABLE IF NOT EXISTS DEPENDS_ON(FROM WorkItem TO WorkItem);");
    push_key(&mut out, "CREATE REL TABLE IF NOT EXISTS SUPERSEDES(FROM WorkItem TO WorkItem);");
    push_key(&mut out, "CREATE REL TABLE IF NOT EXISTS CAUSED_BY(FROM WorkItem TO Signal);");
    push_key(&mut out, "CREATE REL TABLE IF NOT EXISTS ASSIGNED_TO(FROM WorkItem TO Agent);");
    push_key(&mut out, "CREATE REL TABLE IF NOT EXISTS REQUIRES(FROM WorkItem TO Artifact);");
    push_key(&mut out, "CREATE REL TABLE IF NOT EXISTS PRODUCES(FROM WorkItem TO Artifact);");
    push_key(&mut out, "CREATE REL TABLE IF NOT EXISTS EMITS(FROM Agent TO Signal);");
    push_key(&mut out, "CREATE REL TABLE IF NOT EXISTS SUPPORTED_BY(FROM Signal TO Artifact);");
    push_key(&mut out, "CREATE REL TABLE IF NOT EXISTS DERIVED_FROM(FROM Artifact TO Artifact);");
    assert(strs_v(out@) =~= spec_schema_statements());
    out
}


/// Where the provenance of a task is read from.
#[derive(Debug)]
pub enum ProvenanceSource {
    /// Projection is off: the provenance is empty.
    Disabled,
    /// The graph database in this directory.
    GraphDatabase(String),
    /// The task's records, turned into a graph directly.
    Snapshot,
}

/// The text of an optional string.
pub open spec fn opt_text(o: Option<String>) -> Option<Seq<char>> {
    match o {
        Some(d) => Some(d@),
        None => None,
    }
}

/// Where to project a task: nowhere when projection is off (`Ok(None)`), the
/// configured directory when there is one, and `InvalidConfig` when
/// projection is on without a directory.
pub open spec fn spec_projection_target(enabled: bool, dir: Option<Seq<char>>) -> Result<Option<Seq<char>>, ErrorV> {
    if !enabled {
        Ok(None)
    } else {
        match dir {
            Some(d) => Ok(Some(d)),
            None => Err(
                ErrorV::InvalidConfig {
                    key: "LLMPARTY_GRAPH_DB_DIR"@,
                    message: "graph projection is enabled but no database directory is configured"@,
                },
            ),
        }
    }
}

/// The value of a projection target.
pub open spec fn target_v(r: Result<Option<String>, Error>) -> Result<Option<Seq<char>>, ErrorV> {
    match r {
        Ok(o) => Ok(opt_text(o)),
        Err(e) => Err(e@),
    }
}

/// The value of a provenance source: `None` when disabled, `Some(None)` for
/// the task's records, `Some(Some(dir))` for the graph database in `dir`.
pub open spec fn source_v(s: ProvenanceSource) -> Option<Option<Seq<char>>> {
    match s {
        ProvenanceSource::Disabled => None,
        ProvenanceSource::GraphDatabase(d) => Some(Some(d@)),
        ProvenanceSource::Snapshot => Some(None),
    }
}

/// Where the provenance of a task is read from: nothing when projection is
/// off, the graph database when a directory is configured, the task's records
/// otherwise.
pub open spec fn spec_provenance_source(enabled: bool, dir: Option<Seq<char>>) -> Option<Option<Seq<char>>> {
    if !enabled {
        None
    } else {
        Some(dir)
    }
}

/// Projects tasks into the provenance graph and reads it back.
pub struct GraphProjectionService<P> {
    pool: P,
    config: GraphRuntimeConfig,
}

impl<P> GraphProjectionService<P> {
    /// The pool the service reads tasks from.
    pub closed spec fn spec_pool(&self) -> P {
        self.pool
    }

    /// Whether projection is enabled.
    pub closed spec fn spec_enabled(&self) -> bool {
        self.config.enabled
    }

    /// The configured database directory.
    pub closed spec fn spec_db_dir(&self) -> Option<Seq<char>> {
        opt_text(self.config.db_dir)
    }

    /// A service reading `pool` under `config`.
    pub fn new(pool: P, config: GraphRuntimeConfig) -> (r: Self)
        ensures
            r.spec_pool() == pool,
            r.spec_enabled() == config.enabled,
            r.spec_db_dir() == opt_text(config.db_dir),
    {
        Self { pool, config }
    }

    /// The pool the service reads tasks from.
    pub fn pool(&self) -> (r: &P)
        ensures
            *r == self.spec_pool(),
    {
        &self.pool
    }

    /// Where to project a task (see `spec_projection_target`).
    pub fn projection_target(&self) -> (r: Result<Option<String>, Error>)
        ensures
            target_v(r) == spec_projection_target(self.spec_enabled(), self.spec_db_dir()),
    {
        if !self.config.enabled {
            return Ok(None);
        }
        match &self.config.db_dir {
            Some(d) => Ok(Some(d.clone())),
            None => Err(
                Error::InvalidConfig {
                    key: String::from_str("LLMPARTY_GRAPH_DB_DIR"),
                    message: String::from_str(
                        "graph projection is enabled but no database directory is configured",
                    ),
                },
            ),
        }
    }

    /// Where the provenance of a task is read from (see
    /// `spec_provenance_source`).
    pub fn provenance_source(&self) -> (r: ProvenanceSource)
        ensures
            source_v(r) == spec_provenance_source(self.spec_enabled(), self.spec_db_dir()),
    {
        if !self.config.enabled {
            return ProvenanceSource::Disabled;
        }
        match &self.config.db_dir {
            Some(d) => ProvenanceSource::GraphDatabase(d.clone()),
            None => ProvenanceSource::Snapshot,
        }
    }
}

} // verus!
