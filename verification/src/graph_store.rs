//! The writes that the projection sends to the graph database, the Cypher text
//! of each, and what the graph holds once they have run.
use vstd::prelude::*;
use vstd::string::*;

use crate::graph::{cypher_string, props_v, spec_cypher_string};

verus! {

/// A node named in a statement: the variable the statement binds it to, its
/// node table, the name of the table's primary key, and the key.
pub struct NodeRef {
    pub var: Seq<char>,
    pub label: Seq<char>,
    pub key: Seq<char>,
    pub id: Seq<char>,
}

/// One write: a node merged on its primary key whose listed properties are
/// then set, or a relation merged between two nodes matched by their keys.
pub enum GraphWrite {
    Node { node: NodeRef, props: Seq<(Seq<char>, Seq<char>)> },
    Edge { kind: Seq<char>, from: NodeRef, to: NodeRef },
}

pub open spec fn node_ref(var: Seq<char>, label: Seq<char>, key: Seq<char>, id: Seq<char>) -> NodeRef {
    NodeRef { var, label, key, id }
}

pub open spec fn node_write(node: NodeRef, props: Seq<(Seq<char>, Seq<char>)>) -> GraphWrite {
    GraphWrite::Node { node, props }
}

pub open spec fn edge_write(kind: Seq<char>, from: NodeRef, to: NodeRef) -> GraphWrite {
    GraphWrite::Edge { kind, from, to }
}

/// `(var:Label {key: 'id'})`
pub open spec fn node_pattern(n: NodeRef) -> Seq<char> {
    "("@ + n.var + ":"@ + n.label + " {"@ + n.key + ": "@ + spec_cypher_string(n.id) + "})"@
}

/// `var.name = 'value'`
pub open spec fn set_item(var: Seq<char>, p: (Seq<char>, Seq<char>)) -> Seq<char> {
    var + "."@ + p.0 + " = "@ + spec_cypher_string(p.1)
}

/// The assignments of a `SET` clause, separated by `, `.
pub open spec fn set_list(var: Seq<char>, ps: Seq<(Seq<char>, Seq<char>)>) -> Seq<char>
    decreases ps.len(),
{
    if ps.len() == 0 {
        Seq::empty()
    } else if ps.len() == 1 {
        set_item(var, ps[0])
    } else {
        set_list(var, ps.drop_last()) + ", "@ + set_item(var, ps.last())
    }
}

/// The Cypher statement of a write.
pub open spec fn render(w: GraphWrite) -> Seq<char> {
    match w {
        GraphWrite::Node { node, props } => "MERGE "@ + node_pattern(node) + " SET "@ + set_list(
            node.var,
            props,
        ) + ";"@,
        GraphWrite::Edge { kind, from, to } => "MATCH "@ + node_pattern(from) + ", "@ + node_pattern(to)
            + " MERGE ("@ + from.var + ")-[:"@ + kind + "]->("@ + to.var + ");"@,
    }
}

fn pattern_text(var: &str, label: &str, key: &str, id: &str) -> (r: String)
    ensures
        r@ == node_pattern(node_ref(var@, label@, key@, id@)),
{
    let mut out = String::from_str("(");
    out.append(var);
    out.append(":");
    out.append(label);
    out.append(" {");
    out.append(key);
    out.append(": ");
    let q = cypher_string(id);
    out.append(q.as_str());
    out.append("})");
    out
}

fn set_list_text(var: &str, props: &Vec<(String, String)>) -> (r: String)
    ensures
        r@ == set_list(var@, props_v(props@)),
{
    let ghost ps = props_v(props@);
    let mut out = String::new();
    let mut i: usize = 0;
    assert(ps.take(0) =~= Seq::<(Seq<char>, Seq<char>)>::empty());
    while i < props.len()
        invariant
            i <= props.len(),
            ps == props_v(props@),
            out@ == set_list(var@, ps.take(i as int)),
        decreases props.len() - i,
    {
        assert(ps.take(i + 1).drop_last() =~= ps.take(i as int));
        assert(ps[i as int] == (props@[i as int].0@, props@[i as int].1@));
        let q = cypher_string(props[i].1.as_str());
        if i == 0 {
            out = String::from_str(var);
        } else {
            out.append(", ");
            out.append(var);
        }
        out.append(".");
        out.append(props[i].0.as_str());
        out.append(" = ");
        out.append(q.as_str());
        assert(out@ =~= set_list(var@, ps.take(i + 1)));
        i += 1;
    }
    assert(ps.take(props.len() as int) =~= ps);
    out
}

/// The statement that merges node `var:label {key: id}` and sets `props`.
pub(crate) fn node_statement(
    var: &str,
    label: &str,
    key: &str,
    id: &str,
    props: &Vec<(String, String)>,
) -> (r: String)
    ensures
        r@ == render(node_write(node_ref(var@, label@, key@, id@), props_v(props@))),
{
    let mut out = String::from_str("MERGE ");
    out.append(pattern_text(var, label, key, id).as_str());
    out.append(" SET ");
    out.append(set_list_text(var, props).as_str());
    out.append(";");
    out
}

/// The statement that matches two nodes and merges a relation of `kind`
/// between them.
pub(crate) fn edge_statement(
    kind: &str,
    from_var: &str,
    from_label: &str,
    from_key: &str,
    from_id: &str,
    to_var: &str,
    to_label: &str,
    to_key: &str,
    to_id: &str,
) -> (r: String)
    ensures
        r@ == render(
            edge_write(
                kind@,
                node_ref(from_var@, from_label@, from_key@, from_id@),
                node_ref(to_var@, to_label@, to_key@, to_id@),
            ),
        ),
{
    let mut out = String::from_str("MATCH ");
    out.append(pattern_text(from_var, from_label, from_key, from_id).as_str());
    out.append(", ");
    out.append(pattern_text(to_var, to_label, to_key, to_id).as_str());
    out.append(" MERGE (");
    out.append(from_var);
    out.append(")-[:");
    out.append(kind);
    out.append("]->(");
    out.append(to_var);
    out.append(");");
    out
}

/// The contents of a graph: its nodes, each by table and key; the value of
/// each property that has been set, by table, key and property name; and its
/// relations, by kind and the two nodes they join.
pub struct GraphState {
    pub nodes: Set<(Seq<char>, Seq<char>)>,
    pub props: Map<(Seq<char>, Seq<char>, Seq<char>), Seq<char>>,
    pub edges: Set<(Seq<char>, (Seq<char>, Seq<char>), (Seq<char>, Seq<char>))>,
}

/// A node's table and key.
pub open spec fn node_key(n: NodeRef) -> (Seq<char>, Seq<char>) {
    (n.label, n.id)
}

/// The property cells that setting `ps` on node `(label, id)` writes; a later
/// assignment to the same name wins.
pub open spec fn prop_cells(label: Seq<char>, id: Seq<char>, ps: Seq<(Seq<char>, Seq<char>)>) -> Map<
    (Seq<char>, Seq<char>, Seq<char>),
    Seq<char>,
>
    decreases ps.len(),
{
    if ps.len() == 0 {
        Map::empty()
    } else {
        prop_cells(label, id, ps.drop_last()).insert((label, id, ps.last().0), ps.last().1)
    }
}

/// What one write does: `MERGE` on a primary key creates the node when it is
/// missing and `SET` overwrites the listed properties; a relation is merged
/// only when both of its nodes are matched, and never twice.
pub open spec fn apply_write(g: GraphState, w: GraphWrite) -> GraphState {
    match w {
        GraphWrite::Node { node, props } => GraphState {
            nodes: g.nodes.insert(node_key(node)),
            props: g.props.union_prefer_right(prop_cells(node.label, node.id, props)),
            edges: g.edges,
        },
        GraphWrite::Edge { kind, from, to } => {
            if g.nodes.contains(node_key(from)) && g.nodes.contains(node_key(to)) {
                GraphState {
                    nodes: g.nodes,
                    props: g.props,
                    edges: g.edges.insert((kind, node_key(from), node_key(to))),
                }
            } else {
                g
            }
        },
    }
}

/// The graph after running `ws` in order on `g`.
pub open spec fn run_writes(g: GraphState, ws: Seq<GraphWrite>) -> GraphState
    decreases ws.len(),
{
    if ws.len() == 0 {
        g
    } else {
        apply_write(run_writes(g, ws.drop_last()), ws.last())
    }
}

/// The nodes that `ws` merges.
pub open spec fn written_nodes(ws: Seq<GraphWrite>) -> Set<(Seq<char>, Seq<char>)>
    decreases ws.len(),
{
    if ws.len() == 0 {
        Set::empty()
    } else {
        match ws.last() {
            GraphWrite::Node { node, .. } => written_nodes(ws.drop_last()).insert(node_key(node)),
            GraphWrite::Edge { .. } => written_nodes(ws.drop_last()),
        }
    }
}

/// The property cells that `ws` sets, each to its last value.
pub open spec fn written_cells(ws: Seq<GraphWrite>) -> Map<(Seq<char>, Seq<char>, Seq<char>), Seq<char>>
    decreases ws.len(),
{
    if ws.len() == 0 {
        Map::empty()
    } else {
        match ws.last() {
            GraphWrite::Node { node, props } => written_cells(ws.drop_last()).union_prefer_right(
                prop_cells(node.label, node.id, props),
            ),
            GraphWrite::Edge { .. } => written_cells(ws.drop_last()),
        }
    }
}

/// The relations that `ws` merges.
pub open spec fn written_edges(ws: Seq<GraphWrite>) -> Set<
    (Seq<char>, (Seq<char>, Seq<char>), (Seq<char>, Seq<char>)),
>
    decreases ws.len(),
{
    if ws.len() == 0 {
        Set::empty()
    } else {
        match ws.last() {
            GraphWrite::Node { .. } => written_edges(ws.drop_last()),
            GraphWrite::Edge { kind, from, to } => written_edges(ws.drop_last()).insert(
                (kind, node_key(from), node_key(to)),
            ),
        }
    }
}

/// Each relation of `ws` joins nodes that are in `known` or merged by an
/// earlier write of `ws`.
pub open spec fn endpoints_written(known: Set<(Seq<char>, Seq<char>)>, ws: Seq<GraphWrite>) -> bool
    decreases ws.len(),
{
    if ws.len() == 0 {
        true
    } else {
        endpoints_written(known, ws.drop_last()) && match ws.last() {
            GraphWrite::Node { .. } => true,
            GraphWrite::Edge { kind, from, to } => {
                &&& (known + written_nodes(ws.drop_last())).contains(node_key(from))
                &&& (known + written_nodes(ws.drop_last())).contains(node_key(to))
            },
        }
    }
}

/// `g` with everything `ws` writes added.
pub open spec fn with_writes(g: GraphState, ws: Seq<GraphWrite>) -> GraphState {
    GraphState {
        nodes: g.nodes + written_nodes(ws),
        props: g.props.union_prefer_right(written_cells(ws)),
        edges: g.edges + written_edges(ws),
    }
}

/// When every relation's nodes exist by the time it is merged, running the
/// writes adds exactly what they write.
pub proof fn lemma_run_writes(g: GraphState, ws: Seq<GraphWrite>)
    requires
        endpoints_written(g.nodes, ws),
    ensures
        run_writes(g, ws) == with_writes(g, ws),
    decreases ws.len(),
{
    if ws.len() == 0 {
        assert(g.nodes + written_nodes(ws) =~= g.nodes);
        assert(g.props.union_prefer_right(written_cells(ws)) =~= g.props);
        assert(g.edges + written_edges(ws) =~= g.edges);
    } else {
        let front = ws.drop_last();
        lemma_run_writes(g, front);
        let prev = with_writes(g, front);
        match ws.last() {
            GraphWrite::Node { node, props } => {
                let cells = prop_cells(node.label, node.id, props);
                assert(prev.nodes.insert(node_key(node)) =~= g.nodes + written_nodes(ws));
                assert(prev.props.union_prefer_right(cells) =~= g.props.union_prefer_right(
                    written_cells(ws),
                ));
                assert(prev.edges =~= g.edges + written_edges(ws));
            },
            GraphWrite::Edge { kind, from, to } => {
                assert(prev.nodes =~= g.nodes + written_nodes(ws));
                assert(prev.props =~= g.props.union_prefer_right(written_cells(ws)));
                assert(prev.edges.insert((kind, node_key(from), node_key(to))) =~= g.edges
                    + written_edges(ws));
            },
        }
    }
}

/// Knowing more nodes in advance keeps every relation's nodes known.
pub proof fn lemma_endpoints_written_more(
    known: Set<(Seq<char>, Seq<char>)>,
    more: Set<(Seq<char>, Seq<char>)>,
    ws: Seq<GraphWrite>,
)
    requires
        endpoints_written(known, ws),
        known.subset_of(more),
    ensures
        endpoints_written(more, ws),
    decreases ws.len(),
{
    if ws.len() > 0 {
        lemma_endpoints_written_more(known, more, ws.drop_last());
    }
}

/// Running writes whose relations join nodes that exist by then a second time
/// leaves the graph as it was after the first time.
pub proof fn lemma_run_writes_twice(g: GraphState, ws: Seq<GraphWrite>)
    requires
        endpoints_written(g.nodes, ws),
    ensures
        run_writes(run_writes(g, ws), ws) == run_writes(g, ws),
{
    lemma_run_writes(g, ws);
    let g1 = run_writes(g, ws);
    lemma_endpoints_written_more(g.nodes, g1.nodes, ws);
    lemma_run_writes(g1, ws);
    assert(g1.nodes + written_nodes(ws) =~= g1.nodes);
    assert(g1.props.union_prefer_right(written_cells(ws)) =~= g1.props);
    assert(g1.edges + written_edges(ws) =~= g1.edges);
}

/// The nodes merged by two runs of writes one after the other.
pub proof fn lemma_written_nodes_concat(a: Seq<GraphWrite>, b: Seq<GraphWrite>)
    ensures
        written_nodes(a + b) == written_nodes(a) + written_nodes(b),
    decreases b.len(),
{
    if b.len() == 0 {
        assert(a + b =~= a);
        assert(written_nodes(a) + written_nodes(b) =~= written_nodes(a));
    } else {
        assert((a + b).drop_last() =~= a + b.drop_last());
        assert((a + b).last() == b.last());
        lemma_written_nodes_concat(a, b.drop_last());
        assert(written_nodes(a + b) =~= written_nodes(a) + written_nodes(b));
    }
}

/// Relations stay joined to known nodes across two runs of writes when the
/// second run may also rely on the nodes the first one merges.
pub proof fn lemma_endpoints_written_concat(
    known: Set<(Seq<char>, Seq<char>)>,
    a: Seq<GraphWrite>,
    b: Seq<GraphWrite>,
)
    requires
        endpoints_written(known, a),
        endpoints_written(known + written_nodes(a), b),
    ensures
        endpoints_written(known, a + b),
    decreases b.len(),
{
    if b.len() == 0 {
        assert(a + b =~= a);
    } else {
        let front = b.drop_last();
        assert((a + b).drop_last() =~= a + front);
        assert((a + b).last() == b.last());
        lemma_endpoints_written_concat(known, a, front);
        lemma_written_nodes_concat(a, front);
        assert(known + written_nodes(a) + written_nodes(front) =~= known + written_nodes(a + front));
    }
}

/// The nodes `ws` merges, in order, each as (key, table, properties set).
pub open spec fn node_entries(ws: Seq<GraphWrite>) -> Seq<(Seq<char>, Seq<char>, Seq<(Seq<char>, Seq<char>)>)>
    decreases ws.len(),
{
    if ws.len() == 0 {
        Seq::empty()
    } else {
        match ws.last() {
            GraphWrite::Node { node, props } => node_entries(ws.drop_last()).push((node.id, node.label, props)),
            GraphWrite::Edge { .. } => node_entries(ws.drop_last()),
        }
    }
}

/// The relations `ws` merges, in order.
pub open spec fn edge_entries(ws: Seq<GraphWrite>) -> Seq<(Seq<char>, (Seq<char>, Seq<char>), (Seq<char>, Seq<char>))>
    decreases ws.len(),
{
    if ws.len() == 0 {
        Seq::empty()
    } else {
        match ws.last() {
            GraphWrite::Node { .. } => edge_entries(ws.drop_last()),
            GraphWrite::Edge { kind, from, to } => edge_entries(ws.drop_last()).push(
                (kind, node_key(from), node_key(to)),
            ),
        }
    }
}

/// Node and relation entries of two runs of writes one after the other.
pub proof fn lemma_entries_concat(a: Seq<GraphWrite>, b: Seq<GraphWrite>)
    ensures
        node_entries(a + b) == node_entries(a) + node_entries(b),
        edge_entries(a + b) == edge_entries(a) + edge_entries(b),
    decreases b.len(),
{
    if b.len() == 0 {
        assert(a + b =~= a);
        assert(node_entries(a) + node_entries(b) =~= node_entries(a));
        assert(edge_entries(a) + edge_entries(b) =~= edge_entries(a));
    } else {
        assert((a + b).drop_last() =~= a + b.drop_last());
        assert((a + b).last() == b.last());
        lemma_entries_concat(a, b.drop_last());
        assert(node_entries(a + b) =~= node_entries(a) + node_entries(b));
        assert(edge_entries(a + b) =~= edge_entries(a) + edge_entries(b));
    }
}

/// The merged nodes and relations are those of the entries.
pub proof fn lemma_written_entries(ws: Seq<GraphWrite>)
    ensures
        forall|k: (Seq<char>, Seq<char>)| #[trigger] written_nodes(ws).contains(k) <==> exists|i: int|
            0 <= i < node_entries(ws).len() && (node_entries(ws)[i].1, node_entries(ws)[i].0) == k,
        forall|e| #[trigger] written_edges(ws).contains(e) <==> edge_entries(ws).contains(e),
    decreases ws.len(),
{
    if ws.len() > 0 {
        let front = ws.drop_last();
        lemma_written_entries(front);
        let nf = node_entries(front);
        match ws.last() {
            GraphWrite::Node { node, props } => {
                let ne = node_entries(ws);
                assert(ne == nf.push((node.id, node.label, props)));
                assert(written_nodes(ws) == written_nodes(front).insert(node_key(node)));
                assert(written_edges(ws) == written_edges(front));
                assert(edge_entries(ws) == edge_entries(front));
                assert forall|k: (Seq<char>, Seq<char>)| #[trigger] written_nodes(ws).contains(k) <==> exists|i: int|
                    0 <= i < ne.len() && (ne[i].1, ne[i].0) == k by {
                    if written_nodes(ws).contains(k) {
                        if k == node_key(node) {
                            assert((ne[nf.len() as int].1, ne[nf.len() as int].0) == k);
                        } else {
                            assert(written_nodes(front).contains(k));
                            let i = choose|i: int| 0 <= i < nf.len() && (nf[i].1, nf[i].0) == k;
                            assert(ne[i] == nf[i]);
                        }
                    }
                    if exists|i: int| 0 <= i < ne.len() && (ne[i].1, ne[i].0) == k {
                        let i = choose|i: int| 0 <= i < ne.len() && (ne[i].1, ne[i].0) == k;
                        if i < nf.len() {
                            assert(ne[i] == nf[i]);
                            assert(written_nodes(front).contains(k));
                        }
                    }
                }
            },
            GraphWrite::Edge { kind, from, to } => {
                let ee = edge_entries(ws);
                assert(node_entries(ws) == nf);
                assert(written_nodes(ws) == written_nodes(front));
                assert(ee == edge_entries(front).push((kind, node_key(from), node_key(to))));
                assert(written_edges(ws) == written_edges(front).insert((kind, node_key(from), node_key(to))));
                assert forall|e| #[trigger] written_edges(ws).contains(e) <==> ee.contains(e) by {
                    if written_edges(ws).contains(e) {
                        if e == (kind, node_key(from), node_key(to)) {
                            assert(ee[ee.len() - 1] == e);
                        } else {
                            let i = choose|i: int| 0 <= i < edge_entries(front).len() && edge_entries(front)[i] == e;
                            assert(ee[i] == e);
                        }
                    }
                    if ee.contains(e) {
                        let i = choose|i: int| 0 <= i < ee.len() && ee[i] == e;
                        if i < ee.len() - 1 {
                            assert(edge_entries(front)[i] == e);
                        }
                    }
                }
            },
        }
    }
}

/// The cells that setting properties on a node writes belong to that node.
pub proof fn lemma_prop_cells_owner(label: Seq<char>, id: Seq<char>, ps: Seq<(Seq<char>, Seq<char>)>)
    ensures
        forall|c: (Seq<char>, Seq<char>, Seq<char>)| #[trigger] prop_cells(label, id, ps).contains_key(c) ==> c.0 == label
            && c.1 == id,
    decreases ps.len(),
{
    if ps.len() > 0 {
        let front = prop_cells(label, id, ps.drop_last());
        lemma_prop_cells_owner(label, id, ps.drop_last());
        assert(prop_cells(label, id, ps) == front.insert((label, id, ps.last().0), ps.last().1));
        assert forall|c: (Seq<char>, Seq<char>, Seq<char>)| #[trigger] prop_cells(label, id, ps).contains_key(c) implies c.0
            == label && c.1 == id by {
            if c != (label, id, ps.last().0) {
                assert(front.contains_key(c));
            }
        }
    }
}

/// No two entries name the same node.
pub open spec fn entry_keys_distinct(ns: Seq<(Seq<char>, Seq<char>, Seq<(Seq<char>, Seq<char>)>)>) -> bool {
    forall|i: int, j: int|
        0 <= i < j < ns.len() ==> !(#[trigger] ns[i].0 == #[trigger] ns[j].0 && ns[i].1 == ns[j].1)
}

/// Two maps of cells agree on the cells of node `(label, id)`.
pub open spec fn agree_on(
    m1: Map<(Seq<char>, Seq<char>, Seq<char>), Seq<char>>,
    m2: Map<(Seq<char>, Seq<char>, Seq<char>), Seq<char>>,
    label: Seq<char>,
    id: Seq<char>,
) -> bool {
    forall|k: Seq<char>|
        #![trigger m1.contains_key((label, id, k))]
        #![trigger m2.contains_key((label, id, k))]
        m1.contains_key((label, id, k)) == m2.contains_key((label, id, k)) && (m2.contains_key((label, id, k))
            ==> m1[(label, id, k)] == m2[(label, id, k)])
}

/// When each node is merged once, the cells of a node after the writes are
/// those its one write sets.
pub proof fn lemma_cells_of_entry(ws: Seq<GraphWrite>, i: int)
    requires
        entry_keys_distinct(node_entries(ws)),
        0 <= i < node_entries(ws).len(),
    ensures
        agree_on(
            written_cells(ws),
            prop_cells(node_entries(ws)[i].1, node_entries(ws)[i].0, node_entries(ws)[i].2),
            node_entries(ws)[i].1,
            node_entries(ws)[i].0,
        ),
    decreases ws.len(),
{
    let ne = node_entries(ws);
    let n = ne[i];
    let front = ws.drop_last();
    let nf = node_entries(front);
    match ws.last() {
        GraphWrite::Node { node, props } => {
            let pc = prop_cells(node.label, node.id, props);
            lemma_prop_cells_owner(node.label, node.id, props);
            if i == nf.len() {
                assert forall|k: Seq<char>| #![trigger written_cells(ws).contains_key((n.1, n.0, k))] {
                    let c = (n.1, n.0, k);
                    &&& written_cells(ws).contains_key(c) == prop_cells(n.1, n.0, n.2).contains_key(c)
                    &&& prop_cells(n.1, n.0, n.2).contains_key(c) ==> written_cells(ws)[c] == prop_cells(n.1, n.0, n.2)[c]
                } by {
                    let c = (n.1, n.0, k);
                    if written_cells(front).contains_key(c) && !pc.contains_key(c) {
                        lemma_cells_owner(front, c);
                        let j = choose|j: int| 0 <= j < nf.len() && nf[j].1 == c.0 && nf[j].0 == c.1;
                        assert(ne[j] == nf[j]);
                        assert(false);
                    }
                }
            } else {
                assert(ne[i] == nf[i]);
                assert(entry_keys_distinct(nf)) by {
                    assert forall|a: int, b: int| 0 <= a < b < nf.len() implies !(#[trigger] nf[a].0 == #[trigger] nf[b].0
                        && nf[a].1 == nf[b].1) by {
                        assert(ne[a] == nf[a]);
                        assert(ne[b] == nf[b]);
                    }
                }
                lemma_cells_of_entry(front, i);
                assert(ne[nf.len() as int] == (node.id, node.label, props));
                assert forall|k: Seq<char>| #![trigger written_cells(ws).contains_key((n.1, n.0, k))] {
                    let c = (n.1, n.0, k);
                    &&& written_cells(ws).contains_key(c) == prop_cells(n.1, n.0, n.2).contains_key(c)
                    &&& prop_cells(n.1, n.0, n.2).contains_key(c) ==> written_cells(ws)[c] == prop_cells(n.1, n.0, n.2)[c]
                } by {
                    let c = (n.1, n.0, k);
                    assert(nf[i] == n);
                    assert(!(ne[i].0 == ne[nf.len() as int].0 && ne[i].1 == ne[nf.len() as int].1));
                    if pc.contains_key(c) {
                        assert(c.0 == node.label && c.1 == node.id);
                    }
                    assert(!pc.contains_key(c));
                }
            }
        },
        GraphWrite::Edge { .. } => {
            lemma_cells_of_entry(front, i);
        },
    }
}

/// A cell that the writes set belongs to a node they merge.
pub proof fn lemma_cells_owner(ws: Seq<GraphWrite>, c: (Seq<char>, Seq<char>, Seq<char>))
    requires
        written_cells(ws).contains_key(c),
    ensures
        exists|j: int| 0 <= j < node_entries(ws).len() && node_entries(ws)[j].1 == c.0 && node_entries(ws)[j].0 == c.1,
    decreases ws.len(),
{
    let front = ws.drop_last();
    let nf = node_entries(front);
    let ne = node_entries(ws);
    match ws.last() {
        GraphWrite::Node { node, props } => {
            lemma_prop_cells_owner(node.label, node.id, props);
            if prop_cells(node.label, node.id, props).contains_key(c) {
                assert(ne[nf.len() as int].1 == c.0 && ne[nf.len() as int].0 == c.1);
            } else {
                lemma_cells_owner(front, c);
                let j = choose|j: int| 0 <= j < nf.len() && nf[j].1 == c.0 && nf[j].0 == c.1;
                assert(ne[j] == nf[j]);
            }
        },
        GraphWrite::Edge { .. } => {
            lemma_cells_owner(front, c);
        },
    }
}

} // verus!
