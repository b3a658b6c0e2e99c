//! The flow graph: which nodes start a flow and which nodes follow a
//! completed node.
use vstd::prelude::*;
use crate::text::{chars_eq, chars_of, contains_chars, contains_seq, i64_string, int_text, trim, trim_chars};

verus! {

/// A vertex of a flow definition.
pub struct Vertex {
    pub id: String,
    /// The vertex kind: `start`, `input`, `terminate`, `over`, `end`, or a task.
    pub vtype: String,
    pub value: String,
    pub prompt: Option<String>,
    pub agent: Option<i64>,
    /// 1: runs when one predecessor completes; 100: waits for all predecessors.
    pub degree: Option<i64>,
}

/// A directed edge of a flow definition, labelled with a decision name.
pub struct Edge {
    pub src: String,
    pub target: String,
    pub value: String,
}

/// A flow definition: its vertices and edges.
pub struct FlowConfigModel {
    pub vertices: Vec<Vertex>,
    pub edges: Vec<Edge>,
}

/// The state of a node of a running flow.
#[derive(PartialEq, Eq, Structural, Clone, Copy, Debug)]
pub enum NodeStatus {
    Running,
    RunningOver,
    Stop,
}

/// A node of a running flow.
pub struct FlowRuntimeNode {
    pub id: i64,
    pub flow_runtime_id: i64,
    pub flow_id: i64,
    pub flow_node_id: String,
    pub action_id: i64,
    pub action: String,
    pub prompt: Option<String>,
    pub status: NodeStatus,
    pub next_choice: Option<String>,
    /// Creation time, in seconds since the epoch.
    pub created_at: i64,
    /// 1 when the node waits for a person's input.
    pub human: i32,
}

/// What is needed to create a runtime node.
pub struct FlowRuntimeNodeCreate {
    pub flow_node_id: String,
    pub action_id: i64,
    pub action: String,
    pub prompt: Option<String>,
    pub status: NodeStatus,
    pub next_choice: Option<String>,
    pub human: i32,
}

pub open spec fn opt_str(o: Option<&str>) -> Option<Seq<char>> {
    match o {
        Some(c) => Some(c@),
        None => None,
    }
}

pub open spec fn opt_view(o: Option<String>) -> Option<Seq<char>> {
    match o {
        Some(s) => Some(s@),
        None => None,
    }
}

/// Index of the first vertex whose id is `id`, or -1.
pub open spec fn find_vertex(vs: Seq<Vertex>, id: Seq<char>) -> int
    decreases vs.len(),
{
    if vs.len() == 0 {
        -1
    } else {
        let r = find_vertex(vs.drop_last(), id);
        if r >= 0 {
            r
        } else if vs.last().id@ == id {
            vs.len() - 1
        } else {
            -1
        }
    }
}

/// The human flag of a node made from vertex `v`.
pub open spec fn human_flag(v: Vertex) -> i32 {
    if v.vtype@ == "input"@ {
        1
    } else {
        0
    }
}

/// A vertex that ends the flow when reached.
pub open spec fn is_terminal(v: Vertex) -> bool {
    v.vtype@ == "terminate"@ || v.vtype@ == "over"@
}

/// Every predecessor of vertex `v` has a node that ran to completion.
pub open spec fn all_predecessors_done(
    cfg_edges: Seq<Edge>,
    v: Vertex,
    existing: Seq<FlowRuntimeNode>,
) -> bool {
    forall|k: int|
        0 <= k < cfg_edges.len() && cfg_edges[k].target@ == v.id@ ==> exists|j: int|
            0 <= j < existing.len() && #[trigger] existing[j].flow_node_id@ == cfg_edges[k].src@
                && existing[j].status == NodeStatus::RunningOver
}

/// Whether reaching vertex `v` adds a node.
pub open spec fn admits(cfg_edges: Seq<Edge>, v: Vertex, existing: Seq<FlowRuntimeNode>) -> bool {
    let d = match v.degree {
        Some(d) => d,
        None => 1,
    };
    d == 1 || (d == 100 && all_predecessors_done(cfg_edges, v, existing))
}

/// Walking the chosen edges in order: the vertices whose nodes are added, or
/// `None` once an edge leads to a terminal vertex.
pub open spec fn next_vertices(
    vs: Seq<Vertex>,
    cfg_edges: Seq<Edge>,
    existing: Seq<FlowRuntimeNode>,
    chosen: Seq<Edge>,
) -> Option<Seq<int>>
    decreases chosen.len(),
{
    if chosen.len() == 0 {
        Some(Seq::<int>::empty())
    } else {
        match next_vertices(vs, cfg_edges, existing, chosen.drop_last()) {
            None => None,
            Some(r) => {
                let vi = find_vertex(vs, chosen.last().target@);
                if vi < 0 {
                    Some(r)
                } else if is_terminal(vs[vi]) {
                    None
                } else if admits(cfg_edges, vs[vi], existing) {
                    Some(r.push(vi))
                } else {
                    Some(r)
                }
            },
        }
    }
}

/// The edges that leave node `src`.
pub open spec fn edges_from(es: Seq<Edge>, src: Seq<char>) -> Seq<Edge>
    decreases es.len(),
{
    if es.len() == 0 {
        es
    } else if es.last().src@ == src {
        edges_from(es.drop_last(), src).push(es.last())
    } else {
        edges_from(es.drop_last(), src)
    }
}

/// The edges of `es` whose label names the choice `ch`.
pub open spec fn edges_by_label(es: Seq<Edge>, ch: Seq<char>) -> Seq<Edge>
    decreases es.len(),
{
    if es.len() == 0 {
        es
    } else if edge_matches_choice(es.last(), ch) {
        edges_by_label(es.drop_last(), ch).push(es.last())
    } else {
        edges_by_label(es.drop_last(), ch)
    }
}

/// The edges of `es` that pass the vertex fallback test for the choice `ch`.
pub open spec fn edges_by_vertex(vs: Seq<Vertex>, es: Seq<Edge>, ch: Seq<char>) -> Seq<Edge>
    decreases es.len(),
{
    if es.len() == 0 {
        es
    } else if edge_matches_vertex(vs, es.last(), ch) {
        edges_by_vertex(vs, es.drop_last(), ch).push(es.last())
    } else {
        edges_by_vertex(vs, es.drop_last(), ch)
    }
}

/// An edge whose label names the choice `ch` (already trimmed).
pub open spec fn edge_matches_choice(e: Edge, ch: Seq<char>) -> bool {
    e.value@ == ch || trim(e.value@) == ch || contains_seq(ch, trim(e.value@))
}

/// The fallback test on an edge when no label names the choice: some vertex is
/// its target and carries the choice as value, or some vertex value occurs in
/// the choice.
pub open spec fn edge_matches_vertex(vs: Seq<Vertex>, e: Edge, ch: Seq<char>) -> bool {
    exists|i: int|
        0 <= i < vs.len() && ((#[trigger] vs[i].id@ == e.target@ && trim(vs[i].value@) == ch)
            || contains_seq(ch, trim(vs[i].value@)))
}

/// The edges followed out of a completed node, given the decision taken.
pub open spec fn chosen_edges(cfg: FlowConfigModel, src: Seq<char>, choice: Option<Seq<char>>) -> Seq<
    Edge,
> {
    let out = edges_from(cfg.edges@, src);
    match choice {
        None => out,
        Some(c) => {
            let ch = trim(c);
            let by_label = edges_by_label(out, ch);
            if by_label.len() > 0 {
                by_label
            } else {
                edges_by_vertex(cfg.vertices@, out, ch)
            }
        },
    }
}

proof fn lemma_edges_from_leave(es: Seq<Edge>, src: Seq<char>)
    ensures
        forall|k: int|
            0 <= k < edges_from(es, src).len() ==> (#[trigger] edges_from(es, src)[k]).src@ == src
                && es.contains(edges_from(es, src)[k]),
    decreases es.len(),
{
    if es.len() > 0 {
        let init = es.drop_last();
        lemma_edges_from_leave(init, src);
        assert forall|k: int| 0 <= k < edges_from(es, src).len() implies (#[trigger] edges_from(es, src)[k]).src@
            == src && es.contains(edges_from(es, src)[k]) by {
            let r = edges_from(init, src);
            if k < r.len() {
                assert(edges_from(es, src)[k] == r[k]);
                let j = choose|j: int| 0 <= j < init.len() && init[j] == r[k];
                assert(es[j] == init[j]);
            } else {
                assert(edges_from(es, src)[k] == es.last());
                assert(es[es.len() - 1] == es.last());
            }
        }
    }
}

proof fn lemma_by_label_within(es: Seq<Edge>, ch: Seq<char>)
    ensures
        forall|k: int| 0 <= k < edges_by_label(es, ch).len() ==> es.contains(#[trigger] edges_by_label(es, ch)[k]),
    decreases es.len(),
{
    if es.len() > 0 {
        let init = es.drop_last();
        lemma_by_label_within(init, ch);
        assert forall|k: int| 0 <= k < edges_by_label(es, ch).len() implies es.contains(
            #[trigger] edges_by_label(es, ch)[k],
        ) by {
            let r = edges_by_label(init, ch);
            if k < r.len() {
                assert(edges_by_label(es, ch)[k] == r[k]);
                let j = choose|j: int| 0 <= j < init.len() && init[j] == r[k];
                assert(es[j] == init[j]);
            } else {
                assert(es[es.len() - 1] == es.last());
            }
        }
    }
}

proof fn lemma_by_vertex_within(vs: Seq<Vertex>, es: Seq<Edge>, ch: Seq<char>)
    ensures
        forall|k: int|
            0 <= k < edges_by_vertex(vs, es, ch).len() ==> es.contains(#[trigger] edges_by_vertex(vs, es, ch)[k]),
    decreases es.len(),
{
    if es.len() > 0 {
        let init = es.drop_last();
        lemma_by_vertex_within(vs, init, ch);
        assert forall|k: int| 0 <= k < edges_by_vertex(vs, es, ch).len() implies es.contains(
            #[trigger] edges_by_vertex(vs, es, ch)[k],
        ) by {
            let r = edges_by_vertex(vs, init, ch);
            if k < r.len() {
                assert(edges_by_vertex(vs, es, ch)[k] == r[k]);
                let j = choose|j: int| 0 <= j < init.len() && init[j] == r[k];
                assert(es[j] == init[j]);
            } else {
                assert(es[es.len() - 1] == es.last());
            }
        }
    }
}

/// A decision only chooses among the edges that leave the completed node:
/// every edge followed is an edge of the flow whose source is that node;
/// without a decision, all of them are followed.
pub proof fn lemma_chosen_edges_leave_node(cfg: FlowConfigModel, src: Seq<char>, choice: Option<Seq<char>>)
    ensures
        forall|k: int|
            0 <= k < chosen_edges(cfg, src, choice).len() ==> (#[trigger] chosen_edges(cfg, src, choice)[k]).src@
                == src && cfg.edges@.contains(chosen_edges(cfg, src, choice)[k]),
        choice is None ==> chosen_edges(cfg, src, choice) == edges_from(cfg.edges@, src),
{
    let out = edges_from(cfg.edges@, src);
    lemma_edges_from_leave(cfg.edges@, src);
    match choice {
        None => {},
        Some(c) => {
            let ch = trim(c);
            lemma_by_label_within(out, ch);
            lemma_by_vertex_within(cfg.vertices@, out, ch);
            let chosen = chosen_edges(cfg, src, choice);
            assert forall|k: int| 0 <= k < chosen.len() implies (#[trigger] chosen[k]).src@ == src
                && cfg.edges@.contains(chosen[k]) by {
                assert(out.contains(chosen[k]));
                let j = choose|j: int| 0 <= j < out.len() && out[j] == chosen[k];
                assert(out[j].src@ == src && cfg.edges@.contains(out[j]));
            }
        },
    }
}

/// A runtime node made for vertex `v` after node `cur`.
pub open spec fn is_node_for(n: FlowRuntimeNode, cur: FlowRuntimeNode, v: Vertex) -> bool {
    &&& n.id == 0
    &&& n.flow_runtime_id == cur.flow_runtime_id
    &&& n.flow_id == cur.flow_id
    &&& n.flow_node_id@ == v.id@
    &&& n.action_id == (match v.agent {
        Some(a) => a,
        None => 0,
    })
    &&& n.action@ == v.value@
    &&& opt_view(n.prompt) == opt_view(v.prompt)
    &&& n.status == NodeStatus::Running
    &&& n.next_choice is None
    &&& n.created_at == cur.created_at
    &&& n.human == human_flag(v)
}

/// The vertices of `vs` that are heads of the flow, in order.
pub open spec fn head_vertices(cfg: FlowConfigModel, vs: Seq<Vertex>) -> Seq<Vertex>
    decreases vs.len(),
{
    if vs.len() == 0 {
        vs
    } else if is_head_id(cfg, vs.last().id@) {
        head_vertices(cfg, vs.drop_last()).push(vs.last())
    } else {
        head_vertices(cfg, vs.drop_last())
    }
}

/// A vertex is a head when an edge from a `start` vertex leads to it.
pub open spec fn is_head_id(cfg: FlowConfigModel, id: Seq<char>) -> bool {
    exists|k: int|
        0 <= k < cfg.edges@.len() && #[trigger] cfg.edges@[k].target@ == id && find_vertex(
            cfg.vertices@,
            cfg.edges@[k].src@,
        ) >= 0 && cfg.vertices@[find_vertex(cfg.vertices@, cfg.edges@[k].src@)].vtype@
            == "start"@ && find_vertex(cfg.vertices@, id) >= 0
}

proof fn lemma_find_vertex_range(vs: Seq<Vertex>, id: Seq<char>)
    ensures
        -1 <= find_vertex(vs, id) < vs.len(),
        find_vertex(vs, id) >= 0 ==> vs[find_vertex(vs, id)].id@ == id,
        find_vertex(vs, id) < 0 ==> forall|i: int| 0 <= i < vs.len() ==> vs[i].id@ != id,
    decreases vs.len(),
{
    if vs.len() > 0 {
        lemma_find_vertex_range(vs.drop_last(), id);
        let r = find_vertex(vs.drop_last(), id);
        if r >= 0 {
            assert(vs.drop_last()[r] == vs[r]);
        } else {
            assert forall|i: int| 0 <= i < vs.len() - 1 implies vs[i].id@ != id by {
                assert(vs.drop_last()[i] == vs[i]);
            }
        }
    }
}

proof fn lemma_find_vertex_prefix(vs: Seq<Vertex>, id: Seq<char>, i: int)
    requires
        0 <= i < vs.len(),
        vs[i].id@ == id,
        find_vertex(vs.take(i), id) < 0,
    ensures
        find_vertex(vs, id) == i,
    decreases vs.len() - i,
{
    if i == vs.len() - 1 {
        assert(vs.drop_last() =~= vs.take(i));
    } else {
        assert(vs.drop_last().take(i) =~= vs.take(i));
        lemma_find_vertex_prefix(vs.drop_last(), id, i);
    }
}

/// Walking the chosen edges ends the flow exactly when one of them leads to
/// a terminal vertex; otherwise each vertex whose node is added is a vertex
/// of the flow, not terminal, and the target of one of the chosen edges.
pub proof fn lemma_next_vertices_follow_edges(
    vs: Seq<Vertex>,
    cfg_edges: Seq<Edge>,
    existing: Seq<FlowRuntimeNode>,
    chosen: Seq<Edge>,
)
    ensures
        next_vertices(vs, cfg_edges, existing, chosen) is None <==> exists|k: int|
            0 <= k < chosen.len() && find_vertex(vs, (#[trigger] chosen[k]).target@) >= 0 && is_terminal(
                vs[find_vertex(vs, chosen[k].target@)],
            ),
        next_vertices(vs, cfg_edges, existing, chosen) matches Some(r) ==> forall|q: int|
            0 <= q < r.len() ==> 0 <= #[trigger] r[q] < vs.len() && !is_terminal(vs[r[q]]) && exists|k: int|
                0 <= k < chosen.len() && vs[r[q]].id@ == (#[trigger] chosen[k]).target@,
    decreases chosen.len(),
{
    if chosen.len() > 0 {
        let init = chosen.drop_last();
        let last = chosen.last();
        lemma_next_vertices_follow_edges(vs, cfg_edges, existing, init);
        lemma_find_vertex_range(vs, last.target@);
        let vi = find_vertex(vs, last.target@);
        let n = chosen.len() - 1;
        assert(chosen[n] == last);
        assert forall|k: int| 0 <= k < init.len() implies #[trigger] init[k] == chosen[k] by {}
        if next_vertices(vs, cfg_edges, existing, init) is None {
            let k = choose|k: int|
                0 <= k < init.len() && find_vertex(vs, (#[trigger] init[k]).target@) >= 0 && is_terminal(
                    vs[find_vertex(vs, init[k].target@)],
                );
            assert(chosen[k] == init[k]);
        } else {
            let r = next_vertices(vs, cfg_edges, existing, init)->0;
            if exists|k: int|
                0 <= k < chosen.len() && find_vertex(vs, (#[trigger] chosen[k]).target@) >= 0 && is_terminal(
                    vs[find_vertex(vs, chosen[k].target@)],
                ) {
                let k = choose|k: int|
                    0 <= k < chosen.len() && find_vertex(vs, (#[trigger] chosen[k]).target@) >= 0 && is_terminal(
                        vs[find_vertex(vs, chosen[k].target@)],
                    );
                if k < n {
                    assert(init[k] == chosen[k]);
                }
            }
            match next_vertices(vs, cfg_edges, existing, chosen) {
                Some(r2) => {
                    assert forall|q: int| 0 <= q < r2.len() implies 0 <= #[trigger] r2[q] < vs.len() && !is_terminal(
                        vs[r2[q]],
                    ) && exists|k: int| 0 <= k < chosen.len() && vs[r2[q]].id@ == (#[trigger] chosen[k]).target@ by {
                        if q < r.len() {
                            assert(r2[q] == r[q]);
                            let k = choose|k: int| 0 <= k < init.len() && vs[r[q]].id@ == (#[trigger] init[k]).target@;
                            assert(chosen[k] == init[k]);
                        } else {
                            assert(r2[q] == vi);
                            assert(vs[vi].id@ == chosen[n].target@);
                        }
                    }
                },
                None => {},
            }
        }
    }
}

/// Reaching a vertex of type `terminate` or `over` ends the flow: when one
/// of the edges followed out of a completed node leads to such a vertex, no
/// node follows (`find_next_nodes` gives `None` and `plan_completion` ends the
/// flow), whatever the other edges lead to.
pub proof fn lemma_over_vertex_ends_flow(
    cfg: FlowConfigModel,
    src: Seq<char>,
    choice: Option<Seq<char>>,
    existing: Seq<FlowRuntimeNode>,
    k: int,
)
    requires
        0 <= k < chosen_edges(cfg, src, choice).len(),
        find_vertex(cfg.vertices@, chosen_edges(cfg, src, choice)[k].target@) >= 0,
        cfg.vertices@[find_vertex(cfg.vertices@, chosen_edges(cfg, src, choice)[k].target@)].vtype@
            == "terminate"@ || cfg.vertices@[find_vertex(
            cfg.vertices@,
            chosen_edges(cfg, src, choice)[k].target@,
        )].vtype@ == "over"@,
    ensures
        next_vertices(cfg.vertices@, cfg.edges@, existing, chosen_edges(cfg, src, choice)) is None,
{
    let chosen = chosen_edges(cfg, src, choice);
    lemma_next_vertices_follow_edges(cfg.vertices@, cfg.edges@, existing, chosen);
    assert(find_vertex(cfg.vertices@, chosen[k].target@) >= 0 && is_terminal(
        cfg.vertices@[find_vertex(cfg.vertices@, chosen[k].target@)],
    ));
}

/// No node is ever made for a vertex of type `terminate` or `over`: every
/// node that follows a completed node is for a vertex of the flow of another
/// type, reached by one of the edges followed.
pub proof fn lemma_no_node_for_over_vertex(
    cfg: FlowConfigModel,
    src: Seq<char>,
    choice: Option<Seq<char>>,
    existing: Seq<FlowRuntimeNode>,
)
    ensures
        next_vertices(cfg.vertices@, cfg.edges@, existing, chosen_edges(cfg, src, choice)) matches Some(r)
            ==> forall|q: int|
            0 <= q < r.len() ==> 0 <= #[trigger] r[q] < cfg.vertices@.len() && cfg.vertices@[r[q]].vtype@
                != "over"@ && cfg.vertices@[r[q]].vtype@ != "terminate"@,
{
    lemma_next_vertices_follow_edges(cfg.vertices@, cfg.edges@, existing, chosen_edges(cfg, src, choice));
}

/// Index of the first vertex with the given id.
pub fn find_vertex_index(vs: &Vec<Vertex>, id: &String) -> (r: Option<usize>)
    ensures
        match r {
            Some(i) => find_vertex(vs@, id@) == i as int,
            None => find_vertex(vs@, id@) == -1,
        },
{
    let mut i: usize = 0;
    while i < vs.len()
        invariant
            0 <= i <= vs.len(),
            find_vertex(vs@.take(i as int), id@) == -1,
        decreases vs.len() - i,
    {
        proof {
            assert(vs@.take(i + 1).drop_last() =~= vs@.take(i as int));
        }
        if vs[i].id == *id {
            proof {
                lemma_find_vertex_prefix(vs@, id@, i as int);
            }
            return Some(i);
        }
        i = i + 1;
    }
    assert(vs@.take(vs.len() as int) =~= vs@);
    None
}

fn clone_opt_string(o: &Option<String>) -> (r: Option<String>)
    ensures
        opt_view(r) == opt_view(*o),
{
    match o {
        Some(s) => Some(s.clone()),
        None => None,
    }
}

fn str_is(s: &String, lit: &str) -> (r: bool)
    ensures
        r == (s@ == lit@),
{
    let a = chars_of(s.as_str());
    let b = chars_of(lit);
    chars_eq(a.as_slice(), b.as_slice())
}

/// Whether the vertex is of kind `input`.
fn human_of(v: &Vertex) -> (h: i32)
    ensures
        h == human_flag(*v),
{
    if str_is(&v.vtype, "input") {
        1
    } else {
        0
    }
}

fn terminal_exec(v: &Vertex) -> (b: bool)
    ensures
        b == is_terminal(*v),
{
    str_is(&v.vtype, "terminate") || str_is(&v.vtype, "over")
}

/// Whether some existing node for `src` ran to completion.
fn has_completed_node(existing: &[FlowRuntimeNode], src: &String) -> (b: bool)
    ensures
        b == exists|j: int|
            0 <= j < existing@.len() && #[trigger] existing@[j].flow_node_id@ == src@
                && existing@[j].status == NodeStatus::RunningOver,
{
    let mut j: usize = 0;
    while j < existing.len()
        invariant
            0 <= j <= existing.len(),
            forall|q: int|
                0 <= q < j ==> !(#[trigger] existing@[q].flow_node_id@ == src@
                    && existing@[q].status == NodeStatus::RunningOver),
        decreases existing.len() - j,
    {
        if existing[j].flow_node_id == *src && existing[j].status == NodeStatus::RunningOver {
            return true;
        }
        j = j + 1;
    }
    false
}

fn all_predecessors_done_exec(cfg: &FlowConfigModel, v: &Vertex, existing: &[FlowRuntimeNode]) -> (b:
    bool)
    ensures
        b == all_predecessors_done(cfg.edges@, *v, existing@),
{
    let mut k: usize = 0;
    while k < cfg.edges.len()
        invariant
            0 <= k <= cfg.edges.len(),
            forall|q: int|
                0 <= q < k && (#[trigger] cfg.edges@[q]).target@ == v.id@ ==> exists|j: int|
                    0 <= j < existing@.len() && #[trigger] existing@[j].flow_node_id@
                        == cfg.edges@[q].src@ && existing@[j].status == NodeStatus::RunningOver,
        decreases cfg.edges.len() - k,
    {
        let e = &cfg.edges[k];
        if e.target == v.id {
            if !has_completed_node(existing, &e.src) {
                return false;
            }
        }
        k = k + 1;
    }
    true
}

fn admits_exec(cfg: &FlowConfigModel, v: &Vertex, existing: &[FlowRuntimeNode]) -> (b: bool)
    ensures
        b == admits(cfg.edges@, *v, existing@),
{
    let d = match v.degree {
        Some(d) => d,
        None => 1,
    };
    if d == 1 {
        true
    } else if d == 100 {
        all_predecessors_done_exec(cfg, v, existing)
    } else {
        false
    }
}

fn node_for(cur: &FlowRuntimeNode, v: &Vertex) -> (n: FlowRuntimeNode)
    ensures
        is_node_for(n, *cur, *v),
{
    FlowRuntimeNode {
        id: 0,
        flow_runtime_id: cur.flow_runtime_id,
        flow_id: cur.flow_id,
        flow_node_id: v.id.clone(),
        action_id: match v.agent {
            Some(a) => a,
            None => 0,
        },
        action: v.value.clone(),
        prompt: clone_opt_string(&v.prompt),
        status: NodeStatus::Running,
        next_choice: None,
        created_at: cur.created_at,
        human: human_of(v),
    }
}

/// Indices of the edges that leave `src`, as positions in `cfg.edges`.
pub(crate) fn edges_from_exec(es: &Vec<Edge>, src: &String) -> (r: Vec<usize>)
    ensures
        r@.len() == edges_from(es@, src@).len(),
        forall|k: int|
            0 <= k < r@.len() ==> #[trigger] r@[k] < es@.len() && es@[r@[k] as int]
                == edges_from(es@, src@)[k],
{
    let mut r: Vec<usize> = Vec::new();
    let mut i: usize = 0;
    while i < es.len()
        invariant
            0 <= i <= es.len(),
            r@.len() == edges_from(es@.take(i as int), src@).len(),
            forall|k: int|
                0 <= k < r@.len() ==> #[trigger] r@[k] < es@.len() && es@[r@[k] as int]
                    == edges_from(es@.take(i as int), src@)[k],
        decreases es.len() - i,
    {
        proof {
            assert(es@.take(i + 1).drop_last() =~= es@.take(i as int));
        }
        if es[i].src == *src {
            r.push(i);
        }
        i = i + 1;
    }
    assert(es@.take(es.len() as int) =~= es@);
    r
}

fn trimmed_string(s: &String) -> (r: Vec<char>)
    ensures
        r@ == trim(s@),
{
    let c = chars_of(s.as_str());
    trim_chars(c.as_slice())
}

fn edge_matches_choice_exec(e: &Edge, ch: &[char]) -> (b: bool)
    ensures
        b == edge_matches_choice(*e, ch@),
{
    let v = chars_of(e.value.as_str());
    let tv = trim_chars(v.as_slice());
    chars_eq(v.as_slice(), ch) || chars_eq(tv.as_slice(), ch) || contains_chars(ch, tv.as_slice())
}

fn edge_matches_vertex_exec(vs: &Vec<Vertex>, e: &Edge, ch: &[char]) -> (b: bool)
    ensures
        b == edge_matches_vertex(vs@, *e, ch@),
{
    let mut i: usize = 0;
    while i < vs.len()
        invariant
            0 <= i <= vs.len(),
            forall|q: int|
                0 <= q < i ==> !((#[trigger] vs@[q].id@ == e.target@ && trim(vs@[q].value@)
                    == ch@) || contains_seq(ch@, trim(vs@[q].value@))),
        decreases vs.len() - i,
    {
        let tv = trimmed_string(&vs[i].value);
        if (vs[i].id == e.target && chars_eq(tv.as_slice(), ch)) || contains_chars(
            ch,
            tv.as_slice(),
        ) {
            return true;
        }
        i = i + 1;
    }
    false
}

/// Keeps the edge positions in `idx` whose edge label names the choice.
fn filter_by_label(es: &Vec<Edge>, idx: &Vec<usize>, ch: &[char], Ghost(base): Ghost<Seq<Edge>>) -> (r:
    Vec<usize>)
    requires
        idx@.len() == base.len(),
        forall|k: int|
            0 <= k < idx@.len() ==> #[trigger] idx@[k] < es@.len() && es@[idx@[k] as int]
                == base[k],
    ensures
        r@.len() == edges_by_label(base, ch@).len(),
        forall|k: int|
            0 <= k < r@.len() ==> #[trigger] r@[k] < es@.len() && es@[r@[k] as int]
                == edges_by_label(base, ch@)[k],
{
    let mut r: Vec<usize> = Vec::new();
    let mut i: usize = 0;
    while i < idx.len()
        invariant
            0 <= i <= idx.len(),
            idx@.len() == base.len(),
            forall|k: int|
                0 <= k < idx@.len() ==> #[trigger] idx@[k] < es@.len() && es@[idx@[k] as int]
                    == base[k],
            r@.len() == edges_by_label(base.take(i as int), ch@).len(),
            forall|k: int|
                0 <= k < r@.len() ==> #[trigger] r@[k] < es@.len() && es@[r@[k] as int]
                    == edges_by_label(base.take(i as int), ch@)[k],
        decreases idx.len() - i,
    {
        proof {
            assert(base.take(i + 1).drop_last() =~= base.take(i as int));
        }
        let j = idx[i];
        assert(es@[j as int] == base[i as int]);
        if edge_matches_choice_exec(&es[j], ch) {
            r.push(j);
        }
        i = i + 1;
    }
    assert(base.take(idx.len() as int) =~= base);
    r
}

/// Keeps the edge positions in `idx` whose edge passes the vertex fallback test.
fn filter_by_vertex(
    es: &Vec<Edge>,
    idx: &Vec<usize>,
    ch: &[char],
    vs: &Vec<Vertex>,
    Ghost(base): Ghost<Seq<Edge>>,
) -> (r: Vec<usize>)
    requires
        idx@.len() == base.len(),
        forall|k: int|
            0 <= k < idx@.len() ==> #[trigger] idx@[k] < es@.len() && es@[idx@[k] as int]
                == base[k],
    ensures
        r@.len() == edges_by_vertex(vs@, base, ch@).len(),
        forall|k: int|
            0 <= k < r@.len() ==> #[trigger] r@[k] < es@.len() && es@[r@[k] as int]
                == edges_by_vertex(vs@, base, ch@)[k],
{
    let mut r: Vec<usize> = Vec::new();
    let mut i: usize = 0;
    while i < idx.len()
        invariant
            0 <= i <= idx.len(),
            idx@.len() == base.len(),
            forall|k: int|
                0 <= k < idx@.len() ==> #[trigger] idx@[k] < es@.len() && es@[idx@[k] as int]
                    == base[k],
            r@.len() == edges_by_vertex(vs@, base.take(i as int), ch@).len(),
            forall|k: int|
                0 <= k < r@.len() ==> #[trigger] r@[k] < es@.len() && es@[r@[k] as int]
                    == edges_by_vertex(vs@, base.take(i as int), ch@)[k],
        decreases idx.len() - i,
    {
        proof {
            assert(base.take(i + 1).drop_last() =~= base.take(i as int));
        }
        let j = idx[i];
        assert(es@[j as int] == base[i as int]);
        if edge_matches_vertex_exec(vs, &es[j], ch) {
            r.push(j);
        }
        i = i + 1;
    }
    assert(base.take(idx.len() as int) =~= base);
    r
}

/// Positions in `cfg.edges` of the edges followed out of a completed node.
pub fn choose_edges(cfg: &FlowConfigModel, src: &String, next_choice: Option<&str>) -> (r: Vec<usize>)
    ensures
        r@.len() == chosen_edges(
            *cfg,
            src@,
            opt_str(next_choice),
        ).len(),
        forall|k: int|
            0 <= k < r@.len() ==> #[trigger] r@[k] < cfg.edges@.len() && cfg.edges@[r@[k] as int]
                == chosen_edges(
                *cfg,
                src@,
                opt_str(next_choice),
            )[k],
{
    let out = edges_from_exec(&cfg.edges, src);
    match next_choice {
        None => out,
        Some(c) => {
            let cv = chars_of(c);
            let ch = trim_chars(cv.as_slice());
            let ghost base = edges_from(cfg.edges@, src@);
            let by_label = filter_by_label(&cfg.edges, &out, ch.as_slice(), Ghost(base));
            if by_label.len() > 0 {
                by_label
            } else {
                filter_by_vertex(&cfg.edges, &out, ch.as_slice(), &cfg.vertices, Ghost(base))
            }
        },
    }
}

/// The nodes that follow `current_node` once it completes, or `None` when the
/// flow reaches a terminal vertex.
pub fn find_next_nodes(
    config: &FlowConfigModel,
    current_node: &FlowRuntimeNode,
    existing_nodes: &[FlowRuntimeNode],
    next_choice: Option<&str>,
) -> (r: Option<Vec<FlowRuntimeNode>>)
    ensures
        ({
            let chosen = chosen_edges(
                *config,
                current_node.flow_node_id@,
                opt_str(next_choice),
            );
            match next_vertices(config.vertices@, config.edges@, existing_nodes@, chosen) {
                None => r is None,
                Some(vis) => r is Some && r->0@.len() == vis.len() && (forall|k: int|
                    0 <= k < vis.len() ==> 0 <= #[trigger] vis[k] < config.vertices@.len()) && forall|k: int|
                    0 <= k < vis.len() ==> is_node_for(
                        #[trigger] r->0@[k],
                        *current_node,
                        config.vertices@[vis[k]],
                    ),
            }
        }),
{
    let chosen = choose_edges(config, &current_node.flow_node_id, next_choice);
    let ghost cs = chosen_edges(
        *config,
        current_node.flow_node_id@,
        opt_str(next_choice),
    );
    let mut next_nodes: Vec<FlowRuntimeNode> = Vec::new();
    let ghost mut vis: Seq<int> = Seq::empty();
    let mut i: usize = 0;
    while i < chosen.len()
        invariant
            0 <= i <= chosen.len(),
            cs == chosen_edges(*config, current_node.flow_node_id@, opt_str(next_choice)),
            chosen@.len() == cs.len(),
            forall|k: int|
                0 <= k < chosen@.len() ==> #[trigger] chosen@[k] < config.edges@.len()
                    && config.edges@[chosen@[k] as int] == cs[k],
            next_vertices(config.vertices@, config.edges@, existing_nodes@, cs.take(i as int))
                == Some(vis),
            next_nodes@.len() == vis.len(),
            forall|k: int| 0 <= k < vis.len() ==> 0 <= #[trigger] vis[k] < config.vertices@.len(),
            forall|k: int|
                0 <= k < vis.len() ==> is_node_for(
                    #[trigger] next_nodes@[k],
                    *current_node,
                    config.vertices@[vis[k]],
                ),
        decreases chosen.len() - i,
    {
        let e = &config.edges[chosen[i]];
        proof {
            assert(cs.take(i + 1).drop_last() =~= cs.take(i as int));
            assert(cs.take(i + 1).last() == cs[i as int]);
            lemma_find_vertex_range(config.vertices@, e.target@);
        }
        let ghost prev = next_nodes@;
        match find_vertex_index(&config.vertices, &e.target) {
            None => {
                assert(next_vertices(config.vertices@, config.edges@, existing_nodes@, cs.take(i + 1))
                    == Some(vis));
            },
            Some(vi) => {
                let v = &config.vertices[vi];
                if terminal_exec(v) {
                    assert(next_vertices(config.vertices@, config.edges@, existing_nodes@, cs.take(i + 1))
                        is None);
                    proof {
                        lemma_next_vertices_none_stays(
                            config.vertices@,
                            config.edges@,
                            existing_nodes@,
                            cs,
                            i as int + 1,
                        );
                    }
                    return None;
                }
                if admits_exec(config, v, existing_nodes) {
                    let n = node_for(current_node, v);
                    next_nodes.push(n);
                    proof {
                        vis = vis.push(vi as int);
                        assert forall|k: int| 0 <= k < vis.len() implies is_node_for(
                            #[trigger] next_nodes@[k],
                            *current_node,
                            config.vertices@[vis[k]],
                        ) by {
                            if k < vis.len() - 1 {
                                assert(next_nodes@[k] == prev[k]);
                            }
                        }
                    }
                    assert(next_vertices(config.vertices@, config.edges@, existing_nodes@, cs.take(i + 1))
                        == Some(vis));
                } else {
                    assert(next_vertices(config.vertices@, config.edges@, existing_nodes@, cs.take(i + 1))
                        == Some(vis));
                }
            },
        }
        i = i + 1;
    }
    assert(cs.take(chosen.len() as int) =~= cs);
    Some(next_nodes)
}

proof fn lemma_next_vertices_none_stays(
    vs: Seq<Vertex>,
    es: Seq<Edge>,
    existing: Seq<FlowRuntimeNode>,
    cs: Seq<Edge>,
    i: int,
)
    requires
        0 <= i <= cs.len(),
        next_vertices(vs, es, existing, cs.take(i)) is None,
    ensures
        next_vertices(vs, es, existing, cs) is None,
    decreases cs.len() - i,
{
    if i < cs.len() {
        assert(cs.take(i + 1).drop_last() =~= cs.take(i));
        lemma_next_vertices_none_stays(vs, es, existing, cs, i + 1);
    } else {
        assert(cs.take(i) =~= cs);
    }
}

/// Whether some edge from a `start` vertex leads to a vertex with id `id`.
fn is_head_id_exec(cfg: &FlowConfigModel, id: &String) -> (b: bool)
    ensures
        b == is_head_id(*cfg, id@),
{
    if find_vertex_index(&cfg.vertices, id).is_none() {
        return false;
    }
    let mut k: usize = 0;
    while k < cfg.edges.len()
        invariant
            0 <= k <= cfg.edges.len(),
            find_vertex(cfg.vertices@, id@) >= 0,
            forall|q: int|
                0 <= q < k ==> !(#[trigger] cfg.edges@[q].target@ == id@ && find_vertex(
                    cfg.vertices@,
                    cfg.edges@[q].src@,
                ) >= 0 && cfg.vertices@[find_vertex(cfg.vertices@, cfg.edges@[q].src@)].vtype@
                    == "start"@),
        decreases cfg.edges.len() - k,
    {
        let e = &cfg.edges[k];
        if e.target == *id {
            match find_vertex_index(&cfg.vertices, &e.src) {
                Some(si) => {
                    proof {
                        lemma_find_vertex_range(cfg.vertices@, e.src@);
                    }
                    if str_is(&cfg.vertices[si].vtype, "start") {
                        return true;
                    }
                },
                None => {},
            }
        }
        k = k + 1;
    }
    false
}

proof fn lemma_head_vertices_contain(cfg: FlowConfigModel, vs: Seq<Vertex>, i: int)
    requires
        0 <= i < vs.len(),
        is_head_id(cfg, vs[i].id@),
    ensures
        head_vertices(cfg, vs).contains(vs[i]),
    decreases vs.len(),
{
    let h = head_vertices(cfg, vs);
    if i == vs.len() - 1 {
        let p = head_vertices(cfg, vs.drop_last());
        assert(h == p.push(vs.last()));
        assert(h[p.len() as int] == vs[i]);
    } else {
        assert(vs.drop_last()[i] == vs[i]);
        lemma_head_vertices_contain(cfg, vs.drop_last(), i);
        let p = head_vertices(cfg, vs.drop_last());
        let q = choose|q: int| 0 <= q < p.len() && p[q] == vs[i];
        if is_head_id(cfg, vs.last().id@) {
            assert(h == p.push(vs.last()));
            assert(h[q] == p[q]);
        }
    }
}

proof fn lemma_head_vertices_are_heads(cfg: FlowConfigModel, vs: Seq<Vertex>)
    ensures
        forall|q: int|
            0 <= q < head_vertices(cfg, vs).len() ==> is_head_id(cfg, (#[trigger] head_vertices(cfg, vs)[q]).id@)
                && vs.contains(head_vertices(cfg, vs)[q]),
    decreases vs.len(),
{
    if vs.len() > 0 {
        let init = vs.drop_last();
        lemma_head_vertices_are_heads(cfg, init);
        let p = head_vertices(cfg, init);
        let h = head_vertices(cfg, vs);
        assert forall|q: int| 0 <= q < h.len() implies is_head_id(cfg, (#[trigger] h[q]).id@) && vs.contains(h[q]) by {
            if q < p.len() {
                assert(h[q] == p[q]);
                let j = choose|j: int| 0 <= j < init.len() && init[j] == p[q];
                assert(vs[j] == init[j]);
            } else {
                assert(h[q] == vs.last());
                assert(vs[vs.len() - 1] == vs.last());
            }
        }
    }
}

/// Every vertex that an edge from a `start` vertex leads to starts the flow,
/// however many such edges there are (parallel branches all start): the head
/// vertices, which `extract_head_nodes` gives the indices of, hold it.
pub proof fn lemma_start_targets_are_heads(cfg: FlowConfigModel, k: int)
    requires
        0 <= k < cfg.edges@.len(),
        find_vertex(cfg.vertices@, cfg.edges@[k].src@) >= 0,
        cfg.vertices@[find_vertex(cfg.vertices@, cfg.edges@[k].src@)].vtype@ == "start"@,
        find_vertex(cfg.vertices@, cfg.edges@[k].target@) >= 0,
    ensures
        head_vertices(cfg, cfg.vertices@).contains(
            cfg.vertices@[find_vertex(cfg.vertices@, cfg.edges@[k].target@)],
        ),
{
    let t = cfg.edges@[k].target@;
    lemma_find_vertex_range(cfg.vertices@, t);
    let ti = find_vertex(cfg.vertices@, t);
    assert(cfg.vertices@[ti].id@ == t);
    assert(is_head_id(cfg, t));
    lemma_head_vertices_contain(cfg, cfg.vertices@, ti);
}

/// Conversely, every head vertex is a vertex of the flow that some edge from
/// a `start` vertex leads to.
pub proof fn lemma_heads_are_start_targets(cfg: FlowConfigModel)
    ensures
        forall|q: int|
            0 <= q < head_vertices(cfg, cfg.vertices@).len() ==> cfg.vertices@.contains(
                #[trigger] head_vertices(cfg, cfg.vertices@)[q],
            ) && exists|k: int|
                0 <= k < cfg.edges@.len() && #[trigger] cfg.edges@[k].target@ == head_vertices(
                    cfg,
                    cfg.vertices@,
                )[q].id@ && find_vertex(cfg.vertices@, cfg.edges@[k].src@) >= 0 && cfg.vertices@[find_vertex(
                    cfg.vertices@,
                    cfg.edges@[k].src@,
                )].vtype@ == "start"@,
{
    lemma_head_vertices_are_heads(cfg, cfg.vertices@);
}

/// Indices of the vertices that start the flow: those reached by an edge from
/// a `start` vertex, in vertex order.
pub fn extract_head_nodes(config: &FlowConfigModel) -> (r: Vec<usize>)
    ensures
        r@.len() == head_vertices(*config, config.vertices@).len(),
        forall|k: int|
            0 <= k < r@.len() ==> #[trigger] r@[k] < config.vertices@.len() && config.vertices@[r@[k] as int]
                == head_vertices(*config, config.vertices@)[k],
{
    let mut r: Vec<usize> = Vec::new();
    let mut i: usize = 0;
    while i < config.vertices.len()
        invariant
            0 <= i <= config.vertices.len(),
            r@.len() == head_vertices(*config, config.vertices@.take(i as int)).len(),
            forall|k: int|
                0 <= k < r@.len() ==> #[trigger] r@[k] < config.vertices@.len()
                    && config.vertices@[r@[k] as int] == head_vertices(*config, config.vertices@.take(i as int))[k],
        decreases config.vertices.len() - i,
    {
        proof {
            assert(config.vertices@.take(i + 1).drop_last() =~= config.vertices@.take(i as int));
        }
        if is_head_id_exec(config, &config.vertices[i].id) {
            r.push(i);
        }
        i = i + 1;
    }
    assert(config.vertices@.take(config.vertices.len() as int) =~= config.vertices@);
    r
}

/// The creation requests for the head nodes of a flow, each `Running`.
pub fn head_node_creates(config: &FlowConfigModel) -> (r: Vec<FlowRuntimeNodeCreate>)
    ensures
        ({
            let heads = head_vertices(*config, config.vertices@);
            &&& r@.len() == heads.len()
            &&& forall|k: int|
                0 <= k < r@.len() ==> {
                    let c = #[trigger] r@[k];
                    let v = heads[k];
                    &&& c.flow_node_id@ == v.id@
                    &&& c.action_id == (match v.agent {
                        Some(a) => a,
                        None => 0,
                    })
                    &&& c.action@ == v.value@
                    &&& opt_view(c.prompt) == opt_view(v.prompt)
                    &&& c.status == NodeStatus::Running
                    &&& c.next_choice is None
                    &&& c.human == human_flag(v)
                }
        }),
{
    let heads = extract_head_nodes(config);
    let mut r: Vec<FlowRuntimeNodeCreate> = Vec::new();
    let mut i: usize = 0;
    while i < heads.len()
        invariant
            0 <= i <= heads.len(),
            heads@.len() == head_vertices(*config, config.vertices@).len(),
            forall|k: int|
                0 <= k < heads@.len() ==> #[trigger] heads@[k] < config.vertices@.len()
                    && config.vertices@[heads@[k] as int] == head_vertices(*config, config.vertices@)[k],
            r@.len() == i,
            forall|k: int|
                0 <= k < i ==> {
                    let c = #[trigger] r@[k];
                    let v = head_vertices(*config, config.vertices@)[k];
                    &&& c.flow_node_id@ == v.id@
                    &&& c.action_id == (match v.agent {
                        Some(a) => a,
                        None => 0,
                    })
                    &&& c.action@ == v.value@
                    &&& opt_view(c.prompt) == opt_view(v.prompt)
                    &&& c.status == NodeStatus::Running
                    &&& c.next_choice is None
                    &&& c.human == human_flag(v)
                },
        decreases heads.len() - i,
    {
        let v = &config.vertices[heads[i]];
        let c = FlowRuntimeNodeCreate {
            flow_node_id: v.id.clone(),
            action_id: match v.agent {
                Some(a) => a,
                None => 0,
            },
            action: v.value.clone(),
            prompt: clone_opt_string(&v.prompt),
            status: NodeStatus::Running,
            next_choice: None,
            human: human_of(v),
        };
        r.push(c);
        i = i + 1;
    }
    r
}

/// Position of the first node whose id is `id`, or -1.
pub open spec fn find_node(ns: Seq<FlowRuntimeNode>, id: i64) -> int
    decreases ns.len(),
{
    if ns.len() == 0 {
        -1
    } else {
        let r = find_node(ns.drop_last(), id);
        if r >= 0 {
            r
        } else if ns.last().id == id {
            ns.len() - 1
        } else {
            -1
        }
    }
}

/// A creation request that copies the fields a node takes from its vertex.
pub open spec fn is_create_for(c: FlowRuntimeNodeCreate, v: Vertex) -> bool {
    &&& c.flow_node_id@ == v.id@
    &&& c.action_id == (match v.agent {
        Some(a) => a,
        None => 0,
    })
    &&& c.action@ == v.value@
    &&& opt_view(c.prompt) == opt_view(v.prompt)
    &&& c.status == NodeStatus::Running
    &&& c.next_choice is None
    &&& c.human == human_flag(v)
}

/// What completing a node does to its runtime.
pub enum Completion {
    /// Create these nodes, one at a time and in order; the completed node's
    /// choice is set to the id of each created node in turn.
    Advance(Vec<FlowRuntimeNodeCreate>),
    /// The flow reached a terminal vertex: the runtime is marked over and the
    /// completed node's choice is set to this text, its own id.
    Terminate(String),
}

proof fn lemma_find_node(ns: Seq<FlowRuntimeNode>, id: i64)
    ensures
        -1 <= find_node(ns, id) < ns.len(),
        find_node(ns, id) >= 0 ==> ns[find_node(ns, id)].id == id,
    decreases ns.len(),
{
    if ns.len() > 0 {
        lemma_find_node(ns.drop_last(), id);
    }
}

/// Position of the first node whose id is `id`.
fn find_node_index(ns: &Vec<FlowRuntimeNode>, id: i64) -> (r: Option<usize>)
    ensures
        match r {
            Some(j) => j == find_node(ns@, id),
            None => find_node(ns@, id) < 0,
        },
{
    let mut i: usize = 0;
    while i < ns.len()
        invariant
            0 <= i <= ns.len(),
            find_node(ns@.take(i as int), id) < 0,
        decreases ns.len() - i,
    {
        proof {
            assert(ns@.take(i + 1).drop_last() =~= ns@.take(i as int));
        }
        if ns[i].id == id {
            proof {
                assert(find_node(ns@.take(i + 1), id) == i);
                lemma_find_node_prefix(ns@, id, i + 1);
            }
            return Some(i);
        }
        i = i + 1;
    }
    assert(ns@.take(ns.len() as int) =~= ns@);
    None
}

proof fn lemma_find_node_prefix(ns: Seq<FlowRuntimeNode>, id: i64, n: int)
    requires
        0 <= n <= ns.len(),
        find_node(ns.take(n), id) >= 0,
    ensures
        find_node(ns, id) == find_node(ns.take(n), id),
    decreases ns.len() - n,
{
    if n < ns.len() {
        assert(ns.take(n + 1).drop_last() =~= ns.take(n));
        lemma_find_node_prefix(ns, id, n + 1);
    } else {
        assert(ns.take(n) =~= ns);
    }
}

/// Completing runtime node `runtime_node_id` of `nodes`: `None` when no node
/// has that id; else, for the first such node, the nodes to create for the
/// vertices that follow it (see `find_next_nodes`, with `nodes` as they were
/// before the completion), or the end of the flow when a terminal vertex is
/// reached.
pub fn plan_completion(
    config: &FlowConfigModel,
    nodes: &Vec<FlowRuntimeNode>,
    runtime_node_id: i64,
    next_choice: Option<&str>,
) -> (r: Option<Completion>)
    ensures
        find_node(nodes@, runtime_node_id) < 0 <==> r is None,
        find_node(nodes@, runtime_node_id) >= 0 ==> {
            let cur = nodes@[find_node(nodes@, runtime_node_id)];
            let chosen = chosen_edges(*config, cur.flow_node_id@, opt_str(next_choice));
            match next_vertices(config.vertices@, config.edges@, nodes@, chosen) {
                None => r matches Some(Completion::Terminate(t)) && t@ == int_text(cur.id as int),
                Some(vis) => r matches Some(Completion::Advance(cs)) && cs@.len() == vis.len() && (forall|k: int|
                    0 <= k < vis.len() ==> 0 <= #[trigger] vis[k] < config.vertices@.len()) && forall|k: int|
                    0 <= k < vis.len() ==> is_create_for(#[trigger] cs@[k], config.vertices@[vis[k]]),
            }
        },
{
    let j = match find_node_index(nodes, runtime_node_id) {
        Some(j) => j,
        None => return None,
    };
    proof {
        lemma_find_node(nodes@, runtime_node_id);
    }
    let cur = &nodes[j];
    match find_next_nodes(config, cur, nodes.as_slice(), next_choice) {
        None => Some(Completion::Terminate(i64_string(cur.id))),
        Some(next) => {
            let mut creates: Vec<FlowRuntimeNodeCreate> = Vec::new();
            let mut i: usize = 0;
            while i < next.len()
                invariant
                    0 <= i <= next.len(),
                    creates@.len() == i,
                    forall|k: int|
                        0 <= k < i ==> {
                            let c = #[trigger] creates@[k];
                            let n = next@[k];
                            &&& c.flow_node_id@ == n.flow_node_id@
                            &&& c.action_id == n.action_id
                            &&& c.action@ == n.action@
                            &&& opt_view(c.prompt) == opt_view(n.prompt)
                            &&& c.status == NodeStatus::Running
                            &&& c.next_choice is None
                            &&& c.human == n.human
                        },
                decreases next.len() - i,
            {
                let n = &next[i];
                creates.push(
                    FlowRuntimeNodeCreate {
                        flow_node_id: n.flow_node_id.clone(),
                        action_id: n.action_id,
                        action: n.action.clone(),
                        prompt: clone_opt_string(&n.prompt),
                        status: NodeStatus::Running,
                        next_choice: None,
                        human: n.human,
                    },
                );
                i = i + 1;
            }
            Some(Completion::Advance(creates))
        },
    }
}

} // verus!
