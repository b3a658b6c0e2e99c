//! The agents that run the nodes of a flow: where their messages go, when the
//! supervising loop stops, what each agent tells the model and how it reads
//! the model's replies.
use vstd::prelude::*;
use crate::text::{
    contains_seq, i64_string, int_text, chars_of, has_prefix, lines, lines_of, slice_chars, starts_with, string_of, text_contains, text_eq,
    trim, trim_chars, trimmed,
};
use crate::flow::opt_view;
use crate::flow::{edges_from, edges_from_exec, Edge, FlowConfigModel, Vertex};

verus! {

/// Who wrote a message passed to a node agent.
#[derive(PartialEq, Eq, Structural, Clone, Copy, Debug)]
pub enum NodeAgentMsgType {
    AI,
    Human,
}

/// A message passed to the agent of a runtime node (`0` addresses every
/// agent).
pub struct NodeAgentMsg {
    pub runtime_node_id: i64,
    pub msg: String,
    pub msg_type: NodeAgentMsgType,
}

impl NodeAgentMsg {
    /// A message from the model.
    pub fn new(runtime_node_id: i64, msg: String) -> (m: NodeAgentMsg)
        ensures
            m.runtime_node_id == runtime_node_id,
            m.msg@ == msg@,
            m.msg_type == NodeAgentMsgType::AI,
    {
        NodeAgentMsg { runtime_node_id, msg, msg_type: NodeAgentMsgType::AI }
    }
}

/// An edge leaving the node an agent runs: where it leads and the decision
/// that takes it.
pub struct NodeEdge {
    pub from: String,
    pub to: String,
    pub value: String,
}

/// `n` carries the endpoints and the label of `e`.
pub open spec fn edge_copy(n: NodeEdge, e: Edge) -> bool {
    n.from@ == e.src@ && n.to@ == e.target@ && n.value@ == e.value@
}

/// The edges that leave node `node_id`, in the order of the flow definition.
pub fn node_edges(config: &FlowConfigModel, node_id: &String) -> (r: Vec<NodeEdge>)
    ensures
        r@.len() == edges_from(config.edges@, node_id@).len(),
        forall|k: int|
            0 <= k < r@.len() ==> edge_copy(#[trigger] r@[k], edges_from(config.edges@, node_id@)[k]),
{
    let idx = edges_from_exec(&config.edges, node_id);
    let mut r: Vec<NodeEdge> = Vec::new();
    let mut i: usize = 0;
    while i < idx.len()
        invariant
            0 <= i <= idx.len(),
            idx@.len() == edges_from(config.edges@, node_id@).len(),
            forall|k: int|
                0 <= k < idx@.len() ==> #[trigger] idx@[k] < config.edges@.len()
                    && config.edges@[idx@[k] as int] == edges_from(config.edges@, node_id@)[k],
            r@.len() == i,
            forall|k: int|
                0 <= k < i ==> edge_copy(#[trigger] r@[k], edges_from(config.edges@, node_id@)[k]),
        decreases idx.len() - i,
    {
        let e = &config.edges[idx[i]];
        r.push(NodeEdge { from: e.src.clone(), to: e.target.clone(), value: e.value.clone() });
        i = i + 1;
    }
    r
}

/// Where the relay sends a message.
#[derive(PartialEq, Eq, Structural, Clone, Copy, Debug)]
pub enum Route {
    /// Nobody receives it.
    Drop,
    /// Every running agent receives it.
    Broadcast,
    /// The agent of this runtime node receives it.
    Deliver(i64),
}

/// The route of a message addressed to `id`, given the runtime nodes that
/// have an agent.
pub open spec fn route_spec(id: i64, agents: Seq<i64>) -> Route {
    if id < 0 {
        Route::Drop
    } else if id == 0 {
        Route::Broadcast
    } else if agents.contains(id) {
        Route::Deliver(id)
    } else {
        Route::Drop
    }
}

/// Where a message addressed to `id` goes: nowhere for a negative address,
/// to every agent for `0`, else to that node's agent if it has one.
pub fn route_message(id: i64, agents: &Vec<i64>) -> (r: Route)
    ensures
        r == route_spec(id, agents@),
{
    if id < 0 {
        return Route::Drop;
    }
    if id == 0 {
        return Route::Broadcast;
    }
    let mut i: usize = 0;
    while i < agents.len()
        invariant
            0 <= i <= agents.len(),
            id > 0,
            forall|k: int| 0 <= k < i ==> agents@[k] != id,
        decreases agents.len() - i,
    {
        if agents[i] == id {
            assert(agents@[i as int] == id);
            return Route::Deliver(id);
        }
        i = i + 1;
    }
    Route::Drop
}

/// A vertex that closes the flow once a node of it runs.
pub open spec fn is_over_vertex(v: Vertex) -> bool {
    v.vtype@ == "end"@ || v.vtype@ == "over"@
}

/// The ids of the closing vertices, in vertex order.
pub open spec fn over_ids_spec(vs: Seq<Vertex>) -> Seq<Seq<char>>
    decreases vs.len(),
{
    if vs.len() == 0 {
        Seq::empty()
    } else if is_over_vertex(vs.last()) {
        over_ids_spec(vs.drop_last()).push(vs.last().id@)
    } else {
        over_ids_spec(vs.drop_last())
    }
}

/// The ids of the vertices of kind `end` or `over`.
pub fn over_node_ids(config: &FlowConfigModel) -> (r: Vec<String>)
    ensures
        r@.map_values(|s: String| s@) == over_ids_spec(config.vertices@),
{
    let mut r: Vec<String> = Vec::new();
    let mut i: usize = 0;
    while i < config.vertices.len()
        invariant
            0 <= i <= config.vertices.len(),
            r@.map_values(|s: String| s@) == over_ids_spec(config.vertices@.take(i as int)),
        decreases config.vertices.len() - i,
    {
        proof {
            assert(config.vertices@.take(i + 1).drop_last() =~= config.vertices@.take(i as int));
        }
        let v = &config.vertices[i];
        if text_eq(v.vtype.as_str(), "end") || text_eq(v.vtype.as_str(), "over") {
            let ghost before = r@;
            r.push(v.id.clone());
            assert(r@.map_values(|s: String| s@) =~= before.map_values(|s: String| s@).push(v.id@));
        }
        i = i + 1;
    }
    assert(config.vertices@.take(config.vertices.len() as int) =~= config.vertices@);
    r
}

/// How many checks in a row may find no running node before the runtime is
/// stopped.
pub const IDLE_LIMIT: u32 = 5;

/// What the supervising loop does after one check.
#[derive(PartialEq, Eq, Structural, Clone, Copy, Debug)]
pub enum LoopAction {
    /// The executor was stopped: leave the loop.
    Halt,
    /// Agents are at work, or no node runs yet: check again later.
    Wait,
    /// No node ran for `IDLE_LIMIT` checks in a row: stop the runtime and
    /// leave the loop.
    StopRuntime,
    /// A closing vertex was reached: signal the end and leave the loop.
    Finish,
    /// Start an agent for each running node.
    Launch,
}

/// One check of the supervising loop: the action and the new count of checks
/// in a row that found no running node.
pub open spec fn supervise_spec(
    running: bool,
    busy: bool,
    running_ids: Seq<Seq<char>>,
    over_ids: Seq<Seq<char>>,
    idle: u32,
) -> (LoopAction, u32) {
    if !running {
        (LoopAction::Halt, idle)
    } else if busy {
        (LoopAction::Wait, idle)
    } else if running_ids.len() == 0 {
        if idle + 1 >= IDLE_LIMIT {
            (LoopAction::StopRuntime, (idle + 1) as u32)
        } else {
            (LoopAction::Wait, (idle + 1) as u32)
        }
    } else if exists|k: int| 0 <= k < running_ids.len() && over_ids.contains(#[trigger] running_ids[k]) {
        (LoopAction::Finish, 0)
    } else {
        (LoopAction::Launch, 0)
    }
}

/// Whether some running node already has an agent.
pub fn has_running_agent(running_nodes: &Vec<i64>, agents: &Vec<i64>) -> (r: bool)
    ensures
        r == exists|i: int, j: int|
            0 <= i < running_nodes@.len() && 0 <= j < agents@.len() && #[trigger] running_nodes@[i]
                == #[trigger] agents@[j],
{
    let mut i: usize = 0;
    while i < running_nodes.len()
        invariant
            0 <= i <= running_nodes.len(),
            forall|a: int, j: int|
                0 <= a < i && 0 <= j < agents@.len() ==> #[trigger] running_nodes@[a] != #[trigger] agents@[j],
        decreases running_nodes.len() - i,
    {
        let mut j: usize = 0;
        while j < agents.len()
            invariant
                0 <= i < running_nodes.len(),
                0 <= j <= agents.len(),
                forall|a: int, b: int|
                    0 <= a < i && 0 <= b < agents@.len() ==> #[trigger] running_nodes@[a] != #[trigger] agents@[b],
                forall|b: int| 0 <= b < j ==> running_nodes@[i as int] != #[trigger] agents@[b],
            decreases agents.len() - j,
        {
            if running_nodes[i] == agents[j] {
                assert(running_nodes@[i as int] == agents@[j as int]);
                return true;
            }
            j = j + 1;
        }
        i = i + 1;
    }
    false
}

/// Whether a text is one of `set`.
fn text_in(t: &String, set: &Vec<String>) -> (r: bool)
    ensures
        r == set@.map_values(|s: String| s@).contains(t@),
{
    let ghost m = set@.map_values(|s: String| s@);
    let mut i: usize = 0;
    while i < set.len()
        invariant
            0 <= i <= set.len(),
            m == set@.map_values(|s: String| s@),
            forall|k: int| 0 <= k < i ==> m[k] != t@,
        decreases set.len() - i,
    {
        if text_eq(set[i].as_str(), t.as_str()) {
            assert(m[i as int] == t@);
            return true;
        }
        i = i + 1;
    }
    false
}

/// One check of the supervising loop. `running` tells whether the executor
/// still runs, `busy` whether some running node has an agent at work,
/// `running_ids` the vertex ids of the running nodes and `over_ids` those of
/// the closing vertices; `idle` counts the checks in a row that found no
/// running node.
pub fn supervise(
    running: bool,
    busy: bool,
    running_ids: &Vec<String>,
    over_ids: &Vec<String>,
    idle: &mut u32,
) -> (r: LoopAction)
    requires
        *old(idle) < IDLE_LIMIT,
    ensures
        (r, *final(idle)) == supervise_spec(
            running,
            busy,
            running_ids@.map_values(|s: String| s@),
            over_ids@.map_values(|s: String| s@),
            *old(idle),
        ),
{
    let ghost ids = running_ids@.map_values(|s: String| s@);
    let ghost over = over_ids@.map_values(|s: String| s@);
    if !running {
        return LoopAction::Halt;
    }
    if busy {
        return LoopAction::Wait;
    }
    if running_ids.len() == 0 {
        *idle = *idle + 1;
        if *idle >= IDLE_LIMIT {
            return LoopAction::StopRuntime;
        }
        return LoopAction::Wait;
    }
    *idle = 0;
    let mut i: usize = 0;
    while i < running_ids.len()
        invariant
            0 <= i <= running_ids.len(),
            running,
            !busy,
            running_ids.len() > 0,
            *idle == 0,
            ids == running_ids@.map_values(|s: String| s@),
            over == over_ids@.map_values(|s: String| s@),
            forall|k: int| 0 <= k < i ==> !over.contains(#[trigger] ids[k]),
        decreases running_ids.len() - i,
    {
        if text_in(&running_ids[i], over_ids) {
            assert(over.contains(ids[i as int]));
            return LoopAction::Finish;
        }
        i = i + 1;
    }
    LoopAction::Launch
}

/// Why a flow's executor refuses to start.
pub enum FlowRunError {
    /// The flow is already running; the text says so.
    Conflict(String),
}

/// Marks the executor as running: refused with a conflict when it already
/// runs, in which case nothing changes.
pub fn begin_run(running: &mut bool) -> (r: Result<(), FlowRunError>)
    ensures
        *old(running) ==> (r matches Err(FlowRunError::Conflict(m)) && m@ == "Flow is already running"@),
        !*old(running) ==> r is Ok,
        *final(running),
{
    if *running {
        return Err(FlowRunError::Conflict("Flow is already running".to_string()));
    }
    *running = true;
    Ok(())
}

/// Marks the executor as stopped; true when it ran, so that its nodes must
/// be told to stop.
pub fn end_run(running: &mut bool) -> (r: bool)
    ensures
        r == *old(running),
        !*final(running),
{
    let was = *running;
    *running = false;
    was
}

/// Once the executor runs with no agent at work, checks that find no running
/// node stop the runtime on the `IDLE_LIMIT`-th in a row and not before:
/// starting from any count `idle`, the next `IDLE_LIMIT - idle - 1` checks
/// wait and the one after stops.
pub proof fn lemma_idle_checks_stop(over_ids: Seq<Seq<char>>, idle: u32)
    requires
        idle < IDLE_LIMIT,
    ensures
        supervise_spec(true, false, Seq::empty(), over_ids, idle).1 == idle + 1,
        supervise_spec(true, false, Seq::empty(), over_ids, idle).0 == (if idle + 1 == IDLE_LIMIT {
            LoopAction::StopRuntime
        } else {
            LoopAction::Wait
        }),
{
}

/// The pattern of a decision written by the model: `` `next <name>` ``.
pub const DECISION_PATTERN: &'static str = "`next\\s+([^`]+)`";

/// The text of capture group 1 in the leftmost-first match of the regular
/// expression `pattern` in `text`; `None` when the pattern does not compile,
/// does not match, or the group takes no part in the match.
pub uninterp spec fn regex_first_group(pattern: Seq<char>, text: Seq<char>) -> Option<Seq<char>>;

/// Compiles `pattern` with `regex::Regex::new` and runs `Regex::captures` on
/// `text`. The contract claims only that the result is capture group 1 of
/// that search, as a function of the pattern and the text; the matching
/// itself is the regex crate's.
#[verifier::external_body]
fn first_capture(pattern: &str, text: &str) -> (r: Option<String>)
    ensures
        opt_view(r) == regex_first_group(pattern@, text@),
{
    let re = match regex::Regex::new(pattern) {
        Ok(re) => re,
        Err(_) => return None,
    };
    re.captures(text).and_then(|c| c.get(1)).map(|m| m.as_str().to_string())
}

/// `rand::random::<usize>()`: a number from the thread's generator. Nothing
/// is claimed of it.
#[verifier::external_body]
fn random_usize() -> usize {
    rand::random::<usize>()
}

/// The edges whose label is exactly `d`, in order.
pub open spec fn matching_edges(edges: Seq<NodeEdge>, d: Seq<char>) -> Seq<NodeEdge>
    decreases edges.len(),
{
    if edges.len() == 0 {
        Seq::empty()
    } else if edges.last().value@ == d {
        matching_edges(edges.drop_last(), d).push(edges.last())
    } else {
        matching_edges(edges.drop_last(), d)
    }
}

/// The decision written on a line of its own: searching the lines from the
/// last, the first one that, trimmed, starts with `next` gives what follows
/// `next` (untrimmed), or nothing when that is empty.
pub open spec fn line_decision(ls: Seq<Seq<char>>) -> Option<Seq<char>>
    decreases ls.len(),
{
    if ls.len() == 0 {
        None
    } else {
        let t = trim(ls.last());
        if has_prefix(t, "next"@) {
            let rest = t.subrange(4, t.len() as int);
            if rest.len() == 0 {
                None
            } else {
                Some(rest)
            }
        } else {
            line_decision(ls.drop_last())
        }
    }
}

/// The node a reply leads to, once group 1 of the decision pattern is known:
/// the trimmed capture names a decision, and the edge with that label gives
/// the target (the `pick`-th modulo their number when several share it);
/// without a capture, the last line that starts with `next` gives it.
pub open spec fn decide_spec(
    capture: Option<Seq<char>>,
    response: Seq<char>,
    edges: Seq<NodeEdge>,
    pick: usize,
) -> Option<Seq<char>> {
    match capture {
        Some(c) => {
            let m = matching_edges(edges, trim(c));
            if m.len() == 0 {
                None
            } else {
                Some(m[(pick as int) % (m.len() as int)].to@)
            }
        },
        None => line_decision(lines(response)),
    }
}

/// Positions of the edges labelled exactly `d`.
fn matching_positions(edges: &Vec<NodeEdge>, d: &String) -> (r: Vec<usize>)
    ensures
        r@.len() == matching_edges(edges@, d@).len(),
        forall|k: int|
            0 <= k < r@.len() ==> #[trigger] r@[k] < edges@.len() && edges@[r@[k] as int]
                == matching_edges(edges@, d@)[k],
{
    let mut r: Vec<usize> = Vec::new();
    let mut i: usize = 0;
    while i < edges.len()
        invariant
            0 <= i <= edges.len(),
            r@.len() == matching_edges(edges@.take(i as int), d@).len(),
            forall|k: int|
                0 <= k < r@.len() ==> #[trigger] r@[k] < edges@.len() && edges@[r@[k] as int]
                    == matching_edges(edges@.take(i as int), d@)[k],
        decreases edges.len() - i,
    {
        proof {
            assert(edges@.take(i + 1).drop_last() =~= edges@.take(i as int));
        }
        if text_eq(edges[i].value.as_str(), d.as_str()) {
            r.push(i);
        }
        i = i + 1;
    }
    assert(edges@.take(edges.len() as int) =~= edges@);
    r
}

/// The decision on the lines of a reply (see `line_decision`).
fn line_decision_exec(response: &str) -> (r: Option<String>)
    ensures
        opt_view(r) == line_decision(lines(response@)),
{
    let cs = chars_of(response);
    let ls = lines_of(cs.as_slice());
    let ghost spec_ls = lines(response@);
    let next = chars_of("next");
    proof {
        reveal_strlit("next");
    }
    let mut i: usize = ls.len();
    assert(spec_ls.take(ls.len() as int) =~= spec_ls);
    while i > 0
        invariant
            0 <= i <= ls.len(),
            ls@.len() == spec_ls.len(),
            spec_ls == lines(response@),
            next@ == "next"@,
            next@.len() == 4,
            forall|k: int| 0 <= k < ls@.len() ==> #[trigger] ls@[k]@ == spec_ls[k],
            line_decision(spec_ls) == line_decision(spec_ls.take(i as int)),
        decreases i,
    {
        let t = trim_chars(ls[i - 1].as_slice());
        proof {
            assert(spec_ls.take(i as int).drop_last() =~= spec_ls.take(i - 1));
            assert(spec_ls.take(i as int).last() == spec_ls[i - 1]);
        }
        if starts_with(t.as_slice(), next.as_slice()) {
            let rest = slice_chars(t.as_slice(), 4, t.len());
            if rest.len() == 0 {
                return None;
            }
            return Some(string_of(rest.as_slice()));
        }
        i = i - 1;
    }
    None
}

/// The node a reply leads to, given group 1 of the decision pattern in the
/// reply and the number `pick` that chooses among edges sharing a label.
pub fn decide(capture: Option<String>, response: &str, edges: &Vec<NodeEdge>, pick: usize) -> (r: Option<String>)
    ensures
        opt_view(r) == decide_spec(opt_view(capture), response@, edges@, pick),
{
    match capture {
        Some(c) => {
            let d = trimmed(c.as_str());
            let m = matching_positions(edges, &d);
            if m.len() == 0 {
                None
            } else {
                let k = pick % m.len();
                Some(edges[m[k]].to.clone())
            }
        },
        None => line_decision_exec(response),
    }
}

/// The node a reply leads to: the decision written as `` `next <name>` ``
/// names the label of an edge, and its target is the answer (a random one of
/// them when several edges share the label; none when no edge has it); a
/// reply without such a decision is read line by line from the end for a
/// line that starts with `next`.
pub fn parse_decision(response: &str, edges: &Vec<NodeEdge>) -> (r: Option<String>)
    ensures
        match regex_first_group(DECISION_PATTERN@, response@) {
            None => opt_view(r) == line_decision(lines(response@)),
            Some(c) => {
                let m = matching_edges(edges@, trim(c));
                &&& (m.len() == 0 <==> r is None)
                &&& (m.len() == 1 ==> opt_view(r) == Some(m[0].to@))
                &&& (r is Some ==> exists|k: int| 0 <= k < m.len() && r->0@ == (#[trigger] m[k]).to@)
            },
        },
{
    let capture = first_capture(DECISION_PATTERN, response);
    let mut pick: usize = 0;
    match &capture {
        Some(c) => {
            let d = trimmed(c.as_str());
            let m = matching_positions(edges, &d);
            if m.len() > 1 {
                pick = random_usize();
            }
        },
        None => {},
    }
    let r = decide(capture, response, edges, pick);
    proof {
        match regex_first_group(DECISION_PATTERN@, response@) {
            Some(c) => {
                let m = matching_edges(edges@, trim(c));
                if m.len() > 0 {
                    let k = (pick as int) % (m.len() as int);
                    assert(0 <= k < m.len());
                    assert(r->0@ == m[k].to@);
                }
            },
            None => {},
        }
    }
    r
}

/// The rule that closes every node's instructions.
pub const TASK_CONSTRAINT: &'static str = "**任务约束**：如果已经完成所有任务请输出`__stop__`";

/// What the agent says after recording a message, to keep the model going.
pub const CONTINUE_PROMPT: &'static str = "请继续执行任务，直到本次任务目标全部完成，同时必须做出下一步决策，决策输出必须严格按照**决策支撑**规则输出决策。";

/// What the agent records when the model asks for a person.
pub const HUMAN_REQUEST: &'static str = "请求人工参与";

/// The opening of the decision instructions.
pub const DECISION_HEAD: &'static str = "**决策支撑**:你需要做出行动以支持以下决策，每个决策都有一个名称。\n";

/// The close of the decision instructions: how a decision is written.
pub const DECISION_TAIL: &'static str = "\n必须在输出结尾中从决策选项中选择一项进行输出，输出格式`next <决策名称>`或者`__stop__`，例如： `next 下一步`，**一定要用 `符号将决策输出包围起来，决策输出必须在输出末尾输出，并且末尾不能出现任何其它内容！**";

/// The ids an agent works with.
pub open spec fn context_prompt_spec(user_id: i64, runtime_id: i64) -> Seq<char> {
    "**UserId**："@ + int_text(user_id as int) + "\n**FlowRuntimeId:**"@ + int_text(runtime_id as int)
        + "\n其他ID为0"@
}

/// The message that tells the model the user and runtime ids.
pub fn context_prompt(user_id: i64, runtime_id: i64) -> (r: String)
    ensures
        r@ == context_prompt_spec(user_id, runtime_id),
{
    let mut r = String::new();
    r.append("**UserId**：");
    let u = i64_string(user_id);
    r.append(u.as_str());
    r.append("\n**FlowRuntimeId:**");
    let t = i64_string(runtime_id);
    r.append(t.as_str());
    r.append("\n其他ID为0");
    r
}

/// The message that states the node's task.
pub fn goal_prompt(action: &str) -> (r: String)
    ensures
        r@ == "**任务目标**："@ + action@,
{
    let mut r = String::new();
    r.append("**任务目标**：");
    r.append(action);
    r
}

/// One line per decision, joined by new lines.
pub open spec fn decision_lines(edges: Seq<NodeEdge>) -> Seq<char>
    decreases edges.len(),
{
    if edges.len() == 0 {
        Seq::empty()
    } else if edges.len() == 1 {
        "决策名称：`"@ + edges[0].value@ + "`"@
    } else {
        decision_lines(edges.drop_last()) + "\n"@ + "决策名称：`"@ + edges.last().value@ + "`"@
    }
}

/// The decision instructions for the edges that leave a node.
pub open spec fn decision_prompt_spec(edges: Seq<NodeEdge>) -> Seq<char> {
    DECISION_HEAD@ + decision_lines(edges) + DECISION_TAIL@
}

/// The instructions that list the decisions the model may take and how to
/// write one.
pub fn decision_prompt(edges: &Vec<NodeEdge>) -> (r: String)
    ensures
        r@ == decision_prompt_spec(edges@),
{
    let mut r = String::new();
    r.append(DECISION_HEAD);
    let ghost head = r@;
    let mut i: usize = 0;
    while i < edges.len()
        invariant
            0 <= i <= edges.len(),
            r@ == head + decision_lines(edges@.take(i as int)),
        decreases edges.len() - i,
    {
        proof {
            assert(edges@.take(i + 1).drop_last() =~= edges@.take(i as int));
        }
        if i > 0 {
            r.append("\n");
        }
        r.append("决策名称：`");
        r.append(edges[i].value.as_str());
        r.append("`");
        proof {
            if i == 0 {
                assert(edges@.take(1)[0] == edges@[0]);
            }
            assert(r@ =~= head + decision_lines(edges@.take(i + 1)));
        }
        i = i + 1;
    }
    assert(edges@.take(edges.len() as int) =~= edges@);
    r.append(DECISION_TAIL);
    r
}

/// The system messages that open a node's conversation, in order.
pub open spec fn node_prompts_spec(
    user_id: i64,
    runtime_id: i64,
    definition: Option<Seq<char>>,
    prompt: Option<Seq<char>>,
    edges: Seq<NodeEdge>,
    action: Seq<char>,
) -> Seq<Seq<char>> {
    let a = seq![context_prompt_spec(user_id, runtime_id)];
    let b = match definition {
        Some(d) => a.push(d),
        None => a,
    };
    let c = match prompt {
        Some(p) => b.push(p),
        None => b,
    };
    let d = if edges.len() > 0 {
        c.push(decision_prompt_spec(edges))
    } else {
        c
    };
    d.push(TASK_CONSTRAINT@).push("**任务目标**："@ + action)
}

/// The system messages a node agent gives the model before its work: the
/// ids, the agent's definition and the node's prompt when present, the
/// decisions when the node has outgoing edges, the rule to stop, and the
/// task.
pub fn node_prompts(
    user_id: i64,
    runtime_id: i64,
    definition: Option<&str>,
    prompt: Option<&str>,
    edges: &Vec<NodeEdge>,
    action: &str,
) -> (r: Vec<String>)
    ensures
        r@.map_values(|s: String| s@) == node_prompts_spec(
            user_id,
            runtime_id,
            crate::flow::opt_str(definition),
            crate::flow::opt_str(prompt),
            edges@,
            action@,
        ),
{
    let mut r: Vec<String> = Vec::new();
    r.push(context_prompt(user_id, runtime_id));
    match definition {
        Some(d) => r.push(d.to_string()),
        None => {},
    }
    match prompt {
        Some(p) => r.push(p.to_string()),
        None => {},
    }
    if edges.len() > 0 {
        r.push(decision_prompt(edges));
    }
    r.push(TASK_CONSTRAINT.to_string());
    r.push(goal_prompt(action));
    assert(r@.map_values(|s: String| s@) =~= node_prompts_spec(
        user_id,
        runtime_id,
        crate::flow::opt_str(definition),
        crate::flow::opt_str(prompt),
        edges@,
        action@,
    ));
    r
}

/// The role a message takes in the conversation: the model's messages are the
/// assistant's, a person's are the user's.
pub open spec fn role_spec(t: NodeAgentMsgType) -> Seq<char> {
    match t {
        NodeAgentMsgType::AI => "assistant"@,
        NodeAgentMsgType::Human => "user"@,
    }
}

/// The role of a message of the given kind.
pub fn role_of(t: NodeAgentMsgType) -> (r: String)
    ensures
        r@ == role_spec(t),
{
    match t {
        NodeAgentMsgType::AI => "assistant".to_string(),
        NodeAgentMsgType::Human => "user".to_string(),
    }
}

/// The messages an agent received while waiting, as one: the last one's
/// address and kind, with the texts of all of them joined in order.
pub open spec fn joined_texts(msgs: Seq<NodeAgentMsg>) -> Seq<char>
    decreases msgs.len(),
{
    if msgs.len() == 0 {
        Seq::empty()
    } else {
        joined_texts(msgs.drop_last()) + msgs.last().msg@
    }
}

/// The pieces of a streamed reply put back together: `None` when nothing
/// came, else the last piece's address and kind with all the texts joined.
pub fn gather(msgs: &Vec<NodeAgentMsg>) -> (r: Option<NodeAgentMsg>)
    ensures
        msgs@.len() == 0 <==> r is None,
        r is Some ==> {
            let m = r->0;
            &&& m.runtime_node_id == msgs@.last().runtime_node_id
            &&& m.msg_type == msgs@.last().msg_type
            &&& m.msg@ == joined_texts(msgs@)
        },
{
    if msgs.len() == 0 {
        return None;
    }
    let mut buf = String::new();
    let mut i: usize = 0;
    while i < msgs.len()
        invariant
            0 <= i <= msgs.len(),
            buf@ == joined_texts(msgs@.take(i as int)),
        decreases msgs.len() - i,
    {
        proof {
            assert(msgs@.take(i + 1).drop_last() =~= msgs@.take(i as int));
        }
        buf.append(msgs[i].msg.as_str());
        i = i + 1;
    }
    assert(msgs@.take(msgs.len() as int) =~= msgs@);
    let last = &msgs[msgs.len() - 1];
    Some(NodeAgentMsg { runtime_node_id: last.runtime_node_id, msg: buf, msg_type: last.msg_type })
}

/// What an agent does with a message it received.
#[derive(PartialEq, Eq, Structural, Clone, Copy, Debug)]
pub enum Incoming {
    /// End the node's work.
    Stop,
    /// Wait for a person.
    AskHuman,
    /// Add it to the conversation and ask the model to go on.
    Record,
}

/// How a received message is handled: a broadcast or a text that holds
/// `__stop__` ends the work, one that holds `__human__` calls a person, any
/// other is recorded.
pub open spec fn incoming_spec(id: i64, text: Seq<char>) -> Incoming {
    if id == 0 || contains_seq(text, "__stop__"@) {
        Incoming::Stop
    } else if contains_seq(text, "__human__"@) {
        Incoming::AskHuman
    } else {
        Incoming::Record
    }
}

/// How the agent handles a received message.
pub fn classify_incoming(msg: &NodeAgentMsg) -> (r: Incoming)
    ensures
        r == incoming_spec(msg.runtime_node_id, msg.msg@),
{
    if msg.runtime_node_id == 0 {
        return Incoming::Stop;
    }
    if text_contains(msg.msg.as_str(), "__stop__") {
        return Incoming::Stop;
    }
    if text_contains(msg.msg.as_str(), "__human__") {
        return Incoming::AskHuman;
    }
    Incoming::Record
}

/// What an agent does after the model's reply.
pub enum ReplyOutcome {
    /// The node's work is over, with no decision.
    Done,
    /// The node's work is over and leads to this node.
    Decided(String),
    /// Wait for a person.
    AskHuman,
    /// Ask the model again.
    Again,
}

/// `r` is how a reply is handled, given the decision read from it: a blank
/// reply ends the work; else a decision ends it towards its node,
/// `__stop__` ends it, `__human__` calls a person, and otherwise the model is
/// asked again.
pub open spec fn reply_handled(r: ReplyOutcome, reply: Seq<char>, decision: Option<Seq<char>>) -> bool {
    if trim(reply).len() == 0 {
        r is Done
    } else {
        match decision {
            Some(d) => r is Decided && r->0@ == d,
            None => if contains_seq(reply, "__stop__"@) {
                r is Done
            } else if contains_seq(reply, "__human__"@) {
                r is AskHuman
            } else {
                r is Again
            },
        }
    }
}

/// How the agent handles the model's reply, given the decision read from it
/// (see `parse_decision`).
pub fn classify_reply(reply: &str, decision: Option<String>) -> (r: ReplyOutcome)
    ensures
        reply_handled(r, reply@, opt_view(decision)),
{
    let t = trimmed(reply);
    if t.as_str().is_empty() {
        return ReplyOutcome::Done;
    }
    match decision {
        Some(d) => ReplyOutcome::Decided(d),
        None => {
            if text_contains(reply, "__stop__") {
                ReplyOutcome::Done
            } else if text_contains(reply, "__human__") {
                ReplyOutcome::AskHuman
            } else {
                ReplyOutcome::Again
            }
        },
    }
}

/// What a node agent does before asking the model.
#[derive(PartialEq, Eq, Structural, Clone, Copy, Debug)]
pub enum NodeStep {
    /// A node without an agent that waits for a person: take one message
    /// from the person, record it under its role, clear the node's waiting
    /// mark, and end.
    HumanOnly,
    /// A person is asked for: the next message is read from the person's
    /// channel (and the waiting mark cleared) before anything else.
    AwaitHuman,
    /// No agent runs this node: its work ends.
    End,
    /// Ask the node's agent model.
    AskModel,
}

/// The step of a node agent: at the start, a node without an agent that
/// waits for a person takes the person-only path; afterwards a waiting node
/// reads the person's message, a node without an agent ends, and any other
/// asks its model.
pub open spec fn node_step_spec(action_id: i64, human: bool, at_start: bool) -> NodeStep {
    if at_start && action_id == 0 && human {
        NodeStep::HumanOnly
    } else if human {
        NodeStep::AwaitHuman
    } else if action_id == 0 {
        NodeStep::End
    } else {
        NodeStep::AskModel
    }
}

/// What a node agent with agent `action_id` does before asking the model;
/// `human` tells whether it waits for a person and `at_start` whether it has
/// not yet entered its loop.
pub fn node_step(action_id: i64, human: bool, at_start: bool) -> (r: NodeStep)
    ensures
        r == node_step_spec(action_id, human, at_start),
{
    if at_start && action_id == 0 && human {
        NodeStep::HumanOnly
    } else if human {
        NodeStep::AwaitHuman
    } else if action_id == 0 {
        NodeStep::End
    } else {
        NodeStep::AskModel
    }
}

} // verus!
