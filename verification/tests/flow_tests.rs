use rust_saas::flow::{
    choose_edges, extract_head_nodes, find_next_nodes, find_vertex_index, head_node_creates,
    plan_completion, Completion, Edge, FlowConfigModel, FlowRuntimeNode, NodeStatus, Vertex,
};

fn vertex(id: &str, vtype: &str, value: &str, agent: Option<i64>, degree: Option<i64>) -> Vertex {
    Vertex {
        id: id.to_string(),
        vtype: vtype.to_string(),
        value: value.to_string(),
        prompt: None,
        agent,
        degree,
    }
}

fn edge(src: &str, target: &str, value: &str) -> Edge {
    Edge { src: src.to_string(), target: target.to_string(), value: value.to_string() }
}

fn node(id: i64, flow_node_id: &str, status: NodeStatus) -> FlowRuntimeNode {
    FlowRuntimeNode {
        id,
        flow_runtime_id: 7,
        flow_id: 3,
        flow_node_id: flow_node_id.to_string(),
        action_id: 0,
        action: String::new(),
        prompt: None,
        status,
        next_choice: None,
        created_at: 1000,
        human: 0,
    }
}

/// start -> a -> (yes: b, no: end); b -> c (waits for a and b)
fn sample() -> FlowConfigModel {
    FlowConfigModel {
        vertices: vec![
            vertex("s", "start", "begin", None, None),
            vertex("a", "task", "write code", Some(11), Some(1)),
            vertex("b", "input", "review", Some(12), Some(1)),
            vertex("e", "terminate", "done", None, None),
            vertex("c", "task", "merge", None, Some(100)),
        ],
        edges: vec![
            edge("s", "a", ""),
            edge("a", "b", "yes"),
            edge("a", "e", "no"),
            edge("b", "c", ""),
            edge("a", "c", "both"),
        ],
    }
}

#[test]
fn head_nodes_are_targets_of_start() {
    let cfg = sample();
    let heads = extract_head_nodes(&cfg);
    assert_eq!(heads, vec![1]);
    let creates = head_node_creates(&cfg);
    assert_eq!(creates.len(), 1);
    assert_eq!(creates[0].flow_node_id, "a");
    assert_eq!(creates[0].action_id, 11);
    assert_eq!(creates[0].action, "write code");
    assert_eq!(creates[0].status, NodeStatus::Running);
    assert_eq!(creates[0].human, 0);
    assert!(creates[0].next_choice.is_none());
}

#[test]
fn find_vertex_by_id() {
    let cfg = sample();
    assert_eq!(find_vertex_index(&cfg.vertices, &"b".to_string()), Some(2));
    assert_eq!(find_vertex_index(&cfg.vertices, &"zz".to_string()), None);
}

#[test]
fn choice_selects_labelled_edge() {
    let cfg = sample();
    assert_eq!(choose_edges(&cfg, &"a".to_string(), Some(" yes ")), vec![1]);
    assert_eq!(choose_edges(&cfg, &"a".to_string(), None), vec![1, 2, 4]);
    // a label contained in the choice text also matches
    assert_eq!(choose_edges(&cfg, &"a".to_string(), Some("answer: no")), vec![2]);
}

#[test]
fn choice_falls_back_to_vertex_value() {
    let cfg = sample();
    // no label names "review"; vertex b has that value and is a target
    // a vertex whose value occurs in the choice lets every edge pass
    assert_eq!(choose_edges(&cfg, &"a".to_string(), Some("review")), vec![1, 2, 4]);
    assert_eq!(choose_edges(&cfg, &"a".to_string(), Some("xyz")), Vec::<usize>::new());
}

#[test]
fn next_nodes_for_yes() {
    let cfg = sample();
    let cur = node(5, "a", NodeStatus::RunningOver);
    let existing = vec![node(5, "a", NodeStatus::RunningOver)];
    let next = find_next_nodes(&cfg, &cur, &existing, Some("yes")).unwrap();
    assert_eq!(next.len(), 1);
    assert_eq!(next[0].flow_node_id, "b");
    assert_eq!(next[0].human, 1);
    assert_eq!(next[0].action_id, 12);
    assert_eq!(next[0].flow_runtime_id, 7);
    assert_eq!(next[0].flow_id, 3);
    assert_eq!(next[0].created_at, 1000);
    assert_eq!(next[0].id, 0);
    assert_eq!(next[0].status, NodeStatus::Running);
}

#[test]
fn terminal_vertex_ends_flow() {
    let cfg = sample();
    let cur = node(5, "a", NodeStatus::RunningOver);
    assert!(find_next_nodes(&cfg, &cur, &[], Some("no")).is_none());
}

#[test]
fn join_vertex_waits_for_all_predecessors() {
    let cfg = sample();
    let cur = node(6, "b", NodeStatus::RunningOver);
    // a has not completed: c is not added
    let only_b = vec![node(6, "b", NodeStatus::RunningOver), node(5, "a", NodeStatus::Running)];
    assert_eq!(find_next_nodes(&cfg, &cur, &only_b, None).unwrap().len(), 0);
    // both done: c is added
    let both = vec![node(6, "b", NodeStatus::RunningOver), node(5, "a", NodeStatus::RunningOver)];
    let next = find_next_nodes(&cfg, &cur, &both, None).unwrap();
    assert_eq!(next.len(), 1);
    assert_eq!(next[0].flow_node_id, "c");
}

#[test]
fn plan_completion_cases() {
    let cfg = sample();
    let nodes = vec![node(5, "a", NodeStatus::Running)];
    assert!(plan_completion(&cfg, &nodes, 99, None).is_none());
    match plan_completion(&cfg, &nodes, 5, Some("no")) {
        Some(Completion::Terminate(t)) => assert_eq!(t, "5"),
        _ => panic!("expected the flow to end"),
    }
    match plan_completion(&cfg, &nodes, 5, Some("yes")) {
        Some(Completion::Advance(cs)) => {
            assert_eq!(cs.len(), 1);
            assert_eq!(cs[0].flow_node_id, "b");
            assert_eq!(cs[0].human, 1);
        }
        _ => panic!("expected new nodes"),
    }
}
