use rust_saas::agent::{
    classify_incoming, classify_reply, context_prompt, decide, decision_prompt, gather, goal_prompt,
    has_running_agent, node_edges, node_prompts, over_node_ids, parse_decision, role_of,
    route_message, supervise, Incoming, LoopAction, NodeAgentMsg, NodeAgentMsgType, NodeEdge,
    ReplyOutcome, Route, DECISION_HEAD, DECISION_TAIL, IDLE_LIMIT, TASK_CONSTRAINT, begin_run,
    end_run, node_step, FlowRunError, NodeStep,
};
use rust_saas::flow::{Edge, FlowConfigModel, Vertex};

fn vertex(id: &str, vtype: &str) -> Vertex {
    Vertex {
        id: id.to_string(),
        vtype: vtype.to_string(),
        value: id.to_string(),
        prompt: None,
        agent: None,
        degree: None,
    }
}

fn edge(src: &str, target: &str, value: &str) -> Edge {
    Edge { src: src.to_string(), target: target.to_string(), value: value.to_string() }
}

fn node_edge(to: &str, value: &str) -> NodeEdge {
    NodeEdge { from: "a".to_string(), to: to.to_string(), value: value.to_string() }
}

fn config() -> FlowConfigModel {
    FlowConfigModel {
        vertices: vec![vertex("s", "start"), vertex("a", "task"), vertex("z", "end"), vertex("o", "over")],
        edges: vec![edge("s", "a", ""), edge("a", "z", "finish"), edge("a", "o", "quit")],
    }
}

#[test]
fn edges_of_a_node() {
    let es = node_edges(&config(), &"a".to_string());
    assert_eq!(es.len(), 2);
    assert_eq!(es[0].from, "a");
    assert_eq!(es[0].to, "z");
    assert_eq!(es[1].value, "quit");
    assert!(node_edges(&config(), &"z".to_string()).is_empty());
}

#[test]
fn routing() {
    let agents = vec![4, 9];
    assert_eq!(route_message(-1, &agents), Route::Drop);
    assert_eq!(route_message(0, &agents), Route::Broadcast);
    assert_eq!(route_message(9, &agents), Route::Deliver(9));
    assert_eq!(route_message(5, &agents), Route::Drop);
}

#[test]
fn closing_vertices() {
    assert_eq!(over_node_ids(&config()), vec!["z".to_string(), "o".to_string()]);
}

#[test]
fn idle_checks_stop_on_the_fifth() {
    let over: Vec<String> = vec![];
    let none: Vec<String> = vec![];
    let mut idle: u32 = 0;
    for _ in 1..IDLE_LIMIT {
        assert_eq!(supervise(true, false, &none, &over, &mut idle), LoopAction::Wait);
    }
    assert_eq!(idle, IDLE_LIMIT - 1);
    assert_eq!(supervise(true, false, &none, &over, &mut idle), LoopAction::StopRuntime);
    assert_eq!(idle, IDLE_LIMIT);
}

#[test]
fn supervising_decisions() {
    let over = vec!["z".to_string()];
    let mut idle: u32 = 3;
    assert_eq!(supervise(false, false, &vec![], &over, &mut idle), LoopAction::Halt);
    assert_eq!(idle, 3);
    assert_eq!(supervise(true, true, &vec![], &over, &mut idle), LoopAction::Wait);
    assert_eq!(idle, 3);
    assert_eq!(supervise(true, false, &vec!["a".to_string()], &over, &mut idle), LoopAction::Launch);
    assert_eq!(idle, 0);
    idle = 2;
    assert_eq!(
        supervise(true, false, &vec!["a".to_string(), "z".to_string()], &over, &mut idle),
        LoopAction::Finish
    );
    assert_eq!(idle, 0);
    assert!(has_running_agent(&vec![1, 2, 3], &vec![7, 3]));
    assert!(!has_running_agent(&vec![1, 2], &vec![7, 3]));
    assert!(!has_running_agent(&vec![], &vec![7]));
}

#[test]
fn decisions_from_replies() {
    let edges = vec![node_edge("z", "finish"), node_edge("o", "quit")];
    assert_eq!(parse_decision("all done `next finish`", &edges), Some("z".to_string()));
    assert_eq!(parse_decision("`next   quit `", &edges), Some("o".to_string()));
    assert_eq!(parse_decision("`next unknown`", &edges), None);
    // without the quoted form, the last line starting with `next` decides
    assert_eq!(parse_decision("work\n  next quit\nthanks", &edges), Some(" quit".to_string()));
    assert_eq!(parse_decision("no decision here", &edges), None);
}

#[test]
fn shared_labels_pick_among_targets() {
    let edges = vec![node_edge("x", "go"), node_edge("y", "go")];
    let r = parse_decision("`next go`", &edges).unwrap();
    assert!(r == "x" || r == "y");
    assert_eq!(decide(Some("go".to_string()), "", &edges, 0), Some("x".to_string()));
    assert_eq!(decide(Some(" go ".to_string()), "", &edges, 3), Some("y".to_string()));
    assert_eq!(decide(None, "next step", &edges, 0), Some(" step".to_string()));
}

#[test]
fn prompts() {
    assert_eq!(context_prompt(3, 8), "**UserId**：3\n**FlowRuntimeId:**8\n其他ID为0");
    assert_eq!(goal_prompt("写代码"), "**任务目标**：写代码");
    let edges = vec![node_edge("z", "finish"), node_edge("o", "quit")];
    assert_eq!(
        decision_prompt(&edges),
        format!("{}决策名称：`finish`\n决策名称：`quit`{}", DECISION_HEAD, DECISION_TAIL)
    );
    let ps = node_prompts(3, 8, Some("def"), None, &edges, "act");
    assert_eq!(ps.len(), 5);
    assert_eq!(ps[1], "def");
    assert_eq!(ps[3], TASK_CONSTRAINT);
    assert_eq!(ps[4], "**任务目标**：act");
    let bare = node_prompts(3, 8, None, Some("p"), &vec![], "act");
    assert_eq!(bare, vec![context_prompt(3, 8), "p".to_string(), TASK_CONSTRAINT.to_string(), goal_prompt("act")]);
}

#[test]
fn messages() {
    assert_eq!(role_of(NodeAgentMsgType::AI), "assistant");
    assert_eq!(role_of(NodeAgentMsgType::Human), "user");
    assert!(gather(&vec![]).is_none());
    let mut second = NodeAgentMsg::new(6, "lo".to_string());
    second.msg_type = NodeAgentMsgType::Human;
    let g = gather(&vec![NodeAgentMsg::new(5, "hel".to_string()), second]).unwrap();
    assert_eq!(g.msg, "hello");
    assert_eq!(g.runtime_node_id, 6);
    assert_eq!(g.msg_type, NodeAgentMsgType::Human);
}

#[test]
fn incoming_and_replies() {
    assert_eq!(classify_incoming(&NodeAgentMsg::new(0, "hi".to_string())), Incoming::Stop);
    assert_eq!(classify_incoming(&NodeAgentMsg::new(3, "x __stop__".to_string())), Incoming::Stop);
    assert_eq!(classify_incoming(&NodeAgentMsg::new(3, "__human__".to_string())), Incoming::AskHuman);
    assert_eq!(classify_incoming(&NodeAgentMsg::new(3, "text".to_string())), Incoming::Record);
    assert!(matches!(classify_reply("   ", Some("z".to_string())), ReplyOutcome::Done));
    match classify_reply("ok", Some("z".to_string())) {
        ReplyOutcome::Decided(d) => assert_eq!(d, "z"),
        _ => panic!("expected a decision"),
    }
    assert!(matches!(classify_reply("__stop__", None), ReplyOutcome::Done));
    assert!(matches!(classify_reply("need __human__", None), ReplyOutcome::AskHuman));
    assert!(matches!(classify_reply("keep going", None), ReplyOutcome::Again));
}

#[test]
fn starting_a_running_flow_is_a_conflict() {
    let mut running = false;
    assert!(begin_run(&mut running).is_ok());
    assert!(running);
    match begin_run(&mut running) {
        Err(FlowRunError::Conflict(m)) => assert_eq!(m, "Flow is already running"),
        Ok(()) => panic!("a running flow must not start again"),
    }
    assert!(running);
    assert!(end_run(&mut running));
    assert!(!running);
    assert!(!end_run(&mut running));
}

#[test]
fn node_steps() {
    // a node without an agent that waits for a person takes the person-only path
    assert_eq!(node_step(0, true, true), NodeStep::HumanOnly);
    // later, a waiting node reads the person's message first
    assert_eq!(node_step(0, true, false), NodeStep::AwaitHuman);
    assert_eq!(node_step(3, true, true), NodeStep::AwaitHuman);
    // without an agent the node ends; with one it asks the model
    assert_eq!(node_step(0, false, true), NodeStep::End);
    assert_eq!(node_step(3, false, false), NodeStep::AskModel);
}
