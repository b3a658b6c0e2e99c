use rust_saas::tool_calls::{
    classify_sse_line, copy_call, done_response, fill_default_arguments, has_tool_calls,
    merge_tool_call, stream_step, text_response, tool_arguments, tool_name, tool_response,
    tool_result_text, tool_server_id, ChunkState, SseLine, StreamAction, StreamDelta,
    StreamEvent, ToolCallFunction, ToolCallInfo, ToolRef,
};

fn delta(index: Option<i32>, id: Option<&str>, name: Option<&str>, args: Option<&str>) -> ToolCallInfo {
    ToolCallInfo {
        id: id.map(|s| s.to_string()),
        tool_type: None,
        function: Some(ToolCallFunction {
            name: name.map(|s| s.to_string()),
            arguments: args.map(|s| s.to_string()),
        }),
        name: None,
        arguments: None,
        index,
    }
}

fn fn_name(t: &ToolCallInfo) -> Option<String> {
    t.function.as_ref().and_then(|f| f.name.clone())
}

fn fn_args(t: &ToolCallInfo) -> Option<String> {
    t.function.as_ref().and_then(|f| f.arguments.clone())
}

#[test]
fn pieces_of_a_call_are_merged() {
    let mut acc: Vec<ToolCallInfo> = Vec::new();
    merge_tool_call(&mut acc, &delta(Some(0), Some("call_1"), Some("search"), Some("{\"q\":")));
    merge_tool_call(&mut acc, &delta(Some(0), None, None, Some("\"rust\"}")));
    assert_eq!(acc.len(), 1);
    assert_eq!(acc[0].id, Some("call_1".to_string()));
    assert_eq!(acc[0].tool_type, Some("function".to_string()));
    assert_eq!(fn_name(&acc[0]), Some("search".to_string()));
    assert_eq!(fn_args(&acc[0]), Some("{\"q\":\"rust\"}".to_string()));
    assert_eq!(acc[0].index, Some(0));
    // a second index opens a second call
    merge_tool_call(&mut acc, &delta(Some(1), Some("call_2"), Some("read"), None));
    assert_eq!(acc.len(), 2);
    assert_eq!(fn_name(&acc[1]), Some("read".to_string()));
    assert_eq!(fn_args(&acc[1]), None);
}

#[test]
fn top_level_arguments_fill_empty_function_arguments() {
    let mut acc: Vec<ToolCallInfo> = Vec::new();
    let mut d = delta(None, Some("c"), Some("t"), None);
    d.arguments = Some("{\"a\":1}".to_string());
    merge_tool_call(&mut acc, &d);
    assert_eq!(fn_args(&acc[0]), Some("{\"a\":1}".to_string()));
}

#[test]
fn sse_lines() {
    assert!(matches!(classify_sse_line("  data: [DONE] "), SseLine::Done));
    match classify_sse_line("data: {\"x\":1}\r") {
        SseLine::Data(d) => assert_eq!(d, "{\"x\":1}"),
        _ => panic!("expected data"),
    }
    assert!(matches!(classify_sse_line(": keep-alive"), SseLine::Ignored));
    assert!(matches!(classify_sse_line("data:[DONE]"), SseLine::Ignored));
}

#[test]
fn chunk_state_gathers_deltas() {
    let mut st = ChunkState::new();
    st.apply_delta(&StreamDelta {
        content: Some("Hel".to_string()),
        reasoning_content: Some("think".to_string()),
        tool_calls: None,
        finish_reason: Some("stop".to_string()),
    });
    st.apply_delta(&StreamDelta {
        content: Some("lo".to_string()),
        reasoning_content: None,
        tool_calls: Some(vec![delta(Some(0), Some("id"), Some("calc"), Some("{}"))]),
        finish_reason: Some("tool_calls".to_string()),
    });
    assert_eq!(st.content, "Hello");
    assert_eq!(st.reasoning, "think");
    // only a `tool_calls` finish reason is recorded
    assert_eq!(st.finish_reason, Some("tool_calls".to_string()));
    assert!(st.has_tool_call_chunk);
    assert!(has_tool_calls(&st));
    st.start_chunk();
    assert_eq!(st.content, "");
    assert!(st.tool_calls.is_empty());
    assert!(st.has_tool_call_chunk);
    assert!(!has_tool_calls(&st));
}

#[test]
fn calls_without_names_do_not_count() {
    let mut st = ChunkState::new();
    st.apply_delta(&StreamDelta {
        content: None,
        reasoning_content: None,
        tool_calls: Some(vec![delta(Some(0), None, Some(""), None)]),
        finish_reason: None,
    });
    assert!(!has_tool_calls(&st));
    assert!(!has_tool_calls(&ChunkState::new()));
}

#[test]
fn default_arguments_and_names() {
    let mut calls = vec![
        delta(Some(0), None, Some("a"), None),
        delta(Some(1), None, Some("b"), Some("")),
        delta(Some(2), None, Some("c"), Some("{\"k\":2}")),
    ];
    fill_default_arguments(&mut calls);
    assert_eq!(fn_args(&calls[0]), Some("{}".to_string()));
    assert_eq!(fn_args(&calls[1]), Some("{}".to_string()));
    assert_eq!(fn_args(&calls[2]), Some("{\"k\":2}".to_string()));
    assert_eq!(tool_name(&calls[0]), "a");
    let mut top = delta(None, None, Some(""), None);
    top.name = Some("fallback".to_string());
    assert_eq!(tool_name(&top), "fallback");
}

#[test]
fn server_of_named_tool() {
    let tools = vec![
        ToolRef { name: "a".to_string(), server_id: Some(1) },
        ToolRef { name: "b".to_string(), server_id: None },
        ToolRef { name: "a".to_string(), server_id: Some(3) },
    ];
    assert_eq!(tool_server_id(Some(tools.as_slice()), &"a".to_string()), Some(1));
    assert_eq!(tool_server_id(Some(tools.as_slice()), &"b".to_string()), None);
    assert_eq!(tool_server_id(Some(tools.as_slice()), &"z".to_string()), None);
    assert_eq!(tool_server_id(None, &"a".to_string()), None);
}

#[test]
fn stream_responses() {
    let d = done_response();
    assert!(d.done);
    assert_eq!(d.finish_reason, Some("stop".to_string()));
    assert_eq!(d.content, "");
    let mut st = ChunkState::new();
    st.content = "hi".to_string();
    let t = text_response(&st);
    assert_eq!(t.content, "hi");
    assert!(t.reasoning_content.is_none());
    assert!(!t.done);
    let call = delta(Some(0), Some("x"), Some("run"), Some("{}"));
    let r = tool_response(&st, &call);
    assert_eq!(r.reasoning_content, Some(String::new()));
    let tcs = r.tool_calls.unwrap();
    assert_eq!(tcs.len(), 1);
    assert_eq!(tcs[0].id, Some("x".to_string()));
    let c = copy_call(&call);
    assert_eq!(fn_name(&c), Some("run".to_string()));
}

#[test]
fn argument_pieces_join_in_order() {
    let mut acc: Vec<ToolCallInfo> = Vec::new();
    merge_tool_call(&mut acc, &delta(Some(0), Some("a"), Some("first"), None));
    merge_tool_call(&mut acc, &delta(Some(1), Some("b"), Some("second"), Some("{")));
    for piece in ["{\"pa", "th\":", "", "\"x\"}"] {
        merge_tool_call(&mut acc, &delta(Some(0), None, None, Some(piece)));
    }
    merge_tool_call(&mut acc, &delta(Some(1), None, None, Some("}")));
    assert_eq!(fn_args(&acc[0]), Some("{\"path\":\"x\"}".to_string()));
    assert_eq!(fn_args(&acc[1]), Some("{}".to_string()));
    assert_eq!(fn_name(&acc[0]), Some("first".to_string()));
    assert_eq!(acc[1].id, Some("b".to_string()));
}

fn call_with_args(args: Option<&str>, top: Option<&str>) -> ToolCallInfo {
    let mut t = delta(Some(0), Some("c"), Some("t"), args);
    t.arguments = top.map(|s| s.to_string());
    t
}

#[test]
fn arguments_of_a_run() {
    // JSON text is trimmed and taken as it is
    assert_eq!(tool_arguments(&call_with_args(Some("  {\"a\":1} "), None)), "{\"a\":1}");
    // a JSON string is itself JSON, so it is taken as it is too
    assert_eq!(tool_arguments(&call_with_args(Some("\"{\\\"a\\\":1}\""), None)), "\"{\\\"a\\\":1}\"");
    // text that is not JSON gives the empty object
    assert_eq!(tool_arguments(&call_with_args(Some("{a:1"), None)), "{}");
    // without function arguments, the top-level arguments, else the empty object
    assert_eq!(tool_arguments(&call_with_args(None, Some("{\"x\":2}"))), "{\"x\":2}");
    assert_eq!(tool_arguments(&call_with_args(Some(""), None)), "{}");
    let mut bare = call_with_args(None, None);
    bare.function = None;
    assert_eq!(tool_arguments(&bare), "{}");
}

#[test]
fn tool_result_texts() {
    let mut ok = serde_json::Map::new();
    ok.insert("success".to_string(), serde_json::Value::Bool(true));
    ok.insert("content".to_string(), serde_json::Value::String("line \"one\"\n".to_string()));
    let expected_ok = serde_json::Value::Object(ok).to_string();
    assert_eq!(tool_result_text(&Ok("line \"one\"\n".to_string())), expected_ok);
    assert_eq!(expected_ok, "{\"content\":\"line \\\"one\\\"\\n\",\"success\":true}");

    let mut err = serde_json::Map::new();
    err.insert("success".to_string(), serde_json::Value::Bool(false));
    err.insert("content".to_string(), serde_json::Value::String(String::new()));
    err.insert("error".to_string(), serde_json::Value::String("no server".to_string()));
    let expected_err = serde_json::Value::Object(err).to_string();
    assert_eq!(tool_result_text(&Err("no server".to_string())), expected_err);
    assert_eq!(expected_err, "{\"content\":\"\",\"error\":\"no server\",\"success\":false}");
}

fn text_delta(content: &str) -> StreamDelta {
    StreamDelta { content: Some(content.to_string()), reasoning_content: None, tool_calls: None, finish_reason: None }
}

#[test]
fn stream_steps_of_a_tool_call() {
    let tools = vec![
        ToolRef { name: "search".to_string(), server_id: Some(7) },
        ToolRef { name: "search".to_string(), server_id: Some(8) },
    ];
    let mut st = ChunkState::new();
    assert!(matches!(stream_step(&mut st, StreamEvent::ChunkStart, Some(&tools)), StreamAction::Continue));
    let d = StreamDelta {
        content: Some("thinking".to_string()),
        reasoning_content: None,
        tool_calls: Some(vec![
            delta(Some(0), Some("call_1"), Some("search"), Some("{\"q\":")),
            delta(Some(0), None, None, Some("\"rust\"}")),
            delta(Some(1), Some("call_2"), None, None),
        ]),
        finish_reason: Some("tool_calls".to_string()),
    };
    assert!(matches!(stream_step(&mut st, StreamEvent::Delta(d), Some(&tools)), StreamAction::Continue));
    match stream_step(&mut st, StreamEvent::ChunkEnd, Some(&tools)) {
        StreamAction::Run { text, runs } => {
            assert!(text.is_none());
            // the second call names no tool and is passed over
            assert_eq!(runs.len(), 1);
            assert_eq!(runs[0].name, "search");
            assert_eq!(runs[0].arguments, "{\"q\":\"rust\"}");
            assert_eq!(runs[0].server_id, Some(7));
            assert_eq!(runs[0].call.id, Some("call_1".to_string()));
        },
        _ => panic!("expected runs"),
    }
    // missing arguments became `{}`
    assert_eq!(fn_args(&st.tool_calls[1]), Some("{}".to_string()));
    assert_eq!(st.content, "thinking");
    assert_eq!(st.finish_reason, Some("tool_calls".to_string()));
}

#[test]
fn stream_steps_of_plain_text() {
    let mut st = ChunkState::new();
    stream_step(&mut st, StreamEvent::ChunkStart, None);
    stream_step(&mut st, StreamEvent::Delta(text_delta("Hel")), None);
    stream_step(&mut st, StreamEvent::Delta(text_delta("lo")), None);
    match stream_step(&mut st, StreamEvent::DataDone, None) {
        StreamAction::Respond(r) => {
            assert!(r.done);
            assert_eq!(r.finish_reason, Some("stop".to_string()));
        },
        _ => panic!("expected the last response"),
    }
    match stream_step(&mut st, StreamEvent::ChunkEnd, None) {
        StreamAction::Run { text, runs } => {
            let r = text.expect("a text response");
            assert_eq!(r.content, "Hello");
            assert_eq!(r.reasoning_content, None);
            assert!(runs.is_empty());
        },
        _ => panic!("expected the chunk's end"),
    }
    // a new chunk forgets the text
    stream_step(&mut st, StreamEvent::ChunkStart, None);
    assert_eq!(st.content, "");
}
