use std::collections::HashMap;

use rust_saas::mcp::{
    container_tools, list_tools_request, mcp_base_url, sse_payloads, tool_call_request, tool_list, tool_output,
    McpReply, McpTool, McpToolItem, ToolExecutor, DEFAULT_MCP_BASE_URL, TOOLS_LIST_REQUEST,
};

fn reply(texts: Option<Vec<Option<&str>>>) -> McpReply {
    McpReply {
        has_result: true,
        content_texts: texts.map(|v| v.into_iter().map(|t| t.map(|s| s.to_string())).collect()),
        is_error: false,
        error: None,
        tools: None,
    }
}

fn error_reply(message: Option<&str>) -> McpReply {
    McpReply {
        has_result: false,
        content_texts: None,
        is_error: false,
        error: Some(message.map(|s| s.to_string())),
        tools: None,
    }
}

#[test]
fn server_urls() {
    let mut servers = HashMap::new();
    servers.insert(1, "http://one:80".to_string());
    let ex = ToolExecutor::new(servers, "http://default:80");
    assert_eq!(ex.get_server_url(Some(1)), "http://one:80");
    assert_eq!(ex.get_server_url(Some(2)), "http://default:80");
    assert_eq!(ex.get_server_url(None), "http://default:80");
}

#[test]
fn event_stream_payloads() {
    let body = b"event: message\ndata: {\"a\":1}\n\n  data: {\"b\":2}  \r\ndata: [DONE]\n";
    assert_eq!(sse_payloads(body), vec!["{\"a\":1}", "{\"b\":2}"]);
    assert!(sse_payloads(b"").is_empty());
    // the body is read as UTF-8 with invalid bytes replaced
    assert_eq!(sse_payloads(b"data: x\xff"), vec!["x\u{FFFD}"]);
}

#[test]
fn call_output_gathers_texts() {
    let rs = vec![reply(Some(vec![Some("a"), None, Some("b")])), reply(Some(vec![Some("c")]))];
    assert_eq!(tool_output(&rs), Ok("a\nb\nc".to_string()));
    assert_eq!(tool_output(&vec![]), Ok("Tool execution completed".to_string()));
    assert_eq!(tool_output(&vec![reply(None)]), Ok("Tool execution completed".to_string()));
}

#[test]
fn call_output_errors() {
    let mut bad = reply(Some(vec![Some("denied")]));
    bad.is_error = true;
    assert_eq!(tool_output(&vec![reply(Some(vec![Some("x")])), bad]), Err("Tool execution returned error: x\ndenied".to_string()));
    assert_eq!(tool_output(&vec![error_reply(Some("boom")), reply(Some(vec![Some("y")]))]), Err("boom".to_string()));
    assert_eq!(tool_output(&vec![error_reply(None)]), Err("Unknown error".to_string()));
}

#[test]
fn listed_tools() {
    let mut r = reply(None);
    r.tools = Some(vec![
        McpToolItem {
            name: Some("search".to_string()),
            description: Some("find".to_string()),
            input_schema: Some("{\"type\":\"object\"}".to_string()),
            output_schema: None,
        },
        McpToolItem { name: None, description: None, input_schema: None, output_schema: None },
    ]);
    let ts = tool_list(&vec![r]).unwrap();
    assert_eq!(ts.len(), 2);
    assert_eq!(ts[0].name, "search");
    assert_eq!(ts[0].description, "find");
    assert_eq!(ts[0].input_schema, "{\"type\":\"object\"}");
    assert_eq!(ts[0].output_schema, "{}");
    assert_eq!(ts[0].server_id, None);
    assert_eq!(ts[1].name, "unknown");
    assert_eq!(ts[1].description, "");
    assert!(tool_list(&vec![]).unwrap().is_empty());
    match tool_list(&vec![error_reply(Some("no"))]) {
        Err(e) => assert_eq!(e, "no"),
        Ok(_) => panic!("expected an error"),
    }
}

#[test]
fn default_tool_server_and_container_tools() {
    assert_eq!(mcp_base_url(None), DEFAULT_MCP_BASE_URL);
    assert_eq!(DEFAULT_MCP_BASE_URL, "http://mcp-svc:8080");
    assert_eq!(mcp_base_url(Some("http://x:1".to_string())), "http://x:1");
    let listed = vec![McpTool {
        name: "a".to_string(),
        description: String::new(),
        input_schema: "{}".to_string(),
        output_schema: "{}".to_string(),
        server_id: None,
    }];
    let kept = container_tools(Ok(listed));
    assert_eq!(kept.len(), 1);
    assert_eq!(kept[0].name, "a");
    let fallback = container_tools(Err("no tools/list".to_string()));
    assert_eq!(fallback.len(), 1);
    assert_eq!(fallback[0].name, "execute_command");
    let schema: serde_json::Value = serde_json::from_str(&fallback[0].input_schema).unwrap();
    assert_eq!(schema["required"][0], "command");
    assert_eq!(schema["properties"]["workDir"]["type"], "string");
    let out: serde_json::Value = serde_json::from_str(&fallback[0].output_schema).unwrap();
    assert_eq!(out["properties"]["exit_code"]["type"], "integer");
}

#[test]
fn tools_call_request() {
    let mut servers = HashMap::new();
    servers.insert(3, "http://tools:9000".to_string());
    let executor = ToolExecutor::new(servers, "http://default:1");
    let (url, body) = executor.call_request("search \"web\"", "{\"q\":\"rust\"}", Some(3));
    assert_eq!(url, "http://tools:9000");
    // the same text serde_json writes for the request object
    let mut params = serde_json::Map::new();
    params.insert("name".to_string(), serde_json::Value::String("search \"web\"".to_string()));
    params.insert("arguments".to_string(), serde_json::from_str::<serde_json::Value>("{\"q\":\"rust\"}").unwrap());
    let mut request = serde_json::Map::new();
    request.insert("id".to_string(), serde_json::Value::from(1));
    request.insert("method".to_string(), serde_json::Value::String("tools/call".to_string()));
    request.insert("jsonrpc".to_string(), serde_json::Value::String("2.0".to_string()));
    request.insert("params".to_string(), serde_json::Value::Object(params));
    assert_eq!(body, serde_json::Value::Object(request).to_string());
    assert_eq!(
        tool_call_request("t", "{}"),
        "{\"id\":1,\"jsonrpc\":\"2.0\",\"method\":\"tools/call\",\"params\":{\"arguments\":{},\"name\":\"t\"}}"
    );
    // an unknown server goes to the default address
    assert_eq!(executor.call_request("t", "{}", Some(4)).0, "http://default:1");
}

#[test]
fn tools_list_request() {
    // no server named: nothing is asked, the list is empty
    assert!(list_tools_request(None).is_none());
    let (url, body) = list_tools_request(Some("http://mcp:8080".to_string())).unwrap();
    assert_eq!(url, "http://mcp:8080");
    assert_eq!(body, TOOLS_LIST_REQUEST);
    assert_eq!(body, "{\"id\":1,\"jsonrpc\":\"2.0\",\"method\":\"tools/list\"}");
}
