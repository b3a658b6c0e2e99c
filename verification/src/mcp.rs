//! Calling tools on MCP servers: which server a tool goes to, the frames of a
//! server's event-stream reply, and what the replies mean.
use vstd::prelude::*;
use std::collections::HashMap;
use crate::text::{lines, lines_of, lossy_string, string_of, utf8_lossy};
use crate::tool_calls::{classify_sse_line, sse_line_spec, SseLine};
use crate::flow::opt_view;

verus! {

broadcast use vstd::std_specs::hash::group_hash_axioms;

/// Where tool calls are sent: known servers by id, and a default address.
pub struct ToolExecutor {
    servers: HashMap<i64, String>,
    default_server_url: String,
}

impl ToolExecutor {
    /// The address of each known server, by id.
    pub closed spec fn server_map(&self) -> Map<i64, String> {
        self.servers@
    }

    /// The address used when a server is not known.
    pub closed spec fn default_url(&self) -> Seq<char> {
        self.default_server_url@
    }

    /// An executor for the given servers and default address.
    pub fn new(servers: HashMap<i64, String>, default_server_url: &str) -> (t: ToolExecutor)
        ensures
            t.server_map() == servers@,
            t.default_url() == default_server_url@,
    {
        ToolExecutor { servers, default_server_url: default_server_url.to_string() }
    }

    /// The address of server `server_id`: its known address, or the default
    /// one when it is unknown or none is named.
    pub fn get_server_url(&self, server_id: Option<i64>) -> (r: String)
        ensures
            r@ == match server_id {
                Some(id) => if self.server_map().contains_key(id) {
                    self.server_map()[id]@
                } else {
                    self.default_url()
                },
                None => self.default_url(),
            },
    {
        match server_id {
            Some(id) => match self.servers.get(&id) {
                Some(u) => u.clone(),
                None => self.default_server_url.clone(),
            },
            None => self.default_server_url.clone(),
        }
    }

    /// Where a tool call is sent and the JSON-RPC request sent there: the
    /// server's address (see `get_server_url`) and the `tools/call` request
    /// for the named tool with the JSON text `arguments`.
    pub fn call_request(&self, name: &str, arguments: &str, server_id: Option<i64>) -> (r: (String, String))
        ensures
            r.0@ == match server_id {
                Some(id) => if self.server_map().contains_key(id) {
                    self.server_map()[id]@
                } else {
                    self.default_url()
                },
                None => self.default_url(),
            },
            r.1@ == tool_call_request_spec(name@, arguments@),
    {
        let url = self.get_server_url(server_id);
        (url, tool_call_request(name, arguments))
    }
}

/// The `tools/call` request for a tool and the JSON text of its arguments,
/// with the keys in the order `serde_json` writes an object's keys:
/// `{"id":1,"jsonrpc":"2.0","method":"tools/call","params":{"arguments":<arguments>,"name":<name>}}`.
pub open spec fn tool_call_request_spec(name: Seq<char>, arguments: Seq<char>) -> Seq<char> {
    "{\"id\":1,\"jsonrpc\":\"2.0\",\"method\":\"tools/call\",\"params\":{\"arguments\":"@ + arguments
        + ",\"name\":"@ + crate::tool_calls::json_quoted(name) + "}}"@
}

/// The `tools/call` request for a tool, with the JSON text of its arguments
/// set in as it is.
pub fn tool_call_request(name: &str, arguments: &str) -> (r: String)
    ensures
        r@ == tool_call_request_spec(name@, arguments@),
{
    let mut v: Vec<char> = Vec::new();
    crate::text::extend_str(
        &mut v,
        "{\"id\":1,\"jsonrpc\":\"2.0\",\"method\":\"tools/call\",\"params\":{\"arguments\":",
    );
    crate::text::extend_str(&mut v, arguments);
    crate::text::extend_str(&mut v, ",\"name\":");
    let q = crate::tool_calls::quote_json(name);
    crate::text::extend_str(&mut v, q.as_str());
    crate::text::extend_str(&mut v, "}}");
    string_of(v.as_slice())
}

/// The `tools/list` request.
pub const TOOLS_LIST_REQUEST: &'static str = "{\"id\":1,\"jsonrpc\":\"2.0\",\"method\":\"tools/list\"}";

/// Where the tools of a server are asked for and the request sent there;
/// `None` when no server is named, whose list of tools is empty.
pub fn list_tools_request(server_url: Option<String>) -> (r: Option<(String, String)>)
    ensures
        server_url is None <==> r is None,
        r matches Some((url, body)) ==> server_url matches Some(u) && url@ == u@ && body@
            == TOOLS_LIST_REQUEST@,
{
    match server_url {
        None => None,
        Some(u) => Some((u, TOOLS_LIST_REQUEST.to_string())),
    }
}

/// The payloads of the `data:` lines of an event stream, in order, without
/// the closing `[DONE]`.
pub open spec fn payloads_spec(ls: Seq<Seq<char>>) -> Seq<Seq<char>>
    decreases ls.len(),
{
    if ls.len() == 0 {
        Seq::empty()
    } else {
        match sse_line_spec(ls.last()) {
            Some(Some(d)) => payloads_spec(ls.drop_last()).push(d),
            _ => payloads_spec(ls.drop_last()),
        }
    }
}

/// The payloads of a server's event-stream reply: its body read as UTF-8
/// (invalid bytes replaced), cut into lines, each trimmed; the text after
/// `data: ` on each such line except `[DONE]`.
pub fn sse_payloads(body: &[u8]) -> (r: Vec<String>)
    ensures
        r@.map_values(|s: String| s@) == payloads_spec(lines(utf8_lossy(body@))),
{
    let text = lossy_string(body);
    let cs = crate::text::chars_of(text.as_str());
    let ls = lines_of(cs.as_slice());
    let ghost spec_ls = lines(utf8_lossy(body@));
    let mut r: Vec<String> = Vec::new();
    let mut i: usize = 0;
    while i < ls.len()
        invariant
            0 <= i <= ls.len(),
            ls@.len() == spec_ls.len(),
            spec_ls == lines(utf8_lossy(body@)),
            forall|k: int| 0 <= k < ls@.len() ==> #[trigger] ls@[k]@ == spec_ls[k],
            r@.map_values(|s: String| s@) == payloads_spec(spec_ls.take(i as int)),
        decreases ls.len() - i,
    {
        proof {
            assert(spec_ls.take(i + 1).drop_last() =~= spec_ls.take(i as int));
            assert(spec_ls.take(i + 1).last() == ls@[i as int]@);
        }
        let line = string_of(ls[i].as_slice());
        match classify_sse_line(line.as_str()) {
            SseLine::Data(d) => {
                let ghost before = r@;
                let ghost dv = d@;
                r.push(d);
                assert(r@.map_values(|s: String| s@) =~= before.map_values(|s: String| s@).push(dv));
            },
            _ => {},
        }
        i = i + 1;
    }
    assert(spec_ls.take(ls.len() as int) =~= spec_ls);
    r
}

/// A tool described in a `tools/list` reply, as its JSON members give it.
pub struct McpToolItem {
    pub name: Option<String>,
    pub description: Option<String>,
    /// The JSON text of `inputSchema`.
    pub input_schema: Option<String>,
    /// The JSON text of `outputSchema`.
    pub output_schema: Option<String>,
}

/// What the logic reads of one JSON-RPC reply of an MCP server.
pub struct McpReply {
    /// The reply has a `result` member.
    pub has_result: bool,
    /// The `text` string of each element of `result.content`, when that is an
    /// array.
    pub content_texts: Option<Vec<Option<String>>>,
    /// `result.isError` is `true`.
    pub is_error: bool,
    /// The reply has an `error` member: its `message`, when that is a string.
    pub error: Option<Option<String>>,
    /// The elements of `result.tools`, when that is an array.
    pub tools: Option<Vec<McpToolItem>>,
}

/// A tool an MCP server offers.
pub struct McpTool {
    pub name: String,
    pub description: String,
    /// The JSON text of its input schema.
    pub input_schema: String,
    /// The JSON text of its output schema.
    pub output_schema: String,
    pub server_id: Option<i64>,
}

/// The texts of optional strings.
pub open spec fn opt_texts(v: Seq<Option<String>>) -> Seq<Option<Seq<char>>> {
    v.map_values(|o: Option<String>| opt_view(o))
}

/// `acc` with each present text appended, a new line between two texts.
pub open spec fn append_texts(acc: Seq<char>, items: Seq<Option<Seq<char>>>) -> Seq<char>
    decreases items.len(),
{
    if items.len() == 0 {
        acc
    } else {
        let a = append_texts(acc, items.drop_last());
        match items.last() {
            Some(t) => if a.len() > 0 {
                a + "\n"@ + t
            } else {
                t
            },
            None => a,
        }
    }
}

/// The text gathered from one reply.
pub open spec fn reply_texts(acc: Seq<char>, r: McpReply) -> Seq<char> {
    if r.has_result {
        match r.content_texts {
            Some(items) => append_texts(acc, opt_texts(items@)),
            None => acc,
        }
    } else {
        acc
    }
}

/// Reading the replies of a `tools/call` request in order, from the text
/// gathered so far: the texts of each reply's content are added; a reply
/// whose result is an error ends with that text, and a reply with an
/// `error` member ends with its message.
pub open spec fn call_fold(rs: Seq<McpReply>, acc: Seq<char>) -> Result<Seq<char>, Seq<char>>
    decreases rs.len(),
{
    if rs.len() == 0 {
        Ok(acc)
    } else {
        let r = rs[0];
        let a = reply_texts(acc, r);
        if r.has_result && r.is_error {
            Err("Tool execution returned error: "@ + a)
        } else {
            match r.error {
                Some(m) => Err(
                    match m {
                        Some(t) => t@,
                        None => "Unknown error"@,
                    },
                ),
                None => call_fold(rs.drop_first(), a),
            }
        }
    }
}

/// What a `tools/call` request gave, from its replies: the gathered text, or
/// a note that the tool completed when there is none; or the error.
pub open spec fn tool_output_spec(rs: Seq<McpReply>) -> Result<Seq<char>, Seq<char>> {
    match call_fold(rs, Seq::empty()) {
        Ok(c) => Ok(
            if c.len() == 0 {
                "Tool execution completed"@
            } else {
                c
            },
        ),
        Err(e) => Err(e),
    }
}

fn append_texts_exec(acc: &mut String, items: &Vec<Option<String>>)
    ensures
        final(acc)@ == append_texts(old(acc)@, opt_texts(items@)),
{
    let ghost start = acc@;
    let mut i: usize = 0;
    while i < items.len()
        invariant
            0 <= i <= items.len(),
            acc@ == append_texts(start, opt_texts(items@.take(i as int))),
        decreases items.len() - i,
    {
        proof {
            assert(opt_texts(items@.take(i + 1)).drop_last() =~= opt_texts(items@.take(i as int)));
        }
        match &items[i] {
            Some(t) => {
                if acc.as_str().is_empty() {
                    acc.append(t.as_str());
                    assert(acc@ =~= t@);
                } else {
                    acc.append("\n");
                    acc.append(t.as_str());
                }
            },
            None => {},
        }
        i = i + 1;
    }
    assert(items@.take(items.len() as int) =~= items@);
}

/// What a `tools/call` request gave, from the replies whose payload was JSON,
/// in order (see `tool_output_spec`).
pub fn tool_output(replies: &Vec<McpReply>) -> (r: Result<String, String>)
    ensures
        match r {
            Ok(c) => tool_output_spec(replies@) == Ok::<Seq<char>, Seq<char>>(c@),
            Err(e) => tool_output_spec(replies@) == Err::<Seq<char>, Seq<char>>(e@),
        },
{
    let mut content = String::new();
    let mut i: usize = 0;
    assert(replies@.subrange(0, replies@.len() as int) =~= replies@);
    while i < replies.len()
        invariant
            0 <= i <= replies.len(),
            call_fold(replies@, Seq::empty()) == call_fold(
                replies@.subrange(i as int, replies@.len() as int),
                content@,
            ),
        decreases replies.len() - i,
    {
        let ghost rest = replies@.subrange(i as int, replies@.len() as int);
        proof {
            assert(rest.drop_first() =~= replies@.subrange(i + 1, replies@.len() as int));
            assert(rest[0] == replies@[i as int]);
        }
        let r = &replies[i];
        if r.has_result {
            match &r.content_texts {
                Some(items) => append_texts_exec(&mut content, items),
                None => {},
            }
            if r.is_error {
                let mut e = String::new();
                e.append("Tool execution returned error: ");
                e.append(content.as_str());
                return Err(e);
            }
        }
        match &r.error {
            Some(m) => {
                return Err(
                    match m {
                        Some(t) => t.clone(),
                        None => "Unknown error".to_string(),
                    },
                );
            },
            None => {},
        }
        i = i + 1;
    }
    assert(replies@.subrange(replies@.len() as int, replies@.len() as int) =~= Seq::<McpReply>::empty());
    if content.as_str().is_empty() {
        Ok("Tool execution completed".to_string())
    } else {
        Ok(content)
    }
}

/// The view of a listed tool: name, description, input and output schema.
pub open spec fn mcp_tool_view(t: McpTool) -> (Seq<char>, Seq<char>, Seq<char>, Seq<char>, Option<i64>) {
    (t.name@, t.description@, t.input_schema@, t.output_schema@, t.server_id)
}

/// The tool a listed item describes: `unknown` without a name, an empty
/// description without one, `{}` for a missing schema; no server.
pub open spec fn tool_of_item(i: McpToolItem) -> (Seq<char>, Seq<char>, Seq<char>, Seq<char>, Option<i64>) {
    (
        match i.name {
            Some(n) => n@,
            None => "unknown"@,
        },
        match i.description {
            Some(d) => d@,
            None => Seq::empty(),
        },
        match i.input_schema {
            Some(s) => s@,
            None => "{}"@,
        },
        match i.output_schema {
            Some(s) => s@,
            None => "{}"@,
        },
        None,
    )
}

/// The tools that listed items describe, in order.
pub open spec fn tools_of_items(items: Seq<McpToolItem>) -> Seq<(Seq<char>, Seq<char>, Seq<char>, Seq<char>, Option<i64>)> {
    items.map_values(|i: McpToolItem| tool_of_item(i))
}

/// Reading the replies of a `tools/list` request in order: the tools each
/// result lists are added; a reply with an `error` member ends with its
/// message.
pub open spec fn list_fold(
    rs: Seq<McpReply>,
    acc: Seq<(Seq<char>, Seq<char>, Seq<char>, Seq<char>, Option<i64>)>,
) -> Result<Seq<(Seq<char>, Seq<char>, Seq<char>, Seq<char>, Option<i64>)>, Seq<char>>
    decreases rs.len(),
{
    if rs.len() == 0 {
        Ok(acc)
    } else {
        let r = rs[0];
        let a = if r.has_result {
            match r.tools {
                Some(items) => acc + tools_of_items(items@),
                None => acc,
            }
        } else {
            acc
        };
        match r.error {
            Some(m) => Err(
                match m {
                    Some(t) => t@,
                    None => "Unknown error"@,
                },
            ),
            None => list_fold(rs.drop_first(), a),
        }
    }
}

fn opt_or(o: &Option<String>, d: &str) -> (r: String)
    ensures
        r@ == match o {
            Some(s) => s@,
            None => d@,
        },
{
    match o {
        Some(s) => s.clone(),
        None => d.to_string(),
    }
}

/// The tools a `tools/list` request gave, from the replies whose payload was
/// JSON, in order (see `list_fold`).
pub fn tool_list(replies: &Vec<McpReply>) -> (r: Result<Vec<McpTool>, String>)
    ensures
        match r {
            Ok(ts) => list_fold(replies@, Seq::empty()) == Ok::<
                Seq<(Seq<char>, Seq<char>, Seq<char>, Seq<char>, Option<i64>)>,
                Seq<char>,
            >(ts@.map_values(|t: McpTool| mcp_tool_view(t))),
            Err(e) => list_fold(replies@, Seq::empty()) == Err::<
                Seq<(Seq<char>, Seq<char>, Seq<char>, Seq<char>, Option<i64>)>,
                Seq<char>,
            >(e@),
        },
{
    let mut tools: Vec<McpTool> = Vec::new();
    let mut i: usize = 0;
    assert(replies@.subrange(0, replies@.len() as int) =~= replies@);
    assert(tools@.map_values(|t: McpTool| mcp_tool_view(t)) =~= Seq::empty());
    while i < replies.len()
        invariant
            0 <= i <= replies.len(),
            list_fold(replies@, Seq::empty()) == list_fold(
                replies@.subrange(i as int, replies@.len() as int),
                tools@.map_values(|t: McpTool| mcp_tool_view(t)),
            ),
        decreases replies.len() - i,
    {
        let ghost rest = replies@.subrange(i as int, replies@.len() as int);
        let ghost acc0 = tools@.map_values(|t: McpTool| mcp_tool_view(t));
        proof {
            assert(rest.drop_first() =~= replies@.subrange(i + 1, replies@.len() as int));
            assert(rest[0] == replies@[i as int]);
        }
        let r = &replies[i];
        if r.has_result {
            match &r.tools {
                Some(items) => {
                    let mut j: usize = 0;
                    while j < items.len()
                        invariant
                            0 <= j <= items.len(),
                            tools@.map_values(|t: McpTool| mcp_tool_view(t)) == acc0 + tools_of_items(
                                items@.take(j as int),
                            ),
                        decreases items.len() - j,
                    {
                        let it = &items[j];
                        let t = McpTool {
                            name: opt_or(&it.name, "unknown"),
                            description: opt_or(&it.description, ""),
                            input_schema: opt_or(&it.input_schema, "{}"),
                            output_schema: opt_or(&it.output_schema, "{}"),
                            server_id: None,
                        };
                        proof {
                            reveal_strlit("");
                        }
                        let ghost before = tools@;
                        let ghost tv = mcp_tool_view(t);
                        assert(tv == tool_of_item(items@[j as int]));
                        tools.push(t);
                        assert(tools@.map_values(|t: McpTool| mcp_tool_view(t)) =~= before.map_values(
                            |t: McpTool| mcp_tool_view(t),
                        ).push(tv));
                        assert(tools_of_items(items@.take(j + 1)) =~= tools_of_items(items@.take(j as int)).push(
                            tv,
                        ));
                        j = j + 1;
                    }
                    assert(items@.take(items.len() as int) =~= items@);
                },
                None => {},
            }
        }
        match &r.error {
            Some(m) => {
                return Err(
                    match m {
                        Some(t) => t.clone(),
                        None => "Unknown error".to_string(),
                    },
                );
            },
            None => {},
        }
        i = i + 1;
    }
    assert(replies@.subrange(replies@.len() as int, replies@.len() as int) =~= Seq::<McpReply>::empty());
    Ok(tools)
}

/// Where tool calls go when no server is named and none is configured.
pub const DEFAULT_MCP_BASE_URL: &'static str = "http://mcp-svc:8080";

/// The address of the default tool server: the configured one
/// (`MCP_BASE_URL`, as read by the caller), or `DEFAULT_MCP_BASE_URL`.
pub fn mcp_base_url(configured: Option<String>) -> (r: String)
    ensures
        r@ == match configured {
            Some(c) => c@,
            None => DEFAULT_MCP_BASE_URL@,
        },
{
    match configured {
        Some(c) => c,
        None => DEFAULT_MCP_BASE_URL.to_string(),
    }
}

/// The description of the command tool of a debug container.
pub const EXECUTE_COMMAND_DESCRIPTION: &'static str = "Execute a shell command in the debug container. Use this to run commands like npm install, npm run serve, etc.";

/// The input schema of the command tool, as JSON text.
pub const EXECUTE_COMMAND_INPUT_SCHEMA: &'static str = "{\"properties\":{\"command\":{\"description\":\"The shell command to execute\",\"type\":\"string\"},\"workDir\":{\"description\":\"The working directory for the command, defaults to /app\",\"type\":\"string\"}},\"required\":[\"command\"],\"type\":\"object\"}";

/// The output schema of the command tool, as JSON text.
pub const EXECUTE_COMMAND_OUTPUT_SCHEMA: &'static str = "{\"properties\":{\"exit_code\":{\"description\":\"The exit code of the command\",\"type\":\"integer\"},\"output\":{\"description\":\"The command output\",\"type\":\"string\"}},\"type\":\"object\"}";

/// The tools of a debug container: those its server lists, or, when the
/// listing failed, the command tool alone (`execute_command`, on no named
/// server).
pub fn container_tools(listed: Result<Vec<McpTool>, String>) -> (r: Vec<McpTool>)
    ensures
        match listed {
            Ok(ts) => r@ == ts@,
            Err(_) => r@.len() == 1 && r@[0].name@ == "execute_command"@ && r@[0].description@
                == EXECUTE_COMMAND_DESCRIPTION@ && r@[0].input_schema@ == EXECUTE_COMMAND_INPUT_SCHEMA@
                && r@[0].output_schema@ == EXECUTE_COMMAND_OUTPUT_SCHEMA@ && r@[0].server_id is None,
        },
{
    match listed {
        Ok(ts) => ts,
        Err(_) => {
            let mut r: Vec<McpTool> = Vec::new();
            r.push(
                McpTool {
                    name: "execute_command".to_string(),
                    description: EXECUTE_COMMAND_DESCRIPTION.to_string(),
                    input_schema: EXECUTE_COMMAND_INPUT_SCHEMA.to_string(),
                    output_schema: EXECUTE_COMMAND_OUTPUT_SCHEMA.to_string(),
                    server_id: None,
                },
            );
            r
        },
    }
}

} // verus!
