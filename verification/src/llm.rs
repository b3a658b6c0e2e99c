//! Talking to a language model: which client serves a model, and the
//! messages of a conversation.
use vstd::prelude::*;
use crate::tool_calls::{ostr, StreamResponse, ToolCallInfo};
use crate::local_chat::UserSession;
use crate::memory::{ChatMsg, ChatMsgPiece, ChatMsgView};
use crate::mcp::McpTool;

verus! {

/// A message of a conversation with a model.
pub struct ChatMessage {
    pub role: String,
    pub content: Option<String>,
    pub tool_call_id: Option<String>,
    pub name: Option<String>,
    pub tool_calls: Option<Vec<ToolCallInfo>>,
    /// Who the message belongs to, when known.
    pub session: Option<UserSession>,
}

impl ChatMessage {
    /// A message with a role and a text, nothing else.
    pub fn text(role: &str, content: String) -> (m: ChatMessage)
        ensures
            m.role@ == role@,
            ostr(m.content) == Some(content@),
            m.tool_call_id is None,
            m.name is None,
            m.tool_calls is None,
            m.session is None,
    {
        ChatMessage {
            role: role.to_string(),
            content: Some(content),
            tool_call_id: None,
            name: None,
            tool_calls: None,
            session: None,
        }
    }

    /// The message that gives the model the result of a tool call, in the
    /// session of the conversation.
    pub fn tool_result(
        tool_call_id: Option<String>,
        name: String,
        content: String,
        session: Option<UserSession>,
    ) -> (m: ChatMessage)
        ensures
            m.role@ == "tool"@,
            ostr(m.content) == Some(content@),
            ostr(m.tool_call_id) == ostr(tool_call_id),
            ostr(m.name) == Some(name@),
            m.tool_calls is None,
            m.session == session,
    {
        ChatMessage {
            role: "tool".to_string(),
            content: Some(content),
            tool_call_id,
            name: Some(name),
            tool_calls: None,
            session,
        }
    }
}

/// Which client talks to a model.
#[derive(PartialEq, Eq, Structural, Clone, Copy, Debug)]
pub enum ProxyKind {
    /// The model running in this process.
    Local,
    /// A server with the OpenAI chat API.
    OpenAi,
}

/// The client for a stored model: the local one when it has no address.
pub fn proxy_for_model(access_url: &str) -> (r: ProxyKind)
    ensures
        r == (if access_url@.len() == 0 {
            ProxyKind::Local
        } else {
            ProxyKind::OpenAi
        }),
{
    if access_url.is_empty() {
        ProxyKind::Local
    } else {
        ProxyKind::OpenAi
    }
}

/// The client for a base address: the local one for an address on
/// `127.0.0.1`.
pub fn proxy_for_address(base_url: &str) -> (r: ProxyKind)
    ensures
        r == (if crate::text::has_prefix(base_url@, "127.0.0.1"@) {
            ProxyKind::Local
        } else {
            ProxyKind::OpenAi
        }),
{
    let b = crate::text::chars_of(base_url);
    let p = crate::text::chars_of("127.0.0.1");
    if crate::text::starts_with(b.as_slice(), p.as_slice()) {
        ProxyKind::Local
    } else {
        ProxyKind::OpenAi
    }
}

/// Puts an agent's system prompt, when it has one, before the messages.
pub fn with_system_prompt(messages: &mut Vec<ChatMessage>, prompt: Option<String>)
    ensures
        match prompt {
            Some(p) => final(messages)@.len() == old(messages)@.len() + 1 && final(messages)@[0].role@ == "system"@
                && ostr(final(messages)@[0].content) == Some(p@) && final(messages)@.subrange(
                1,
                final(messages)@.len() as int,
            ) == old(messages)@,
            None => final(messages)@ == old(messages)@,
        },
{
    match prompt {
        Some(p) => {
            let m = ChatMessage::text("system", p);
            messages.insert(0, m);
            assert(messages@.subrange(1, messages@.len() as int) =~= old(messages)@);
        },
        None => {},
    }
}

/// The tools of an agent as offered to the model: none when it has none.
pub fn offered_tools<T>(tools: Vec<T>) -> (r: Option<Vec<T>>)
    ensures
        tools@.len() == 0 <==> r is None,
        r matches Some(t) ==> t@ == tools@,
{
    if tools.len() == 0 {
        None
    } else {
        Some(tools)
    }
}

/// What the model client relays for one item of a model's stream: the item
/// itself, or the closing response when the stream failed or ended.
pub fn relay(item: Option<Result<StreamResponse, String>>) -> (r: StreamResponse)
    ensures
        match item {
            Some(Ok(resp)) => r == resp,
            _ => r.content@.len() == 0 && r.reasoning_content is None && r.tool_calls is None && ostr(
                r.finish_reason,
            ) == Some("stop"@) && r.done,
        },
{
    match item {
        Some(Ok(resp)) => resp,
        _ => crate::tool_calls::done_response(),
    }
}

/// The messages of a conversation as the local model takes them: those with
/// content, each with its session's ids (all 0 without one), role and
/// content.
pub open spec fn local_messages_spec(ms: Seq<ChatMessage>) -> Seq<ChatMsgView>
    decreases ms.len(),
{
    if ms.len() == 0 {
        Seq::empty()
    } else {
        let rest = local_messages_spec(ms.drop_last());
        let m = ms.last();
        match m.content {
            Some(c) => {
                let (u, p, f, w) = match m.session {
                    Some(s) => (s.user_id, s.project_id, s.flow_id, s.workspace_id),
                    None => (0i64, 0i64, 0i64, 0i64),
                };
                rest.push((u, p, f, w, m.role@, c@, false))
            },
            None => rest,
        }
    }
}

/// The conversation in the form the local model takes.
pub fn local_messages(messages: &Vec<ChatMessage>) -> (r: Vec<ChatMsg>)
    ensures
        r@.map_values(|m: ChatMsg| m@) == local_messages_spec(messages@),
{
    let mut r: Vec<ChatMsg> = Vec::new();
    let mut i: usize = 0;
    while i < messages.len()
        invariant
            0 <= i <= messages.len(),
            r@.map_values(|m: ChatMsg| m@) == local_messages_spec(messages@.take(i as int)),
        decreases messages.len() - i,
    {
        proof {
            assert(messages@.take(i + 1).drop_last() =~= messages@.take(i as int));
            assert(messages@.take(i + 1).last() == messages@[i as int]);
        }
        let m = &messages[i];
        match &m.content {
            Some(c) => {
                let (u, p, f, w) = match m.session {
                    Some(s) => (s.user_id, s.project_id, s.flow_id, s.workspace_id),
                    None => (0, 0, 0, 0),
                };
                let ghost before = r@.map_values(|m: ChatMsg| m@);
                let msg = ChatMsg::new(u, p, f, w, m.role.clone(), c.clone());
                let ghost mv = msg@;
                r.push(msg);
                assert(r@.map_values(|m: ChatMsg| m@) =~= before.push(mv));
            },
            None => {},
        }
        i = i + 1;
    }
    assert(messages@.take(messages.len() as int) =~= messages@);
    r
}

/// The response for a piece of the local model's output: its text, done
/// when the piece is the last.
pub fn piece_response(piece: ChatMsgPiece) -> (r: StreamResponse)
    ensures
        r.content@ == piece.token@,
        r.reasoning_content is None,
        r.tool_calls is None,
        r.finish_reason is None,
        r.done == piece.done,
{
    StreamResponse { content: piece.token, reasoning_content: None, tool_calls: None, finish_reason: None, done: piece.done }
}

/// A tool as the model's API describes it: a function with a name, a
/// description and the JSON text of its parameters.
pub struct LlmTool {
    pub tool_type: String,
    pub name: String,
    pub description: String,
    pub parameters: String,
}

/// The tools offered to the model, from the tools of the servers: each a
/// `function` with the tool's name, description and input schema.
pub fn llm_tools(tools: &[McpTool]) -> (r: Vec<LlmTool>)
    ensures
        r@.len() == tools@.len(),
        forall|k: int|
            0 <= k < r@.len() ==> {
                let t = #[trigger] r@[k];
                &&& t.tool_type@ == "function"@
                &&& t.name@ == tools@[k].name@
                &&& t.description@ == tools@[k].description@
                &&& t.parameters@ == tools@[k].input_schema@
            },
{
    let mut r: Vec<LlmTool> = Vec::new();
    let mut i: usize = 0;
    while i < tools.len()
        invariant
            0 <= i <= tools.len(),
            r@.len() == i,
            forall|k: int|
                0 <= k < i ==> {
                    let t = #[trigger] r@[k];
                    &&& t.tool_type@ == "function"@
                    &&& t.name@ == tools@[k].name@
                    &&& t.description@ == tools@[k].description@
                    &&& t.parameters@ == tools@[k].input_schema@
                },
        decreases tools.len() - i,
    {
        let t = &tools[i];
        r.push(
            LlmTool {
                tool_type: "function".to_string(),
                name: t.name.clone(),
                description: t.description.clone(),
                parameters: t.input_schema.clone(),
            },
        );
        i = i + 1;
    }
    r
}

} // verus!
