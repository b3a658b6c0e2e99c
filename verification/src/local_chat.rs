//! The stand-in local chat model served over server-sent events: its
//! request and message types and the chunks it answers with.
use vstd::prelude::*;
use crate::text::{int_text, i64_string};

verus! {

/// A chat request to the local model.
pub struct LlmRequest {
    pub model_id: String,
}

/// Who a local chat message belongs to.
#[derive(PartialEq, Eq, Structural, Clone, Copy, Debug)]
pub struct UserSession {
    pub user_id: i64,
    pub project_id: i64,
    pub flow_id: i64,
    pub workspace_id: i64,
}

/// A message of a local chat.
pub struct ChatMessage {
    pub role: String,
    pub content: Option<String>,
    pub session: UserSession,
}

/// One chunk of the local model's answer.
pub struct StreamResponse {
    pub content: String,
    pub done: bool,
}

/// The number of chunks the stand-in model answers with.
pub const DEMO_CHUNKS: usize = 5;

/// The text of chunk `i`: `Token chunk <i> `.
pub open spec fn demo_chunk_text(i: int) -> Seq<char> {
    "Token chunk "@ + int_text(i) + " "@
}

/// The stand-in for the local model, by the path of its weights.
pub struct LLMLlamaWrapper {
    pub model_path: String,
}

impl LLMLlamaWrapper {
    /// The stand-in for the model at `path`.
    pub fn new(path: String) -> (w: LLMLlamaWrapper)
        ensures
            w.model_path@ == path@,
    {
        LLMLlamaWrapper { model_path: path }
    }

    /// The chunks the stand-in answers any chat with, in order: five, the
    /// last one marked done.
    pub fn demo_chunks(&self) -> (r: Vec<StreamResponse>)
        ensures
            r@.len() == DEMO_CHUNKS,
            forall|i: int|
                0 <= i < DEMO_CHUNKS ==> (#[trigger] r@[i]).content@ == demo_chunk_text(i) && r@[i].done == (i
                    == DEMO_CHUNKS - 1),
    {
        let mut r: Vec<StreamResponse> = Vec::new();
        let mut i: usize = 0;
        while i < DEMO_CHUNKS
            invariant
                0 <= i <= DEMO_CHUNKS,
                r@.len() == i,
                forall|k: int|
                    0 <= k < i ==> (#[trigger] r@[k]).content@ == demo_chunk_text(k) && r@[k].done == (k
                        == DEMO_CHUNKS - 1),
            decreases DEMO_CHUNKS - i,
        {
            let mut c = String::new();
            c.append("Token chunk ");
            let n = i64_string(i as i64);
            c.append(n.as_str());
            c.append(" ");
            r.push(StreamResponse { content: c, done: i == DEMO_CHUNKS - 1 });
            i = i + 1;
        }
        r
    }
}

/// The message the chat endpoint sends the stand-in: `Hello` from the user,
/// in session 1/1/1/1.
pub fn greeting_message() -> (m: ChatMessage)
    ensures
        m.role@ == "user"@,
        m.content matches Some(c) && c@ == "Hello"@,
        m.session == (UserSession { user_id: 1, project_id: 1, flow_id: 1, workspace_id: 1 }),
{
    ChatMessage {
        role: "user".to_string(),
        content: Some("Hello".to_string()),
        session: UserSession { user_id: 1, project_id: 1, flow_id: 1, workspace_id: 1 },
    }
}

} // verus!
