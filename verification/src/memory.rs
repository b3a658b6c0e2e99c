//! The conversation memory of the local model and the assembly of its
//! streamed output into pieces.
use vstd::prelude::*;
use crate::text::{has_suffix, chars_of, push_char};

verus! {

/// The view of a chat message: user, project, flow and workspace ids, role,
/// content, and whether it is stored.
pub type ChatMsgView = (i64, i64, i64, i64, Seq<char>, Seq<char>, bool);

/// A message of a conversation with the local model.
#[derive(Clone, Debug)]
pub struct ChatMsg {
    user_id: i64,
    project_id: i64,
    flow_id: i64,
    workspace_id: i64,
    role: String,
    content: String,
    store: bool,
}

impl View for ChatMsg {
    type V = ChatMsgView;

    closed spec fn view(&self) -> ChatMsgView {
        (
            self.user_id,
            self.project_id,
            self.flow_id,
            self.workspace_id,
            self.role@,
            self.content@,
            self.store,
        )
    }
}

impl ChatMsg {
    /// A message, not yet stored.
    pub fn new(
        user_id: i64,
        project_id: i64,
        flow_id: i64,
        workspace_id: i64,
        role: String,
        content: String,
    ) -> (m: ChatMsg)
        ensures
            m@ == (user_id, project_id, flow_id, workspace_id, role@, content@, false),
    {
        ChatMsg { user_id, project_id, flow_id, workspace_id, role, content, store: false }
    }

    /// A copy of the message.
    pub fn duplicate(&self) -> (m: ChatMsg)
        ensures
            m@ == self@,
    {
        ChatMsg {
            user_id: self.user_id,
            project_id: self.project_id,
            flow_id: self.flow_id,
            workspace_id: self.workspace_id,
            role: self.role.clone(),
            content: self.content.clone(),
            store: self.store,
        }
    }

    /// The ids the message belongs to: user, project, flow and workspace.
    pub fn ids(&self) -> (r: (i64, i64, i64, i64))
        ensures
            r == (self@.0, self@.1, self@.2, self@.3),
    {
        (self.user_id, self.project_id, self.flow_id, self.workspace_id)
    }

    /// The role and the content, as the model's chat template takes them.
    pub fn role_and_content(&self) -> (r: (String, String))
        ensures
            r.0@ == self@.4,
            r.1@ == self@.5,
    {
        (self.role.clone(), self.content.clone())
    }
}

/// The messages a conversation keeps, oldest first.
#[derive(Clone, Debug)]
pub struct ChatMemory {
    histories: Vec<ChatMsg>,
    last_to_keep: i64,
}

/// The last `cnt` messages of `h`, or all of them for `0`.
pub open spec fn take_spec(h: Seq<ChatMsgView>, cnt: nat) -> Seq<ChatMsgView> {
    if cnt == 0 {
        h
    } else {
        h.subrange(h.len() - cnt, h.len() as int)
    }
}

impl ChatMemory {
    /// The messages kept, oldest first.
    pub closed spec fn messages(&self) -> Seq<ChatMsgView> {
        self.histories@.map_values(|m: ChatMsg| m@)
    }

    /// How many recent messages the memory is meant to keep.
    pub closed spec fn keep_limit(&self) -> i64 {
        self.last_to_keep
    }

    /// An empty memory meant to keep `last_to_keep` recent messages.
    pub fn new(last_to_keep: i64) -> (m: ChatMemory)
        ensures
            m.messages() == Seq::<ChatMsgView>::empty(),
            m.keep_limit() == last_to_keep,
    {
        let m = ChatMemory { histories: Vec::new(), last_to_keep };
        assert(m.messages() =~= Seq::<ChatMsgView>::empty());
        m
    }

    /// Adds a message after the others.
    pub fn push(&mut self, chat_msg: ChatMsg) -> (h: &Vec<ChatMsg>)
        ensures
            final(self).messages() == old(self).messages().push(chat_msg@),
            final(self).keep_limit() == old(self).keep_limit(),
            h@.map_values(|m: ChatMsg| m@) == final(self).messages(),
    {
        let ghost before = self.histories@;
        self.histories.push(chat_msg);
        assert(self.histories@.map_values(|m: ChatMsg| m@) =~= before.map_values(|m: ChatMsg| m@).push(
            chat_msg@,
        ));
        &self.histories
    }

    /// Forgets every message.
    pub fn clear(&mut self)
        ensures
            final(self).messages() == Seq::<ChatMsgView>::empty(),
            final(self).keep_limit() == old(self).keep_limit(),
    {
        self.histories.clear();
        assert(self.histories@.map_values(|m: ChatMsg| m@) =~= Seq::<ChatMsgView>::empty());
    }

    /// The last `cnt` messages, oldest first, or all of them when `cnt` is 0.
    pub fn take(&self, cnt: usize) -> (r: Vec<ChatMsg>)
        requires
            cnt <= self.messages().len(),
        ensures
            r@.map_values(|m: ChatMsg| m@) == take_spec(self.messages(), cnt as nat),
    {
        let t = self.histories.len();
        let from: usize = if cnt == 0 {
            0
        } else {
            t - cnt
        };
        let mut v: Vec<ChatMsg> = Vec::new();
        let mut i: usize = from;
        while i < t
            invariant
                from <= i <= t,
                t == self.histories@.len(),
                v@.map_values(|m: ChatMsg| m@) == self.messages().subrange(from as int, i as int),
            decreases t - i,
        {
            let ghost before = v@;
            v.push(self.histories[i].duplicate());
            assert(v@.map_values(|m: ChatMsg| m@) =~= before.map_values(|m: ChatMsg| m@).push(
                self.histories@[i as int]@,
            ));
            assert(self.messages().subrange(from as int, i + 1) =~= self.messages().subrange(
                from as int,
                i as int,
            ).push(self.histories@[i as int]@));
            i = i + 1;
        }
        assert(self.messages().subrange(0, t as int) =~= self.messages());
        v
    }

    /// Whether no message is kept.
    pub fn is_empty(&self) -> (r: bool)
        ensures
            r == (self.messages().len() == 0),
    {
        self.histories.len() == 0
    }

    /// How many messages are kept.
    pub fn len(&self) -> (r: usize)
        ensures
            r == self.messages().len(),
    {
        self.histories.len()
    }
}

/// Pushing a message and then taking the last `n + 1` gives the last `n`
/// taken before, followed by that message; the last one taken after a push
/// is the message pushed.
pub proof fn lemma_push_then_take(h: Seq<ChatMsgView>, m: ChatMsgView, n: nat)
    requires
        n <= h.len(),
    ensures
        n > 0 ==> take_spec(h.push(m), n + 1) == take_spec(h, n).push(m),
        take_spec(h.push(m), 1) == seq![m],
        take_spec(h.push(m), 0) == h.push(m),
{
    if n > 0 {
        assert(take_spec(h.push(m), n + 1) =~= take_spec(h, n).push(m));
    }
    assert(take_spec(h.push(m), 1) =~= seq![m]);
}

/// Taking 0 messages, or as many as are kept, gives all of them.
pub proof fn lemma_take_all(h: Seq<ChatMsgView>)
    ensures
        take_spec(h, 0) == h,
        take_spec(h, h.len()) == h,
{
    assert(take_spec(h, h.len()) =~= h);
}

/// The memory of one conversation with the local model.
#[derive(Clone, Debug)]
pub struct ChatMemoryStore {
    memory: ChatMemory,
}

/// How many recent messages a store's memory is meant to keep.
pub const STORE_KEEP: i64 = 64;

impl ChatMemoryStore {
    /// The messages the store keeps, oldest first.
    pub closed spec fn messages(&self) -> Seq<ChatMsgView> {
        self.memory.messages()
    }

    /// How many recent messages the store's memory is meant to keep.
    pub closed spec fn keep_limit(&self) -> i64 {
        self.memory.keep_limit()
    }

    /// An empty store, meant to keep `STORE_KEEP` recent messages.
    pub fn new() -> (s: ChatMemoryStore)
        ensures
            s.messages() == Seq::<ChatMsgView>::empty(),
            s.keep_limit() == STORE_KEEP,
    {
        ChatMemoryStore { memory: ChatMemory::new(STORE_KEEP) }
    }

    /// Adds a message after the others.
    pub fn push(&mut self, msg: ChatMsg) -> (m: &ChatMemory)
        ensures
            final(self).messages() == old(self).messages().push(msg@),
            m.messages() == final(self).messages(),
    {
        self.memory.push(msg);
        &self.memory
    }

    /// Adds copies of messages after the others, in order.
    pub fn push_all(&mut self, msgs: &[ChatMsg]) -> (m: &ChatMemory)
        ensures
            final(self).messages() == old(self).messages() + msgs@.map_values(|x: ChatMsg| x@),
            m.messages() == final(self).messages(),
    {
        let mut i: usize = 0;
        while i < msgs.len()
            invariant
                0 <= i <= msgs.len(),
                self.messages() == old(self).messages() + msgs@.take(i as int).map_values(|x: ChatMsg| x@),
            decreases msgs.len() - i,
        {
            self.memory.push(msgs[i].duplicate());
            assert(msgs@.take(i + 1).map_values(|x: ChatMsg| x@) =~= msgs@.take(i as int).map_values(
                |x: ChatMsg| x@,
            ).push(msgs@[i as int]@));
            i = i + 1;
        }
        assert(msgs@.take(msgs.len() as int) =~= msgs@);
        &self.memory
    }

    /// Forgets every message.
    pub fn clear(&mut self)
        ensures
            final(self).messages() == Seq::<ChatMsgView>::empty(),
    {
        self.memory.clear();
    }

    /// The memory.
    pub fn get_memory(&self) -> (m: &ChatMemory)
        ensures
            m.messages() == self.messages(),
            m.keep_limit() == self.keep_limit(),
    {
        &self.memory
    }
}

/// What went wrong while the local model generated.
#[derive(Clone, Debug, PartialEq, Eq, Hash)]
pub enum LlmErrorKind {
    Error,
    ModelCannotFound(String),
    IllegalRole,
    IllegalContent,
}

/// An error of the local model.
#[derive(Clone, Debug, PartialEq, Eq, Hash)]
pub struct LlmError(pub LlmErrorKind);

/// A piece of the streamed output of the local model.
pub struct ChatMsgPiece {
    pub token_id: Vec<i32>,
    pub token: String,
    pub done: bool,
    pub err: Option<LlmError>,
}

impl ChatMsgPiece {
    /// A piece made of these tokens and their text.
    pub fn new(token_id: Vec<i32>, token: String, done: bool, err: Option<LlmError>) -> (p: ChatMsgPiece)
        ensures
            p.token_id@ == token_id@,
            p.token@ == token@,
            p.done == done,
            p.err == err,
    {
        ChatMsgPiece { token_id, token, done, err }
    }

    /// The last piece of a failed generation: no token, no text, done, with
    /// the error.
    pub fn failure() -> (p: ChatMsgPiece)
        ensures
            p.token_id@.len() == 0,
            p.token@.len() == 0,
            p.done,
            p.err == Some(LlmError(LlmErrorKind::Error)),
    {
        ChatMsgPiece { token_id: Vec::new(), token: String::new(), done: true, err: Some(LlmError(LlmErrorKind::Error)) }
    }
}

/// Whether a token's text ends a line.
pub open spec fn ends_line(t: Seq<char>) -> bool {
    t.len() > 0 && (t.last() == '\n' || t.last() == '\r')
}

/// The tokens generated since the last piece was sent, and their text.
pub struct PieceBuffer {
    tokens: Vec<i32>,
    text: String,
}

impl PieceBuffer {
    /// The tokens held.
    pub closed spec fn held_tokens(&self) -> Seq<i32> {
        self.tokens@
    }

    /// The text held.
    pub closed spec fn held_text(&self) -> Seq<char> {
        self.text@
    }

    /// An empty buffer.
    pub fn new() -> (b: PieceBuffer)
        ensures
            b.held_tokens().len() == 0,
            b.held_text().len() == 0,
    {
        PieceBuffer { tokens: Vec::new(), text: String::new() }
    }

    /// Everything held, as a piece; the buffer is left empty.
    fn flush(&mut self, done: bool) -> (p: ChatMsgPiece)
        ensures
            p.token_id@ == old(self).held_tokens(),
            p.token@ == old(self).held_text(),
            p.done == done,
            p.err is None,
            final(self).held_tokens().len() == 0,
            final(self).held_text().len() == 0,
    {
        let mut tokens: Vec<i32> = Vec::new();
        std::mem::swap(&mut tokens, &mut self.tokens);
        let mut text = String::new();
        std::mem::swap(&mut text, &mut self.text);
        ChatMsgPiece { token_id: tokens, token: text, done, err: None }
    }

    /// Takes a generated token and its text; when the text ends a line, all
    /// that is held is sent as a piece that is not the last.
    pub fn token(&mut self, id: i32, text: &str) -> (p: Option<ChatMsgPiece>)
        ensures
            ends_line(text@) <==> p is Some,
            p is Some ==> {
                let q = p->0;
                &&& q.token_id@ == old(self).held_tokens().push(id)
                &&& q.token@ == old(self).held_text() + text@
                &&& !q.done
                &&& q.err is None
                &&& final(self).held_tokens().len() == 0
                &&& final(self).held_text().len() == 0
            },
            p is None ==> final(self).held_tokens() == old(self).held_tokens().push(id)
                && final(self).held_text() == old(self).held_text() + text@,
    {
        self.tokens.push(id);
        self.text.append(text);
        let cs = chars_of(text);
        if cs.len() > 0 && (cs[cs.len() - 1] == '\n' || cs[cs.len() - 1] == '\r') {
            Some(self.flush(false))
        } else {
            None
        }
    }

    /// The model gave its end-of-sequence token before any further decoding:
    /// what text is held, if any, is sent as the last piece.
    pub fn finish(&mut self) -> (p: Option<ChatMsgPiece>)
        ensures
            old(self).held_text().len() > 0 <==> p is Some,
            p is Some ==> p->0.token_id@ == old(self).held_tokens() && p->0.token@ == old(self).held_text()
                && p->0.done && p->0.err is None && final(self).held_text().len() == 0
                && final(self).held_tokens().len() == 0,
            p is None ==> final(self).held_tokens() == old(self).held_tokens() && final(self).held_text()
                == old(self).held_text(),
    {
        if self.text.as_str().is_empty() {
            None
        } else {
            Some(self.flush(true))
        }
    }

    /// The model sampled its end-of-sequence token `eos`: it is added, a new
    /// line ends the text, and all is sent as the last piece.
    pub fn end(&mut self, eos: i32) -> (p: ChatMsgPiece)
        ensures
            p.token_id@ == old(self).held_tokens().push(eos),
            p.token@ == old(self).held_text().push('\n'),
            p.done,
            p.err is None,
            final(self).held_tokens().len() == 0,
            final(self).held_text().len() == 0,
    {
        self.tokens.push(eos);
        push_char(&mut self.text, '\n');
        self.flush(true)
    }
}

/// The instruction that lists the tools the local model may call, given
/// their description and an example of a call, both as JSON text.
pub fn tool_prompt(tools_desc: &str, example: &str) -> (r: String)
    ensures
        r@ == "你可以使用的工具如下:"@ + tools_desc@ + ",函数调用的结果只能输出json，输出json采用open ai的格式，json的schema的格式样例如下："@
            + example@,
{
    let mut r = String::new();
    r.append("你可以使用的工具如下:");
    r.append(tools_desc);
    r.append(",函数调用的结果只能输出json，输出json采用open ai的格式，json的schema的格式样例如下：");
    r.append(example);
    r
}

/// The role and content of each message.
pub open spec fn chat_pairs(ms: Seq<ChatMsgView>) -> Seq<(Seq<char>, Seq<char>)> {
    ms.map_values(|m: ChatMsgView| (m.4, m.5))
}

/// Prepares a conversation turn with the local model and returns the
/// messages (role and content) to give it. When the model keeps its cache,
/// the tool instruction (if any) is added to a memory that already holds
/// messages, then the last new message, and only the first new message is
/// given; otherwise the memory is replaced by the new messages, which are all
/// given.
pub fn prepare_session(
    store: &mut ChatMemoryStore,
    keep: bool,
    msges: &Vec<ChatMsg>,
    tool_note: Option<String>,
) -> (session: Vec<(String, String)>)
    requires
        msges@.len() > 0,
    ensures
        keep ==> {
            let first = msges@[0]@;
            let with_tools = match tool_note {
                Some(t) => if old(store).messages().len() > 0 {
                    old(store).messages().push((first.0, first.1, first.2, first.3, "system"@, t@, false))
                } else {
                    old(store).messages()
                },
                None => old(store).messages(),
            };
            &&& final(store).messages() == with_tools.push(msges@.last()@)
            &&& session@.map_values(|p: (String, String)| (p.0@, p.1@)) == seq![(first.4, first.5)]
        },
        !keep ==> {
            &&& final(store).messages() == msges@.map_values(|m: ChatMsg| m@)
            &&& session@.map_values(|p: (String, String)| (p.0@, p.1@)) == chat_pairs(
                msges@.map_values(|m: ChatMsg| m@),
            )
        },
{
    let first = &msges[0];
    if keep {
        match tool_note {
            Some(t) => {
                if !store.get_memory().is_empty() {
                    let (u, p, f, w) = first.ids();
                    store.push(ChatMsg::new(u, p, f, w, "system".to_string(), t));
                }
            },
            None => {},
        }
        store.push(msges[msges.len() - 1].duplicate());
        let mut session: Vec<(String, String)> = Vec::new();
        session.push(first.role_and_content());
        assert(session@.map_values(|p: (String, String)| (p.0@, p.1@)) =~= seq![(first@.4, first@.5)]);
        session
    } else {
        store.clear();
        store.push_all(msges.as_slice());
        assert(Seq::<ChatMsgView>::empty() + msges@.map_values(|x: ChatMsg| x@) =~= msges@.map_values(
            |x: ChatMsg| x@,
        ));
        let all = store.get_memory().take(0);
        let mut session: Vec<(String, String)> = Vec::new();
        let mut i: usize = 0;
        while i < all.len()
            invariant
                0 <= i <= all.len(),
                all@.map_values(|m: ChatMsg| m@) == msges@.map_values(|m: ChatMsg| m@),
                session@.map_values(|p: (String, String)| (p.0@, p.1@)) == chat_pairs(
                    all@.take(i as int).map_values(|m: ChatMsg| m@),
                ),
            decreases all.len() - i,
        {
            let ghost before = session@;
            session.push(all[i].role_and_content());
            assert(all@.take(i + 1).map_values(|m: ChatMsg| m@) =~= all@.take(i as int).map_values(
                |m: ChatMsg| m@,
            ).push(all@[i as int]@));
            assert(chat_pairs(all@.take(i + 1).map_values(|m: ChatMsg| m@)) =~= chat_pairs(
                all@.take(i as int).map_values(|m: ChatMsg| m@),
            ).push((all@[i as int]@.4, all@[i as int]@.5)));
            assert(session@.map_values(|p: (String, String)| (p.0@, p.1@)) =~= before.map_values(
                |p: (String, String)| (p.0@, p.1@),
            ).push((all@[i as int]@.4, all@[i as int]@.5)));
            assert(session@.map_values(|p: (String, String)| (p.0@, p.1@)) =~= chat_pairs(
                all@.take(i + 1).map_values(|m: ChatMsg| m@),
            ));
            i = i + 1;
        }
        assert(all@.take(all.len() as int) =~= all@);
        session
    }
}

} // verus!
