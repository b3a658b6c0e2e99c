use rust_saas::memory::{
    prepare_session, tool_prompt, ChatMemory, ChatMemoryStore, ChatMsg, ChatMsgPiece, LlmError,
    LlmErrorKind, PieceBuffer, STORE_KEEP,
};

fn msg(role: &str, content: &str) -> ChatMsg {
    ChatMsg::new(1, 2, 3, 4, role.to_string(), content.to_string())
}

fn contents(v: &[ChatMsg]) -> Vec<String> {
    v.iter().map(|m| m.role_and_content().1).collect()
}

#[test]
fn messages_keep_their_fields() {
    let m = msg("user", "hi");
    assert_eq!(m.ids(), (1, 2, 3, 4));
    assert_eq!(m.role_and_content(), ("user".to_string(), "hi".to_string()));
    let d = m.duplicate();
    assert_eq!(d.role_and_content(), m.role_and_content());
}

#[test]
fn push_then_take_gives_the_last_messages() {
    let mut mem = ChatMemory::new(10);
    assert!(mem.is_empty());
    mem.push(msg("user", "a"));
    mem.push(msg("assistant", "b"));
    let h = mem.push(msg("user", "c"));
    assert_eq!(h.len(), 3);
    assert_eq!(mem.len(), 3);
    assert_eq!(contents(&mem.take(2)), vec!["b", "c"]);
    // the last one taken after a push is the message pushed
    assert_eq!(contents(&mem.take(1)), vec!["c"]);
    // taking 0, or all, gives every message
    assert_eq!(contents(&mem.take(0)), vec!["a", "b", "c"]);
    assert_eq!(contents(&mem.take(3)), vec!["a", "b", "c"]);
    mem.clear();
    assert!(mem.is_empty());
}

#[test]
fn store_appends_in_order() {
    let mut store = ChatMemoryStore::new();
    assert_eq!(STORE_KEEP, 64);
    store.push(msg("user", "a"));
    let m = store.push_all(&[msg("user", "b"), msg("assistant", "c")]);
    assert_eq!(m.len(), 3);
    assert_eq!(contents(&store.get_memory().take(0)), vec!["a", "b", "c"]);
    store.clear();
    assert!(store.get_memory().is_empty());
}

#[test]
fn session_without_cache_replaces_memory() {
    let mut store = ChatMemoryStore::new();
    store.push(msg("user", "old"));
    let msgs = vec![msg("system", "s"), msg("user", "u")];
    let session = prepare_session(&mut store, false, &msgs, Some("tools".to_string()));
    assert_eq!(session, vec![("system".to_string(), "s".to_string()), ("user".to_string(), "u".to_string())]);
    assert_eq!(contents(&store.get_memory().take(0)), vec!["s", "u"]);
}

#[test]
fn session_with_cache_adds_tools_and_last_message() {
    let mut store = ChatMemoryStore::new();
    store.push(msg("user", "old"));
    let msgs = vec![msg("user", "first"), msg("user", "last")];
    let session = prepare_session(&mut store, true, &msgs, Some("tools".to_string()));
    assert_eq!(session, vec![("user".to_string(), "first".to_string())]);
    let kept = store.get_memory().take(0);
    assert_eq!(contents(&kept), vec!["old", "tools", "last"]);
    assert_eq!(kept[1].role_and_content().0, "system");
    // an empty memory gets no tool instruction
    let mut empty = ChatMemoryStore::new();
    prepare_session(&mut empty, true, &msgs, Some("tools".to_string()));
    assert_eq!(contents(&empty.get_memory().take(0)), vec!["last"]);
}

#[test]
fn pieces_are_sent_at_line_ends() {
    let mut buf = PieceBuffer::new();
    assert!(buf.token(1, "Hel").is_none());
    let p = buf.token(2, "lo\n").unwrap();
    assert_eq!(p.token_id, vec![1, 2]);
    assert_eq!(p.token, "Hello\n");
    assert!(!p.done);
    assert!(buf.finish().is_none());
    assert!(buf.token(3, "x").is_none());
    let last = buf.end(99);
    assert_eq!(last.token_id, vec![3, 99]);
    assert_eq!(last.token, "x\n");
    assert!(last.done);
    assert!(buf.token(4, "tail").is_none());
    let fin = buf.finish().unwrap();
    assert_eq!(fin.token, "tail");
    assert!(fin.done);
}

#[test]
fn pieces_and_errors() {
    let f = ChatMsgPiece::failure();
    assert!(f.done);
    assert_eq!(f.err, Some(LlmError(LlmErrorKind::Error)));
    let p = ChatMsgPiece::new(vec![5], "t".to_string(), false, None);
    assert_eq!(p.token_id, vec![5]);
    assert_eq!(
        tool_prompt("[]", "{}"),
        "你可以使用的工具如下:[],函数调用的结果只能输出json，输出json采用open ai的格式，json的schema的格式样例如下：{}"
    );
}
