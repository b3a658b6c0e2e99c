//! Reassembling the tool calls that a streamed chat completion sends in pieces,
//! and the decisions taken on each streamed chunk.
use vstd::prelude::*;
use crate::text::{chars_eq, chars_of, has_prefix, starts_with, slice_chars, trim, trim_chars};

verus! {

/// The function part of a tool call.
pub struct ToolCallFunction {
    pub name: Option<String>,
    pub arguments: Option<String>,
}

/// A tool call, or a piece of one as a stream delta carries it. `arguments`
/// holds the JSON text of the call's top-level `arguments` field.
pub struct ToolCallInfo {
    pub id: Option<String>,
    pub tool_type: Option<String>,
    pub function: Option<ToolCallFunction>,
    pub name: Option<String>,
    pub arguments: Option<String>,
    pub index: Option<i32>,
}

/// The mathematical form of a tool call.
pub struct ToolCallView {
    pub id: Option<Seq<char>>,
    pub tool_type: Option<Seq<char>>,
    pub function: Option<(Option<Seq<char>>, Option<Seq<char>>)>,
    pub name: Option<Seq<char>>,
    pub arguments: Option<Seq<char>>,
    pub index: Option<i32>,
}

pub open spec fn ostr(o: Option<String>) -> Option<Seq<char>> {
    match o {
        Some(s) => Some(s@),
        None => None,
    }
}

impl View for ToolCallInfo {
    type V = ToolCallView;

    open spec fn view(&self) -> ToolCallView {
        ToolCallView {
            id: ostr(self.id),
            tool_type: ostr(self.tool_type),
            function: match self.function {
                Some(f) => Some((ostr(f.name), ostr(f.arguments))),
                None => None,
            },
            name: ostr(self.name),
            arguments: ostr(self.arguments),
            index: self.index,
        }
    }
}

/// The views of a list of tool calls.
pub open spec fn calls_view(v: Seq<ToolCallInfo>) -> Seq<ToolCallView> {
    v.map_values(|t: ToolCallInfo| t@)
}

/// The position a delta writes to: its index, or 0.
pub open spec fn delta_index(tc: ToolCallView) -> int {
    match tc.index {
        Some(i) => i as int,
        None => 0,
    }
}

/// A fresh slot opened for position `idx`.
pub open spec fn fresh_call(idx: int) -> ToolCallView {
    ToolCallView {
        id: None,
        tool_type: Some("function"@),
        function: Some((None, None)),
        name: None,
        arguments: None,
        index: Some(idx as i32),
    }
}

/// The text of an optional string, empty when absent.
pub open spec fn or_empty(o: Option<Seq<char>>) -> Seq<char> {
    match o {
        Some(s) => s,
        None => Seq::empty(),
    }
}

/// A slot after a delta's fields were merged into it.
pub open spec fn merge_slot(cur: ToolCallView, tc: ToolCallView) -> ToolCallView {
    let id = if tc.id is Some {
        tc.id
    } else {
        cur.id
    };
    let tool_type = match tc.tool_type {
        Some(tt) => if tt.len() > 0 {
            Some(tt)
        } else {
            cur.tool_type
        },
        None => Some("function"@),
    };
    // name and appended arguments from the delta's function part
    let f1 = match (cur.function, tc.function) {
        (Some((n, a)), Some((dn, da))) => {
            let n2 = match dn {
                Some(x) => if x.len() > 0 {
                    Some(x)
                } else {
                    n
                },
                None => n,
            };
            let a2 = match da {
                Some(x) => if x.len() > 0 {
                    Some(or_empty(a) + x)
                } else {
                    a
                },
                None => a,
            };
            Some((n2, a2))
        },
        _ => cur.function,
    };
    // the top-level arguments fill empty function arguments
    let f2 = match (f1, tc.arguments) {
        (Some((n, a)), Some(x)) => if x.len() > 0 && or_empty(a).len() == 0 {
            Some((n, Some(x)))
        } else {
            f1
        },
        _ => f1,
    };
    ToolCallView { id, tool_type, function: f2, name: cur.name, arguments: cur.arguments, index: cur.index }
}

/// The accumulated calls after one delta.
pub open spec fn merge_delta(acc: Seq<ToolCallView>, tc: ToolCallView) -> Seq<ToolCallView> {
    let idx = delta_index(tc);
    let base = if idx >= acc.len() {
        acc.push(fresh_call(idx))
    } else {
        acc
    };
    base.update(idx, merge_slot(base[idx], tc))
}

fn clone_opt(o: &Option<String>) -> (r: Option<String>)
    ensures
        ostr(r) == ostr(*o),
{
    match o {
        Some(s) => Some(s.clone()),
        None => None,
    }
}

fn function_string() -> (s: String)
    ensures
        s@ == "function"@,
{
    String::from_str("function")
}

/// Merges one streamed tool-call delta into the calls gathered so far.
pub fn merge_tool_call(acc: &mut Vec<ToolCallInfo>, tc: &ToolCallInfo)
    requires
        0 <= delta_index(tc@) <= old(acc)@.len(),
    ensures
        calls_view(final(acc)@) == merge_delta(calls_view(old(acc)@), tc@),
{
    let idx: usize = match tc.index {
        Some(i) => i as usize,
        None => 0,
    };
    let ghost pre = calls_view(acc@);
    if idx >= acc.len() {
        acc.push(
            ToolCallInfo {
                id: None,
                tool_type: Some(function_string()),
                function: Some(ToolCallFunction { name: None, arguments: None }),
                name: None,
                arguments: None,
                index: Some(idx as i32),
            },
        );
    }
    let ghost base = calls_view(acc@);
    assert(base =~= (if idx >= pre.len() {
        pre.push(fresh_call(idx as int))
    } else {
        pre
    }));
    let cur = &acc[idx];
    let new_id = if tc.id.is_some() {
        clone_opt(&tc.id)
    } else {
        clone_opt(&cur.id)
    };
    let new_type = match &tc.tool_type {
        Some(tt) => if !tt.as_str().is_empty() {
            Some(tt.clone())
        } else {
            clone_opt(&cur.tool_type)
        },
        None => Some(function_string()),
    };
    let f1: Option<ToolCallFunction> = match (&cur.function, &tc.function) {
        (Some(f), Some(df)) => {
            let n2 = match &df.name {
                Some(x) => if !x.as_str().is_empty() {
                    Some(x.clone())
                } else {
                    clone_opt(&f.name)
                },
                None => clone_opt(&f.name),
            };
            let a2 = match &df.arguments {
                Some(x) => if !x.as_str().is_empty() {
                    let mut before = match &f.arguments {
                        Some(a) => a.clone(),
                        None => String::new(),
                    };
                    before.append(x.as_str());
                    Some(before)
                } else {
                    clone_opt(&f.arguments)
                },
                None => clone_opt(&f.arguments),
            };
            Some(ToolCallFunction { name: n2, arguments: a2 })
        },
        (Some(f), None) => Some(
            ToolCallFunction { name: clone_opt(&f.name), arguments: clone_opt(&f.arguments) },
        ),
        (None, _) => None,
    };
    let f2: Option<ToolCallFunction> = match (f1, &tc.arguments) {
        (Some(f), Some(x)) => {
            let a_empty = match &f.arguments {
                Some(a) => {
                    a.as_str().is_empty()
                },
                None => true,
            };
            let x_nonempty = !x.as_str().is_empty();
            if x_nonempty && a_empty {
                Some(ToolCallFunction { name: f.name, arguments: Some(x.clone()) })
            } else {
                Some(f)
            }
        },
        (f, _) => f,
    };
    let name = clone_opt(&cur.name);
    let arguments = clone_opt(&cur.arguments);
    let index = cur.index;
    let merged = ToolCallInfo {
        id: new_id,
        tool_type: new_type,
        function: f2,
        name,
        arguments,
        index,
    };
    assert(merged@ == merge_slot(base[idx as int], tc@));
    acc.set(idx, merged);
    assert(calls_view(acc@) =~= base.update(idx as int, merge_slot(base[idx as int], tc@)));
}

/// What one line of a server-sent event stream carries.
pub enum SseLine {
    /// `data: [DONE]`: the stream is over.
    Done,
    /// `data: <payload>`.
    Data(String),
    /// Any other line.
    Ignored,
}

/// The classification of a line (trimmed, then `data: ` stripped).
pub open spec fn sse_line_spec(line: Seq<char>) -> Option<Option<Seq<char>>> {
    let t = trim(line);
    if has_prefix(t, "data: "@) {
        let d = t.subrange(6, t.len() as int);
        if d == "[DONE]"@ {
            Some(None)
        } else {
            Some(Some(d))
        }
    } else {
        None
    }
}

/// Classifies one line of an event stream: `Done` for `data: [DONE]`, the
/// payload for other `data: ` lines, `Ignored` otherwise; the line is
/// trimmed first.
pub fn classify_sse_line(line: &str) -> (r: SseLine)
    ensures
        match r {
            SseLine::Done => sse_line_spec(line@) == Some(None::<Seq<char>>),
            SseLine::Data(d) => sse_line_spec(line@) == Some(Some(d@)),
            SseLine::Ignored => sse_line_spec(line@) is None,
        },
{
    let c = chars_of(line);
    let t = trim_chars(c.as_slice());
    let prefix = chars_of("data: ");
    proof {
        reveal_strlit("data: ");
        reveal_strlit("[DONE]");
    }
    if starts_with(t.as_slice(), prefix.as_slice()) {
        let d = slice_chars(t.as_slice(), 6, t.len());
        let done = chars_of("[DONE]");
        if chars_eq(d.as_slice(), done.as_slice()) {
            SseLine::Done
        } else {
            SseLine::Data(crate::text::string_of(d.as_slice()))
        }
    } else {
        SseLine::Ignored
    }
}

/// The first choice of a parsed stream chunk: its delta and finish reason.
pub struct StreamDelta {
    pub content: Option<String>,
    pub reasoning_content: Option<String>,
    pub tool_calls: Option<Vec<ToolCallInfo>>,
    pub finish_reason: Option<String>,
}

/// Merging a list of deltas in order; `None` when one of them names a
/// position past the end of the calls gathered so far.
pub open spec fn merge_all(acc: Seq<ToolCallView>, tcs: Seq<ToolCallView>) -> Option<Seq<ToolCallView>>
    decreases tcs.len(),
{
    if tcs.len() == 0 {
        Some(acc)
    } else {
        match merge_all(acc, tcs.drop_last()) {
            None => None,
            Some(a) => {
                let i = delta_index(tcs.last());
                if 0 <= i <= a.len() {
                    Some(merge_delta(a, tcs.last()))
                } else {
                    None
                }
            },
        }
    }
}

/// What one network chunk of a streamed completion has gathered.
pub struct ChunkState {
    pub content: String,
    pub reasoning: String,
    pub tool_calls: Vec<ToolCallInfo>,
    pub finish_reason: Option<String>,
    /// Some delta of this request carried tool calls.
    pub has_tool_call_chunk: bool,
}

impl ChunkState {
    /// The state at the start of a request.
    pub fn new() -> (s: ChunkState)
        ensures
            s.content@.len() == 0,
            s.reasoning@.len() == 0,
            s.tool_calls@.len() == 0,
            s.finish_reason is None,
            !s.has_tool_call_chunk,
    {
        ChunkState {
            content: String::new(),
            reasoning: String::new(),
            tool_calls: Vec::new(),
            finish_reason: None,
            has_tool_call_chunk: false,
        }
    }

    /// Forgets what the previous network chunk gathered; whether a delta of
    /// this request carried tool calls is kept.
    pub fn start_chunk(&mut self)
        ensures
            final(self).content@.len() == 0,
            final(self).reasoning@.len() == 0,
            final(self).tool_calls@.len() == 0,
            final(self).finish_reason is None,
            final(self).has_tool_call_chunk == old(self).has_tool_call_chunk,
    {
        self.content = String::new();
        self.reasoning = String::new();
        self.tool_calls = Vec::new();
        self.finish_reason = None;
    }

    /// Takes in the first choice of one parsed `data:` line.
    pub fn apply_delta(&mut self, delta: &StreamDelta)
        requires
            match delta.tool_calls {
                Some(tcs) => merge_all(calls_view(old(self).tool_calls@), calls_view(tcs@)) is Some,
                None => true,
            },
        ensures
            final(self).content@ == old(self).content@ + or_empty(ostr(delta.content)),
            final(self).reasoning@ == old(self).reasoning@ + or_empty(ostr(delta.reasoning_content)),
            match delta.tool_calls {
                Some(tcs) => {
                    &&& Some(calls_view(final(self).tool_calls@)) == merge_all(
                        calls_view(old(self).tool_calls@),
                        calls_view(tcs@),
                    )
                    &&& final(self).has_tool_call_chunk
                },
                None => calls_view(final(self).tool_calls@) == calls_view(old(self).tool_calls@)
                    && final(self).has_tool_call_chunk == old(self).has_tool_call_chunk,
            },
            ostr(final(self).finish_reason) == (match delta.finish_reason {
                Some(r) => if r@ == "tool_calls"@ {
                    Some(r@)
                } else {
                    ostr(old(self).finish_reason)
                },
                None => ostr(old(self).finish_reason),
            }),
    {
        match &delta.content {
            Some(c) => self.content.append(c.as_str()),
            None => {
                assert(self.content@ =~= self.content@ + Seq::<char>::empty());
            },
        }
        match &delta.reasoning_content {
            Some(c) => self.reasoning.append(c.as_str()),
            None => {
                assert(self.reasoning@ =~= self.reasoning@ + Seq::<char>::empty());
            },
        }
        match &delta.tool_calls {
            Some(tcs) => {
                let mut i: usize = 0;
                while i < tcs.len()
                    invariant
                        0 <= i <= tcs.len(),
                        self.content@ == old(self).content@ + or_empty(ostr(delta.content)),
                        self.reasoning@ == old(self).reasoning@ + or_empty(
                            ostr(delta.reasoning_content),
                        ),
                        self.finish_reason == old(self).finish_reason,
                        self.has_tool_call_chunk == old(self).has_tool_call_chunk,
                        merge_all(calls_view(old(self).tool_calls@), calls_view(tcs@)) is Some,
                        Some(calls_view(self.tool_calls@)) == merge_all(
                            calls_view(old(self).tool_calls@),
                            calls_view(tcs@.take(i as int)),
                        ),
                    decreases tcs.len() - i,
                {
                    proof {
                        assert(calls_view(tcs@.take(i + 1)).drop_last() =~= calls_view(
                            tcs@.take(i as int),
                        ));
                        assert(calls_view(tcs@.take(i + 1)).last() == tcs@[i as int]@);
                        lemma_merge_all_prefix(
                            calls_view(old(self).tool_calls@),
                            calls_view(tcs@),
                            i as int + 1,
                        );
                        assert(calls_view(tcs@).take(i + 1) =~= calls_view(tcs@.take(i + 1)));
                    }
                    merge_tool_call(&mut self.tool_calls, &tcs[i]);
                    i = i + 1;
                }
                assert(tcs@.take(tcs.len() as int) =~= tcs@);
                self.has_tool_call_chunk = true;
            },
            None => {},
        }
        match &delta.finish_reason {
            Some(r) => {
                let rc = chars_of(r.as_str());
                let tc = chars_of("tool_calls");
                if chars_eq(rc.as_slice(), tc.as_slice()) {
                    self.finish_reason = Some(r.clone());
                }
            },
            None => {},
        }
    }
}

/// Merging succeeds on a prefix when it succeeds on the whole list.
proof fn lemma_merge_all_prefix(acc: Seq<ToolCallView>, tcs: Seq<ToolCallView>, n: int)
    requires
        0 <= n <= tcs.len(),
        merge_all(acc, tcs) is Some,
    ensures
        merge_all(acc, tcs.take(n)) is Some,
    decreases tcs.len() - n,
{
    if n < tcs.len() {
        assert(tcs.drop_last().take(n) =~= tcs.take(n));
        lemma_merge_all_prefix(acc, tcs.drop_last(), n);
    } else {
        assert(tcs.take(n) =~= tcs);
    }
}

/// The function arguments of a call, empty when it has none.
pub open spec fn call_arguments(t: ToolCallView) -> Seq<char> {
    match t.function {
        Some((_, a)) => or_empty(a),
        None => Seq::empty(),
    }
}

/// The argument text a delta's function part carries, empty when none.
pub open spec fn argument_piece(t: ToolCallView) -> Seq<char> {
    match t.function {
        Some((_, Some(x))) => x,
        _ => Seq::empty(),
    }
}

/// The argument pieces of a list of deltas, joined in order.
pub open spec fn joined_pieces(tcs: Seq<ToolCallView>) -> Seq<char>
    decreases tcs.len(),
{
    if tcs.len() == 0 {
        Seq::empty()
    } else {
        joined_pieces(tcs.drop_last()) + argument_piece(tcs.last())
    }
}

/// The pieces of a streamed call are put back together in order: merging
/// deltas that all name an open slot `i`, none with top-level arguments,
/// leaves the other slots as they were and gives slot `i` its arguments
/// followed by every piece, in the order the deltas came.
pub proof fn lemma_argument_pieces_join(acc: Seq<ToolCallView>, tcs: Seq<ToolCallView>, i: int)
    requires
        0 <= i < acc.len(),
        acc[i].function is Some,
        forall|k: int| 0 <= k < tcs.len() ==> delta_index(#[trigger] tcs[k]) == i && tcs[k].arguments is None,
    ensures
        merge_all(acc, tcs) is Some,
        ({
            let r = merge_all(acc, tcs)->0;
            &&& r.len() == acc.len()
            &&& forall|k: int| 0 <= k < acc.len() && k != i ==> #[trigger] r[k] == acc[k]
            &&& r[i].function is Some
            &&& call_arguments(r[i]) == call_arguments(acc[i]) + joined_pieces(tcs)
        }),
    decreases tcs.len(),
{
    if tcs.len() == 0 {
        assert(call_arguments(acc[i]) + joined_pieces(tcs) =~= call_arguments(acc[i]));
    } else {
        let init = tcs.drop_last();
        let last = tcs.last();
        assert forall|k: int| 0 <= k < init.len() implies delta_index(#[trigger] init[k]) == i
            && init[k].arguments is None by {
            assert(init[k] == tcs[k]);
        }
        lemma_argument_pieces_join(acc, init, i);
        let a = merge_all(acc, init)->0;
        let m = merge_delta(a, last);
        assert(merge_all(acc, tcs) == Some(m));
        assert(m.len() == a.len());
        assert(call_arguments(m[i]) =~= call_arguments(acc[i]) + joined_pieces(tcs));
    }
}

/// A call names a tool, in its function part or at its top level.
pub open spec fn names_tool(t: ToolCallView) -> bool {
    (match t.function {
        Some((Some(n), _)) => n.len() > 0,
        _ => false,
    }) || (match t.name {
        Some(n) => n.len() > 0,
        None => false,
    })
}

/// Whether the chunk ends with tool calls to run: some delta carried tool
/// calls and one of the gathered calls names a tool.
pub fn has_tool_calls(state: &ChunkState) -> (r: bool)
    ensures
        r == (state.has_tool_call_chunk && exists|k: int|
            0 <= k < state.tool_calls@.len() && names_tool(#[trigger] state.tool_calls@[k]@)),
{
    if !state.has_tool_call_chunk {
        return false;
    }
    let mut k: usize = 0;
    while k < state.tool_calls.len()
        invariant
            0 <= k <= state.tool_calls.len(),
            state.has_tool_call_chunk,
            forall|q: int| 0 <= q < k ==> !names_tool(#[trigger] state.tool_calls@[q]@),
        decreases state.tool_calls.len() - k,
    {
        let t = &state.tool_calls[k];
        let by_function = match &t.function {
            Some(f) => match &f.name {
                Some(n) => !n.as_str().is_empty(),
                None => false,
            },
            None => false,
        };
        let by_name = match &t.name {
            Some(n) => !n.as_str().is_empty(),
            None => false,
        };
        if by_function || by_name {
            assert(names_tool(state.tool_calls@[k as int]@));
            return true;
        }
        k = k + 1;
    }
    false
}

/// A call after missing function arguments were set to `{}`.
pub open spec fn with_default_arguments(t: ToolCallView) -> ToolCallView {
    match t.function {
        Some((n, a)) => if or_empty(a).len() == 0 {
            ToolCallView { function: Some((n, Some("{}"@))), ..t }
        } else {
            t
        },
        None => t,
    }
}

/// Sets the function arguments of each call that has none to `{}`.
pub fn fill_default_arguments(calls: &mut Vec<ToolCallInfo>)
    ensures
        calls_view(final(calls)@) == calls_view(old(calls)@).map_values(
            |t: ToolCallView| with_default_arguments(t),
        ),
{
    let ghost orig = calls_view(calls@);
    let mut i: usize = 0;
    while i < calls.len()
        invariant
            0 <= i <= calls.len(),
            orig.len() == calls@.len(),
            forall|k: int|
                0 <= k < i ==> #[trigger] calls@[k]@ == with_default_arguments(orig[k]),
            forall|k: int| i <= k < calls@.len() ==> #[trigger] calls@[k]@ == orig[k],
        decreases calls.len() - i,
    {
        assert(calls@[i as int]@ == orig[i as int]);
        let t = &calls[i];
        let needs = match &t.function {
            Some(f) => match &f.arguments {
                Some(a) => a.as_str().is_empty(),
                None => true,
            },
            None => false,
        };
        if needs {
            let name = match &t.function {
                Some(f) => clone_opt(&f.name),
                None => None,
            };
            let fixed = ToolCallInfo {
                id: clone_opt(&t.id),
                tool_type: clone_opt(&t.tool_type),
                function: Some(ToolCallFunction { name, arguments: Some(String::from_str("{}")) }),
                name: clone_opt(&t.name),
                arguments: clone_opt(&t.arguments),
                index: t.index,
            };
            proof {
                reveal_strlit("{}");
            }
            assert(fixed@ == with_default_arguments(orig[i as int]));
            calls.set(i, fixed);
        }
        i = i + 1;
    }
    assert(calls_view(calls@) =~= orig.map_values(|t: ToolCallView| with_default_arguments(t)));
}

/// The name a call is run under: its function name when not empty, else its
/// top-level name, else empty.
pub open spec fn call_tool_name(t: ToolCallView) -> Seq<char> {
    match t.function {
        Some((Some(n), _)) => if n.len() > 0 {
            n
        } else {
            or_empty(t.name)
        },
        _ => or_empty(t.name),
    }
}

/// The name a call is run under.
pub fn tool_name(t: &ToolCallInfo) -> (r: String)
    ensures
        r@ == call_tool_name(t@),
{
    let from_function = match &t.function {
        Some(f) => match &f.name {
            Some(n) => if !n.as_str().is_empty() {
                Some(n.clone())
            } else {
                None
            },
            None => None,
        },
        None => None,
    };
    match from_function {
        Some(n) => n,
        None => match &t.name {
            Some(n) => n.clone(),
            None => String::new(),
        },
    }
}

/// A tool offered to the model: its name and the server that runs it.
pub struct ToolRef {
    pub name: String,
    pub server_id: Option<i64>,
}

/// The server of the first offered tool with the given name.
pub open spec fn server_of(tools: Seq<ToolRef>, name: Seq<char>) -> Option<i64>
    decreases tools.len(),
{
    if tools.len() == 0 {
        None
    } else if tools[0].name@ == name {
        tools[0].server_id
    } else {
        server_of(tools.drop_first(), name)
    }
}

/// The server that runs the named tool, by the first offered tool of that
/// name; `None` when no tools were offered or none has that name.
pub fn tool_server_id(tools: Option<&[ToolRef]>, name: &String) -> (r: Option<i64>)
    ensures
        r == match tools {
            Some(ts) => server_of(ts@, name@),
            None => None,
        },
{
    match tools {
        None => None,
        Some(ts) => {
            let mut i: usize = 0;
            assert(ts@.subrange(0, ts@.len() as int) =~= ts@);
            while i < ts.len()
                invariant
                    0 <= i <= ts.len(),
                    tools == Some(ts),
                    server_of(ts@, name@) == server_of(ts@.subrange(i as int, ts@.len() as int), name@),
                decreases ts.len() - i,
            {
                proof {
                    let rest = ts@.subrange(i as int, ts@.len() as int);
                    assert(rest.drop_first() =~= ts@.subrange(i + 1, ts@.len() as int));
                }
                if ts[i].name == *name {
                    assert(ts@.subrange(i as int, ts@.len() as int)[0] == ts@[i as int]);
                    return ts[i].server_id;
                }
                i = i + 1;
            }
            None
        },
    }
}

/// What the chat stream yields for each step.
pub struct StreamResponse {
    pub content: String,
    pub reasoning_content: Option<String>,
    pub tool_calls: Option<Vec<ToolCallInfo>>,
    pub finish_reason: Option<String>,
    pub done: bool,
}

/// The last response of a stream, sent on `data: [DONE]`: empty content,
/// finish reason `stop`, done.
pub fn done_response() -> (r: StreamResponse)
    ensures
        r.content@.len() == 0,
        r.reasoning_content is None,
        r.tool_calls is None,
        ostr(r.finish_reason) == Some("stop"@),
        r.done,
{
    StreamResponse {
        content: String::new(),
        reasoning_content: None,
        tool_calls: None,
        finish_reason: Some("stop".to_string()),
        done: true,
    }
}

/// The response for a chunk without tool calls to run: its content, and its
/// reasoning when there is any.
pub fn text_response(state: &ChunkState) -> (r: StreamResponse)
    ensures
        r.content@ == state.content@,
        ostr(r.reasoning_content) == (if state.reasoning@.len() == 0 {
            None
        } else {
            Some(state.reasoning@)
        }),
        r.tool_calls is None,
        r.finish_reason is None,
        !r.done,
{
    StreamResponse {
        content: state.content.clone(),
        reasoning_content: if state.reasoning.as_str().is_empty() {
            None
        } else {
            Some(state.reasoning.clone())
        },
        tool_calls: None,
        finish_reason: None,
        done: false,
    }
}

/// A copy of a tool call.
pub fn copy_call(t: &ToolCallInfo) -> (r: ToolCallInfo)
    ensures
        r@ == t@,
{
    ToolCallInfo {
        id: clone_opt(&t.id),
        tool_type: clone_opt(&t.tool_type),
        function: match &t.function {
            Some(f) => Some(ToolCallFunction { name: clone_opt(&f.name), arguments: clone_opt(&f.arguments) }),
            None => None,
        },
        name: clone_opt(&t.name),
        arguments: clone_opt(&t.arguments),
        index: t.index,
    }
}

/// The response sent after a tool call was run: the chunk's content and
/// reasoning, and that call.
pub fn tool_response(state: &ChunkState, call: &ToolCallInfo) -> (r: StreamResponse)
    ensures
        r.content@ == state.content@,
        ostr(r.reasoning_content) == Some(state.reasoning@),
        r.tool_calls matches Some(tcs) && tcs@.len() == 1 && tcs@[0]@ == call@,
        r.finish_reason is None,
        !r.done,
{
    let mut tcs: Vec<ToolCallInfo> = Vec::new();
    tcs.push(copy_call(call));
    StreamResponse {
        content: state.content.clone(),
        reasoning_content: Some(state.reasoning.clone()),
        tool_calls: Some(tcs),
        finish_reason: None,
        done: false,
    }
}

/// Whether `text` parses as a JSON value (`serde_json::from_str::<Value>`).
pub uninterp spec fn json_value_ok(text: Seq<char>) -> bool;

/// The string that the JSON text `text` denotes when it is a JSON string
/// (`serde_json::from_str::<String>`); `None` when it is not one.
pub uninterp spec fn json_string_value(text: Seq<char>) -> Option<Seq<char>>;

/// A hexadecimal digit, in lower case.
pub open spec fn hex_digit(d: nat) -> char {
    if d < 10 {
        crate::text::digit_char(d)
    } else if d == 10 {
        'a'
    } else if d == 11 {
        'b'
    } else if d == 12 {
        'c'
    } else if d == 13 {
        'd'
    } else if d == 14 {
        'e'
    } else {
        'f'
    }
}

/// How one character is written inside a JSON string: `"` and `\` behind a
/// backslash; backspace, tab, line feed, form feed and carriage return as
/// `\b \t \n \f \r`; the other control characters below U+0020 as
/// `\u00XX` in lower-case hexadecimal; every other character as itself.
pub open spec fn json_escape_char(c: char) -> Seq<char> {
    let n = c as u32;
    if c == '"' {
        seq!['\\', '"']
    } else if c == '\\' {
        seq!['\\', '\\']
    } else if n == 8 {
        seq!['\\', 'b']
    } else if n == 9 {
        seq!['\\', 't']
    } else if n == 10 {
        seq!['\\', 'n']
    } else if n == 12 {
        seq!['\\', 'f']
    } else if n == 13 {
        seq!['\\', 'r']
    } else if n < 32 {
        seq!['\\', 'u', '0', '0', hex_digit((n / 16) as nat), hex_digit((n % 16) as nat)]
    } else {
        seq![c]
    }
}

/// The characters of a string with JSON escapes, in order.
pub open spec fn json_escaped(s: Seq<char>) -> Seq<char>
    decreases s.len(),
{
    if s.len() == 0 {
        Seq::empty()
    } else {
        json_escaped(s.drop_last()) + json_escape_char(s.last())
    }
}

/// The JSON text of a string (`serde_json::to_string` on a `str`): the
/// escaped characters between double quotes.
pub open spec fn json_quoted(s: Seq<char>) -> Seq<char> {
    seq!['"'] + json_escaped(s) + seq!['"']
}

/// `serde_json::from_str::<serde_json::Value>`: whether the text parses as a
/// JSON value. The contract names the answer; JSON syntax is left unsaid.
#[verifier::external_body]
fn parses_as_json(text: &str) -> (r: bool)
    ensures
        r == json_value_ok(text@),
{
    serde_json::from_str::<serde_json::Value>(text).is_ok()
}

/// `serde_json::from_str::<String>`: the string a JSON string literal
/// denotes, `None` when the text is not one. The contract names the result.
#[verifier::external_body]
fn json_string(text: &str) -> (r: Option<String>)
    ensures
        ostr(r) == json_string_value(text@),
{
    serde_json::from_str::<String>(text).ok()
}

/// `serde_json::to_string` on a `str`: the string as JSON text, quoted and
/// escaped as `json_quoted` states (serde_json's compact formatter and its
/// escape table). Writing a string into a `Vec` cannot fail, so the error arm
/// is never taken.
#[verifier::external_body]
pub(crate) fn quote_json(s: &str) -> (r: String)
    ensures
        r@ == json_quoted(s@),
{
    match serde_json::to_string(s) {
        Ok(t) => t,
        Err(_) => String::new(),
    }
}

/// The JSON text of the arguments a call is run with. When the call has
/// function arguments, they are trimmed and taken when they are JSON; else,
/// when they are a JSON string whose content is JSON, that content; else
/// `{}`. Without function arguments, the call's top-level arguments, else
/// `{}`.
pub open spec fn tool_arguments_spec(t: ToolCallView) -> Seq<char> {
    let a = call_arguments(t);
    if a.len() > 0 {
        let tr = trim(a);
        if json_value_ok(tr) {
            tr
        } else {
            match json_string_value(tr) {
                Some(inner) => if json_value_ok(inner) {
                    inner
                } else {
                    "{}"@
                },
                None => "{}"@,
            }
        }
    } else {
        match t.arguments {
            Some(x) => x,
            None => "{}"@,
        }
    }
}

/// The JSON text of the arguments a call is run with.
pub fn tool_arguments(t: &ToolCallInfo) -> (r: String)
    ensures
        r@ == tool_arguments_spec(t@),
{
    proof {
        reveal_strlit("{}");
    }
    let a: Option<&String> = match &t.function {
        Some(f) => match &f.arguments {
            Some(x) => Some(x),
            None => None,
        },
        None => None,
    };
    let nonempty = match a {
        Some(x) => !x.as_str().is_empty(),
        None => false,
    };
    if nonempty {
        let x = a.unwrap();
        let tr = crate::text::trimmed(x.as_str());
        if parses_as_json(tr.as_str()) {
            return tr;
        }
        match json_string(tr.as_str()) {
            Some(inner) => if parses_as_json(inner.as_str()) {
                inner
            } else {
                String::from_str("{}")
            },
            None => String::from_str("{}"),
        }
    } else {
        match &t.arguments {
            Some(x) => x.clone(),
            None => String::from_str("{}"),
        }
    }
}

/// The text handed back to the model after a tool ran: the JSON object
/// `{"content":<output>,"success":true}` when it ran, and
/// `{"content":"","error":<message>,"success":false}` when it failed (keys in
/// the order `serde_json` writes them).
pub open spec fn tool_result_spec(outcome: Result<Seq<char>, Seq<char>>) -> Seq<char> {
    match outcome {
        Ok(c) => "{\"content\":"@ + json_quoted(c) + ",\"success\":true}"@,
        Err(e) => "{\"content\":\"\",\"error\":"@ + json_quoted(e) + ",\"success\":false}"@,
    }
}

/// The view of a tool's outcome.
pub open spec fn outcome_view(o: Result<String, String>) -> Result<Seq<char>, Seq<char>> {
    match o {
        Ok(c) => Ok(c@),
        Err(e) => Err(e@),
    }
}

/// The text handed back to the model after a tool ran, from its output or
/// its error message.
pub fn tool_result_text(outcome: &Result<String, String>) -> (r: String)
    ensures
        r@ == tool_result_spec(outcome_view(*outcome)),
{
    let mut v: Vec<char> = Vec::new();
    match outcome {
        Ok(c) => {
            crate::text::extend_str(&mut v, "{\"content\":");
            let q = quote_json(c.as_str());
            crate::text::extend_str(&mut v, q.as_str());
            crate::text::extend_str(&mut v, ",\"success\":true}");
        },
        Err(e) => {
            crate::text::extend_str(&mut v, "{\"content\":\"\",\"error\":");
            let q = quote_json(e.as_str());
            crate::text::extend_str(&mut v, q.as_str());
            crate::text::extend_str(&mut v, ",\"success\":false}");
        },
    }
    crate::text::string_of(v.as_slice())
}

/// One event of a streamed completion, as the reader of the response meets
/// it.
pub enum StreamEvent {
    /// A new network chunk arrived.
    ChunkStart,
    /// A line `data: [DONE]`.
    DataDone,
    /// A `data:` line whose payload parsed, with its first choice.
    Delta(StreamDelta),
    /// The lines of the chunk are all read.
    ChunkEnd,
}

/// A tool call to run: the call (its arguments defaulted), the tool's name,
/// the JSON text of its arguments and the server that runs it.
pub struct ToolRun {
    pub call: ToolCallInfo,
    pub name: String,
    pub arguments: String,
    pub server_id: Option<i64>,
}

/// What the reader of the stream does after an event.
pub enum StreamAction {
    /// Read on.
    Continue,
    /// Send this response, then read on.
    Respond(StreamResponse),
    /// At the end of a chunk: send `text` when there is one, then run each
    /// tool in order; after each, hand its result to the model (see
    /// `tool_result_text`) and send `tool_response` for its call.
    Run { text: Option<StreamResponse>, runs: Vec<ToolRun> },
}

/// The server of the offered tool with the given name, `None` when no tools
/// were offered or none has that name.
pub open spec fn offered_server(tools: Option<&[ToolRef]>, name: Seq<char>) -> Option<i64> {
    match tools {
        Some(ts) => server_of(ts@, name),
        None => None,
    }
}

/// The calls that are run, in order: those that name a tool.
pub open spec fn runnable(calls: Seq<ToolCallView>) -> Seq<ToolCallView>
    decreases calls.len(),
{
    if calls.len() == 0 {
        Seq::empty()
    } else {
        let r = runnable(calls.drop_last());
        if call_tool_name(calls.last()).len() > 0 {
            r.push(calls.last())
        } else {
            r
        }
    }
}

/// `run` runs call `c` with the offered `tools`.
pub open spec fn run_of(run: ToolRun, c: ToolCallView, tools: Option<&[ToolRef]>) -> bool {
    &&& run.call@ == c
    &&& run.name@ == call_tool_name(c)
    &&& run.arguments@ == tool_arguments_spec(c)
    &&& run.server_id == offered_server(tools, call_tool_name(c))
}

/// Whether a chunk ends with tool calls to run (see `has_tool_calls`).
pub open spec fn calls_to_run(state: ChunkState) -> bool {
    state.has_tool_call_chunk && exists|k: int|
        0 <= k < state.tool_calls@.len() && names_tool(#[trigger] state.tool_calls@[k]@)
}

/// The response for a chunk without tool calls to run (see `text_response`).
pub open spec fn is_text_response(r: StreamResponse, state: ChunkState) -> bool {
    &&& r.content@ == state.content@
    &&& ostr(r.reasoning_content) == (if state.reasoning@.len() == 0 {
        None
    } else {
        Some(state.reasoning@)
    })
    &&& r.tool_calls is None
    &&& r.finish_reason is None
    &&& !r.done
}

/// The last response of a stream (see `done_response`).
pub open spec fn is_done_response(r: StreamResponse) -> bool {
    &&& r.content@.len() == 0
    &&& r.reasoning_content is None
    &&& r.tool_calls is None
    &&& ostr(r.finish_reason) == Some("stop"@)
    &&& r.done
}

/// Whether a delta may be taken in: each tool call it carries names a
/// position at most one past the calls gathered so far.
pub open spec fn delta_fits(state: ChunkState, delta: StreamDelta) -> bool {
    match delta.tool_calls {
        Some(tcs) => merge_all(calls_view(state.tool_calls@), calls_view(tcs@)) is Some,
        None => true,
    }
}

/// `new` is `old` after taking in `delta` (see `ChunkState::apply_delta`).
pub open spec fn delta_taken(old: ChunkState, new: ChunkState, delta: StreamDelta) -> bool {
    &&& new.content@ == old.content@ + or_empty(ostr(delta.content))
    &&& new.reasoning@ == old.reasoning@ + or_empty(ostr(delta.reasoning_content))
    &&& match delta.tool_calls {
        Some(tcs) => {
            &&& Some(calls_view(new.tool_calls@)) == merge_all(calls_view(old.tool_calls@), calls_view(tcs@))
            &&& new.has_tool_call_chunk
        },
        None => calls_view(new.tool_calls@) == calls_view(old.tool_calls@) && new.has_tool_call_chunk
            == old.has_tool_call_chunk,
    }
    &&& ostr(new.finish_reason) == (match delta.finish_reason {
        Some(r) => if r@ == "tool_calls"@ {
            Some(r@)
        } else {
            ostr(old.finish_reason)
        },
        None => ostr(old.finish_reason),
    })
}

/// One step of reading a streamed completion: from the state and an event
/// to the next state and the action. A new chunk forgets what the previous
/// one gathered (`start_chunk`); `data: [DONE]` sends the last response; a
/// delta is taken in (`apply_delta`); at the end of a chunk the calls'
/// missing arguments become `{}`, the text response is sent when there are
/// no tool calls to run, and every call that names a tool is run, with its
/// arguments and the server of the offered tool of that name.
pub fn stream_step(state: &mut ChunkState, event: StreamEvent, tools: Option<&[ToolRef]>) -> (a: StreamAction)
    requires
        event matches StreamEvent::Delta(d) ==> delta_fits(*old(state), d),
    ensures
        match event {
            StreamEvent::ChunkStart => {
                &&& a is Continue
                &&& final(state).content@.len() == 0
                &&& final(state).reasoning@.len() == 0
                &&& final(state).tool_calls@.len() == 0
                &&& final(state).finish_reason is None
                &&& final(state).has_tool_call_chunk == old(state).has_tool_call_chunk
            },
            StreamEvent::DataDone => {
                &&& *final(state) == *old(state)
                &&& a matches StreamAction::Respond(r) && is_done_response(r)
            },
            StreamEvent::Delta(d) => {
                &&& a is Continue
                &&& delta_taken(*old(state), *final(state), d)
            },
            StreamEvent::ChunkEnd => {
                &&& final(state).content == old(state).content
                &&& final(state).reasoning == old(state).reasoning
                &&& final(state).finish_reason == old(state).finish_reason
                &&& final(state).has_tool_call_chunk == old(state).has_tool_call_chunk
                &&& calls_view(final(state).tool_calls@) == calls_view(old(state).tool_calls@).map_values(
                    |t: ToolCallView| with_default_arguments(t),
                )
                &&& a matches StreamAction::Run { text, runs } && {
                    &&& (text is Some) == !calls_to_run(*old(state))
                    &&& (text matches Some(r) ==> is_text_response(r, *old(state)))
                    &&& runs@.len() == runnable(calls_view(final(state).tool_calls@)).len()
                    &&& forall|k: int|
                        0 <= k < runs@.len() ==> run_of(
                            #[trigger] runs@[k],
                            runnable(calls_view(final(state).tool_calls@))[k],
                            tools,
                        )
                }
            },
        },
{
    match event {
        StreamEvent::ChunkStart => {
            state.start_chunk();
            StreamAction::Continue
        },
        StreamEvent::DataDone => StreamAction::Respond(done_response()),
        StreamEvent::Delta(d) => {
            state.apply_delta(&d);
            StreamAction::Continue
        },
        StreamEvent::ChunkEnd => {
            let any = has_tool_calls(state);
            let text = if any {
                None
            } else {
                Some(text_response(state))
            };
            fill_default_arguments(&mut state.tool_calls);
            let ghost calls = calls_view(state.tool_calls@);
            let mut runs: Vec<ToolRun> = Vec::new();
            let mut i: usize = 0;
            while i < state.tool_calls.len()
                invariant
                    0 <= i <= state.tool_calls.len(),
                    calls == calls_view(state.tool_calls@),
                    runs@.len() == runnable(calls.take(i as int)).len(),
                    forall|k: int|
                        0 <= k < runs@.len() ==> run_of(#[trigger] runs@[k], runnable(calls.take(i as int))[k], tools),
                decreases state.tool_calls.len() - i,
            {
                let t = &state.tool_calls[i];
                let ghost before = runnable(calls.take(i as int));
                proof {
                    assert(calls.take(i + 1).drop_last() =~= calls.take(i as int));
                    assert(calls.take(i + 1).last() == t@);
                }
                let name = tool_name(t);
                if !name.as_str().is_empty() {
                    let server_id = tool_server_id(tools, &name);
                    let run = ToolRun { call: copy_call(t), name, arguments: tool_arguments(t), server_id };
                    let ghost runs_before = runs@;
                    runs.push(run);
                    proof {
                        assert(runnable(calls.take(i + 1)) == before.push(t@));
                        assert forall|k: int| 0 <= k < runs@.len() implies run_of(
                            #[trigger] runs@[k],
                            runnable(calls.take(i + 1))[k],
                            tools,
                        ) by {
                            if k < before.len() {
                                assert(runs@[k] == runs_before[k]);
                                assert(run_of(runs_before[k], before[k], tools));
                            }
                        }
                    }
                } else {
                    assert(runnable(calls.take(i + 1)) == before);
                }
                i = i + 1;
            }
            assert(calls.take(state.tool_calls.len() as int) =~= calls);
            StreamAction::Run { text, runs }
        },
    }
}

} // verus!
