//! Search requests: sentences of a result for highlighting, the order in
//! which highlights are shown, and the defaults of the search endpoints.
use vstd::prelude::*;
use crate::text::{chars_of, string_of, trim, trim_chars};

verus! {

/// A character that ends a sentence: `。！？；` or `.!?;`.
pub open spec fn ends_sentence(c: char) -> bool {
    c == '。' || c == '！' || c == '？' || c == '；' || c == '.' || c == '!' || c == '?' || c == ';'
}

fn ends_sentence_exec(c: char) -> (r: bool)
    ensures
        r == ends_sentence(c),
{
    c == '。' || c == '！' || c == '？' || c == '；' || c == '.' || c == '!' || c == '?' || c == ';'
}

/// Reading `s` from the left with `cur` pending: each sentence, with its
/// closing mark, trimmed, the empty ones left out; what follows the last
/// mark is the last sentence.
pub open spec fn sentences_from(cur: Seq<char>, s: Seq<char>) -> Seq<Seq<char>>
    decreases s.len(),
{
    if s.len() == 0 {
        if trim(cur).len() > 0 {
            seq![trim(cur)]
        } else {
            Seq::empty()
        }
    } else {
        let c = cur.push(s[0]);
        if ends_sentence(s[0]) {
            let rest = sentences_from(Seq::empty(), s.drop_first());
            if trim(c).len() > 0 {
                seq![trim(c)] + rest
            } else {
                rest
            }
        } else {
            sentences_from(c, s.drop_first())
        }
    }
}

/// The sentences of a text, each with its closing mark, trimmed; empty ones
/// left out.
pub open spec fn sentences_spec(text: Seq<char>) -> Seq<Seq<char>> {
    sentences_from(Seq::empty(), text)
}

/// Cuts a text into sentences after each of `。！？；.!?;`; each sentence
/// keeps its mark and is trimmed, and blank ones are dropped.
pub fn split_into_sentences(text: &str) -> (r: Vec<String>)
    ensures
        r@.map_values(|s: String| s@) == sentences_spec(text@),
{
    let cs = chars_of(text);
    let mut out: Vec<String> = Vec::new();
    let mut cur: Vec<char> = Vec::new();
    let mut i: usize = 0;
    assert(cs@.subrange(0, cs@.len() as int) =~= cs@);
    while i < cs.len()
        invariant
            0 <= i <= cs.len(),
            cs@ == text@,
            sentences_spec(text@) == out@.map_values(|s: String| s@) + sentences_from(
                cur@,
                cs@.subrange(i as int, cs@.len() as int),
            ),
        decreases cs.len() - i,
    {
        let ghost rest = cs@.subrange(i as int, cs@.len() as int);
        assert(rest[0] == cs@[i as int]);
        assert(rest.drop_first() =~= cs@.subrange(i + 1, cs@.len() as int));
        let c = cs[i];
        cur.push(c);
        if ends_sentence_exec(c) {
            let t = trim_chars(cur.as_slice());
            let ghost before = out@.map_values(|s: String| s@);
            if t.len() > 0 {
                out.push(string_of(t.as_slice()));
                assert(out@.map_values(|s: String| s@) =~= before.push(t@));
                assert(before + (seq![t@] + sentences_from(Seq::empty(), rest.drop_first())) =~= before.push(t@)
                    + sentences_from(Seq::empty(), rest.drop_first()));
            }
            cur = Vec::new();
            assert(cur@ =~= Seq::<char>::empty());
        }
        i = i + 1;
    }
    assert(cs@.subrange(cs@.len() as int, cs@.len() as int) =~= Seq::<char>::empty());
    let t = trim_chars(cur.as_slice());
    let ghost before = out@.map_values(|s: String| s@);
    if t.len() > 0 {
        out.push(string_of(t.as_slice()));
        assert(out@.map_values(|s: String| s@) =~= before + seq![t@]);
    } else {
        assert(before + Seq::<Seq<char>>::empty() =~= before);
    }
    out
}

/// One of the eight marks that close a sentence: `。！？；` and `.!?;`.
pub open spec fn is_sentence_mark(c: char) -> bool {
    c == '\u{3002}' || c == '\u{FF01}' || c == '\u{FF1F}' || c == '\u{FF1B}' || c == '.' || c == '!' || c
        == '?' || c == ';'
}

/// A text whose last character is not white space keeps that character as
/// its last one when trimmed.
proof fn lemma_trim_keeps_last(s: Seq<char>)
    requires
        s.len() > 0,
        !crate::text::is_ws(s.last()),
    ensures
        trim(s).len() > 0,
        trim(s).last() == s.last(),
{
    lemma_trim_start_keeps_last(s);
    let t = crate::text::trim_start(s);
    assert(crate::text::trim_end(t) == t);
}

proof fn lemma_trim_start_keeps_last(s: Seq<char>)
    requires
        s.len() > 0,
        !crate::text::is_ws(s.last()),
    ensures
        crate::text::trim_start(s).len() > 0,
        crate::text::trim_start(s).last() == s.last(),
    decreases s.len(),
{
    if crate::text::is_ws(s[0]) {
        assert(s.len() > 1);
        assert(s.drop_first().last() == s.last());
        lemma_trim_start_keeps_last(s.drop_first());
    }
}

/// Reading with `cur` pending through text `a` that holds no mark, then the
/// mark `c`: the sentence so far closes at `c`, and reading goes on afresh.
proof fn lemma_sentence_closes(cur: Seq<char>, a: Seq<char>, c: char, r: Seq<char>)
    requires
        is_sentence_mark(c),
        forall|k: int| 0 <= k < a.len() ==> !is_sentence_mark(#[trigger] a[k]),
    ensures
        sentences_from(cur, a + seq![c] + r) == (if trim(cur + a + seq![c]).len() > 0 {
            seq![trim(cur + a + seq![c])]
        } else {
            Seq::<Seq<char>>::empty()
        }) + sentences_from(Seq::empty(), r),
    decreases a.len(),
{
    let s = a + seq![c] + r;
    if a.len() == 0 {
        assert(s[0] == c);
        assert(s.drop_first() =~= r);
        assert(cur + a + seq![c] =~= cur.push(c));
        if trim(cur.push(c)).len() == 0 {
            assert(Seq::<Seq<char>>::empty() + sentences_from(Seq::empty(), r) =~= sentences_from(
                Seq::empty(),
                r,
            ));
        }
    } else {
        assert(s[0] == a[0]);
        assert(!is_sentence_mark(a[0]));
        assert(s.drop_first() =~= a.drop_first() + seq![c] + r);
        assert forall|k: int| 0 <= k < a.drop_first().len() implies !is_sentence_mark(
            #[trigger] a.drop_first()[k],
        ) by {
            assert(a.drop_first()[k] == a[k + 1]);
        }
        lemma_sentence_closes(cur.push(a[0]), a.drop_first(), c, r);
        assert(cur.push(a[0]) + a.drop_first() + seq![c] =~= cur + a + seq![c]);
    }
}

/// Every one of the eight marks `。！？；.!?;` ends a sentence: in a text made
/// of a stretch `a` without marks, a mark `c`, and the rest `r`, the first
/// sentence is `a` with `c`, trimmed, and so ends with `c`; the sentences of
/// `r` follow, as they would on their own.
pub proof fn lemma_sentence_mark_ends_sentence(a: Seq<char>, c: char, r: Seq<char>)
    requires
        c == '\u{3002}' || c == '\u{FF01}' || c == '\u{FF1F}' || c == '\u{FF1B}' || c == '.' || c == '!' || c
            == '?' || c == ';',
        forall|k: int|
            0 <= k < a.len() ==> !(#[trigger] a[k] == '\u{3002}' || a[k] == '\u{FF01}' || a[k] == '\u{FF1F}'
                || a[k] == '\u{FF1B}' || a[k] == '.' || a[k] == '!' || a[k] == '?' || a[k] == ';'),
    ensures
        sentences_spec(a + seq![c] + r) == seq![trim(a + seq![c])] + sentences_spec(r),
        trim(a + seq![c]).len() > 0,
        trim(a + seq![c]).last() == c,
{
    assert forall|k: int| 0 <= k < a.len() implies !is_sentence_mark(#[trigger] a[k]) by {}
    lemma_sentence_closes(Seq::empty(), a, c, r);
    assert(Seq::<char>::empty() + a + seq![c] =~= a + seq![c]);
    assert((a + seq![c]).last() == c);
    assert(!crate::text::is_ws(c));
    lemma_trim_keeps_last(a + seq![c]);
}

/// The pieces of `s` between sentence marks (`str::split` on the marks),
/// read from the left with `cur` pending; the marks are dropped.
pub open spec fn pieces_from(cur: Seq<char>, s: Seq<char>) -> Seq<Seq<char>>
    decreases s.len(),
{
    if s.len() == 0 {
        seq![cur]
    } else if ends_sentence(s[0]) {
        seq![cur] + pieces_from(Seq::empty(), s.drop_first())
    } else {
        pieces_from(cur.push(s[0]), s.drop_first())
    }
}

proof fn lemma_piece_closes(cur: Seq<char>, a: Seq<char>, c: char, r: Seq<char>)
    requires
        is_sentence_mark(c),
        forall|k: int| 0 <= k < a.len() ==> !is_sentence_mark(#[trigger] a[k]),
    ensures
        pieces_from(cur, a + seq![c] + r) == seq![cur + a] + pieces_from(Seq::empty(), r),
    decreases a.len(),
{
    let s = a + seq![c] + r;
    if a.len() == 0 {
        assert(s[0] == c);
        assert(s.drop_first() =~= r);
        assert(cur + a =~= cur);
    } else {
        assert(s[0] == a[0]);
        assert(!is_sentence_mark(a[0]));
        assert(s.drop_first() =~= a.drop_first() + seq![c] + r);
        assert forall|k: int| 0 <= k < a.drop_first().len() implies !is_sentence_mark(
            #[trigger] a.drop_first()[k],
        ) by {
            assert(a.drop_first()[k] == a[k + 1]);
        }
        lemma_piece_closes(cur.push(a[0]), a.drop_first(), c, r);
        assert(cur.push(a[0]) + a.drop_first() =~= cur + a);
    }
}

/// The pieces that highlights are matched against are cut at every one of
/// the eight marks `。！？；.!?;`: a stretch `a` without marks, then a mark,
/// gives the piece `a` (the mark dropped), and the pieces of the rest follow.
pub proof fn lemma_sentence_mark_cuts_piece(a: Seq<char>, c: char, r: Seq<char>)
    requires
        c == '\u{3002}' || c == '\u{FF01}' || c == '\u{FF1F}' || c == '\u{FF1B}' || c == '.' || c == '!' || c
            == '?' || c == ';',
        forall|k: int|
            0 <= k < a.len() ==> !(#[trigger] a[k] == '\u{3002}' || a[k] == '\u{FF01}' || a[k] == '\u{FF1F}'
                || a[k] == '\u{FF1B}' || a[k] == '.' || a[k] == '!' || a[k] == '?' || a[k] == ';'),
    ensures
        pieces_from(Seq::empty(), a + seq![c] + r) == seq![a] + pieces_from(Seq::empty(), r),
{
    assert forall|k: int| 0 <= k < a.len() implies !is_sentence_mark(#[trigger] a[k]) by {}
    lemma_piece_closes(Seq::empty(), a, c, r);
    assert(Seq::<char>::empty() + a =~= a);
}

/// The position of the first entry of `chosen` equal to `t`, or -1.
pub open spec fn position_in(chosen: Seq<Seq<char>>, t: Seq<char>) -> int
    decreases chosen.len(),
{
    if chosen.len() == 0 {
        -1
    } else if chosen[0] == t {
        0
    } else {
        let r = position_in(chosen.drop_first(), t);
        if r < 0 {
            -1
        } else {
            r + 1
        }
    }
}

/// The highlights in text order: for each non-blank piece of the content
/// between sentence marks, trimmed, the first chosen sentence equal to it
/// (its text and its position among the chosen ones), in order.
pub open spec fn ordered_spec(pieces: Seq<Seq<char>>, chosen: Seq<Seq<char>>) -> Seq<(Seq<char>, int)>
    decreases pieces.len(),
{
    if pieces.len() == 0 {
        Seq::empty()
    } else {
        let rest = ordered_spec(pieces.drop_last(), chosen);
        let t = trim(pieces.last());
        if t.len() > 0 && position_in(chosen, t) >= 0 {
            rest.push((t, position_in(chosen, t)))
        } else {
            rest
        }
    }
}

fn pieces_exec(s: &[char]) -> (r: Vec<Vec<char>>)
    ensures
        r@.map_values(|v: Vec<char>| v@) == pieces_from(Seq::empty(), s@),
{
    let mut out: Vec<Vec<char>> = Vec::new();
    let mut cur: Vec<char> = Vec::new();
    let mut i: usize = 0;
    assert(s@.subrange(0, s@.len() as int) =~= s@);
    while i < s.len()
        invariant
            0 <= i <= s.len(),
            pieces_from(Seq::empty(), s@) == out@.map_values(|v: Vec<char>| v@) + pieces_from(
                cur@,
                s@.subrange(i as int, s@.len() as int),
            ),
        decreases s.len() - i,
    {
        let ghost rest = s@.subrange(i as int, s@.len() as int);
        assert(rest[0] == s@[i as int]);
        assert(rest.drop_first() =~= s@.subrange(i + 1, s@.len() as int));
        let c = s[i];
        if ends_sentence_exec(c) {
            let ghost before = out@.map_values(|v: Vec<char>| v@);
            let ghost cv = cur@;
            let mut done: Vec<char> = Vec::new();
            std::mem::swap(&mut done, &mut cur);
            out.push(done);
            assert(out@.map_values(|v: Vec<char>| v@) =~= before.push(cv));
            assert(before + (seq![cv] + pieces_from(Seq::empty(), rest.drop_first())) =~= before.push(cv)
                + pieces_from(Seq::empty(), rest.drop_first()));
            assert(cur@ =~= Seq::<char>::empty());
        } else {
            cur.push(c);
        }
        i = i + 1;
    }
    assert(s@.subrange(s@.len() as int, s@.len() as int) =~= Seq::<char>::empty());
    let ghost before = out@.map_values(|v: Vec<char>| v@);
    let ghost cv = cur@;
    out.push(cur);
    assert(out@.map_values(|v: Vec<char>| v@) =~= before + seq![cv]);
    out
}

fn position_in_exec(chosen: &Vec<String>, t: &Vec<char>) -> (r: Option<usize>)
    ensures
        match r {
            Some(k) => position_in(chosen@.map_values(|s: String| s@), t@) == k as int,
            None => position_in(chosen@.map_values(|s: String| s@), t@) < 0,
        },
{
    let ghost all = chosen@.map_values(|s: String| s@);
    let mut i: usize = 0;
    assert(all.subrange(0, all.len() as int) =~= all);
    while i < chosen.len()
        invariant
            0 <= i <= chosen.len(),
            all == chosen@.map_values(|s: String| s@),
            position_in(all, t@) == (if position_in(all.subrange(i as int, all.len() as int), t@) < 0 {
                -1
            } else {
                position_in(all.subrange(i as int, all.len() as int), t@) + i
            }),
        decreases chosen.len() - i,
    {
        let ghost rest = all.subrange(i as int, all.len() as int);
        assert(rest[0] == chosen@[i as int]@);
        assert(rest.drop_first() =~= all.subrange(i + 1, all.len() as int));
        let c = chars_of(chosen[i].as_str());
        if crate::text::chars_eq(c.as_slice(), t.as_slice()) {
            return Some(i);
        }
        i = i + 1;
    }
    assert(all.subrange(all.len() as int, all.len() as int) =~= Seq::<Seq<char>>::empty());
    None
}

/// The chosen sentences in the order of the content: each non-blank piece
/// between sentence marks, trimmed, paired with the position of the first
/// chosen sentence equal to it; pieces that no chosen sentence equals are
/// left out.
pub fn ordered_highlights(content: &str, chosen: &Vec<String>) -> (r: Vec<(String, usize)>)
    ensures
        r@.map_values(|p: (String, usize)| (p.0@, p.1 as int)) == ordered_spec(
            pieces_from(Seq::empty(), content@),
            chosen@.map_values(|s: String| s@),
        ),
{
    let cs = chars_of(content);
    let pieces = pieces_exec(cs.as_slice());
    let ghost ps = pieces_from(Seq::empty(), content@);
    let ghost ch = chosen@.map_values(|s: String| s@);
    let mut r: Vec<(String, usize)> = Vec::new();
    let mut i: usize = 0;
    while i < pieces.len()
        invariant
            0 <= i <= pieces.len(),
            pieces@.map_values(|v: Vec<char>| v@) == ps,
            ch == chosen@.map_values(|s: String| s@),
            r@.map_values(|p: (String, usize)| (p.0@, p.1 as int)) == ordered_spec(ps.take(i as int), ch),
        decreases pieces.len() - i,
    {
        proof {
            assert(ps.take(i + 1).drop_last() =~= ps.take(i as int));
            assert(ps.take(i + 1).last() == pieces@[i as int]@);
        }
        let t = trim_chars(pieces[i].as_slice());
        if t.len() > 0 {
            match position_in_exec(chosen, &t) {
                Some(k) => {
                    let ghost before = r@.map_values(|p: (String, usize)| (p.0@, p.1 as int));
                    r.push((string_of(t.as_slice()), k));
                    assert(r@.map_values(|p: (String, usize)| (p.0@, p.1 as int)) =~= before.push((t@, k as int)));
                },
                None => {},
            }
        }
        i = i + 1;
    }
    assert(ps.take(pieces.len() as int) =~= ps);
    r
}

/// The pattern of a keyword search: the query between `%` signs.
pub fn keyword_pattern(query: &str) -> (r: String)
    ensures
        r@ == "%"@ + query@ + "%"@,
{
    let mut r = String::new();
    r.append("%");
    r.append(query);
    r.append("%");
    r
}

/// How many results a search returns: the project's setting when it has
/// one, else the requested number, else 5.
pub fn effective_top_k(configured: Option<usize>, requested: Option<usize>) -> (r: usize)
    ensures
        r == match configured {
            Some(k) => k,
            None => match requested {
                Some(k) => k,
                None => 5,
            },
        },
{
    match configured {
        Some(k) => k,
        None => match requested {
            Some(k) => k,
            None => 5,
        },
    }
}

/// A request for search suggestions.
pub struct SuggestRequest {
    pub q: String,
    pub project_id: Option<i64>,
    pub limit: Option<usize>,
}

/// Suggestions for a search.
pub struct SuggestResponse {
    pub suggestions: Vec<String>,
    pub categories: Vec<String>,
    pub entities: Vec<String>,
}

/// How many suggestions are asked for: the request's limit, else 10.
pub fn suggestion_limit(req: &SuggestRequest) -> (r: usize)
    ensures
        r == match req.limit {
            Some(l) => l,
            None => 10,
        },
{
    match req.limit {
        Some(l) => l,
        None => 10,
    }
}

} // verus!
