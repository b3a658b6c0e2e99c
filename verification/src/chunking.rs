//! Cutting a document into overlapping chunks at white space.
use vstd::prelude::*;
use crate::text::{is_blank, is_blank_chars, chars_of, lossy_string, utf8_lossy};
use vstd::string::StringSliceAdditionalSpecFns;

verus! {

/// A chunk of a document: its text and its byte range.
pub struct TextChunk {
    pub content: String,
    pub start_pos: usize,
    pub end_pos: usize,
}

/// A byte at which a chunk may end: space, line feed or tab.
pub open spec fn is_break_byte(b: u8) -> bool {
    b == 32 || b == 10 || b == 9
}

/// One past the last break byte in `b[pos..j]`, or -1 when there is none.
pub open spec fn last_break(b: Seq<u8>, pos: int, j: int) -> int
    decreases j - pos,
{
    if j <= pos {
        -1
    } else if is_break_byte(b[j - 1]) {
        j
    } else {
        last_break(b, pos, j - 1)
    }
}

/// Where the chunk starting at `pos` ends: `size` bytes on, pulled back to
/// just after the last break byte unless the text ends first.
pub open spec fn chunk_end(b: Seq<u8>, pos: int, size: nat) -> int {
    let end = if pos + size < b.len() {
        pos + size
    } else {
        b.len() as int
    };
    if end < b.len() {
        let r = last_break(b, pos, end);
        if r < 0 {
            end
        } else {
            r
        }
    } else {
        end
    }
}

/// The byte ranges of the chunks from `pos` on; each next chunk starts
/// `overlap` bytes before the previous end when that is past its start.
pub open spec fn spans(b: Seq<u8>, size: nat, overlap: nat, pos: int) -> Seq<(int, int)>
    decreases b.len() - pos,
{
    if pos < 0 || pos >= b.len() {
        Seq::empty()
    } else {
        let ae = chunk_end(b, pos, size);
        if ae <= pos {
            Seq::empty()
        } else {
            let next = if ae > pos + overlap {
                ae - overlap
            } else {
                ae
            };
            proof {
                lemma_chunk_end_bound(b, pos, size);
            }
            seq![(pos, ae)] + spans(b, size, overlap, next)
        }
    }
}

/// The ranges whose text is not blank.
pub open spec fn kept(b: Seq<u8>, s: Seq<(int, int)>) -> Seq<(int, int)>
    decreases s.len(),
{
    if s.len() == 0 {
        s
    } else {
        let r = kept(b, s.drop_first());
        if !is_blank(utf8_lossy(b.subrange(s[0].0, s[0].1))) {
            seq![s[0]] + r
        } else {
            r
        }
    }
}

/// The chunks of a document: the non-blank byte ranges of `spans`, in order.
pub open spec fn chunk_ranges(b: Seq<u8>, size: nat, overlap: nat) -> Seq<(int, int)> {
    kept(b, spans(b, size, overlap, 0))
}

/// A chunk starting inside the document ends inside it, and after its start
/// when chunks may hold at least one byte.
pub proof fn lemma_chunk_end_bound(b: Seq<u8>, pos: int, size: nat)
    requires
        0 <= pos < b.len(),
    ensures
        chunk_end(b, pos, size) <= b.len(),
        size > 0 ==> chunk_end(b, pos, size) > pos,
{
    let end = if pos + size < b.len() {
        pos + size
    } else {
        b.len() as int
    };
    lemma_last_break(b, pos, end);
}

/// The last break byte before `j`, when there is one, lies after `pos`.
pub proof fn lemma_last_break(b: Seq<u8>, pos: int, j: int)
    requires
        0 <= pos <= j <= b.len(),
    ensures
        last_break(b, pos, j) == -1 || (pos < last_break(b, pos, j) <= j),
    decreases j - pos,
{
    if j > pos && !is_break_byte(b[j - 1]) {
        lemma_last_break(b, pos, j - 1);
    }
}

/// A chunk ends no more than `size` bytes after it starts.
proof fn lemma_chunk_end_within(b: Seq<u8>, pos: int, size: nat)
    requires
        0 <= pos < b.len(),
    ensures
        chunk_end(b, pos, size) <= pos + size,
{
    let end = if pos + size < b.len() {
        pos + size
    } else {
        b.len() as int
    };
    lemma_last_break(b, pos, end);
}

/// The pieces a document is cut into, from `pos` on, before blank ones are
/// dropped: the first starts at `pos`, each is a non-empty range of at most
/// `size` bytes inside the document, the starts strictly increase, each next
/// piece starts no later than the previous one ends, and the last ends at the
/// end of the document. So every byte from `pos` on lies in some piece.
pub proof fn lemma_spans_cover(b: Seq<u8>, size: nat, overlap: nat, pos: int)
    requires
        size > 0,
        0 <= pos < b.len(),
    ensures
        ({
            let s = spans(b, size, overlap, pos);
            &&& s.len() > 0
            &&& s[0].0 == pos
            &&& s.last().1 == b.len()
            &&& forall|k: int|
                0 <= k < s.len() ==> pos <= #[trigger] s[k].0 < s[k].1 <= b.len() && s[k].1 - s[k].0 <= size
            &&& forall|i: int, j: int| 0 <= i < j < s.len() ==> #[trigger] s[i].0 < #[trigger] s[j].0
            &&& forall|k: int| 1 <= k < s.len() ==> #[trigger] s[k].0 <= s[k - 1].1
        }),
    decreases b.len() - pos,
{
    let s = spans(b, size, overlap, pos);
    let ae = chunk_end(b, pos, size);
    lemma_chunk_end_bound(b, pos, size);
    lemma_chunk_end_within(b, pos, size);
    let next = if ae > pos + overlap {
        ae - overlap
    } else {
        ae
    };
    let rest = spans(b, size, overlap, next);
    assert(s == seq![(pos, ae)] + rest);
    if next < b.len() {
        lemma_spans_cover(b, size, overlap, next);
        assert forall|i: int, j: int| 0 <= i < j < s.len() implies #[trigger] s[i].0 < #[trigger] s[j].0 by {
            if i == 0 {
                assert(s[j] == rest[j - 1]);
                if j - 1 > 0 {
                    assert(rest[0].0 < rest[j - 1].0);
                }
            } else {
                assert(s[i] == rest[i - 1] && s[j] == rest[j - 1]);
            }
        }
        assert forall|k: int| 1 <= k < s.len() implies #[trigger] s[k].0 <= s[k - 1].1 by {
            assert(s[k] == rest[k - 1]);
            if k > 1 {
                assert(s[k - 1] == rest[k - 2]);
                assert(rest[k - 1].0 <= rest[k - 2].1);
            }
        }
        assert forall|k: int| 0 <= k < s.len() implies pos <= #[trigger] s[k].0 < s[k].1 <= b.len() && s[k].1
            - s[k].0 <= size by {
            if k > 0 {
                assert(s[k] == rest[k - 1]);
            }
        }
        assert(s.last() == rest.last());
    } else {
        assert(rest =~= Seq::<(int, int)>::empty());
        assert(s =~= seq![(pos, ae)]);
    }
}

/// Consecutive pieces overlap by exactly `overlap` bytes: each next piece
/// starts `overlap` bytes before the previous one ends when the previous one
/// is longer than `overlap`, and right where it ends otherwise.
pub proof fn lemma_spans_overlap(b: Seq<u8>, size: nat, overlap: nat, pos: int)
    requires
        size > 0,
        0 <= pos < b.len(),
    ensures
        ({
            let s = spans(b, size, overlap, pos);
            forall|k: int|
                1 <= k < s.len() ==> #[trigger] s[k].0 == (if s[k - 1].1 - s[k - 1].0 > overlap {
                    s[k - 1].1 - overlap
                } else {
                    s[k - 1].1
                })
        }),
    decreases b.len() - pos,
{
    let s = spans(b, size, overlap, pos);
    let ae = chunk_end(b, pos, size);
    lemma_chunk_end_bound(b, pos, size);
    let next = if ae > pos + overlap {
        ae - overlap
    } else {
        ae
    };
    let rest = spans(b, size, overlap, next);
    assert(s == seq![(pos, ae)] + rest);
    if next < b.len() {
        lemma_spans_overlap(b, size, overlap, next);
        lemma_spans_cover(b, size, overlap, next);
        assert forall|k: int| 1 <= k < s.len() implies #[trigger] s[k].0 == (if s[k - 1].1 - s[k - 1].0
            > overlap {
            s[k - 1].1 - overlap
        } else {
            s[k - 1].1
        }) by {
            assert(s[k] == rest[k - 1]);
            if k > 1 {
                assert(s[k - 1] == rest[k - 2]);
            }
        }
    } else {
        assert(rest =~= Seq::<(int, int)>::empty());
    }
}

/// What holds of pieces carries over to those that are kept.
proof fn lemma_kept_ordered(b: Seq<u8>, s: Seq<(int, int)>, lo: int, size: nat)
    requires
        forall|k: int| 0 <= k < s.len() ==> lo <= #[trigger] s[k].0 < s[k].1 <= b.len() && s[k].1 - s[k].0 <= size,
        forall|i: int, j: int| 0 <= i < j < s.len() ==> #[trigger] s[i].0 < #[trigger] s[j].0,
    ensures
        ({
            let r = kept(b, s);
            &&& forall|k: int|
                0 <= k < r.len() ==> lo <= #[trigger] r[k].0 < r[k].1 <= b.len() && r[k].1 - r[k].0 <= size
            &&& forall|i: int, j: int| 0 <= i < j < r.len() ==> #[trigger] r[i].0 < #[trigger] r[j].0
        }),
    decreases s.len(),
{
    if s.len() > 0 {
        let rest = s.drop_first();
        assert forall|i: int, j: int| 0 <= i < j < rest.len() implies #[trigger] rest[i].0 < #[trigger] rest[j].0 by {
            assert(s[i + 1].0 < s[j + 1].0);
        }
        assert forall|k: int| 0 <= k < rest.len() implies s[0].0 + 1 <= #[trigger] rest[k].0 < rest[k].1 <= b.len()
            && rest[k].1 - rest[k].0 <= size by {
            assert(s[0].0 < s[k + 1].0);
        }
        lemma_kept_ordered(b, rest, s[0].0 + 1, size);
        let r = kept(b, s);
        let kr = kept(b, rest);
        if !is_blank(utf8_lossy(b.subrange(s[0].0, s[0].1))) {
            assert(r == seq![s[0]] + kr);
            assert forall|i: int, j: int| 0 <= i < j < r.len() implies #[trigger] r[i].0 < #[trigger] r[j].0 by {
                assert(r[j] == kr[j - 1]);
                if i > 0 {
                    assert(r[i] == kr[i - 1]);
                }
            }
            assert forall|k: int| 0 <= k < r.len() implies lo <= #[trigger] r[k].0 < r[k].1 <= b.len() && r[k].1
                - r[k].0 <= size by {
                if k > 0 {
                    assert(r[k] == kr[k - 1]);
                }
            }
        }
    }
}

/// The chunks of a document are non-empty byte ranges inside it, each of at
/// most `size` bytes, in strictly increasing order of their start.
pub proof fn lemma_chunk_ranges_ordered(b: Seq<u8>, size: nat, overlap: nat)
    requires
        size > 0,
    ensures
        ({
            let r = chunk_ranges(b, size, overlap);
            &&& forall|k: int|
                0 <= k < r.len() ==> 0 <= #[trigger] r[k].0 < r[k].1 <= b.len() && r[k].1 - r[k].0 <= size
            &&& forall|i: int, j: int| 0 <= i < j < r.len() ==> #[trigger] r[i].0 < #[trigger] r[j].0
        }),
{
    if b.len() > 0 {
        lemma_spans_cover(b, size, overlap, 0);
        lemma_kept_ordered(b, spans(b, size, overlap, 0), 0, size);
    } else {
        assert(spans(b, size, overlap, 0) =~= Seq::<(int, int)>::empty());
        assert(kept(b, Seq::<(int, int)>::empty()) =~= Seq::<(int, int)>::empty());
    }
}

/// Scanning back from `e` finds the last space, line feed or tab before it:
/// when `b[j]` is one and none lies in `b[j+1..e]`, the scan stops just after
/// `j`; when none lies in `b[pos..e]`, it finds nothing.
proof fn lemma_last_break_finds(b: Seq<u8>, pos: int, j: int, e: int)
    requires
        0 <= pos <= e <= b.len(),
        pos - 1 <= j < e,
        j >= pos ==> (b[j] == 32 || b[j] == 10 || b[j] == 9),
        forall|k: int| j < k < e ==> !(#[trigger] b[k] == 32 || b[k] == 10 || b[k] == 9),
    ensures
        last_break(b, pos, e) == (if j >= pos {
            j + 1
        } else {
            -1
        }),
    decreases e - pos,
{
    if e > pos && e - 1 > j {
        assert(!(b[e - 1] == 32 || b[e - 1] == 10 || b[e - 1] == 9));
        lemma_last_break_finds(b, pos, j, e - 1);
    }
}

/// Where a chunk ends, when the document goes on past `size` bytes from its
/// start: just after the last space, line feed or tab among those `size`
/// bytes (a line feed breaks like a space), or after all `size` bytes when
/// none of them is one. So the piece of the document cut at `pos` is exactly
/// that range, and when the document's first piece is not blank it is the
/// first chunk.
pub proof fn lemma_chunk_ends_after_last_break(b: Seq<u8>, size: nat, overlap: nat, pos: int, j: int)
    requires
        0 <= pos,
        pos + size < b.len(),
        size > 0,
        pos - 1 <= j < pos + size,
        j >= pos ==> (b[j] == 32 || b[j] == 10 || b[j] == 9),
        forall|k: int| j < k < pos + size ==> !(#[trigger] b[k] == 32 || b[k] == 10 || b[k] == 9),
    ensures
        chunk_end(b, pos, size) == (if j >= pos {
            j + 1
        } else {
            pos + size
        }),
        spans(b, size, overlap, pos)[0] == (pos, chunk_end(b, pos, size)),
        pos == 0 && !is_blank(utf8_lossy(b.subrange(0, chunk_end(b, 0, size)))) ==> chunk_ranges(
            b,
            size,
            overlap,
        )[0] == (0int, chunk_end(b, 0, size)),
{
    lemma_last_break_finds(b, pos, j, pos + size);
    lemma_chunk_end_bound(b, pos, size);
    let s = spans(b, size, overlap, pos);
    let ae = chunk_end(b, pos, size);
    let next = if ae > pos + overlap {
        ae - overlap
    } else {
        ae
    };
    assert(s == seq![(pos, ae)] + spans(b, size, overlap, next));
    if pos == 0 && !is_blank(utf8_lossy(b.subrange(0, ae))) {
        assert(kept(b, s) == seq![s[0]] + kept(b, s.drop_first()));
    }
}

fn last_break_exec(b: &[u8], pos: usize, end: usize) -> (r: Option<usize>)
    requires
        pos <= end <= b.len(),
    ensures
        match r {
            Some(x) => x as int == last_break(b@, pos as int, end as int),
            None => last_break(b@, pos as int, end as int) == -1,
        },
{
    let mut j: usize = end;
    while j > pos
        invariant
            pos <= j <= end <= b.len(),
            last_break(b@, pos as int, end as int) == last_break(b@, pos as int, j as int),
        decreases j,
    {
        let c = b[j - 1];
        if c == 32u8 || c == 10u8 || c == 9u8 {
            return Some(j);
        }
        j = j - 1;
    }
    None
}

/// Cuts `content` into chunks of at most `chunk_size` bytes, ending each at
/// white space where one falls inside it, overlapping consecutive chunks by
/// `overlap` bytes, and dropping blank chunks.
pub fn chunk_text(content: &str, chunk_size: usize, overlap: usize) -> (out: Vec<TextChunk>)
    requires
        content.spec_bytes().len() + chunk_size <= usize::MAX,
        content.spec_bytes().len() + overlap <= usize::MAX,
    ensures
        out@.len() == chunk_ranges(content.spec_bytes(), chunk_size as nat, overlap as nat).len(),
        forall|k: int|
            0 <= k < out@.len() ==> {
                let r = chunk_ranges(content.spec_bytes(), chunk_size as nat, overlap as nat)[k];
                &&& (#[trigger] out@[k]).start_pos == r.0
                &&& out@[k].end_pos == r.1
                &&& out@[k].content@ == utf8_lossy(content.spec_bytes().subrange(r.0, r.1))
            },
{
    let bytes = content.as_bytes();
    let n = bytes.len();
    let ghost b = bytes@;
    let ghost all = chunk_ranges(b, chunk_size as nat, overlap as nat);
    let mut chunks: Vec<TextChunk> = Vec::new();
    if chunk_size == 0 {
        proof {
            if n > 0 {
                assert(last_break(b, 0, 0) == -1);
                assert(chunk_end(b, 0, 0) == 0);
            }
            assert(spans(b, 0, overlap as nat, 0) =~= Seq::empty());
            assert(kept(b, Seq::<(int, int)>::empty()) =~= Seq::empty());
        }
        return chunks;
    }
    let ghost mut done: Seq<(int, int)> = Seq::empty();
    let mut pos: usize = 0;
    while pos < n
        invariant
            n == b.len(),
            b == bytes@,
            n + chunk_size <= usize::MAX,
            n + overlap <= usize::MAX,
            chunk_size > 0,
            pos <= n,
            all == chunk_ranges(b, chunk_size as nat, overlap as nat),
            done + kept(b, spans(b, chunk_size as nat, overlap as nat, pos as int)) == all,
            chunks@.len() == done.len(),
            forall|k: int|
                0 <= k < done.len() ==> {
                    &&& (#[trigger] chunks@[k]).start_pos == done[k].0
                    &&& chunks@[k].end_pos == done[k].1
                    &&& chunks@[k].content@ == utf8_lossy(b.subrange(done[k].0, done[k].1))
                },
        decreases n - pos,
    {
        let end = if pos + chunk_size < n {
            pos + chunk_size
        } else {
            n
        };
        let actual_end = if end < n {
            match last_break_exec(bytes, pos, end) {
                Some(r) => r,
                None => end,
            }
        } else {
            end
        };
        proof {
            lemma_last_break(b, pos as int, end as int);
            assert(actual_end as int == chunk_end(b, pos as int, chunk_size as nat));
        }
        assert(actual_end > pos);
        let next = if actual_end > pos + overlap {
            actual_end - overlap
        } else {
            actual_end
        };
        let ghost rest = spans(b, chunk_size as nat, overlap as nat, next as int);
        let ghost here = spans(b, chunk_size as nat, overlap as nat, pos as int);
        assert(here == seq![(pos as int, actual_end as int)] + rest);
        assert(here.drop_first() =~= rest);
        assert(here[0] == (pos as int, actual_end as int));
        let mut piece: Vec<u8> = Vec::new();
        let mut i: usize = pos;
        while i < actual_end
            invariant
                pos <= i <= actual_end <= n,
                n == b.len(),
                b == bytes@,
                piece@ == b.subrange(pos as int, i as int),
            decreases actual_end - i,
        {
            piece.push(bytes[i]);
            assert(b.subrange(pos as int, i + 1) =~= b.subrange(pos as int, i as int).push(b[i as int]));
            i = i + 1;
        }
        let text = lossy_string(piece.as_slice());
        let tc = chars_of(text.as_str());
        if !is_blank_chars(tc.as_slice()) {
            let ghost prev_chunks = chunks@;
            chunks.push(TextChunk { content: text, start_pos: pos, end_pos: actual_end });
            proof {
                let old_done = done;
                done = done.push((pos as int, actual_end as int));
                assert(kept(b, here) == seq![here[0]] + kept(b, rest));
                assert(done + kept(b, rest) =~= old_done + kept(b, here));
                assert forall|k: int| 0 <= k < done.len() implies {
                    &&& (#[trigger] chunks@[k]).start_pos == done[k].0
                    &&& chunks@[k].end_pos == done[k].1
                    &&& chunks@[k].content@ == utf8_lossy(b.subrange(done[k].0, done[k].1))
                } by {
                    if k < old_done.len() {
                        assert(chunks@[k] == prev_chunks[k]);
                    }
                }
            }
        } else {
            assert(kept(b, here) == kept(b, rest));
        }
        pos = next;
    }
    proof {
        if pos >= n {
            assert(spans(b, chunk_size as nat, overlap as nat, pos as int) =~= Seq::empty());
            assert(done + Seq::<(int, int)>::empty() =~= done);
        }
    }
    chunks
}

} // verus!
