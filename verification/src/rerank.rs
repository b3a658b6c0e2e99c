//! The integer side of re-ranking search results: query terms, how often a
//! term occurs in a document, and the order that spreads results over
//! documents.
use vstd::prelude::*;
use crate::text::{chars_of, is_ws, occurs_at, string_of};
use std::collections::HashSet;

verus! {

/// The whitespace-separated words of `s`, read from the left with `cur`
/// pending (`str::split_whitespace`).
pub open spec fn words_from(cur: Seq<char>, s: Seq<char>) -> Seq<Seq<char>>
    decreases s.len(),
{
    if s.len() == 0 {
        if cur.len() > 0 {
            seq![cur]
        } else {
            Seq::empty()
        }
    } else if is_ws(s[0]) {
        if cur.len() > 0 {
            seq![cur] + words_from(Seq::empty(), s.drop_first())
        } else {
            words_from(Seq::empty(), s.drop_first())
        }
    } else {
        words_from(cur.push(s[0]), s.drop_first())
    }
}

/// The terms of a query: its whitespace-separated words, in order.
pub fn query_terms(query: &str) -> (r: Vec<String>)
    ensures
        r@.map_values(|s: String| s@) == words_from(Seq::empty(), query@),
{
    let cs = chars_of(query);
    let mut out: Vec<String> = Vec::new();
    let mut cur: Vec<char> = Vec::new();
    let mut i: usize = 0;
    assert(cs@.subrange(0, cs@.len() as int) =~= cs@);
    while i < cs.len()
        invariant
            0 <= i <= cs.len(),
            cs@ == query@,
            words_from(Seq::empty(), query@) == out@.map_values(|s: String| s@) + words_from(
                cur@,
                cs@.subrange(i as int, cs@.len() as int),
            ),
        decreases cs.len() - i,
    {
        let ghost rest = cs@.subrange(i as int, cs@.len() as int);
        assert(rest[0] == cs@[i as int]);
        assert(rest.drop_first() =~= cs@.subrange(i + 1, cs@.len() as int));
        let c = cs[i];
        if crate::text::is_whitespace(c) {
            if cur.len() > 0 {
                let ghost before = out@.map_values(|s: String| s@);
                let ghost cv = cur@;
                out.push(string_of(cur.as_slice()));
                assert(out@.map_values(|s: String| s@) =~= before.push(cv));
                assert(before + (seq![cv] + words_from(Seq::empty(), rest.drop_first())) =~= before.push(cv)
                    + words_from(Seq::empty(), rest.drop_first()));
            }
            cur = Vec::new();
            assert(cur@ =~= Seq::<char>::empty());
        } else {
            cur.push(c);
        }
        i = i + 1;
    }
    assert(cs@.subrange(cs@.len() as int, cs@.len() as int) =~= Seq::<char>::empty());
    let ghost before = out@.map_values(|s: String| s@);
    if cur.len() > 0 {
        let ghost cv = cur@;
        out.push(string_of(cur.as_slice()));
        assert(out@.map_values(|s: String| s@) =~= before + seq![cv]);
    } else {
        assert(before + Seq::<Seq<char>>::empty() =~= before);
    }
    out
}

/// How many times `term` occurs in `doc` without overlap, matching from the
/// left (`str::matches(term).count()` for a non-empty term).
pub open spec fn count_matches(doc: Seq<char>, term: Seq<char>) -> nat
    decreases doc.len(),
{
    if term.len() == 0 || doc.len() < term.len() {
        0
    } else if occurs_at(doc, term, 0) {
        1 + count_matches(doc.subrange(term.len() as int, doc.len() as int), term)
    } else {
        count_matches(doc.drop_first(), term)
    }
}

/// How many times `term` occurs in `document` (`str::matches(term).count()`):
/// a non-empty term is matched from the left without overlap; the empty term
/// matches at each character boundary, one more time than the document has
/// characters.
pub open spec fn term_count(document: Seq<char>, term: Seq<char>) -> nat {
    if term.len() == 0 {
        document.len() + 1
    } else {
        count_matches(document, term)
    }
}

/// How many times a term occurs in a document, matching from the left
/// without overlap; the empty term counts every character boundary.
pub fn term_frequency(term: &str, document: &str) -> (r: usize)
    requires
        term@.len() > 0 || document@.len() < usize::MAX,
    ensures
        r == term_count(document@, term@),
{
    let d = chars_of(document);
    let t = chars_of(term);
    if t.len() == 0 {
        return d.len() + 1;
    }
    let mut n: usize = 0;
    let mut i: usize = 0;
    assert(d@.subrange(0, d@.len() as int) =~= d@);
    while i < d.len() && d.len() - i >= t.len()
        invariant
            0 <= i <= d.len(),
            d@ == document@,
            t@ == term@,
            t@.len() > 0,
            n <= i,
            count_matches(document@, term@) == n + count_matches(d@.subrange(i as int, d@.len() as int), t@),
        decreases d.len() - i,
    {
        let ghost rest = d@.subrange(i as int, d@.len() as int);
        if crate::text::occurs_at_exec(d.as_slice(), t.as_slice(), i) {
            assert(rest.subrange(0, t@.len() as int) =~= d@.subrange(i as int, i + t@.len()));
            assert(occurs_at(rest, t@, 0));
            assert(rest.subrange(t@.len() as int, rest.len() as int) =~= d@.subrange(i + t@.len(), d@.len() as int));
            n = n + 1;
            i = i + t.len();
        } else {
            assert(rest.subrange(0, t@.len() as int) =~= d@.subrange(i as int, i + t@.len()));
            assert(!occurs_at(rest, t@, 0));
            assert(rest.drop_first() =~= d@.subrange(i + 1, d@.len() as int));
            i = i + 1;
        }
    }
    assert(count_matches(d@.subrange(i as int, d@.len() as int), t@) == 0);
    n
}

/// Reading results in order, with the documents already seen: a result of
/// a seen document is passed over, any other is taken (its document then
/// seen), until `window` are taken. The positions taken, the documents seen,
/// and whether the window is full.
pub open spec fn spread_state(rs: Seq<(i64, Option<i64>)>, window: nat, k: nat) -> (Seq<int>, Set<i64>, bool)
    decreases k,
{
    if k == 0 {
        (Seq::empty(), Set::empty(), false)
    } else {
        let (p, seen, full) = spread_state(rs, window, (k - 1) as nat);
        if full {
            (p, seen, full)
        } else {
            let r = rs[k - 1];
            match r.1 {
                Some(d) if seen.contains(d) => (p, seen, false),
                _ => {
                    let s2 = match r.1 {
                        Some(d) => seen.insert(d),
                        None => seen,
                    };
                    let p2 = p.push(k - 1);
                    (p2, s2, p2.len() >= window)
                },
            }
        }
    }
}

/// Then every result whose id is not yet among the taken ones is added, in
/// order.
pub open spec fn fill_state(rs: Seq<(i64, Option<i64>)>, taken: Seq<int>, k: nat) -> Seq<int>
    decreases k,
{
    if k == 0 {
        taken
    } else {
        let p = fill_state(rs, taken, (k - 1) as nat);
        if exists|q: int| 0 <= q < p.len() && rs[#[trigger] p[q]].0 == rs[k - 1].0 {
            p
        } else {
            p.push(k - 1)
        }
    }
}

/// The order of results (by position) that spreads the first `window` over
/// distinct documents: unchanged when there are at most `window` results or
/// the window is below 2.
pub open spec fn diversify_spec(rs: Seq<(i64, Option<i64>)>, window: nat) -> Seq<int> {
    if rs.len() <= window || window <= 1 {
        Seq::new(rs.len(), |i: int| i)
    } else {
        fill_state(rs, spread_state(rs, window, rs.len()).0, rs.len())
    }
}

/// Two results of the same document.
pub open spec fn same_document(a: (i64, Option<i64>), b: (i64, Option<i64>)) -> bool {
    a.1 is Some && a.1 == b.1
}

/// The document of a result, when it has one, is among `seen`.
pub open spec fn document_seen(a: (i64, Option<i64>), seen: Set<i64>) -> bool {
    match a.1 {
        Some(d) => seen.contains(d),
        None => true,
    }
}

proof fn lemma_spread_positions(rs: Seq<(i64, Option<i64>)>, window: nat, k: nat)
    requires
        k <= rs.len(),
    ensures
        ({
            let (p, seen, full) = spread_state(rs, window, k);
            &&& forall|q: int| 0 <= q < p.len() ==> 0 <= #[trigger] p[q] < k
            &&& forall|a: int, b: int| 0 <= a < b < p.len() ==> #[trigger] p[a] < #[trigger] p[b]
            &&& forall|q: int| 0 <= q < p.len() ==> document_seen(#[trigger] rs[p[q]], seen)
            &&& forall|a: int, b: int|
                0 <= a < b < p.len() ==> !same_document(#[trigger] rs[p[a]], #[trigger] rs[p[b]])
        }),
    decreases k,
{
    if k > 0 {
        lemma_spread_positions(rs, window, (k - 1) as nat);
        let (p, seen, full) = spread_state(rs, window, (k - 1) as nat);
        let (p2, seen2, full2) = spread_state(rs, window, k);
        if !full {
            let r = rs[k - 1];
            match r.1 {
                Some(d) if seen.contains(d) => {},
                _ => {
                    assert(p2 == p.push(k - 1));
                    assert forall|q: int| 0 <= q < p2.len() implies document_seen(#[trigger] rs[p2[q]], seen2) by {
                        if q < p.len() {
                            assert(p2[q] == p[q]);
                        }
                    }
                    assert forall|a: int, b: int| 0 <= a < b < p2.len() implies !same_document(
                        #[trigger] rs[p2[a]],
                        #[trigger] rs[p2[b]],
                    ) by {
                        assert(p2[a] == p[a]);
                        if b < p.len() {
                            assert(p2[b] == p[b]);
                        } else {
                            assert(p2[b] == k - 1);
                        }
                    }
                },
            }
        }
    }
}

/// The id of result `j` is the id of a result at one of the positions `p`.
pub open spec fn id_listed(rs: Seq<(i64, Option<i64>)>, p: Seq<int>, j: int) -> bool {
    exists|q: int| 0 <= q < p.len() && rs[#[trigger] p[q]].0 == rs[j].0
}

proof fn lemma_fill_positions(rs: Seq<(i64, Option<i64>)>, taken: Seq<int>, k: nat)
    requires
        k <= rs.len(),
        forall|q: int| 0 <= q < taken.len() ==> 0 <= #[trigger] taken[q] < rs.len(),
        forall|a: int, b: int| 0 <= a < b < taken.len() ==> #[trigger] taken[a] != #[trigger] taken[b],
    ensures
        ({
            let p = fill_state(rs, taken, k);
            &&& taken.len() <= p.len()
            &&& forall|q: int| 0 <= q < taken.len() ==> #[trigger] p[q] == taken[q]
            &&& forall|q: int| 0 <= q < p.len() ==> 0 <= #[trigger] p[q] < rs.len()
            &&& forall|a: int, b: int| 0 <= a < b < p.len() ==> #[trigger] p[a] != #[trigger] p[b]
            &&& forall|j: int| 0 <= j < k ==> #[trigger] id_listed(rs, p, j)
        }),
    decreases k,
{
    if k > 0 {
        lemma_fill_positions(rs, taken, (k - 1) as nat);
        let p = fill_state(rs, taken, (k - 1) as nat);
        let p2 = fill_state(rs, taken, k);
        if !(exists|q: int| 0 <= q < p.len() && rs[#[trigger] p[q]].0 == rs[k - 1].0) {
            assert(p2 == p.push(k - 1));
            assert forall|q: int| 0 <= q < p2.len() implies 0 <= #[trigger] p2[q] < rs.len() by {
                if q < p.len() {
                    assert(p2[q] == p[q]);
                }
            }
            assert forall|a: int, b: int| 0 <= a < b < p2.len() implies #[trigger] p2[a] != #[trigger] p2[b] by {
                assert(p2[a] == p[a]);
                if b < p.len() {
                    assert(p2[b] == p[b]);
                } else {
                    assert(rs[p[a]].0 != rs[k - 1].0);
                }
            }
            assert forall|j: int| 0 <= j < k implies #[trigger] id_listed(rs, p2, j) by {
                if j < k - 1 {
                    assert(id_listed(rs, p, j));
                    let q = choose|q: int| 0 <= q < p.len() && rs[#[trigger] p[q]].0 == rs[j].0;
                    assert(p2[q] == p[q]);
                    assert(rs[p2[q]].0 == rs[j].0);
                } else {
                    assert(p2[p.len() as int] == k - 1);
                    assert(rs[p2[p.len() as int]].0 == rs[j].0);
                }
            }
            assert forall|q: int| 0 <= q < taken.len() implies #[trigger] p2[q] == taken[q] by {
                assert(p2[q] == p[q]);
            }
        } else {
            assert(p2 == p);
            let q0 = choose|q: int| 0 <= q < p.len() && rs[#[trigger] p[q]].0 == rs[k - 1].0;
            assert forall|j: int| 0 <= j < k implies #[trigger] id_listed(rs, p2, j) by {
                if j == k - 1 {
                    assert(rs[p2[q0]].0 == rs[j].0);
                } else {
                    assert(id_listed(rs, p, j));
                }
            }
        }
    } else {
        assert(fill_state(rs, taken, k) == taken);
    }
}

/// Spreading results over documents keeps every result id and lists no
/// position twice: each position is a result, and every result's id is the
/// id of some listed result. When the order changes (more than `window`
/// results and a window of at least 2), the results listed first, up to
/// `window` of them, come from distinct documents.
pub proof fn lemma_diversify_keeps_results(rs: Seq<(i64, Option<i64>)>, window: nat)
    ensures
        ({
            let out = diversify_spec(rs, window);
            &&& forall|q: int| 0 <= q < out.len() ==> 0 <= #[trigger] out[q] < rs.len()
            &&& forall|a: int, b: int| 0 <= a < b < out.len() ==> #[trigger] out[a] != #[trigger] out[b]
            &&& forall|j: int| 0 <= j < rs.len() ==> #[trigger] id_listed(rs, out, j)
        }),
        rs.len() > window && window > 1 ==> {
            let taken = spread_state(rs, window, rs.len()).0;
            let out = diversify_spec(rs, window);
            &&& taken.len() <= window
            &&& forall|q: int| 0 <= q < taken.len() ==> #[trigger] out[q] == taken[q]
            &&& forall|a: int, b: int|
                0 <= a < b < taken.len() ==> !same_document(#[trigger] rs[out[a]], #[trigger] rs[out[b]])
        },
{
    let out = diversify_spec(rs, window);
    if rs.len() <= window || window <= 1 {
        assert forall|j: int| 0 <= j < rs.len() implies #[trigger] id_listed(rs, out, j) by {
            assert(out[j] == j);
        }
    } else {
        lemma_spread_positions(rs, window, rs.len());
        lemma_spread_window(rs, window, rs.len());
        let taken = spread_state(rs, window, rs.len()).0;
        assert forall|a: int, b: int| 0 <= a < b < taken.len() implies #[trigger] taken[a] != #[trigger] taken[b] by {
            assert(taken[a] < taken[b]);
        }
        lemma_fill_positions(rs, taken, rs.len());
        assert forall|a: int, b: int| 0 <= a < b < taken.len() implies !same_document(
            #[trigger] rs[out[a]],
            #[trigger] rs[out[b]],
        ) by {
            assert(out[a] == taken[a] && out[b] == taken[b]);
        }
    }
}

/// The positions taken while spreading never exceed the window.
proof fn lemma_spread_window(rs: Seq<(i64, Option<i64>)>, window: nat, k: nat)
    requires
        k <= rs.len(),
    ensures
        spread_state(rs, window, k).0.len() <= window || (window == 0 && spread_state(rs, window, k).0.len() <= 1),
        spread_state(rs, window, k).2 ==> spread_state(rs, window, k).0.len() >= window,
        !spread_state(rs, window, k).2 ==> spread_state(rs, window, k).0.len() < window || k == 0,
    decreases k,
{
    if k > 0 {
        lemma_spread_window(rs, window, (k - 1) as nat);
    }
}

fn id_taken(rs: &Vec<(i64, Option<i64>)>, taken: &Vec<usize>, id: i64) -> (r: bool)
    requires
        forall|q: int| 0 <= q < taken@.len() ==> #[trigger] taken@[q] < rs@.len(),
    ensures
        r == exists|q: int| 0 <= q < taken@.len() && rs@[#[trigger] taken@[q] as int].0 == id,
{
    let mut i: usize = 0;
    while i < taken.len()
        invariant
            0 <= i <= taken.len(),
            forall|q: int| 0 <= q < taken@.len() ==> #[trigger] taken@[q] < rs@.len(),
            forall|q: int| 0 <= q < i ==> rs@[#[trigger] taken@[q] as int].0 != id,
        decreases taken.len() - i,
    {
        if rs[taken[i]].0 == id {
            assert(rs@[taken@[i as int] as int].0 == id);
            return true;
        }
        i = i + 1;
    }
    false
}

/// The order (positions of `results`, each given by its id and document)
/// that spreads the first `window` results over distinct documents: results
/// are taken in order, passing over those of a document already taken,
/// until `window` are taken; then the others follow in order, each id once.
/// With at most `window` results or a window below 2 the order is unchanged.
pub fn diversify_results(results: &Vec<(i64, Option<i64>)>, window: usize) -> (r: Vec<usize>)
    ensures
        r@.map_values(|p: usize| p as int) == diversify_spec(results@, window as nat),
{
    broadcast use vstd::std_specs::hash::group_hash_axioms;

    let n = results.len();
    if n <= window || window <= 1 {
        let mut r: Vec<usize> = Vec::new();
        let mut i: usize = 0;
        while i < n
            invariant
                0 <= i <= n,
                n == results@.len(),
                r@.len() == i,
                forall|k: int| 0 <= k < i ==> r@[k] == k,
            decreases n - i,
        {
            r.push(i);
            i = i + 1;
        }
        assert(r@.map_values(|p: usize| p as int) =~= Seq::new(n as nat, |k: int| k));
        return r;
    }
    let mut taken: Vec<usize> = Vec::new();
    let mut seen: HashSet<i64> = HashSet::new();
    let mut full = false;
    let mut k: usize = 0;
    while k < n
        invariant
            0 <= k <= n,
            n == results@.len(),
            ({
                let st = spread_state(results@, window as nat, k as nat);
                &&& taken@.map_values(|p: usize| p as int) == st.0
                &&& seen@ == st.1
                &&& full == st.2
            }),
            forall|q: int| 0 <= q < taken@.len() ==> #[trigger] taken@[q] < k,
        decreases n - k,
    {
        let r = results[k];
        if !full {
            let skip = match r.1 {
                Some(d) => seen.contains(&d),
                None => false,
            };
            if !skip {
                let ghost before = taken@.map_values(|p: usize| p as int);
                taken.push(k);
                assert(taken@.map_values(|p: usize| p as int) =~= before.push(k as int));
                match r.1 {
                    Some(d) => {
                        seen.insert(d);
                    },
                    None => {},
                }
                full = taken.len() >= window;
            }
        }
        k = k + 1;
    }
    let ghost t0 = taken@.map_values(|p: usize| p as int);
    let mut j: usize = 0;
    while j < n
        invariant
            0 <= j <= n,
            n == results@.len(),
            taken@.map_values(|p: usize| p as int) == fill_state(results@, t0, j as nat),
            forall|q: int| 0 <= q < taken@.len() ==> #[trigger] taken@[q] < n,
        decreases n - j,
    {
        let ghost before = taken@.map_values(|p: usize| p as int);
        let present = id_taken(results, &taken, results[j].0);
        proof {
            let p = fill_state(results@, t0, j as nat);
            assert(present == exists|q: int| 0 <= q < p.len() && results@[#[trigger] p[q]].0 == results@[j as int].0) by {
                if present {
                    let q = choose|q: int| 0 <= q < taken@.len() && results@[#[trigger] taken@[q] as int].0 == results@[j as int].0;
                    assert(p[q] == taken@[q] as int);
                }
                if exists|q: int| 0 <= q < p.len() && results@[#[trigger] p[q]].0 == results@[j as int].0 {
                    let q = choose|q: int| 0 <= q < p.len() && results@[#[trigger] p[q]].0 == results@[j as int].0;
                    assert(p[q] == taken@[q] as int);
                }
            }
        }
        if !present {
            taken.push(j);
            assert(taken@.map_values(|p: usize| p as int) =~= before.push(j as int));
        }
        j = j + 1;
    }
    taken
}

} // verus!
