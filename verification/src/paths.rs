//! Names and directories of a project's debug containers.
use vstd::prelude::*;
use crate::text::{chars_of, extend_chars, extend_str, i64_chars, int_text, string_of};

verus! {

/// `base` joined with `p` as `Path::join` joins on Unix: an absolute `p`
/// replaces `base`; otherwise a `/` separates them, unless `base` is empty
/// or already ends in one.
pub open spec fn join_path(base: Seq<char>, p: Seq<char>) -> Seq<char> {
    if p.len() > 0 && p[0] == '/' {
        p
    } else if base.len() == 0 || base.last() == '/' {
        base + p
    } else {
        base + "/"@ + p
    }
}

/// Joins two paths (`Path::join` on Unix).
pub fn join_path_chars(base: &[char], p: &[char]) -> (out: Vec<char>)
    ensures
        out@ == join_path(base@, p@),
{
    let mut out: Vec<char> = Vec::new();
    if p.len() > 0 && p[0] == '/' {
        extend_chars(&mut out, p);
        assert(out@ =~= p@);
    } else if base.len() == 0 || base[base.len() - 1] == '/' {
        extend_chars(&mut out, base);
        extend_chars(&mut out, p);
        assert(out@ =~= base@ + p@);
    } else {
        extend_chars(&mut out, base);
        extend_str(&mut out, "/");
        extend_chars(&mut out, p);
        assert(out@ =~= base@ + "/"@ + p@);
    }
    out
}

/// `/debug/<user>/<project>`.
pub open spec fn debug_dir_spec(user_id: i64, project_id: i64) -> Seq<char> {
    "/debug/"@ + int_text(user_id as int) + "/"@ + int_text(project_id as int)
}

/// The directory that holds a project's deployment files.
pub fn get_debug_directory(user_id: i64, project_id: i64) -> (s: String)
    ensures
        s@ == debug_dir_spec(user_id, project_id),
{
    let v = debug_dir_chars(user_id, project_id);
    string_of(v.as_slice())
}

fn debug_dir_chars(user_id: i64, project_id: i64) -> (v: Vec<char>)
    ensures
        v@ == debug_dir_spec(user_id, project_id),
{
    let mut v = chars_of("/debug/");
    let u = i64_chars(user_id);
    extend_chars(&mut v, u.as_slice());
    extend_str(&mut v, "/");
    let p = i64_chars(project_id);
    extend_chars(&mut v, p.as_slice());
    v
}

/// `<debug dir>/volumes/<container>`, as path joining gives it.
pub open spec fn volume_dir_spec(user_id: i64, project_id: i64, container_name: Seq<char>) -> Seq<
    char,
> {
    join_path(debug_dir_spec(user_id, project_id) + "/volumes"@, container_name)
}

/// The directory mounted into a container as its code volume.
pub fn get_container_volume_directory(user_id: i64, project_id: i64, container_name: &str) -> (s:
    String)
    ensures
        s@ == volume_dir_spec(user_id, project_id, container_name@),
{
    let v = volume_dir_chars(user_id, project_id, container_name);
    string_of(v.as_slice())
}

/// The volume directory of a container, as characters.
pub fn volume_dir_chars(user_id: i64, project_id: i64, container_name: &str) -> (v: Vec<char>)
    ensures
        v@ == volume_dir_spec(user_id, project_id, container_name@),
{
    let mut base = debug_dir_chars(user_id, project_id);
    proof {
        reveal_strlit("/volumes");
        reveal_strlit("/");
        let d = debug_dir_spec(user_id, project_id);
        // the debug directory never ends in a separator: it ends in a digit
        assert(join_path(d, "volumes"@) == d + "/volumes"@) by {
            reveal_strlit("volumes");
            lemma_int_text_last_digit(project_id as int);
            assert(d.last() == int_text(project_id as int).last());
            assert(d + "/"@ + "volumes"@ =~= d + "/volumes"@);
        }
    }
    extend_str(&mut base, "/volumes");
    let name = chars_of(container_name);
    join_path_chars(base.as_slice(), name.as_slice())
}

/// The decimal text of an integer ends with a digit, not a separator.
pub proof fn lemma_int_text_last_digit(i: int)
    ensures
        int_text(i).len() > 0,
        int_text(i).last() != '/',
{
    let n: nat = if i < 0 {
        (-i) as nat
    } else {
        i as nat
    };
    lemma_nat_text_last(n);
    if i < 0 {
        assert((seq!['-'] + crate::text::nat_text(n)).last() == crate::text::nat_text(n).last());
    }
}

/// The decimal text of an integer is not empty and holds neither `/` nor `.`.
pub proof fn lemma_int_text_chars(i: int)
    ensures
        int_text(i).len() > 0,
        forall|k: int| 0 <= k < int_text(i).len() ==> #[trigger] int_text(i)[k] != '/' && int_text(i)[k] != '.',
{
    let n: nat = if i < 0 {
        (-i) as nat
    } else {
        i as nat
    };
    lemma_nat_text_chars(n);
    if i < 0 {
        let t = seq!['-'] + crate::text::nat_text(n);
        assert forall|k: int| 0 <= k < t.len() implies #[trigger] t[k] != '/' && t[k] != '.' by {
            if k > 0 {
                assert(t[k] == crate::text::nat_text(n)[k - 1]);
            }
        }
    }
}

proof fn lemma_nat_text_chars(n: nat)
    ensures
        crate::text::nat_text(n).len() > 0,
        forall|k: int|
            0 <= k < crate::text::nat_text(n).len() ==> '0' <= #[trigger] crate::text::nat_text(n)[k] <= '9',
    decreases n,
{
    if n >= 10 {
        lemma_nat_text_chars(n / 10);
    }
}

proof fn lemma_nat_text_last(n: nat)
    ensures
        crate::text::nat_text(n).len() > 0,
        crate::text::nat_text(n).last() != '/',
    decreases n,
{
    if n >= 10 {
        lemma_nat_text_last(n / 10);
    }
}

/// `<user>-<project>-<config>`.
pub open spec fn container_name_spec(user_id: i64, project_id: i64, config_id: i64) -> Seq<char> {
    int_text(user_id as int) + "-"@ + int_text(project_id as int) + "-"@ + int_text(
        config_id as int,
    )
}

/// The name of a project's container for one configuration.
pub fn format_container_name(user_id: i64, project_id: i64, config_id: i64) -> (s: String)
    ensures
        s@ == container_name_spec(user_id, project_id, config_id),
{
    let v = container_name_chars(user_id, project_id, config_id);
    string_of(v.as_slice())
}

/// The container name, as characters.
pub fn container_name_chars(user_id: i64, project_id: i64, config_id: i64) -> (v: Vec<char>)
    ensures
        v@ == container_name_spec(user_id, project_id, config_id),
{
    let mut v = i64_chars(user_id);
    extend_str(&mut v, "-");
    let p = i64_chars(project_id);
    extend_chars(&mut v, p.as_slice());
    extend_str(&mut v, "-");
    let c = i64_chars(config_id);
    extend_chars(&mut v, c.as_slice());
    v
}

/// Whether `char::is_alphanumeric` holds of `c`.
pub uninterp spec fn char_alphanumeric(c: char) -> bool;

/// An ASCII letter or digit.
pub open spec fn ascii_alnum(c: char) -> bool {
    ('a' <= c <= 'z') || ('A' <= c <= 'Z') || ('0' <= c <= '9')
}

/// `char::is_alphanumeric`: alphabetic or numeric in Unicode; the contract
/// states only its ASCII part, which the standard documentation fixes.
#[verifier::external_body]
fn is_alphanumeric(c: char) -> (b: bool)
    ensures
        b == char_alphanumeric(c),
        b == alphanumeric(c),
{
    c.is_alphanumeric()
}

/// Whether `char::is_alphanumeric` holds of `c`: for an ASCII character,
/// exactly the letters and digits.
pub open spec fn alphanumeric(c: char) -> bool {
    if (c as u32) < 128 {
        ascii_alnum(c)
    } else {
        char_alphanumeric(c)
    }
}

/// A character of a volume name: kept when alphanumeric or one of `._-`,
/// else replaced by `_`.
pub open spec fn volume_char(c: char) -> char {
    if alphanumeric(c) || c == '.' || c == '_' || c == '-' {
        c
    } else {
        '_'
    }
}

/// `vol_<user>_<project>_<sanitized name>`.
pub open spec fn volume_name_spec(user_id: i64, project_id: i64, name: Seq<char>) -> Seq<char> {
    "vol_"@ + int_text(user_id as int) + "_"@ + int_text(project_id as int) + "_"@
        + name.map_values(|c: char| volume_char(c))
}

/// The name of a project's named volume, with unsafe characters replaced.
pub fn format_volume_name(user_id: i64, project_id: i64, name: &str) -> (s: String)
    ensures
        s@ == volume_name_spec(user_id, project_id, name@),
{
    let mut v = chars_of("vol_");
    let u = i64_chars(user_id);
    extend_chars(&mut v, u.as_slice());
    extend_str(&mut v, "_");
    let p = i64_chars(project_id);
    extend_chars(&mut v, p.as_slice());
    extend_str(&mut v, "_");
    let ghost head = v@;
    let cs = chars_of(name);
    let mut i: usize = 0;
    while i < cs.len()
        invariant
            0 <= i <= cs.len(),
            cs@ == name@,
            v@ == head + cs@.take(i as int).map_values(|c: char| volume_char(c)),
        decreases cs.len() - i,
    {
        let c = cs[i];
        let keep = is_alphanumeric(c) || c == '.' || c == '_' || c == '-';
        let out = if keep {
            c
        } else {
            '_'
        };
        v.push(out);
        assert(cs@.take(i + 1).map_values(|c: char| volume_char(c)) =~= cs@.take(i as int).map_values(
            |c: char| volume_char(c),
        ).push(volume_char(c)));
        i = i + 1;
    }
    assert(cs@.take(cs.len() as int) =~= cs@);
    string_of(v.as_slice())
}

/// The address of the tool server inside a container: `http://<name>:80`.
pub fn mcp_server_url(container_name: &str) -> (s: String)
    ensures
        s@ == "http://"@ + container_name@ + ":80"@,
{
    let mut v = chars_of("http://");
    extend_str(&mut v, container_name);
    extend_str(&mut v, ":80");
    string_of(v.as_slice())
}

/// The decimal text of a natural number has at least two digits from 10 on.
proof fn lemma_nat_text_len(n: nat)
    ensures
        crate::text::nat_text(n).len() >= 1,
        n >= 10 ==> crate::text::nat_text(n).len() >= 2,
    decreases n,
{
    if n >= 10 {
        lemma_nat_text_len(n / 10);
    }
}

/// Different digits are written differently.
proof fn lemma_digit_char_injective(a: nat, b: nat)
    requires
        a < 10,
        b < 10,
        crate::text::digit_char(a) == crate::text::digit_char(b),
    ensures
        a == b,
{
}

/// Different natural numbers have different decimal texts.
proof fn lemma_nat_text_injective(a: nat, b: nat)
    requires
        crate::text::nat_text(a) == crate::text::nat_text(b),
    ensures
        a == b,
    decreases a,
{
    lemma_nat_text_len(a);
    lemma_nat_text_len(b);
    if a < 10 && b < 10 {
        assert(crate::text::nat_text(a)[0] == crate::text::digit_char(a));
        assert(crate::text::nat_text(b)[0] == crate::text::digit_char(b));
        lemma_digit_char_injective(a, b);
    } else if a >= 10 && b >= 10 {
        let ta = crate::text::nat_text(a);
        let tb = crate::text::nat_text(b);
        assert(ta.last() == crate::text::digit_char(a % 10));
        assert(tb.last() == crate::text::digit_char(b % 10));
        lemma_digit_char_injective(a % 10, b % 10);
        assert(ta.drop_last() =~= crate::text::nat_text(a / 10));
        assert(tb.drop_last() =~= crate::text::nat_text(b / 10));
        lemma_nat_text_injective(a / 10, b / 10);
    } else {
        lemma_nat_text_len(a / 10);
        lemma_nat_text_len(b / 10);
    }
}

/// Different integers have different decimal texts.
pub proof fn lemma_int_text_injective(a: int, b: int)
    requires
        int_text(a) == int_text(b),
    ensures
        a == b,
{
    let na: nat = if a < 0 { (-a) as nat } else { a as nat };
    let nb: nat = if b < 0 { (-b) as nat } else { b as nat };
    lemma_nat_text_chars(na);
    lemma_nat_text_chars(nb);
    if a < 0 && b < 0 {
        assert((seq!['-'] + crate::text::nat_text(na)).drop_first() =~= crate::text::nat_text(na));
        assert((seq!['-'] + crate::text::nat_text(nb)).drop_first() =~= crate::text::nat_text(nb));
        lemma_nat_text_injective(na, nb);
    } else if a >= 0 && b >= 0 {
        lemma_nat_text_injective(na, nb);
    } else if a < 0 {
        assert(int_text(a)[0] == '-');
        assert('0' <= crate::text::nat_text(nb)[0] <= '9');
    } else {
        assert(int_text(b)[0] == '-');
        assert('0' <= crate::text::nat_text(na)[0] <= '9');
    }
}

/// After its first character, the decimal text of an integer holds digits
/// only.
proof fn lemma_int_text_tail_digits(i: int)
    ensures
        int_text(i).len() >= 1,
        forall|k: int| 1 <= k < int_text(i).len() ==> '0' <= #[trigger] int_text(i)[k] <= '9',
        forall|k: int| 0 <= k < int_text(i).len() ==> #[trigger] int_text(i)[k] != '/',
{
    let n: nat = if i < 0 { (-i) as nat } else { i as nat };
    lemma_nat_text_chars(n);
    lemma_int_text_chars(i);
    if i < 0 {
        let t = seq!['-'] + crate::text::nat_text(n);
        assert forall|k: int| 1 <= k < t.len() implies '0' <= #[trigger] t[k] <= '9' by {
            assert(t[k] == crate::text::nat_text(n)[k - 1]);
        }
    }
}

/// Two texts, each followed by the separator `sep`, which occurs in neither
/// after its first character: when the whole strings agree, so do the parts.
proof fn lemma_split_at(a1: Seq<char>, r1: Seq<char>, a2: Seq<char>, r2: Seq<char>, sep: char)
    requires
        a1.len() >= 1,
        a2.len() >= 1,
        forall|k: int| 1 <= k < a1.len() ==> #[trigger] a1[k] != sep,
        forall|k: int| 1 <= k < a2.len() ==> #[trigger] a2[k] != sep,
        a1 + seq![sep] + r1 == a2 + seq![sep] + r2,
    ensures
        a1 == a2,
        r1 == r2,
{
    let s = a1 + seq![sep] + r1;
    if a1.len() < a2.len() {
        assert(s[a1.len() as int] == sep);
        assert((a2 + seq![sep] + r2)[a1.len() as int] == a2[a1.len() as int]);
    } else if a2.len() < a1.len() {
        assert((a2 + seq![sep] + r2)[a2.len() as int] == sep);
        assert(s[a2.len() as int] == a1[a2.len() as int]);
    } else {
        assert(a1 =~= s.subrange(0, a1.len() as int));
        assert(a2 =~= (a2 + seq![sep] + r2).subrange(0, a2.len() as int));
        assert(r1 =~= s.subrange(a1.len() as int + 1, s.len() as int));
        assert(r2 =~= (a2 + seq![sep] + r2).subrange(a2.len() as int + 1, s.len() as int));
    }
}

/// Different projects have different debug directories: the directory
/// `/debug/<user>/<project>` gives back both ids.
pub proof fn lemma_debug_dirs_distinct(u1: i64, p1: i64, u2: i64, p2: i64)
    requires
        debug_dir_spec(u1, p1) == debug_dir_spec(u2, p2),
    ensures
        u1 == u2,
        p1 == p2,
{
    reveal_strlit("/debug/");
    reveal_strlit("/");
    let a1 = int_text(u1 as int);
    let b1 = int_text(p1 as int);
    let a2 = int_text(u2 as int);
    let b2 = int_text(p2 as int);
    lemma_int_text_tail_digits(u1 as int);
    lemma_int_text_tail_digits(p1 as int);
    lemma_int_text_tail_digits(u2 as int);
    lemma_int_text_tail_digits(p2 as int);
    let d1 = debug_dir_spec(u1, p1);
    let d2 = debug_dir_spec(u2, p2);
    assert(d1.subrange(7, d1.len() as int) =~= a1 + seq!['/'] + b1);
    assert(d2.subrange(7, d2.len() as int) =~= a2 + seq!['/'] + b2);
    lemma_split_at(a1, b1, a2, b2, '/');
    lemma_int_text_injective(u1 as int, u2 as int);
    lemma_int_text_injective(p1 as int, p2 as int);
}

/// Different configurations never share a container name: the name
/// `<user>-<project>-<config>` gives back all three ids, negative ones too
/// (`1--2-3` is only `(1, -2, 3)`).
pub proof fn lemma_container_names_distinct(u1: i64, p1: i64, c1: i64, u2: i64, p2: i64, c2: i64)
    requires
        container_name_spec(u1, p1, c1) == container_name_spec(u2, p2, c2),
    ensures
        u1 == u2,
        p1 == p2,
        c1 == c2,
{
    reveal_strlit("-");
    let a1 = int_text(u1 as int);
    let b1 = int_text(p1 as int);
    let e1 = int_text(c1 as int);
    let a2 = int_text(u2 as int);
    let b2 = int_text(p2 as int);
    let e2 = int_text(c2 as int);
    lemma_int_text_tail_digits(u1 as int);
    lemma_int_text_tail_digits(p1 as int);
    lemma_int_text_tail_digits(u2 as int);
    lemma_int_text_tail_digits(p2 as int);
    assert(forall|k: int| 1 <= k < a1.len() ==> #[trigger] a1[k] != '-');
    assert(forall|k: int| 1 <= k < a2.len() ==> #[trigger] a2[k] != '-');
    assert(forall|k: int| 1 <= k < b1.len() ==> #[trigger] b1[k] != '-');
    assert(forall|k: int| 1 <= k < b2.len() ==> #[trigger] b2[k] != '-');
    assert(container_name_spec(u1, p1, c1) =~= a1 + seq!['-'] + (b1 + seq!['-'] + e1));
    assert(container_name_spec(u2, p2, c2) =~= a2 + seq!['-'] + (b2 + seq!['-'] + e2));
    lemma_split_at(a1, b1 + seq!['-'] + e1, a2, b2 + seq!['-'] + e2, '-');
    lemma_split_at(b1, e1, b2, e2, '-');
    lemma_int_text_injective(u1 as int, u2 as int);
    lemma_int_text_injective(p1 as int, p2 as int);
    lemma_int_text_injective(c1 as int, c2 as int);
}

} // verus!
