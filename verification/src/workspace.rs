//! The user workspace: file paths, listings, voice files, and the requests
//! and answers of the workspace service.
use vstd::prelude::*;
use crate::text::{chars_of, contains_seq, extend_chars, extend_str, int_text, i64_chars, i64_string, occurs_at, string_of};
use crate::paths::{join_path, join_path_chars};

verus! {

// ----- paths given by users -------------------------------------------------

/// `s` with every `..` removed, scanning from the left (`replace("..", "")`).
pub open spec fn remove_dots(s: Seq<char>) -> Seq<char>
    decreases s.len(),
{
    if s.len() >= 2 && s[0] == '.' && s[1] == '.' {
        remove_dots(s.subrange(2, s.len() as int))
    } else if s.len() == 0 {
        s
    } else {
        seq![s[0]] + remove_dots(s.drop_first())
    }
}

/// `s` with every `//` made `/`, scanning from the left (`replace("//", "/")`).
pub open spec fn collapse_slashes(s: Seq<char>) -> Seq<char>
    decreases s.len(),
{
    if s.len() >= 2 && s[0] == '/' && s[1] == '/' {
        seq!['/'] + collapse_slashes(s.subrange(2, s.len() as int))
    } else if s.len() == 0 {
        s
    } else {
        seq![s[0]] + collapse_slashes(s.drop_first())
    }
}

/// A user-given path made relative: `..` removed, `//` made `/`, and one
/// leading `/` dropped.
pub open spec fn sanitize_spec(p: Seq<char>) -> Seq<char> {
    let t = collapse_slashes(remove_dots(p));
    if t.len() > 0 && t[0] == '/' {
        t.drop_first()
    } else {
        t
    }
}

fn remove_dots_exec(s: &[char]) -> (r: Vec<char>)
    ensures
        r@ == remove_dots(s@),
{
    let mut r: Vec<char> = Vec::new();
    let mut i: usize = 0;
    assert(s@.subrange(0, s@.len() as int) =~= s@);
    while i < s.len()
        invariant
            0 <= i <= s.len(),
            remove_dots(s@) == r@ + remove_dots(s@.subrange(i as int, s@.len() as int)),
        decreases s.len() - i,
    {
        let ghost rest = s@.subrange(i as int, s@.len() as int);
        if i + 1 < s.len() && s[i] == '.' && s[i + 1] == '.' {
            assert(rest.subrange(2, rest.len() as int) =~= s@.subrange(i + 2, s@.len() as int));
            i = i + 2;
        } else {
            assert(rest.drop_first() =~= s@.subrange(i + 1, s@.len() as int));
            let ghost before = r@;
            r.push(s[i]);
            assert(before + (seq![s@[i as int]] + remove_dots(rest.drop_first())) =~= r@ + remove_dots(
                rest.drop_first(),
            ));
            i = i + 1;
        }
    }
    assert(s@.subrange(s@.len() as int, s@.len() as int) =~= Seq::<char>::empty());
    assert(r@ + Seq::<char>::empty() =~= r@);
    r
}

fn collapse_slashes_exec(s: &[char]) -> (r: Vec<char>)
    ensures
        r@ == collapse_slashes(s@),
{
    let mut r: Vec<char> = Vec::new();
    let mut i: usize = 0;
    assert(s@.subrange(0, s@.len() as int) =~= s@);
    while i < s.len()
        invariant
            0 <= i <= s.len(),
            collapse_slashes(s@) == r@ + collapse_slashes(s@.subrange(i as int, s@.len() as int)),
        decreases s.len() - i,
    {
        let ghost rest = s@.subrange(i as int, s@.len() as int);
        let ghost before = r@;
        if i + 1 < s.len() && s[i] == '/' && s[i + 1] == '/' {
            assert(rest.subrange(2, rest.len() as int) =~= s@.subrange(i + 2, s@.len() as int));
            r.push('/');
            assert(before + (seq!['/'] + collapse_slashes(rest.subrange(2, rest.len() as int))) =~= r@
                + collapse_slashes(rest.subrange(2, rest.len() as int)));
            i = i + 2;
        } else {
            assert(rest.drop_first() =~= s@.subrange(i + 1, s@.len() as int));
            r.push(s[i]);
            assert(before + (seq![s@[i as int]] + collapse_slashes(rest.drop_first())) =~= r@
                + collapse_slashes(rest.drop_first()));
            i = i + 1;
        }
    }
    assert(s@.subrange(s@.len() as int, s@.len() as int) =~= Seq::<char>::empty());
    assert(r@ + Seq::<char>::empty() =~= r@);
    r
}

/// A user-given path made relative: `..` removed, `//` made `/`, and one
/// leading `/` dropped.
pub fn sanitize_path(path: &str) -> (r: String)
    ensures
        r@ == sanitize_spec(path@),
{
    let cs = chars_of(path);
    let a = remove_dots_exec(cs.as_slice());
    let b = collapse_slashes_exec(a.as_slice());
    if b.len() > 0 && b[0] == '/' {
        let c = crate::text::slice_chars(b.as_slice(), 1, b.len());
        assert(c@ =~= b@.drop_first());
        string_of(c.as_slice())
    } else {
        string_of(b.as_slice())
    }
}

/// No two dots stand next to each other in `s`.
pub open spec fn no_dot_pair(s: Seq<char>) -> bool {
    forall|i: int| 0 <= i < s.len() - 1 ==> !(#[trigger] s[i] == '.' && s[i + 1] == '.')
}

proof fn lemma_remove_dots(s: Seq<char>)
    ensures
        no_dot_pair(remove_dots(s)),
        s.len() > 0 && !(s.len() >= 2 && s[0] == '.' && s[1] == '.') ==> remove_dots(s).len() > 0
            && remove_dots(s)[0] == s[0],
    decreases s.len(),
{
    if s.len() >= 2 && s[0] == '.' && s[1] == '.' {
        lemma_remove_dots(s.subrange(2, s.len() as int));
    } else if s.len() > 0 {
        let rest = s.drop_first();
        lemma_remove_dots(rest);
        let r = remove_dots(s);
        assert(r == seq![s[0]] + remove_dots(rest));
        assert forall|i: int| 0 <= i < r.len() - 1 implies !(#[trigger] r[i] == '.' && r[i + 1] == '.') by {
            if i == 0 && s[0] == '.' {
                if rest.len() > 0 {
                    assert(rest[0] == s[1]);
                    assert(s[1] != '.');
                    assert(r[1] == remove_dots(rest)[0]);
                }
            } else if i > 0 {
                assert(r[i] == remove_dots(rest)[i - 1]);
                assert(r[i + 1] == remove_dots(rest)[i]);
            }
        }
    }
}

proof fn lemma_collapse_slashes(s: Seq<char>)
    requires
        no_dot_pair(s),
    ensures
        no_dot_pair(collapse_slashes(s)),
        s.len() > 0 ==> collapse_slashes(s).len() > 0 && collapse_slashes(s)[0] == s[0],
        s.len() == 0 ==> collapse_slashes(s).len() == 0,
    decreases s.len(),
{
    if s.len() >= 2 && s[0] == '/' && s[1] == '/' {
        let rest = s.subrange(2, s.len() as int);
        assert(no_dot_pair(rest)) by {
            assert forall|i: int| 0 <= i < rest.len() - 1 implies !(#[trigger] rest[i] == '.' && rest[i + 1]
                == '.') by {
                assert(rest[i] == s[i + 2]);
                assert(rest[i + 1] == s[i + 3]);
            }
        }
        lemma_collapse_slashes(rest);
        let r = collapse_slashes(s);
        assert(r == seq!['/'] + collapse_slashes(rest));
        assert forall|i: int| 0 <= i < r.len() - 1 implies !(#[trigger] r[i] == '.' && r[i + 1] == '.') by {
            if i > 0 {
                assert(r[i] == collapse_slashes(rest)[i - 1]);
                assert(r[i + 1] == collapse_slashes(rest)[i]);
            }
        }
    } else if s.len() > 0 {
        let rest = s.drop_first();
        assert(no_dot_pair(rest)) by {
            assert forall|i: int| 0 <= i < rest.len() - 1 implies !(#[trigger] rest[i] == '.' && rest[i + 1]
                == '.') by {
                assert(rest[i] == s[i + 1]);
                assert(rest[i + 1] == s[i + 2]);
            }
        }
        lemma_collapse_slashes(rest);
        let r = collapse_slashes(s);
        assert(r == seq![s[0]] + collapse_slashes(rest));
        assert forall|i: int| 0 <= i < r.len() - 1 implies !(#[trigger] r[i] == '.' && r[i + 1] == '.') by {
            if i == 0 {
                if rest.len() > 0 {
                    assert(r[1] == collapse_slashes(rest)[0]);
                    assert(collapse_slashes(rest)[0] == rest[0]);
                    assert(rest[0] == s[1]);
                }
            } else {
                assert(r[i] == collapse_slashes(rest)[i - 1]);
                assert(r[i + 1] == collapse_slashes(rest)[i]);
            }
        }
    }
}

/// A sanitized path never holds `..`: no parent directory can be named
/// through it.
pub proof fn lemma_sanitized_has_no_parent_step(p: Seq<char>)
    ensures
        !contains_seq(sanitize_spec(p), ".."@),
{
    lemma_remove_dots(p);
    lemma_collapse_slashes(remove_dots(p));
    let t = collapse_slashes(remove_dots(p));
    let r = sanitize_spec(p);
    assert(no_dot_pair(r)) by {
        if t.len() > 0 && t[0] == '/' {
            assert forall|i: int| 0 <= i < r.len() - 1 implies !(#[trigger] r[i] == '.' && r[i + 1] == '.') by {
                assert(r[i] == t[i + 1]);
                assert(r[i + 1] == t[i + 2]);
            }
        }
    }
    reveal_strlit("..");
    assert forall|i: int| !occurs_at(r, ".."@, i) by {
        if occurs_at(r, ".."@, i) {
            assert(r.subrange(i, i + 2)[0] == r[i]);
            assert(r.subrange(i, i + 2)[1] == r[i + 1]);
        }
    }
}

// ----- places in the workspace ----------------------------------------------

/// Where workspaces are kept when no root is configured.
pub const DEFAULT_WORKSPACE_ROOT: &'static str = "./workspace_storage";

/// The workspace root: the configured one, or the default.
pub fn get_workspace_root(configured: Option<String>) -> (r: String)
    ensures
        r@ == match configured {
            Some(c) => c@,
            None => DEFAULT_WORKSPACE_ROOT@,
        },
{
    match configured {
        Some(c) => c,
        None => DEFAULT_WORKSPACE_ROOT.to_string(),
    }
}

/// A user's workspace directory: the root joined with the user id.
pub fn get_user_workspace_path(root: &str, user_id: i64) -> (r: String)
    ensures
        r@ == join_path(root@, int_text(user_id as int)),
{
    let b = chars_of(root);
    let u = i64_chars(user_id);
    let p = join_path_chars(b.as_slice(), u.as_slice());
    string_of(p.as_slice())
}

/// `<article>_<voice type>_<seed>.wav`.
pub open spec fn voice_file_spec(article_id: i64, voice_type: Seq<char>, voice_seed: i64) -> Seq<char> {
    int_text(article_id as int) + "_"@ + voice_type + "_"@ + int_text(voice_seed as int) + ".wav"@
}

fn append_voice_file(r: &mut String, article_id: i64, voice_type: &str, voice_seed: i64)
    ensures
        final(r)@ == old(r)@ + voice_file_spec(article_id, voice_type@, voice_seed),
{
    let a = i64_string(article_id);
    r.append(a.as_str());
    r.append("_");
    r.append(voice_type);
    r.append("_");
    let s = i64_string(voice_seed);
    r.append(s.as_str());
    r.append(".wav");
}

/// Where the voice of an article is stored:
/// `<root>/<user>/<project>/<article>_<type>_<seed>.wav`.
pub fn get_voice_path(root: &str, user_id: i64, project_id: i64, article_id: i64, voice_type: &str, voice_seed: i64) -> (r:
    String)
    ensures
        r@ == root@ + "/"@ + int_text(user_id as int) + "/"@ + int_text(project_id as int) + "/"@
            + voice_file_spec(article_id, voice_type@, voice_seed),
{
    let mut r = root.to_string();
    r.append("/");
    let u = i64_string(user_id);
    r.append(u.as_str());
    r.append("/");
    let p = i64_string(project_id);
    r.append(p.as_str());
    r.append("/");
    append_voice_file(&mut r, article_id, voice_type, voice_seed);
    r
}

/// The link under which the voice of an article is served:
/// `/<user>/<project>/<article>_<type>_<seed>.wav`.
pub fn get_voice_link_path(user_id: i64, project_id: i64, article_id: i64, voice_type: &str, voice_seed: i64) -> (r:
    String)
    ensures
        r@ == "/"@ + int_text(user_id as int) + "/"@ + int_text(project_id as int) + "/"@ + voice_file_spec(
            article_id,
            voice_type@,
            voice_seed,
        ),
{
    let mut r = String::new();
    r.append("/");
    let u = i64_string(user_id);
    r.append(u.as_str());
    r.append("/");
    let p = i64_string(project_id);
    r.append(p.as_str());
    r.append("/");
    append_voice_file(&mut r, article_id, voice_type, voice_seed);
    r
}

/// The path of an entry of a project folder, relative to the workspace:
/// `<project>/<name>`.
pub fn project_entry_path(project: &str, file_name: &str) -> (r: String)
    ensures
        r@ == project@ + "/"@ + file_name@,
{
    let mut r = project.to_string();
    r.append("/");
    r.append(file_name);
    r
}

/// The `Content-Disposition` header that offers a file for download.
pub fn attachment_header(file_name: &str) -> (r: String)
    ensures
        r@ == "attachment; filename=\""@ + file_name@ + "\""@,
{
    let mut r = String::new();
    r.append("attachment; filename=\"");
    r.append(file_name);
    r.append("\"");
    r
}

/// The MIME type `mime_guess` gives a path, by its extension.
pub uninterp spec fn guessed_mime(path: Seq<char>) -> Seq<char>;

/// `mime_guess::from_path(path).first_or_octet_stream()`, as text: the first
/// MIME type known for the path's extension, else
/// `application/octet-stream`. The contract names the result as a function
/// of the path; the table is the crate's.
#[verifier::external_body]
fn mime_of_path(path: &str) -> (r: String)
    ensures
        r@ == guessed_mime(path@),
{
    mime_guess::from_path(path).first_or_octet_stream().to_string()
}

/// The headers of a file download: its MIME type, guessed from the path,
/// and the attachment header with the file's name.
pub fn download_headers(full_path: &str, file_name: &str) -> (r: (String, String))
    ensures
        r.0@ == guessed_mime(full_path@),
        r.1@ == "attachment; filename=\""@ + file_name@ + "\""@,
{
    (mime_of_path(full_path), attachment_header(file_name))
}

/// Whether saving a project file also makes its voice: a non-empty content in
/// a project whose purpose is `article`.
pub fn wants_voice(content: &str, purpose: &str) -> (r: bool)
    ensures
        r == (content@.len() > 0 && purpose@ == "article"@),
{
    !content.is_empty() && crate::text::text_eq(purpose, "article")
}

// ----- listings ---------------------------------------------------------------

/// An entry of a workspace listing.
pub struct WorkspaceFile {
    pub id: i64,
    pub user_id: i64,
    pub file_path: String,
    pub file_name: String,
    pub file_size: i64,
    pub is_directory: bool,
    /// Seconds since the epoch.
    pub created_at: i64,
    /// Seconds since the epoch.
    pub updated_at: i64,
}

/// What `str::to_lowercase` gives of a text.
pub uninterp spec fn lowercase(s: Seq<char>) -> Seq<char>;

/// `str::to_lowercase`: the text with each character replaced by its
/// lowercase mapping in Unicode. The contract names the result as a
/// function of the text; the mapping is the standard library's.
#[verifier::external_body]
fn to_lowercase(s: &str) -> (r: String)
    ensures
        r@ == lowercase(s@),
{
    s.to_lowercase()
}

/// `a` comes before `b` in the order of `str::cmp`: by character codes, a
/// prefix first (byte order of UTF-8 follows code order).
pub open spec fn text_lt(a: Seq<char>, b: Seq<char>) -> bool
    decreases a.len(),
{
    if a.len() == 0 {
        b.len() > 0
    } else if b.len() == 0 {
        false
    } else if a[0] != b[0] {
        (a[0] as u32) < (b[0] as u32)
    } else {
        text_lt(a.drop_first(), b.drop_first())
    }
}

/// `a` is listed before `b`: directories first, then by lowercase name.
pub open spec fn listed_before(a: WorkspaceFile, b: WorkspaceFile) -> bool {
    (a.is_directory && !b.is_directory) || (a.is_directory == b.is_directory && text_lt(
        lowercase(a.file_name@),
        lowercase(b.file_name@),
    ))
}

/// Where `x` goes in the sorted `s`: before the first entry it is listed
/// before, so that entries listed alike keep their order.
pub open spec fn insert_position(s: Seq<WorkspaceFile>, x: WorkspaceFile) -> int
    decreases s.len(),
{
    if s.len() == 0 {
        0
    } else if listed_before(x, s[0]) {
        0
    } else {
        1 + insert_position(s.drop_first(), x)
    }
}

/// The entries in listing order: a stable sort by `listed_before`.
pub open spec fn listing_order(s: Seq<WorkspaceFile>) -> Seq<WorkspaceFile>
    decreases s.len(),
{
    if s.len() == 0 {
        s
    } else {
        let r = listing_order(s.drop_last());
        r.insert(insert_position(r, s.last()), s.last())
    }
}

fn text_lt_exec(a: &[char], b: &[char]) -> (r: bool)
    ensures
        r == text_lt(a@, b@),
{
    let mut i: usize = 0;
    assert(a@.subrange(0, a@.len() as int) =~= a@);
    assert(b@.subrange(0, b@.len() as int) =~= b@);
    while i < a.len() && i < b.len()
        invariant
            0 <= i <= a.len(),
            i <= b.len(),
            text_lt(a@, b@) == text_lt(a@.subrange(i as int, a@.len() as int), b@.subrange(i as int, b@.len() as int)),
        decreases a.len() - i,
    {
        let ghost ra = a@.subrange(i as int, a@.len() as int);
        let ghost rb = b@.subrange(i as int, b@.len() as int);
        assert(ra[0] == a@[i as int]);
        assert(rb[0] == b@[i as int]);
        if a[i] != b[i] {
            return (a[i] as u32) < (b[i] as u32);
        }
        assert(ra.drop_first() =~= a@.subrange(i + 1, a@.len() as int));
        assert(rb.drop_first() =~= b@.subrange(i + 1, b@.len() as int));
        i = i + 1;
    }
    i == a.len() && i < b.len()
}

fn listed_before_exec(a: &WorkspaceFile, b: &WorkspaceFile) -> (r: bool)
    ensures
        r == listed_before(*a, *b),
{
    if a.is_directory != b.is_directory {
        return a.is_directory;
    }
    let la = to_lowercase(a.file_name.as_str());
    let lb = to_lowercase(b.file_name.as_str());
    let ca = chars_of(la.as_str());
    let cb = chars_of(lb.as_str());
    text_lt_exec(ca.as_slice(), cb.as_slice())
}

fn insert_position_exec(s: &Vec<WorkspaceFile>, x: &WorkspaceFile) -> (r: usize)
    ensures
        r == insert_position(s@, *x),
        r <= s@.len(),
{
    let mut i: usize = 0;
    assert(s@.subrange(0, s@.len() as int) =~= s@);
    while i < s.len()
        invariant
            0 <= i <= s.len(),
            insert_position(s@, *x) == i + insert_position(s@.subrange(i as int, s@.len() as int), *x),
        decreases s.len() - i,
    {
        let ghost rest = s@.subrange(i as int, s@.len() as int);
        assert(rest[0] == s@[i as int]);
        if listed_before_exec(x, &s[i]) {
            return i;
        }
        assert(rest.drop_first() =~= s@.subrange(i + 1, s@.len() as int));
        i = i + 1;
    }
    i
}

/// Puts a listing in order: directories first, then by lowercase name;
/// entries listed alike keep their order.
pub fn sort_workspace_files(files: &mut Vec<WorkspaceFile>)
    ensures
        final(files)@ == listing_order(old(files)@),
{
    let ghost orig = files@;
    let total = files.len();
    assert(orig.len() == total);
    let mut out: Vec<WorkspaceFile> = Vec::new();
    let mut n: usize = 0;
    while files.len() > 0
        invariant
            n + files@.len() == orig.len(),
            orig.len() <= usize::MAX,
            files@ == orig.subrange(n as int, orig.len() as int),
            out@ == listing_order(orig.take(n as int)),
        decreases files@.len(),
    {
        let f = files.remove(0);
        proof {
            assert(orig.take(n + 1).drop_last() =~= orig.take(n as int));
            assert(orig.take(n + 1).last() == orig[n as int]);
            assert(f == orig[n as int]);
        }
        let k = insert_position_exec(&out, &f);
        out.insert(k, f);
        assert(files@ =~= orig.subrange(n + 1, orig.len() as int));
        n = n + 1;
    }
    assert(orig.take(n as int) =~= orig);
    *files = out;
}

/// No text comes before itself.
proof fn lemma_text_lt_irreflexive(a: Seq<char>)
    ensures
        !text_lt(a, a),
    decreases a.len(),
{
    if a.len() > 0 {
        lemma_text_lt_irreflexive(a.drop_first());
    }
}

/// The text order is transitive.
proof fn lemma_text_lt_transitive(a: Seq<char>, b: Seq<char>, c: Seq<char>)
    requires
        text_lt(a, b),
        text_lt(b, c),
    ensures
        text_lt(a, c),
    decreases a.len(),
{
    if a.len() > 0 && a[0] == b[0] && b[0] == c[0] {
        lemma_text_lt_transitive(a.drop_first(), b.drop_first(), c.drop_first());
    }
}

/// Listing order is a strict order: never of an entry with itself, and
/// transitive.
proof fn lemma_listed_before_strict(a: WorkspaceFile, b: WorkspaceFile, c: WorkspaceFile)
    ensures
        !listed_before(a, a),
        listed_before(a, b) && listed_before(b, c) ==> listed_before(a, c),
{
    lemma_text_lt_irreflexive(lowercase(a.file_name@));
    if listed_before(a, b) && listed_before(b, c) && a.is_directory == b.is_directory && b.is_directory
        == c.is_directory {
        lemma_text_lt_transitive(lowercase(a.file_name@), lowercase(b.file_name@), lowercase(c.file_name@));
    }
}

/// Where an entry is inserted: after every entry it is not listed before,
/// and before the first one it is.
proof fn lemma_insert_position(s: Seq<WorkspaceFile>, x: WorkspaceFile)
    ensures
        0 <= insert_position(s, x) <= s.len(),
        forall|q: int| 0 <= q < insert_position(s, x) ==> !listed_before(x, #[trigger] s[q]),
        insert_position(s, x) < s.len() ==> listed_before(x, s[insert_position(s, x)]),
    decreases s.len(),
{
    if s.len() > 0 && !listed_before(x, s[0]) {
        let rest = s.drop_first();
        lemma_insert_position(rest, x);
        assert forall|q: int| 0 <= q < insert_position(s, x) implies !listed_before(x, #[trigger] s[q]) by {
            if q > 0 {
                assert(s[q] == rest[q - 1]);
            }
        }
    }
}

/// No entry of `r` is listed before one that comes earlier.
pub open spec fn in_listing_order(r: Seq<WorkspaceFile>) -> bool {
    forall|i: int, j: int| 0 <= i < j < r.len() ==> !listed_before(#[trigger] r[j], #[trigger] r[i])
}

/// Putting a listing in order keeps its entries, each as many times as it
/// occurs, and leaves no entry listed before one that comes earlier:
/// directories come first, then names in the order of their lowercase form.
pub proof fn lemma_listing_order_sorts(s: Seq<WorkspaceFile>)
    ensures
        listing_order(s).to_multiset() == s.to_multiset(),
        listing_order(s).len() == s.len(),
        in_listing_order(listing_order(s)),
    decreases s.len(),
{
    broadcast use vstd::seq_lib::to_multiset_insert, vstd::seq_lib::to_multiset_build;
    if s.len() == 0 {
        assert(listing_order(s) =~= s);
    } else {
        let init = s.drop_last();
        let x = s.last();
        lemma_listing_order_sorts(init);
        let r = listing_order(init);
        let p = insert_position(r, x);
        lemma_insert_position(r, x);
        let out = r.insert(p, x);
        assert(listing_order(s) == out);
        assert(s =~= init.push(x));
        assert forall|i: int, j: int| 0 <= i < j < out.len() implies !listed_before(
            #[trigger] out[j],
            #[trigger] out[i],
        ) by {
            if j < p {
                assert(out[i] == r[i] && out[j] == r[j]);
            } else if j == p {
                assert(out[i] == r[i] && out[j] == x);
            } else if i < p {
                assert(out[i] == r[i] && out[j] == r[j - 1]);
            } else if i == p {
                assert(out[i] == x && out[j] == r[j - 1]);
                lemma_listed_before_strict(r[j - 1], x, r[p]);
                lemma_listed_before_strict(r[p], x, r[p]);
                if p < j - 1 {
                    assert(!listed_before(r[j - 1], r[p]));
                }
            } else {
                assert(out[i] == r[i - 1] && out[j] == r[j - 1]);
            }
        }
    }
}

// ----- requests and answers of the service ------------------------------------

/// Who a tool call acts for: user, project and container configuration.
pub struct UserSession {
    pub user_id: i64,
    pub project_id: i64,
    pub config_id: i64,
}

impl UserSession {
    /// The session of a user in a project's container.
    pub fn new(user_id: i64, project_id: i64, config_id: i64) -> (s: UserSession)
        ensures
            s.user_id == user_id,
            s.project_id == project_id,
            s.config_id == config_id,
    {
        UserSession { user_id, project_id, config_id }
    }
}

/// Whether saving container configurations fetches them again.
pub struct SaveProjectConfigPathRarams {
    pub fetch: bool,
}

/// A request to write a file into a container and run a command.
pub struct RefreshFileRequest {
    pub file_id: i64,
    pub config_id: i64,
    pub content: String,
    pub command: String,
}

/// What refreshing a file gave.
pub struct RefreshFileResult {
    pub success: bool,
    pub message: String,
    pub output: String,
}

/// The answer to a refreshed file whose command ran: success, with the
/// command's output.
pub fn refresh_file_result(output: String) -> (r: RefreshFileResult)
    ensures
        r.success,
        r.message@ == "File refreshed and command executed"@,
        r.output@ == output@,
{
    RefreshFileResult { success: true, message: "File refreshed and command executed".to_string(), output }
}

/// A request to run a command in a project's container.
pub struct ExecuteCommandRequest {
    pub project_id: i64,
    pub config_id: i64,
    pub command: String,
}

/// Which container's status is asked for.
pub struct GetContainerStatusParams {
    pub config_id: Option<i64>,
}

/// A request for a project's container logs.
pub struct GetContainerLogsRequest {
    pub container_name: Option<String>,
    pub tail: Option<usize>,
}

/// A request to assign a project's files to its containers.
pub struct AssignFilesRequest {
    pub force: Option<bool>,
}

/// The answer to a deleted project message.
pub struct MessageDeleteProjectMessageResponse {
    pub project_id: i64,
    pub message_id: i64,
    pub message: String,
}

/// The answer to a deleted project message.
pub fn message_deleted(project_id: i64, message_id: i64) -> (r: MessageDeleteProjectMessageResponse)
    ensures
        r.project_id == project_id,
        r.message_id == message_id,
        r.message@ == "Message deleted"@,
{
    MessageDeleteProjectMessageResponse { project_id, message_id, message: "Message deleted".to_string() }
}

/// The containers of a project, and the one asked for.
pub struct ContainerStatusResponse {
    pub statuses: Vec<crate::docker::ContainerStatus>,
    pub target_status: Option<crate::docker::ContainerStatus>,
}

/// The position of the first container whose name is, or holds, the name of
/// the container of configuration `config_id`.
pub open spec fn target_position(
    names: Seq<Seq<char>>,
    user_id: i64,
    project_id: i64,
    config_id: i64,
) -> int
    decreases names.len(),
{
    if names.len() == 0 {
        -1
    } else {
        let r = target_position(names.drop_last(), user_id, project_id, config_id);
        let full = crate::paths::container_name_spec(user_id, project_id, config_id);
        if r >= 0 {
            r
        } else if names.last() == full || contains_seq(names.last(), full) {
            names.len() - 1
        } else {
            -1
        }
    }
}

/// The names of a list of containers.
pub open spec fn status_names(ss: Seq<crate::docker::ContainerStatus>) -> Seq<Seq<char>> {
    ss.map_values(|s: crate::docker::ContainerStatus| s.name@)
}

/// Which listed container a status request is about: none without a
/// configuration; else the first whose name is, or holds,
/// `<user>-<project>-<config>`.
pub fn find_target_status(
    statuses: &Vec<crate::docker::ContainerStatus>,
    user_id: i64,
    project_id: i64,
    config_id: Option<i64>,
) -> (r: Option<usize>)
    ensures
        match config_id {
            None => r is None,
            Some(c) => match r {
                Some(i) => i == target_position(status_names(statuses@), user_id, project_id, c),
                None => target_position(status_names(statuses@), user_id, project_id, c) < 0,
            },
        },
{
    let c = match config_id {
        Some(c) => c,
        None => return None,
    };
    let full = crate::paths::format_container_name(user_id, project_id, c);
    let ghost names = status_names(statuses@);
    let mut i: usize = 0;
    while i < statuses.len()
        invariant
            0 <= i <= statuses.len(),
            config_id == Some(c),
            names == status_names(statuses@),
            full@ == crate::paths::container_name_spec(user_id, project_id, c),
            target_position(names.take(i as int), user_id, project_id, c) < 0,
        decreases statuses.len() - i,
    {
        proof {
            assert(names.take(i + 1).drop_last() =~= names.take(i as int));
            assert(names.take(i + 1).last() == statuses@[i as int].name@);
        }
        let name = statuses[i].name.as_str();
        if crate::text::text_eq(name, full.as_str()) || crate::text::text_contains(name, full.as_str()) {
            proof {
                lemma_target_prefix(names, user_id, project_id, c, i + 1);
            }
            return Some(i);
        }
        i = i + 1;
    }
    assert(names.take(statuses.len() as int) =~= names);
    None
}

proof fn lemma_target_prefix(names: Seq<Seq<char>>, user_id: i64, project_id: i64, config_id: i64, n: int)
    requires
        0 <= n <= names.len(),
        target_position(names.take(n), user_id, project_id, config_id) >= 0,
    ensures
        target_position(names, user_id, project_id, config_id) == target_position(
            names.take(n),
            user_id,
            project_id,
            config_id,
        ),
    decreases names.len() - n,
{
    if n < names.len() {
        assert(names.take(n + 1).drop_last() =~= names.take(n));
        lemma_target_prefix(names, user_id, project_id, config_id, n + 1);
    } else {
        assert(names.take(n) =~= names);
    }
}

/// The container a new deployment talks to: that of the first configuration
/// that is not the compose entry (id 0 when there is none), and the address
/// of its tool server.
pub fn deployment_target(user_id: i64, project_id: i64, configs: &Vec<crate::compose::ProjectContainerConfig>) -> (r: (
    String,
    String,
))
    ensures
        ({
            let ds = crate::docker::deployed_configs(configs@);
            let id = if ds.len() > 0 {
                ds[0].id
            } else {
                0
            };
            &&& r.0@ == crate::paths::container_name_spec(user_id, project_id, id)
            &&& r.1@ == "http://"@ + r.0@ + ":80"@
        }),
{
    let mut id: i64 = 0;
    let mut i: usize = 0;
    while i < configs.len()
        invariant
            0 <= i <= configs.len(),
            crate::docker::deployed_configs(configs@.take(i as int)).len() == 0,
        decreases configs.len() - i,
    {
        proof {
            assert(configs@.take(i + 1).drop_last() =~= configs@.take(i as int));
        }
        if !crate::compose::is_compose_config(&configs[i]) {
            id = configs[i].id;
            proof {
                lemma_first_deployed(configs@, i as int);
            }
            let name = crate::paths::format_container_name(user_id, project_id, id);
            let url = crate::paths::mcp_server_url(name.as_str());
            return (name, url);
        }
        i = i + 1;
    }
    assert(configs@.take(configs.len() as int) =~= configs@);
    let name = crate::paths::format_container_name(user_id, project_id, 0);
    let url = crate::paths::mcp_server_url(name.as_str());
    (name, url)
}

proof fn lemma_first_deployed(cs: Seq<crate::compose::ProjectContainerConfig>, i: int)
    requires
        0 <= i < cs.len(),
        crate::docker::deployed_configs(cs.take(i)).len() == 0,
        !crate::compose::is_compose_entry(cs[i]),
    ensures
        crate::docker::deployed_configs(cs).len() > 0,
        crate::docker::deployed_configs(cs)[0] == cs[i],
{
    lemma_deployed_prefix(cs, cs.len() as int, i);
    assert(cs.take(cs.len() as int) =~= cs);
}

proof fn lemma_deployed_prefix(cs: Seq<crate::compose::ProjectContainerConfig>, n: int, i: int)
    requires
        0 <= i < n <= cs.len(),
        crate::docker::deployed_configs(cs.take(i)).len() == 0,
        !crate::compose::is_compose_entry(cs[i]),
    ensures
        crate::docker::deployed_configs(cs.take(n)).len() > 0,
        crate::docker::deployed_configs(cs.take(n))[0] == cs[i],
    decreases n,
{
    assert(cs.take(n).drop_last() =~= cs.take(n - 1));
    if n == i + 1 {
        assert(cs.take(n).last() == cs[i]);
    } else {
        lemma_deployed_prefix(cs, n - 1, i);
    }
}

/// A server-sent event carrying one line of text.
pub fn sse_frame(line: &str) -> (r: String)
    ensures
        r@ == "data: "@ + line@ + "\n\n"@,
{
    let mut r = String::new();
    r.append("data: ");
    r.append(line);
    r.append("\n\n");
    r
}

/// The JSON event that reports an error of the chat service, with its
/// reason (`Model not found: ...` or `LLM error: ...`).
pub fn chat_error_event(kind: &str, detail: &str) -> (r: String)
    ensures
        r@ == "{\"error\": \""@ + kind@ + ": "@ + detail@ + "\"}"@,
{
    let mut r = String::new();
    r.append("{\"error\": \"");
    r.append(kind);
    r.append(": ");
    r.append(detail);
    r.append("\"}");
    r
}

// ----- voices -------------------------------------------------------------------

/// The audio a voice service returned, as base64 text.
pub struct VoiceDataBuffer {
    pub buffer: String,
}

/// The reply of the voice service.
pub struct VoiceResponse {
    pub message: String,
    pub success: bool,
    pub data: Option<VoiceDataBuffer>,
}

/// The bytes the standard base64 alphabet decodes a text to, or `None` for
/// text that is not valid base64.
pub uninterp spec fn base64_decoded(text: Seq<char>) -> Option<Seq<u8>>;

/// The error `base64` reports for text it cannot decode.
#[verifier::external_type_specification]
#[verifier::external_body]
pub struct ExDecodeError(base64::DecodeError);

/// `base64::decode` (the standard engine, with padding). The contract names
/// the result as a function of the text; the decoding is the crate's.
#[verifier::external_body]
fn decode_base64(text: &str) -> (r: Result<Vec<u8>, base64::DecodeError>)
    ensures
        match r {
            Ok(b) => base64_decoded(text@) == Some(b@),
            Err(_) => base64_decoded(text@) is None,
        },
{
    #[allow(deprecated)]
    let decoded = base64::decode(text);
    decoded
}

/// The text of a base64 error (its `Display`); nothing is claimed of it.
#[verifier::external_body]
fn decode_error_text(e: &base64::DecodeError) -> String {
    e.to_string()
}

/// The audio file to write from a reply of the voice service: none when the
/// service failed, else the decoded bytes of its data, or the decoding error.
pub fn voice_audio(resp: &VoiceResponse) -> (r: Result<Option<Vec<u8>>, String>)
    requires
        resp.success ==> resp.data is Some,
    ensures
        !resp.success ==> r == Ok::<Option<Vec<u8>>, String>(None),
        resp.success ==> match r {
            Ok(Some(b)) => base64_decoded(resp.data->0.buffer@) == Some(b@),
            Ok(None) => false,
            Err(_) => base64_decoded(resp.data->0.buffer@) is None,
        },
{
    if !resp.success {
        return Ok(None);
    }
    let data = match &resp.data {
        Some(d) => d,
        None => return Ok(None),
    };
    match decode_base64(data.buffer.as_str()) {
        Ok(b) => Ok(Some(b)),
        Err(e) => Err(decode_error_text(&e)),
    }
}

} // verus!
