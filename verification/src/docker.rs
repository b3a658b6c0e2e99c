//! Reading what `docker` and `docker-compose` print, and writing what they
//! are asked to do.
use vstd::prelude::*;
use std::collections::HashMap;
use crate::text::{
    chars_of, contains_seq, extend_chars, extend_str, has_prefix, lines, lines_of, lossy_string,
    split_char, split_chars, string_of, trim, trim_chars, text_eq, utf8_lossy,
};
use crate::compose::{
    csv_items, csv_items_exec, dockerfile_name, first_index, first_index_exec, is_compose_config,
    is_compose_entry, ProjectContainerConfig, ProjectFileInfo,
};
use crate::paths::{container_name_spec, format_container_name, join_path, join_path_chars};

verus! {

/// What a command run in a container gave.
pub struct ExecuteCommandResult {
    pub success: bool,
    pub output: String,
    pub error: Option<String>,
}

/// A running container as `docker ps` lists it.
pub struct ContainerStatus {
    pub name: String,
    pub command: String,
    pub state: String,
    pub ports: String,
}

/// A published port: host side and container side.
pub struct PortMapping {
    pub container_name: String,
    pub host_port: String,
    pub container_port: String,
}

/// What starting a project's containers gave.
pub struct ContainerStartResult {
    pub output: String,
    pub port_mappings: Vec<PortMapping>,
}

/// What preparing a project's deployment gave.
pub struct ContainerDeploymentResult {
    pub success: bool,
    pub message: String,
    pub debug_dir: String,
    pub container_names: Vec<String>,
    pub docker_compose_path: String,
}

/// The message of a deployment whose files were written.
pub const DEPLOYMENT_FILES_MESSAGE: &'static str = "Deployment files generated successfully";

/// The message answered once the containers of a deployment are starting.
pub const DEPLOYMENT_STARTED_MESSAGE: &'static str = "Deployment started successfully";

/// The compose file of a project's deployment: `docker-compose.yml` in its
/// debug directory.
pub open spec fn compose_file_spec(user_id: i64, project_id: i64) -> Seq<char> {
    join_path(crate::paths::debug_dir_spec(user_id, project_id), "docker-compose.yml"@)
}

/// The path of the compose file written for a project's deployment.
pub fn compose_file_path(user_id: i64, project_id: i64) -> (r: String)
    ensures
        r@ == compose_file_spec(user_id, project_id),
{
    let d = crate::paths::get_debug_directory(user_id, project_id);
    let dc = chars_of(d.as_str());
    let n = chars_of("docker-compose.yml");
    let p = join_path_chars(dc.as_slice(), n.as_slice());
    string_of(p.as_slice())
}

/// The result of preparing a project's deployment: a success, with the
/// project's debug directory, the names of its containers and the path of
/// its compose file.
pub fn deployment_result(
    user_id: i64,
    project_id: i64,
    container_names: Vec<String>,
    docker_compose_path: String,
) -> (r: ContainerDeploymentResult)
    ensures
        r.success,
        r.message@ == DEPLOYMENT_FILES_MESSAGE@,
        r.debug_dir@ == crate::paths::debug_dir_spec(user_id, project_id),
        r.container_names == container_names,
        r.docker_compose_path == docker_compose_path,
{
    ContainerDeploymentResult {
        success: true,
        message: DEPLOYMENT_FILES_MESSAGE.to_string(),
        debug_dir: crate::paths::get_debug_directory(user_id, project_id),
        container_names,
        docker_compose_path,
    }
}

/// The answer once the containers of a prepared deployment are starting: the
/// same directory, names and compose file, with the message that the
/// deployment started.
pub fn deployment_started(prepared: ContainerDeploymentResult) -> (r: ContainerDeploymentResult)
    ensures
        r.success,
        r.message@ == DEPLOYMENT_STARTED_MESSAGE@,
        r.debug_dir == prepared.debug_dir,
        r.container_names == prepared.container_names,
        r.docker_compose_path == prepared.docker_compose_path,
{
    ContainerDeploymentResult {
        success: true,
        message: DEPLOYMENT_STARTED_MESSAGE.to_string(),
        debug_dir: prepared.debug_dir,
        container_names: prepared.container_names,
        docker_compose_path: prepared.docker_compose_path,
    }
}

// ----- the compose project of a directory ----------------------------------

/// The pieces of `ps` that name something: neither empty nor `.`.
pub open spec fn named_parts(ps: Seq<Seq<char>>) -> Seq<Seq<char>>
    decreases ps.len(),
{
    if ps.len() == 0 {
        Seq::empty()
    } else if ps.last().len() == 0 || ps.last() == "."@ {
        named_parts(ps.drop_last())
    } else {
        named_parts(ps.drop_last()).push(ps.last())
    }
}

/// The components of a path, as `Path::components` gives them on Unix, with
/// the root and `.` left out.
pub open spec fn path_components(p: Seq<char>) -> Seq<Seq<char>> {
    named_parts(split_char(p, '/'))
}

/// The last component of a path when it is a name (`Path::file_name`).
pub open spec fn file_name_spec(p: Seq<char>) -> Option<Seq<char>> {
    let c = path_components(p);
    if c.len() > 0 && c.last() != ".."@ {
        Some(c.last())
    } else {
        None
    }
}

/// The name of a path's parent directory (`Path::parent`, then
/// `Path::file_name`).
pub open spec fn parent_name_spec(p: Seq<char>) -> Option<Seq<char>> {
    let c = path_components(p);
    if c.len() >= 2 && c[c.len() - 2] != ".."@ {
        Some(c[c.len() - 2])
    } else {
        None
    }
}

/// The compose project of a debug directory `/debug/<user>/<project>`:
/// `<user>-<project>`, from the names of the directory's parent and of the
/// directory (`0` and `default` when missing).
pub open spec fn compose_project_spec(p: Seq<char>) -> Seq<char> {
    let parent = match parent_name_spec(p) {
        Some(n) => n,
        None => "0"@,
    };
    let own = match file_name_spec(p) {
        Some(n) => n,
        None => "default"@,
    };
    parent + "-"@ + own
}

/// The pieces of a project's debug directory, cut at `/`.
proof fn lemma_debug_dir_pieces(user_id: i64, project_id: i64)
    ensures
        split_char(crate::paths::debug_dir_spec(user_id, project_id), '/') == seq![
            Seq::<char>::empty(),
            "debug"@,
            crate::text::int_text(user_id as int),
            crate::text::int_text(project_id as int),
        ],
{
    let u = crate::text::int_text(user_id as int);
    let p = crate::text::int_text(project_id as int);
    crate::paths::lemma_int_text_chars(user_id as int);
    crate::paths::lemma_int_text_chars(project_id as int);
    reveal_strlit("/debug/");
    reveal_strlit("debug");
    reveal_strlit("/");
    let e = Seq::<char>::empty();
    let d = "debug"@;
    assert forall|k: int| 0 <= k < d.len() implies #[trigger] d[k] != '/' by {}
    let a1 = e.push('/');
    assert(a1.drop_last() =~= e);
    assert(a1.len() == 1 && a1.last() == '/');
    assert(split_char(e, '/') =~= seq![e]);
    assert(split_char(a1, '/') =~= seq![e, e]);
    crate::text::lemma_split_extend(a1, d, '/');
    let a2 = a1 + d;
    assert(split_char(a2, '/') =~= seq![e, d]);
    let a3 = a2.push('/');
    assert(a3.drop_last() =~= a2);
    assert(split_char(a3, '/') =~= seq![e, d, e]);
    crate::text::lemma_split_extend(a3, u, '/');
    let a4 = a3 + u;
    assert(split_char(a4, '/') =~= seq![e, d, u]);
    let a5 = a4.push('/');
    assert(a5.drop_last() =~= a4);
    assert(split_char(a5, '/') =~= seq![e, d, u, e]);
    crate::text::lemma_split_extend(a5, p, '/');
    let a6 = a5 + p;
    assert(split_char(a6, '/') =~= seq![e, d, u, p]);
    assert(crate::paths::debug_dir_spec(user_id, project_id) =~= a6);
}

/// The compose project of a project's debug directory is
/// `<user>-<project>`, so that the containers it starts, named
/// `<user>-<project>-<config>`, and its networks carry the same prefix.
pub proof fn lemma_compose_project_of_debug_dir(user_id: i64, project_id: i64, config_id: i64)
    ensures
        compose_project_spec(crate::paths::debug_dir_spec(user_id, project_id)) == crate::text::int_text(
            user_id as int,
        ) + "-"@ + crate::text::int_text(project_id as int),
        container_name_spec(user_id, project_id, config_id) == compose_project_spec(
            crate::paths::debug_dir_spec(user_id, project_id),
        ) + "-"@ + crate::text::int_text(config_id as int),
{
    let u = crate::text::int_text(user_id as int);
    let p = crate::text::int_text(project_id as int);
    crate::paths::lemma_int_text_chars(user_id as int);
    crate::paths::lemma_int_text_chars(project_id as int);
    lemma_debug_dir_pieces(user_id, project_id);
    reveal_strlit("debug");
    reveal_strlit(".");
    reveal_strlit("..");
    let e = Seq::<char>::empty();
    let ps = seq![e, "debug"@, u, p];
    assert(ps.drop_last() =~= seq![e, "debug"@, u]);
    assert(ps.drop_last().drop_last() =~= seq![e, "debug"@]);
    assert(ps.drop_last().drop_last().drop_last() =~= seq![e]);
    assert(seq![e].drop_last() =~= Seq::<Seq<char>>::empty());
    assert(u != "."@ && p != "."@ && u != ".."@ && p != ".."@) by {
        assert(u[0] != '.' && p[0] != '.');
    }
    assert("debug"@.len() == 5 && "."@.len() == 1);
    assert("debug"@ != "."@);
    let z = Seq::<Seq<char>>::empty();
    assert(named_parts(z) == z);
    assert(seq![e].len() == 1 && seq![e].last() == e && seq![e].last().len() == 0);
    assert(named_parts(seq![e]) =~= z);
    assert(named_parts(seq![e, "debug"@]) =~= seq!["debug"@]);
    assert(named_parts(seq![e, "debug"@, u]) =~= seq!["debug"@, u]);
    assert(named_parts(ps) =~= seq!["debug"@, u, p]);
}

fn named_parts_exec(ps: &Vec<Vec<char>>) -> (r: Vec<Vec<char>>)
    ensures
        r@.len() == named_parts(ps@.map_values(|v: Vec<char>| v@)).len(),
        forall|k: int| 0 <= k < r@.len() ==> #[trigger] r@[k]@ == named_parts(ps@.map_values(|v: Vec<char>| v@))[k],
{
    let ghost all = ps@.map_values(|v: Vec<char>| v@);
    let dot = chars_of(".");
    proof {
        reveal_strlit(".");
    }
    let mut r: Vec<Vec<char>> = Vec::new();
    let mut i: usize = 0;
    while i < ps.len()
        invariant
            0 <= i <= ps.len(),
            all == ps@.map_values(|v: Vec<char>| v@),
            dot@ == "."@,
            r@.len() == named_parts(all.take(i as int)).len(),
            forall|k: int| 0 <= k < r@.len() ==> #[trigger] r@[k]@ == named_parts(all.take(i as int))[k],
        decreases ps.len() - i,
    {
        proof {
            assert(all.take(i + 1).drop_last() =~= all.take(i as int));
            assert(all.take(i + 1).last() == ps@[i as int]@);
        }
        let p = &ps[i];
        if p.len() > 0 && !crate::text::chars_eq(p.as_slice(), dot.as_slice()) {
            r.push(p.clone());
        }
        i = i + 1;
    }
    assert(all.take(ps.len() as int) =~= all);
    r
}

// ----- what to remove before starting ---------------------------------------

/// A resource left by an earlier start of a project.
pub enum CleanupTarget {
    /// A container, by name.
    Container(String),
    /// A network, by its full name.
    Network(String),
}

/// The view of a clean-up target: `true` for a container, and the name.
pub open spec fn target_view(t: CleanupTarget) -> (bool, Seq<char>) {
    match t {
        CleanupTarget::Container(n) => (true, n@),
        CleanupTarget::Network(n) => (false, n@),
    }
}

/// `s` without double and single quotes.
pub open spec fn unquote(s: Seq<char>) -> Seq<char>
    decreases s.len(),
{
    if s.len() == 0 {
        s
    } else if s.last() == '"' || s.last() == '\'' {
        unquote(s.drop_last())
    } else {
        unquote(s.drop_last()).push(s.last())
    }
}

/// A line of a compose file that sets a field other than a network's.
pub open spec fn names_service_field(line: Seq<char>) -> bool {
    ||| contains_seq(line, "container_name:"@)
    ||| contains_seq(line, "image:"@)
    ||| contains_seq(line, "ports:"@)
    ||| contains_seq(line, "volumes:"@)
    ||| contains_seq(line, "environment:"@)
    ||| contains_seq(line, "command:"@)
    ||| contains_seq(line, "working_dir:"@)
}

/// What a line of the compose file asks to remove: the container a
/// `container_name:` line names (quotes dropped), or, for another indented
/// `key:` line that is not a service field, the network
/// `<project>_<key>` unless the key is `external`, `name` or `driver`.
pub open spec fn line_target(line: Seq<char>, project: Seq<char>) -> Option<(bool, Seq<char>)> {
    let parts = split_char(line, ':');
    if contains_seq(line, "container_name:"@) {
        let n = unquote(trim(parts[1]));
        if n.len() > 0 {
            Some((true, n))
        } else {
            None
        }
    } else if has_prefix(line, " "@) && contains_seq(line, ":"@) && !names_service_field(line) {
        let n = trim(parts[0]);
        if n.len() > 0 && n != "external"@ && n != "name"@ && n != "driver"@ {
            Some((false, project + "_"@ + n))
        } else {
            None
        }
    } else {
        None
    }
}

/// The targets of a list of lines, in order.
pub open spec fn targets_of(ls: Seq<Seq<char>>, project: Seq<char>) -> Seq<(bool, Seq<char>)>
    decreases ls.len(),
{
    if ls.len() == 0 {
        Seq::empty()
    } else {
        match line_target(ls.last(), project) {
            Some(t) => targets_of(ls.drop_last(), project).push(t),
            None => targets_of(ls.drop_last(), project),
        }
    }
}

fn unquote_exec(s: &[char]) -> (r: Vec<char>)
    ensures
        r@ == unquote(s@),
{
    let mut r: Vec<char> = Vec::new();
    let mut i: usize = 0;
    while i < s.len()
        invariant
            0 <= i <= s.len(),
            r@ == unquote(s@.take(i as int)),
        decreases s.len() - i,
    {
        proof {
            assert(s@.take(i + 1).drop_last() =~= s@.take(i as int));
        }
        let c = s[i];
        if c != '"' && c != '\'' {
            r.push(c);
        }
        i = i + 1;
    }
    assert(s@.take(s.len() as int) =~= s@);
    r
}

fn text_has(s: &[char], lit: &str) -> (r: bool)
    ensures
        r == contains_seq(s@, lit@),
{
    let t = chars_of(lit);
    crate::text::contains_chars(s, t.as_slice())
}

fn line_target_exec(line: &[char], project: &str) -> (r: Option<CleanupTarget>)
    ensures
        match r {
            Some(t) => line_target(line@, project@) == Some(target_view(t)),
            None => line_target(line@, project@) is None,
        },
{
    let parts = split_chars(line, ':');
    proof {
        crate::text::lemma_split_len(line@, ':');
    }
    if text_has(line, "container_name:") {
        proof {
            reveal_strlit("container_name:");
            let k = choose|k: int| crate::text::occurs_at(line@, "container_name:"@, k);
            assert(line@.subrange(k, k + 15)[14] == line@[k + 14]);
            assert(line@[k + 14] == ':');
            lemma_split_has_two(line@, ':', k + 14);
        }
        let t = trim_chars(parts[1].as_slice());
        let n = unquote_exec(t.as_slice());
        if n.len() > 0 {
            return Some(CleanupTarget::Container(string_of(n.as_slice())));
        }
        return None;
    }
    let space = chars_of(" ");
    if crate::text::starts_with(line, space.as_slice()) && text_has(line, ":") && !text_has(line, "container_name:")
        && !text_has(line, "image:") && !text_has(line, "ports:") && !text_has(line, "volumes:") && !text_has(
        line,
        "environment:",
    ) && !text_has(line, "command:") && !text_has(line, "working_dir:") {
        let n = trim_chars(parts[0].as_slice());
        let ns = string_of(n.as_slice());
        if n.len() > 0 && !text_eq(ns.as_str(), "external") && !text_eq(ns.as_str(), "name") && !text_eq(
            ns.as_str(),
            "driver",
        ) {
            let mut out = chars_of(project);
            extend_str(&mut out, "_");
            extend_chars(&mut out, n.as_slice());
            return Some(CleanupTarget::Network(string_of(out.as_slice())));
        }
    }
    None
}

/// A separator at position `i` splits `s` into at least two pieces.
proof fn lemma_split_has_two(s: Seq<char>, sep: char, i: int)
    requires
        0 <= i < s.len(),
        s[i] == sep,
    ensures
        split_char(s, sep).len() >= 2,
    decreases s.len(),
{
    crate::text::lemma_split_len(s, sep);
    crate::text::lemma_split_len(s.drop_last(), sep);
    if i < s.len() - 1 {
        lemma_split_has_two(s.drop_last(), sep, i);
    }
}

// ----- published ports ------------------------------------------------------

/// `->` stands at position `i` of `t`.
pub open spec fn is_arrow(t: Seq<char>, i: int) -> bool {
    0 <= i && i + 1 < t.len() && t[i] == '-' && t[i + 1] == '>'
}

/// The host and container sides of a port item `host->container`, trimmed:
/// present when `->` occurs exactly once (`split("->")` gives two parts).
pub open spec fn arrow_pair(t: Seq<char>) -> Option<(Seq<char>, Seq<char>)> {
    if exists|i: int| is_arrow(t, i) && forall|j: int| is_arrow(t, j) ==> j == i {
        let i = choose|i: int| is_arrow(t, i) && forall|j: int| is_arrow(t, j) ==> j == i;
        Some((trim(t.subrange(0, i)), trim(t.subrange(i + 2, t.len() as int))))
    } else {
        None
    }
}

/// The mappings of a container's port items: one for each item with a single
/// `->`, in order.
pub open spec fn mappings_spec(name: Seq<char>, items: Seq<Seq<char>>) -> Seq<(Seq<char>, Seq<char>, Seq<char>)>
    decreases items.len(),
{
    if items.len() == 0 {
        Seq::empty()
    } else {
        match arrow_pair(items.last()) {
            Some((h, c)) => mappings_spec(name, items.drop_last()).push((name, h, c)),
            None => mappings_spec(name, items.drop_last()),
        }
    }
}

/// The view of a port mapping: container, host port, container port.
pub open spec fn mapping_view(m: PortMapping) -> (Seq<char>, Seq<char>, Seq<char>) {
    (m.container_name@, m.host_port@, m.container_port@)
}

/// The position of the only `->` of `t`, if it has exactly one.
fn single_arrow(t: &[char]) -> (r: Option<usize>)
    ensures
        match r {
            Some(i) => is_arrow(t@, i as int) && forall|j: int| is_arrow(t@, j) ==> j == i,
            None => !exists|i: int| is_arrow(t@, i) && forall|j: int| is_arrow(t@, j) ==> j == i,
        },
{
    let mut found: Option<usize> = None;
    let mut i: usize = 0;
    while t.len() > 0 && i < t.len() - 1
        invariant
            0 <= i <= t.len(),
            match found {
                Some(p) => p < i && is_arrow(t@, p as int) && forall|j: int| j < i && is_arrow(t@, j) ==> j == p,
                None => forall|j: int| j < i ==> !is_arrow(t@, j),
            },
        decreases t.len() - i,
    {
        if t[i] == '-' && t[i + 1] == '>' {
            assert(is_arrow(t@, i as int));
            match found {
                Some(p) => {
                    assert(is_arrow(t@, p as int) && p != i);
                    return None;
                },
                None => {
                    found = Some(i);
                },
            }
        }
        i = i + 1;
    }
    match found {
        Some(p) => {
            assert forall|j: int| is_arrow(t@, j) implies j == p by {
                if j >= i {
                    assert(j + 1 < t@.len());
                }
            }
        },
        None => {
            assert forall|j: int| !is_arrow(t@, j) by {
                if j >= i {
                    assert(!(j + 1 < t@.len()));
                }
            }
        },
    }
    found
}

fn arrow_pair_exec(t: &[char]) -> (r: Option<(Vec<char>, Vec<char>)>)
    ensures
        match r {
            Some((h, c)) => arrow_pair(t@) == Some((h@, c@)),
            None => arrow_pair(t@) is None,
        },
{
    match single_arrow(t) {
        Some(i) => {
            proof {
                let w = choose|k: int| is_arrow(t@, k) && forall|j: int| is_arrow(t@, j) ==> j == k;
                assert(w == i);
                assert(i + 1 < t@.len());
            }
            let h = crate::text::slice_chars(t, 0, i);
            let c = crate::text::slice_chars(t, i + 2, t.len());
            Some((trim_chars(h.as_slice()), trim_chars(c.as_slice())))
        },
        None => None,
    }
}

// ----- running containers ---------------------------------------------------

/// The fields of a `docker ps` line written as `name|command|state|ports`
/// (`splitn(4, '|')`): present when the line has at least two `|`; the ports
/// are what follows the third `|`, or empty.
pub open spec fn status_fields(line: Seq<char>) -> Option<(Seq<char>, Seq<char>, Seq<char>, Seq<char>)> {
    let i1 = first_index(line, '|');
    if i1 < 0 {
        None
    } else {
        let r1 = line.subrange(i1 + 1, line.len() as int);
        let i2 = first_index(r1, '|');
        if i2 < 0 {
            None
        } else {
            let r2 = r1.subrange(i2 + 1, r1.len() as int);
            let i3 = first_index(r2, '|');
            if i3 < 0 {
                Some((line.subrange(0, i1), r1.subrange(0, i2), r2, Seq::empty()))
            } else {
                Some((line.subrange(0, i1), r1.subrange(0, i2), r2.subrange(0, i3), r2.subrange(i3 + 1, r2.len() as int)))
            }
        }
    }
}

/// The containers listed by lines of `docker ps` output: one for each
/// non-blank line with the fields above, in order.
pub open spec fn statuses_spec(ls: Seq<Seq<char>>) -> Seq<(Seq<char>, Seq<char>, Seq<char>, Seq<char>)>
    decreases ls.len(),
{
    if ls.len() == 0 {
        Seq::empty()
    } else {
        let rest = statuses_spec(ls.drop_last());
        if trim(ls.last()).len() == 0 {
            rest
        } else {
            match status_fields(ls.last()) {
                Some(f) => rest.push(f),
                None => rest,
            }
        }
    }
}

/// The view of a container status: name, command, state, ports.
pub open spec fn status_view(c: ContainerStatus) -> (Seq<char>, Seq<char>, Seq<char>, Seq<char>) {
    (c.name@, c.command@, c.state@, c.ports@)
}

fn status_fields_exec(line: &[char]) -> (r: Option<ContainerStatus>)
    ensures
        match r {
            Some(c) => status_fields(line@) == Some(status_view(c)),
            None => status_fields(line@) is None,
        },
{
    let i1 = match first_index_exec(line, '|') {
        Some(i) => i,
        None => return None,
    };
    let r1 = crate::text::slice_chars(line, i1 + 1, line.len());
    let i2 = match first_index_exec(r1.as_slice(), '|') {
        Some(i) => i,
        None => return None,
    };
    let r2 = crate::text::slice_chars(r1.as_slice(), i2 + 1, r1.len());
    let name = crate::text::slice_chars(line, 0, i1);
    let command = crate::text::slice_chars(r1.as_slice(), 0, i2);
    match first_index_exec(r2.as_slice(), '|') {
        None => {
            let c = ContainerStatus {
                name: string_of(name.as_slice()),
                command: string_of(command.as_slice()),
                state: string_of(r2.as_slice()),
                ports: String::new(),
            };
            Some(c)
        },
        Some(i3) => {
            let state = crate::text::slice_chars(r2.as_slice(), 0, i3);
            let ports = crate::text::slice_chars(r2.as_slice(), i3 + 1, r2.len());
            Some(
                ContainerStatus {
                    name: string_of(name.as_slice()),
                    command: string_of(command.as_slice()),
                    state: string_of(state.as_slice()),
                    ports: string_of(ports.as_slice()),
                },
            )
        },
    }
}

// ----- files of a container -------------------------------------------------

/// Where a project file is written in a container's volume directory: under
/// its directory when it has one.
pub open spec fn volume_file_spec(vol_dir: Seq<char>, directory: Seq<char>, name: Seq<char>) -> Seq<char> {
    if directory.len() == 0 {
        join_path(vol_dir, name)
    } else {
        join_path(join_path(vol_dir, directory), name)
    }
}

// ----- preparing a deployment -------------------------------------------------

/// The container configurations of a project, without the compose entry.
pub open spec fn deployed_configs(cs: Seq<ProjectContainerConfig>) -> Seq<ProjectContainerConfig>
    decreases cs.len(),
{
    if cs.len() == 0 {
        Seq::empty()
    } else if is_compose_entry(cs.last()) {
        deployed_configs(cs.drop_last())
    } else {
        deployed_configs(cs.drop_last()).push(cs.last())
    }
}

/// The container configurations of a project, without the entry that stores
/// its compose file, in order.
pub fn without_compose_entry(configs: &Vec<ProjectContainerConfig>) -> (r: Vec<ProjectContainerConfig>)
    ensures
        r@ == deployed_configs(configs@),
{
    let mut r: Vec<ProjectContainerConfig> = Vec::new();
    let mut i: usize = 0;
    while i < configs.len()
        invariant
            0 <= i <= configs.len(),
            r@ == deployed_configs(configs@.take(i as int)),
        decreases configs.len() - i,
    {
        proof {
            assert(configs@.take(i + 1).drop_last() =~= configs@.take(i as int));
            assert(configs@.take(i + 1).last() == configs@[i as int]);
        }
        if !is_compose_config(&configs[i]) {
            r.push(crate::compose::copy_config(&configs[i]));
        }
        i = i + 1;
    }
    assert(configs@.take(configs.len() as int) =~= configs@);
    r
}

/// The deployment of a project's debug containers: what is asked of
/// `docker` and `docker-compose`, and how their output is read.
pub struct ContainerDeployer;

impl ContainerDeployer {
    /// The compose project name for a debug directory (see
    /// `compose_project_spec`).
    pub fn compose_project_name(debug_dir: &str) -> (r: String)
        ensures
            r@ == compose_project_spec(debug_dir@),
    {
        let cs = chars_of(debug_dir);
        let pieces = split_chars(cs.as_slice(), '/');
        let ghost sp = split_char(debug_dir@, '/');
        assert(pieces@.map_values(|v: Vec<char>| v@) =~= sp);
        let comps = named_parts_exec(&pieces);
        let up = chars_of("..");
        proof {
            reveal_strlit("..");
        }
        let n = comps.len();
        let mut out: Vec<char> = Vec::new();
        if n >= 2 && !crate::text::chars_eq(comps[n - 2].as_slice(), up.as_slice()) {
            extend_chars(&mut out, comps[n - 2].as_slice());
        } else {
            extend_str(&mut out, "0");
        }
        extend_str(&mut out, "-");
        if n >= 1 && !crate::text::chars_eq(comps[n - 1].as_slice(), up.as_slice()) {
            extend_chars(&mut out, comps[n - 1].as_slice());
        } else {
            extend_str(&mut out, "default");
        }
        string_of(out.as_slice())
    }

    /// What to remove before a project's containers start, read from its compose
    /// file: for each line, the container or network it names (see
    /// `line_target`), in order.
    pub fn cleanup_targets(content: &str, project: &str) -> (r: Vec<CleanupTarget>)
        ensures
            r@.map_values(|t: CleanupTarget| target_view(t)) == targets_of(lines(content@), project@),
    {
        let cs = chars_of(content);
        let ls = lines_of(cs.as_slice());
        let ghost spec_ls = lines(content@);
        let mut r: Vec<CleanupTarget> = Vec::new();
        let mut i: usize = 0;
        while i < ls.len()
            invariant
                0 <= i <= ls.len(),
                ls@.len() == spec_ls.len(),
                spec_ls == lines(content@),
                forall|k: int| 0 <= k < ls@.len() ==> #[trigger] ls@[k]@ == spec_ls[k],
                r@.map_values(|t: CleanupTarget| target_view(t)) == targets_of(spec_ls.take(i as int), project@),
            decreases ls.len() - i,
        {
            proof {
                assert(spec_ls.take(i + 1).drop_last() =~= spec_ls.take(i as int));
                assert(spec_ls.take(i + 1).last() == ls@[i as int]@);
            }
            match line_target_exec(ls[i].as_slice(), project) {
                Some(t) => {
                    let ghost before = r@;
                    let ghost tv = target_view(t);
                    r.push(t);
                    assert(r@.map_values(|t: CleanupTarget| target_view(t)) =~= before.map_values(
                        |t: CleanupTarget| target_view(t),
                    ).push(tv));
                },
                None => {},
            }
            i = i + 1;
        }
        assert(spec_ls.take(ls.len() as int) =~= spec_ls);
        r
    }

    /// The port mappings of one container, from the published ports `docker
    /// compose ps` reports for it (`host->container`, comma-separated).
    pub fn port_mappings_of(name: &str, ports: Option<&str>) -> (r: Vec<PortMapping>)
        ensures
            r@.map_values(|m: PortMapping| mapping_view(m)) == mappings_spec(
                name@,
                csv_items(
                    match ports {
                        Some(p) => p@,
                        None => Seq::<char>::empty(),
                    },
                ),
            ),
    {
        let p: &str = match ports {
            Some(p) => p,
            None => "",
        };
        let items = csv_items_exec(p);
        let ghost its = csv_items(p@);
        let mut r: Vec<PortMapping> = Vec::new();
        let mut i: usize = 0;
        while i < items.len()
            invariant
                0 <= i <= items.len(),
                items@.len() == its.len(),
                forall|k: int| 0 <= k < items@.len() ==> #[trigger] items@[k]@ == its[k],
                r@.map_values(|m: PortMapping| mapping_view(m)) == mappings_spec(name@, its.take(i as int)),
            decreases items.len() - i,
        {
            proof {
                assert(its.take(i + 1).drop_last() =~= its.take(i as int));
                assert(its.take(i + 1).last() == items@[i as int]@);
            }
            match arrow_pair_exec(items[i].as_slice()) {
                Some((h, c)) => {
                    let ghost before = r@;
                    let m = PortMapping {
                        container_name: name.to_string(),
                        host_port: string_of(h.as_slice()),
                        container_port: string_of(c.as_slice()),
                    };
                    let ghost mv = mapping_view(m);
                    r.push(m);
                    assert(r@.map_values(|m: PortMapping| mapping_view(m)) =~= before.map_values(
                        |m: PortMapping| mapping_view(m),
                    ).push(mv));
                },
                None => {},
            }
            i = i + 1;
        }
        assert(its.take(items.len() as int) =~= its);
        proof {
            if ports is None {
                reveal_strlit("");
                assert(p@ =~= Seq::<char>::empty());
            }
        }
        r
    }

    /// The running containers that `docker ps --format
    /// '{{.Names}}|{{.Command}}|{{.State}}|{{.Ports}}'` printed.
    pub fn parse_container_statuses(stdout: &str) -> (r: Vec<ContainerStatus>)
        ensures
            r@.map_values(|c: ContainerStatus| status_view(c)) == statuses_spec(lines(stdout@)),
    {
        let cs = chars_of(stdout);
        let ls = lines_of(cs.as_slice());
        let ghost spec_ls = lines(stdout@);
        let mut r: Vec<ContainerStatus> = Vec::new();
        let mut i: usize = 0;
        while i < ls.len()
            invariant
                0 <= i <= ls.len(),
                ls@.len() == spec_ls.len(),
                spec_ls == lines(stdout@),
                forall|k: int| 0 <= k < ls@.len() ==> #[trigger] ls@[k]@ == spec_ls[k],
                r@.map_values(|c: ContainerStatus| status_view(c)) == statuses_spec(spec_ls.take(i as int)),
            decreases ls.len() - i,
        {
            proof {
                assert(spec_ls.take(i + 1).drop_last() =~= spec_ls.take(i as int));
                assert(spec_ls.take(i + 1).last() == ls@[i as int]@);
            }
            let t = trim_chars(ls[i].as_slice());
            if t.len() > 0 {
                match status_fields_exec(ls[i].as_slice()) {
                    Some(c) => {
                        let ghost before = r@;
                        let ghost cv = status_view(c);
                        r.push(c);
                        assert(r@.map_values(|c: ContainerStatus| status_view(c)) =~= before.map_values(
                            |c: ContainerStatus| status_view(c),
                        ).push(cv));
                    },
                    None => {},
                }
            }
            i = i + 1;
        }
        assert(spec_ls.take(ls.len() as int) =~= spec_ls);
        r
    }

    /// Whether `docker inspect -f '{{.State.Running}}'` printed `true` (its
    /// output, read as UTF-8 with invalid bytes replaced, then trimmed).
    pub fn container_running(stdout: &[u8]) -> (r: bool)
        ensures
            r == (trim(utf8_lossy(stdout@)) == "true"@),
    {
        let s = lossy_string(stdout);
        let c = chars_of(s.as_str());
        let t = trim_chars(c.as_slice());
        let lit = chars_of("true");
        crate::text::chars_eq(t.as_slice(), lit.as_slice())
    }

    /// The shell command that runs `command` in a project's container.
    pub fn exec_command_line(user_id: i64, project_id: i64, config_id: i64, command: &str) -> (r: String)
        ensures
            r@ == "docker exec "@ + container_name_spec(user_id, project_id, config_id) + " "@ + command@,
    {
        let mut r = String::new();
        r.append("docker exec ");
        let name = format_container_name(user_id, project_id, config_id);
        r.append(name.as_str());
        r.append(" ");
        r.append(command);
        r
    }

    /// What a command run in a container gave: its output, and its error output
    /// when it failed.
    pub fn command_result(success: bool, stdout: &[u8], stderr: &[u8]) -> (r: ExecuteCommandResult)
        ensures
            r.success == success,
            r.output@ == utf8_lossy(stdout@),
            match r.error {
                Some(e) => !success && e@ == utf8_lossy(stderr@),
                None => success,
            },
    {
        ExecuteCommandResult {
            success,
            output: lossy_string(stdout),
            error: if success {
                None
            } else {
                Some(lossy_string(stderr))
            },
        }
    }

    /// The output of a `docker-compose` command: its output, a new line, and
    /// its error output.
    pub fn joined_output(stdout: &[u8], stderr: &[u8]) -> (r: String)
        ensures
            r@ == utf8_lossy(stdout@) + "\n"@ + utf8_lossy(stderr@),
    {
        let mut r = lossy_string(stdout);
        r.append("\n");
        let e = lossy_string(stderr);
        r.append(e.as_str());
        r
    }

    /// The arguments of `docker-compose logs`: the number of last lines when
    /// given, then the container when given.
    pub fn logs_args(container_name: Option<&str>, tail: Option<usize>) -> (r: Vec<String>)
        ensures
            r@.map_values(|s: String| s@) == seq!["logs"@] + (match tail {
                Some(n) => seq!["--tail"@, crate::text::nat_text(n as nat)],
                None => Seq::empty(),
            }) + (match container_name {
                Some(c) => seq![c@],
                None => Seq::empty(),
            }),
    {
        let mut r: Vec<String> = Vec::new();
        r.push("logs".to_string());
        match tail {
            Some(n) => {
                r.push("--tail".to_string());
                r.push(crate::text::u64_string(n as u64));
            },
            None => {},
        }
        match container_name {
            Some(c) => r.push(c.to_string()),
            None => {},
        }
        assert(r@.map_values(|s: String| s@) =~= seq!["logs"@] + (match tail {
            Some(n) => seq!["--tail"@, crate::text::nat_text(n as nat)],
            None => Seq::empty(),
        }) + (match container_name {
            Some(c) => seq![c@],
            None => Seq::empty(),
        }));
        r
    }

    /// A line of a command's output, marked with the stream it came from.
    pub fn stream_line(from_stdout: bool, line: &str) -> (r: String)
        ensures
            r@ == (if from_stdout {
                "stdout: "@
            } else {
                "stderr: "@
            }) + line@,
    {
        let mut r = String::new();
        if from_stdout {
            r.append("stdout: ");
        } else {
            r.append("stderr: ");
        }
        r.append(line);
        r
    }

    /// The path a project file is written to in a volume directory.
    pub fn volume_file_path(vol_dir: &str, file: &ProjectFileInfo) -> (r: String)
        ensures
            r@ == volume_file_spec(vol_dir@, file.directory@, file.name@),
    {
        let v = chars_of(vol_dir);
        let n = chars_of(file.name.as_str());
        if file.directory.as_str().is_empty() {
            let p = join_path_chars(v.as_slice(), n.as_slice());
            string_of(p.as_slice())
        } else {
            let d = chars_of(file.directory.as_str());
            let vd = join_path_chars(v.as_slice(), d.as_slice());
            let p = join_path_chars(vd.as_slice(), n.as_slice());
            string_of(p.as_slice())
        }
    }

    /// The directory of a project file inside its container: `/app`, or
    /// `/app/<directory>` when the file has a directory.
    pub fn container_file_dir(directory: Option<&str>) -> (r: String)
        ensures
            r@ == match directory {
                Some(d) => if d@.len() > 0 {
                    "/app/"@ + d@
                } else {
                    "/app"@
                },
                None => "/app"@,
            },
    {
        let mut r = String::new();
        r.append("/app");
        match directory {
            Some(d) => {
                if !d.is_empty() {
                    r.append("/");
                    r.append(d);
                    proof {
                        reveal_strlit("/app");
                        reveal_strlit("/");
                        reveal_strlit("/app/");
                        assert(r@ =~= "/app/"@ + d@);
                    }
                }
            },
            None => {},
        }
        r
    }

    /// The destination of `docker cp`: `<container>:<path>`.
    pub fn copy_destination(container: &str, path: &str) -> (r: String)
        ensures
            r@ == container@ + ":"@ + path@,
    {
        let mut r = container.to_string();
        r.append(":");
        r.append(path);
        r
    }

    /// The report of a refreshed file.
    pub fn refresh_message(name: &str, path: &str) -> (r: String)
        ensures
            r@ == "File "@ + name@ + " refreshed at "@ + path@,
    {
        let mut r = String::new();
        r.append("File ");
        r.append(name);
        r.append(" refreshed at ");
        r.append(path);
        r
    }

    /// The Dockerfile name of each configuration but the compose entry
    /// (`dockerfile-<id>`, by configuration id) and, in order, the name of each
    /// such configuration's container (`<user>-<project>-<id>`).
    pub fn deployment_names(user_id: i64, project_id: i64, configs: &Vec<ProjectContainerConfig>) -> (r: (
        HashMap<i64, String>,
        Vec<String>,
    ))
        ensures
            forall|id: i64|
                r.0@.dom().contains(id) <==> exists|k: int|
                    0 <= k < deployed_configs(configs@).len() && #[trigger] deployed_configs(configs@)[k].id == id,
            forall|id: i64|
                #[trigger] r.0@.dom().contains(id) ==> r.0@[id]@ == "dockerfile-"@ + crate::text::int_text(
                    id as int,
                ),
            r.1@.len() == deployed_configs(configs@).len(),
            forall|k: int|
                0 <= k < r.1@.len() ==> (#[trigger] r.1@[k])@ == container_name_spec(
                    user_id,
                    project_id,
                    deployed_configs(configs@)[k].id,
                ),
    {
        broadcast use vstd::std_specs::hash::group_hash_axioms;

        let mut names: HashMap<i64, String> = HashMap::new();
        let mut containers: Vec<String> = Vec::new();
        let mut i: usize = 0;
        while i < configs.len()
            invariant
                0 <= i <= configs.len(),
                forall|id: i64|
                    names@.dom().contains(id) <==> exists|k: int|
                        0 <= k < deployed_configs(configs@.take(i as int)).len()
                            && #[trigger] deployed_configs(configs@.take(i as int))[k].id == id,
                forall|id: i64|
                    #[trigger] names@.dom().contains(id) ==> names@[id]@ == "dockerfile-"@
                        + crate::text::int_text(id as int),
                containers@.len() == deployed_configs(configs@.take(i as int)).len(),
                forall|k: int|
                    0 <= k < containers@.len() ==> (#[trigger] containers@[k])@ == container_name_spec(
                        user_id,
                        project_id,
                        deployed_configs(configs@.take(i as int))[k].id,
                    ),
            decreases configs.len() - i,
        {
            let ghost d0 = deployed_configs(configs@.take(i as int));
            proof {
                assert(configs@.take(i + 1).drop_last() =~= configs@.take(i as int));
                assert(configs@.take(i + 1).last() == configs@[i as int]);
            }
            let c = &configs[i];
            if !is_compose_config(c) {
                let ghost n0 = names@;
                names.insert(c.id, dockerfile_name(c.id));
                containers.push(format_container_name(user_id, project_id, c.id));
                proof {
                    let d1 = deployed_configs(configs@.take(i + 1));
                    assert(d1 == d0.push(*c));
                    assert forall|id: i64|
                        names@.dom().contains(id) <==> exists|k: int|
                            0 <= k < d1.len() && #[trigger] d1[k].id == id by {
                        if names@.dom().contains(id) {
                            if id == c.id {
                                assert(d1[d0.len() as int].id == id);
                            } else {
                                assert(n0.dom().contains(id));
                                let k = choose|k: int| 0 <= k < d0.len() && #[trigger] d0[k].id == id;
                                assert(d1[k] == d0[k]);
                            }
                        }
                        if exists|k: int| 0 <= k < d1.len() && #[trigger] d1[k].id == id {
                            let k = choose|k: int| 0 <= k < d1.len() && #[trigger] d1[k].id == id;
                            if k < d0.len() {
                                assert(d0[k] == d1[k]);
                            }
                        }
                    }
                    assert forall|k: int| 0 <= k < containers@.len() implies (#[trigger] containers@[k])@
                        == container_name_spec(user_id, project_id, d1[k].id) by {
                        if k < d0.len() {
                            assert(d1[k] == d0[k]);
                        }
                    }
                }
            } else {
                assert(deployed_configs(configs@.take(i + 1)) == d0);
            }
            i = i + 1;
        }
        assert(configs@.take(configs.len() as int) =~= configs@);
        (names, containers)
    }
}

} // verus!
