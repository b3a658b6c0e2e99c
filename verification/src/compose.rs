//! The Dockerfile and docker-compose configuration generated for a project's
//! debug containers.
use vstd::prelude::*;
use std::collections::HashMap;
use crate::text::{
    chars_eq, chars_of, contains_chars, contains_seq, extend_chars, extend_str, has_prefix,
    int_text, split_char, split_chars, starts_with, string_of, trim, trim_chars, slice_chars,
};
use crate::paths::{
    container_name_chars, container_name_spec, join_path, join_path_chars, volume_dir_chars,
    volume_dir_spec,
};

verus! {

/// The stored configuration of one debug container, as far as deployment
/// reads it.
pub struct ProjectContainerConfig {
    pub id: i64,
    pub container_name: String,
    pub image_name: String,
    /// Comma-separated port specs, `host:container` or `container`.
    pub published_ports: String,
    /// Comma-separated `host:container` volume specs.
    pub volumes: String,
    /// Comma-separated `KEY=VALUE` pairs.
    pub environment: String,
    pub working_dir: String,
    pub command: String,
}

/// The build section of a compose service.
pub struct BuildConfig {
    pub context: String,
    pub dockerfile: String,
}

/// One service of a compose file.
pub struct DockerComposeService {
    pub image: String,
    pub build: Option<BuildConfig>,
    pub ports: Vec<String>,
    pub volumes: Vec<String>,
    pub environment: Vec<String>,
    pub command: Option<String>,
    pub working_dir: Option<String>,
    pub restart: String,
    pub privileged: Option<bool>,
    pub stdin_open: Option<bool>,
    pub tty: Option<bool>,
    pub networks: Option<Vec<String>>,
    pub container_name: Option<String>,
}

/// One network of a compose file.
pub struct DockerComposeNetwork {
    pub driver: Option<String>,
    pub external: Option<bool>,
    pub name: Option<String>,
}

/// One named volume of a compose file.
pub struct DockerComposeVolume {
    pub driver: Option<String>,
}

/// A compose file; each map is a list of distinct keys with their values.
pub struct DockerComposeConfig {
    pub version: String,
    pub services: Vec<(String, DockerComposeService)>,
    pub networks: Vec<(String, DockerComposeNetwork)>,
    pub volumes: Vec<(String, DockerComposeVolume)>,
}

/// A project file and, when read, its content.
pub struct ProjectFileInfo {
    pub id: i64,
    pub name: String,
    pub directory: String,
    pub content: Option<String>,
}

/// What generating a project's deployment needs.
pub struct ProjectDeploymentContext {
    pub user_id: i64,
    pub project_id: i64,
    pub project_name: String,
    pub agent_id: Option<i64>,
    pub model_id: Option<i64>,
    pub container_configs: Vec<ProjectContainerConfig>,
    pub project_files: Vec<ProjectFileInfo>,
    pub container_name: String,
    pub mcp_server_url: String,
    pub debug_dir: String,
}

/// The configuration entry that stores the generated compose file itself.
pub open spec fn is_compose_entry(c: ProjectContainerConfig) -> bool {
    c.container_name@ == "docker-compose.yml"@
}

/// Whether a configuration entry stores the compose file rather than a container.
pub fn is_compose_config(c: &ProjectContainerConfig) -> (b: bool)
    ensures
        b == is_compose_entry(*c),
{
    let a = chars_of(c.container_name.as_str());
    let b = chars_of("docker-compose.yml");
    chars_eq(a.as_slice(), b.as_slice())
}

/// Position of the first entry that stores the compose file.
pub open spec fn compose_entry_position(cs: Seq<ProjectContainerConfig>) -> int
    decreases cs.len(),
{
    if cs.len() == 0 {
        -1
    } else if is_compose_entry(cs[0]) {
        0
    } else {
        let r = compose_entry_position(cs.drop_first());
        if r < 0 {
            -1
        } else {
            r + 1
        }
    }
}

/// The position of the first entry that stores the compose file, if any.
pub fn find_compose_entry(configs: &Vec<ProjectContainerConfig>) -> (r: Option<usize>)
    ensures
        match r {
            Some(i) => i as int == compose_entry_position(configs@),
            None => compose_entry_position(configs@) < 0,
        },
{
    let mut i: usize = 0;
    assert(configs@.subrange(0, configs@.len() as int) =~= configs@);
    while i < configs.len()
        invariant
            0 <= i <= configs.len(),
            compose_entry_position(configs@) == (if compose_entry_position(
                configs@.subrange(i as int, configs@.len() as int),
            ) < 0 {
                -1
            } else {
                compose_entry_position(configs@.subrange(i as int, configs@.len() as int)) + i
            }),
        decreases configs.len() - i,
    {
        let ghost rest = configs@.subrange(i as int, configs@.len() as int);
        assert(rest[0] == configs@[i as int]);
        assert(rest.drop_first() =~= configs@.subrange(i + 1, configs@.len() as int));
        if is_compose_config(&configs[i]) {
            return Some(i);
        }
        i = i + 1;
    }
    assert(configs@.subrange(i as int, configs@.len() as int) =~= Seq::<ProjectContainerConfig>::empty());
    None
}

/// A new entry that stores a generated compose file: id 0, named
/// `docker-compose.yml`, the file's text as its command, every other field
/// empty.
pub fn new_compose_entry(content: String) -> (c: ProjectContainerConfig)
    ensures
        c.id == 0,
        is_compose_entry(c),
        c.command@ == content@,
        c.image_name@.len() == 0,
        c.published_ports@.len() == 0,
        c.volumes@.len() == 0,
        c.environment@.len() == 0,
        c.working_dir@.len() == 0,
{
    ProjectContainerConfig {
        id: 0,
        container_name: "docker-compose.yml".to_string(),
        image_name: String::new(),
        published_ports: String::new(),
        volumes: String::new(),
        environment: String::new(),
        working_dir: String::new(),
        command: content,
    }
}

/// A copy of a configuration.
pub fn copy_config(c: &ProjectContainerConfig) -> (r: ProjectContainerConfig)
    ensures
        r == *c,
{
    ProjectContainerConfig {
        id: c.id,
        container_name: c.container_name.clone(),
        image_name: c.image_name.clone(),
        published_ports: c.published_ports.clone(),
        volumes: c.volumes.clone(),
        environment: c.environment.clone(),
        working_dir: c.working_dir.clone(),
        command: c.command.clone(),
    }
}

// ----- comma-separated lists -------------------------------------------------

/// The trimmed, non-empty items of a comma-separated list.
pub open spec fn list_items(pieces: Seq<Seq<char>>) -> Seq<Seq<char>>
    decreases pieces.len(),
{
    if pieces.len() == 0 {
        Seq::empty()
    } else {
        let r = list_items(pieces.drop_last());
        let t = trim(pieces.last());
        if t.len() > 0 {
            r.push(t)
        } else {
            r
        }
    }
}

/// The items of a comma-separated field; an empty field has none.
pub open spec fn csv_items(s: Seq<char>) -> Seq<Seq<char>> {
    if s.len() == 0 {
        Seq::empty()
    } else {
        list_items(split_char(s, ','))
    }
}

/// The trimmed, non-empty items of a comma-separated field.
pub fn csv_items_exec(s: &str) -> (out: Vec<Vec<char>>)
    ensures
        out@.len() == csv_items(s@).len(),
        forall|k: int| 0 <= k < out@.len() ==> #[trigger] out@[k]@ == csv_items(s@)[k],
{
    let cs = chars_of(s);
    let mut out: Vec<Vec<char>> = Vec::new();
    if cs.len() == 0 {
        return out;
    }
    let pieces = split_chars(cs.as_slice(), ',');
    let ghost ps = split_char(s@, ',');
    let mut i: usize = 0;
    while i < pieces.len()
        invariant
            0 <= i <= pieces.len(),
            cs@ == s@,
            pieces@.len() == ps.len(),
            forall|k: int| 0 <= k < pieces@.len() ==> #[trigger] pieces@[k]@ == ps[k],
            out@.len() == list_items(ps.take(i as int)).len(),
            forall|k: int|
                0 <= k < out@.len() ==> #[trigger] out@[k]@ == list_items(ps.take(i as int))[k],
        decreases pieces.len() - i,
    {
        proof {
            assert(ps.take(i + 1).drop_last() =~= ps.take(i as int));
            assert(ps.take(i + 1).last() == ps[i as int]);
        }
        let t = trim_chars(pieces[i].as_slice());
        if t.len() > 0 {
            out.push(t);
        }
        i = i + 1;
    }
    assert(ps.take(pieces.len() as int) =~= ps);
    out
}

fn strings_of(v: &Vec<Vec<char>>) -> (out: Vec<String>)
    ensures
        out@.len() == v@.len(),
        forall|k: int| 0 <= k < out@.len() ==> #[trigger] out@[k]@ == v@[k]@,
{
    let mut out: Vec<String> = Vec::new();
    let mut i: usize = 0;
    while i < v.len()
        invariant
            0 <= i <= v.len(),
            out@.len() == i,
            forall|k: int| 0 <= k < i ==> #[trigger] out@[k]@ == v@[k]@,
        decreases v.len() - i,
    {
        out.push(string_of(v[i].as_slice()));
        i = i + 1;
    }
    out
}

/// The container side of a port spec: what follows its last `:`, or the
/// whole spec.
pub open spec fn port_of(item: Seq<char>) -> Seq<char> {
    if item.contains(':') {
        split_char(item, ':').last()
    } else {
        item
    }
}

fn port_of_exec(item: &[char]) -> (out: Vec<char>)
    ensures
        out@ == port_of(item@),
{
    let mut has_colon = false;
    let mut i: usize = 0;
    while i < item.len()
        invariant
            0 <= i <= item.len(),
            has_colon == exists|k: int| 0 <= k < i && item@[k] == ':',
        decreases item.len() - i,
    {
        if item[i] == ':' {
            has_colon = true;
        }
        i = i + 1;
    }
    if has_colon {
        let pieces = split_chars(item, ':');
        proof {
            crate::text::lemma_split_len(item@, ':');
        }
        let last = &pieces[pieces.len() - 1];
        slice_chars(last.as_slice(), 0, last.len())
    } else {
        slice_chars(item, 0, item.len())
    }
}

/// The container ports a service publishes.
pub open spec fn ports_spec(published: Seq<char>) -> Seq<Seq<char>> {
    csv_items(published).map_values(|it: Seq<char>| port_of(it))
}

/// The container ports listed in a published-ports field.
pub fn parse_ports(published: &str) -> (out: Vec<String>)
    ensures
        out@.len() == ports_spec(published@).len(),
        forall|k: int| 0 <= k < out@.len() ==> #[trigger] out@[k]@ == ports_spec(published@)[k],
{
    let items = csv_items_exec(published);
    let mut out: Vec<String> = Vec::new();
    let mut i: usize = 0;
    while i < items.len()
        invariant
            0 <= i <= items.len(),
            items@.len() == csv_items(published@).len(),
            forall|k: int| 0 <= k < items@.len() ==> #[trigger] items@[k]@ == csv_items(published@)[k],
            out@.len() == i,
            forall|k: int| 0 <= k < i ==> #[trigger] out@[k]@ == port_of(csv_items(published@)[k]),
        decreases items.len() - i,
    {
        let p = port_of_exec(items[i].as_slice());
        out.push(string_of(p.as_slice()));
        i = i + 1;
    }
    out
}

// ----- volumes ---------------------------------------------------------------

/// `s` without trailing `c` characters.
pub open spec fn trim_end_char(s: Seq<char>, c: char) -> Seq<char>
    decreases s.len(),
{
    if s.len() > 0 && s.last() == c {
        trim_end_char(s.drop_last(), c)
    } else {
        s
    }
}

fn trim_end_char_exec(s: &[char], c: char) -> (out: Vec<char>)
    ensures
        out@ == trim_end_char(s@, c),
{
    let mut j: usize = s.len();
    assert(s@.subrange(0, s@.len() as int) =~= s@);
    while j > 0 && s[j - 1] == c
        invariant
            0 <= j <= s.len(),
            trim_end_char(s@, c) == trim_end_char(s@.subrange(0, j as int), c),
        decreases j,
    {
        assert(s@.subrange(0, j as int).drop_last() =~= s@.subrange(0, j - 1));
        j = j - 1;
    }
    slice_chars(s, 0, j)
}

/// A host path without trailing `/` and then without trailing `\`.
pub open spec fn clean_host(p: Seq<char>) -> Seq<char> {
    trim_end_char(trim_end_char(p, '/'), '\\')
}

/// The host side of a volume spec, made absolute: `./x` and relative paths
/// are taken inside the container's volume directory.
pub open spec fn host_path_spec(vol_dir: Seq<char>, host: Seq<char>) -> Seq<char> {
    if has_prefix(host, "./"@) || has_prefix(host, ".\\"@) {
        clean_host(join_path(vol_dir, host.subrange(2, host.len() as int)))
    } else if has_prefix(host, "/"@) || has_prefix(host, "\\"@) {
        clean_host(host)
    } else {
        clean_host(join_path(vol_dir, host))
    }
}

/// Index of the first `c` in `s`, or -1.
pub open spec fn first_index(s: Seq<char>, c: char) -> int
    decreases s.len(),
{
    if s.len() == 0 {
        -1
    } else if s[0] == c {
        0
    } else {
        let r = first_index(s.drop_first(), c);
        if r < 0 {
            -1
        } else {
            r + 1
        }
    }
}

/// A volume mapping of a service: the container path and the mount entry.
pub open spec fn volume_entry(vol_dir: Seq<char>, item: Seq<char>) -> Option<(Seq<char>, Seq<char>)> {
    let i = first_index(item, ':');
    if i < 0 {
        None
    } else {
        let host = item.subrange(0, i);
        let cpath = item.subrange(i + 1, item.len() as int);
        Some((cpath, host_path_spec(vol_dir, host) + ":"@ + cpath))
    }
}

/// `m` with `key` mapped to `val`: replaced in place when present, else
/// appended.
pub open spec fn upsert(m: Seq<(Seq<char>, Seq<char>)>, key: Seq<char>, val: Seq<char>) -> Seq<
    (Seq<char>, Seq<char>),
> {
    let i = key_index(m, key);
    if i >= 0 {
        m.update(i, (key, val))
    } else {
        m.push((key, val))
    }
}

/// Position of `key` among the keys of `m`, or -1.
pub open spec fn key_index(m: Seq<(Seq<char>, Seq<char>)>, key: Seq<char>) -> int
    decreases m.len(),
{
    if m.len() == 0 {
        -1
    } else {
        let r = key_index(m.drop_last(), key);
        if r >= 0 {
            r
        } else if m.last().0 == key {
            m.len() - 1
        } else {
            -1
        }
    }
}

/// The volume mappings of a service's spec items, keyed by container path.
pub open spec fn volume_map(vol_dir: Seq<char>, items: Seq<Seq<char>>) -> Seq<(Seq<char>, Seq<char>)>
    decreases items.len(),
{
    if items.len() == 0 {
        Seq::empty()
    } else {
        let m = volume_map(vol_dir, items.drop_last());
        match volume_entry(vol_dir, items.last()) {
            Some((k, v)) => upsert(m, k, v),
            None => m,
        }
    }
}

/// The volumes of a service: the configured mappings, plus the container's
/// volume directory at `/app` unless a mapping already targets `/app`.
pub open spec fn service_volumes(vol_dir: Seq<char>, volumes: Seq<char>) -> Seq<Seq<char>> {
    let m = volume_map(vol_dir, csv_items(volumes));
    let m2 = if key_index(m, "/app"@) >= 0 {
        m
    } else {
        m.push(("/app"@, clean_host(vol_dir) + ":/app"@))
    };
    m2.map_values(|e: (Seq<char>, Seq<char>)| e.1)
}

proof fn lemma_key_index_range(m: Seq<(Seq<char>, Seq<char>)>, key: Seq<char>)
    ensures
        -1 <= key_index(m, key) < m.len(),
        key_index(m, key) >= 0 ==> m[key_index(m, key)].0 == key,
        key_index(m, key) < 0 ==> forall|i: int| 0 <= i < m.len() ==> m[i].0 != key,
    decreases m.len(),
{
    if m.len() > 0 {
        lemma_key_index_range(m.drop_last(), key);
        assert forall|i: int| 0 <= i < m.len() - 1 implies m.drop_last()[i] == m[i] by {}
    }
}

proof fn lemma_key_index_first(m: Seq<(Seq<char>, Seq<char>)>, key: Seq<char>, i: int)
    requires
        0 <= i < m.len(),
        m[i].0 == key,
        forall|j: int| 0 <= j < i ==> m[j].0 != key,
    ensures
        key_index(m, key) == i,
    decreases m.len(),
{
    if i < m.len() - 1 {
        lemma_key_index_first(m.drop_last(), key, i);
    } else {
        lemma_key_index_range(m.drop_last(), key);
    }
}

fn key_index_exec(m: &Vec<(Vec<char>, Vec<char>)>, key: &[char], Ghost(mv): Ghost<
    Seq<(Seq<char>, Seq<char>)>,
>) -> (r: Option<usize>)
    requires
        mv.len() == m@.len(),
        forall|k: int| 0 <= k < m@.len() ==> #[trigger] m@[k].0@ == mv[k].0,
    ensures
        match r {
            Some(i) => key_index(mv, key@) == i as int && i < m@.len(),
            None => key_index(mv, key@) == -1,
        },
{
    proof {
        lemma_key_index_range(mv, key@);
    }
    let mut i: usize = 0;
    while i < m.len()
        invariant
            0 <= i <= m.len(),
            mv.len() == m@.len(),
            forall|k: int| 0 <= k < m@.len() ==> #[trigger] m@[k].0@ == mv[k].0,
            forall|j: int| 0 <= j < i ==> mv[j].0 != key@,
        decreases m.len() - i,
    {
        if chars_eq(m[i].0.as_slice(), key) {
            proof {
                lemma_key_index_first(mv, key@, i as int);
            }
            return Some(i);
        }
        i = i + 1;
    }
    proof {
        lemma_key_index_range(mv, key@);
        if key_index(mv, key@) >= 0 {
            assert(mv[key_index(mv, key@)].0 == key@);
        }
    }
    None
}

pub(crate) fn first_index_exec(s: &[char], c: char) -> (r: Option<usize>)
    ensures
        match r {
            Some(i) => first_index(s@, c) == i as int && i < s.len(),
            None => first_index(s@, c) == -1,
        },
{
    let mut i: usize = 0;
    assert(s@.subrange(0, s@.len() as int) =~= s@);
    while i < s.len()
        invariant
            0 <= i <= s.len(),
            first_index(s@, c) == (if first_index(s@.subrange(i as int, s@.len() as int), c) < 0 {
                -1
            } else {
                first_index(s@.subrange(i as int, s@.len() as int), c) + i
            }),
        decreases s.len() - i,
    {
        let ghost rest = s@.subrange(i as int, s@.len() as int);
        assert(rest.drop_first() =~= s@.subrange(i + 1, s@.len() as int));
        if s[i] == c {
            assert(rest[0] == c);
            return Some(i);
        }
        i = i + 1;
    }
    assert(s@.subrange(s@.len() as int, s@.len() as int) =~= Seq::<char>::empty());
    None
}

fn host_path_exec(vol_dir: &[char], host: &[char]) -> (out: Vec<char>)
    ensures
        out@ == host_path_spec(vol_dir@, host@),
{
    let dot_slash = chars_of("./");
    let dot_back = chars_of(".\\");
    let slash = chars_of("/");
    let back = chars_of("\\");
    proof {
        reveal_strlit("./");
        reveal_strlit(".\\");
        reveal_strlit("/");
        reveal_strlit("\\");
    }
    let joined = if starts_with(host, dot_slash.as_slice()) || starts_with(host, dot_back.as_slice()) {
        let rel = slice_chars(host, 2, host.len());
        join_path_chars(vol_dir, rel.as_slice())
    } else if starts_with(host, slash.as_slice()) || starts_with(host, back.as_slice()) {
        slice_chars(host, 0, host.len())
    } else {
        join_path_chars(vol_dir, host)
    };
    assert(host@.subrange(0, host@.len() as int) =~= host@);
    let a = trim_end_char_exec(joined.as_slice(), '/');
    trim_end_char_exec(a.as_slice(), '\\')
}

/// The volume entries of a service.
pub fn service_volumes_exec(vol_dir: &[char], volumes: &str) -> (out: Vec<String>)
    ensures
        out@.len() == service_volumes(vol_dir@, volumes@).len(),
        forall|k: int|
            0 <= k < out@.len() ==> #[trigger] out@[k]@ == service_volumes(vol_dir@, volumes@)[k],
{
    let items = csv_items_exec(volumes);
    let ghost its = csv_items(volumes@);
    let mut m: Vec<(Vec<char>, Vec<char>)> = Vec::new();
    let ghost mut mv: Seq<(Seq<char>, Seq<char>)> = Seq::empty();
    let mut i: usize = 0;
    while i < items.len()
        invariant
            0 <= i <= items.len(),
            items@.len() == its.len(),
            forall|k: int| 0 <= k < items@.len() ==> #[trigger] items@[k]@ == its[k],
            mv == volume_map(vol_dir@, its.take(i as int)),
            mv.len() == m@.len(),
            forall|k: int| 0 <= k < m@.len() ==> (#[trigger] m@[k]).0@ == mv[k].0 && m@[k].1@ == mv[k].1,
        decreases items.len() - i,
    {
        proof {
            assert(its.take(i + 1).drop_last() =~= its.take(i as int));
            assert(its.take(i + 1).last() == its[i as int]);
        }
        let item = &items[i];
        match first_index_exec(item.as_slice(), ':') {
            None => {},
            Some(ci) => {
                let host = slice_chars(item.as_slice(), 0, ci);
                let cpath = slice_chars(item.as_slice(), ci + 1, item.len());
                let mut entry = host_path_exec(vol_dir, host.as_slice());
                extend_str(&mut entry, ":");
                extend_chars(&mut entry, cpath.as_slice());
                let ghost kv = (cpath@, entry@);
                assert(volume_entry(vol_dir@, its[i as int]) == Some(kv));
                match key_index_exec(&m, cpath.as_slice(), Ghost(mv)) {
                    Some(j) => {
                        m.set(j, (cpath, entry));
                        proof {
                            mv = mv.update(j as int, kv);
                        }
                    },
                    None => {
                        m.push((cpath, entry));
                        proof {
                            mv = mv.push(kv);
                        }
                    },
                }
            },
        }
        i = i + 1;
    }
    assert(its.take(items.len() as int) =~= its);
    let app = chars_of("/app");
    match key_index_exec(&m, app.as_slice(), Ghost(mv)) {
        Some(_) => {},
        None => {
            let a = trim_end_char_exec(vol_dir, '/');
            let mut entry = trim_end_char_exec(a.as_slice(), '\\');
            extend_str(&mut entry, ":/app");
            m.push((app, entry));
            proof {
                mv = mv.push(("/app"@, clean_host(vol_dir@) + ":/app"@));
            }
        },
    }
    let mut out: Vec<String> = Vec::new();
    let mut k: usize = 0;
    while k < m.len()
        invariant
            0 <= k <= m.len(),
            mv.len() == m@.len(),
            forall|q: int| 0 <= q < m@.len() ==> (#[trigger] m@[q]).0@ == mv[q].0 && m@[q].1@ == mv[q].1,
            mv.map_values(|e: (Seq<char>, Seq<char>)| e.1) == service_volumes(vol_dir@, volumes@),
            out@.len() == k,
            forall|q: int| 0 <= q < k ==> #[trigger] out@[q]@ == mv[q].1,
        decreases m.len() - k,
    {
        out.push(string_of(m[k].1.as_slice()));
        k = k + 1;
    }
    out
}

// ----- environment and Dockerfile -------------------------------------------

/// The environment of a service: the configured pairs, then the project and
/// user ids.
pub open spec fn service_env(environment: Seq<char>, user_id: i64, project_id: i64) -> Seq<Seq<char>> {
    csv_items(environment).push("PROJECT_ID="@ + int_text(project_id as int)).push(
        "USER_ID="@ + int_text(user_id as int),
    )
}

/// The environment entries of a service.
pub fn service_env_exec(environment: &str, user_id: i64, project_id: i64) -> (out: Vec<String>)
    ensures
        out@.len() == service_env(environment@, user_id, project_id).len(),
        forall|k: int|
            0 <= k < out@.len() ==> #[trigger] out@[k]@ == service_env(
                environment@,
                user_id,
                project_id,
            )[k],
{
    let items = csv_items_exec(environment);
    let mut out = strings_of(&items);
    let mut p = chars_of("PROJECT_ID=");
    let pd = crate::text::i64_chars(project_id);
    extend_chars(&mut p, pd.as_slice());
    out.push(string_of(p.as_slice()));
    let mut u = chars_of("USER_ID=");
    let ud = crate::text::i64_chars(user_id);
    extend_chars(&mut u, ud.as_slice());
    out.push(string_of(u.as_slice()));
    out
}

/// The lines `ENV <item>` of a Dockerfile.
pub open spec fn env_lines(items: Seq<Seq<char>>) -> Seq<char>
    decreases items.len(),
{
    if items.len() == 0 {
        Seq::empty()
    } else {
        env_lines(items.drop_last()) + "ENV "@ + items.last() + "\n"@
    }
}

/// The Dockerfile of a container: the debug base image, its working
/// directory, and its environment.
pub open spec fn dockerfile_spec(working_dir: Seq<char>, environment: Seq<char>) -> Seq<char> {
    "FROM app-debug-base:latest\n\n"@ + (if working_dir.len() > 0 {
        "WORKDIR "@ + working_dir + "\n\n"@
    } else {
        Seq::empty()
    }) + (if environment.len() > 0 {
        "# Environment variables\n"@ + env_lines(csv_items(environment)) + "\n"@
    } else {
        Seq::empty()
    })
}

/// The Dockerfile text for a container configuration.
pub fn generate_dockerfile_content(config: &ProjectContainerConfig) -> (s: String)
    ensures
        s@ == dockerfile_spec(config.working_dir@, config.environment@),
{
    let mut v = chars_of("FROM app-debug-base:latest\n\n");
    let ghost a = v@;
    let wd = chars_of(config.working_dir.as_str());
    if wd.len() > 0 {
        extend_str(&mut v, "WORKDIR ");
        extend_chars(&mut v, wd.as_slice());
        extend_str(&mut v, "\n\n");
    }
    let ghost b = v@;
    let env = chars_of(config.environment.as_str());
    if env.len() > 0 {
        extend_str(&mut v, "# Environment variables\n");
        let ghost c = v@;
        let items = csv_items_exec(config.environment.as_str());
        let ghost its = csv_items(config.environment@);
        let mut i: usize = 0;
        while i < items.len()
            invariant
                0 <= i <= items.len(),
                items@.len() == its.len(),
                forall|k: int| 0 <= k < items@.len() ==> #[trigger] items@[k]@ == its[k],
                v@ == c + env_lines(its.take(i as int)),
            decreases items.len() - i,
        {
            proof {
                assert(its.take(i + 1).drop_last() =~= its.take(i as int));
            }
            extend_str(&mut v, "ENV ");
            extend_chars(&mut v, items[i].as_slice());
            extend_str(&mut v, "\n");
            assert(v@ =~= c + env_lines(its.take(i + 1)));
            i = i + 1;
        }
        assert(its.take(items.len() as int) =~= its);
        extend_str(&mut v, "\n");
    }
    assert(v@ =~= dockerfile_spec(config.working_dir@, config.environment@));
    string_of(v.as_slice())
}

/// The file name a container's Dockerfile is written under.
pub fn dockerfile_name(config_id: i64) -> (s: String)
    ensures
        s@ == "dockerfile-"@ + int_text(config_id as int),
{
    let mut v = chars_of("dockerfile-");
    let d = crate::text::i64_chars(config_id);
    extend_chars(&mut v, d.as_slice());
    string_of(v.as_slice())
}

// ----- the compose file ------------------------------------------------------

pub open spec fn opt_str_view(o: Option<String>) -> Option<Seq<char>> {
    match o {
        Some(s) => Some(s@),
        None => None,
    }
}

/// The Dockerfile name registered for a configuration id, when one is.
pub open spec fn dockerfile_for(names: Map<i64, String>, id: i64) -> Option<Seq<char>> {
    if names.dom().contains(id) {
        Some(names[id]@)
    } else {
        None
    }
}

/// The name of the network shared by a project's containers.
pub open spec fn project_network(ctx: ProjectDeploymentContext) -> Seq<char> {
    container_name_spec(ctx.user_id, ctx.project_id, 0)
}

/// The outside network that the workspace service is attached to.
pub open spec fn external_network() -> Seq<char> {
    "rust-saas_default"@
}

/// `s` is the service generated for configuration `c`.
pub open spec fn is_service_for(
    s: DockerComposeService,
    ctx: ProjectDeploymentContext,
    c: ProjectContainerConfig,
    dockerfile: Option<Seq<char>>,
) -> bool {
    let vol_dir = volume_dir_spec(ctx.user_id, ctx.project_id, c.container_name@);
    &&& s.image@ == "app-debug-base:latest"@
    &&& match (s.build, dockerfile) {
        (Some(b), Some(d)) => b.context@ == "."@ && b.dockerfile@ == d,
        (None, None) => true,
        _ => false,
    }
    &&& s.ports@.map_values(|p: String| p@) == ports_spec(c.published_ports@)
    &&& s.volumes@.map_values(|p: String| p@) == service_volumes(vol_dir, c.volumes@)
    &&& s.environment@.map_values(|p: String| p@) == service_env(
        c.environment@,
        ctx.user_id,
        ctx.project_id,
    )
    &&& s.command is None
    &&& opt_str_view(s.working_dir) == (if c.working_dir@.len() == 0 {
        None
    } else {
        Some(c.working_dir@)
    })
    &&& s.restart@ == "unless-stopped"@
    &&& s.privileged == Some(true)
    &&& s.stdin_open == Some(true)
    &&& s.tty == Some(true)
    &&& s.networks is Some
    &&& s.networks->0@.map_values(|p: String| p@) == seq![project_network(ctx), external_network()]
    &&& opt_str_view(s.container_name) == Some(container_name_spec(ctx.user_id, ctx.project_id, c.id))
}

/// Position of `key` among the keys of `m`, or -1.
pub open spec fn service_index(m: Seq<(Seq<char>, int)>, key: Seq<char>) -> int
    decreases m.len(),
{
    if m.len() == 0 {
        -1
    } else {
        let r = service_index(m.drop_last(), key);
        if r >= 0 {
            r
        } else if m.last().0 == key {
            m.len() - 1
        } else {
            -1
        }
    }
}

/// Service names with the configuration each comes from: each container
/// configuration in turn (the compose entry skipped) under its id, a later
/// configuration with the same id replacing an earlier one in place.
pub open spec fn service_slots(cs: Seq<ProjectContainerConfig>) -> Seq<(Seq<char>, int)>
    decreases cs.len(),
{
    if cs.len() == 0 {
        Seq::empty()
    } else {
        let m = service_slots(cs.drop_last());
        let c = cs.last();
        if is_compose_entry(c) {
            m
        } else {
            let key = int_text(c.id as int);
            let i = service_index(m, key);
            if i >= 0 {
                m.update(i, (key, cs.len() - 1))
            } else {
                m.push((key, cs.len() - 1))
            }
        }
    }
}

proof fn lemma_service_index_range(m: Seq<(Seq<char>, int)>, key: Seq<char>)
    ensures
        -1 <= service_index(m, key) < m.len(),
        service_index(m, key) >= 0 ==> m[service_index(m, key)].0 == key,
        service_index(m, key) < 0 ==> forall|i: int| 0 <= i < m.len() ==> m[i].0 != key,
    decreases m.len(),
{
    if m.len() > 0 {
        lemma_service_index_range(m.drop_last(), key);
        assert forall|i: int| 0 <= i < m.len() - 1 implies m.drop_last()[i] == m[i] by {}
    }
}

proof fn lemma_service_index_first(m: Seq<(Seq<char>, int)>, key: Seq<char>, i: int)
    requires
        0 <= i < m.len(),
        m[i].0 == key,
        forall|j: int| 0 <= j < i ==> m[j].0 != key,
    ensures
        service_index(m, key) == i,
    decreases m.len(),
{
    if i < m.len() - 1 {
        lemma_service_index_first(m.drop_last(), key, i);
    } else {
        lemma_service_index_range(m.drop_last(), key);
    }
}

proof fn lemma_service_slots_range(cs: Seq<ProjectContainerConfig>)
    ensures
        forall|k: int|
            0 <= k < service_slots(cs).len() ==> 0 <= #[trigger] service_slots(cs)[k].1 < cs.len(),
    decreases cs.len(),
{
    if cs.len() > 0 {
        lemma_service_slots_range(cs.drop_last());
        let m = service_slots(cs.drop_last());
        let key = int_text(cs.last().id as int);
        lemma_service_index_range(m, key);
    }
}

fn dockerfile_lookup(names: &HashMap<i64, String>, id: i64) -> (r: Option<String>)
    ensures
        opt_str_view(r) == dockerfile_for(names@, id),
{
    broadcast use vstd::std_specs::hash::group_hash_axioms;

    match names.get(&id) {
        Some(n) => Some(n.clone()),
        None => None,
    }
}

fn network_names(ctx: &ProjectDeploymentContext) -> (r: Vec<String>)
    ensures
        r@.map_values(|p: String| p@) == seq![project_network(*ctx), external_network()],
{
    let a = container_name_chars(ctx.user_id, ctx.project_id, 0);
    let mut r: Vec<String> = Vec::new();
    r.push(string_of(a.as_slice()));
    r.push(String::from_str("rust-saas_default"));
    assert(r@.map_values(|p: String| p@) =~= seq![project_network(*ctx), external_network()]);
    r
}

/// The service generated for one container configuration.
pub fn build_service(
    ctx: &ProjectDeploymentContext,
    c: &ProjectContainerConfig,
    dockerfile_names: &HashMap<i64, String>,
) -> (s: DockerComposeService)
    ensures
        is_service_for(s, *ctx, *c, dockerfile_for(dockerfile_names@, c.id)),
{
    let vol_dir = volume_dir_chars(ctx.user_id, ctx.project_id, c.container_name.as_str());
    let ports = parse_ports(c.published_ports.as_str());
    assert(ports@.map_values(|p: String| p@) =~= ports_spec(c.published_ports@));
    let volumes = service_volumes_exec(vol_dir.as_slice(), c.volumes.as_str());
    assert(volumes@.map_values(|p: String| p@) =~= service_volumes(vol_dir@, c.volumes@));
    let environment = service_env_exec(c.environment.as_str(), ctx.user_id, ctx.project_id);
    assert(environment@.map_values(|p: String| p@) =~= service_env(
        c.environment@,
        ctx.user_id,
        ctx.project_id,
    ));
    let build = match dockerfile_lookup(dockerfile_names, c.id) {
        Some(name) => Some(BuildConfig { context: String::from_str("."), dockerfile: name }),
        None => None,
    };
    let wd = if c.working_dir.as_str().is_empty() {
        None
    } else {
        Some(c.working_dir.clone())
    };
    let name = container_name_chars(ctx.user_id, ctx.project_id, c.id);
    DockerComposeService {
        image: String::from_str("app-debug-base:latest"),
        build,
        ports,
        volumes,
        environment,
        command: None,
        working_dir: wd,
        restart: String::from_str("unless-stopped"),
        privileged: Some(true),
        stdin_open: Some(true),
        tty: Some(true),
        networks: Some(network_names(ctx)),
        container_name: Some(string_of(name.as_slice())),
    }
}

/// The compose file for a project's containers: one service per container
/// configuration, keyed by the configuration id, on the project network and
/// the workspace network.
pub fn generate_docker_compose_config(
    context: &ProjectDeploymentContext,
    dockerfile_names: &HashMap<i64, String>,
) -> (r: DockerComposeConfig)
    ensures
        r.version@ == "3.8"@,
        r.volumes@.len() == 0,
        r.networks@.len() == 2,
        r.networks@[0].0@ == project_network(*context),
        opt_str_view(r.networks@[0].1.driver) == Some("bridge"@),
        r.networks@[0].1.external is None,
        r.networks@[0].1.name is None,
        r.networks@[1].0@ == external_network(),
        r.networks@[1].1.driver is None,
        r.networks@[1].1.external == Some(true),
        opt_str_view(r.networks@[1].1.name) == Some(external_network()),
        ({
            let slots = service_slots(context.container_configs@);
            &&& r.services@.len() == slots.len()
            &&& forall|k: int|
                0 <= k < slots.len() ==> {
                    let c = context.container_configs@[slots[k].1];
                    &&& (#[trigger] r.services@[k]).0@ == slots[k].0
                    &&& is_service_for(
                        r.services@[k].1,
                        *context,
                        c,
                        dockerfile_for(dockerfile_names@, c.id),
                    )
                }
        }),
{
    let cs = &context.container_configs;
    let mut services: Vec<(String, DockerComposeService)> = Vec::new();
    let ghost mut slots: Seq<(Seq<char>, int)> = Seq::empty();
    let mut i: usize = 0;
    while i < cs.len()
        invariant
            0 <= i <= cs.len(),
            cs == &context.container_configs,
            slots == service_slots(cs@.take(i as int)),
            services@.len() == slots.len(),
            forall|k: int| 0 <= k < slots.len() ==> 0 <= #[trigger] slots[k].1 < i,
            forall|k: int|
                0 <= k < slots.len() ==> {
                    let c = cs@[slots[k].1];
                    &&& (#[trigger] services@[k]).0@ == slots[k].0
                    &&& is_service_for(
                        services@[k].1,
                        *context,
                        c,
                        dockerfile_for(dockerfile_names@, c.id),
                    )
                },
        decreases cs.len() - i,
    {
        proof {
            assert(cs@.take(i + 1).drop_last() =~= cs@.take(i as int));
            assert(cs@.take(i + 1).last() == cs@[i as int]);
            lemma_service_slots_range(cs@.take(i as int));
        }
        let c = &cs[i];
        if !is_compose_config(c) {
            let key_chars = crate::text::i64_chars(c.id);
            let svc = build_service(context, c, dockerfile_names);
            let ghost key = int_text(c.id as int);
            // find an existing service with the same key
            let mut j: usize = 0;
            let mut found: Option<usize> = None;
            while j < services.len()
                invariant
                    0 <= j <= services.len(),
                    services@.len() == slots.len(),
                    forall|k: int| 0 <= k < slots.len() ==> (#[trigger] services@[k]).0@ == slots[k].0,
                    key_chars@ == key,
                    found is None ==> forall|q: int| 0 <= q < j ==> slots[q].0 != key,
                    found is Some ==> found->0 < services.len() && slots[found->0 as int].0 == key
                        && forall|q: int| 0 <= q < found->0 ==> slots[q].0 != key,
                decreases services.len() - j,
            {
                if found.is_none() {
                    let kc = chars_of(services[j].0.as_str());
                    if chars_eq(kc.as_slice(), key_chars.as_slice()) {
                        found = Some(j);
                    }
                }
                j = j + 1;
            }
            proof {
                lemma_service_index_range(slots, key);
                match found {
                    Some(f) => lemma_service_index_first(slots, key, f as int),
                    None => {},
                }
            }
            let ghost prev = services@;
            match found {
                Some(f) => {
                    services.set(f, (string_of(key_chars.as_slice()), svc));
                    proof {
                        slots = slots.update(f as int, (key, i as int));
                    }
                },
                None => {
                    services.push((string_of(key_chars.as_slice()), svc));
                    proof {
                        slots = slots.push((key, i as int));
                    }
                },
            }
            proof {
                assert forall|k: int| 0 <= k < slots.len() implies {
                    let cc = cs@[slots[k].1];
                    &&& (#[trigger] services@[k]).0@ == slots[k].0
                    &&& is_service_for(
                        services@[k].1,
                        *context,
                        cc,
                        dockerfile_for(dockerfile_names@, cc.id),
                    )
                } by {
                    if services@[k] != (services@[k].0, svc) || slots[k].1 != i {
                        assert(services@[k] == prev[k]);
                    }
                }
            }
        }
        i = i + 1;
    }
    assert(cs@.take(cs.len() as int) =~= cs@);
    let pn = container_name_chars(context.user_id, context.project_id, 0);
    let mut networks: Vec<(String, DockerComposeNetwork)> = Vec::new();
    networks.push(
        (
            string_of(pn.as_slice()),
            DockerComposeNetwork { driver: Some(String::from_str("bridge")), external: None, name: None },
        ),
    );
    networks.push(
        (
            String::from_str("rust-saas_default"),
            DockerComposeNetwork {
                driver: None,
                external: Some(true),
                name: Some(String::from_str("rust-saas_default")),
            },
        ),
    );
    DockerComposeConfig {
        version: String::from_str("3.8"),
        services,
        networks,
        volumes: Vec::new(),
    }
}

} // verus!
