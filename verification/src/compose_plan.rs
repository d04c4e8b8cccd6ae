//! What bringing a compose project up and down does with each service: the
//! environment it gets, the volumes it mounts, the hosts it can reach, and the
//! report of the project's containers.
use vstd::prelude::*;
use crate::compose::{
    ComposeEnvironment, ComposeService, env_insert, env_insert_exec, key_index_exec, key_index_from, opt_str, pairs_view,
    services_view, ServiceView,
};
use crate::image::opt_view;
use crate::text::{
    concat, concat3, join, join_exec, lines, lines_exec, owned, split_once, split_once_exec, starts_with,
    starts_with_exec, ends_with, ends_with_exec, string_of_range, chars_of, trim, trim_exec, views,
};

verus! {

/// A value without one pair of matching surrounding quotes (`"` or `'`).
pub open spec fn unquote(v: Seq<char>) -> Seq<char> {
    if ((starts_with(v, "\""@) && ends_with(v, "\""@)) || (starts_with(v, "'"@) && ends_with(v, "'"@)))
        && v.len() >= 2 {
        v.subrange(1, v.len() - 1)
    } else {
        v
    }
}

/// The variable a line of an env file sets: a trimmed line that is neither
/// empty nor a comment, split at its first `=`, name and value trimmed and
/// the value unquoted.
pub open spec fn env_line(line: Seq<char>) -> Option<(Seq<char>, Seq<char>)> {
    let t = trim(line);
    if t.len() == 0 || starts_with(t, "#"@) {
        None
    } else {
        match split_once(t, "="@) {
            (k, Some(v)) => Some((trim(k), unquote(trim(v)))),
            (_, None) => None,
        }
    }
}

/// `env` with the variables of `ls` set in order.
pub open spec fn env_lines(env: Seq<(Seq<char>, Seq<char>)>, ls: Seq<Seq<char>>) -> Seq<(Seq<char>, Seq<char>)>
    decreases ls.len(),
{
    if ls.len() == 0 {
        env
    } else {
        match env_line(ls.last()) {
            Some((k, v)) => env_insert(env_lines(env, ls.drop_last()), k, v),
            None => env_lines(env, ls.drop_last()),
        }
    }
}

/// A value without one pair of matching surrounding quotes.
fn unquote_exec(v: &str) -> (r: String)
    ensures
        r@ == unquote(v@),
{
    let quoted = (starts_with_exec(v, "\"") && ends_with_exec(v, "\"")) || (starts_with_exec(v, "'")
        && ends_with_exec(v, "'"));
    let cs = chars_of(v);
    if quoted && cs.len() >= 2 {
        string_of_range(&cs, 1, cs.len() - 1)
    } else {
        owned(v)
    }
}

/// The variable a line of an env file sets.
pub fn env_line_exec(line: &str) -> (r: Option<(String, String)>)
    ensures
        match env_line(line@) {
            Some((k, v)) => r matches Some((a, b)) && a@ == k && b@ == v,
            None => r is None,
        },
{
    let t = trim_exec(line);
    if t.as_str().is_empty() || starts_with_exec(t.as_str(), "#") {
        return None;
    }
    let (k, rest) = split_once_exec(t.as_str(), "=");
    match rest {
        Some(v) => {
            let vt = trim_exec(v.as_str());
            Some((trim_exec(k.as_str()), unquote_exec(vt.as_str())))
        },
        None => None,
    }
}

/// Sets in `env` the variables that the env file `content` sets, line by line;
/// a later line overrides an earlier one.
pub fn load_env_file(content: &str, env: &mut Vec<(String, String)>)
    ensures
        pairs_view(final(env)@) == env_lines(pairs_view(old(env)@), lines(content@)),
{
    let ls = lines_exec(content);
    let ghost start = pairs_view(env@);
    let mut i: usize = 0;
    while i < ls.len()
        invariant
            i <= ls.len(),
            pairs_view(env@) == env_lines(start, views(ls@).take(i as int)),
            views(ls@) == lines(content@),
        decreases ls.len() - i,
    {
        assert(views(ls@).take(i + 1).drop_last() =~= views(ls@).take(i as int));
        assert(views(ls@).take(i + 1).last() == ls@[i as int]@);
        match env_line_exec(ls[i].as_str()) {
            Some((k, v)) => {
                env_insert_exec(env, k, v);
            },
            None => {},
        }
        i += 1;
    }
    assert(views(ls@).take(ls.len() as int) =~= views(ls@));
}

/// `env` with `k` set to `v` only when `k` has no value yet.
pub open spec fn env_or_insert(env: Seq<(Seq<char>, Seq<char>)>, k: Seq<char>, v: Seq<char>) -> Seq<(Seq<char>, Seq<char>)> {
    match key_index_from(env, k, 0) {
        Some(_) => env,
        None => env.push((k, v)),
    }
}

/// `env` with the variables of `extra` that it does not set yet.
pub open spec fn env_merge(env: Seq<(Seq<char>, Seq<char>)>, extra: Seq<(Seq<char>, Seq<char>)>) -> Seq<(Seq<char>, Seq<char>)>
    decreases extra.len(),
{
    if extra.len() == 0 {
        env
    } else {
        env_or_insert(env_merge(env, extra.drop_last()), extra.last().0, extra.last().1)
    }
}

/// The environment of a service: its own variables, then those from its env
/// files that it does not set itself.
pub fn merge_env_files(env: &mut Vec<(String, String)>, loaded: &Vec<(String, String)>)
    ensures
        pairs_view(final(env)@) == env_merge(pairs_view(old(env)@), pairs_view(loaded@)),
{
    let ghost start = pairs_view(env@);
    let mut i: usize = 0;
    while i < loaded.len()
        invariant
            i <= loaded.len(),
            pairs_view(env@) == env_merge(start, pairs_view(loaded@).take(i as int)),
        decreases loaded.len() - i,
    {
        assert(pairs_view(loaded@).take(i + 1).drop_last() =~= pairs_view(loaded@).take(i as int));
        assert(pairs_view(loaded@).take(i + 1).last() == (loaded@[i as int].0@, loaded@[i as int].1@));
        let found = key_index_exec(env, &loaded[i].0).is_some();
        if !found {
            let ghost before = pairs_view(env@);
            env.push((loaded[i].0.clone(), loaded[i].1.clone()));
            assert(pairs_view(env@) =~= before.push((loaded@[i as int].0@, loaded@[i as int].1@)));
        }
        i += 1;
    }
    assert(pairs_view(loaded@).take(loaded.len() as int) =~= pairs_view(loaded@));
}

/// What `Path::parent` gives for the path `p`: the path without its last
/// component, or `None` for a root or an empty path.
pub uninterp spec fn path_parent(p: Seq<char>) -> Option<Seq<char>>;

/// What `Path::file_name` gives for the path `p`: its last component, unless
/// that is `..` or there is none.
pub uninterp spec fn path_file_name(p: Seq<char>) -> Option<Seq<char>>;

/// `Path::parent`, as text. Its result is a function of the path alone.
#[verifier::external_body]
fn parent_of(p: &str) -> (r: Option<String>)
    ensures
        opt_view(r) == path_parent(p@),
{
    std::path::Path::new(p).parent().map(|d| d.to_string_lossy().to_string())
}

/// `Path::file_name`, as text. Its result is a function of the path alone.
#[verifier::external_body]
pub(crate) fn file_name_of(p: &str) -> (r: Option<String>)
    ensures
        opt_view(r) == path_file_name(p@),
{
    std::path::Path::new(p).file_name().map(|d| d.to_string_lossy().to_string())
}

/// The project of a compose file: the name of the directory that holds it, or
/// `default` when it has none.
pub open spec fn project_name_of(compose_path: Seq<char>) -> Seq<char> {
    match path_parent(compose_path) {
        Some(d) => match path_file_name(d) {
            Some(n) => n,
            None => "default"@,
        },
        None => "default"@,
    }
}

/// The project of a compose file.
pub fn compose_project_name(compose_path: &str) -> (r: String)
    ensures
        r@ == project_name_of(compose_path@),
{
    match parent_of(compose_path) {
        Some(d) => match file_name_of(d.as_str()) {
            Some(n) => n,
            None => owned("default"),
        },
        None => owned("default"),
    }
}

/// Where an env file named `name` of a compose file lies: beside the compose
/// file (under `.` when the compose path has no parent).
pub open spec fn env_file_path_of(compose_path: Seq<char>, name: Seq<char>) -> Seq<char> {
    crate::paths::path_join(
        match path_parent(compose_path) {
            Some(d) => d,
            None => "."@,
        },
        name,
    )
}

/// Where an env file of a compose file lies.
pub fn env_file_path(compose_path: &str, name: &str) -> (r: String)
    ensures
        r@ == env_file_path_of(compose_path@, name@),
{
    let dir = match parent_of(compose_path) {
        Some(d) => d,
        None => owned("."),
    };
    crate::paths::join_path(dir.as_str(), name)
}

/// How a volume entry of a service is mounted: as it will be passed on, or a
/// relative host path that is made absolute first (`path`, then `:` and the
/// container path).
pub enum ComposeVolume {
    Ready(String),
    Resolve { path: String, container_path: String },
}

/// Whether a host path names a volume rather than a path: it starts with none
/// of `/`, `.`, `~`.
pub open spec fn is_named_volume(host: Seq<char>) -> bool {
    !starts_with(host, "/"@) && !starts_with(host, "."@) && !starts_with(host, "~"@)
}

/// How the volume entry `v` of a service of project `project`, whose compose
/// file is at `compose_path`, is mounted: `host:container` with a named volume
/// becomes `<project>_<host>:container`; a host path starting with `.` is taken
/// relative to the compose file's directory; other entries stay as written.
pub open spec fn compose_volume_of(project: Seq<char>, compose_path: Seq<char>, v: Seq<char>) -> (bool, Seq<char>, Seq<char>) {
    match split_once(v, ":"@) {
        (host, Some(cont)) => if is_named_volume(host) {
            (true, project + "_"@ + host + ":"@ + cont, Seq::empty())
        } else if starts_with(host, "."@) {
            match path_parent(compose_path) {
                Some(d) => (false, crate::paths::path_join(d, host), cont),
                None => (true, host + ":"@ + cont, Seq::empty()),
            }
        } else {
            (true, host + ":"@ + cont, Seq::empty())
        },
        (_, None) => (true, v, Seq::empty()),
    }
}

/// A volume whose host path starts with `.` is mounted from that path taken
/// relative to the compose file's directory, at its container path; a host
/// path that names a volume is mounted from the project's volume of that name.
pub proof fn law_relative_volumes_resolve(project: Seq<char>, compose_path: Seq<char>, host: Seq<char>, cont: Seq<char>)
    requires
        !crate::text::contains(host, ":"@),
    ensures
        starts_with(host, "."@) && path_parent(compose_path) is Some ==> compose_volume_of(
            project,
            compose_path,
            host + ":"@ + cont,
        ) == (false, crate::paths::path_join(path_parent(compose_path)->Some_0, host), cont),
        is_named_volume(host) ==> compose_volume_of(project, compose_path, host + ":"@ + cont) == (
            true,
            project + "_"@ + host + ":"@ + cont,
            Seq::<char>::empty(),
        ),
{
    reveal_strlit(":");
    crate::text::lemma_split_once_first(host, ":"@, cont);
}

/// The view of a volume plan: whether it is ready, and its texts.
pub open spec fn volume_view(c: ComposeVolume) -> (bool, Seq<char>, Seq<char>) {
    match c {
        ComposeVolume::Ready(s) => (true, s@, Seq::empty()),
        ComposeVolume::Resolve { path, container_path } => (false, path@, container_path@),
    }
}

/// How a volume entry of a compose service is mounted.
pub fn compose_volume(project: &str, compose_path: &str, v: &str) -> (r: ComposeVolume)
    ensures
        volume_view(r) == compose_volume_of(project@, compose_path@, v@),
{
    let (host, rest) = split_once_exec(v, ":");
    match rest {
        Some(cont) => {
            let h = host.as_str();
            let named = !starts_with_exec(h, "/") && !starts_with_exec(h, ".") && !starts_with_exec(h, "~");
            if named {
                let a = concat3(project, "_", h);
                let b = concat3(a.as_str(), ":", cont.as_str());
                ComposeVolume::Ready(b)
            } else if starts_with_exec(h, ".") {
                match parent_of(compose_path) {
                    Some(d) => ComposeVolume::Resolve {
                        path: crate::paths::join_path(d.as_str(), h),
                        container_path: cont,
                    },
                    None => ComposeVolume::Ready(concat3(h, ":", cont.as_str())),
                }
            } else {
                ComposeVolume::Ready(concat3(h, ":", cont.as_str()))
            }
        },
        None => ComposeVolume::Ready(owned(v)),
    }
}

/// The container a service runs in: its `container_name`, else its name.
pub open spec fn container_name_of(name: Seq<char>, svc: ServiceView) -> Seq<char> {
    match svc.container_name {
        Some(c) => c,
        None => name,
    }
}

/// The discovery lines of the other services, in order: `127.0.0.1`, the
/// container name and the service name, tab-separated.
pub open spec fn peer_service_lines(services: Seq<(Seq<char>, ServiceView)>, current: Seq<char>) -> Seq<Seq<char>>
    decreases services.len(),
{
    if services.len() == 0 {
        Seq::empty()
    } else {
        let (n, s) = services.last();
        let rest = peer_service_lines(services.drop_last(), current);
        if n == current {
            rest
        } else {
            rest.push("127.0.0.1\t"@ + container_name_of(n, s) + "\t"@ + n)
        }
    }
}

/// The lines that the extra hosts `host:ip` of a service add: the address, a
/// tab, the host name, both trimmed; entries without `:` add none.
pub open spec fn extra_host_lines(hosts: Seq<Seq<char>>) -> Seq<Seq<char>>
    decreases hosts.len(),
{
    if hosts.len() == 0 {
        Seq::empty()
    } else {
        let rest = extra_host_lines(hosts.drop_last());
        match split_once(hosts.last(), ":"@) {
            (h, Some(ip)) => rest.push(trim(ip) + "\t"@ + trim(h)),
            (_, None) => rest,
        }
    }
}

/// The first service named `name`.
pub open spec fn service_named(services: Seq<(Seq<char>, ServiceView)>, name: Seq<char>, i: int) -> Option<ServiceView>
    decreases services.len() - i,
{
    if i < 0 || i >= services.len() {
        None
    } else if services[i].0 == name {
        Some(services[i].1)
    } else {
        service_named(services, name, i + 1)
    }
}

/// The discovery entries of the container of service `current`: a line for
/// each other service, then one for each of its own extra hosts.
pub open spec fn discovery_lines(services: Seq<(Seq<char>, ServiceView)>, current: Seq<char>) -> Seq<Seq<char>> {
    peer_service_lines(services, current) + match service_named(services, current, 0) {
        Some(s) => match s.extra_hosts {
            Some(h) => extra_host_lines(h),
            None => Seq::empty(),
        },
        None => Seq::empty(),
    }
}

/// Each line followed by a line break.
pub open spec fn line_block(ls: Seq<Seq<char>>) -> Seq<char>
    decreases ls.len(),
{
    if ls.len() == 0 {
        Seq::empty()
    } else {
        line_block(ls.drop_last()) + ls.last() + "\n"@
    }
}

/// The hosts file of the container of service `current` after discovery
/// entries are added to `existing`: nothing to write when there are none;
/// else the existing text, a marker comment, and one line per entry.
pub open spec fn hosts_with_discovery(existing: Seq<char>, services: Seq<(Seq<char>, ServiceView)>, current: Seq<char>) -> Option<Seq<char>> {
    let ls = discovery_lines(services, current);
    if ls.len() == 0 {
        None
    } else {
        Some(existing + "\n# ZenoPanel compose service discovery\n"@ + line_block(ls))
    }
}

/// The discovery lines of the other services.
fn peer_service_lines_exec(services: &Vec<(String, ComposeService)>, current: &str) -> (r: Vec<String>)
    ensures
        views(r@) == peer_service_lines(services_view(services@), current@),
{
    let cur = owned(current);
    let ghost sv = services_view(services@);
    let mut out: Vec<String> = Vec::new();
    let mut i: usize = 0;
    while i < services.len()
        invariant
            i <= services.len(),
            cur@ == current@,
            sv == services_view(services@),
            views(out@) == peer_service_lines(sv.take(i as int), current@),
        decreases services.len() - i,
    {
        assert(sv.take(i + 1).drop_last() =~= sv.take(i as int));
        assert(sv.take(i + 1).last() == (services@[i as int].0@, services@[i as int].1@));
        let (n, s) = (&services[i].0, &services[i].1);
        if *n != cur {
            let cn = match &s.container_name {
                Some(c) => c.clone(),
                None => n.clone(),
            };
            let a = concat3("127.0.0.1\t", cn.as_str(), "\t");
            let line = concat(a.as_str(), n.as_str());
            let ghost prev = views(out@);
            out.push(line);
            assert(views(out@) =~= prev.push(line@));
        }
        i += 1;
    }
    assert(sv.take(services.len() as int) =~= sv);
    out
}

/// The lines that extra hosts add.
fn extra_host_lines_exec(hosts: &Vec<String>) -> (r: Vec<String>)
    ensures
        views(r@) == extra_host_lines(views(hosts@)),
{
    let mut out: Vec<String> = Vec::new();
    let mut i: usize = 0;
    while i < hosts.len()
        invariant
            i <= hosts.len(),
            views(out@) == extra_host_lines(views(hosts@).take(i as int)),
        decreases hosts.len() - i,
    {
        assert(views(hosts@).take(i + 1).drop_last() =~= views(hosts@).take(i as int));
        assert(views(hosts@).take(i + 1).last() == hosts@[i as int]@);
        let (h, rest) = split_once_exec(hosts[i].as_str(), ":");
        match rest {
            Some(ip) => {
                let ipt = trim_exec(ip.as_str());
                let ht = trim_exec(h.as_str());
                let line = concat3(ipt.as_str(), "\t", ht.as_str());
                let ghost prev = views(out@);
                out.push(line);
                assert(views(out@) =~= prev.push(line@));
            },
            None => {},
        }
        i += 1;
    }
    assert(views(hosts@).take(hosts.len() as int) =~= views(hosts@));
    out
}

/// The index of the first service named `name`.
fn service_index(services: &Vec<(String, ComposeService)>, name: &str) -> (r: Option<usize>)
    ensures
        match service_named(services_view(services@), name@, 0) {
            Some(s) => r matches Some(i) && i < services.len() && services@[i as int].1@ == s,
            None => r is None,
        },
{
    let n = owned(name);
    let ghost sv = services_view(services@);
    let mut i: usize = 0;
    while i < services.len()
        invariant
            i <= services.len(),
            n@ == name@,
            sv == services_view(services@),
            service_named(sv, name@, 0) == service_named(sv, name@, i as int),
        decreases services.len() - i,
    {
        assert(sv[i as int] == (services@[i as int].0@, services@[i as int].1@));
        if services[i].0 == n {
            return Some(i);
        }
        i += 1;
    }
    None
}

/// The hosts file of the container of service `current` once the names of the
/// other services and its own extra hosts are added to `existing`, or `None`
/// when there is nothing to add.
pub fn inject_hosts_entries(existing: &str, services: &Vec<(String, ComposeService)>, current: &str) -> (r: Option<String>)
    ensures
        match hosts_with_discovery(existing@, services_view(services@), current@) {
            Some(t) => r matches Some(x) && x@ == t,
            None => r is None,
        },
{
    let mut ls = peer_service_lines_exec(services, current);
    let ghost peers = views(ls@);
    let extra: Vec<String> = match service_index(services, current) {
        Some(i) => match &services[i].1.extra_hosts {
            Some(h) => extra_host_lines_exec(&h.0),
            None => Vec::new(),
        },
        None => Vec::new(),
    };
    let mut k: usize = 0;
    while k < extra.len()
        invariant
            k <= extra.len(),
            views(ls@) == peers + views(extra@).take(k as int),
        decreases extra.len() - k,
    {
        let ghost prev = views(ls@);
        ls.push(extra[k].clone());
        assert(views(extra@).take(k + 1) =~= views(extra@).take(k as int).push(extra@[k as int]@));
        assert(views(ls@) =~= prev.push(extra@[k as int]@));
        k += 1;
    }
    assert(views(extra@).take(extra.len() as int) =~= views(extra@));
    assert(views(ls@) == discovery_lines(services_view(services@), current@));
    if ls.len() == 0 {
        return None;
    }
    let mut block = String::new();
    let mut j: usize = 0;
    while j < ls.len()
        invariant
            j <= ls.len(),
            block@ == line_block(views(ls@).take(j as int)),
        decreases ls.len() - j,
    {
        assert(views(ls@).take(j + 1).drop_last() =~= views(ls@).take(j as int));
        assert(views(ls@).take(j + 1).last() == ls@[j as int]@);
        block = concat3(block.as_str(), ls[j].as_str(), "\n");
        j += 1;
    }
    assert(views(ls@).take(ls.len() as int) =~= views(ls@));
    let head = concat(existing, "\n# ZenoPanel compose service discovery\n");
    Some(concat(head.as_str(), block.as_str()))
}

/// `s` left-aligned in a field of `w` characters, as `{:<w}` formats it.
pub open spec fn pad_right(s: Seq<char>, w: nat) -> Seq<char> {
    if s.len() < w {
        s + Seq::new((w - s.len()) as nat, |i: int| ' ')
    } else {
        s
    }
}

/// `s` left-aligned in a field of `w` characters.
pub fn pad_right_exec(s: &str, w: usize) -> (r: String)
    ensures
        r@ == pad_right(s@, w as nat),
{
    proof {
        reveal_strlit(" ");
    }
    let cs = chars_of(s);
    let mut out = owned(s);
    let mut n: usize = cs.len();
    assert(out@ =~= s@ + Seq::new(0, |i: int| ' '));
    while n < w
        invariant
            cs.len() <= n <= w || (n == cs.len() && n >= w),
            out@ == s@ + Seq::new((n - cs.len()) as nat, |i: int| ' '),
            cs@ == s@,
            " "@ == seq![' '],
        decreases w - n,
    {
        let ghost prev = out@;
        out = concat(out.as_str(), " ");
        assert(out@ =~= s@ + Seq::new((n + 1 - cs.len()) as nat, |i: int| ' '));
        n += 1;
    }
    if cs.len() >= w {
        assert(out@ =~= s@);
    }
    out
}

/// A container as the project report shows it.
pub struct PsRow {
    pub id: String,
    pub image: String,
    pub status: String,
    pub pid: i32,
    pub ports: Option<Vec<String>>,
}

/// The service whose container is named `id`: the last service with that
/// container name.
pub open spec fn expected_service(services: Seq<(Seq<char>, ServiceView)>, id: Seq<char>) -> Option<Seq<char>>
    decreases services.len(),
{
    if services.len() == 0 {
        None
    } else if container_name_of(services.last().0, services.last().1) == id {
        Some(services.last().0)
    } else {
        expected_service(services.drop_last(), id)
    }
}

/// One line of the report: the six columns, padded.
pub open spec fn ps_line(c1: Seq<char>, c2: Seq<char>, c3: Seq<char>, c4: Seq<char>, c5: Seq<char>, c6: Seq<char>) -> Seq<char> {
    pad_right(c1, 8) + " "@ + pad_right(c2, 24) + " "@ + pad_right(c3, 24) + " "@ + pad_right(c4, 10) + " "@
        + pad_right(c5, 8) + " "@ + c6 + "\n"@
}

/// The report line of a container of service `svc`: its pid when it has one,
/// its ports joined by commas (`-` for none).
pub open spec fn ps_row_line(svc: Seq<char>, c: PsRow) -> Seq<char> {
    let ports = match c.ports {
        Some(p) => join(views(p@), ","@),
        None => Seq::empty(),
    };
    ps_line(
        svc,
        c.id@,
        c.image@,
        c.status@,
        if c.pid > 0 {
            crate::num::decimal(c.pid as int)
        } else {
            "-"@
        },
        if ports.len() == 0 {
            "-"@
        } else {
            ports
        },
    )
}

/// The report lines of the containers that belong to the project, in order.
pub open spec fn ps_rows(services: Seq<(Seq<char>, ServiceView)>, cs: Seq<PsRow>) -> Seq<char>
    decreases cs.len(),
{
    if cs.len() == 0 {
        Seq::empty()
    } else {
        ps_rows(services, cs.drop_last()) + match expected_service(services, cs.last().id@) {
            Some(svc) => ps_row_line(svc, cs.last()),
            None => Seq::empty(),
        }
    }
}

/// Whether some container belongs to the project.
pub open spec fn any_expected(services: Seq<(Seq<char>, ServiceView)>, cs: Seq<PsRow>) -> bool {
    exists|k: int| 0 <= k < cs.len() && #[trigger] expected_service(services, cs[k].id@) is Some
}

/// The report of a project's containers: a note when none of `containers`
/// belongs to it; else a header, a rule of 110 dashes, and a line per container.
pub open spec fn ps_report(services: Seq<(Seq<char>, ServiceView)>, cs: Seq<PsRow>) -> Seq<char> {
    if !any_expected(services, cs) {
        "No containers found for this compose file."@
    } else {
        ps_line("SERVICE"@, "CONTAINER"@, "IMAGE"@, "STATUS"@, "PID"@, "PORTS"@) + Seq::new(110, |i: int| '-')
            + "\n"@ + ps_rows(services, cs)
    }
}

/// The service whose container is named `id`.
fn expected_service_exec(services: &Vec<(String, ComposeService)>, id: &String) -> (r: Option<String>)
    ensures
        opt_view(r) == expected_service(services_view(services@), id@),
{
    let ghost sv = services_view(services@);
    let mut i: usize = services.len();
    assert(sv.take(services.len() as int) =~= sv);
    while i > 0
        invariant
            i <= services.len(),
            sv == services_view(services@),
            expected_service(sv, id@) == expected_service(sv.take(i as int), id@),
        decreases i,
    {
        let ghost t = sv.take(i as int);
        assert(t.drop_last() =~= sv.take(i - 1));
        assert(t.last() == (services@[i - 1].0@, services@[i - 1].1@));
        let (n, s) = (&services[i - 1].0, &services[i - 1].1);
        let cn = match &s.container_name {
            Some(c) => c.clone(),
            None => n.clone(),
        };
        if cn == *id {
            return Some(n.clone());
        }
        i -= 1;
    }
    None
}

/// Six columns as a report line.
fn ps_line_exec(c1: &str, c2: &str, c3: &str, c4: &str, c5: &str, c6: &str) -> (r: String)
    ensures
        r@ == ps_line(c1@, c2@, c3@, c4@, c5@, c6@),
{
    let p1 = pad_right_exec(c1, 8);
    let p2 = pad_right_exec(c2, 24);
    let p3 = pad_right_exec(c3, 24);
    let p4 = pad_right_exec(c4, 10);
    let p5 = pad_right_exec(c5, 8);
    let a = concat3(p1.as_str(), " ", p2.as_str());
    let b = concat3(a.as_str(), " ", p3.as_str());
    let c = concat3(b.as_str(), " ", p4.as_str());
    let d = concat3(c.as_str(), " ", p5.as_str());
    let e = concat3(d.as_str(), " ", c6);
    let r = concat(e.as_str(), "\n");
    assert(r@ =~= ps_line(c1@, c2@, c3@, c4@, c5@, c6@));
    r
}

/// The report of the containers of a compose project (`compose ps`).
pub fn compose_ps(services: &Vec<(String, ComposeService)>, containers: &Vec<PsRow>) -> (r: String)
    ensures
        r@ == ps_report(services_view(services@), containers@),
{
    let ghost sv = services_view(services@);
    let mut rows = String::new();
    let mut any = false;
    let mut k: usize = 0;
    while k < containers.len()
        invariant
            k <= containers.len(),
            sv == services_view(services@),
            rows@ == ps_rows(sv, containers@.take(k as int)),
            any == exists|j: int| 0 <= j < k && #[trigger] expected_service(sv, containers@[j].id@) is Some,
        decreases containers.len() - k,
    {
        let ghost t = containers@.take(k + 1);
        assert(t.drop_last() =~= containers@.take(k as int));
        assert(t.last() == containers@[k as int]);
        let c = &containers[k];
        match expected_service_exec(services, &c.id) {
            Some(svc) => {
                let ports = match &c.ports {
                    Some(p) => join_exec(p, ","),
                    None => String::new(),
                };
                let pid_text = if c.pid > 0 {
                    crate::num::int_to_string(c.pid as i64)
                } else {
                    owned("-")
                };
                let ports_text = if ports.as_str().is_empty() {
                    owned("-")
                } else {
                    ports
                };
                let line = ps_line_exec(
                    svc.as_str(),
                    c.id.as_str(),
                    c.image.as_str(),
                    c.status.as_str(),
                    pid_text.as_str(),
                    ports_text.as_str(),
                );
                rows = concat(rows.as_str(), line.as_str());
                any = true;
            },
            None => {
                assert(rows@ + Seq::<char>::empty() =~= rows@);
            },
        }
        k += 1;
    }
    assert(containers@.take(containers.len() as int) =~= containers@);
    if !any {
        return owned("No containers found for this compose file.");
    }
    let header = ps_line_exec("SERVICE", "CONTAINER", "IMAGE", "STATUS", "PID", "PORTS");
    proof {
        reveal_strlit("-");
    }
    let mut rule = String::new();
    let mut i: usize = 0;
    assert(rule@ =~= Seq::new(0, |j: int| '-'));
    while i < 110
        invariant
            i <= 110,
            rule@ == Seq::new(i as nat, |j: int| '-'),
            "-"@ == seq!['-'],
        decreases 110 - i,
    {
        rule = concat(rule.as_str(), "-");
        assert(rule@ =~= Seq::new((i + 1) as nat, |j: int| '-'));
        i += 1;
    }
    let a = concat3(header.as_str(), rule.as_str(), "\n");
    concat(a.as_str(), rows.as_str())
}

/// The image of a service, which it must have.
pub fn service_image(name: &str, svc: &ComposeService) -> (r: Result<String, String>)
    ensures
        match svc.image {
            Some(i) => r matches Ok(x) && x@ == i@,
            None => r matches Err(m) && m@ == "Service "@ + name@ + " has no image"@,
        },
{
    match &svc.image {
        Some(i) => Ok(i.clone()),
        None => Err(concat3("Service ", name, " has no image")),
    }
}

/// The command a service's container runs: its entrypoint followed by its
/// command, either one alone, or else the image's default command.
pub open spec fn launch_cmd(svc: ServiceView, default_cmd: Seq<Seq<char>>) -> Seq<Seq<char>> {
    match (svc.entrypoint, svc.command) {
        (Some(e), Some(c)) => e + c,
        (Some(e), None) => e,
        (None, Some(c)) => c,
        (None, None) => default_cmd,
    }
}

/// The volumes of a service, each as it is mounted.
pub open spec fn launch_volumes(project: Seq<char>, compose_path: Seq<char>, svc: ServiceView) -> Seq<(bool, Seq<char>, Seq<char>)> {
    match svc.volumes {
        Some(vs) => vs.map_values(|v: Seq<char>| compose_volume_of(project, compose_path, v)),
        None => Seq::empty(),
    }
}

/// What creating a service's container is given.
pub struct ServiceLaunch {
    pub container_name: String,
    pub cmd: Vec<String>,
    pub env: Vec<(String, String)>,
    pub volumes: Vec<ComposeVolume>,
    pub ports: Vec<String>,
    pub restart_policy: String,
    pub mem_limit: Option<i64>,
    pub oom_score_adj: Option<i32>,
    pub read_only: bool,
    pub network: String,
}

/// Appends copies of `b` to `a`.
fn append_copies(a: &mut Vec<String>, b: &Vec<String>)
    ensures
        views(final(a)@) == views(old(a)@) + views(b@),
{
    let ghost start = views(a@);
    let mut i: usize = 0;
    while i < b.len()
        invariant
            i <= b.len(),
            views(a@) == start + views(b@).take(i as int),
        decreases b.len() - i,
    {
        let ghost prev = views(a@);
        a.push(b[i].clone());
        assert(views(a@) =~= prev.push(b@[i as int]@));
        assert(views(b@).take(i + 1) =~= views(b@).take(i as int).push(b@[i as int]@));
        i += 1;
    }
    assert(views(b@).take(b.len() as int) =~= views(b@));
}

/// A copy of a list of texts.
fn copy_texts(b: &Vec<String>) -> (r: Vec<String>)
    ensures
        views(r@) == views(b@),
{
    let mut r: Vec<String> = Vec::new();
    append_copies(&mut r, b);
    assert(views(r@) =~= views(b@));
    r
}

/// What creating the container of service `name` of project `project` (whose
/// compose file is `compose_path`) is given: the command, the environment with
/// the variables `loaded` from its env files, the volumes, ports, restart
/// policy (`no` by default), memory limit in bytes (0 by default; `None` when
/// it does not fit an `i64`), and the network (its first, else `bridge`).
pub fn service_launch(
    project: &str,
    compose_path: &str,
    name: &str,
    svc: &ComposeService,
    default_cmd: &Vec<String>,
    loaded: &Vec<(String, String)>,
) -> (r: ServiceLaunch)
    ensures
        r.container_name@ == container_name_of(name@, svc@),
        views(r.cmd@) == launch_cmd(svc@, views(default_cmd@)),
        pairs_view(r.env@) == env_merge(
            match svc@.environment {
                Some(e) => e,
                None => Seq::empty(),
            },
            pairs_view(loaded@),
        ),
        r.volumes@.map_values(|v: ComposeVolume| volume_view(v)) == launch_volumes(project@, compose_path@, svc@),
        views(r.ports@) == match svc@.ports {
            Some(p) => p,
            None => Seq::empty(),
        },
        r.restart_policy@ == match svc@.restart {
            Some(p) => p,
            None => "no"@,
        },
        match svc@.mem_limit {
            Some(m) => match r.mem_limit {
                Some(x) => crate::memory::fits_i64(crate::memory::memory_bytes_of(m)) && x
                    == crate::memory::memory_bytes_of(m),
                None => !crate::memory::fits_i64(crate::memory::memory_bytes_of(m)),
            },
            None => r.mem_limit == Some(0i64),
        },
        r.oom_score_adj == svc.oom_score_adj,
        r.read_only == match svc.read_only {
            Some(b) => b,
            None => false,
        },
        r.network@ == match svc@.networks {
            Some(n) => if n.len() > 0 {
                n[0]
            } else {
                "bridge"@
            },
            None => "bridge"@,
        },
{
    let container_name = match &svc.container_name {
        Some(c) => c.clone(),
        None => owned(name),
    };
    let mut cmd: Vec<String> = Vec::new();
    match (&svc.entrypoint, &svc.command) {
        (Some(e), Some(c)) => {
            append_copies(&mut cmd, &e.0);
            append_copies(&mut cmd, &c.0);
        },
        (Some(e), None) => {
            append_copies(&mut cmd, &e.0);
        },
        (None, Some(c)) => {
            append_copies(&mut cmd, &c.0);
        },
        (None, None) => {
            append_copies(&mut cmd, default_cmd);
        },
    }
    assert(views(cmd@) =~= launch_cmd(svc@, views(default_cmd@)));
    let mut env: Vec<(String, String)> = Vec::new();
    match &svc.environment {
        Some(e) => {
            let mut i: usize = 0;
            while i < e.0.len()
                invariant
                    i <= e.0.len(),
                    pairs_view(env@) == pairs_view(e.0@).take(i as int),
                decreases e.0.len() - i,
            {
                let ghost prev = pairs_view(env@);
                env.push((e.0[i].0.clone(), e.0[i].1.clone()));
                assert(pairs_view(env@) =~= prev.push((e.0@[i as int].0@, e.0@[i as int].1@)));
                assert(pairs_view(e.0@).take(i + 1) =~= pairs_view(e.0@).take(i as int).push(
                    (e.0@[i as int].0@, e.0@[i as int].1@),
                ));
                i += 1;
            }
            assert(pairs_view(e.0@).take(e.0.len() as int) =~= pairs_view(e.0@));
        },
        None => {
            assert(pairs_view(env@) =~= Seq::<(Seq<char>, Seq<char>)>::empty());
        },
    }
    merge_env_files(&mut env, loaded);
    let mut volumes: Vec<ComposeVolume> = Vec::new();
    match &svc.volumes {
        Some(vs) => {
            let mut i: usize = 0;
            while i < vs.len()
                invariant
                    i <= vs.len(),
                    volumes@.map_values(|v: ComposeVolume| volume_view(v)) == views(vs@).take(i as int).map_values(
                        |v: Seq<char>| compose_volume_of(project@, compose_path@, v),
                    ),
                decreases vs.len() - i,
            {
                let c = compose_volume(project, compose_path, vs[i].as_str());
                let ghost prev = volumes@.map_values(|v: ComposeVolume| volume_view(v));
                let ghost cv = volume_view(c);
                volumes.push(c);
                assert(volumes@.map_values(|v: ComposeVolume| volume_view(v)) =~= prev.push(cv));
                assert(views(vs@).take(i + 1).map_values(|v: Seq<char>| compose_volume_of(project@, compose_path@, v))
                    =~= views(vs@).take(i as int).map_values(
                    |v: Seq<char>| compose_volume_of(project@, compose_path@, v),
                ).push(compose_volume_of(project@, compose_path@, vs@[i as int]@)));
                i += 1;
            }
            assert(views(vs@).take(vs.len() as int) =~= views(vs@));
        },
        None => {},
    }
    assert(volumes@.map_values(|v: ComposeVolume| volume_view(v)) =~= launch_volumes(project@, compose_path@, svc@));
    let ports = match &svc.ports {
        Some(p) => copy_texts(&p.0),
        None => Vec::new(),
    };
    assert(views(ports@) =~= match svc@.ports {
        Some(p) => p,
        None => Seq::<Seq<char>>::empty(),
    });
    let restart_policy = match &svc.restart {
        Some(p) => p.clone(),
        None => owned("no"),
    };
    let mem_limit = match &svc.mem_limit {
        Some(m) => crate::memory::checked_parse_memory_bytes(m.as_str()),
        None => Some(0),
    };
    let read_only = match svc.read_only {
        Some(b) => b,
        None => false,
    };
    let network = match &svc.networks {
        Some(n) => if n.len() > 0 {
            n[0].clone()
        } else {
            owned("bridge")
        },
        None => owned("bridge"),
    };
    ServiceLaunch {
        container_name,
        cmd,
        env,
        volumes,
        ports,
        restart_policy,
        mem_limit,
        oom_score_adj: svc.oom_score_adj,
        read_only,
        network,
    }
}

/// The containers that bringing a project down stops and removes, in order:
/// the start order reversed, each service by its container name.
pub open spec fn down_targets(services: Seq<(Seq<char>, ServiceView)>, order: Seq<Seq<char>>) -> Seq<Seq<char>> {
    Seq::new(
        order.len(),
        |i: int|
            match service_named(services, order[order.len() - 1 - i], 0) {
                Some(s) => container_name_of(order[order.len() - 1 - i], s),
                None => order[order.len() - 1 - i],
            },
    )
}

/// The containers that bringing a project down stops and removes, in order.
pub fn compose_down_targets(services: &Vec<(String, ComposeService)>) -> (r: Vec<String>)
    ensures
        exists|keys: Seq<Seq<char>>|
            crate::order::strictly_sorted(keys) && crate::order::same_elements(
                keys,
                crate::order::service_names(crate::order::dependency_graph(services@)),
            ) && views(r@) == #[trigger] down_targets(
                services_view(services@),
                crate::order::service_order(crate::order::dependency_graph(services@), keys),
            ),
{
    let order = crate::order::order_services(services);
    let ghost ov = views(order@);
    let mut r: Vec<String> = Vec::new();
    let mut k: usize = order.len();
    while k > 0
        invariant
            k <= order.len(),
            ov == views(order@),
            r@.len() == order.len() - k,
            forall|i: int| 0 <= i < r@.len() ==> #[trigger] r@[i]@ == down_targets(services_view(services@), ov)[i],
        decreases k,
    {
        k -= 1;
        let n = &order[k];
        let t = match service_index(services, n.as_str()) {
            Some(i) => match &services[i].1.container_name {
                Some(c) => c.clone(),
                None => n.clone(),
            },
            None => n.clone(),
        };
        r.push(t);
    }
    assert(views(r@) =~= down_targets(services_view(services@), ov));
    r
}

} // verus!
