//! The OCI runtime configuration of a container: what runs, with which
//! environment, mounts, namespaces, limits and privileges.
use vstd::prelude::*;
use crate::compose::{env_insert, pairs_view};
use crate::compose_plan::{env_merge, is_named_volume};
use crate::text::{concat, concat3, contains, contains_exec, owned, split_once, split_once_exec, starts_with_exec, views};

verus! {

/// A mount of the runtime configuration.
pub struct OciMount {
    pub destination: String,
    pub kind: String,
    pub source: String,
    pub options: Vec<String>,
}

/// The view of a mount.
pub open spec fn mount_view(m: OciMount) -> (Seq<char>, Seq<char>, Seq<char>, Seq<Seq<char>>) {
    (m.destination@, m.kind@, m.source@, views(m.options@))
}

/// The runtime configuration of a container. `None` marks what the
/// configuration leaves out (written as null).
pub struct OciSpec {
    pub args: Vec<String>,
    pub env: Vec<String>,
    pub cwd: String,
    pub oom_score_adj: Option<i32>,
    pub capabilities: Option<Vec<String>>,
    pub readonly_root: bool,
    pub mounts: Vec<OciMount>,
    pub namespaces: Vec<String>,
    pub memory_limit: Option<i64>,
    pub cpu: Option<(u64, i64)>,
    pub uid_mapping: Option<u32>,
    pub gid_mapping: Option<u32>,
    pub masked_paths: Option<Vec<String>>,
    pub readonly_paths: Option<Vec<String>>,
}

/// The capabilities a container keeps when it runs as root.
pub open spec fn default_capabilities() -> Seq<Seq<char>> {
    seq![
        "CAP_AUDIT_WRITE"@,
        "CAP_CHOWN"@,
        "CAP_DAC_OVERRIDE"@,
        "CAP_FOWNER"@,
        "CAP_FSETID"@,
        "CAP_KILL"@,
        "CAP_MKNOD"@,
        "CAP_NET_BIND_SERVICE"@,
        "CAP_NET_RAW"@,
        "CAP_SETGID"@,
        "CAP_SETFCAP"@,
        "CAP_SETUID"@,
        "CAP_SETPCAP"@,
        "CAP_SYS_CHROOT"@,
    ]
}

/// The paths hidden from a container that runs as root.
pub open spec fn default_masked_paths() -> Seq<Seq<char>> {
    seq![
        "/proc/acpi"@,
        "/proc/asound"@,
        "/proc/kcore"@,
        "/proc/keys"@,
        "/proc/latency_stats"@,
        "/proc/timer_list"@,
        "/proc/timer_stats"@,
        "/proc/sched_debug"@,
        "/sys/firmware"@,
    ]
}

/// The paths a container that runs as root sees read-only.
pub open spec fn default_readonly_paths() -> Seq<Seq<char>> {
    seq!["/proc/bus"@, "/proc/fs"@, "/proc/irq"@, "/proc/sys"@, "/proc/sysrq-trigger"@]
}

/// The fixed environment every container starts with.
pub open spec fn base_env() -> Seq<Seq<char>> {
    seq!["PATH=/usr/local/sbin:/usr/local/bin:/usr/sbin:/usr/bin:/sbin:/bin"@, "TERM=xterm"@, "HOME=/root"@]
}

/// The environment of the process: the fixed variables, then `NAME=value` for
/// each variable in order.
pub open spec fn process_env(env: Seq<(Seq<char>, Seq<char>)>) -> Seq<Seq<char>> {
    base_env() + env.map_values(|p: (Seq<char>, Seq<char>)| p.0 + "="@ + p.1)
}

/// The bind mount of `source` at `destination`.
pub open spec fn bind_mount(b: (Seq<char>, Seq<char>)) -> (Seq<char>, Seq<char>, Seq<char>, Seq<Seq<char>>) {
    (b.0, "bind"@, b.1, seq!["bind"@, "rprivate"@, "rw"@])
}

/// The mounts of a container: `/proc` and `/dev`; `/tmp` and `/run` when its
/// root is read-only; `/dev/pts`, `/dev/shm` and `/sys` unless rootless; then
/// a bind mount for each `(destination, source)`.
pub open spec fn oci_mounts(read_only: bool, rootless: bool, binds: Seq<(Seq<char>, Seq<char>)>) -> Seq<
    (Seq<char>, Seq<char>, Seq<char>, Seq<Seq<char>>),
> {
    fixed_mounts(read_only, rootless) + binds.map_values(|b: (Seq<char>, Seq<char>)| bind_mount(b))
}

/// The mounts every container of this kind gets.
pub open spec fn fixed_mounts(read_only: bool, rootless: bool) -> Seq<(Seq<char>, Seq<char>, Seq<char>, Seq<Seq<char>>)> {
    seq![
        ("/proc"@, "proc"@, "proc"@, Seq::empty()),
        ("/dev"@, "tmpfs"@, "tmpfs"@, seq!["nosuid"@, "strictatime"@, "mode=755"@, "size=65536k"@]),
    ] + (if read_only {
        seq![
            ("/tmp"@, "tmpfs"@, "tmpfs"@, seq!["nosuid"@, "nodev"@, "mode=1777"@, "size=65536k"@]),
            ("/run"@, "tmpfs"@, "tmpfs"@, seq!["nosuid"@, "nodev"@, "mode=755"@, "size=65536k"@]),
        ]
    } else {
        Seq::empty()
    }) + (if !rootless {
        seq![
            (
                "/dev/pts"@,
                "devpts"@,
                "devpts"@,
                seq!["nosuid"@, "noexec"@, "newinstance"@, "ptmxmode=0666"@, "mode=0620"@],
            ),
            ("/dev/shm"@, "tmpfs"@, "shm"@, seq!["nosuid"@, "noexec"@, "nodev"@, "mode=1777"@, "size=65536k"@]),
            ("/sys"@, "sysfs"@, "sysfs"@, seq!["nosuid"@, "noexec"@, "nodev"@, "ro"@]),
        ]
    } else {
        Seq::empty()
    })
}

/// The namespaces of a container: pid, ipc, uts and mount; user when rootless;
/// network unless it shares the host's.
pub open spec fn oci_namespaces(rootless: bool, host_network: bool) -> Seq<Seq<char>> {
    seq!["pid"@, "ipc"@, "uts"@, "mount"@] + (if rootless {
        seq!["user"@]
    } else {
        Seq::empty()
    }) + (if !host_network {
        seq!["network"@]
    } else {
        Seq::empty()
    })
}

/// A list of texts from pieces of text.
fn texts(parts: &[&str]) -> (r: Vec<String>)
    ensures
        views(r@) == parts@.map_values(|p: &str| p@),
{
    let mut r: Vec<String> = Vec::new();
    let mut i: usize = 0;
    while i < parts.len()
        invariant
            i <= parts.len(),
            views(r@) == parts@.map_values(|p: &str| p@).take(i as int),
        decreases parts.len() - i,
    {
        let ghost prev = views(r@);
        r.push(owned(parts[i]));
        assert(views(r@) =~= prev.push(parts@[i as int]@));
        assert(parts@.map_values(|p: &str| p@).take(i + 1) =~= parts@.map_values(|p: &str| p@).take(i as int).push(
            parts@[i as int]@,
        ));
        i += 1;
    }
    assert(parts@.map_values(|p: &str| p@).take(parts.len() as int) =~= parts@.map_values(|p: &str| p@));
    r
}

/// A mount from text.
fn mount(destination: &str, kind: &str, source: &str, options: Vec<String>) -> (r: OciMount)
    ensures
        mount_view(r) == (destination@, kind@, source@, views(options@)),
{
    OciMount { destination: owned(destination), kind: owned(kind), source: owned(source), options }
}

/// The mounts every container of this kind gets.
fn fixed_mount_list(read_only: bool, rootless: bool) -> (r: Vec<OciMount>)
    ensures
        r@.map_values(|m: OciMount| mount_view(m)) == fixed_mounts(read_only, rootless),
{
    let mut r: Vec<OciMount> = Vec::new();
    let o1: Vec<String> = Vec::new();
    assert(views(o1@) =~= Seq::<Seq<char>>::empty());
    r.push(mount("/proc", "proc", "proc", o1));
    let mut o2 = four("nosuid", "strictatime", "mode=755", "size=65536k");
    r.push(mount("/dev", "tmpfs", "tmpfs", o2));
    let ghost base = r@.map_values(|m: OciMount| mount_view(m));
    assert(base =~= fixed_mounts(false, true));
    if read_only {
        let mut a = four("nosuid", "nodev", "mode=1777", "size=65536k");
        r.push(mount("/tmp", "tmpfs", "tmpfs", a));
        let mut b = four("nosuid", "nodev", "mode=755", "size=65536k");
        r.push(mount("/run", "tmpfs", "tmpfs", b));
    }
    let ghost mid = r@.map_values(|m: OciMount| mount_view(m));
    assert(mid =~= fixed_mounts(read_only, true));
    if !rootless {
        let mut a = four("nosuid", "noexec", "newinstance", "ptmxmode=0666");
        let ghost a4 = views(a@);
        a.push(owned("mode=0620"));
        assert(views(a@) =~= a4.push("mode=0620"@));
        assert(views(a@) =~= seq!["nosuid"@, "noexec"@, "newinstance"@, "ptmxmode=0666"@, "mode=0620"@]);
        let m1 = mount("/dev/pts", "devpts", "devpts", a);
        assert(mount_view(m1) == fixed_mounts(read_only, false)[mid.len() as int]);
        r.push(m1);
        let mut b = four("nosuid", "noexec", "nodev", "mode=1777");
        let ghost b4 = views(b@);
        b.push(owned("size=65536k"));
        assert(views(b@) =~= b4.push("size=65536k"@));
        assert(views(b@) =~= seq!["nosuid"@, "noexec"@, "nodev"@, "mode=1777"@, "size=65536k"@]);
        let m2 = mount("/dev/shm", "tmpfs", "shm", b);
        assert(mount_view(m2) == fixed_mounts(read_only, false)[mid.len() as int + 1]);
        r.push(m2);
        let mut c = four("nosuid", "noexec", "nodev", "ro");
        let m3 = mount("/sys", "sysfs", "sysfs", c);
        assert(mount_view(m3) == fixed_mounts(read_only, false)[mid.len() as int + 2]);
        r.push(m3);
        assert(r@.map_values(|m: OciMount| mount_view(m)) =~= mid + seq![
            mount_view(r@[r@.len() - 3]),
            mount_view(r@[r@.len() - 2]),
            mount_view(r@[r@.len() - 1]),
        ]);
    }
    assert(r@.map_values(|m: OciMount| mount_view(m)) =~= fixed_mounts(read_only, rootless));
    r
}

/// Four texts.
fn four(a: &str, b: &str, c: &str, d: &str) -> (v: Vec<String>)
    ensures
        views(v@) == seq![a@, b@, c@, d@],
{
    let mut v: Vec<String> = Vec::new();
    v.push(owned(a));
    v.push(owned(b));
    v.push(owned(c));
    v.push(owned(d));
    assert(views(v@) =~= seq![a@, b@, c@, d@]);
    v
}

/// Two mount views agree.
spec fn mv_eq(a: (Seq<char>, Seq<char>, Seq<char>, Seq<Seq<char>>), b: (Seq<char>, Seq<char>, Seq<char>, Seq<Seq<char>>)) -> bool {
    a == b
}

/// The mounts of a container.
pub fn build_mounts(read_only: bool, rootless: bool, binds: &Vec<(String, String)>) -> (r: Vec<OciMount>)
    ensures
        r@.map_values(|m: OciMount| mount_view(m)) == oci_mounts(read_only, rootless, pairs_view(binds@)),
{
    let mut r = fixed_mount_list(read_only, rootless);
    let ghost fixed = r@.map_values(|m: OciMount| mount_view(m));
    assert(fixed =~= oci_mounts(read_only, rootless, Seq::empty()));
    assert(pairs_view(binds@).take(0) =~= Seq::<(Seq<char>, Seq<char>)>::empty());
    let mut i: usize = 0;
    while i < binds.len()
        invariant
            i <= binds.len(),
            r@.map_values(|m: OciMount| mount_view(m)) == oci_mounts(
                read_only,
                rootless,
                pairs_view(binds@).take(i as int),
            ),
        decreases binds.len() - i,
    {
        let ghost prev = r@.map_values(|m: OciMount| mount_view(m));
        let mut o: Vec<String> = Vec::new();
        o.push(owned("bind"));
        o.push(owned("rprivate"));
        o.push(owned("rw"));
        assert(views(o@) =~= seq!["bind"@, "rprivate"@, "rw"@]);
        let m = mount(binds[i].0.as_str(), "bind", binds[i].1.as_str(), o);
        assert(mv_eq(mount_view(m), bind_mount((binds@[i as int].0@, binds@[i as int].1@))));
        let ghost mv = mount_view(m);
        r.push(m);
        assert(r@.map_values(|m: OciMount| mount_view(m)) =~= prev.push(mv));
        assert(pairs_view(binds@).take(i + 1) =~= pairs_view(binds@).take(i as int).push(
            (binds@[i as int].0@, binds@[i as int].1@),
        ));
        assert(pairs_view(binds@).take(i + 1).map_values(|b: (Seq<char>, Seq<char>)| bind_mount(b)) =~= pairs_view(
            binds@,
        ).take(i as int).map_values(|b: (Seq<char>, Seq<char>)| bind_mount(b)).push(mv));
        assert(oci_mounts(read_only, rootless, pairs_view(binds@).take(i + 1)) =~= oci_mounts(
            read_only,
            rootless,
            pairs_view(binds@).take(i as int),
        ).push(mv));
        i += 1;
    }
    assert(pairs_view(binds@).take(binds.len() as int) =~= pairs_view(binds@));
    r
}

/// The environment of the process.
fn process_env_exec(env: &Vec<(String, String)>) -> (r: Vec<String>)
    ensures
        views(r@) == process_env(pairs_view(env@)),
{
    let mut r: Vec<String> = Vec::new();
    r.push(owned("PATH=/usr/local/sbin:/usr/local/bin:/usr/sbin:/usr/bin:/sbin:/bin"));
    r.push(owned("TERM=xterm"));
    r.push(owned("HOME=/root"));
    assert(views(r@) =~= base_env());
    let mut i: usize = 0;
    while i < env.len()
        invariant
            i <= env.len(),
            views(r@) == base_env() + pairs_view(env@).take(i as int).map_values(
                |p: (Seq<char>, Seq<char>)| p.0 + "="@ + p.1,
            ),
        decreases env.len() - i,
    {
        let ghost prev = views(r@);
        let line = concat3(env[i].0.as_str(), "=", env[i].1.as_str());
        r.push(line);
        assert(views(r@) =~= prev.push(line@));
        assert(pairs_view(env@).take(i + 1).map_values(|p: (Seq<char>, Seq<char>)| p.0 + "="@ + p.1) =~= pairs_view(
            env@,
        ).take(i as int).map_values(|p: (Seq<char>, Seq<char>)| p.0 + "="@ + p.1).push(line@));
        i += 1;
    }
    assert(pairs_view(env@).take(env.len() as int) =~= pairs_view(env@));
    r
}

/// A copy of a list of texts.
fn copy_list(v: &Vec<String>) -> (r: Vec<String>)
    ensures
        views(r@) == views(v@),
{
    let mut r: Vec<String> = Vec::new();
    let mut i: usize = 0;
    while i < v.len()
        invariant
            i <= v.len(),
            views(r@) == views(v@).take(i as int),
        decreases v.len() - i,
    {
        let ghost prev = views(r@);
        r.push(v[i].clone());
        assert(views(r@) =~= prev.push(v@[i as int]@));
        assert(views(v@).take(i + 1) =~= views(v@).take(i as int).push(v@[i as int]@));
        i += 1;
    }
    assert(views(v@).take(v.len() as int) =~= views(v@));
    r
}

/// The capabilities a container keeps when it runs as root.
fn default_capabilities_exec() -> (r: Vec<String>)
    ensures
        views(r@) == default_capabilities(),
{
    let mut r = four("CAP_AUDIT_WRITE", "CAP_CHOWN", "CAP_DAC_OVERRIDE", "CAP_FOWNER");
    let ghost a = views(r@);
    let b = four("CAP_FSETID", "CAP_KILL", "CAP_MKNOD", "CAP_NET_BIND_SERVICE");
    let c = four("CAP_NET_RAW", "CAP_SETGID", "CAP_SETFCAP", "CAP_SETUID");
    let mut i: usize = 0;
    let mut rest: Vec<String> = Vec::new();
    rest.push(owned("CAP_SETPCAP"));
    rest.push(owned("CAP_SYS_CHROOT"));
    let all = [b, c, rest];
    let ghost parts = seq![views(all[0]@), views(all[1]@), views(all[2]@)];
    assert(views(all[2]@) =~= seq!["CAP_SETPCAP"@, "CAP_SYS_CHROOT"@]);
    while i < 3
        invariant
            i <= 3,
            parts == seq![views(all@[0]@), views(all@[1]@), views(all@[2]@)],
            views(r@) == a + (if i >= 1 {
                parts[0]
            } else {
                Seq::empty()
            }) + (if i >= 2 {
                parts[1]
            } else {
                Seq::empty()
            }) + (if i >= 3 {
                parts[2]
            } else {
                Seq::empty()
            }),
        decreases 3 - i,
    {
        let ghost prev = views(r@);
        let mut j: usize = 0;
        while j < all[i].len()
            invariant
                j <= all@[i as int].len(),
                i < 3,
                views(r@) == prev + views(all@[i as int]@).take(j as int),
            decreases all@[i as int].len() - j,
        {
            let ghost p2 = views(r@);
            r.push(all[i][j].clone());
            assert(views(r@) =~= p2.push(all@[i as int]@[j as int]@));
            assert(views(all@[i as int]@).take(j + 1) =~= views(all@[i as int]@).take(j as int).push(all@[i as int]@[j as int]@));
            j += 1;
        }
        assert(views(all@[i as int]@).take(all@[i as int].len() as int) =~= views(all@[i as int]@));
        i += 1;
        assert(views(r@) =~= a + (if i >= 1 {
            parts[0]
        } else {
            Seq::empty()
        }) + (if i >= 2 {
            parts[1]
        } else {
            Seq::empty()
        }) + (if i >= 3 {
            parts[2]
        } else {
            Seq::empty()
        }));
    }
    assert(views(r@) =~= default_capabilities());
    r
}

/// Appends each text of `b` to `a`.
fn extend_texts(a: &mut Vec<String>, b: Vec<String>)
    ensures
        views(final(a)@) == views(old(a)@) + views(b@),
{
    let ghost start = views(a@);
    let mut i: usize = 0;
    while i < b.len()
        invariant
            i <= b.len(),
            views(a@) == start + views(b@).take(i as int),
        decreases b.len() - i,
    {
        let ghost prev = views(a@);
        a.push(b[i].clone());
        assert(views(a@) =~= prev.push(b@[i as int]@));
        assert(views(b@).take(i + 1) =~= views(b@).take(i as int).push(b@[i as int]@));
        i += 1;
    }
    assert(views(b@).take(b.len() as int) =~= views(b@));
}

/// The paths hidden from a container that runs as root.
fn default_masked_paths_exec() -> (r: Vec<String>)
    ensures
        views(r@) == default_masked_paths(),
{
    let mut r = four("/proc/acpi", "/proc/asound", "/proc/kcore", "/proc/keys");
    extend_texts(&mut r, four("/proc/latency_stats", "/proc/timer_list", "/proc/timer_stats", "/proc/sched_debug"));
    let ghost prev = views(r@);
    r.push(owned("/sys/firmware"));
    assert(views(r@) =~= prev.push("/sys/firmware"@));
    assert(views(r@) =~= default_masked_paths());
    r
}

/// The paths a container that runs as root sees read-only.
fn default_readonly_paths_exec() -> (r: Vec<String>)
    ensures
        views(r@) == default_readonly_paths(),
{
    let mut r = four("/proc/bus", "/proc/fs", "/proc/irq", "/proc/sys");
    let ghost prev = views(r@);
    r.push(owned("/proc/sysrq-trigger"));
    assert(views(r@) =~= prev.push("/proc/sysrq-trigger"@));
    assert(views(r@) =~= default_readonly_paths());
    r
}

/// The namespaces of a container.
fn namespaces_exec(rootless: bool, host_network: bool) -> (r: Vec<String>)
    ensures
        views(r@) == oci_namespaces(rootless, host_network),
{
    let mut r = four("pid", "ipc", "uts", "mount");
    let ghost base = views(r@);
    if rootless {
        r.push(owned("user"));
    }
    let ghost mid = views(r@);
    assert(mid =~= base + (if rootless {
        seq!["user"@]
    } else {
        Seq::<Seq<char>>::empty()
    }));
    if !host_network {
        r.push(owned("network"));
    }
    assert(views(r@) =~= mid + (if !host_network {
        seq!["network"@]
    } else {
        Seq::<Seq<char>>::empty()
    }));
    r
}

/// The runtime configuration of a container that runs `cmd` with the
/// variables `env` (after the fixed ones) in `cwd` (`/` when empty), with the
/// bind mounts `binds` (destination, source); rootless containers run in a
/// user namespace mapped to `uid`/`gid` and keep no capabilities; a memory
/// limit counts only when positive; `cpu_quota` is the quota per period of
/// 100000 when a CPU limit is set.
pub fn generate_config_json(
    cmd: &Vec<String>,
    env: &Vec<(String, String)>,
    cwd: &str,
    binds: &Vec<(String, String)>,
    host_network: bool,
    memory_limit: i64,
    cpu_quota: Option<i64>,
    oom_score_adj: Option<i32>,
    read_only: bool,
    rootless: bool,
    uid: u32,
    gid: u32,
) -> (r: OciSpec)
    ensures
        views(r.args@) == views(cmd@),
        views(r.env@) == process_env(pairs_view(env@)),
        r.cwd@ == (if cwd@.len() == 0 {
            "/"@
        } else {
            cwd@
        }),
        r.oom_score_adj == oom_score_adj,
        match r.capabilities {
            Some(c) => !rootless && views(c@) == default_capabilities(),
            None => rootless,
        },
        r.readonly_root == read_only,
        r.mounts@.map_values(|m: OciMount| mount_view(m)) == oci_mounts(read_only, rootless, pairs_view(binds@)),
        views(r.namespaces@) == oci_namespaces(rootless, host_network),
        r.memory_limit == (if memory_limit > 0 {
            Some(memory_limit)
        } else {
            None
        }),
        r.cpu == match cpu_quota {
            Some(q) => Some((100000u64, q)),
            None => None,
        },
        r.uid_mapping == (if rootless {
            Some(uid)
        } else {
            None
        }),
        r.gid_mapping == (if rootless {
            Some(gid)
        } else {
            None
        }),
        match r.masked_paths {
            Some(c) => !rootless && views(c@) == default_masked_paths(),
            None => rootless,
        },
        match r.readonly_paths {
            Some(c) => !rootless && views(c@) == default_readonly_paths(),
            None => rootless,
        },
{
    OciSpec {
        args: copy_list(cmd),
        env: process_env_exec(env),
        cwd: if cwd.is_empty() {
            owned("/")
        } else {
            owned(cwd)
        },
        oom_score_adj,
        capabilities: if rootless {
            None
        } else {
            Some(default_capabilities_exec())
        },
        readonly_root: read_only,
        mounts: build_mounts(read_only, rootless, binds),
        namespaces: namespaces_exec(rootless, host_network),
        memory_limit: if memory_limit > 0 {
            Some(memory_limit)
        } else {
            None
        },
        cpu: match cpu_quota {
            Some(q) => Some((100000u64, q)),
            None => None,
        },
        uid_mapping: if rootless {
            Some(uid)
        } else {
            None
        },
        gid_mapping: if rootless {
            Some(gid)
        } else {
            None
        },
        masked_paths: if rootless {
            None
        } else {
            Some(default_masked_paths_exec())
        },
        readonly_paths: if rootless {
            None
        } else {
            Some(default_readonly_paths_exec())
        },
    }
}

/// Where a mount entry `host:container` of a container binds from, with its
/// destination: a named volume (a host part starting with none of `/`, `.`,
/// `~`) lies under `<data_dir>/volumes`; other host paths are taken as given.
/// Entries without `:` mount nothing.
pub open spec fn bind_source_of(data_dir: Seq<char>, m: Seq<char>) -> Option<(Seq<char>, Seq<char>)> {
    match split_once(m, ":"@) {
        (host, Some(cont)) => Some(
            (
                if is_named_volume(host) {
                    crate::paths::path_join(crate::paths::path_join(data_dir, "volumes"@), host)
                } else {
                    host
                },
                cont,
            ),
        ),
        (_, None) => None,
    }
}

/// Where a mount entry of a container binds from, and its destination.
pub fn bind_source(data_dir: &str, m: &str) -> (r: Option<(String, String)>)
    ensures
        match bind_source_of(data_dir@, m@) {
            Some((h, c)) => r matches Some((a, b)) && a@ == h && b@ == c,
            None => r is None,
        },
{
    let (host, rest) = split_once_exec(m, ":");
    match rest {
        Some(cont) => {
            let h = host.as_str();
            let named = !starts_with_exec(h, "/") && !starts_with_exec(h, ".") && !starts_with_exec(h, "~");
            let resolved = if named {
                let v = crate::paths::join_path(data_dir, "volumes");
                crate::paths::join_path(v.as_str(), h)
            } else {
                owned(h)
            };
            Some((resolved, cont))
        },
        None => None,
    }
}

/// The default variables of an image (`NAME=value` items; others are
/// ignored), as name/value pairs in order.
pub open spec fn image_env_pairs(items: Seq<Seq<char>>) -> Seq<(Seq<char>, Seq<char>)>
    decreases items.len(),
{
    if items.len() == 0 {
        Seq::empty()
    } else {
        match split_once(items.last(), "="@) {
            (k, Some(v)) => image_env_pairs(items.drop_last()).push((k, v)),
            (_, None) => image_env_pairs(items.drop_last()),
        }
    }
}

/// Adds to a container's environment the image's default variables that it
/// does not set.
pub fn merge_image_env(env: &mut Vec<(String, String)>, items: &Vec<String>)
    ensures
        pairs_view(final(env)@) == env_merge(pairs_view(old(env)@), image_env_pairs(views(items@))),
{
    let mut pairs: Vec<(String, String)> = Vec::new();
    let mut i: usize = 0;
    while i < items.len()
        invariant
            i <= items.len(),
            pairs_view(pairs@) == image_env_pairs(views(items@).take(i as int)),
        decreases items.len() - i,
    {
        assert(views(items@).take(i + 1).drop_last() =~= views(items@).take(i as int));
        assert(views(items@).take(i + 1).last() == items@[i as int]@);
        let (k, rest) = split_once_exec(items[i].as_str(), "=");
        match rest {
            Some(v) => {
                let ghost prev = pairs_view(pairs@);
                let ghost kv = (k@, v@);
                pairs.push((k, v));
                assert(pairs_view(pairs@) =~= prev.push(kv));
            },
            None => {},
        }
        i += 1;
    }
    assert(views(items@).take(items.len() as int) =~= views(items@));
    crate::compose_plan::merge_env_files(env, &pairs);
}

/// The working directory of a container: the one asked for, or when none was,
/// the image's `WorkingDir` if it has one.
pub fn resolve_cwd(cwd: &str, image_workdir: Option<String>) -> (r: String)
    ensures
        r@ == (if cwd@.len() == 0 {
            match image_workdir {
                Some(w) => w@,
                None => cwd@,
            }
        } else {
            cwd@
        }),
{
    if cwd.is_empty() {
        match image_workdir {
            Some(w) => w,
            None => owned(cwd),
        }
    } else {
        owned(cwd)
    }
}

/// Whether a container's `/etc/group` needs a `bitnami` group: its
/// `/etc/passwd` has a `bitnami` user and its groups have none.
pub fn needs_bitnami_group(passwd: &str, group: &str) -> (b: bool)
    ensures
        b == (contains(passwd@, "bitnami:"@) && !contains(group@, "bitnami:"@)),
{
    contains_exec(passwd, "bitnami:") && !contains_exec(group, "bitnami:")
}

} // verus!
